//! Finding processes by their command line, telling a live editor from a stale
//! process id, and reading exit statuses.

use vstd::prelude::*;
use vstd::string::*;
use vstd::utf8::encode_utf8;

use crate::paths;
use crate::text;

verus! {

// ---------------------------------------------------------------------------
// Bytes, ignoring ASCII case
// ---------------------------------------------------------------------------

/// `b` as an ASCII lower-case letter where it is an ASCII capital.
pub open spec fn lower(b: u8) -> u8 {
    if 0x41 <= b <= 0x5a {
        (b + 0x20) as u8
    } else {
        b
    }
}

/// Whether `a` and `b` differ in the case of ASCII letters at most.
pub open spec fn same_ignoring_case(a: Seq<u8>, b: Seq<u8>) -> bool {
    a.len() == b.len() && forall|i: int| 0 <= i < a.len() ==> lower(#[trigger] a[i]) == lower(b[i])
}

/// Whether `needle` stands in `haystack` at `at`, ignoring ASCII case.
pub open spec fn found_at(haystack: Seq<u8>, needle: Seq<u8>, at: int) -> bool {
    &&& 0 <= at <= haystack.len() - needle.len()
    &&& same_ignoring_case(haystack.subrange(at, at + needle.len()), needle)
}

/// Whether `needle` stands anywhere in `haystack`, ignoring ASCII case.
pub open spec fn found_in(haystack: Seq<u8>, needle: Seq<u8>) -> bool {
    exists|at: int| found_at(haystack, needle, at)
}

fn to_lower(b: u8) -> (r: u8)
    ensures
        r == lower(b),
{
    if 0x41 <= b && b <= 0x5a {
        b + 0x20
    } else {
        b
    }
}

/// Whether `a` and `b` differ in the case of ASCII letters at most.
pub fn eq_ignore_ascii_case(a: &[u8], b: &[u8]) -> (r: bool)
    ensures
        r == same_ignoring_case(a@, b@),
{
    if a.len() != b.len() {
        return false;
    }
    for i in 0..a.len()
        invariant
            a@.len() == b@.len(),
            forall|j: int| 0 <= j < i ==> lower(#[trigger] a@[j]) == lower(b@[j]),
    {
        if to_lower(a[i]) != to_lower(b[i]) {
            return false;
        }
    }
    true
}

/// Whether `needle` stands anywhere in `haystack`, ignoring ASCII case.
pub fn memmem_ci(haystack: &[u8], needle: &[u8]) -> (r: bool)
    ensures
        r == found_in(haystack@, needle@),
{
    if needle.len() > haystack.len() {
        return false;
    }
    let windows: usize = haystack.len() - needle.len();
    let mut at: usize = 0;
    loop
        invariant
            windows == haystack.len() - needle.len(),
            at <= windows,
            forall|k: int| 0 <= k < at ==> !found_at(haystack@, needle@, k),
        decreases windows - at,
    {
        let window = vstd::slice::slice_subrange(haystack, at, at + needle.len());
        if eq_ignore_ascii_case(window, needle) {
            assert(found_at(haystack@, needle@, at as int));
            return true;
        }
        assert(!found_at(haystack@, needle@, at as int));
        if at == windows {
            return false;
        }
        at += 1;
    }
}

// ---------------------------------------------------------------------------
// The process list
// ---------------------------------------------------------------------------

/// How many process ids to make room for when the system reports `needed`:
/// some slack, since processes may start in between.
pub open spec fn room_for(needed: i32) -> Option<usize> {
    if needed <= 0 {
        None
    } else {
        Some((needed + 64) as usize)
    }
}

/// There is room for all processes that the system reports and for some more,
/// and there is none where it reports none.
pub proof fn room_is_enough(needed: i32)
    ensures
        needed <= 0 <==> room_for(needed) is None,
        room_for(needed) matches Some(n) ==> n - needed == 64,
{
}

/// How many process ids to make room for when the system reports `needed`;
/// `None` where it reports nothing.
pub fn pid_capacity(needed: i32) -> (r: Option<usize>)
    ensures
        r == room_for(needed),
{
    if needed <= 0 {
        None
    } else {
        Some(needed as usize + 64)
    }
}

/// The process ids that were filled in, when the system reports that it wrote
/// `written` of them into `pids`. The report is not trusted beyond the room.
pub open spec fn written_pids(pids: Seq<i32>, written: i32) -> Seq<i32> {
    if written <= 0 {
        Seq::empty()
    } else if written < pids.len() {
        pids.take(written as int)
    } else {
        pids
    }
}

/// The process ids that were filled in are the first ones, as many as the system
/// reports, and no more than there are.
pub proof fn written_pids_come_first(pids: Seq<i32>, written: i32, i: int)
    ensures
        0 <= i < written && i < pids.len() <==> 0 <= i < written_pids(pids, written).len(),
        0 <= i < written_pids(pids, written).len() ==> written_pids(pids, written)[i] == pids[i],
{
}

/// The process ids that were filled in, when the system reports that it wrote
/// `written` of them into `pids`.
pub fn listed_pids(pids: Vec<i32>, written: i32) -> (r: Vec<i32>)
    ensures
        r@ == written_pids(pids@, written),
{
    let mut out = pids;
    if written <= 0 {
        out.clear();
    } else if (written as usize) < out.len() {
        out.truncate(written as usize);
        assert(out@ =~= pids@.take(written as int));
    }
    out
}

/// The bytes of a text are those of its parts, one after the other.
pub proof fn lemma_encode_concat(a: Seq<char>, b: Seq<char>)
    ensures
        encode_utf8(a + b) == encode_utf8(a) + encode_utf8(b),
    decreases a.len(),
{
    if a.len() == 0 {
        assert(a + b =~= b);
        assert(encode_utf8(a) + encode_utf8(b) =~= encode_utf8(b));
    } else {
        lemma_encode_concat(a.drop_first(), b);
        assert((a + b).drop_first() =~= a.drop_first() + b);
        assert(encode_utf8(a + b) =~= encode_utf8(a) + encode_utf8(b));
    }
}

// ---------------------------------------------------------------------------
// Searching the process list
// ---------------------------------------------------------------------------

/// `bytes` with a space in place of each NUL.
pub open spec fn blanked(bytes: Seq<u8>) -> Seq<u8> {
    Seq::new(bytes.len(), |i: int| if bytes[i] == 0 { 0x20u8 } else { bytes[i] })
}

/// How many bytes stand before the arguments in a process's argument block:
/// the argument count.
pub const ARGC_BYTES: usize = 4;

/// The arguments in an argument block, as one text with a space between them.
pub open spec fn command_line(block: Seq<u8>) -> Seq<u8> {
    blanked(block.skip(ARGC_BYTES as int))
}

/// The short process name that a search for `needle` looks for.
pub open spec fn wanted_name(needle: Seq<char>) -> Seq<u8> {
    encode_utf8(text::first_word(needle))
}

/// Whether a process with this short name passes the search's first filter.
pub open spec fn name_passes(wanted: Seq<u8>, name: Option<Seq<u8>>) -> bool {
    name matches Some(n) && n.len() > 0 && same_ignoring_case(n, wanted)
}

/// Whether an argument ends at `at`, where `args` are arguments with a NUL after
/// each one.
pub open spec fn argument_ends(args: Seq<u8>, at: int) -> bool {
    at == args.len() || args[at] == 0
}

/// Whether the byte at `i` leads to no other directory in a path that ends at
/// `end`: it is a slash, or a dot that stands alone between slashes.
pub open spec fn stays(path: Seq<u8>, i: int, end: int) -> bool {
    ||| path[i] == 0x2f
    ||| {
        &&& path[i] == 0x2e
        &&& 0 < i && path[i - 1] == 0x2f
        &&& i + 1 == end || path[i + 1] == 0x2f
    }
}

/// Whether what stands between `at` and `end` ends an argument, and leads to no
/// other directory where it goes on a path.
pub open spec fn path_ends_by(args: Seq<u8>, at: int, end: int) -> bool {
    &&& at <= end <= args.len()
    &&& argument_ends(args, end)
    &&& forall|i: int| at <= i < end ==> #[trigger] stays(args, i, end)
}

/// Whether a path in some arguments ends at `at`: its argument ends there, or goes
/// on in a way that leads to no other directory, such as with a slash.
pub open spec fn path_ends(args: Seq<u8>, at: int) -> bool {
    exists|end: int| path_ends_by(args, at, end)
}

/// Whether `needle` stands at `at` in some arguments, a space taken for each NUL,
/// so that its last `tail` bytes lie in one argument and are a path to its end.
pub open spec fn closes_argument(args: Seq<u8>, needle: Seq<u8>, tail: nat, at: int) -> bool {
    &&& found_at(blanked(args), needle, at)
    &&& path_ends(args, at + needle.len())
    &&& forall|i: int|
        at + needle.len() - tail <= i < at + needle.len() ==> #[trigger] args[i] != 0
}

/// Whether `needle` stands anywhere in some arguments, a space taken for each
/// NUL, so that its last `tail` bytes lie in one argument and are a path to its
/// end.
pub open spec fn closes_some_argument(args: Seq<u8>, needle: Seq<u8>, tail: nat) -> bool {
    exists|at: int| closes_argument(args, needle, tail, at)
}

/// Whether a process with this argument block passes the search's second filter:
/// its command line holds the needle, and where `tail` is given, the last `tail`
/// bytes of the needle lie in one argument and are a path to its end.
pub open spec fn args_pass(needle: Seq<u8>, tail: Option<nat>, block: Option<Seq<u8>>) -> bool {
    match (block, tail) {
        (None, _) => false,
        (Some(b), None) => found_in(command_line(b), needle),
        (Some(b), Some(n)) => closes_some_argument(b.skip(ARGC_BYTES as int), needle, n),
    }
}

/// What a search for `needle` is to find: the processes whose short name is the
/// needle's first word and whose command line holds the needle.
pub open spec fn process_matches(
    needle: Seq<char>,
    pid: i32,
    name: Option<Seq<u8>>,
    block: Option<Seq<u8>>,
) -> bool {
    &&& pid > 0
    &&& name_passes(wanted_name(needle), name)
    &&& args_pass(encode_utf8(needle), None, block)
}

/// What a search for the editor of `project` is to find: the processes with the
/// editor's short name whose command line says that they run on the project. The
/// project's path has to be an argument to its end, since another project's path
/// may begin with it. Slashes may follow it: the path of a directory may be
/// written with one.
pub open spec fn editor_matches(
    project: Seq<char>,
    pid: i32,
    name: Option<Seq<u8>>,
    block: Option<Seq<u8>>,
) -> bool {
    let needle = paths::project_needle(project);
    &&& pid > 0
    &&& name_passes(wanted_name(needle), name)
    &&& args_pass(encode_utf8(needle), Some(encode_utf8(project).len()), block)
}

/// What a running search knows.
pub struct ScanState {
    /// The bytes looked for in the command line.
    pub needle: Seq<u8>,
    /// The short name looked for.
    pub wanted: Seq<u8>,
    /// How many of the last bytes looked for have to lie in one argument and be a
    /// path to its end, where that matters.
    pub tail: Option<nat>,
    /// Whether the first match ends the search.
    pub first_only: bool,
    /// The process ids still to be examined; the first one is being examined.
    pub rest: Seq<i32>,
    /// Whether the name of the process being examined has passed.
    pub named: bool,
    /// The matches so far.
    pub found: Seq<i32>,
}

/// `pids` from its first positive entry on.
pub open spec fn from_positive(pids: Seq<i32>) -> Seq<i32>
    decreases pids.len(),
{
    if pids.len() > 0 && pids[0] <= 0 {
        from_positive(pids.skip(1))
    } else {
        pids
    }
}

impl ScanState {
    /// A search that has examined nothing yet.
    pub open spec fn started(needle: Seq<char>, pids: Seq<i32>, first_only: bool) -> ScanState {
        ScanState {
            needle: encode_utf8(needle),
            wanted: wanted_name(needle),
            tail: None,
            first_only,
            rest: from_positive(pids),
            named: false,
            found: Seq::empty(),
        }
    }

    /// A search for the editor of a project that has examined nothing yet.
    pub open spec fn for_editor(project: Seq<char>, pids: Seq<i32>) -> ScanState {
        ScanState {
            tail: Some(encode_utf8(project).len()),
            ..ScanState::started(paths::project_needle(project), pids, true)
        }
    }

    /// The search, done with the process being examined.
    pub open spec fn advanced(self) -> ScanState {
        ScanState { rest: from_positive(self.rest.skip(1)), named: false, ..self }
    }

    /// The search, once the system has answered the question that it asks.
    pub open spec fn answered(self, reply: Option<Seq<u8>>) -> ScanState {
        if self.rest.len() == 0 {
            self
        } else if !self.named {
            if name_passes(self.wanted, reply) {
                ScanState { named: true, ..self }
            } else {
                self.advanced()
            }
        } else if args_pass(self.needle, self.tail, reply) {
            let found = self.found.push(self.rest[0]);
            if self.first_only {
                ScanState { found, rest: Seq::empty(), named: false, ..self }
            } else {
                ScanState { found, ..self }.advanced()
            }
        } else {
            self.advanced()
        }
    }

    /// What the search asks the system next.
    pub open spec fn question(self) -> ScanQuestion {
        if self.rest.len() == 0 {
            ScanQuestion::Nothing
        } else if self.named {
            ScanQuestion::Arguments(self.rest[0])
        } else {
            ScanQuestion::Name(self.rest[0])
        }
    }
}

/// What a search needs from the system.
#[derive(Clone, Copy, Debug, PartialEq, Eq, Structural)]
pub enum ScanQuestion {
    /// The short name of a process.
    Name(i32),
    /// The argument block of a process.
    Arguments(i32),
    /// Nothing: the search is over.
    Nothing,
}

/// A search through the process list. It asks for a process's argument block
/// only where the short name has passed, since reading the block is slow.
pub struct ProcessScan {
    needle: Vec<u8>,
    wanted: Vec<u8>,
    tail: Option<usize>,
    first_only: bool,
    pids: Vec<i32>,
    at: usize,
    named: bool,
    found: Vec<i32>,
}

impl View for ProcessScan {
    type V = ScanState;

    closed spec fn view(&self) -> ScanState {
        ScanState {
            needle: self.needle@,
            wanted: self.wanted@,
            tail: match self.tail {
                Some(n) => Some(n as nat),
                None => None,
            },
            first_only: self.first_only,
            rest: self.pids@.skip(self.at as int),
            named: self.named,
            found: self.found@,
        }
    }
}

fn next_positive(pids: &Vec<i32>, from: usize) -> (r: usize)
    requires
        from <= pids@.len(),
    ensures
        from <= r <= pids@.len(),
        from_positive(pids@.skip(from as int)) == pids@.skip(r as int),
{
    let mut i: usize = from;
    while i < pids.len() && pids[i] <= 0
        invariant
            from <= i <= pids@.len(),
            from_positive(pids@.skip(from as int)) == from_positive(pids@.skip(i as int)),
        decreases pids@.len() - i,
    {
        assert(pids@.skip(i as int).skip(1) =~= pids@.skip(i + 1));
        i += 1;
    }
    i
}

/// Starts a search for all processes that match `needle`.
pub fn find_processes(needle: &str, pids: Vec<i32>) -> (r: ProcessScan)
    ensures
        r.wf(),
        r@ == ScanState::started(needle@, pids@, false),
{
    find_processes_impl(needle, pids, None, false)
}

/// Starts a search for the first process that matches `needle`.
pub fn find_process(needle: &str, pids: Vec<i32>) -> (r: ProcessScan)
    ensures
        r.wf(),
        r@ == ScanState::started(needle@, pids@, true),
{
    find_processes_impl(needle, pids, None, true)
}

/// Starts a search for the first process that is the editor of `project`.
pub fn find_editor(project: &str, pids: Vec<i32>) -> (r: ProcessScan)
    ensures
        r.wf(),
        r@ == ScanState::for_editor(project@, pids@),
{
    let needle = paths::editor_needle(project);
    let tail: usize = project.as_bytes_vec().len();
    proof {
        lemma_encode_concat("Unity -projectPath "@, project@);
    }
    find_processes_impl(needle.as_str(), pids, Some(tail), true)
}

fn find_processes_impl(
    needle: &str,
    pids: Vec<i32>,
    tail: Option<usize>,
    first_only: bool,
) -> (r: ProcessScan)
    requires
        tail matches Some(n) ==> n <= encode_utf8(needle@).len(),
    ensures
        r.wf(),
        r@ == (ScanState {
            tail: match tail {
                Some(n) => Some(n as nat),
                None => None,
            },
            ..ScanState::started(needle@, pids@, first_only)
        }),
{
    let word = text::first_word_of(needle);
    let at: usize = next_positive(&pids, 0);
    assert(pids@.skip(0) =~= pids@);
    let scan = ProcessScan {
        needle: needle.as_bytes_vec(),
        wanted: word.as_str().as_bytes_vec(),
        tail,
        first_only,
        pids,
        at,
        named: false,
        found: Vec::new(),
    };
    scan
}

impl ProcessScan {
    /// That the search stands at a place in its list.
    pub closed spec fn wf(&self) -> bool {
        &&& self.at <= self.pids@.len()
        &&& self.tail matches Some(n) ==> n <= self.needle@.len()
    }

    /// What the search needs from the system next.
    pub fn question(&self) -> (r: ScanQuestion)
        requires
            self.wf(),
        ensures
            r == self@.question(),
    {
        if self.at == self.pids.len() {
            ScanQuestion::Nothing
        } else if self.named {
            ScanQuestion::Arguments(self.pids[self.at])
        } else {
            ScanQuestion::Name(self.pids[self.at])
        }
    }

    fn advance(&mut self)
        requires
            old(self).wf(),
            old(self)@.rest.len() > 0,
        ensures
            final(self).wf(),
            final(self)@ == old(self)@.advanced(),
    {
        assert(self.at < self.pids.len());
        let at: usize = next_positive(&self.pids, self.at + 1);
        assert(self.pids@.skip(self.at as int).skip(1) =~= self.pids@.skip(self.at + 1));
        self.at = at;
        self.named = false;
    }

    /// Takes the system's reply to the question: the name, or the argument
    /// block, or nothing where it could not be read. An argument block is never
    /// shorter than its argument count.
    pub fn answer(&mut self, reply: Option<Vec<u8>>)
        requires
            old(self).wf(),
            old(self)@.question() is Arguments ==> (reply matches Some(block) ==> block@.len()
                >= ARGC_BYTES),
        ensures
            final(self).wf(),
            final(self)@ == old(self)@.answered(reply.deep_view()),
    {
        if self.at == self.pids.len() {
            return;
        }
        proof {
            if reply is Some {
                assert(reply->0.deep_view() =~= reply->0@);
            }
        }
        if !self.named {
            let passes = match &reply {
                Some(name) => name.len() > 0 && eq_ignore_ascii_case(
                    name.as_slice(),
                    self.wanted.as_slice(),
                ),
                None => false,
            };
            if passes {
                self.named = true;
            } else {
                self.advance();
            }
        } else {
            let passes = match reply {
                Some(block) => {
                    let line = command_line_of(block.as_slice());
                    match self.tail {
                        None => memmem_ci(line.as_slice(), self.needle.as_slice()),
                        Some(n) => {
                            let args = vstd::slice::slice_subrange(
                                block.as_slice(),
                                ARGC_BYTES,
                                block.len(),
                            );
                            assert(args@ =~= block@.skip(ARGC_BYTES as int));
                            memmem_closing(args, line.as_slice(), self.needle.as_slice(), n)
                        },
                    }
                },
                None => false,
            };
            if passes {
                let pid: i32 = self.pids[self.at];
                self.found.push(pid);
                if self.first_only {
                    self.at = self.pids.len();
                    self.named = false;
                    assert(self@.rest =~= Seq::empty());
                } else {
                    self.advance();
                }
            } else {
                self.advance();
            }
        }
    }

    /// The matches, in the order of the process list.
    pub fn matches(self) -> (r: Vec<i32>)
        ensures
            r@ == self@.found,
    {
        self.found
    }

    /// The first match.
    pub fn first_match(&self) -> (r: Option<i32>)
        ensures
            r == (if self@.found.len() == 0 {
                None
            } else {
                Some(self@.found[0])
            }),
    {
        if self.found.len() == 0 {
            None
        } else {
            Some(self.found[0])
        }
    }
}

fn has_no_nul(args: &[u8], from: usize, to: usize) -> (r: bool)
    requires
        from <= to <= args@.len(),
    ensures
        r == forall|i: int| from <= i < to ==> #[trigger] args@[i] != 0,
{
    for i in from..to
        invariant
            to <= args@.len(),
            forall|j: int| from <= j < i ==> #[trigger] args@[j] != 0,
    {
        if args[i] == 0 {
            return false;
        }
    }
    true
}

/// Whether a path in `args` ends at `at`.
fn is_path_end(args: &[u8], at: usize) -> (r: bool)
    requires
        at <= args@.len(),
    ensures
        r == path_ends(args@, at as int),
{
    let mut end: usize = at;
    while end < args.len() && args[end] != 0
        invariant
            at <= end <= args@.len(),
            forall|i: int| at <= i < end ==> #[trigger] args@[i] != 0,
        decreases args@.len() - end,
    {
        end += 1;
    }
    proof {
        lemma_one_end(args@, at as int, end as int);
    }
    for i in at..end
        invariant
            end <= args@.len(),
            path_ends(args@, at as int) == path_ends_by(args@, at as int, end as int),
            forall|j: int| at <= j < i ==> #[trigger] stays(args@, j, end as int),
    {
        let slash: bool = args[i] == 0x2f;
        let dot: bool = args[i] == 0x2e && 0 < i && args[i - 1] == 0x2f && (i + 1 == end || args[i
            + 1] == 0x2f);
        if !slash && !dot {
            assert(!stays(args@, i as int, end as int));
            return false;
        }
    }
    assert(path_ends_by(args@, at as int, end as int));
    true
}

/// A path that ends at `at` ends by the end of its argument.
pub proof fn lemma_one_end(args: Seq<u8>, at: int, end: int)
    requires
        at <= end <= args.len(),
        argument_ends(args, end),
        forall|i: int| at <= i < end ==> #[trigger] args[i] != 0,
    ensures
        path_ends(args, at) == path_ends_by(args, at, end),
{
    if path_ends(args, at) {
        let other = choose|other: int| path_ends_by(args, at, other);
        if other < end {
            assert(args[other] != 0);
        } else if end < other {
            assert(stays(args, end, other));
        }
    }
}

/// Whether `needle` stands anywhere in `args`, of which `line` is the command
/// line, so that its last `tail` bytes lie in one argument and are a path to its
/// end.
fn memmem_closing(args: &[u8], line: &[u8], needle: &[u8], tail: usize) -> (r: bool)
    requires
        line@ == blanked(args@),
        tail <= needle@.len(),
    ensures
        r == closes_some_argument(args@, needle@, tail as nat),
{
    if needle.len() > line.len() {
        return false;
    }
    let windows: usize = line.len() - needle.len();
    let mut at: usize = 0;
    loop
        invariant
            line@ == blanked(args@),
            tail <= needle.len(),
            windows == line.len() - needle.len(),
            at <= windows,
            forall|k: int| 0 <= k < at ==> !closes_argument(args@, needle@, tail as nat, k),
        decreases windows - at,
    {
        let end: usize = at + needle.len();
        if eq_ignore_ascii_case(vstd::slice::slice_subrange(line, at, end), needle) && is_path_end(
            args,
            end,
        ) && has_no_nul(args, end - tail, end) {
            assert(closes_argument(args@, needle@, tail as nat, at as int));
            return true;
        }
        assert(!closes_argument(args@, needle@, tail as nat, at as int));
        if at == windows {
            return false;
        }
        at += 1;
    }
}

fn command_line_of(block: &[u8]) -> (r: Vec<u8>)
    requires
        block@.len() >= ARGC_BYTES,
    ensures
        r@ == command_line(block@),
{
    let mut out: Vec<u8> = Vec::new();
    for i in ARGC_BYTES..block.len()
        invariant
            block@.len() >= ARGC_BYTES,
            out@ == command_line(block@).take(i - ARGC_BYTES),
    {
        let b: u8 = block[i];
        out.push(if b == 0 { 0x20 } else { b });
        assert(out@ =~= command_line(block@).take(i + 1 - ARGC_BYTES));
    }
    assert(out@ =~= command_line(block@));
    out
}

// ---------------------------------------------------------------------------
// What a whole search finds
// ---------------------------------------------------------------------------

proof fn lemma_from_positive_len(pids: Seq<i32>)
    ensures
        from_positive(pids).len() <= pids.len(),
    decreases pids.len(),
{
    if pids.len() > 0 && pids[0] <= 0 {
        lemma_from_positive_len(pids.skip(1));
    }
}

/// What a search finds in the end when the system reports `names` and `blocks`
/// of the processes that it asks for.
pub open spec fn outcome(
    s: ScanState,
    names: spec_fn(i32) -> Option<Seq<u8>>,
    blocks: spec_fn(i32) -> Option<Seq<u8>>,
) -> Seq<i32>
    decreases s.rest.len(), (if s.named { 0int } else { 1int }),
    via outcome_decreases
{
    match s.question() {
        ScanQuestion::Nothing => s.found,
        ScanQuestion::Name(pid) => outcome(s.answered(names(pid)), names, blocks),
        ScanQuestion::Arguments(pid) => outcome(s.answered(blocks(pid)), names, blocks),
    }
}

#[via_fn]
proof fn outcome_decreases(
    s: ScanState,
    names: spec_fn(i32) -> Option<Seq<u8>>,
    blocks: spec_fn(i32) -> Option<Seq<u8>>,
) {
    if s.rest.len() > 0 {
        lemma_from_positive_len(s.rest.skip(1));
    }
}

proof fn lemma_filter_front(s: Seq<i32>, pred: spec_fn(i32) -> bool)
    requires
        s.len() > 0,
    ensures
        s.filter(pred) == (if pred(s[0]) {
            seq![s[0]]
        } else {
            seq![]
        }) + s.skip(1).filter(pred),
{
    let head = seq![s[0]];
    assert(s =~= head + s.skip(1));
    Seq::filter_distributes_over_add(head, s.skip(1), pred);
    assert(head.filter(pred) =~= (if pred(s[0]) {
        seq![s[0]]
    } else {
        seq![]
    })) by {
        reveal_with_fuel(Seq::filter, 2);
        assert(head.drop_last() =~= Seq::<i32>::empty());
    }
}

proof fn lemma_from_positive_filter(pids: Seq<i32>, pred: spec_fn(i32) -> bool)
    requires
        forall|p: i32| p <= 0 ==> !#[trigger] pred(p),
    ensures
        from_positive(pids).filter(pred) == pids.filter(pred),
        from_positive(pids).len() > 0 ==> from_positive(pids)[0] > 0,
    decreases pids.len(),
{
    if pids.len() > 0 && pids[0] <= 0 {
        lemma_from_positive_filter(pids.skip(1), pred);
        lemma_filter_front(pids, pred);
        assert(pids.filter(pred) =~= pids.skip(1).filter(pred));
    }
}

proof fn lemma_outcome(
    s: ScanState,
    names: spec_fn(i32) -> Option<Seq<u8>>,
    blocks: spec_fn(i32) -> Option<Seq<u8>>,
    pred: spec_fn(i32) -> bool,
)
    requires
        !s.named,
        s.rest.len() > 0 ==> s.rest[0] > 0,
        forall|p: i32| #[trigger]
            pred(p) <==> p > 0 && name_passes(s.wanted, names(p)) && args_pass(
                s.needle,
                s.tail,
                blocks(p),
            ),
    ensures
        s.first_only ==> outcome(s, names, blocks) == s.found + (if s.rest.filter(pred).len() > 0 {
            seq![s.rest.filter(pred)[0]]
        } else {
            seq![]
        }),
        !s.first_only ==> outcome(s, names, blocks) == s.found + s.rest.filter(pred),
    decreases s.rest.len(),
{
    reveal_with_fuel(outcome, 3);
    if s.rest.len() == 0 {
        reveal(Seq::filter);
        assert(s.found + s.rest.filter(pred) =~= s.found);
    } else {
        let pid = s.rest[0];
        let tail = s.rest.skip(1);
        lemma_filter_front(s.rest, pred);
        lemma_from_positive_len(tail);
        lemma_from_positive_filter(tail, pred);
        if pred(pid) {
            let hit = ScanState { found: s.found.push(pid), named: true, ..s };
            if !s.first_only {
                lemma_outcome(hit.advanced(), names, blocks, pred);
                assert(s.found.push(pid) + tail.filter(pred) =~= s.found + (seq![pid]
                    + tail.filter(pred)));
            } else {
                assert(s.found.push(pid) =~= s.found + seq![pid]);
            }
        } else {
            lemma_outcome(s.advanced(), names, blocks, pred);
            assert(s.rest.filter(pred) =~= tail.filter(pred));
        }
    }
}

/// A search for all processes finds exactly the listed processes that match
/// the needle, in the order of the list.
pub proof fn search_finds_every_match(
    needle: Seq<char>,
    pids: Seq<i32>,
    names: spec_fn(i32) -> Option<Seq<u8>>,
    blocks: spec_fn(i32) -> Option<Seq<u8>>,
)
    ensures
        outcome(ScanState::started(needle, pids, false), names, blocks) == pids.filter(
            |p: i32| process_matches(needle, p, names(p), blocks(p)),
        ),
{
    let pred = |p: i32| process_matches(needle, p, names(p), blocks(p));
    lemma_from_positive_filter(pids, pred);
    let s = ScanState::started(needle, pids, false);
    lemma_outcome(s, names, blocks, pred);
    assert(s.found + s.rest.filter(pred) =~= pids.filter(pred));
}

/// A search for one process finds the first listed process that matches the
/// needle, and nothing where none does.
pub proof fn search_finds_first_match(
    needle: Seq<char>,
    pids: Seq<i32>,
    names: spec_fn(i32) -> Option<Seq<u8>>,
    blocks: spec_fn(i32) -> Option<Seq<u8>>,
)
    ensures
        ({
            let found = outcome(ScanState::started(needle, pids, true), names, blocks);
            let all = pids.filter(|p: i32| process_matches(needle, p, names(p), blocks(p)));
            if all.len() == 0 {
                found.len() == 0
            } else {
                found == seq![all[0]]
            }
        }),
{
    let pred = |p: i32| process_matches(needle, p, names(p), blocks(p));
    lemma_from_positive_filter(pids, pred);
    let s = ScanState::started(needle, pids, true);
    lemma_outcome(s, names, blocks, pred);
    if pids.filter(pred).len() > 0 {
        assert(s.found + seq![pids.filter(pred)[0]] =~= seq![pids.filter(pred)[0]]);
    }
}

/// A search for the editor of a project finds the first listed process that is
/// one, and nothing where none is.
pub proof fn search_finds_the_editor(
    project: Seq<char>,
    pids: Seq<i32>,
    names: spec_fn(i32) -> Option<Seq<u8>>,
    blocks: spec_fn(i32) -> Option<Seq<u8>>,
)
    ensures
        ({
            let found = outcome(ScanState::for_editor(project, pids), names, blocks);
            let all = pids.filter(|p: i32| editor_matches(project, p, names(p), blocks(p)));
            if all.len() == 0 {
                found.len() == 0
            } else {
                found == seq![all[0]]
            }
        }),
{
    let pred = |p: i32| editor_matches(project, p, names(p), blocks(p));
    lemma_from_positive_filter(pids, pred);
    let s = ScanState::for_editor(project, pids);
    lemma_outcome(s, names, blocks, pred);
    if pids.filter(pred).len() > 0 {
        assert(s.found + seq![pids.filter(pred)[0]] =~= seq![pids.filter(pred)[0]]);
    }
}

// ---------------------------------------------------------------------------
// One process
// ---------------------------------------------------------------------------

/// What is known of whether a process is a live editor, or what to ask next.
#[derive(Clone, Copy, Debug, PartialEq, Eq, Structural)]
pub enum Liveness {
    /// Ask whether the process can be sent a signal.
    Signal,
    /// Ask for the short name of the process.
    Name,
    /// The process is a live editor.
    Alive,
    /// It is not.
    Dead,
}

/// Whether `pid` is a live editor, from the system's replies so far: what
/// sending it the null signal returned, and its short name, empty where it
/// could not be read.
pub open spec fn liveness(pid: i32, signal: Option<i32>, name: Option<Seq<u8>>) -> Liveness {
    if pid <= 0 {
        Liveness::Dead
    } else {
        match (signal, name) {
            (None, _) => Liveness::Signal,
            (Some(code), _) if code != 0 => Liveness::Dead,
            (_, None) => Liveness::Name,
            (_, Some(n)) => if same_ignoring_case(n, encode_utf8("Unity"@)) {
                Liveness::Alive
            } else {
                Liveness::Dead
            },
        }
    }
}

/// Whether `pid` is a live editor, or what to ask of the system next.
pub fn is_unity_alive(pid: i32, signal: Option<i32>, name: Option<&Vec<u8>>) -> (r: Liveness)
    ensures
        r == liveness(
            pid,
            signal,
            match name {
                Some(n) => Some(n@),
                None => None,
            },
        ),
{
    if pid <= 0 {
        return Liveness::Dead;
    }
    match (signal, name) {
        (None, _) => Liveness::Signal,
        (Some(code), _) if code != 0 => Liveness::Dead,
        (_, None) => Liveness::Name,
        (_, Some(n)) => if eq_ignore_ascii_case(n.as_slice(), "Unity".as_bytes()) {
            Liveness::Alive
        } else {
            Liveness::Dead
        },
    }
}

/// Once both questions are answered there is a verdict, and it is that the
/// process lives only where its id is positive, it can be sent a signal, and
/// its name is the editor's.
pub proof fn liveness_is_settled(pid: i32, signal: i32, name: Seq<u8>)
    ensures
        ({
            let verdict = liveness(pid, Some(signal), Some(name));
            &&& verdict == Liveness::Alive || verdict == Liveness::Dead
            &&& verdict == Liveness::Alive <==> pid > 0 && signal == 0 && same_ignoring_case(
                name,
                encode_utf8("Unity"@),
            )
        }),
{
}

// ---------------------------------------------------------------------------
// Exit statuses
// ---------------------------------------------------------------------------

/// `libc::WIFEXITED`: on Linux and on Apple's systems, a status whose low seven
/// bits are zero is that of a process that exited by itself.
pub assume_specification[ libc::WIFEXITED ](status: libc::c_int) -> (r: bool)
    ensures
        r == (status & 0x7f == 0),
;

/// `libc::WEXITSTATUS`: on Linux and on Apple's systems, the exit code stands in
/// the second byte of the status.
pub assume_specification[ libc::WEXITSTATUS ](status: libc::c_int) -> (r: libc::c_int)
    ensures
        r == (status >> 8) & 0xff,
;

/// The exit code in a wait status, or -1 where the process did not exit by
/// itself.
pub open spec fn exit_code(status: i32) -> i32 {
    if status & 0x7f == 0 {
        (status >> 8) & 0xff
    } else {
        -1i32
    }
}

/// A process that exits with a code is found to have exited with it, and one that
/// a signal has ended is found not to have exited by itself.
pub proof fn exit_codes_are_read_back(code: i32, signal: i32)
    requires
        0 <= code <= 255,
        1 <= signal <= 127,
    ensures
        exit_code((code * 256) as i32) == code,
        exit_code(signal) == -1,
        exit_code((code * 256 + signal) as i32) == -1,
{
    assert((((code * 256) as i32) & 0x7f) == 0) by (bit_vector)
        requires
            0 <= code <= 255,
    ;
    assert(((((code * 256) as i32) >> 8) & 0xff) == code) by (bit_vector)
        requires
            0 <= code <= 255,
    ;
    assert(signal & 0x7f != 0) by (bit_vector)
        requires
            1 <= signal <= 127,
    ;
    assert(((code * 256 + signal) as i32) & 0x7f != 0) by (bit_vector)
        requires
            0 <= code <= 255,
            1 <= signal <= 127,
    ;
}

/// The exit code in a wait status, or -1 where the process did not exit by
/// itself.
pub fn waitpid_exit(status: i32) -> (r: i32)
    ensures
        r == exit_code(status),
{
    if libc::WIFEXITED(status) {
        libc::WEXITSTATUS(status)
    } else {
        -1
    }
}

// ---------------------------------------------------------------------------
// What counts as a match
// ---------------------------------------------------------------------------

/// Two byte strings count as the same where each byte is the same, or the same
/// letter in the other case.
pub proof fn only_the_case_of_letters_is_ignored(a: Seq<u8>, b: Seq<u8>)
    ensures
        same_ignoring_case(a, b) <==> {
            &&& a.len() == b.len()
            &&& forall|i: int|
                #![trigger a[i], b[i]]
                0 <= i < a.len() ==> {
                    ||| a[i] == b[i]
                    ||| 0x41 <= a[i] <= 0x5a && b[i] == a[i] + 0x20
                    ||| 0x41 <= b[i] <= 0x5a && a[i] == b[i] + 0x20
                }
        },
{
    if same_ignoring_case(a, b) {
        assert forall|i: int|
            #![trigger a[i], b[i]]
            0 <= i < a.len() implies (a[i] == b[i] || (0x41 <= a[i] <= 0x5a && b[i] == a[i]
            + 0x20) || (0x41 <= b[i] <= 0x5a && a[i] == b[i] + 0x20)) by {
            assert(lower(a[i]) == lower(b[i]));
        }
    }
}

/// A text is found just where some part of the other one is the same, the case
/// of letters aside.
pub proof fn found_text_stands_somewhere(
    haystack: Seq<u8>,
    needle: Seq<u8>,
    a: Seq<u8>,
    part: Seq<u8>,
    b: Seq<u8>,
)
    ensures
        haystack == a + part + b && same_ignoring_case(part, needle) ==> found_in(
            haystack,
            needle,
        ),
        found_in(haystack, needle) ==> exists|x: Seq<u8>, p: Seq<u8>, y: Seq<u8>|
            haystack == #[trigger] (x + p + y) && same_ignoring_case(p, needle),
{
    if haystack == a + part + b && same_ignoring_case(part, needle) {
        let at = a.len() as int;
        assert(haystack.subrange(at, at + part.len()) =~= part);
        assert(found_at(haystack, needle, at));
    }
    if found_in(haystack, needle) {
        let at = choose|at: int| found_at(haystack, needle, at);
        let x = haystack.take(at);
        let p = haystack.subrange(at, at + needle.len());
        let y = haystack.skip(at + needle.len());
        assert(haystack =~= x + p + y);
    }
}

/// A process matches a text just where its id is positive, its name is the first
/// word of the text, and its arguments hold the text, with a space for the NUL
/// after each argument; the argument count does not matter.
pub proof fn processes_match_by_name_and_arguments(
    needle: Seq<char>,
    word: Seq<char>,
    rest: Seq<char>,
    pid: i32,
    name: Seq<u8>,
    argc: Seq<u8>,
    args: Seq<u8>,
    line: Seq<u8>,
)
    requires
        word.len() > 0,
        forall|i: int| 0 <= i < word.len() ==> !text::whitespace(#[trigger] word[i]),
        rest.len() > 0 ==> text::whitespace(rest[0]),
        needle == word + rest,
        argc.len() == 4,
        line.len() == args.len(),
        forall|i: int|
            0 <= i < args.len() ==> #[trigger] line[i] == (if args[i] == 0 {
                0x20u8
            } else {
                args[i]
            }),
    ensures
        process_matches(needle, pid, Some(name), Some(argc + args)) <==> {
            &&& pid > 0
            &&& name.len() > 0
            &&& same_ignoring_case(name, encode_utf8(word))
            &&& found_in(line, encode_utf8(needle))
        },
        !process_matches(needle, pid, None, Some(argc + args)),
        !process_matches(needle, pid, Some(name), None),
{
    assert(Seq::<char>::empty() + word + rest =~= needle);
    text::first_word_stands_between_white_space(seq![], word, rest);
    assert((argc + args).skip(4) =~= args);
    assert(command_line(argc + args) =~= line);
}

/// A process is the editor of a project only where its id is positive and its
/// name is the editor's, the case of letters aside.
pub proof fn editors_are_named_as_such(
    project: Seq<char>,
    pid: i32,
    name: Option<Seq<u8>>,
    block: Option<Seq<u8>>,
)
    ensures
        editor_matches(project, pid, name, block) ==> {
            &&& pid > 0
            &&& name matches Some(n) && same_ignoring_case(n, encode_utf8("Unity"@))
            &&& block is Some
        },
{
    let head = "Unity"@;
    let rest = " -projectPath "@ + project;
    reveal_strlit("Unity");
    reveal_strlit(" -projectPath ");
    reveal_strlit("Unity -projectPath ");
    assert(Seq::<char>::empty() + head + rest =~= paths::project_needle(project));
    text::first_word_stands_between_white_space(seq![], head, rest);
}

/// A process that is taken for the editor of a project also matches the text that
/// tells of the project: the search for the editor is the narrower one.
pub proof fn editor_search_is_the_narrower_one(
    project: Seq<char>,
    pid: i32,
    name: Option<Seq<u8>>,
    block: Option<Seq<u8>>,
)
    requires
        editor_matches(project, pid, name, block),
    ensures
        process_matches("Unity -projectPath "@ + project, pid, name, block),
{
    let needle = encode_utf8(paths::project_needle(project));
    let args = block->0.skip(ARGC_BYTES as int);
    let tail = encode_utf8(project).len();
    let at = choose|at: int| closes_argument(args, needle, tail, at);
    assert(found_at(command_line(block->0), needle, at));
}

} // verus!
