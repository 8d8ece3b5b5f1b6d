//! That the search through the process list finds the editors that the
//! launcher starts.

use vstd::prelude::*;
use vstd::utf8::{encode_scalar, encode_utf8, is_ascii_chars, is_ascii_chars_encode_utf8};

use crate::paths;
use crate::process;
use crate::spawn::{self, SpawnMode};
use crate::text;

verus! {

/// Some arguments as they stand in a process's argument block: each one ends
/// with a NUL.
pub open spec fn argument_bytes(argv: Seq<Seq<char>>) -> Seq<u8>
    decreases argv.len(),
{
    if argv.len() == 0 {
        seq![]
    } else {
        encode_utf8(argv[0]) + seq![0u8] + argument_bytes(argv.skip(1))
    }
}

proof fn lemma_char_without_zero(c: char)
    requires
        c != '\0',
    ensures
        forall|i: int|
            0 <= i < encode_scalar(c as u32).len() ==> #[trigger] encode_scalar(
                c as u32,
            )[i] != 0,
{
    let u = c as u32;
    assert(0 < u <= 0x7f ==> (u & 0x7f) as u8 != 0) by (bit_vector);
    assert(0xc0u8 | ((u >> 6) & 0x1f) as u8 != 0) by (bit_vector);
    assert(0xe0u8 | ((u >> 12) & 0x0f) as u8 != 0) by (bit_vector);
    assert(0xf0u8 | ((u >> 18) & 0x7) as u8 != 0) by (bit_vector);
    assert(0x80u8 | (u & 0x3f) as u8 != 0) by (bit_vector);
    assert(0x80u8 | ((u >> 6) & 0x3f) as u8 != 0) by (bit_vector);
    assert(0x80u8 | ((u >> 12) & 0x3f) as u8 != 0) by (bit_vector);
}

proof fn lemma_encode_without_zero(s: Seq<char>)
    requires
        spawn::no_nul(s),
    ensures
        forall|i: int| 0 <= i < encode_utf8(s).len() ==> encode_utf8(s)[i] != 0,
    decreases s.len(),
{
    if s.len() > 0 {
        assert(s.contains(s[0]));
        lemma_char_without_zero(s[0]);
        assert forall|i: int| 0 <= i < s.drop_first().len() implies s.drop_first()[i] != '\0' by {
            assert(s.contains(s[i + 1]));
        }
        lemma_encode_without_zero(s.drop_first());
        let first = encode_scalar(s[0] as u32);
        let rest = encode_utf8(s.drop_first());
        assert forall|i: int| 0 <= i < encode_utf8(s).len() implies encode_utf8(s)[i] != 0 by {
            assert(encode_utf8(s) == first + rest);
            if i < first.len() {
                assert(encode_utf8(s)[i] == first[i]);
            } else {
                assert(encode_utf8(s)[i] == rest[i - first.len()]);
            }
        }
    }
}

/// The part of an editor's arguments that the search looks for.
spec fn telling_part(project: Seq<char>) -> Seq<u8> {
    encode_utf8("Unity"@) + seq![0u8] + encode_utf8("-projectPath"@) + seq![0u8] + encode_utf8(
        project,
    )
}

proof fn lemma_needle(project: Seq<char>)
    requires
        spawn::no_nul(project),
    ensures
        process::blanked(telling_part(project)) == encode_utf8(paths::project_needle(project)),
{
    let head = "Unity -projectPath "@;
    let name = "Unity"@;
    let flag = "-projectPath"@;
    reveal_strlit("Unity -projectPath ");
    reveal_strlit("Unity");
    reveal_strlit("-projectPath");
    process::lemma_encode_concat(head, project);
    assert(is_ascii_chars(head));
    assert(is_ascii_chars(name));
    assert(is_ascii_chars(flag));
    is_ascii_chars_encode_utf8(head);
    is_ascii_chars_encode_utf8(name);
    is_ascii_chars_encode_utf8(flag);
    lemma_encode_without_zero(project);
    let part = telling_part(project);
    let needle = encode_utf8(paths::project_needle(project));
    assert(part.len() == needle.len());
    assert forall|i: int| 0 <= i < part.len() implies process::blanked(part)[i] == needle[i] by {
        if i >= 19 {
            assert(part[i] == encode_utf8(project)[i - 19]);
        } else {
            assert(needle[i] == head[i] as u8);
            if i < 5 {
                assert(part[i] == name[i] as u8);
            } else if 5 < i < 18 {
                assert(part[i] == flag[i - 6] as u8);
            }
        }
    }
    assert(process::blanked(part) =~= needle);
}

proof fn lemma_wanted_name(project: Seq<char>)
    ensures
        process::wanted_name(paths::project_needle(project)) == encode_utf8("Unity"@),
{
    let needle = paths::project_needle(project);
    reveal_strlit("Unity -projectPath ");
    reveal_strlit("Unity");
    reveal_with_fuel(text::word_len, 6);
    assert(text::trim_start(needle) == needle);
    assert(text::word_len(needle) == 5) by {
        assert(needle.skip(1).skip(1) =~= needle.skip(2));
        assert(needle.skip(2).skip(1) =~= needle.skip(3));
        assert(needle.skip(3).skip(1) =~= needle.skip(4));
        assert(needle.skip(4).skip(1) =~= needle.skip(5));
    }
    assert(needle.take(5) =~= "Unity"@);
}

/// The directory that Unity Hub installs the editor of the version `ver` in.
spec fn editor_dir(ver: Seq<char>) -> Seq<char> {
    "/Applications/Unity/Hub/Editor/"@ + ver + "/Unity.app/Contents/MacOS/"@
}

proof fn lemma_arguments(ver: Seq<char>, project: Seq<char>, log: Seq<char>, mode: SpawnMode)
    ensures
        ({
            let argv = spawn::editor_argv(paths::editor(ver), project, log, mode);
            argument_bytes(argv) == encode_utf8(editor_dir(ver)) + telling_part(project) + (
            seq![0u8] + argument_bytes(argv.skip(3)))
        }),
{
    let argv = spawn::editor_argv(paths::editor(ver), project, log, mode);
    let dir = editor_dir(ver);
    assert(paths::editor(ver) =~= dir + "Unity"@) by {
        reveal_strlit("/Unity.app/Contents/MacOS/Unity");
        reveal_strlit("/Unity.app/Contents/MacOS/");
        reveal_strlit("Unity");
        assert("/Unity.app/Contents/MacOS/Unity"@ =~= "/Unity.app/Contents/MacOS/"@ + "Unity"@);
    }
    process::lemma_encode_concat(dir, "Unity"@);
    let third = argv.skip(1).skip(1);
    assert(third =~= argv.skip(2));
    assert(third.skip(1) =~= argv.skip(3));
    assert(argv.skip(1)[0] == "-projectPath"@);
    assert(third[0] == project);
    assert(argument_bytes(third) == encode_utf8(project) + seq![0u8] + argument_bytes(
        third.skip(1),
    ));
    assert(argument_bytes(argv.skip(1)) == encode_utf8("-projectPath"@) + seq![0u8]
        + argument_bytes(third));
    assert(argument_bytes(argv) == encode_utf8(paths::editor(ver)) + seq![0u8] + argument_bytes(
        argv.skip(1),
    ));
    assert(argument_bytes(argv) =~= encode_utf8(dir) + telling_part(project) + (seq![0u8]
        + argument_bytes(argv.skip(3))));
}

proof fn lemma_part_is_found(project: Seq<char>, args: Seq<u8>, before: Seq<u8>, after: Seq<u8>)
    requires
        spawn::no_nul(project),
        args == before + telling_part(project) + after,
        after.len() > 0 && after[0] == 0,
    ensures
        process::closes_some_argument(
            args,
            encode_utf8(paths::project_needle(project)),
            encode_utf8(project).len(),
        ),
{
    let part = telling_part(project);
    let needle = encode_utf8(paths::project_needle(project));
    let path = encode_utf8(project);
    let at = before.len() as int;
    lemma_needle(project);
    lemma_encode_without_zero(project);
    assert(process::blanked(part).len() == part.len());
    assert(process::blanked(args).subrange(at, at + part.len()) =~= process::blanked(part));
    assert(process::found_at(process::blanked(args), needle, at));
    assert(args[at + needle.len()] == after[0]);
    assert(process::path_ends_by(args, at + needle.len(), at + needle.len()));
    let m = at + needle.len() - path.len();
    assert forall|i: int| m <= i < at + needle.len() implies #[trigger] args[i] != 0 by {
        assert(args[i] == part[i - at]);
        assert(part[i - at] == path[i - m]);
    }
    assert(process::closes_argument(args, needle, path.len(), at));
}

/// An editor that the launcher has started, whatever its version and however it
/// runs, is one that the search for the project's editor is to find. Its
/// argument block holds the argument count, then something, then the arguments,
/// then something again.
pub proof fn started_editor_matches_the_search(
    ver: Seq<char>,
    project: Seq<char>,
    log: Seq<char>,
    mode: SpawnMode,
    pid: i32,
    argc: Seq<u8>,
    before: Seq<u8>,
    after: Seq<u8>,
)
    requires
        pid > 0,
        spawn::no_nul(project),
        argc.len() == process::ARGC_BYTES,
    ensures
        process::editor_matches(
            project,
            pid,
            Some(encode_utf8("Unity"@)),
            Some(
                argc + before + argument_bytes(
                    spawn::editor_argv(paths::editor(ver), project, log, mode),
                ) + after,
            ),
        ),
{
    let argv = spawn::editor_argv(paths::editor(ver), project, log, mode);
    let args = argument_bytes(argv);
    let block = argc + before + args + after;
    let part = telling_part(project);
    let dir = encode_utf8(editor_dir(ver));
    let rest = seq![0u8] + argument_bytes(argv.skip(3));
    lemma_arguments(ver, project, log, mode);
    let hay = block.skip(process::ARGC_BYTES as int);
    assert(hay =~= (before + dir) + part + (rest + after));
    lemma_part_is_found(project, hay, before + dir, rest + after);
    lemma_wanted_name(project);
    assert(encode_utf8("Unity"@).len() == 5) by {
        reveal_strlit("Unity");
        assert(is_ascii_chars("Unity"@));
        is_ascii_chars_encode_utf8("Unity"@);
    }
}

/// What stands before the project's path in an editor's command line.
pub open spec fn telling_words() -> Seq<u8> {
    encode_utf8("Unity -projectPath "@)
}

/// Whether an argument is a path to the directory that `path` leads to, the case
/// of ASCII letters aside: it is that path, or goes on after it without leading
/// elsewhere, as with a slash.
pub open spec fn leads_to(arg: Seq<u8>, path: Seq<u8>) -> bool {
    &&& path.len() <= arg.len()
    &&& process::same_ignoring_case(arg.take(path.len() as int), path)
    &&& process::path_ends(arg, path.len() as int)
}

/// A path that is written with slashes at its end leads to the same directory.
pub proof fn slashes_lead_nowhere_else(path: Seq<u8>, slashes: Seq<u8>)
    requires
        forall|i: int| 0 <= i < slashes.len() ==> slashes[i] == 0x2f,
    ensures
        leads_to(path + slashes, path),
{
    let arg = path + slashes;
    assert(arg.take(path.len() as int) =~= path);
    assert(process::path_ends_by(arg, path.len() as int, arg.len() as int));
}

proof fn lemma_same_end(before: Seq<u8>, arg: Seq<u8>, after: Seq<u8>, n: int)
    requires
        0 <= n <= arg.len(),
        !arg.contains(0u8),
        n == 0 ==> before.len() > 0 && before.last() != 0x2f,
    ensures
        process::path_ends(before + arg + seq![0u8] + after, before.len() + n)
            == process::path_ends(arg, n),
{
    let args = before + arg + seq![0u8] + after;
    let m = before.len() as int;
    let end = m + arg.len();
    let short = arg.len() as int;
    assert forall|i: int| 0 <= i < arg.len() implies #[trigger] arg[i] != 0 by {
        assert(arg.contains(arg[i]));
    }
    assert forall|i: int| m + n <= i < end implies #[trigger] args[i] != 0 by {
        assert(args[i] == arg[i - m]);
    }
    assert(args[end] == 0);
    process::lemma_one_end(args, m + n, end);
    process::lemma_one_end(arg, n, short);
    assert forall|i: int| n <= i < short implies process::stays(args, m + i, end)
        == #[trigger] process::stays(arg, i, short) by {
        assert(args[m + i] == arg[i]);
        if i > 0 {
            assert(args[m + i - 1] == arg[i - 1]);
        } else {
            assert(args[m - 1] == before.last());
        }
        if i + 1 < short {
            assert(args[m + i + 1] == arg[i + 1]);
        }
    }
    if process::path_ends_by(args, m + n, end) {
        assert forall|i: int| n <= i < short implies #[trigger] process::stays(
            arg,
            i,
            short,
        ) by {
            assert(process::stays(args, m + i, end));
        }
    }
    if process::path_ends_by(arg, n, short) {
        assert forall|i: int| m + n <= i < end implies #[trigger] process::stays(args, i, end) by {
            assert(process::stays(arg, i - m, short));
        }
    }
}

/// The search for a project's editor goes by a whole argument: where the telling
/// words stand at one place in a process's arguments, and `arg` is the argument
/// that follows them there, the search takes the process just where `arg` leads
/// to the project's path.
pub proof fn search_goes_by_the_whole_path(
    project: Seq<char>,
    argc: Seq<u8>,
    before: Seq<u8>,
    words: Seq<u8>,
    arg: Seq<u8>,
    after: Seq<u8>,
)
    requires
        spawn::no_nul(project),
        argc.len() == process::ARGC_BYTES,
        process::same_ignoring_case(process::blanked(words), telling_words()),
        !arg.contains(0u8),
        forall|k: int| #[trigger]
            process::found_at(
                process::blanked(before + words + arg + seq![0u8] + after),
                telling_words(),
                k,
            ) ==> k == before.len(),
    ensures
        process::args_pass(
            encode_utf8(paths::project_needle(project)),
            Some(encode_utf8(project).len()),
            Some(argc + (before + words + arg + seq![0u8] + after)),
        ) <==> leads_to(arg, encode_utf8(project)),
{
    let args = before + words + arg + seq![0u8] + after;
    let line = process::blanked(args);
    let head = telling_words();
    let path = encode_utf8(project);
    let needle = encode_utf8(paths::project_needle(project));
    let n = path.len() as int;
    let m = before.len() as int + words.len();
    process::lemma_encode_concat("Unity -projectPath "@, project);
    assert(needle =~= head + path);
    lemma_encode_without_zero(project);
    lemma_words_end(words);
    assert((argc + args).skip(process::ARGC_BYTES as int) =~= args);
    assert forall|i: int| 0 <= i < arg.len() implies #[trigger] args[m + i] == arg[i]
        && arg[i] != 0 by {
        assert(arg.contains(arg[i]));
    }
    assert(args[m + arg.len()] == 0);
    if n <= arg.len() {
        assert((before + words).last() == words.last());
        lemma_same_end(before + words, arg, after, n);
    }
    if process::closes_some_argument(args, needle, path.len()) {
        let at = choose|at: int| process::closes_argument(args, needle, path.len(), at);
        let window = line.subrange(at, at + needle.len());
        assert forall|i: int| 0 <= i < head.len() implies process::lower(
            #[trigger] line.subrange(at, at + head.len())[i],
        ) == process::lower(head[i]) by {
            assert(window[i] == line[at + i]);
            assert(needle[i] == head[i]);
        }
        assert(process::found_at(line, head, at));
        assert(at == before.len());
        if n > arg.len() {
            assert(args[m + arg.len()] != 0);
        }
        let front = arg.take(n);
        assert forall|i: int| 0 <= i < front.len() implies process::lower(#[trigger] front[i])
            == process::lower(path[i]) by {
            assert(args[m + i] == arg[i]);
            assert(window[head.len() + i] == line[m + i]);
            assert(needle[head.len() + i] == path[i]);
        }
        assert(leads_to(arg, path));
    }
    if leads_to(arg, path) {
        let at = before.len() as int;
        let front = arg.take(n);
        let window = line.subrange(at, at + needle.len());
        assert forall|i: int| 0 <= i < needle.len() implies process::lower(#[trigger] window[i])
            == process::lower(needle[i]) by {
            if i < head.len() {
                assert(args[at + i] == words[i]);
                assert(process::blanked(words)[i] == window[i]);
            } else {
                assert(args[m + (i - head.len())] == front[i - head.len()]);
            }
        }
        assert(process::found_at(line, needle, at));
        assert forall|i: int|
            at + needle.len() - path.len() <= i < at + needle.len() implies #[trigger] args[i]
            != 0 by {
            assert(args[m + (i - m)] == arg[i - m]);
        }
        assert(process::closes_argument(args, needle, path.len(), at));
    }
}

proof fn lemma_words_end(words: Seq<u8>)
    requires
        process::same_ignoring_case(process::blanked(words), telling_words()),
    ensures
        words.len() > 0,
        words.last() != 0x2f,
{
    let head = "Unity -projectPath "@;
    reveal_strlit("Unity -projectPath ");
    assert(is_ascii_chars(head));
    is_ascii_chars_encode_utf8(head);
    assert(telling_words()[18] == head[18] as u8);
    assert(process::lower(process::blanked(words)[18]) == 0x20);
}

proof fn lemma_first_byte(c: char)
    requires
        c != '/',
        c != '.',
    ensures
        encode_scalar(c as u32).len() > 0,
        encode_scalar(c as u32)[0] != 0x2f,
        encode_scalar(c as u32)[0] != 0x2e,
{
    let u = c as u32;
    assert(u <= 0x7f && u != 0x2f ==> (u & 0x7f) as u8 != 0x2f) by (bit_vector);
    assert(u <= 0x7f && u != 0x2e ==> (u & 0x7f) as u8 != 0x2e) by (bit_vector);
    assert(0xc0u8 | ((u >> 6) & 0x1f) as u8 >= 0xc0) by (bit_vector);
    assert(0xe0u8 | ((u >> 12) & 0x0f) as u8 >= 0xc0) by (bit_vector);
    assert(0xf0u8 | ((u >> 18) & 0x7) as u8 >= 0xc0) by (bit_vector);
}

/// An editor that runs on a project whose path is longer is not taken for that
/// of the project whose path it begins with, unless there are but slashes and
/// dots in the rest.
pub proof fn longer_path_is_not_taken(
    project: Seq<char>,
    more: Seq<char>,
    j: int,
    argc: Seq<u8>,
    before: Seq<u8>,
    words: Seq<u8>,
    after: Seq<u8>,
)
    requires
        spawn::no_nul(project + more),
        0 <= j < more.len(),
        more[j] != '/',
        more[j] != '.',
        argc.len() == process::ARGC_BYTES,
        process::same_ignoring_case(process::blanked(words), telling_words()),
        forall|k: int| #[trigger]
            process::found_at(
                process::blanked(
                    before + words + encode_utf8(project + more) + seq![0u8] + after,
                ),
                telling_words(),
                k,
            ) ==> k == before.len(),
    ensures
        !process::args_pass(
            encode_utf8(paths::project_needle(project)),
            Some(encode_utf8(project).len()),
            Some(argc + (before + words + encode_utf8(project + more) + seq![0u8] + after)),
        ),
{
    let longer = encode_utf8(project + more);
    let n = encode_utf8(project).len() as int;
    lemma_encode_without_zero(project + more);
    assert(!longer.contains(0u8));
    assert forall|i: int| 0 <= i < project.len() implies project[i] != '\0' by {
        assert((project + more).contains((project + more)[i]));
    }
    let front = project + more.take(j);
    let rest = more.skip(j);
    assert(project + more =~= front + rest);
    process::lemma_encode_concat(project, more.take(j));
    process::lemma_encode_concat(front, rest);
    lemma_first_byte(more[j]);
    let at = encode_utf8(front).len() as int;
    assert(rest[0] == more[j]);
    assert(encode_utf8(rest) == encode_scalar(rest[0] as u32) + encode_utf8(rest.drop_first()));
    assert(longer[at] == encode_scalar(more[j] as u32)[0]);
    process::lemma_one_end(longer, n, longer.len() as int);
    assert(!process::stays(longer, at, longer.len() as int));
    search_goes_by_the_whole_path(project, argc, before, words, longer, after);
}

/// A path that ends with a slash and a dot leads to the same directory, and one
/// that ends with a slash and two dots, or with a dot alone, does not.
pub proof fn a_lone_dot_leads_nowhere_else(path: Seq<u8>)
    requires
        path.len() > 0,
        path[path.len() - 1] != 0x2f,
        !path.contains(0u8),
    ensures
        leads_to(path + seq![0x2fu8, 0x2eu8], path),
        !leads_to(path + seq![0x2fu8, 0x2eu8, 0x2eu8], path),
        !leads_to(path + seq![0x2eu8], path),
{
    let n = path.len() as int;
    let dot = path + seq![0x2fu8, 0x2eu8];
    let dots = path + seq![0x2fu8, 0x2eu8, 0x2eu8];
    let alone = path + seq![0x2eu8];
    assert(dot.take(n) =~= path);
    assert(process::path_ends_by(dot, n, n + 2));
    process::lemma_one_end(dots, n, n + 3);
    assert(!process::stays(dots, n + 1, n + 3));
    process::lemma_one_end(alone, n, n + 1);
    assert(alone[n - 1] == path[n - 1]);
    assert(!process::stays(alone, n, n + 1));
}

} // verus!
