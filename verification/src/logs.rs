//! Which files are logs of the launcher, and which of them are too many.

use vstd::prelude::*;

use crate::calendar;
use crate::paths;
use crate::text;

verus! {

/// How many logs of launches a project keeps.
pub const KEEP_LAUNCH_LOGS: usize = 30;

/// How many logs of the auth hook a project keeps.
pub const KEEP_AUTH_LOGS: usize = 10;

/// Whether a file of this name is the log of a launch.
pub open spec fn launch_log(name: Seq<char>) -> bool {
    &&& "unity-"@.is_prefix_of(name)
    &&& !"unity-auth-"@.is_prefix_of(name)
    &&& ".log"@.is_suffix_of(name)
}

/// Whether a file of this name is the log of a run of the auth hook.
pub open spec fn auth_log(name: Seq<char>) -> bool {
    "unity-auth-"@.is_prefix_of(name) && ".log"@.is_suffix_of(name)
}

/// Whether a file of this name is the log of a launch.
pub fn is_launch_log(name: &str) -> (r: bool)
    ensures
        r == launch_log(name@),
{
    text::starts_with(name, "unity-") && !text::starts_with(name, "unity-auth-")
        && text::ends_with(name, ".log")
}

/// Whether a file of this name is the log of a run of the auth hook.
pub fn is_auth_log(name: &str) -> (r: bool)
    ensures
        r == auth_log(name@),
{
    text::starts_with(name, "unity-auth-") && text::ends_with(name, ".log")
}

/// A file in the log directory.
pub struct LogEntry {
    pub name: String,
    /// When it was last modified, on any clock that counts forward; `None`
    /// where that could not be read.
    pub modified: Option<i128>,
}

/// Whether a time sorts before another; an unknown time sorts before all others.
pub open spec fn earlier(a: Option<i128>, b: Option<i128>) -> bool {
    match (a, b) {
        (None, Some(_)) => true,
        (Some(x), Some(y)) => x < y,
        _ => false,
    }
}

/// Whether the entry `i` is pruned before the entry `j`: it is older, or as old
/// and listed earlier.
pub open spec fn goes_before(times: Seq<Option<i128>>, i: int, j: int) -> bool {
    earlier(times[i], times[j]) || (times[i] == times[j] && i < j)
}

/// How many of `flags` are set.
pub open spec fn set_count(flags: Seq<bool>) -> nat
    decreases flags.len(),
{
    if flags.len() == 0 {
        0
    } else {
        set_count(flags.drop_last()) + (if flags.last() {
            1nat
        } else {
            0nat
        })
    }
}

/// The times in a listing.
pub open spec fn times_of(entries: Seq<LogEntry>) -> Seq<Option<i128>> {
    entries.map_values(|e: LogEntry| e.modified)
}

/// Whether `gone` are the entries to remove, in the order in which they go, so
/// that `keep` of the selected entries stay: the oldest ones.
pub open spec fn prunes(
    times: Seq<Option<i128>>,
    selected: Seq<bool>,
    keep: nat,
    gone: Seq<usize>,
) -> bool {
    &&& gone.len() == (if set_count(selected) > keep {
        set_count(selected) - keep
    } else {
        0
    })
    &&& forall|a: int|
        0 <= a < gone.len() ==> (#[trigger] gone[a]) < selected.len() && selected[gone[a] as int]
    &&& forall|a: int, b: int|
        0 <= a < b < gone.len() ==> goes_before(
            times,
            (#[trigger] gone[a]) as int,
            (#[trigger] gone[b]) as int,
        )
    &&& forall|a: int, j: usize|
        0 <= a < gone.len() && j < selected.len() && #[trigger] selected[j as int]
            && !gone.contains(j) ==> goes_before(times, (#[trigger] gone[a]) as int, j as int)
}

/// Whether `b` is an answer of the matcher `f` for `name`.
pub open spec fn answers<F: Fn(&str) -> bool>(f: F, name: Seq<char>, b: bool) -> bool {
    exists|s: &str| s@ == name && #[trigger] call_ensures(f, (s,), b)
}

/// Whether `selected` are answers of the matcher `f` for the names in a listing.
pub open spec fn selects<F: Fn(&str) -> bool>(
    f: F,
    entries: Seq<LogEntry>,
    selected: Seq<bool>,
) -> bool {
    &&& selected.len() == entries.len()
    &&& forall|i: int|
        0 <= i < entries.len() ==> answers(f, entries[i].name@, #[trigger] selected[i])
}

fn is_earlier(a: Option<i128>, b: Option<i128>) -> (r: bool)
    ensures
        r == earlier(a, b),
{
    match (a, b) {
        (None, Some(_)) => true,
        (Some(x), Some(y)) => x < y,
        _ => false,
    }
}

/// Whether `order` holds the selected entries below `n`, oldest first.
spec fn in_order(
    times: Seq<Option<i128>>,
    selected: Seq<bool>,
    n: int,
    order: Seq<usize>,
) -> bool {
    &&& order.len() == set_count(selected.take(n))
    &&& forall|a: int|
        0 <= a < order.len() ==> (#[trigger] order[a]) < n && selected[order[a] as int]
    &&& forall|j: usize| j < n && #[trigger] selected[j as int] ==> order.contains(j)
    &&& forall|a: int, b: int|
        0 <= a < b < order.len() ==> goes_before(
            times,
            (#[trigger] order[a]) as int,
            (#[trigger] order[b]) as int,
        )
}

/// Puts the entry `i`, listed after all that `order` holds, into its place.
fn place(entries: &Vec<LogEntry>, order: &mut Vec<usize>, i: usize, selected: Ghost<Seq<bool>>)
    requires
        i < entries@.len(),
        selected@.len() == i + 1,
        selected@[i as int],
        in_order(times_of(entries@), selected@, i as int, old(order)@),
    ensures
        in_order(times_of(entries@), selected@, i + 1, final(order)@),
{
    let ghost times = times_of(entries@);
    let ghost before = order@;
    let mut at: usize = order.len();
    while at > 0 && is_earlier(entries[i].modified, entries[order[at - 1]].modified)
        invariant
            at <= order@.len(),
            order@ == before,
            i < entries@.len(),
            times == times_of(entries@),
            in_order(times, selected@, i as int, before),
            forall|b: int|
                at <= b < before.len() ==> goes_before(
                    times,
                    i as int,
                    (#[trigger] before[b]) as int,
                ),
        decreases at,
    {
        assert(order@[at - 1] < i);
        at -= 1;
    }
    order.insert(at, i);
    proof {
        let after = order@;
        assert(selected@.take(i + 1).drop_last() =~= selected@.take(i as int));
        assert forall|a: int| 0 <= a < at implies goes_before(
            times,
            (#[trigger] before[a]) as int,
            i as int,
        ) by {
            if a < at - 1 {
                assert(goes_before(times, before[a] as int, before[at - 1] as int));
            }
        }
        assert forall|j: usize| j < i + 1 && #[trigger] selected@[j as int] implies after.contains(
            j,
        ) by {
            if j == i {
                assert(after[at as int] == i);
            } else {
                let k = choose|k: int| 0 <= k < before.len() && before[k] == j;
                if k < at {
                    assert(after[k] == j);
                } else {
                    assert(after[k + 1] == j);
                }
            }
        }
    }
}

/// Which entries of a log directory to remove, oldest first, so that no more
/// than `keep` of those that `matches` selects stay.
pub fn prune_logs<F: Fn(&str) -> bool>(entries: &Vec<LogEntry>, matches: F, keep: usize) -> (r: Vec<
    usize,
>)
    requires
        forall|s: &str| call_requires(matches, (s,)),
    ensures
        exists|selected: Seq<bool>|
            #[trigger] selects(matches, entries@, selected) && prunes(
                times_of(entries@),
                selected,
                keep as nat,
                r@,
            ),
{
    let mut order: Vec<usize> = Vec::new();
    let ghost mut selected: Seq<bool> = Seq::empty();
    let ghost times = times_of(entries@);
    for i in 0..entries.len()
        invariant
            forall|s: &str| call_requires(matches, (s,)),
            times == times_of(entries@),
            selected.len() == i,
            forall|k: int|
                0 <= k < i ==> answers(matches, entries@[k].name@, #[trigger] selected[k]),
            in_order(times, selected, i as int, order@),
    {
        let name = entries[i].name.as_str();
        let hit = matches(name);
        let ghost longer = selected.push(hit);
        proof {
            assert(answers(matches, entries@[i as int].name@, hit));
            assert(longer.take(i as int) =~= selected.take(i as int));
            assert(longer.take(i + 1).drop_last() =~= selected.take(i as int));
            assert(in_order(times, longer, i as int, order@));
            selected = longer;
        }
        if hit {
            place(entries, &mut order, i, Ghost(selected));
        }
    }
    let ghost all = order@;
    assert(selected.take(entries@.len() as int) =~= selected);
    if order.len() <= keep {
        order.clear();
    } else {
        let n: usize = order.len() - keep;
        order.truncate(n);
        proof {
            assert forall|a: int, j: usize|
                0 <= a < order@.len() && j < selected.len() && #[trigger] selected[j as int]
                    && !order@.contains(j) implies goes_before(
                times,
                (#[trigger] order@[a]) as int,
                j as int,
            ) by {
                let k = choose|k: int| 0 <= k < all.len() && all[k] == j;
                if k < n {
                    assert(order@[k] == j);
                }
                assert(goes_before(times, all[a] as int, all[k] as int));
            }
        }
    }
    assert(selects(matches, entries@, selected));
    assert(prunes(times, selected, keep as nat, order@));
    order
}

/// For each entry of a listing, whether it is the log of a launch.
pub open spec fn launch_flags(entries: Seq<LogEntry>) -> Seq<bool> {
    entries.map_values(|e: LogEntry| launch_log(e.name@))
}

/// For each entry of a listing, whether it is the log of a run of the auth hook.
pub open spec fn auth_flags(entries: Seq<LogEntry>) -> Seq<bool> {
    entries.map_values(|e: LogEntry| auth_log(e.name@))
}

/// Which entries of a log directory to remove before a launch.
pub fn prune_launch_logs(entries: &Vec<LogEntry>) -> (r: Vec<usize>)
    ensures
        prunes(times_of(entries@), launch_flags(entries@), KEEP_LAUNCH_LOGS as nat, r@),
{
    let r = prune_logs(entries, is_launch_log, KEEP_LAUNCH_LOGS);
    proof {
        let selected = choose|selected: Seq<bool>|
            #[trigger] selects(is_launch_log, entries@, selected) && prunes(
                times_of(entries@),
                selected,
                KEEP_LAUNCH_LOGS as nat,
                r@,
            );
        assert(selected =~= launch_flags(entries@));
    }
    r
}

/// Which entries of a log directory to remove before a run of the auth hook.
pub fn prune_auth_logs(entries: &Vec<LogEntry>) -> (r: Vec<usize>)
    ensures
        prunes(times_of(entries@), auth_flags(entries@), KEEP_AUTH_LOGS as nat, r@),
{
    let r = prune_logs(entries, is_auth_log, KEEP_AUTH_LOGS);
    proof {
        let selected = choose|selected: Seq<bool>|
            #[trigger] selects(is_auth_log, entries@, selected) && prunes(
                times_of(entries@),
                selected,
                KEEP_AUTH_LOGS as nat,
                r@,
            );
        assert(selected =~= auth_flags(entries@));
    }
    r
}

// ---------------------------------------------------------------------------
// What pruning keeps
// ---------------------------------------------------------------------------

/// There is one way to prune a listing.
pub proof fn pruning_is_determined(
    times: Seq<Option<i128>>,
    selected: Seq<bool>,
    keep: nat,
    gone: Seq<usize>,
    other: Seq<usize>,
)
    requires
        prunes(times, selected, keep, gone),
        prunes(times, selected, keep, other),
    ensures
        gone == other,
{
    lemma_same_from(times, selected, keep, gone, other, gone.len() as int);
    assert(gone =~= other);
}

proof fn lemma_same_from(
    times: Seq<Option<i128>>,
    selected: Seq<bool>,
    keep: nat,
    gone: Seq<usize>,
    other: Seq<usize>,
    n: int,
)
    requires
        prunes(times, selected, keep, gone),
        prunes(times, selected, keep, other),
        0 <= n <= gone.len(),
    ensures
        forall|a: int| 0 <= a < n ==> gone[a] == other[a],
    decreases n,
{
    if n > 0 {
        let a = n - 1;
        lemma_same_from(times, selected, keep, gone, other, a);
        if gone[a] != other[a] {
            lemma_precedes(times, selected, keep, gone, other, a);
            lemma_precedes(times, selected, keep, other, gone, a);
        }
    }
}

proof fn lemma_precedes(
    times: Seq<Option<i128>>,
    selected: Seq<bool>,
    keep: nat,
    gone: Seq<usize>,
    other: Seq<usize>,
    a: int,
)
    requires
        prunes(times, selected, keep, gone),
        prunes(times, selected, keep, other),
        0 <= a < gone.len(),
        forall|b: int| 0 <= b < a ==> gone[b] == other[b],
        gone[a] != other[a],
    ensures
        goes_before(times, gone[a] as int, other[a] as int),
{
    let x = other[a];
    assert(selected[x as int]);
    if gone.contains(x) {
        let k = choose|k: int| 0 <= k < gone.len() && gone[k] == x;
        if k < a {
            assert(other[k] == x);
            assert(goes_before(times, other[k] as int, other[a] as int));
        }
        assert(goes_before(times, gone[a] as int, gone[k] as int));
    }
}

/// Pruning removes no entry twice and none that was not selected, and no entry
/// that stays is older than one that goes. Where no more than `keep` are
/// selected, nothing goes; else `keep` of them stay.
pub proof fn pruning_keeps_the_newest(
    times: Seq<Option<i128>>,
    selected: Seq<bool>,
    keep: nat,
    gone: Seq<usize>,
)
    requires
        prunes(times, selected, keep, gone),
    ensures
        gone.no_duplicates(),
        forall|j: usize| #[trigger] gone.contains(j) ==> j < selected.len() && selected[j as int],
        forall|g: usize, j: usize|
            #![trigger gone.contains(g), selected[j as int]]
            gone.contains(g) && j < selected.len() && selected[j as int] && !gone.contains(j)
                ==> !earlier(times[j as int], times[g as int]),
        set_count(selected) <= keep ==> gone.len() == 0,
        set_count(selected) > keep ==> set_count(selected) - gone.len() == keep,
{
    assert forall|a: int, b: int|
        0 <= a < gone.len() && 0 <= b < gone.len() && a != b implies gone[a] != gone[b] by {
        if a < b {
            assert(goes_before(times, gone[a] as int, gone[b] as int));
        } else {
            assert(goes_before(times, gone[b] as int, gone[a] as int));
        }
    }
    assert forall|g: usize, j: usize|
        #![trigger gone.contains(g), selected[j as int]]
        gone.contains(g) && j < selected.len() && selected[j as int] && !gone.contains(
            j,
        ) implies !earlier(times[j as int], times[g as int]) by {
        let a = choose|a: int| 0 <= a < gone.len() && gone[a] == g;
        assert(goes_before(times, gone[a] as int, j as int));
    }
}

/// What is left of `s` without the entries at the places in `gone`.
pub open spec fn left<T>(s: Seq<T>, gone: Seq<usize>) -> Seq<T>
    decreases s.len(),
{
    if s.len() == 0 {
        s
    } else {
        let n = s.len() - 1;
        let front = left(s.drop_last(), gone);
        if exists|a: int| 0 <= a < gone.len() && gone[a] == n {
            front
        } else {
            front.push(s.last())
        }
    }
}

/// A listing, as names and times.
pub open spec fn listing(entries: Seq<LogEntry>) -> Seq<(Seq<char>, Option<i128>)> {
    entries.map_values(|e: LogEntry| (e.name@, e.modified))
}

/// The answers of a matcher for the names in a listing.
pub open spec fn matched(
    files: Seq<(Seq<char>, Option<i128>)>,
    matcher: spec_fn(Seq<char>) -> bool,
) -> Seq<bool> {
    files.map_values(|f: (Seq<char>, Option<i128>)| matcher(f.0))
}

/// For each place below `n`, whether `gone` holds it.
spec fn gone_flags(gone: Seq<usize>, n: nat) -> Seq<bool> {
    Seq::new(n, |i: int| exists|a: int| 0 <= a < gone.len() && gone[a] == i)
}

proof fn lemma_count_update(flags: Seq<bool>, i: int)
    requires
        0 <= i < flags.len(),
        !flags[i],
    ensures
        set_count(flags.update(i, true)) == set_count(flags) + 1,
    decreases flags.len(),
{
    let after = flags.update(i, true);
    if i == flags.len() - 1 {
        assert(after.drop_last() =~= flags.drop_last());
    } else {
        lemma_count_update(flags.drop_last(), i);
        assert(after.drop_last() =~= flags.drop_last().update(i, true));
    }
}

proof fn lemma_count_none(flags: Seq<bool>)
    requires
        forall|i: int| 0 <= i < flags.len() ==> !flags[i],
    ensures
        set_count(flags) == 0,
    decreases flags.len(),
{
    if flags.len() > 0 {
        lemma_count_none(flags.drop_last());
    }
}

proof fn lemma_count_gone(gone: Seq<usize>, n: nat)
    requires
        gone.no_duplicates(),
        forall|a: int| 0 <= a < gone.len() ==> (#[trigger] gone[a]) < n,
    ensures
        set_count(gone_flags(gone, n)) == gone.len(),
    decreases gone.len(),
{
    let flags = gone_flags(gone, n);
    if gone.len() == 0 {
        lemma_count_none(flags);
    } else {
        let front = gone.drop_last();
        let before = gone_flags(front, n);
        let x = gone.last() as int;
        lemma_count_gone(front, n);
        assert(!before[x]);
        assert forall|i: int| 0 <= i < n implies flags[i] == before.update(x, true)[i] by {
            if i == x {
                assert(gone[gone.len() - 1] == i);
            } else {
                if flags[i] {
                    let a = choose|a: int| 0 <= a < gone.len() && gone[a] == i;
                    assert(front[a] == i);
                }
                if before[i] {
                    let a = choose|a: int| 0 <= a < front.len() && front[a] == i;
                    assert(gone[a] == i);
                }
            }
        }
        assert(flags =~= before.update(x, true));
        lemma_count_update(before, x);
    }
}

proof fn lemma_count_left(
    files: Seq<(Seq<char>, Option<i128>)>,
    matcher: spec_fn(Seq<char>) -> bool,
    gone: Seq<usize>,
)
    requires
        forall|a: int|
            0 <= a < gone.len() && (#[trigger] gone[a]) < files.len() ==> matched(
                files,
                matcher,
            )[gone[a] as int],
    ensures
        set_count(matched(left(files, gone), matcher)) + set_count(
            gone_flags(gone, files.len()),
        ) == set_count(matched(files, matcher)),
    decreases files.len(),
{
    if files.len() > 0 {
        let front = files.drop_last();
        let n = front.len() as int;
        assert forall|a: int|
            0 <= a < gone.len() && (#[trigger] gone[a]) < front.len() implies matched(
            front,
            matcher,
        )[gone[a] as int] by {
            assert(matched(files, matcher)[gone[a] as int]);
        }
        lemma_count_left(front, matcher, gone);
        assert(matched(files, matcher).drop_last() =~= matched(front, matcher));
        assert(gone_flags(gone, files.len()).drop_last() =~= gone_flags(gone, front.len()));
        if exists|a: int| 0 <= a < gone.len() && gone[a] == n {
            let a = choose|a: int| 0 <= a < gone.len() && gone[a] == n;
            assert(matched(files, matcher)[gone[a] as int]);
        } else {
            let rest = left(front, gone).push(files.last());
            assert(matched(rest, matcher).drop_last() =~= matched(left(front, gone), matcher));
        }
    }
}

proof fn lemma_count_removed(
    files: Seq<(Seq<char>, Option<i128>)>,
    matcher: spec_fn(Seq<char>) -> bool,
    i: int,
)
    requires
        0 <= i < files.len(),
    ensures
        set_count(matched(files, matcher)) == set_count(matched(files.remove(i), matcher)) + (
        if matcher(files[i].0) {
            1nat
        } else {
            0nat
        }),
    decreases files.len(),
{
    assert(matched(files, matcher).drop_last() =~= matched(files.drop_last(), matcher));
    if i == files.len() - 1 {
        assert(files.remove(i) =~= files.drop_last());
    } else {
        lemma_count_removed(files.drop_last(), matcher, i);
        let shorter = files.remove(i);
        assert(shorter.drop_last() =~= files.drop_last().remove(i));
        assert(matched(shorter, matcher).drop_last() =~= matched(shorter.drop_last(), matcher));
        assert(shorter.last() == files.last());
    }
}

proof fn lemma_count_in_any_order(
    a: Seq<(Seq<char>, Option<i128>)>,
    b: Seq<(Seq<char>, Option<i128>)>,
    matcher: spec_fn(Seq<char>) -> bool,
)
    requires
        a.to_multiset() == b.to_multiset(),
    ensures
        set_count(matched(a, matcher)) == set_count(matched(b, matcher)),
    decreases a.len(),
{
    a.to_multiset_ensures();
    b.to_multiset_ensures();
    if a.len() > 0 {
        let i = a.len() - 1;
        assert(a.contains(a[i]));
        assert(a.to_multiset().count(a[i]) > 0);
        assert(b.contains(a[i]));
        let j = choose|j: int| 0 <= j < b.len() && b[j] == a[i];
        lemma_count_removed(a, matcher, i);
        lemma_count_removed(b, matcher, j);
        assert(a.remove(i).to_multiset() =~= b.remove(j).to_multiset());
        lemma_count_in_any_order(a.remove(i), b.remove(j), matcher);
    }
}

/// A matcher that always answers alike for a name selects by that answer.
pub proof fn steady_matcher_selects_by_name<F: Fn(&str) -> bool>(
    f: F,
    matcher: spec_fn(Seq<char>) -> bool,
    entries: Seq<LogEntry>,
    selected: Seq<bool>,
)
    requires
        forall|s: &str, b: bool| #[trigger] call_ensures(f, (s,), b) ==> b == matcher(s@),
        selects(f, entries, selected),
    ensures
        selected == matched(listing(entries), matcher),
{
    assert forall|i: int| 0 <= i < entries.len() implies selected[i] == matched(
        listing(entries),
        matcher,
    )[i] by {
        assert(answers(f, entries[i].name@, selected[i]));
    }
    assert(selected =~= matched(listing(entries), matcher));
}

/// The logs of launches, and those of the auth hook, are selected by their names.
pub proof fn logs_are_selected_by_name(entries: Seq<LogEntry>)
    ensures
        launch_flags(entries) == matched(listing(entries), |name: Seq<char>| launch_log(name)),
        auth_flags(entries) == matched(listing(entries), |name: Seq<char>| auth_log(name)),
{
    assert(launch_flags(entries) =~= matched(
        listing(entries),
        |name: Seq<char>| launch_log(name),
    ));
    assert(auth_flags(entries) =~= matched(listing(entries), |name: Seq<char>| auth_log(name)));
}

/// Pruning what pruning has left, to as many or more, removes nothing, in
/// whatever order the files are listed then.
pub proof fn pruning_again_removes_nothing(
    entries: Seq<LogEntry>,
    matcher: spec_fn(Seq<char>) -> bool,
    keep: nat,
    gone: Seq<usize>,
    later: Seq<LogEntry>,
    keep_later: nat,
    gone_later: Seq<usize>,
)
    requires
        prunes(times_of(entries), matched(listing(entries), matcher), keep, gone),
        listing(later).to_multiset() == left(listing(entries), gone).to_multiset(),
        keep <= keep_later,
    ensures
        prunes(times_of(later), matched(listing(later), matcher), keep_later, gone_later)
            <==> gone_later.len() == 0,
{
    let files = listing(entries);
    let selected = matched(files, matcher);
    pruning_keeps_the_newest(times_of(entries), selected, keep, gone);
    lemma_count_gone(gone, files.len());
    lemma_count_left(files, matcher, gone);
    lemma_count_in_any_order(left(files, gone), listing(later), matcher);
}

/// No file is both a log of a launch and a log of the auth hook.
pub proof fn log_kinds_are_apart(name: Seq<char>)
    ensures
        !(launch_log(name) && auth_log(name)),
{
}

/// Pruning the logs of launches removes no log of the auth hook, and the other
/// way round.
pub proof fn pruning_spares_the_other_kind(
    entries: Seq<LogEntry>,
    keep: nat,
    gone: Seq<usize>,
    i: usize,
)
    requires
        i < entries.len(),
        gone.contains(i),
    ensures
        prunes(times_of(entries), launch_flags(entries), keep, gone) ==> !auth_log(
            entries[i as int].name@,
        ),
        prunes(times_of(entries), auth_flags(entries), keep, gone) ==> !launch_log(
            entries[i as int].name@,
        ),
{
    let a = choose|a: int| 0 <= a < gone.len() && gone[a] == i;
    assert(gone[a] == i);
}

/// The log that a launch writes counts as the log of a launch, and the log that
/// the auth hook writes as one of the auth hook.
pub proof fn own_logs_are_recognised(secs: nat)
    ensures
        launch_log(paths::launch_log_name(calendar::timestamp_text(secs))),
        auth_log(paths::auth_log_name(calendar::timestamp_text(secs))),
{
    let stamp = calendar::timestamp_text(secs);
    reveal_strlit("unity-");
    reveal_strlit("unity-auth-");
    reveal_strlit(".log");
    calendar::timestamp_begins_with_digit(secs);
    let name = paths::launch_log_name(stamp);
    assert("unity-"@.is_prefix_of(name));
    assert(name[6] == stamp[0]);
    assert("unity-auth-"@[6] == 'a');
    assert(".log"@.is_suffix_of(name));
    let auth = paths::auth_log_name(stamp);
    assert("unity-auth-"@.is_prefix_of(auth));
    assert(".log"@.is_suffix_of(auth));
}

/// Pruning goes by the time of a file and nothing else: a file that goes has no
/// known time, or one that is not after the time of any selected file that stays;
/// of two files of one time, the one listed first goes first. The files go oldest
/// first.
pub proof fn older_files_go_first(
    times: Seq<Option<i128>>,
    selected: Seq<bool>,
    keep: nat,
    gone: Seq<usize>,
    a: int,
    b: int,
    j: usize,
)
    requires
        prunes(times, selected, keep, gone),
        0 <= a < b < gone.len() || a == b && 0 <= a < gone.len(),
        j < selected.len(),
        selected[j as int],
        !gone.contains(j),
    ensures
        match (times[gone[a] as int], times[j as int]) {
            (None, None) => gone[a] < j,
            (None, Some(_)) => true,
            (Some(_), None) => false,
            (Some(x), Some(y)) => x < y || (x == y && gone[a] < j),
        },
        a < b ==> match (times[gone[a] as int], times[gone[b] as int]) {
            (None, None) => gone[a] < gone[b],
            (None, Some(_)) => true,
            (Some(_), None) => false,
            (Some(x), Some(y)) => x < y || (x == y && gone[a] < gone[b]),
        },
{
    assert(goes_before(times, gone[a] as int, j as int));
    if a < b {
        assert(goes_before(times, gone[a] as int, gone[b] as int));
    }
}

/// A selected file counts once, wherever it is listed, and another one does not
/// count.
pub proof fn each_selected_file_counts_once(a: Seq<bool>, b: bool, c: Seq<bool>)
    ensures
        set_count(seq![]) == 0,
        set_count(a.push(b)) == set_count(a) + (if b {
            1nat
        } else {
            0nat
        }),
        set_count(a + c) == set_count(a) + set_count(c),
    decreases c.len(),
{
    assert(a.push(b).drop_last() =~= a);
    if c.len() == 0 {
        assert(a + c =~= a);
    } else {
        assert((a + c).drop_last() =~= a + c.drop_last());
        each_selected_file_counts_once(a, b, c.drop_last());
    }
}

/// A file is the log of a launch where its name is `unity-`, something that does
/// not begin with `auth-`, and `.log`; it is the log of the auth hook where its
/// name is `unity-auth-`, something, and `.log`.
pub proof fn logs_are_told_by_their_names(name: Seq<char>, x: Seq<char>)
    ensures
        name == "unity-"@ + x + ".log"@ && !"auth-"@.is_prefix_of(x + ".log"@) ==> launch_log(name),
        name == "unity-auth-"@ + x + ".log"@ ==> auth_log(name) && !launch_log(name),
        launch_log(name) ==> exists|y: Seq<char>| name == #[trigger] ("unity-"@ + y + ".log"@),
        auth_log(name) ==> exists|y: Seq<char>| name == #[trigger] ("unity-auth-"@ + y + ".log"@),
        launch_log(name) || auth_log(name) <==> "unity-"@.is_prefix_of(name)
            && ".log"@.is_suffix_of(name),
{
    reveal_strlit("unity-");
    reveal_strlit("unity-auth-");
    reveal_strlit("auth-");
    reveal_strlit(".log");
    let head = "unity-"@;
    let auth = "unity-auth-"@;
    let tail = ".log"@;
    let n = name.len() as int;
    assert(auth =~= head + "auth-"@);
    if name == head + x + tail {
        assert(name.subrange(0, 6) =~= head);
        assert(name.subrange(n - 4, n) =~= tail);
        if auth.is_prefix_of(name) {
            assert(name.skip(6) =~= x + tail);
            assert((x + tail).subrange(0, 5) =~= "auth-"@) by {
                assert forall|i: int| 0 <= i < 5 implies (x + tail)[i] == "auth-"@[i] by {
                    assert(name[i + 6] == auth[i + 6]);
                    assert(name.skip(6)[i] == name[i + 6]);
                }
            }
        }
    }
    if name == auth + x + tail {
        assert(name.subrange(0, 11) =~= auth);
        assert(name.subrange(n - 4, n) =~= tail);
    }
    if auth.is_prefix_of(name) {
        assert(name.subrange(0, 6) =~= head) by {
            assert forall|i: int| 0 <= i < 6 implies name[i] == head[i] by {
                assert(name.subrange(0, 11)[i] == auth[i]);
            }
        }
    }
    if launch_log(name) {
        lemma_no_overlap(name, head);
        assert(name =~= head + name.subrange(6, n - 4) + tail);
    }
    if auth_log(name) {
        lemma_no_overlap(name, auth);
        assert(name =~= auth + name.subrange(11, n - 4) + tail);
    }
}

proof fn lemma_no_overlap(name: Seq<char>, head: Seq<char>)
    requires
        head == "unity-"@ || head == "unity-auth-"@,
        head.is_prefix_of(name),
        ".log"@.is_suffix_of(name),
    ensures
        name.len() >= head.len() + 4,
{
    reveal_strlit("unity-");
    reveal_strlit("unity-auth-");
    reveal_strlit(".log");
    let tail = ".log"@;
    let n = name.len() as int;
    if n < head.len() + 4 {
        let at = n - 4;
        assert(name.subrange(at, n)[0] == tail[0]);
        assert(name.subrange(0, head.len() as int)[at] == head[at]);
        assert(name[at] == '.');
    }
}

/// Each file of a listing is taken with the time and the name that it is listed
/// with.
pub proof fn files_are_taken_as_listed(entries: Seq<LogEntry>, i: int)
    requires
        0 <= i < entries.len(),
    ensures
        times_of(entries).len() == entries.len(),
        times_of(entries)[i] == entries[i].modified,
        launch_flags(entries).len() == entries.len(),
        launch_flags(entries)[i] == launch_log(entries[i].name@),
        auth_flags(entries).len() == entries.len(),
        auth_flags(entries)[i] == auth_log(entries[i].name@),
{
}

} // verus!
