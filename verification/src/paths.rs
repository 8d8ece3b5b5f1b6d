//! Where things are: the project, its files, the editor and the auth hook.

use std::path::Path;

use vstd::prelude::*;

use crate::error::AppError;
use crate::text;

verus! {

/// The file, below a project, that names the editor's version.
pub const VERSION_FILE: &'static str = "ProjectSettings/ProjectVersion.txt";

/// The file, below a project, that holds the id of the editor's process.
pub const PID_FILE: &'static str = "Temp/.unity-launcher.pid";

/// `part` below the directory `base`; `part` itself where it is absolute.
pub open spec fn joined(base: Seq<char>, part: Seq<char>) -> Seq<char> {
    if part.len() > 0 && part[0] == '/' {
        part
    } else if base.len() == 0 || base.last() == '/' {
        base + part
    } else {
        base.push('/') + part
    }
}

/// `part` below the directory `base`; `part` itself where it is absolute.
pub fn join(base: &str, part: &str) -> (r: String)
    ensures
        r@ == joined(base@, part@),
{
    let b = text::chars(base);
    let p = text::chars(part);
    if p.len() > 0 && p[0] == '/' {
        return part.to_owned();
    }
    if b.len() == 0 || b[b.len() - 1] == '/' {
        text::join2(base, part)
    } else {
        let mut out = base.to_owned();
        out.push('/');
        text::join2(out.as_str(), part)
    }
}

// ---------------------------------------------------------------------------
// The project
// ---------------------------------------------------------------------------

/// What `Path::parent` returns for a path.
pub uninterp spec fn path_parent(path: Seq<char>) -> Option<Seq<char>>;

/// `Path::parent`: the path without its final component, or nothing where there
/// is none. What remains is shorter than the path.
#[verifier::external_body]
fn parent(path: &str) -> (r: Option<String>)
    ensures
        r.deep_view() == path_parent(path@),
        r matches Some(p) ==> p@.len() < path@.len(),
{
    Path::new(path).parent().and_then(|p| p.to_str()).map(|p| p.to_owned())
}

/// A path, its parent, the parent of that, and so on as long as there is one.
pub open spec fn ancestors_of(path: Seq<char>) -> Seq<Seq<char>>
    decreases path.len(),
{
    seq![path] + match path_parent(path) {
        Some(p) if p.len() < path.len() => ancestors_of(p),
        _ => seq![],
    }
}

/// A path, its parent, the parent of that, and so on as long as there is one.
pub fn ancestors(path: &str) -> (r: Vec<String>)
    ensures
        r.deep_view() == ancestors_of(path@),
{
    let mut out: Vec<String> = Vec::new();
    let mut current: String = path.to_owned();
    assert(out.deep_view() =~= seq![]);
    loop
        invariant
            ancestors_of(path@) =~= out.deep_view() + ancestors_of(current@),
        decreases current@.len(),
    {
        let up = parent(current.as_str());
        let ghost before = out.deep_view();
        let ghost at = current@;
        match up {
            Some(p) => {
                out.push(current);
                current = p;
                assert(out.deep_view() =~= before.push(at));
            },
            None => {
                out.push(current);
                assert(out.deep_view() =~= before.push(at));
                return out;
            },
        }
    }
}

/// The directories to look for a project in: those around the executable, then
/// those around the current directory, each from the inside out.
pub open spec fn candidates(exe: Option<Seq<char>>, cwd: Option<Seq<char>>) -> Seq<Seq<char>> {
    (match exe {
        Some(p) => ancestors_of(p),
        None => seq![],
    }) + (match cwd {
        Some(p) => ancestors_of(p),
        None => seq![],
    })
}

/// The directories to look for a project in.
pub fn project_candidates(exe: Option<&str>, cwd: Option<&str>) -> (r: Vec<String>)
    ensures
        r.deep_view() == candidates(exe.deep_view(), cwd.deep_view()),
{
    let mut out: Vec<String> = match exe {
        Some(p) => ancestors(p),
        None => Vec::new(),
    };
    let mut more: Vec<String> = match cwd {
        Some(p) => ancestors(p),
        None => Vec::new(),
    };
    let ghost first = out.deep_view();
    let ghost second = more.deep_view();
    out.append(&mut more);
    assert(out.deep_view() =~= first + second);
    assert(exe is None ==> first =~= seq![]);
    assert(cwd is None ==> second =~= seq![]);
    out
}

/// Where the search for the project stands.
pub enum ProjectSearch {
    /// Look whether this file exists.
    Probe(String),
    /// The project.
    Found(String),
    /// There is none.
    Missing(AppError),
}

/// What the launcher says when it is not started for a project.
pub open spec fn no_project() -> (Seq<char>, Option<Seq<char>>) {
    (
        "Not inside a Unity project"@,
        Some(
            "ProjectSettings/ProjectVersion.txt not found in any ancestor of the executable or cwd"@,
        ),
    )
}

/// Whether `i` is the first of `flags` that is set.
pub open spec fn is_first(flags: Seq<bool>, i: int) -> bool {
    0 <= i < flags.len() && flags[i] && forall|j: int| 0 <= j < i ==> !flags[j]
}

/// The search for the project among `candidates`, when the first of them have
/// been probed: the project is the first one that holds the version file.
pub fn project_path(candidates: &Vec<String>, probed: &Vec<bool>) -> (r: ProjectSearch)
    requires
        probed@.len() <= candidates@.len(),
    ensures
        match r {
            ProjectSearch::Found(p) => exists|i: int| #[trigger]
                is_first(probed@, i) && p@ == candidates@[i]@,
            ProjectSearch::Probe(f) => {
                &&& forall|i: int| 0 <= i < probed@.len() ==> !probed@[i]
                &&& probed@.len() < candidates@.len()
                &&& f@ == joined(candidates@[probed@.len() as int]@, VERSION_FILE@)
            },
            ProjectSearch::Missing(e) => {
                &&& forall|i: int| 0 <= i < probed@.len() ==> !probed@[i]
                &&& probed@.len() == candidates@.len()
                &&& e@ == no_project()
            },
        },
{
    for i in 0..probed.len()
        invariant
            probed@.len() <= candidates@.len(),
            forall|j: int| 0 <= j < i ==> !probed@[j],
    {
        if probed[i] {
            assert(is_first(probed@, i as int));
            return ProjectSearch::Found(candidates[i].clone());
        }
    }
    if probed.len() < candidates.len() {
        ProjectSearch::Probe(join(candidates[probed.len()].as_str(), VERSION_FILE))
    } else {
        ProjectSearch::Missing(
            AppError::detailed(
                "Not inside a Unity project",
                "ProjectSettings/ProjectVersion.txt not found in any ancestor of the executable or cwd",
            ),
        )
    }
}

/// A project around the executable is found before one around the current
/// directory, and the innermost one is found first.
pub proof fn project_around_executable_comes_first(
    exe: Seq<char>,
    cwd: Option<Seq<char>>,
    probed: Seq<bool>,
    i: int,
    k: int,
)
    requires
        probed.len() <= candidates(Some(exe), cwd).len(),
        is_first(probed, i),
        0 <= k < ancestors_of(exe).len(),
        k < probed.len() && probed[k],
    ensures
        i <= k,
        candidates(Some(exe), cwd)[i] == ancestors_of(exe)[i],
{
}

// ---------------------------------------------------------------------------
// The editor
// ---------------------------------------------------------------------------

/// The version that a project's version file names, from its contents, or what
/// the launcher says instead: the rest of the first line that begins with
/// `m_EditorVersion:`.
pub open spec fn version_in(contents: Option<Seq<char>>) -> Result<
    Seq<char>,
    (Seq<char>, Option<Seq<char>>),
> {
    match contents {
        None => Err(("Could not read Unity version"@, Some("ProjectSettings/ProjectVersion.txt"@))),
        Some(c) => {
            let values = text::tagged(text::lines_of(c), "m_EditorVersion:"@);
            if values.len() > 0 {
                Ok(values[0])
            } else {
                Err(("Could not parse Unity version"@, Some("m_EditorVersion: line missing"@)))
            }
        },
    }
}

/// The version that a project's version file names; `contents` is `None` where
/// the file could not be read.
pub fn unity_version(contents: Option<&str>) -> (r: Result<String, AppError>)
    ensures
        match version_in(contents.deep_view()) {
            Ok(v) => r matches Ok(s) && s@ == v,
            Err(e) => r matches Err(f) && f@ == e,
        },
{
    match contents {
        None => Err(
            AppError::detailed("Could not read Unity version", "ProjectSettings/ProjectVersion.txt"),
        ),
        Some(c) => {
            let values = text::tagged_lines(c, "m_EditorVersion:");
            if values.len() > 0 {
                assert(values.deep_view()[0] == values@[0]@);
                Ok(values[0].clone())
            } else {
                Err(
                    AppError::detailed(
                        "Could not parse Unity version",
                        "m_EditorVersion: line missing",
                    ),
                )
            }
        },
    }
}

/// Where Unity Hub installs the editor of the version `ver`.
pub open spec fn editor(ver: Seq<char>) -> Seq<char> {
    "/Applications/Unity/Hub/Editor/"@ + ver + "/Unity.app/Contents/MacOS/Unity"@
}

/// Where Unity Hub installs the editor of the version `ver`.
pub fn unity_path(ver: &str) -> (r: String)
    ensures
        r@ == editor(ver@),
{
    text::join3("/Applications/Unity/Hub/Editor/", ver, "/Unity.app/Contents/MacOS/Unity")
}

// ---------------------------------------------------------------------------
// Files of the project
// ---------------------------------------------------------------------------

/// The version file of the project.
pub fn version_file(project: &str) -> (r: String)
    ensures
        r@ == joined(project@, VERSION_FILE@),
{
    join(project, VERSION_FILE)
}

/// The file that holds the id of the project's editor process.
pub fn pid_file(project: &str) -> (r: String)
    ensures
        r@ == joined(project@, PID_FILE@),
{
    join(project, PID_FILE)
}

/// The directory of the file that holds the id of the editor process.
pub fn pid_dir(project: &str) -> (r: String)
    ensures
        r@ == joined(project@, "Temp"@),
{
    join(project, "Temp")
}

/// The directory of the project's logs.
pub open spec fn log_dir(project: Seq<char>) -> Seq<char> {
    joined(project, "Logs"@)
}

/// The directory of the project's logs.
pub fn logs_dir(project: &str) -> (r: String)
    ensures
        r@ == log_dir(project@),
{
    join(project, "Logs")
}

/// The name of the log of a launch at `stamp`.
pub open spec fn launch_log_name(stamp: Seq<char>) -> Seq<char> {
    "unity-"@ + stamp + ".log"@
}

/// The name of the log of a run of the auth hook at `stamp`.
pub open spec fn auth_log_name(stamp: Seq<char>) -> Seq<char> {
    "unity-auth-"@ + stamp + ".log"@
}

/// The log of a launch at `stamp`.
pub fn launch_log(project: &str, stamp: &str) -> (r: String)
    ensures
        r@ == joined(log_dir(project@), launch_log_name(stamp@)),
{
    join(logs_dir(project).as_str(), text::join3("unity-", stamp, ".log").as_str())
}

/// The log of a run of the auth hook at `stamp`.
pub fn auth_log(project: &str, stamp: &str) -> (r: String)
    ensures
        r@ == joined(log_dir(project@), auth_log_name(stamp@)),
{
    join(logs_dir(project).as_str(), text::join3("unity-auth-", stamp, ".log").as_str())
}

/// Where a crashed editor leaves its scene backups.
pub fn scene_backup(project: &str) -> (r: String)
    ensures
        r@ == joined(project@, "Temp/__Backupscenes"@),
{
    join(project, "Temp/__Backupscenes")
}

/// Where the scene backups are moved to at `stamp`.
pub fn moved_backup(project: &str, stamp: &str) -> (r: String)
    ensures
        r@ == joined(project@, "Temp/__Backupscenes."@ + stamp@),
{
    join(project, text::join2("Temp/__Backupscenes.", stamp).as_str())
}

/// The auth hook: below `$XDG_CONFIG_HOME`, or below `.config` in the home
/// directory.
pub open spec fn auth_script(config_home: Option<Seq<char>>, home: Option<Seq<char>>) -> Seq<char> {
    let base = match config_home {
        Some(c) => c,
        None => joined(
            match home {
                Some(h) => h,
                None => seq![],
            },
            ".config"@,
        ),
    };
    joined(base, "unity-launcher/auth.sh"@)
}

/// The auth hook, from the values of `XDG_CONFIG_HOME` and `HOME`.
pub fn auth_script_path(config_home: Option<&str>, home: Option<&str>) -> (r: String)
    ensures
        r@ == auth_script(config_home.deep_view(), home.deep_view()),
{
    let base = match config_home {
        Some(c) => c.to_owned(),
        None => match home {
            Some(h) => join(h, ".config"),
            None => {
                let nowhere = String::new();
                assert(nowhere@ =~= seq![]);
                join(nowhere.as_str(), ".config")
            },
        },
    };
    join(base.as_str(), "unity-launcher/auth.sh")
}

// ---------------------------------------------------------------------------
// The recorded process id
// ---------------------------------------------------------------------------

/// The process id that the contents of a pid file stand for.
pub open spec fn recorded(contents: Option<Seq<char>>) -> Option<i32> {
    match contents {
        Some(c) => text::parsed_i32(text::trimmed(c)),
        None => None,
    }
}

/// The process id that the contents of a pid file stand for; `contents` is
/// `None` where the file could not be read.
pub fn recorded_pid(contents: Option<&str>) -> (r: Option<i32>)
    ensures
        r == recorded(contents.deep_view()),
{
    match contents {
        Some(c) => text::parse_i32(text::trim(c).as_str()),
        None => None,
    }
}

/// What the command line of the project's editor holds.
pub open spec fn project_needle(project: Seq<char>) -> Seq<char> {
    "Unity -projectPath "@ + project
}

/// What the command line of the project's editor holds.
pub fn editor_needle(project: &str) -> (r: String)
    ensures
        r@ == project_needle(project@),
{
    text::join2("Unity -projectPath ", project)
}

/// What was written to the pid file for a process is read back as its id.
pub proof fn recorded_pid_is_read_back(pid: i32)
    ensures
        recorded(Some(text::integer(pid as int))) == Some(pid),
{
    text::integer_is_read_back(pid);
    text::integer_has_no_space_around(pid);
}

/// The pid file lies in the directory that is made for it.
pub proof fn pid_file_lies_in_its_directory(project: Seq<char>)
    ensures
        joined(project, PID_FILE@) == joined(joined(project, "Temp"@), ".unity-launcher.pid"@),
{
    reveal_strlit("Temp/.unity-launcher.pid");
    reveal_strlit("Temp");
    reveal_strlit(".unity-launcher.pid");
    assert(PID_FILE@ =~= "Temp"@.push('/') + ".unity-launcher.pid"@);
    assert(joined(project, PID_FILE@) =~= joined(
        joined(project, "Temp"@),
        ".unity-launcher.pid"@,
    ));
}

// ---------------------------------------------------------------------------
// What the search for the project and its version comes to
// ---------------------------------------------------------------------------

/// The directories around a path are the path itself, then the parent of each
/// one, up to one that has no parent.
pub proof fn ancestors_go_up_to_the_top(path: Seq<char>)
    ensures
        ({
            let up = ancestors_of(path);
            &&& up.len() > 0
            &&& up[0] == path
            &&& forall|i: int|
                0 <= i < up.len() - 1 ==> path_parent(#[trigger] up[i]) == Some(up[i + 1])
            &&& path_parent(up[up.len() - 1]) matches Some(p) ==> p.len() >= up[up.len()
                - 1].len()
        }),
    decreases path.len(),
{
    let up = ancestors_of(path);
    match path_parent(path) {
        Some(p) if p.len() < path.len() => {
            ancestors_go_up_to_the_top(p);
            let above = ancestors_of(p);
            assert forall|i: int| 0 <= i < up.len() - 1 implies path_parent(#[trigger] up[i])
                == Some(up[i + 1]) by {
                assert(up[i + 1] == above[i]);
                if i > 0 {
                    assert(up[i] == above[i - 1]);
                }
            }
            assert(up[up.len() - 1] == above[above.len() - 1]);
        },
        _ => {},
    }
}

/// Every directory around the executable and around the current directory is
/// looked at, and no other one.
pub proof fn every_ancestor_is_a_candidate(
    exe: Option<Seq<char>>,
    cwd: Option<Seq<char>>,
    d: Seq<char>,
)
    ensures
        candidates(exe, cwd).contains(d) <==> {
            ||| exe matches Some(p) && ancestors_of(p).contains(d)
            ||| cwd matches Some(p) && ancestors_of(p).contains(d)
        },
{
    let all = candidates(exe, cwd);
    let first = match exe {
        Some(p) => ancestors_of(p),
        None => seq![],
    };
    let second = match cwd {
        Some(p) => ancestors_of(p),
        None => seq![],
    };
    if first.contains(d) {
        let i = choose|i: int| 0 <= i < first.len() && first[i] == d;
        assert(all[i] == d);
    }
    if second.contains(d) {
        let i = choose|i: int| 0 <= i < second.len() && second[i] == d;
        assert(all[first.len() + i] == d);
    }
    if all.contains(d) {
        let i = choose|i: int| 0 <= i < all.len() && all[i] == d;
        if i < first.len() {
            assert(first[i] == d);
        } else {
            assert(second[i - first.len()] == d);
        }
    }
}

/// The directories around the executable are looked at from the inside out, and
/// then those around the current directory.
pub proof fn candidates_are_in_order(exe: Seq<char>, cwd: Seq<char>)
    ensures
        candidates(Some(exe), Some(cwd)) == ancestors_of(exe) + ancestors_of(cwd),
        candidates(Some(exe), None) == ancestors_of(exe),
        candidates(None, Some(cwd)) == ancestors_of(cwd),
        candidates(None, None).len() == 0,
{
    assert(candidates(Some(exe), None) =~= ancestors_of(exe));
    assert(candidates(None, Some(cwd)) =~= ancestors_of(cwd));
}

/// The search for a project comes to nothing only where no directory around the
/// executable, and none around the current directory, holds the version file.
/// Here `holds` says of each directory whether it does.
pub proof fn project_is_missing_only_where_there_is_none(
    exe: Option<Seq<char>>,
    cwd: Option<Seq<char>>,
    holds: spec_fn(Seq<char>) -> bool,
    probed: Seq<bool>,
    d: Seq<char>,
)
    requires
        probed.len() == candidates(exe, cwd).len(),
        forall|i: int|
            0 <= i < probed.len() ==> #[trigger] probed[i] == holds(candidates(exe, cwd)[i]),
        forall|i: int| 0 <= i < probed.len() ==> !probed[i],
        (exe matches Some(p) && ancestors_of(p).contains(d)) || (cwd matches Some(p)
            && ancestors_of(p).contains(d)),
    ensures
        !holds(d),
{
    every_ancestor_is_a_candidate(exe, cwd, d);
    let i = choose|i: int|
        0 <= i < candidates(exe, cwd).len() && candidates(exe, cwd)[i] == d;
    assert(!probed[i]);
}

/// The project is the first directory that was found to hold the version file.
pub proof fn first_flag_is_set_and_none_before_it(flags: Seq<bool>, i: int, j: int)
    requires
        is_first(flags, i),
        0 <= j < flags.len(),
        flags[j],
    ensures
        0 <= i <= j,
        flags[i],
{
}

/// The version is all of what the first line with the tag names, whatever its
/// length, and whatever follows. Here `a` and `b` are the white space around it.
pub proof fn whole_version_is_read(
    a: Seq<char>,
    v: Seq<char>,
    b: Seq<char>,
    rest: Seq<char>,
)
    requires
        text::all_white(a),
        text::all_white(b),
        text::bare(v),
        !(a + v + b).contains('\n'),
    ensures
        version_in(Some("m_EditorVersion:"@ + a + v + b + seq!['\n'] + rest)) == Ok::<
            Seq<char>,
            (Seq<char>, Option<Seq<char>>),
        >(v),
        version_in(Some("m_EditorVersion:"@ + a + v + b)) == Ok::<
            Seq<char>,
            (Seq<char>, Option<Seq<char>>),
        >(v),
{
    let tag = "m_EditorVersion:"@;
    reveal_strlit("m_EditorVersion:");
    let line = tag + a + v + b;
    let body = a + v + b;
    assert forall|i: int| 0 <= i < line.len() implies line[i] != '\n' by {
        if i >= tag.len() {
            assert(line[i] == body[i - tag.len()]);
            assert(body.contains(body[i - tag.len()]));
        }
    }
    text::tagged_line_has_its_value(tag, a, v, b, seq![]);
    text::text_without_line_feed_is_one_line(line);
    if line[line.len() - 1] == '\r' {
        let short = line.drop_last();
        assert(body[body.len() - 1] == '\r');
        assert(b.len() > 0 || v.len() == 0) by {
            if b.len() == 0 && v.len() > 0 {
                assert(v[v.len() - 1] == '\r');
            }
        }
        lemma_line_with_cr(line, rest);
        if b.len() > 0 {
            let c = b.drop_last();
            assert(short =~= tag + a + v + c);
            text::tagged_line_has_its_value(tag, a, v, c, seq![]);
        } else {
            let c = a.drop_last();
            assert(short =~= tag + c + v + b);
            text::tagged_line_has_its_value(tag, c, v, b, seq![]);
        }
        text::tags_are_read_line_by_line(seq![short], text::lines_of(rest), tag);
    } else {
        text::first_line_comes_first(line, rest);
        text::tags_are_read_line_by_line(seq![line], text::lines_of(rest), tag);
    }
}

proof fn lemma_line_with_cr(line: Seq<char>, rest: Seq<char>)
    requires
        line.len() > 0,
        line[line.len() - 1] == '\r',
        !line.contains('\n'),
    ensures
        text::lines_of(line + seq!['\n'] + rest) == seq![line.drop_last()] + text::lines_of(rest),
{
    text::first_line_ends_at_its_line_feed(line, rest);
}

/// A line without the tag does not matter for the version.
pub proof fn other_lines_do_not_matter(line: Seq<char>, rest: Seq<char>)
    requires
        !line.contains('\n'),
        line.len() > 0 ==> line[line.len() - 1] != '\r',
        !"m_EditorVersion:"@.is_prefix_of(line),
    ensures
        version_in(Some(line + seq!['\n'] + rest)) == version_in(Some(rest)),
        version_in(Some(line)) == Err::<Seq<char>, (Seq<char>, Option<Seq<char>>)>(
            ("Could not parse Unity version"@, Some("m_EditorVersion: line missing"@)),
        ),
        version_in(None) == Err::<Seq<char>, (Seq<char>, Option<Seq<char>>)>(
            ("Could not read Unity version"@, Some("ProjectSettings/ProjectVersion.txt"@)),
        ),
{
    let tag = "m_EditorVersion:"@;
    text::first_line_comes_first(line, rest);
    text::text_without_line_feed_is_one_line(line);
    text::tags_are_read_line_by_line(seq![line], text::lines_of(rest), tag);
    text::tagged_line_has_its_value(tag, seq![], seq![], seq![], line);
    assert(Seq::<Seq<char>>::empty() + text::tagged(text::lines_of(rest), tag) =~= text::tagged(
        text::lines_of(rest),
        tag,
    ));
}

/// The editor is run from where Unity Hub has installed the version, all of it.
pub proof fn editor_is_that_of_the_version(ver: Seq<char>)
    ensures
        editor(ver) == "/Applications/Unity/Hub/Editor/"@ + ver
            + "/Unity.app/Contents/MacOS/Unity"@,
{
}

/// A relative part stands below its directory: the result is the directory, one
/// slash, and the part; joining in two steps comes to the same.
pub proof fn parts_stand_below_their_directory(base: Seq<char>, part: Seq<char>, more: Seq<char>)
    requires
        base.len() > 0 && base[base.len() - 1] != '/',
        part.len() > 0 && part[0] != '/' && part[part.len() - 1] != '/',
        more.len() > 0 && more[0] != '/',
    ensures
        joined(base, part) == base + seq!['/'] + part,
        joined(base + seq!['/'], part) == base + seq!['/'] + part,
        joined(seq![], part) == part,
        joined(base, seq!['/'] + part) == seq!['/'] + part,
        joined(joined(base, part), more) == joined(base, joined(part, more)),
{
    assert(joined(base, part) =~= base + seq!['/'] + part);
    assert(joined(seq![], part) =~= part);
    assert(joined(joined(base, part), more) =~= joined(base, joined(part, more)));
}

/// The auth hook stands in `XDG_CONFIG_HOME` where that is set, and else in
/// `.config` below the home directory.
pub proof fn hook_stands_in_the_config_directory(config: Seq<char>, home: Option<Seq<char>>)
    requires
        config.len() > 0 && config[config.len() - 1] != '/',
    ensures
        auth_script(Some(config), home) == config + "/unity-launcher/auth.sh"@,
        auth_script(None, Some(config)) == config + "/.config/unity-launcher/auth.sh"@,
        auth_script(None, None) == ".config/unity-launcher/auth.sh"@,
{
    reveal_strlit("/unity-launcher/auth.sh");
    reveal_strlit("unity-launcher/auth.sh");
    reveal_strlit("/.config/unity-launcher/auth.sh");
    reveal_strlit(".config/unity-launcher/auth.sh");
    reveal_strlit(".config");
    assert(auth_script(Some(config), home) =~= config + "/unity-launcher/auth.sh"@);
    assert(auth_script(None, Some(config)) =~= config + "/.config/unity-launcher/auth.sh"@);
    assert(auth_script(None, None) =~= ".config/unity-launcher/auth.sh"@);
}

/// A process id is read back from a pid file whatever white space stands around
/// it, and every id that is read stands in the file as a numeral.
pub proof fn record_is_a_numeral(a: Seq<char>, pid: i32, b: Seq<char>, contents: Seq<char>)
    requires
        text::all_white(a),
        text::all_white(b),
    ensures
        recorded(Some(a + text::integer(pid as int) + b)) == Some(pid),
        recorded(None) is None,
        recorded(Some(contents)) matches Some(p) ==> text::parsed(text::trimmed(contents))
            == Some(p as int),
{
    text::integer_is_read_back(pid);
    text::integer_is_bare(pid);
    text::trimming_takes_the_white_space_only(a, text::integer(pid as int), b);
}

/// The files that the launcher keeps stand at their places below the project.
pub proof fn files_stand_below_the_project(project: Seq<char>, stamp: Seq<char>)
    requires
        project.len() > 0 && project[project.len() - 1] != '/',
    ensures
        joined(project, PID_FILE@) == project + "/Temp/.unity-launcher.pid"@,
        joined(project, VERSION_FILE@) == project + "/ProjectSettings/ProjectVersion.txt"@,
        log_dir(project) == project + "/Logs"@,
        joined(log_dir(project), launch_log_name(stamp)) == project + "/Logs/unity-"@ + stamp
            + ".log"@,
        joined(log_dir(project), auth_log_name(stamp)) == project + "/Logs/unity-auth-"@ + stamp
            + ".log"@,
        project_needle(project) == "Unity -projectPath "@ + project,
        no_project().0 == "Not inside a Unity project"@,
        no_project().1 == Some(
            "ProjectSettings/ProjectVersion.txt not found in any ancestor of the executable or cwd"@,
        ),
{
    reveal_strlit("/Temp/.unity-launcher.pid");
    reveal_strlit("Temp/.unity-launcher.pid");
    reveal_strlit("/ProjectSettings/ProjectVersion.txt");
    reveal_strlit("ProjectSettings/ProjectVersion.txt");
    reveal_strlit("Logs");
    reveal_strlit("/Logs");
    reveal_strlit("/Logs/unity-");
    reveal_strlit("/Logs/unity-auth-");
    reveal_strlit("unity-");
    reveal_strlit("unity-auth-");
    assert(joined(project, PID_FILE@) =~= project + "/Temp/.unity-launcher.pid"@);
    assert(joined(project, VERSION_FILE@) =~= project + "/ProjectSettings/ProjectVersion.txt"@);
    assert(log_dir(project) =~= project + "/Logs"@);
    assert(joined(log_dir(project), launch_log_name(stamp)) =~= project + "/Logs/unity-"@ + stamp
        + ".log"@);
    assert(joined(log_dir(project), auth_log_name(stamp)) =~= project + "/Logs/unity-auth-"@
        + stamp + ".log"@);
}

} // verus!
