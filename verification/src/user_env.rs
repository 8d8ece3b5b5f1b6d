//! Filling in what a sparse environment lacks: an application started from the
//! Finder gets no `HOME`, and the editor does not run without one.

use vstd::prelude::*;

verus! {

/// A variable that is filled in.
#[derive(Clone, Copy, Debug, PartialEq, Eq, Structural)]
pub enum UserVar {
    Home,
    User,
    Logname,
}

/// Which of the variables are set.
#[derive(Clone, Copy, Debug)]
pub struct UserEnv {
    pub home: bool,
    pub user: bool,
    pub logname: bool,
}

impl UserEnv {
    /// Whether the variable is set.
    pub open spec fn has(self, var: UserVar) -> bool {
        match var {
            UserVar::Home => self.home,
            UserVar::User => self.user,
            UserVar::Logname => self.logname,
        }
    }
}

/// The user's entry in the passwd database, as far as it is filled in.
pub struct Passwd {
    pub dir: Option<Vec<u8>>,
    pub name: Option<Vec<u8>>,
}

impl Passwd {
    /// The value that the entry has for a variable.
    pub open spec fn value(self, var: UserVar) -> Option<Seq<u8>> {
        match var {
            UserVar::Home => match self.dir {
                Some(d) => Some(d@),
                None => None,
            },
            UserVar::User | UserVar::Logname => match self.name {
                Some(n) => Some(n@),
                None => None,
            },
        }
    }
}

/// A variable to set, and the value to set it to.
#[derive(Clone, Debug, PartialEq, Eq)]
pub struct Assignment {
    pub var: UserVar,
    pub value: Vec<u8>,
}

/// Variables to set, with their values.
pub open spec fn assignments(v: Seq<Assignment>) -> Seq<(UserVar, Seq<u8>)> {
    v.map_values(|a: Assignment| (a.var, a.value@))
}

/// The assignment of one variable, where it is missing and has a value.
pub open spec fn filled_in(env: UserEnv, passwd: Passwd, var: UserVar) -> Seq<(UserVar, Seq<u8>)> {
    match passwd.value(var) {
        Some(v) if !env.has(var) => seq![(var, v)],
        _ => seq![],
    }
}

/// The assignments of all variables; `passwd` is `None` where there is no entry.
pub open spec fn all_filled_in(env: UserEnv, passwd: Option<Passwd>) -> Seq<(UserVar, Seq<u8>)> {
    match passwd {
        Some(p) => filled_in(env, p, UserVar::Home) + filled_in(env, p, UserVar::User) + filled_in(
            env,
            p,
            UserVar::Logname,
        ),
        None => seq![],
    }
}

/// Whether some variable is not set.
pub open spec fn lacks_some(env: UserEnv) -> bool {
    !(env.home && env.user && env.logname)
}

/// The passwd database is asked just where some variable is not set; where it is
/// not asked, or has no entry, nothing is assigned.
pub proof fn full_environment_needs_nothing(env: UserEnv, passwd: Option<Passwd>, var: UserVar)
    ensures
        !env.has(var) ==> lacks_some(env),
        lacks_some(env) ==> exists|v: UserVar| !#[trigger] env.has(v),
        !lacks_some(env) ==> all_filled_in(env, passwd).len() == 0,
        all_filled_in(env, None).len() == 0,
{
    if lacks_some(env) {
        assert(!env.has(UserVar::Home) || !env.has(UserVar::User) || !env.has(UserVar::Logname));
    }
}

/// Whether the passwd database has to be asked at all.
pub fn needs_passwd(env: UserEnv) -> (r: bool)
    ensures
        r == lacks_some(env),
{
    !(env.home && env.user && env.logname)
}

fn fill_in(out: &mut Vec<Assignment>, set: bool, value: &Option<Vec<u8>>, var: UserVar)
    ensures
        assignments(final(out)@) == assignments(old(out)@) + (if set {
            seq![]
        } else {
            match *value {
                Some(v) => seq![(var, v@)],
                None => seq![],
            }
        }),
{
    let ghost before = out@;
    if !set {
        if let Some(v) = value {
            let copy = v.clone();
            assert(copy@ =~= v@);
            out.push(Assignment { var, value: copy });
            assert(assignments(out@) =~= assignments(before) + seq![(var, v@)]);
            return;
        }
    }
    assert(assignments(out@) =~= assignments(before) + seq![]);
}

/// The variables to set, from the user's entry in the passwd database; `passwd`
/// is `None` where there is no entry, or where it was not asked for.
pub fn ensure_user_env(env: UserEnv, passwd: Option<Passwd>) -> (r: Vec<Assignment>)
    ensures
        assignments(r@) == all_filled_in(env, passwd),
{
    let mut out: Vec<Assignment> = Vec::new();
    assert(assignments(out@) =~= seq![]);
    if let Some(p) = passwd {
        fill_in(&mut out, env.home, &p.dir, UserVar::Home);
        fill_in(&mut out, env.user, &p.name, UserVar::User);
        fill_in(&mut out, env.logname, &p.name, UserVar::Logname);
    }
    out
}

/// A variable is assigned just where it is missing and the database has a value
/// for it; it is assigned that value. So a variable that is set stays as it is,
/// and every one that can be filled in is set in the end.
pub proof fn only_missing_variables_are_filled_in(env: UserEnv, p: Passwd, var: UserVar, v: Seq<u8>)
    ensures
        all_filled_in(env, Some(p)).contains((var, v)) <==> !env.has(var) && p.value(var) == Some(
            v,
        ),
{
    let h = filled_in(env, p, UserVar::Home);
    let u = filled_in(env, p, UserVar::User);
    let l = filled_in(env, p, UserVar::Logname);
    let all = h + u + l;
    if !env.has(var) && p.value(var) == Some(v) {
        let at = match var {
            UserVar::Home => 0,
            UserVar::User => h.len() as int,
            UserVar::Logname => (h + u).len() as int,
        };
        assert(all[at] == (var, v));
    }
    if all.contains((var, v)) {
        let k = choose|k: int| 0 <= k < all.len() && all[k] == (var, v);
        assert(all[k] == (var, v));
    }
}

/// `HOME` is filled in with the user's directory, and `USER` and `LOGNAME` with
/// the user's name; each one where it is not set.
pub proof fn variables_have_their_values(env: UserEnv, p: Passwd)
    ensures
        filled_in(env, p, UserVar::Home) == (if !env.home && p.dir is Some {
            seq![(UserVar::Home, p.dir->0@)]
        } else {
            seq![]
        }),
        filled_in(env, p, UserVar::User) == (if !env.user && p.name is Some {
            seq![(UserVar::User, p.name->0@)]
        } else {
            seq![]
        }),
        filled_in(env, p, UserVar::Logname) == (if !env.logname && p.name is Some {
            seq![(UserVar::Logname, p.name->0@)]
        } else {
            seq![]
        }),
{
}

} // verus!
