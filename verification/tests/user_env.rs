use unity_launcher::user_env::{
    ensure_user_env, needs_passwd, Assignment, Passwd, UserEnv, UserVar,
};

fn set(var: UserVar, value: &[u8]) -> Assignment {
    Assignment { var, value: value.to_vec() }
}

fn entry() -> Option<Passwd> {
    Some(Passwd { dir: Some(b"/Users/u".to_vec()), name: Some(b"u".to_vec()) })
}

#[test]
fn sparse_environment_is_filled_in() {
    let env = UserEnv { home: false, user: false, logname: false };
    assert!(needs_passwd(env));
    assert_eq!(
        ensure_user_env(env, entry()),
        [set(UserVar::Home, b"/Users/u"), set(UserVar::User, b"u"), set(UserVar::Logname, b"u")]
    );
}

#[test]
fn what_is_set_is_kept() {
    let env = UserEnv { home: true, user: false, logname: true };
    assert!(needs_passwd(env));
    assert_eq!(ensure_user_env(env, entry()), [set(UserVar::User, b"u")]);
    let full = UserEnv { home: true, user: true, logname: true };
    assert!(!needs_passwd(full));
    assert!(ensure_user_env(full, entry()).is_empty());
}

#[test]
fn missing_entry_fills_in_nothing() {
    let env = UserEnv { home: false, user: false, logname: false };
    assert!(ensure_user_env(env, None).is_empty());
    let partial = Some(Passwd { dir: None, name: Some(b"u".to_vec()) });
    assert_eq!(
        ensure_user_env(env, partial),
        [set(UserVar::User, b"u"), set(UserVar::Logname, b"u")]
    );
}
