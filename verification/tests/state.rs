use mishell::exec::{to_u8, ExitCode};
use mishell::executables_cache::{entry_path, is_executable_mode, path_dirs, ExecutablesCache};
use mishell::id::Id;
use mishell::variable_manager::VariableManager;

#[test]
fn exit_codes() {
    assert_eq!(ExitCode::new(3).value(), 3);
    assert!(!ExitCode::new(3).should_exit());
    assert_eq!(ExitCode::success().value(), 0);
    assert_eq!(ExitCode::stopped().value(), 128 + nix::libc::SIGTSTP as u8);
}

#[test]
fn exit_code_from_status() {
    assert_eq!(ExitCode::from_status(Some(256 + 3), None).value(), 3);
    assert_eq!(ExitCode::from_status(Some(-1), Some(9)).value(), 255);
    assert_eq!(ExitCode::from_status(None, Some(9)).value(), 137);
    assert_eq!(ExitCode::from_status(None, None).value(), 127);
    assert_eq!(to_u8(0x1234), 0x34);
}

#[derive(Clone, Copy)]
struct Job;

#[test]
fn ids_hold_their_value() {
    let id: Id<Job> = Id::new(42);
    assert_eq!(id.get(), 42);
    let copy = id;
    assert_eq!(copy.get(), id.get());
}

#[test]
fn variables_read_back_in_any_case() {
    let mut vars = VariableManager::from_vars(vec![("HOME".to_string(), "/root".to_string())]);
    assert_eq!(vars.get_var("home").map(|s| s.as_str()), Some("/root"));
    assert_eq!(vars.get_var("HOME").map(|s| s.as_str()), Some("/root"));
    vars.set_var("Path", "/bin");
    assert_eq!(vars.get_var("PATH").map(|s| s.as_str()), Some("/bin"));
    vars.set_var("path", "/usr/bin");
    assert_eq!(vars.get_var("Path").map(|s| s.as_str()), Some("/usr/bin"));
    assert_eq!(vars.get_var("nothing"), None);
}

#[test]
fn remove_undoes_set_in_any_case() {
    let mut vars = VariableManager::from_vars(vec![("USER".to_string(), "me".to_string())]);
    vars.set_var("HOME", "/root");
    vars.remove_var("HOME");
    assert_eq!(vars.get_var("HOME"), None);
    assert_eq!(vars.get_var("home"), None);
    assert_eq!(vars.get_var("user").map(|s| s.as_str()), Some("me"));
    vars.set_var("x", "1");
    vars.remove_var("X");
    assert_eq!(vars.get_var("x"), None);
}

#[test]
fn dollar_words_are_replaced() {
    let mut vars = VariableManager::from_vars(vec![("HOME".to_string(), "/root".to_string())]);
    let mut args = vec!["echo".to_string(), "$HOME".to_string(), "$missing".to_string(), "a$b".to_string()];
    vars.replace_vars_in_args(&mut args);
    assert_eq!(args, vec!["echo", "/root", "", "a$b"]);
}

#[test]
fn path_is_split_on_colons() {
    assert_eq!(path_dirs("/bin:/usr/bin"), vec!["/bin", "/usr/bin"]);
    assert_eq!(path_dirs("a::b:"), vec!["a", "", "b", ""]);
    assert_eq!(path_dirs(""), vec![""]);
}

#[test]
fn executable_files() {
    assert!(is_executable_mode(true, 0o755));
    assert!(is_executable_mode(true, 0o100));
    assert!(!is_executable_mode(true, 0o644));
    assert!(!is_executable_mode(false, 0o755));
    assert_eq!(entry_path("/bin", "ls"), "/bin/ls");
}

#[test]
fn cache_knows_builtins_once_filled() {
    let mut cache = ExecutablesCache::new();
    assert!(!cache.is_populated());
    assert!(!cache.knows("cd"));
    cache.populate_cache(vec!["ls".to_string()]);
    assert!(cache.is_populated());
    assert!(cache.knows("cd"));
    assert!(cache.knows("exit"));
    assert!(cache.knows("exec"));
    assert!(cache.knows("ls"));
    assert!(!cache.knows("grep"));
    cache.populate_cache(vec!["grep".to_string()]);
    assert!(!cache.knows("grep"));
}

#[test]
fn lookup_fills_the_cache_when_needed() {
    let mut cache = ExecutablesCache::new();
    assert!(!cache.knows("exit"));
    assert!(cache.lookup(vec!["ls".to_string()], "ls"));
    assert!(cache.is_populated());
    assert!(cache.lookup(vec![], "exit"));
    assert!(!cache.lookup(vec!["grep".to_string()], "grep"));
    assert_eq!(cache.names().len(), 4);

    let mut empty = ExecutablesCache::new();
    assert!(empty.lookup(vec![], "exit"));
    assert!(empty.is_populated());
    assert!(!empty.lookup(vec![], "grep"));
}
