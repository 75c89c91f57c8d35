use cargo_l1x::cli::{check_args_not_contains, get_command, ArgError};

fn words(v: &[&str]) -> Vec<String> {
    v.iter().map(|s| s.to_string()).collect()
}

#[test]
fn command_after_l1x() {
    let mut args = words(&["/home/u/.cargo/bin/cargo-l1x", "l1x", "build", "--no-strip"]);
    assert_eq!(get_command(&mut args), "build");
    assert_eq!(args, words(&["build", "--no-strip"]));
}

#[test]
fn bare_l1x_asks_for_help() {
    let mut args = words(&["cargo-l1x", "l1x"]);
    assert_eq!(get_command(&mut args), "help");
    assert_eq!(args, words(&["l1x"]));
}

#[test]
fn no_l1x_asks_for_help() {
    let mut args = words(&["cargo-l1x", "build"]);
    assert_eq!(get_command(&mut args), "help");
    assert!(args.is_empty());
    let mut empty: Vec<String> = Vec::new();
    assert_eq!(get_command(&mut empty), "help");
}

#[test]
fn refused_flags() {
    let exclude = vec!["--target", "--message-format", "--version", "--manifest-path", "--profile"];
    assert!(check_args_not_contains(words(&["--release", "-p", "x"]), exclude.clone()).is_ok());
    match check_args_not_contains(words(&["--release", "--target-dir=x", "--profile"]), exclude) {
        Err(ArgError::Unchangeable(flag)) => assert_eq!(flag, "--target"),
        Ok(()) => panic!("accepted a refused flag"),
    }
    let e = ArgError::Unchangeable("--profile".to_string());
    assert_eq!(e.message(), "This argument cannot be changed: --profile");
}
