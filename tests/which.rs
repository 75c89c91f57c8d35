use cargo_l1x::which::{join, try_which_from_path, which, which_candidates};

#[test]
fn joining_paths() {
    assert_eq!(join("/usr/bin", "llc"), "/usr/bin/llc");
    assert_eq!(join("/usr/bin/", "llc"), "/usr/bin/llc");
    assert_eq!(join("", "llc"), "llc");
    assert_eq!(join("/usr/bin", "/opt/llc"), "/opt/llc");
}

#[test]
fn absolute_program_is_taken_as_it_is() {
    assert_eq!(try_which_from_path(&"/usr/bin/llc".to_string(), true), Some("/usr/bin/llc".to_string()));
    assert_eq!(try_which_from_path(&"/usr/bin/llc".to_string(), false), None);
    assert_eq!(try_which_from_path(&"llc".to_string(), true), None);
}

#[test]
fn candidates_in_search_order() {
    let dirs = vec!["/a".to_string(), "/b/".to_string()];
    assert_eq!(which_candidates(&"llc".to_string(), &dirs), vec!["/a/llc", "/b/llc"]);
    assert_eq!(which_candidates(&"/x/llc".to_string(), &dirs), vec!["/x/llc", "/x/llc", "/x/llc"]);
}

#[test]
fn first_executable_candidate() {
    let dirs = vec!["/a".to_string(), "/b".to_string(), "/c".to_string()];
    assert_eq!(which("llc".to_string(), &dirs, &vec![false, true, true]), Some("/b/llc".to_string()));
    assert_eq!(which("llc".to_string(), &dirs, &vec![false, false, false]), None);
    assert_eq!(which("llc".to_string(), &Vec::new(), &Vec::new()), None);
}
