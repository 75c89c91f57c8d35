use cargo_l1x::locate::{
    judge_version, override_path, reports_supported_version, resolve_tool, versioned_names,
    Resolution, ToolError, ToolProbe,
};

fn probe(override_exists: bool, versioned: [bool; 3], bare: bool) -> ToolProbe {
    ToolProbe { override_exists, versioned_found: versioned.to_vec(), bare_found: bare }
}

fn found(r: Resolution) -> Option<String> {
    match r {
        Resolution::Found(p) => Some(p),
        _ => None,
    }
}

#[test]
fn versioned_names_in_order() {
    assert_eq!(versioned_names(&"llc".to_string()), vec!["llc-17", "llc-18", "llc-19"]);
}

#[test]
fn override_directory_wins() {
    let dir = Some("/opt/llvm/bin".to_string());
    let r = resolve_tool(&"llc".to_string(), &dir, &probe(true, [true, true, true], true));
    assert_eq!(found(r), Some("/opt/llvm/bin/llc".to_string()));
    assert_eq!(override_path(&"/x".to_string(), &"llvm-strip".to_string()), "/x/llvm-strip");
}

#[test]
fn missing_override_file_falls_through() {
    let dir = Some("/opt/llvm/bin".to_string());
    let r = resolve_tool(&"llc".to_string(), &dir, &probe(false, [false, true, false], true));
    assert_eq!(found(r), Some("llc-18".to_string()));
}

#[test]
fn versioned_name_beats_bare_name() {
    let r = resolve_tool(&"llc".to_string(), &None, &probe(false, [false, false, true], true));
    assert_eq!(found(r), Some("llc-19".to_string()));
    let r = resolve_tool(&"llvm-strip".to_string(), &None, &probe(true, [true, true, false], false));
    assert_eq!(found(r), Some("llvm-strip-17".to_string()));
}

#[test]
fn bare_name_needs_version_check() {
    let r = resolve_tool(&"llc".to_string(), &None, &probe(false, [false, false, false], true));
    assert!(matches!(r, Resolution::CheckVersion(ref n) if n == "llc"));
}

#[test]
fn nothing_found() {
    let r = resolve_tool(&"llc".to_string(), &None, &probe(false, [false, false, false], false));
    assert!(matches!(r, Resolution::Failed(ToolError::NotFound)));
}

#[test]
fn version_reports() {
    assert!(reports_supported_version(&b"LLVM (http://llvm.org/):\n  LLVM version 18.1.3\n".to_vec()));
    assert!(reports_supported_version(&b"version 17.0.6".to_vec()));
    assert!(reports_supported_version(&b"xx version 19.".to_vec()));
    assert!(!reports_supported_version(&b"LLVM version 16.0.0".to_vec()));
    assert!(!reports_supported_version(&b"LLVM version 20.1.0".to_vec()));
    assert!(!reports_supported_version(&b"version 18".to_vec()));
    assert!(!reports_supported_version(&Vec::new()));
}

#[test]
fn judging_the_bare_name() {
    assert_eq!(judge_version("llc".to_string(), Some(b"LLVM version 19.1.0".to_vec())), Ok("llc".to_string()));
    assert_eq!(judge_version("llc".to_string(), Some(b"LLVM version 15.0.0".to_vec())), Err(ToolError::UnsupportedVersion));
    assert_eq!(judge_version("llc".to_string(), None), Err(ToolError::UnsupportedVersion));
}
