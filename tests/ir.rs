use cargo_l1x::ir::{add_version_info, fix_version_content, render_decimal, version_record, versioned_ir};

const RECORD: &str = "@_OBJECT_VERSION = global i64 1, section \"_version\", align 1\n@_EXPECTED_RUNTIME_VERSION = global i64 3, section \"_version\", align 1\n";

const MACOS_IR: &str = "@memory = global [65536 x i8] zeroinitializer, section \",_memory\", align 1\n@init = global [4 x i8] c\"abcd\", section \",_init_memory\", align 1\ndefine void @main() {\n  ret void\n}\n";

#[test]
fn test_fix_version_file() {
    let content = fix_version_content(&MACOS_IR.as_bytes().to_vec());
    let content = String::from_utf8(content).unwrap();
    assert!(
        content.contains(" section \"_init_memory\""),
        "Can't find 'section \"_init_memory\"' in .versioned.ll"
    );
    assert!(
        content.contains(" section \"_memory\""),
        "Can't find 'section \"_memory\"' in .versioned.ll"
    );
}

#[test]
fn version_record_is_two_declaration_lines() {
    assert_eq!(String::from_utf8(version_record()).unwrap(), RECORD);
}

#[test]
fn injection_keeps_prefix_and_appends_one_record() {
    let raw = b"; ModuleID = 'm'\ndefine void @f() {\n  ret void\n}\n".to_vec();
    let mut content = raw.clone();
    add_version_info(&mut content);
    assert_eq!(&content[..raw.len()], &raw[..]);
    assert_eq!(&content[raw.len()..], RECORD.as_bytes());
    assert_eq!(String::from_utf8(content).unwrap().matches("@_OBJECT_VERSION").count(), 1);
}

#[test]
fn injection_into_empty_file() {
    let mut content = Vec::new();
    add_version_info(&mut content);
    assert_eq!(content, RECORD.as_bytes());
}

#[test]
fn patch_rewrites_both_table_entries_only() {
    let fixed = fix_version_content(&MACOS_IR.as_bytes().to_vec());
    let expected = MACOS_IR
        .replace("section \",_memory\"", "section \"_memory\"")
        .replace("section \",_init_memory\"", "section \"_init_memory\"");
    assert_eq!(String::from_utf8(fixed.clone()).unwrap(), expected);
    assert!(!String::from_utf8(fixed).unwrap().contains(",_"));
}

#[test]
fn patch_twice_equals_once() {
    let inputs: Vec<&str> = vec![
        MACOS_IR,
        "section \",_memory\"section \",_init_memory\"",
        "ssection \",_memory\"",
        "section \",section \",_memory\"",
        "",
        "section \",_data\"",
    ];
    for input in inputs {
        let once = fix_version_content(&input.as_bytes().to_vec());
        let twice = fix_version_content(&once);
        assert_eq!(once, twice);
    }
}

#[test]
fn patch_keeps_clean_text() {
    let clean = "section \"_memory\" section \",_data\" , _memory".as_bytes().to_vec();
    assert_eq!(fix_version_content(&clean), clean);
}

#[test]
fn versioned_ir_appends_then_patches() {
    let raw = "@m = global i8 0, section \",_memory\"\n".as_bytes().to_vec();
    let out = String::from_utf8(versioned_ir(&raw)).unwrap();
    assert_eq!(out, format!("@m = global i8 0, section \"_memory\"\n{}", RECORD));
}

#[test]
fn decimal_rendering() {
    assert_eq!(render_decimal(0), b"0".to_vec());
    assert_eq!(render_decimal(8192), b"8192".to_vec());
    assert_eq!(render_decimal(u64::MAX), u64::MAX.to_string().into_bytes());
}
