use cargo_l1x::pipeline::{
    artifact_paths, module_artifacts, module_stages, object_compiler_args, plan_build,
    strip_args, wasm_module_of, wasm_module_stem, with_json_messages, BuildError, Stage,
};

fn words(v: &[&str]) -> Vec<String> {
    v.iter().map(|s| s.to_string()).collect()
}

const ARTIFACT_LINE: &str = r#"{"reason":"compiler-artifact","package_id":"l1x_contract 0.1.0 (path+file:///w)","manifest_path":"/w/Cargo.toml","target":{"kind":["cdylib"],"crate_types":["cdylib"],"name":"l1x_contract","src_path":"/w/src/lib.rs","edition":"2021","doctest":false,"test":true,"doc":true},"profile":{"opt_level":"3","debuginfo":0,"debug_assertions":false,"overflow_checks":false,"test":false},"features":[],"filenames":["/w/target/wasm32-unknown-unknown/release/l1x_contract.wasm"],"executable":null,"fresh":false}"#;

const RLIB_LINE: &str = r#"{"reason":"compiler-artifact","package_id":"dep 0.1.0 (path+file:///d)","manifest_path":"/d/Cargo.toml","target":{"kind":["lib"],"crate_types":["lib"],"name":"dep","src_path":"/d/src/lib.rs","edition":"2021","doctest":true,"test":true,"doc":true},"profile":{"opt_level":"3","debuginfo":0,"debug_assertions":false,"overflow_checks":false,"test":false},"features":[],"filenames":["/w/target/release/deps/libdep.rlib"],"executable":null,"fresh":true}"#;

#[test]
fn plan_without_opt_out() {
    let plan = plan_build(words(&["-p", "x"]));
    assert!(!plan.no_strip);
    assert_eq!(plan.rustflags, Some("-C link-arg=-s".to_string()));
    assert_eq!(plan.cargo_args, words(&["build", "--target", "wasm32-unknown-unknown", "-p", "x", "--release"]));
    assert_eq!(module_stages(plan.no_strip), vec![Stage::Copy, Stage::Version, Stage::Patch, Stage::Compile, Stage::Strip]);
}

#[test]
fn plan_with_opt_out() {
    let plan = plan_build(words(&["--no-strip", "--release", "--no-strip"]));
    assert!(plan.no_strip);
    assert_eq!(plan.rustflags, None);
    assert_eq!(plan.cargo_args, words(&["build", "--target", "wasm32-unknown-unknown", "--release"]));
    assert_eq!(module_stages(plan.no_strip), vec![Stage::Copy, Stage::Version, Stage::Patch, Stage::Compile]);
}

#[test]
fn json_messages_are_asked_for() {
    let args = with_json_messages(&words(&["build"]));
    assert_eq!(args, words(&["build", "--message-format", "json"]));
}

#[test]
fn backend_arguments_are_fixed() {
    let args = object_compiler_args(&"a.versioned.ll".to_string(), &"a.o".to_string());
    assert_eq!(args, words(&["-march=bpf", "-mcpu=v3", "-filetype=obj", "--nozero-initialized-in-bss", "--bpf-stack-size", "8192", "a.versioned.ll", "-o", "a.o"]));
    assert_eq!(strip_args(&"a.o".to_string()), words(&["-x", "a.o"]));
}

#[test]
fn module_names() {
    assert_eq!(wasm_module_stem("/t/release/l1x_contract.wasm"), Some("l1x_contract".to_string()));
    assert_eq!(wasm_module_stem("a.b.wasm"), Some("a.b".to_string()));
    assert_eq!(wasm_module_stem("/t/.wasm"), None);
    assert_eq!(wasm_module_stem("/t/libdep.rlib"), None);
    assert_eq!(wasm_module_of(Some(words(&["/t/x.wasm", "/t/x.d"]))), Some("/t/x.wasm".to_string()));
    assert_eq!(wasm_module_of(Some(words(&["/t/x.d", "/t/x.wasm"]))), None);
    assert_eq!(wasm_module_of(Some(Vec::new())), None);
    assert_eq!(wasm_module_of(None), None);
}

#[test]
fn modules_from_build_events() {
    let lines = words(&[RLIB_LINE, "", ARTIFACT_LINE, "not json", r#"{"reason":"build-finished","success":true}"#]);
    assert_eq!(module_artifacts(&lines), words(&["/w/target/wasm32-unknown-unknown/release/l1x_contract.wasm"]));
}

#[test]
fn artifact_layout() {
    let a = artifact_paths(&"/w/target/l1x/release".to_string(), &"/w/target/wasm32-unknown-unknown/release/l1x_contract.wasm".to_string()).unwrap();
    assert_eq!(a.raw_ir, "/w/target/l1x/release/l1x_contract.ll");
    assert_eq!(a.versioned_ir, "/w/target/l1x/release/l1x_contract.versioned.ll");
    assert_eq!(a.object, "/w/target/l1x/release/l1x_contract.o");
    assert_eq!(a.object_name, "l1x_contract.o");
    assert!(artifact_paths(&"/b".to_string(), &"/t/libdep.rlib".to_string()).is_none());
}

#[test]
fn build_error_messages() {
    assert_eq!(BuildError::WasmBuildError.message(), "Failed to build wasm");
    assert_eq!(BuildError::IoError("Failed to copy source file".to_string(), "denied".to_string()).message(), "filesystem error: Failed to copy source file: denied");
}
