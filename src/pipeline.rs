//! The build pipeline's decisions: the upstream compiler's arguments, the
//! modules it produced, the artifact paths of each module, the stages each
//! module goes through, and the fixed arguments of the backend tools.
use vstd::prelude::*;
use crate::text::{joined, same_text, views};

verus! {

/// Why a build failed, with the stage that failed.
pub enum BuildError {
    /// The target directory could not be used.
    TargetDirError,
    /// The upstream compiler could not be run.
    CargoBuildError(String),
    /// The upstream compiler reported failure.
    WasmBuildError,
    /// A module could not be translated to IR.
    LlBuildError(String),
    /// A file-system operation failed: what was being done, and the cause.
    IoError(String, String),
    /// No usable backend compiler.
    LlcRunError(String),
    /// The backend compiler failed; its diagnostic output.
    ObjectBuildError(String),
    /// No usable symbol stripper.
    LlvmStripRunError(String),
    /// The symbol stripper failed; its diagnostic output.
    LlvmStripError(String),
}

impl BuildError {
    /// A sentence that describes the error.
    pub fn message(&self) -> (r: String)
        ensures
            self matches BuildError::CargoBuildError(e) ==> r@ == "Failed to execute cargo: "@ + e@,
            self matches BuildError::LlBuildError(e) ==> r@ == "Could not build ll file: "@ + e@,
            self matches BuildError::IoError(what, e) ==> r@ == "filesystem error: "@ + what@
                + ": "@ + e@,
            self is WasmBuildError ==> r@ == "Failed to build wasm"@,
            self is ObjectBuildError ==> r@ == "Failed to build object file"@,
            self is LlvmStripError ==> r@ == "Failed to strip object file"@,
    {
        match self {
            BuildError::TargetDirError => "Invalid target directory".to_owned(),
            BuildError::CargoBuildError(e) => joined("Failed to execute cargo: ", e.as_str()),
            BuildError::WasmBuildError => "Failed to build wasm".to_owned(),
            BuildError::LlBuildError(e) => joined("Could not build ll file: ", e.as_str()),
            BuildError::IoError(what, e) => {
                let head = joined("filesystem error: ", what.as_str());
                let head = joined(head.as_str(), ": ");
                joined(head.as_str(), e.as_str())
            },
            BuildError::LlcRunError(_) => "Failed to run llc command. Please ensure that your version of llc is > 17, or you have llc-17, 18 or 19 installed".to_owned(),
            BuildError::ObjectBuildError(_) => "Failed to build object file".to_owned(),
            BuildError::LlvmStripRunError(_) => "Failed to run llvm strip on object file. Please ensure that you have llvm-strip installed".to_owned(),
            BuildError::LlvmStripError(_) => "Failed to strip object file".to_owned(),
        }
    }
}

/// `s` with every word equal to `x` taken out.
pub open spec fn without(s: Seq<Seq<char>>, x: Seq<char>) -> Seq<Seq<char>>
    decreases s.len(),
{
    if s.len() == 0 {
        s
    } else if s.last() == x {
        without(s.drop_last(), x)
    } else {
        without(s.drop_last(), x).push(s.last())
    }
}

/// The arguments of the upstream compiler for the caller's arguments: a
/// release build for the module target, with the caller's arguments but the
/// opt-out flag, and `--release` added where the caller did not give it.
pub open spec fn cargo_build_args(args: Seq<Seq<char>>) -> Seq<Seq<char>> {
    let rest = without(args, "--no-strip"@);
    seq!["build"@, "--target"@, "wasm32-unknown-unknown"@] + rest + (if rest.contains(
        "--release"@,
    ) {
        Seq::empty()
    } else {
        seq!["--release"@]
    })
}

/// How the upstream compiler is run, and whether modules are stripped.
pub struct BuildPlan {
    /// The arguments of `cargo`.
    pub cargo_args: Vec<String>,
    /// Symbol stripping is switched off.
    pub no_strip: bool,
    /// The `RUSTFLAGS` value to set, if any.
    pub rustflags: Option<String>,
}

/// One stage of a module's pipeline.
#[derive(PartialEq, Eq, Structural, Clone, Copy, Debug)]
pub enum Stage {
    /// Copy the raw IR to the versioned IR file.
    Copy,
    /// Append the version record.
    Version,
    /// Apply the section-name fixes.
    Patch,
    /// Compile the versioned IR to an object.
    Compile,
    /// Strip debug and symbol information from the object.
    Strip,
}

/// The stages of one module, in order.
pub open spec fn stages_for(no_strip: bool) -> Seq<Stage> {
    let common = seq![Stage::Copy, Stage::Version, Stage::Patch, Stage::Compile];
    if no_strip {
        common
    } else {
        common.push(Stage::Strip)
    }
}

fn contains_word(args: &Vec<String>, word: &str) -> (r: bool)
    ensures
        r == views(args@).contains(word@),
{
    let mut i: usize = 0;
    while i < args.len()
        invariant
            i <= args.len(),
            forall|j: int| 0 <= j < i ==> args@[j]@ != word@,
        decreases args.len() - i,
    {
        if same_text(args[i].as_str(), word) {
            assert(views(args@)[i as int] == word@);
            return true;
        }
        i = i + 1;
    }
    assert forall|j: int| 0 <= j < views(args@).len() implies views(args@)[j] != word@ by {
        assert(views(args@)[j] == args@[j]@);
    }
    false
}

/// Reads the caller's build arguments: the opt-out flag switches off
/// stripping, both of the modules and of the upstream link step.
pub fn plan_build(args: Vec<String>) -> (r: BuildPlan)
    ensures
        r.no_strip == views(args@).contains("--no-strip"@),
        views(r.cargo_args@) == cargo_build_args(views(args@)),
        r.no_strip ==> r.rustflags is None,
        !r.no_strip ==> (r.rustflags matches Some(f) && f@ == "-C link-arg=-s"@),
{
    let no_strip = contains_word(&args, "--no-strip");
    let ghost all = views(args@);
    let mut rest: Vec<String> = Vec::new();
    let mut i: usize = 0;
    while i < args.len()
        invariant
            i <= args.len(),
            all == views(args@),
            views(rest@) == without(all.subrange(0, i as int), "--no-strip"@),
        decreases args.len() - i,
    {
        let ghost before = rest@;
        assert(all.subrange(0, i + 1).drop_last() =~= all.subrange(0, i as int));
        assert(all.subrange(0, i + 1).last() == args@[i as int]@);
        if !same_text(args[i].as_str(), "--no-strip") {
            let w = args[i].clone();
            rest.push(w);
            assert(views(rest@) =~= views(before).push(w@));
        }
        i = i + 1;
    }
    assert(all.subrange(0, i as int) =~= all);
    let mut cargo_args: Vec<String> = Vec::new();
    cargo_args.push("build".to_owned());
    cargo_args.push("--target".to_owned());
    cargo_args.push("wasm32-unknown-unknown".to_owned());
    let ghost head = views(cargo_args@);
    let mut k: usize = 0;
    while k < rest.len()
        invariant
            k <= rest.len(),
            views(cargo_args@) == head + views(rest@).subrange(0, k as int),
        decreases rest.len() - k,
    {
        let ghost before = cargo_args@;
        let w = rest[k].clone();
        cargo_args.push(w);
        assert(views(cargo_args@) =~= views(before).push(w@));
        assert(views(rest@).subrange(0, k + 1) =~= views(rest@).subrange(0, k as int).push(w@));
        k = k + 1;
    }
    assert(views(rest@).subrange(0, k as int) =~= views(rest@));
    let ghost middle = cargo_args@;
    if !contains_word(&rest, "--release") {
        cargo_args.push("--release".to_owned());
        assert(views(cargo_args@) =~= views(middle).push("--release"@));
    }
    assert(head =~= seq!["build"@, "--target"@, "wasm32-unknown-unknown"@]);
    assert(views(cargo_args@) =~= cargo_build_args(views(args@)));
    let rustflags = if no_strip {
        None
    } else {
        Some("-C link-arg=-s".to_owned())
    };
    BuildPlan { cargo_args, no_strip, rustflags }
}

/// The upstream compiler's arguments with its build events asked for as
/// JSON lines.
pub fn with_json_messages(cargo_args: &Vec<String>) -> (r: Vec<String>)
    ensures
        views(r@) == views(cargo_args@) + seq!["--message-format"@, "json"@],
{
    let mut r: Vec<String> = Vec::new();
    let mut k: usize = 0;
    while k < cargo_args.len()
        invariant
            k <= cargo_args.len(),
            views(r@) == views(cargo_args@).subrange(0, k as int),
        decreases cargo_args.len() - k,
    {
        let ghost before = r@;
        let w = cargo_args[k].clone();
        r.push(w);
        assert(views(r@) =~= views(before).push(w@));
        assert(views(cargo_args@).subrange(0, k + 1) =~= views(cargo_args@).subrange(
            0,
            k as int,
        ).push(w@));
        k = k + 1;
    }
    let ghost before = r@;
    r.push("--message-format".to_owned());
    r.push("json".to_owned());
    assert(views(r@) =~= views(before) + seq!["--message-format"@, "json"@]);
    assert(views(cargo_args@).subrange(0, k as int) =~= views(cargo_args@));
    r
}

/// The stages that each module goes through; stripping is left out when it
/// is switched off.
pub fn module_stages(no_strip: bool) -> (r: Vec<Stage>)
    ensures
        r@ == stages_for(no_strip),
{
    let mut r: Vec<Stage> = vec![Stage::Copy, Stage::Version, Stage::Patch, Stage::Compile];
    if !no_strip {
        r.push(Stage::Strip);
    }
    assert(r@ =~= stages_for(no_strip));
    r
}

/// The backend compiler's arguments: the eBPF target at CPU level v3, an
/// object file, zero-initialised data kept out of the bss section, and a
/// stack frame of 8192 bytes.
pub open spec fn object_compiler_args_of(input: Seq<char>, output: Seq<char>) -> Seq<Seq<char>> {
    seq![
        "-march=bpf"@,
        "-mcpu=v3"@,
        "-filetype=obj"@,
        "--nozero-initialized-in-bss"@,
        "--bpf-stack-size"@,
        "8192"@,
        input,
        "-o"@,
        output,
    ]
}

/// The backend compiler's arguments for one versioned IR file.
pub fn object_compiler_args(input: &String, output: &String) -> (r: Vec<String>)
    ensures
        views(r@) == object_compiler_args_of(input@, output@),
{
    let mut r: Vec<String> = Vec::new();
    r.push("-march=bpf".to_owned());
    r.push("-mcpu=v3".to_owned());
    r.push("-filetype=obj".to_owned());
    r.push("--nozero-initialized-in-bss".to_owned());
    r.push("--bpf-stack-size".to_owned());
    r.push("8192".to_owned());
    r.push(input.clone());
    r.push("-o".to_owned());
    r.push(output.clone());
    assert(views(r@) =~= object_compiler_args_of(input@, output@));
    r
}

/// The symbol stripper's arguments: remove all local symbols and debug
/// information from the object, in place.
pub fn strip_args(object: &String) -> (r: Vec<String>)
    ensures
        views(r@) == seq!["-x"@, object@],
{
    let mut r: Vec<String> = Vec::new();
    r.push("-x".to_owned());
    r.push(object.clone());
    assert(views(r@) =~= seq!["-x"@, object@]);
    r
}

/// The file names of a compiler-artifact build event, as the JSON line of
/// the event gives them; `None` for any other line.
pub uninterp spec fn artifact_files_of(line: Seq<char>) -> Option<Seq<Seq<char>>>;

/// Relies on `serde_json::from_str::<cargo_metadata::Message>`: the line is
/// decoded as a build event, and a `CompilerArtifact` event hands out its
/// `filenames`, which depend on the line alone.
#[verifier::external_body]
fn compiler_artifact_files(line: &str) -> (r: Option<Vec<String>>)
    ensures
        (r is Some) == (artifact_files_of(line@) is Some),
        r matches Some(v) ==> views(v@) == artifact_files_of(line@)->0,
{
    match serde_json::from_str::<cargo_metadata::Message>(line) {
        Ok(cargo_metadata::Message::CompilerArtifact(a)) => Some(
            a.filenames.iter().map(|p| p.to_string()).collect(),
        ),
        _ => None,
    }
}

/// The last component of a path.
pub open spec fn file_name(p: Seq<char>) -> Seq<char>
    decreases p.len(),
{
    if p.len() == 0 {
        p
    } else if p.last() == '/' {
        Seq::empty()
    } else {
        file_name(p.drop_last()).push(p.last())
    }
}

/// The name of a module, where the path's file has the `.wasm` extension
/// and a name before it.
pub open spec fn module_stem(p: Seq<char>) -> Option<Seq<char>> {
    let f = file_name(p);
    if f.len() > 5 && f.skip(f.len() - 5) == ".wasm"@ {
        Some(f.subrange(0, f.len() - 5))
    } else {
        None
    }
}

/// The module that an artifact event reports: its first file, where that
/// is a `.wasm` module.
pub open spec fn wasm_module_in(files: Option<Seq<Seq<char>>>) -> Option<Seq<char>> {
    match files {
        Some(f) => if f.len() > 0 && module_stem(f[0]) is Some {
            Some(f[0])
        } else {
            None
        },
        None => None,
    }
}

/// The modules reported by a stream of build-event lines, in order.
pub open spec fn modules_in(lines: Seq<Seq<char>>) -> Seq<Seq<char>>
    decreases lines.len(),
{
    if lines.len() == 0 {
        Seq::empty()
    } else {
        let before = modules_in(lines.drop_last());
        match wasm_module_in(artifact_files_of(lines.last())) {
            Some(m) => before.push(m),
            None => before,
        }
    }
}

fn last_component(p: &str) -> (r: String)
    ensures
        r@ == file_name(p@),
{
    let n = p.unicode_len();
    let mut k: usize = n;
    assert(p@.subrange(0, n as int) =~= p@);
    assert(p@.subrange(n as int, n as int) =~= Seq::<char>::empty());
    assert(file_name(p@) =~= file_name(p@.subrange(0, n as int)) + p@.subrange(n as int, n as int));
    while k > 0
        invariant
            k <= n,
            n == p@.len(),
            file_name(p@) == file_name(p@.subrange(0, k as int)) + p@.subrange(k as int, n as int),
        decreases k,
    {
        let ghost q = p@.subrange(0, k as int);
        assert(q.drop_last() =~= p@.subrange(0, k - 1));
        if p.get_char(k - 1) == '/' {
            assert(p@.subrange(k - 1, n as int) =~= seq!['/'] + p@.subrange(k as int, n as int));
            assert(file_name(q) =~= Seq::<char>::empty());
            return p.substring_char(k, n).to_owned();
        }
        assert(p@.subrange(k - 1, n as int) =~= seq![p@[k - 1]] + p@.subrange(k as int, n as int));
        assert(file_name(q) == file_name(p@.subrange(0, k - 1)).push(p@[k - 1]));
        k = k - 1;
    }
    assert(p@.subrange(0, 0) =~= Seq::<char>::empty());
    assert(p@.subrange(0, n as int) =~= p@);
    p.to_owned()
}

/// The name of the module at `path`, where its file has the `.wasm`
/// extension.
pub fn wasm_module_stem(path: &str) -> (r: Option<String>)
    ensures
        r matches Some(s) ==> module_stem(path@) == Some(s@),
        r is None ==> module_stem(path@) is None,
{
    proof {
        reveal_strlit(".wasm");
    }
    let f = last_component(path);
    let n = f.unicode_len();
    if n > 5 && same_text(f.as_str().substring_char(n - 5, n), ".wasm") {
        assert(f@.subrange(n - 5, n as int) =~= f@.skip(n - 5));
        Some(f.as_str().substring_char(0, n - 5).to_owned())
    } else {
        assert(n > 5 ==> f@.subrange(n - 5, n as int) =~= f@.skip(n - 5));
        None
    }
}

/// The characters of each file name, where there are file names.
pub open spec fn file_views(files: Option<Vec<String>>) -> Option<Seq<Seq<char>>> {
    match files {
        Some(v) => Some(views(v@)),
        None => None,
    }
}

/// The module reported by one artifact event's file names.
pub fn wasm_module_of(files: Option<Vec<String>>) -> (r: Option<String>)
    ensures
        r matches Some(m) ==> wasm_module_in(file_views(files)) == Some(m@),
        r is None ==> wasm_module_in(file_views(files)) is None,
{
    match files {
        Some(v) => {
            if v.len() > 0 {
                assert(views(v@)[0] == v@[0]@);
                match wasm_module_stem(v[0].as_str()) {
                    Some(_) => Some(v[0].clone()),
                    None => None,
                }
            } else {
                None
            }
        },
        None => None,
    }
}

/// The modules that a build's JSON event lines report, in order.
pub fn module_artifacts(lines: &Vec<String>) -> (r: Vec<String>)
    ensures
        views(r@) == modules_in(views(lines@)),
{
    let ghost all = views(lines@);
    let mut r: Vec<String> = Vec::new();
    let mut i: usize = 0;
    while i < lines.len()
        invariant
            i <= lines.len(),
            all == views(lines@),
            views(r@) == modules_in(all.subrange(0, i as int)),
        decreases lines.len() - i,
    {
        let ghost before = r@;
        let ghost upto = all.subrange(0, i + 1);
        assert(upto.drop_last() =~= all.subrange(0, i as int));
        assert(upto.last() == lines@[i as int]@);
        let files = compiler_artifact_files(lines[i].as_str());
        assert(file_views(files) == artifact_files_of(lines@[i as int]@));
        match wasm_module_of(files) {
            Some(m) => {
                r.push(m);
                assert(views(r@) =~= views(before).push(m@));
            },
            None => {},
        }
        i = i + 1;
    }
    assert(all.subrange(0, i as int) =~= all);
    r
}

/// The files of one module under the pipeline's output directory.
pub struct ArtifactPaths {
    /// The raw IR, `<stem>.ll`.
    pub raw_ir: String,
    /// The versioned IR, `<stem>.versioned.ll`.
    pub versioned_ir: String,
    /// The object, `<stem>.o`.
    pub object: String,
    /// The object's file name.
    pub object_name: String,
}

/// `dir/name`.
pub open spec fn under(dir: Seq<char>, name: Seq<char>) -> Seq<char> {
    dir + "/"@ + name
}

/// Where the artifacts of the module at `wasm_path` go under `bin_dir`;
/// `None` where the path is no `.wasm` module.
pub fn artifact_paths(bin_dir: &String, wasm_path: &String) -> (r: Option<ArtifactPaths>)
    ensures
        module_stem(wasm_path@) is None <==> r is None,
        r matches Some(a) ==> ({
            let stem = module_stem(wasm_path@)->0;
            &&& a.raw_ir@ == under(bin_dir@, stem + ".ll"@)
            &&& a.versioned_ir@ == under(bin_dir@, stem + ".versioned.ll"@)
            &&& a.object@ == under(bin_dir@, stem + ".o"@)
            &&& a.object_name@ == stem + ".o"@
        }),
{
    match wasm_module_stem(wasm_path.as_str()) {
        None => None,
        Some(stem) => {
            let dir = joined(bin_dir.as_str(), "/");
            let raw_name = joined(stem.as_str(), ".ll");
            let versioned_name = joined(stem.as_str(), ".versioned.ll");
            let object_name = joined(stem.as_str(), ".o");
            Some(
                ArtifactPaths {
                    raw_ir: joined(dir.as_str(), raw_name.as_str()),
                    versioned_ir: joined(dir.as_str(), versioned_name.as_str()),
                    object: joined(dir.as_str(), object_name.as_str()),
                    object_name,
                },
            )
        },
    }
}

/// With the opt-out flag among the build arguments no module goes through
/// the strip stage; without it every module does, as its last stage.
pub proof fn lemma_opt_out_keeps_symbols(args: Seq<Seq<char>>)
    ensures
        stages_for(args.contains("--no-strip"@)).contains(Stage::Strip) <==> !args.contains(
            "--no-strip"@,
        ),
        !args.contains("--no-strip"@) ==> stages_for(false).last() == Stage::Strip,
{
    let st = stages_for(args.contains("--no-strip"@));
    if args.contains("--no-strip"@) {
        assert forall|i: int| 0 <= i < st.len() implies st[i] != Stage::Strip by {
            assert(st[i] == seq![Stage::Copy, Stage::Version, Stage::Patch, Stage::Compile][i]);
        }
    } else {
        assert(st[4] == Stage::Strip);
    }
}

} // verus!
