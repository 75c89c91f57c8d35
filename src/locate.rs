//! The tool locator: which executable serves a logical tool name, tried in a
//! fixed order of strategies.
use vstd::prelude::*;
use crate::ir::{ascii_bytes, decimal, occurs_at, render_decimal, starts_with};
use crate::text::{joined, views};
use crate::which::first_found;

verus! {

/// Why no executable could be used for a tool.
#[derive(PartialEq, Eq, Structural, Clone, Copy, Debug)]
pub enum ToolError {
    /// Neither the override directory nor the search path has the tool.
    NotFound,
    /// Only the bare name was found, and it reports no supported version.
    UnsupportedVersion,
}

/// What the locator decides from the answers of the file-system probes.
pub enum Resolution {
    /// Use this executable.
    Found(String),
    /// Only the bare name was found: run it with `--version` and judge the
    /// report with `judge_version`.
    CheckVersion(String),
    /// No strategy gave an executable.
    Failed(ToolError),
}

/// Answers of the file-system probes for one tool.
pub struct ToolProbe {
    /// `<override>/<base>` exists.
    pub override_exists: bool,
    /// For each versioned name, in the order of `versioned_names`: found on
    /// the search path.
    pub versioned_found: Vec<bool>,
    /// The bare name is found on the search path.
    pub bare_found: bool,
}

/// The supported major versions, in the order they are tried.
pub open spec fn supported_majors() -> Seq<nat> {
    seq![17, 18, 19]
}

/// The tool name followed by each supported major version.
pub open spec fn versioned_names_of(base: Seq<char>) -> Seq<Seq<char>> {
    seq![base + "-17"@, base + "-18"@, base + "-19"@]
}

/// The override path, or the first versioned name found, in that order.
pub open spec fn chosen_tool(
    base: Seq<char>,
    override_dir: Option<Seq<char>>,
    override_exists: bool,
    versioned_found: Seq<bool>,
) -> Option<Seq<char>> {
    if override_dir is Some && override_exists {
        Some(override_dir->0 + "/"@ + base)
    } else {
        first_found(versioned_names_of(base), versioned_found)
    }
}

/// The text by which a version report names a supported major version.
pub open spec fn version_marker(major: nat) -> Seq<u8> {
    ascii_bytes("version "@) + decimal(major) + ascii_bytes("."@)
}

/// `p` occurs somewhere in `s`.
pub open spec fn contains(s: Seq<u8>, p: Seq<u8>) -> bool {
    exists|i: int| 0 <= i <= s.len() && starts_with(#[trigger] s.skip(i), p)
}

/// The version report names one of the supported major versions.
pub open spec fn supported_report(report: Seq<u8>) -> bool {
    exists|k: int|
        0 <= k < supported_majors().len() && contains(
            report,
            #[trigger] version_marker(supported_majors()[k]),
        )
}

/// The tool name followed by each supported major version.
pub fn versioned_names(base: &String) -> (r: Vec<String>)
    ensures
        views(r@) == versioned_names_of(base@),
{
    let mut r: Vec<String> = Vec::new();
    r.push(joined(base.as_str(), "-17"));
    r.push(joined(base.as_str(), "-18"));
    r.push(joined(base.as_str(), "-19"));
    assert(views(r@) =~= versioned_names_of(base@));
    r
}

/// Where the override directory would hold the tool.
pub fn override_path(dir: &String, base: &String) -> (r: String)
    ensures
        r@ == dir@ + "/"@ + base@,
{
    let with_sep = joined(dir.as_str(), "/");
    joined(with_sep.as_str(), base.as_str())
}

/// Picks the executable for `base`: the override directory first, then
/// each versioned name, then the bare name, which must still pass a version
/// check.
pub fn resolve_tool(base: &String, override_dir: &Option<String>, probe: &ToolProbe) -> (r:
    Resolution)
    requires
        probe.versioned_found.len() == 3,
    ensures
        ({
            let chosen = chosen_tool(
                base@,
                match override_dir {
                    Some(d) => Some(d@),
                    None => None,
                },
                probe.override_exists,
                probe.versioned_found@,
            );
            &&& chosen matches Some(p) ==> (r matches Resolution::Found(s) && s@ == p)
            &&& (chosen is None && probe.bare_found) ==> (r matches Resolution::CheckVersion(s)
                && s@ == base@)
            &&& (chosen is None && !probe.bare_found) ==> (r matches Resolution::Failed(
                ToolError::NotFound,
            ))
        }),
{
    match override_dir {
        Some(dir) => {
            if probe.override_exists {
                return Resolution::Found(override_path(dir, base));
            }
        },
        None => {},
    }
    let names = versioned_names(base);
    let ghost all = views(names@);
    let ghost hits = probe.versioned_found@;
    let mut k: usize = 0;
    assert(all.skip(0) =~= all);
    assert(hits.skip(0) =~= hits);
    while k < 3
        invariant
            k <= 3,
            names.len() == 3,
            probe.versioned_found.len() == 3,
            all == views(names@),
            all == versioned_names_of(base@),
            !(override_dir is Some && probe.override_exists),
            hits == probe.versioned_found@,
            first_found(all, hits) == first_found(all.skip(k as int), hits.skip(k as int)),
        decreases 3 - k,
    {
        if probe.versioned_found[k] {
            assert(all.skip(k as int)[0] == names@[k as int]@);
            assert(hits.skip(k as int)[0] == hits[k as int]);
            let found = names[k].clone();
            return Resolution::Found(found);
        }
        assert(all.skip(k as int).skip(1) =~= all.skip(k + 1));
        assert(hits.skip(k as int).skip(1) =~= hits.skip(k + 1));
        k = k + 1;
    }
    if probe.bare_found {
        Resolution::CheckVersion(base.clone())
    } else {
        Resolution::Failed(ToolError::NotFound)
    }
}

fn contains_bytes(s: &Vec<u8>, p: &Vec<u8>) -> (r: bool)
    ensures
        r == contains(s@, p@),
{
    let mut i: usize = 0;
    while i < s.len()
        invariant
            i <= s.len(),
            forall|j: int| 0 <= j < i ==> !starts_with(#[trigger] s@.skip(j), p@),
        decreases s.len() - i,
    {
        if occurs_at(s, i, p) {
            return true;
        }
        i = i + 1;
    }
    let last = occurs_at(s, i, p);
    assert(last ==> starts_with(s@.skip(i as int), p@));
    assert(!last ==> forall|j: int| 0 <= j <= s.len() ==> !starts_with(#[trigger] s@.skip(j), p@));
    last
}

fn marker(major: u64) -> (r: Vec<u8>)
    ensures
        r@ == version_marker(major as nat),
{
    proof {
        reveal_strlit("version ");
        reveal_strlit(".");
        vstd::string::is_ascii_spec_bytes("version ");
        vstd::string::is_ascii_spec_bytes(".");
    }
    let mut r = "version ".as_bytes_vec();
    let digits = render_decimal(major);
    let dot = ".".as_bytes_vec();
    let mut i: usize = 0;
    let ghost start = r@;
    while i < digits.len()
        invariant
            i <= digits.len(),
            r@ == start + digits@.subrange(0, i as int),
        decreases digits.len() - i,
    {
        r.push(digits[i]);
        i = i + 1;
        assert(digits@.subrange(0, i as int) =~= digits@.subrange(0, i - 1).push(digits@[i - 1]));
    }
    r.push(dot[0]);
    assert(digits@.subrange(0, i as int) =~= digits@);
    assert(dot@ =~= seq![dot@[0]]);
    r
}

/// Whether a `--version` report names a supported major version.
pub fn reports_supported_version(report: &Vec<u8>) -> (r: bool)
    ensures
        r == supported_report(report@),
{
    let majors: Vec<u64> = vec![17, 18, 19];
    let mut k: usize = 0;
    while k < 3
        invariant
            k <= 3,
            majors@ == seq![17u64, 18u64, 19u64],
            forall|j: int| 0 <= j < k ==> !contains(report@, #[trigger] version_marker(supported_majors()[j])),
        decreases 3 - k,
    {
        let m = marker(majors[k]);
        if contains_bytes(report, &m) {
            assert(supported_majors()[k as int] == majors@[k as int] as nat);
            return true;
        }
        assert(supported_majors()[k as int] == majors@[k as int] as nat);
        k = k + 1;
    }
    false
}

/// Accepts the bare-named tool only when it could be asked for its version
/// and the report names a supported major version.
pub fn judge_version(name: String, report: Option<Vec<u8>>) -> (r: Result<String, ToolError>)
    ensures
        r is Ok <==> (report matches Some(out) && supported_report(out@)),
        r matches Ok(s) ==> s == name,
        r matches Err(e) ==> e == ToolError::UnsupportedVersion,
{
    match report {
        Some(out) => {
            if reports_supported_version(&out) {
                Ok(name)
            } else {
                Err(ToolError::UnsupportedVersion)
            }
        },
        None => Err(ToolError::UnsupportedVersion),
    }
}

/// A tool that is found under a versioned name, and not in the override
/// directory, is that versioned name: the first one found among the
/// supported versions, never the bare name.
pub proof fn lemma_versioned_name_wins(
    base: Seq<char>,
    override_dir: Option<Seq<char>>,
    override_exists: bool,
    versioned_found: Seq<bool>,
    k: int,
)
    requires
        !(override_dir is Some && override_exists),
        versioned_found.len() == 3,
        0 <= k < 3,
        versioned_found[k],
        forall|j: int| 0 <= j < k ==> !versioned_found[j],
    ensures
        chosen_tool(base, override_dir, override_exists, versioned_found) == Some(
            versioned_names_of(base)[k],
        ),
{
    let names = versioned_names_of(base);
    reveal_with_fuel(first_found, 4);
    assert(names.skip(1).skip(1) =~= seq![names[2]]);
    assert(versioned_found.skip(1).skip(1) =~= seq![versioned_found[2]]);
    if k == 0 {
    } else if k == 1 {
        assert(!versioned_found[0]);
        assert(names.skip(1)[0] == names[1]);
        assert(versioned_found.skip(1)[0] == versioned_found[1]);
    } else {
        assert(!versioned_found[0]);
        assert(!versioned_found[1]);
        assert(versioned_found.skip(1)[0] == versioned_found[1]);
        assert(names.skip(1).skip(1)[0] == names[2]);
        assert(versioned_found.skip(1).skip(1)[0] == versioned_found[2]);
    }
}

} // verus!
