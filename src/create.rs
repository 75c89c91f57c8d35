//! Scaffolding a project from a template: which template is asked for,
//! whether the destination may be used, and where each archive entry goes.
use vstd::prelude::*;
use crate::text::{has_prefix, is_prefix, joined, same_text};

verus! {

/// Why a project could not be scaffolded.
pub enum CreateError {
    /// A file-system operation failed; the text says which.
    IoError(String),
    /// The template identifier names no template.
    UnknownTemplate(String),
    /// The remote archive could not be fetched.
    ConnectionError(String),
    /// The archive could not be read.
    ZipError(String),
    /// The destination directory is already there.
    DirectoryAlreadyExists(String),
}

impl CreateError {
    /// A sentence that describes the error.
    pub fn message(&self) -> (r: String)
        ensures
            r@ == match self {
                CreateError::IoError(s) => "filesystem error: "@ + s@,
                CreateError::UnknownTemplate(s) => "unknown template: "@ + s@,
                CreateError::ConnectionError(s) => "Connection error: "@ + s@,
                CreateError::ZipError(s) => "Zip error: "@ + s@,
                CreateError::DirectoryAlreadyExists(s) => "A directory with this name already exists: "@
                    + s@,
            },
    {
        match self {
            CreateError::IoError(s) => joined("filesystem error: ", s.as_str()),
            CreateError::UnknownTemplate(s) => joined("unknown template: ", s.as_str()),
            CreateError::ConnectionError(s) => joined("Connection error: ", s.as_str()),
            CreateError::ZipError(s) => joined("Zip error: ", s.as_str()),
            CreateError::DirectoryAlreadyExists(s) => joined(
                "A directory with this name already exists: ",
                s.as_str(),
            ),
        }
    }
}

/// The project templates.
#[derive(PartialEq, Eq, Structural, Clone, Copy, Debug)]
pub enum Template {
    /// Bundled with the tool.
    LocalDefault,
    /// Fetched from the template repository.
    Default,
    Ft,
    Nft,
}

impl Default for Template {
    fn default() -> (r: Template)
        ensures
            r == Template::LocalDefault,
    {
        Template::LocalDefault
    }
}

/// The template that an identifier names.
pub open spec fn template_named(s: Seq<char>) -> Option<Template> {
    if s == "local_default"@ {
        Some(Template::LocalDefault)
    } else if s == "default"@ {
        Some(Template::Default)
    } else if s == "ft"@ {
        Some(Template::Ft)
    } else if s == "nft"@ {
        Some(Template::Nft)
    } else {
        None
    }
}

/// Where the archive of a template is fetched from.
pub open spec fn template_url(t: Template) -> Option<Seq<char>> {
    match t {
        Template::LocalDefault => None,
        Template::Default => Some(
            "https://github.com/L1X-Foundation/cargo-l1x-templates/archive/refs/heads/default.zip"@,
        ),
        Template::Ft => Some(
            "https://github.com/L1X-Foundation/cargo-l1x-templates/archive/refs/heads/ft.zip"@,
        ),
        Template::Nft => Some(
            "https://github.com/L1X-Foundation/cargo-l1x-templates/archive/refs/heads/nft.zip"@,
        ),
    }
}

/// Where a template's archive comes from.
pub enum ArchiveSource {
    /// The archive built into the tool.
    Bundled,
    /// An archive fetched from this address.
    Remote(String),
}

impl Template {
    /// The template named by an identifier.
    pub fn parse(s: &str) -> (r: Result<Template, CreateError>)
        ensures
            template_named(s@) matches Some(t) ==> r == Ok::<Template, CreateError>(t),
            template_named(s@) is None ==> (r matches Err(CreateError::UnknownTemplate(n))
                && n@ == s@),
    {
        if same_text(s, "local_default") {
            Ok(Template::LocalDefault)
        } else if same_text(s, "default") {
            Ok(Template::Default)
        } else if same_text(s, "ft") {
            Ok(Template::Ft)
        } else if same_text(s, "nft") {
            Ok(Template::Nft)
        } else {
            Err(CreateError::UnknownTemplate(s.to_owned()))
        }
    }

    /// Where this template's archive comes from.
    pub fn archive_source(&self) -> (r: ArchiveSource)
        ensures
            template_url(*self) is None ==> r is Bundled,
            template_url(*self) matches Some(u) ==> (r matches ArchiveSource::Remote(s) && s@
                == u),
    {
        match self {
            Template::LocalDefault => ArchiveSource::Bundled,
            Template::Default => ArchiveSource::Remote(
                "https://github.com/L1X-Foundation/cargo-l1x-templates/archive/refs/heads/default.zip".to_owned(),
            ),
            Template::Ft => ArchiveSource::Remote(
                "https://github.com/L1X-Foundation/cargo-l1x-templates/archive/refs/heads/ft.zip".to_owned(),
            ),
            Template::Nft => ArchiveSource::Remote(
                "https://github.com/L1X-Foundation/cargo-l1x-templates/archive/refs/heads/nft.zip".to_owned(),
            ),
        }
    }
}

impl std::str::FromStr for Template {
    type Err = CreateError;

    fn from_str(s: &str) -> Result<Self, Self::Err> {
        Template::parse(s)
    }
}

/// Decides whether a project called `name` may be scaffolded from
/// `from_template`, given whether a directory of that name already exists:
/// an unknown template is refused first, then an existing destination.
/// Nothing on disk is touched before this decision.
pub fn create(name: String, from_template: String, destination_exists: bool) -> (r: Result<
    Template,
    CreateError,
>)
    ensures
        template_named(from_template@) is None ==> (r matches Err(CreateError::UnknownTemplate(n))
            && n@ == from_template@),
        (template_named(from_template@) is Some && destination_exists) ==> (r matches Err(
            CreateError::DirectoryAlreadyExists(n),
        ) && n@ == name@),
        !destination_exists ==> (template_named(from_template@) matches Some(t) ==> r == Ok::<
            Template,
            CreateError,
        >(t)),
{
    let template = Template::parse(from_template.as_str())?;
    if destination_exists {
        return Err(CreateError::DirectoryAlreadyExists(name));
    }
    Ok(template)
}

/// A directory name without its trailing separator.
pub open spec fn trimmed_dir(top: Seq<char>) -> Seq<char> {
    if top.len() > 0 && top.last() == '/' {
        top.drop_last()
    } else {
        top
    }
}

/// An archive path with the top-level directory taken off its front.
pub open spec fn strip_top(path: Seq<char>, top: Option<Seq<char>>) -> Seq<char> {
    match top {
        None => path,
        Some(t) => {
            let d = trimmed_dir(t);
            if path == d {
                Seq::empty()
            } else if is_prefix(d + "/"@, path) {
                path.skip(d.len() + 1int)
            } else {
                path
            }
        },
    }
}

/// A path whose file is the manifest template, renamed to the manifest.
pub open spec fn renamed(rel: Seq<char>) -> Seq<char> {
    let t = "Cargo.toml.template"@;
    if rel.len() >= t.len() && rel.skip(rel.len() - t.len()) == t && (rel.len() == t.len()
        || rel[rel.len() - t.len() - 1] == '/') {
        rel.subrange(0, rel.len() - 9)
    } else {
        rel
    }
}

/// What to do with one entry of a template archive.
pub enum EntryAction {
    /// The archive's top-level directory: nothing to create.
    Skip,
    /// Create this directory under the destination.
    MakeDir(String),
    /// Write the entry's contents to this file under the destination.
    WriteFile(String),
}

/// Walks the entries of a template archive in order and places each under
/// the destination, without the archive's top-level directory.
pub struct Unpacker {
    /// The raw name of the first directory entry, once seen.
    pub top: Option<String>,
}

fn trim_dir(t: &str) -> (r: String)
    ensures
        r@ == trimmed_dir(t@),
{
    let n = t.unicode_len();
    if n > 0 && t.get_char(n - 1) == '/' {
        assert(t@.subrange(0, n - 1) =~= t@.drop_last());
        t.substring_char(0, n - 1).to_owned()
    } else {
        t.to_owned()
    }
}

fn strip_top_dir(path: &str, top: &Option<String>) -> (r: String)
    ensures
        r@ == strip_top(
            path@,
            match top {
                Some(t) => Some(t@),
                None => None,
            },
        ),
{
    match top {
        None => path.to_owned(),
        Some(t) => {
            let d = trim_dir(t.as_str());
            let with_sep = joined(d.as_str(), "/");
            if same_text(path, d.as_str()) {
                String::new()
            } else if has_prefix(path, with_sep.as_str()) {
                proof {
                    reveal_strlit("/");
                }
                path.substring_char(with_sep.unicode_len(), path.unicode_len()).to_owned()
            } else {
                path.to_owned()
            }
        },
    }
}

fn rename_manifest(rel: String) -> (r: String)
    ensures
        r@ == renamed(rel@),
{
    proof {
        reveal_strlit("Cargo.toml.template");
    }
    let t = "Cargo.toml.template";
    let n = rel.unicode_len();
    let m = t.unicode_len();
    if n >= m && same_text(rel.as_str().substring_char(n - m, n), t) {
        assert(rel@.subrange(n - m, n as int) =~= rel@.skip(n - m));
        if n == m || rel.as_str().get_char(n - m - 1) == '/' {
            return rel.as_str().substring_char(0, n - 9).to_owned();
        }
    } else {
        assert(n >= m ==> rel@.subrange(n - m, n as int) =~= rel@.skip(n - m));
    }
    rel
}

impl Unpacker {
    /// An unpacker that has seen no entry yet.
    pub fn new() -> (r: Unpacker)
        ensures
            r.top is None,
    {
        Unpacker { top: None }
    }

    /// Places the next entry: `name` is its raw name, `path` its sanitized
    /// path. The first directory entry is the top-level directory, skipped
    /// and remembered; every later path loses that prefix, and a manifest
    /// template is renamed to the manifest.
    pub fn place(&mut self, name: &String, path: &String, is_dir: bool) -> (r: EntryAction)
        ensures
            (is_dir && old(self).top is None) ==> (r is Skip && final(self).top == Some(
                *name,
            )),
            !(is_dir && old(self).top is None) ==> final(self).top == old(self).top,
            (is_dir && old(self).top is Some) ==> (r matches EntryAction::MakeDir(p) && p@
                == strip_top(path@, Some(old(self).top->0@))),
            (!is_dir) ==> (r matches EntryAction::WriteFile(p) && p@ == renamed(
                strip_top(
                    path@,
                    match old(self).top {
                        Some(t) => Some(t@),
                        None => None,
                    },
                ),
            )),
    {
        if is_dir && self.top.is_none() {
            self.top = Some(name.clone());
            return EntryAction::Skip;
        }
        let rel = strip_top_dir(path.as_str(), &self.top);
        if is_dir {
            EntryAction::MakeDir(rel)
        } else {
            EntryAction::WriteFile(rename_manifest(rel))
        }
    }
}

} // verus!
