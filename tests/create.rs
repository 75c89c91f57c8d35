use cargo_l1x::create::{create, ArchiveSource, CreateError, EntryAction, Template, Unpacker};
use std::str::FromStr;

#[test]
fn template_names() {
    assert_eq!(Template::from_str("local_default").ok(), Some(Template::LocalDefault));
    assert_eq!(Template::parse("default").ok(), Some(Template::Default));
    assert_eq!(Template::parse("ft").ok(), Some(Template::Ft));
    assert_eq!(Template::parse("nft").ok(), Some(Template::Nft));
    assert_eq!(Template::default(), Template::LocalDefault);
    match Template::parse("bogus") {
        Err(CreateError::UnknownTemplate(s)) => assert_eq!(s, "bogus"),
        _ => panic!("bogus was accepted"),
    }
}

#[test]
fn unknown_template_is_refused_first() {
    match create("proj".to_string(), "bogus".to_string(), true) {
        Err(e) => {
            assert!(matches!(e, CreateError::UnknownTemplate(ref s) if s == "bogus"));
            assert_eq!(e.message(), "unknown template: bogus");
        }
        Ok(_) => panic!("bogus was accepted"),
    }
}

#[test]
fn existing_destination_is_refused() {
    match create("proj".to_string(), "local_default".to_string(), true) {
        Err(CreateError::DirectoryAlreadyExists(n)) => assert_eq!(n, "proj"),
        _ => panic!("existing directory was accepted"),
    }
}

#[test]
fn new_destination_is_accepted() {
    assert_eq!(create("proj".to_string(), "ft".to_string(), false).ok(), Some(Template::Ft));
}

#[test]
fn archive_sources() {
    assert!(matches!(Template::LocalDefault.archive_source(), ArchiveSource::Bundled));
    match Template::Nft.archive_source() {
        ArchiveSource::Remote(u) => assert_eq!(u, "https://github.com/L1X-Foundation/cargo-l1x-templates/archive/refs/heads/nft.zip"),
        ArchiveSource::Bundled => panic!("nft is remote"),
    }
}

fn place(u: &mut Unpacker, name: &str, is_dir: bool) -> EntryAction {
    u.place(&name.to_string(), &name.trim_end_matches('/').to_string(), is_dir)
}

#[test]
fn archive_entries_lose_the_top_directory() {
    let mut u = Unpacker::new();
    assert!(matches!(place(&mut u, "default_template/", true), EntryAction::Skip));
    assert!(matches!(place(&mut u, "default_template/src/", true), EntryAction::MakeDir(ref p) if p == "src"));
    assert!(matches!(place(&mut u, "default_template/src/lib.rs", false), EntryAction::WriteFile(ref p) if p == "src/lib.rs"));
    assert!(matches!(place(&mut u, "default_template/Cargo.toml.template", false), EntryAction::WriteFile(ref p) if p == "Cargo.toml"));
    assert!(matches!(place(&mut u, "default_template/x/Cargo.toml.template", false), EntryAction::WriteFile(ref p) if p == "x/Cargo.toml"));
    assert!(matches!(place(&mut u, "default_template/MyCargo.toml.template", false), EntryAction::WriteFile(ref p) if p == "MyCargo.toml.template"));
    assert!(matches!(place(&mut u, "other/README.md", false), EntryAction::WriteFile(ref p) if p == "other/README.md"));
}
