use std::collections::BTreeSet;

use palawija::activator::{Activated, Activation, ActivationAction, ActivationEvent, Probe};
use palawija::error::Error;
use palawija::installer::{InstallAction, InstallEvent, InstallOutcome, Installation};
use palawija::layout::{binary_path, install_root, version_dir, Platform};
use palawija::repository::{
    installed_versions, list_installed_versions, DirEntry, InstalledVersion, Inventory, Lifecycle,
    Listed, RootScan,
};

/// A file system, a network and a global pointer that live in memory.
struct World {
    dirs: BTreeSet<String>,
    files: BTreeSet<String>,
    link: Option<String>,
    online: bool,
    may_write_pointer: bool,
    downloads: usize,
    writes: usize,
}

fn empty_world() -> World {
    World {
        dirs: BTreeSet::new(),
        files: BTreeSet::new(),
        link: None,
        online: true,
        may_write_pointer: true,
        downloads: 0,
        writes: 0,
    }
}

fn root() -> String {
    install_root(Platform::Unix, "/home/dev")
}

fn install(world: &mut World, version: &str) -> Result<InstallOutcome, Error> {
    let mut state = Installation::begin(Platform::Unix, &root(), version)?;
    loop {
        let event = match state.pending() {
            InstallAction::Finish(outcome) => return outcome,
            InstallAction::EnsureDir { path } => {
                if world.dirs.insert(path) {
                    world.writes += 1;
                }
                InstallEvent::DirReady { ok: true }
            }
            InstallAction::Inspect { dir, binary } => InstallEvent::Inspected {
                dir_exists: world.dirs.contains(&dir),
                binary_exists: world.files.contains(&binary),
            },
            InstallAction::Download { url, to, timeout } => {
                assert!(url.starts_with("https://www.php.net/distributions/php-"));
                assert_eq!(timeout, 300);
                world.downloads += 1;
                world.writes += 1;
                world.files.insert(to);
                InstallEvent::Downloaded { ok: world.online }
            }
            InstallAction::DeleteFile { path } => {
                let removed = world.files.remove(&path);
                world.writes += 1;
                InstallEvent::FileRemoved { ok: removed }
            }
            InstallAction::Extract { archive, into, strip } => {
                assert_eq!(strip, 1);
                let ok = world.files.contains(&archive) && world.dirs.contains(&into);
                if ok {
                    world.files.insert(format!("{}/configure", into));
                    world.writes += 1;
                }
                InstallEvent::Extracted { ok }
            }
        };
        state = state.advance(event);
    }
}

fn activate(world: &mut World, version: &str) -> Result<Activated, Error> {
    let mut state = Activation::new(Platform::Unix, &root(), version);
    loop {
        let event = match state.pending() {
            ActivationAction::Finish(outcome) => return outcome,
            ActivationAction::Inspect { dir, binary } => ActivationEvent::Inspected {
                dir_exists: world.dirs.contains(&dir),
                binary_exists: world.files.contains(&binary),
            },
            ActivationAction::Probe { binary } => {
                assert!(world.files.contains(&binary));
                ActivationEvent::Probed(Probe::Working)
            }
            ActivationAction::CheckPointer { link } => {
                assert_eq!(link, "/usr/local/bin/php");
                ActivationEvent::PointerChecked { exists: world.link.is_some() }
            }
            ActivationAction::RemovePointer { .. } => {
                if world.may_write_pointer {
                    world.link = None;
                }
                ActivationEvent::Removed { ok: world.may_write_pointer }
            }
            ActivationAction::CreateLink { target, .. } => {
                assert!(world.link.is_none());
                if world.may_write_pointer {
                    world.link = Some(target);
                }
                ActivationEvent::Linked { ok: world.may_write_pointer }
            }
            ActivationAction::PrependPath { .. } => unreachable!(),
            ActivationAction::Verify => ActivationEvent::Verified(if world.link.is_some() {
                Probe::Working
            } else {
                Probe::Unrunnable
            }),
        };
        state = state.advance(event);
    }
}

fn scan(world: &World) -> RootScan {
    let root = root();
    if !world.dirs.contains(&root) {
        return RootScan::Absent;
    }
    let prefix = format!("{}/", root);
    let mut entries = Vec::new();
    for dir in world.dirs.iter() {
        if let Some(name) = dir.strip_prefix(&prefix) {
            if !name.contains('/') {
                entries.push(DirEntry { name: name.to_string(), is_dir: true });
            }
        }
    }
    for file in world.files.iter() {
        if let Some(name) = file.strip_prefix(&prefix) {
            if !name.contains('/') {
                entries.push(DirEntry { name: name.to_string(), is_dir: false });
            }
        }
    }
    RootScan::Entries(entries)
}

fn list(world: &World) -> Option<Vec<Listed>> {
    match installed_versions(&scan(world)).unwrap() {
        Inventory::NoRoot => None,
        Inventory::Versions(versions) => {
            let root = root();
            let mut entries = Vec::new();
            for v in versions.iter() {
                let binary = binary_path(Platform::Unix, &root, v);
                entries.push(InstalledVersion::new(
                    Platform::Unix,
                    &root,
                    v,
                    world.files.contains(&binary),
                ));
            }
            Some(list_installed_versions(Platform::Unix, &entries, &world.link))
        }
    }
}

fn build(world: &mut World, version: &str) {
    world.files.insert(binary_path(Platform::Unix, &root(), version));
}

fn listed(version: &str, state: Lifecycle) -> Listed {
    Listed { version: version.to_string(), state }
}

#[test]
fn from_an_empty_home_to_a_first_install() {
    let mut world = empty_world();
    assert_eq!(list(&world), None);
    assert_eq!(install(&mut world, "8.2.15"), Ok(InstallOutcome::SourceReady));
    assert!(world.dirs.contains("/home/dev/.palawija/php-8.2.15"));
    assert!(!world.files.contains("/home/dev/.palawija/php-8.2.15.tar.gz"));
    assert_eq!(list(&world), Some(vec![listed("8.2.15", Lifecycle::SourceOnly)]));
}

#[test]
fn an_installed_version_is_source_only_until_it_is_built() {
    let mut world = empty_world();
    assert_eq!(install(&mut world, "8.3.0"), Ok(InstallOutcome::SourceReady));
    assert_eq!(list(&world), Some(vec![listed("8.3.0", Lifecycle::SourceOnly)]));
    build(&mut world, "8.3.0");
    assert_eq!(list(&world), Some(vec![listed("8.3.0", Lifecycle::Compiled)]));
}

#[test]
fn a_second_install_downloads_nothing_and_changes_nothing() {
    let mut world = empty_world();
    assert_eq!(install(&mut world, "8.3.0"), Ok(InstallOutcome::SourceReady));
    assert_eq!(world.downloads, 1);
    let dirs = world.dirs.clone();
    let files = world.files.clone();
    let writes = world.writes;
    assert_eq!(
        install(&mut world, "8.3.0"),
        Ok(InstallOutcome::AlreadyInstalled { compiled: false })
    );
    assert_eq!(world.downloads, 1);
    assert_eq!(world.writes, writes);
    assert_eq!(world.dirs, dirs);
    assert_eq!(world.files, files);
    build(&mut world, "8.3.0");
    assert_eq!(
        install(&mut world, "8.3.0"),
        Ok(InstallOutcome::AlreadyInstalled { compiled: true })
    );
    assert_eq!(world.downloads, 1);
}

#[test]
fn a_failed_download_leaves_no_archive() {
    let mut world = empty_world();
    world.online = false;
    assert_eq!(install(&mut world, "8.3.0"), Err(Error::NetworkFailure));
    assert!(world.files.is_empty());
    assert!(!world.dirs.contains("/home/dev/.palawija/php-8.3.0"));
    assert_eq!(list(&world), Some(Vec::new()));
}

#[test]
fn an_invalid_version_touches_nothing() {
    let mut world = empty_world();
    assert_eq!(install(&mut world, "latest"), Err(Error::InvalidVersionFormat));
    assert!(world.dirs.is_empty());
    assert_eq!(world.writes, 0);
}

#[test]
fn use_makes_one_version_active() {
    let mut world = empty_world();
    for v in ["8.1.0", "8.2.0", "8.3.0"] {
        assert_eq!(install(&mut world, v), Ok(InstallOutcome::SourceReady));
        build(&mut world, v);
    }
    assert_eq!(
        activate(&mut world, "8.2.0"),
        Ok(Activated { probe: Probe::Working, check: Probe::Working })
    );
    assert_eq!(world.link, Some("/home/dev/.palawija/php-8.2.0/bin/php".to_string()));
    assert_eq!(
        list(&world),
        Some(vec![
            listed("8.1.0", Lifecycle::Compiled),
            listed("8.2.0", Lifecycle::Active),
            listed("8.3.0", Lifecycle::Compiled),
        ])
    );
    assert!(activate(&mut world, "8.3.0").is_ok());
    assert_eq!(
        list(&world),
        Some(vec![
            listed("8.1.0", Lifecycle::Compiled),
            listed("8.2.0", Lifecycle::Compiled),
            listed("8.3.0", Lifecycle::Active),
        ])
    );
}

#[test]
fn use_refuses_a_version_that_is_not_compiled() {
    let mut world = empty_world();
    install(&mut world, "8.2.0").unwrap();
    build(&mut world, "8.2.0");
    activate(&mut world, "8.2.0").unwrap();
    install(&mut world, "8.3.0").unwrap();
    let link = world.link.clone();
    assert_eq!(activate(&mut world, "8.3.0"), Err(Error::NotCompiled));
    assert_eq!(world.link, link);
    assert_eq!(activate(&mut world, "8.4.0"), Err(Error::NotInstalled));
    assert_eq!(world.link, link);
}

#[test]
fn use_without_privileges_keeps_the_old_pointer() {
    let mut world = empty_world();
    for v in ["8.2.0", "8.3.0"] {
        install(&mut world, v).unwrap();
        build(&mut world, v);
    }
    activate(&mut world, "8.2.0").unwrap();
    world.may_write_pointer = false;
    assert_eq!(activate(&mut world, "8.3.0"), Err(Error::PointerRemovalDenied));
    assert_eq!(world.link, Some(binary_path(Platform::Unix, &root(), "8.2.0")));
}

#[test]
fn use_without_privileges_and_without_old_pointer() {
    let mut world = empty_world();
    install(&mut world, "8.3.0").unwrap();
    build(&mut world, "8.3.0");
    world.may_write_pointer = false;
    assert_eq!(activate(&mut world, "8.3.0"), Err(Error::PointerCreationDenied));
    assert_eq!(world.link, None);
    assert_eq!(list(&world), Some(vec![listed("8.3.0", Lifecycle::Compiled)]));
}

#[test]
fn use_twice_is_the_same_as_once() {
    let mut world = empty_world();
    install(&mut world, "8.3.0").unwrap();
    build(&mut world, "8.3.0");
    activate(&mut world, "8.3.0").unwrap();
    let link = world.link.clone();
    activate(&mut world, "8.3.0").unwrap();
    assert_eq!(world.link, link);
    assert_eq!(world.link, Some(version_dir(Platform::Unix, &root(), "8.3.0") + "/bin/php"));
}
