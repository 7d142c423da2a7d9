use palawija::error::Error;
use palawija::installer::{
    build_steps, step, validate, InstallAction, InstallEvent, InstallOutcome, InstallPhase,
    Installation,
};
use palawija::layout::Platform;

const ROOT: &str = "/home/dev/.palawija";
const DIR: &str = "/home/dev/.palawija/php-8.2.15";
const ARCHIVE: &str = "/home/dev/.palawija/php-8.2.15.tar.gz";

fn begun() -> Installation {
    Installation::begin(Platform::Unix, ROOT, "8.2.15").unwrap()
}

fn downloading() -> Installation {
    begun()
        .advance(InstallEvent::DirReady { ok: true })
        .advance(InstallEvent::Inspected { dir_exists: false, binary_exists: false })
}

#[test]
fn validation_is_loose() {
    assert_eq!(validate("8.3.0"), Ok(()));
    assert_eq!(validate("8.3"), Ok(()));
    assert_eq!(validate("8.3.0RC1"), Ok(()));
    assert_eq!(validate("v1."), Ok(()));
    assert_eq!(validate("٣.x"), Ok(()));
}

#[test]
fn validation_asks_for_a_dot_and_a_number() {
    assert_eq!(validate(""), Err(Error::InvalidVersionFormat));
    assert_eq!(validate("830"), Err(Error::InvalidVersionFormat));
    assert_eq!(validate("latest"), Err(Error::InvalidVersionFormat));
    assert_eq!(validate("a.b.c"), Err(Error::InvalidVersionFormat));
    assert_eq!(validate("."), Err(Error::InvalidVersionFormat));
}

#[test]
fn an_invalid_version_is_not_installed() {
    assert_eq!(
        Installation::begin(Platform::Unix, ROOT, "latest"),
        Err(Error::InvalidVersionFormat)
    );
}

#[test]
fn installation_begins_with_the_root() {
    let s = begun();
    assert_eq!(s.phase, InstallPhase::PreparingRoot);
    assert_eq!(s.root, ROOT);
    assert_eq!(s.version, "8.2.15");
    assert!(!s.is_finished());
    assert_eq!(s.pending(), InstallAction::EnsureDir { path: ROOT.to_string() });
}

#[test]
fn a_root_that_cannot_be_made_is_a_failure() {
    let s = begun().advance(InstallEvent::DirReady { ok: false });
    assert_eq!(s.phase, InstallPhase::Failed(Error::StorageFailure));
    assert!(s.is_finished());
    assert_eq!(s.pending(), InstallAction::Finish(Err(Error::StorageFailure)));
}

#[test]
fn the_version_directory_is_looked_at() {
    let s = begun().advance(InstallEvent::DirReady { ok: true });
    assert_eq!(s.phase, InstallPhase::Inspecting);
    assert_eq!(
        s.pending(),
        InstallAction::Inspect {
            dir: DIR.to_string(),
            binary: "/home/dev/.palawija/php-8.2.15/bin/php".to_string(),
        }
    );
}

#[test]
fn an_existing_directory_ends_the_installation() {
    for compiled in [false, true] {
        let s = begun()
            .advance(InstallEvent::DirReady { ok: true })
            .advance(InstallEvent::Inspected { dir_exists: true, binary_exists: compiled });
        assert_eq!(s.phase, InstallPhase::AlreadyInstalled { compiled });
        assert!(s.is_finished());
        assert_eq!(
            s.pending(),
            InstallAction::Finish(Ok(InstallOutcome::AlreadyInstalled { compiled }))
        );
        let s = s
            .advance(InstallEvent::Downloaded { ok: true })
            .advance(InstallEvent::Extracted { ok: true });
        assert_eq!(s.phase, InstallPhase::AlreadyInstalled { compiled });
    }
}

#[test]
fn a_new_version_is_downloaded() {
    let s = downloading();
    assert_eq!(s.phase, InstallPhase::Downloading);
    assert_eq!(
        s.pending(),
        InstallAction::Download {
            url: "https://www.php.net/distributions/php-8.2.15.tar.gz".to_string(),
            to: ARCHIVE.to_string(),
            timeout: 300,
        }
    );
}

#[test]
fn a_failed_download_is_cleaned_up_before_it_is_reported() {
    let s = downloading().advance(InstallEvent::Downloaded { ok: false });
    assert_eq!(s.phase, InstallPhase::CleaningUp);
    assert!(!s.is_finished());
    assert_eq!(s.pending(), InstallAction::DeleteFile { path: ARCHIVE.to_string() });
    let kept = downloading()
        .advance(InstallEvent::Downloaded { ok: false })
        .advance(InstallEvent::FileRemoved { ok: false });
    assert_eq!(kept.phase, InstallPhase::Failed(Error::NetworkFailure));
    let s = s.advance(InstallEvent::FileRemoved { ok: true });
    assert_eq!(s.phase, InstallPhase::Failed(Error::NetworkFailure));
    assert_eq!(s.pending(), InstallAction::Finish(Err(Error::NetworkFailure)));
}

#[test]
fn the_archive_is_unpacked_into_the_version_directory() {
    let s = downloading().advance(InstallEvent::Downloaded { ok: true });
    assert_eq!(s.phase, InstallPhase::CreatingDir);
    assert_eq!(s.pending(), InstallAction::EnsureDir { path: DIR.to_string() });
    let s = s.advance(InstallEvent::DirReady { ok: true });
    assert_eq!(s.phase, InstallPhase::Extracting);
    assert_eq!(
        s.pending(),
        InstallAction::Extract { archive: ARCHIVE.to_string(), into: DIR.to_string(), strip: 1 }
    );
}

#[test]
fn a_directory_that_cannot_be_made_is_a_failure() {
    let s = downloading()
        .advance(InstallEvent::Downloaded { ok: true })
        .advance(InstallEvent::DirReady { ok: false });
    assert_eq!(s.phase, InstallPhase::Failed(Error::StorageFailure));
}

#[test]
fn a_failed_extraction_is_a_failure() {
    let s = downloading()
        .advance(InstallEvent::Downloaded { ok: true })
        .advance(InstallEvent::DirReady { ok: true })
        .advance(InstallEvent::Extracted { ok: false });
    assert_eq!(s.phase, InstallPhase::Failed(Error::ExtractionFailed));
    assert_eq!(s.pending(), InstallAction::Finish(Err(Error::ExtractionFailed)));
}

#[test]
fn the_archive_is_removed_after_unpacking() {
    let s = downloading()
        .advance(InstallEvent::Downloaded { ok: true })
        .advance(InstallEvent::DirReady { ok: true })
        .advance(InstallEvent::Extracted { ok: true });
    assert_eq!(s.phase, InstallPhase::RemovingArchive);
    assert_eq!(s.pending(), InstallAction::DeleteFile { path: ARCHIVE.to_string() });
    let done = s.advance(InstallEvent::FileRemoved { ok: true });
    assert_eq!(done.phase, InstallPhase::Installed);
    assert!(done.is_finished());
    assert_eq!(done.pending(), InstallAction::Finish(Ok(InstallOutcome::SourceReady)));
}

#[test]
fn an_archive_that_cannot_be_removed_is_a_failure() {
    let s = downloading()
        .advance(InstallEvent::Downloaded { ok: true })
        .advance(InstallEvent::DirReady { ok: true })
        .advance(InstallEvent::Extracted { ok: true })
        .advance(InstallEvent::FileRemoved { ok: false });
    assert_eq!(s.phase, InstallPhase::Failed(Error::StorageFailure));
}

#[test]
fn reports_out_of_turn_change_nothing() {
    assert_eq!(begun().advance(InstallEvent::Downloaded { ok: true }), begun());
    assert_eq!(begun().advance(InstallEvent::FileRemoved { ok: true }), begun());
    assert_eq!(downloading().advance(InstallEvent::DirReady { ok: false }), downloading());
    assert_eq!(
        step(InstallPhase::Installed, InstallEvent::Downloaded { ok: false }),
        InstallPhase::Installed
    );
    assert_eq!(
        step(InstallPhase::Failed(Error::NetworkFailure), InstallEvent::FileRemoved { ok: true }),
        InstallPhase::Failed(Error::NetworkFailure)
    );
}

#[test]
fn windows_installs_below_its_own_root() {
    let s = Installation::begin(Platform::Windows, "C:\\p", "8.3.0")
        .unwrap()
        .advance(InstallEvent::DirReady { ok: true });
    assert_eq!(
        s.pending(),
        InstallAction::Inspect {
            dir: "C:\\p\\php-8.3.0".to_string(),
            binary: "C:\\p\\php-8.3.0\\php.exe".to_string(),
        }
    );
}

#[test]
fn build_steps_name_the_source_directory() {
    assert_eq!(
        build_steps("/home/dev/.palawija/php-8.3.0"),
        vec![
            "cd /home/dev/.palawija/php-8.3.0".to_string(),
            "./configure --prefix=/home/dev/.palawija/php-8.3.0/bin \
--with-config-file-path=/home/dev/.palawija/php-8.3.0/etc \
--enable-mbstring --enable-zip --with-curl --with-openssl --with-zlib --enable-soap"
                .to_string(),
            "make -j$(nproc)".to_string(),
            "make install".to_string(),
        ]
    );
}
