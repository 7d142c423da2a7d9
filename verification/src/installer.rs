//! The installer: the protocol that fetches the source archive of a version
//! and unpacks it into the version's directory.
//!
//! Like the activator it is a state machine that names actions and takes
//! reports; the fetching and unpacking themselves are the caller's.

use vstd::prelude::*;
use crate::error::Error;
use crate::layout::{
    archive_path, archive_path_of, binary_path, binary_path_of, download_url, download_url_of,
    version_dir, version_dir_of, Platform, DOWNLOAD_TIMEOUT,
};
use crate::text::{chars_of, has_digit, strings};
use crate::version::{is_plausible, looks_like_version};

verus! {

/// Where the installation stands: the answer it waits for, or how it ended.
#[derive(Clone, Copy, Debug, PartialEq, Eq, Structural)]
pub enum InstallPhase {
    /// Waiting for the installation root to be there.
    PreparingRoot,
    /// Waiting to learn whether the version's directory and binary exist.
    Inspecting,
    /// Waiting for the archive.
    Downloading,
    /// Waiting for what a failed download left behind to be removed.
    CleaningUp,
    /// Waiting for the version's directory to be made.
    CreatingDir,
    /// Waiting for the archive to be unpacked.
    Extracting,
    /// Waiting for the archive to be removed.
    RemovingArchive,
    /// The sources are unpacked.
    Installed,
    /// The version's directory was there already; nothing was fetched.
    AlreadyInstalled { compiled: bool },
    /// The installation stopped.
    Failed(Error),
}

/// What the caller reports back.
#[derive(Clone, Copy, Debug, PartialEq, Eq, Structural)]
pub enum InstallEvent {
    /// Whether the directory that was asked for is there now.
    DirReady { ok: bool },
    /// Whether the version's directory and its binary exist.
    Inspected { dir_exists: bool, binary_exists: bool },
    /// Whether the archive was fetched whole.
    Downloaded { ok: bool },
    /// Whether the archive was unpacked.
    Extracted { ok: bool },
    /// Whether the file that was to be removed is gone.
    FileRemoved { ok: bool },
}

/// How an installation ended well.
#[derive(Clone, Copy, Debug, PartialEq, Eq, Structural)]
pub enum InstallOutcome {
    /// The sources were fetched and unpacked; the binary is still to be
    /// built.
    SourceReady,
    /// The version's directory was there already, with the binary
    /// (`compiled`) or without.
    AlreadyInstalled { compiled: bool },
}

/// What the caller has to do next.
#[derive(Debug, PartialEq, Eq)]
pub enum InstallAction {
    /// Make the directory `path`, and what is missing above it.
    EnsureDir { path: String },
    /// Report whether the directory `dir` and the file `binary` exist.
    Inspect { dir: String, binary: String },
    /// Fetch `url` into the file `to`, and give up after `timeout`
    /// seconds.
    Download { url: String, to: String, timeout: u32 },
    /// Remove the file `path`.
    DeleteFile { path: String },
    /// Unpack `archive` into the directory `into`, leaving out the first
    /// `strip` components of every path in the archive.
    Extract { archive: String, into: String, strip: u8 },
    /// Nothing: the installation has ended, in this way.
    Finish(Result<InstallOutcome, Error>),
}

/// An action with its paths as character sequences.
pub enum InstallActionView {
    EnsureDir { path: Seq<char> },
    Inspect { dir: Seq<char>, binary: Seq<char> },
    Download { url: Seq<char>, to: Seq<char>, timeout: u32 },
    DeleteFile { path: Seq<char> },
    Extract { archive: Seq<char>, into: Seq<char>, strip: u8 },
    Finish(Result<InstallOutcome, Error>),
}

impl View for InstallAction {
    type V = InstallActionView;

    open spec fn view(&self) -> InstallActionView {
        match *self {
            InstallAction::EnsureDir { path } => InstallActionView::EnsureDir { path: path@ },
            InstallAction::Inspect { dir, binary } => InstallActionView::Inspect {
                dir: dir@,
                binary: binary@,
            },
            InstallAction::Download { url, to, timeout } => InstallActionView::Download {
                url: url@,
                to: to@,
                timeout,
            },
            InstallAction::DeleteFile { path } => InstallActionView::DeleteFile { path: path@ },
            InstallAction::Extract { archive, into, strip } => InstallActionView::Extract {
                archive: archive@,
                into: into@,
                strip,
            },
            InstallAction::Finish(outcome) => InstallActionView::Finish(outcome),
        }
    }
}

impl InstallEvent {
    /// The event is the report that the phase `phase` waits for.
    pub open spec fn answers(self, phase: InstallPhase) -> bool {
        match (phase, self) {
            (InstallPhase::PreparingRoot, InstallEvent::DirReady { .. }) => true,
            (InstallPhase::Inspecting, InstallEvent::Inspected { .. }) => true,
            (InstallPhase::Downloading, InstallEvent::Downloaded { .. }) => true,
            (InstallPhase::CleaningUp, InstallEvent::FileRemoved { .. }) => true,
            (InstallPhase::CreatingDir, InstallEvent::DirReady { .. }) => true,
            (InstallPhase::Extracting, InstallEvent::Extracted { .. }) => true,
            (InstallPhase::RemovingArchive, InstallEvent::FileRemoved { .. }) => true,
            _ => false,
        }
    }
}

impl InstallPhase {
    /// The most reports that the installation can still take before it
    /// ends.
    pub open spec fn steps_left(self) -> nat {
        match self {
            InstallPhase::PreparingRoot => 6,
            InstallPhase::Inspecting => 5,
            InstallPhase::Downloading => 4,
            InstallPhase::CreatingDir => 3,
            InstallPhase::Extracting => 2,
            InstallPhase::RemovingArchive => 1,
            InstallPhase::CleaningUp => 1,
            InstallPhase::Installed => 0,
            InstallPhase::AlreadyInstalled { .. } => 0,
            InstallPhase::Failed(_) => 0,
        }
    }
}

impl InstallActionView {
    /// The action fetches, unpacks or removes something.
    pub open spec fn changes_files(self) -> bool {
        self is Download || self is DeleteFile || self is Extract
    }
}

/// The installation of one version.
#[derive(Debug, PartialEq, Eq)]
pub struct Installation {
    pub platform: Platform,
    /// The installation root.
    pub root: String,
    /// The version to install.
    pub version: String,
    pub phase: InstallPhase,
}

impl Installation {
    /// The installation has ended.
    pub open spec fn is_final(self) -> bool {
        self.phase is Installed || self.phase is AlreadyInstalled || self.phase is Failed
    }

    /// The state after the caller has reported `event`. An event that does
    /// not answer the pending action changes nothing.
    pub open spec fn advance_spec(self, event: InstallEvent) -> Installation {
        Installation { phase: next_phase(self.phase, event), ..self }
    }

    /// The action that the installation waits for.
    pub open spec fn pending_spec(self) -> InstallActionView {
        let dir = version_dir_of(self.platform, self.root@, self.version@);
        let archive = archive_path_of(self.platform, self.root@, self.version@);
        match self.phase {
            InstallPhase::PreparingRoot => InstallActionView::EnsureDir { path: self.root@ },
            InstallPhase::Inspecting => InstallActionView::Inspect {
                dir,
                binary: binary_path_of(self.platform, self.root@, self.version@),
            },
            InstallPhase::Downloading => InstallActionView::Download {
                url: download_url_of(self.version@),
                to: archive,
                timeout: DOWNLOAD_TIMEOUT,
            },
            InstallPhase::CleaningUp => InstallActionView::DeleteFile { path: archive },
            InstallPhase::CreatingDir => InstallActionView::EnsureDir { path: dir },
            InstallPhase::Extracting => InstallActionView::Extract {
                archive,
                into: dir,
                strip: 1,
            },
            InstallPhase::RemovingArchive => InstallActionView::DeleteFile { path: archive },
            InstallPhase::Installed => InstallActionView::Finish(Ok(InstallOutcome::SourceReady)),
            InstallPhase::AlreadyInstalled { compiled } => InstallActionView::Finish(
                Ok(InstallOutcome::AlreadyInstalled { compiled }),
            ),
            InstallPhase::Failed(error) => InstallActionView::Finish(Err(error)),
        }
    }

    /// The state after the caller has reported `events`, one after the
    /// other.
    pub open spec fn run(self, events: Seq<InstallEvent>) -> Installation
        decreases events.len(),
    {
        if events.len() == 0 {
            self
        } else {
            self.run(events.drop_last()).advance_spec(events.last())
        }
    }

    /// Begins the installation of `version` below the installation root
    /// `root`, unless `version` cannot name a release.
    pub fn begin(platform: Platform, root: &str, version: &str) -> (r: Result<Installation, Error>)
        ensures
            is_plausible(version@) ==> r is Ok,
            version@.contains('.') && has_digit(version@) ==> r is Ok,
            !is_plausible(version@) ==> r == Err::<Installation, Error>(
                Error::InvalidVersionFormat,
            ),
            r is Ok ==> {
                &&& r->Ok_0.platform == platform
                &&& r->Ok_0.root@ == root@
                &&& r->Ok_0.version@ == version@
                &&& r->Ok_0.phase == InstallPhase::PreparingRoot
            },
    {
        match validate(version) {
            Err(error) => Err(error),
            Ok(()) => Ok(
                Installation {
                    platform,
                    root: String::from_str(root),
                    version: String::from_str(version),
                    phase: InstallPhase::PreparingRoot,
                },
            ),
        }
    }

    /// Moves on after the caller has reported `event`.
    pub fn advance(self, event: InstallEvent) -> (r: Installation)
        ensures
            r == self.advance_spec(event),
    {
        let phase = step(self.phase, event);
        Installation { platform: self.platform, root: self.root, version: self.version, phase }
    }

    /// The action that the installation waits for.
    pub fn pending(&self) -> (r: InstallAction)
        ensures
            r@ == self.pending_spec(),
    {
        let root = self.root.as_str();
        let version = self.version.as_str();
        match self.phase {
            InstallPhase::PreparingRoot => InstallAction::EnsureDir {
                path: String::from_str(root),
            },
            InstallPhase::Inspecting => InstallAction::Inspect {
                dir: version_dir(self.platform, root, version),
                binary: binary_path(self.platform, root, version),
            },
            InstallPhase::Downloading => InstallAction::Download {
                url: download_url(version),
                to: archive_path(self.platform, root, version),
                timeout: DOWNLOAD_TIMEOUT,
            },
            InstallPhase::CleaningUp => InstallAction::DeleteFile {
                path: archive_path(self.platform, root, version),
            },
            InstallPhase::CreatingDir => InstallAction::EnsureDir {
                path: version_dir(self.platform, root, version),
            },
            InstallPhase::Extracting => InstallAction::Extract {
                archive: archive_path(self.platform, root, version),
                into: version_dir(self.platform, root, version),
                strip: 1,
            },
            InstallPhase::RemovingArchive => InstallAction::DeleteFile {
                path: archive_path(self.platform, root, version),
            },
            InstallPhase::Installed => InstallAction::Finish(Ok(InstallOutcome::SourceReady)),
            InstallPhase::AlreadyInstalled { compiled } => InstallAction::Finish(
                Ok(InstallOutcome::AlreadyInstalled { compiled }),
            ),
            InstallPhase::Failed(error) => InstallAction::Finish(Err(error)),
        }
    }

    /// Whether the installation has ended.
    pub fn is_finished(&self) -> (r: bool)
        ensures
            r == self.is_final(),
    {
        match self.phase {
            InstallPhase::Installed => true,
            InstallPhase::AlreadyInstalled { .. } => true,
            InstallPhase::Failed(_) => true,
            _ => false,
        }
    }
}

/// The phase that follows `phase` when `event` is reported.
///
/// A directory that is there already ends the installation at once: what it
/// holds is not looked at. A download that failed is cleaned up before the
/// failure is reported, whether or not the removal finds anything. A failed
/// extraction leaves the archive where it is.
pub open spec fn next_phase(phase: InstallPhase, event: InstallEvent) -> InstallPhase {
    match (phase, event) {
        (InstallPhase::PreparingRoot, InstallEvent::DirReady { ok }) => if ok {
            InstallPhase::Inspecting
        } else {
            InstallPhase::Failed(Error::StorageFailure)
        },
        (InstallPhase::Inspecting, InstallEvent::Inspected { dir_exists, binary_exists }) => {
            if dir_exists {
                InstallPhase::AlreadyInstalled { compiled: binary_exists }
            } else {
                InstallPhase::Downloading
            }
        },
        (InstallPhase::Downloading, InstallEvent::Downloaded { ok }) => if ok {
            InstallPhase::CreatingDir
        } else {
            InstallPhase::CleaningUp
        },
        (InstallPhase::CleaningUp, InstallEvent::FileRemoved { .. }) => InstallPhase::Failed(
            Error::NetworkFailure,
        ),
        (InstallPhase::CreatingDir, InstallEvent::DirReady { ok }) => if ok {
            InstallPhase::Extracting
        } else {
            InstallPhase::Failed(Error::StorageFailure)
        },
        (InstallPhase::Extracting, InstallEvent::Extracted { ok }) => if ok {
            InstallPhase::RemovingArchive
        } else {
            InstallPhase::Failed(Error::ExtractionFailed)
        },
        (InstallPhase::RemovingArchive, InstallEvent::FileRemoved { ok }) => if ok {
            InstallPhase::Installed
        } else {
            InstallPhase::Failed(Error::StorageFailure)
        },
        _ => phase,
    }
}

/// The options with which the sources are configured, behind the two that
/// name a place.
pub open spec fn configure_options() -> Seq<char> {
    " --enable-mbstring --enable-zip --with-curl --with-openssl --with-zlib --enable-soap"@
}

/// The commands that build the binary from the sources unpacked in `dir`:
/// go there, configure, compile, install. They are the user's to run.
pub open spec fn build_steps_of(dir: Seq<char>) -> Seq<Seq<char>> {
    seq![
        "cd "@ + dir,
        "./configure --prefix="@ + dir + "/bin --with-config-file-path="@ + dir + "/etc"@
            + configure_options(),
        "make -j$(nproc)"@,
        "make install"@,
    ]
}

/// The commands that build the binary from the sources unpacked in
/// `source_dir`.
pub fn build_steps(source_dir: &str) -> (r: Vec<String>)
    ensures
        strings(r@) == build_steps_of(source_dir@),
{
    let enter = String::from_str("cd ").concat(source_dir);
    let mut configure = String::from_str("./configure --prefix=");
    configure.append(source_dir);
    configure.append("/bin --with-config-file-path=");
    configure.append(source_dir);
    configure.append("/etc");
    configure.append(
        " --enable-mbstring --enable-zip --with-curl --with-openssl --with-zlib --enable-soap",
    );
    let mut steps: Vec<String> = Vec::new();
    steps.push(enter);
    steps.push(configure);
    steps.push(String::from_str("make -j$(nproc)"));
    steps.push(String::from_str("make install"));
    steps
}

/// Accepts `version` where it may name a release: it holds a dot and a
/// number character. A text with a dot and a decimal digit is accepted, one
/// without a dot is not.
pub fn validate(version: &str) -> (r: Result<(), Error>)
    ensures
        r == (if is_plausible(version@) {
            Ok::<(), Error>(())
        } else {
            Err::<(), Error>(Error::InvalidVersionFormat)
        }),
        version@.contains('.') && has_digit(version@) ==> r is Ok,
{
    let chars = chars_of(version);
    if looks_like_version(chars.as_slice()) {
        Ok(())
    } else {
        Err(Error::InvalidVersionFormat)
    }
}

/// The phase that follows `phase` when `event` is reported.
pub fn step(phase: InstallPhase, event: InstallEvent) -> (r: InstallPhase)
    ensures
        r == next_phase(phase, event),
{
    match (phase, event) {
        (InstallPhase::PreparingRoot, InstallEvent::DirReady { ok }) => if ok {
            InstallPhase::Inspecting
        } else {
            InstallPhase::Failed(Error::StorageFailure)
        },
        (InstallPhase::Inspecting, InstallEvent::Inspected { dir_exists, binary_exists }) => {
            if dir_exists {
                InstallPhase::AlreadyInstalled { compiled: binary_exists }
            } else {
                InstallPhase::Downloading
            }
        },
        (InstallPhase::Downloading, InstallEvent::Downloaded { ok }) => if ok {
            InstallPhase::CreatingDir
        } else {
            InstallPhase::CleaningUp
        },
        (InstallPhase::CleaningUp, InstallEvent::FileRemoved { .. }) => InstallPhase::Failed(
            Error::NetworkFailure,
        ),
        (InstallPhase::CreatingDir, InstallEvent::DirReady { ok }) => if ok {
            InstallPhase::Extracting
        } else {
            InstallPhase::Failed(Error::StorageFailure)
        },
        (InstallPhase::Extracting, InstallEvent::Extracted { ok }) => if ok {
            InstallPhase::RemovingArchive
        } else {
            InstallPhase::Failed(Error::ExtractionFailed)
        },
        (InstallPhase::RemovingArchive, InstallEvent::FileRemoved { ok }) => if ok {
            InstallPhase::Installed
        } else {
            InstallPhase::Failed(Error::StorageFailure)
        },
        _ => phase,
    }
}

/// Once the installation has ended, no report changes its state.
pub proof fn lemma_final_stays(s: Installation, events: Seq<InstallEvent>)
    requires
        s.is_final(),
    ensures
        s.run(events) == s,
    decreases events.len(),
{
    if events.len() > 0 {
        lemma_final_stays(s, events.drop_last());
    }
}

/// Every report that answers the pending action brings the end nearer, and
/// every other report changes nothing: a caller that carries out what is
/// pending and reports it reaches the end after six reports at most.
pub proof fn lemma_every_answer_is_progress(s: Installation, event: InstallEvent)
    ensures
        event.answers(s.phase) ==> s.advance_spec(event).phase.steps_left() < s.phase.steps_left(),
        !event.answers(s.phase) ==> s.advance_spec(event) == s,
        s.is_final() <==> s.phase.steps_left() == 0,
{
}

/// Installing a version whose directory is there already fetches nothing
/// and changes no file: the root is made sure of, the directory is looked
/// at, and the installation ends, whatever is reported afterwards.
pub proof fn lemma_second_install_changes_nothing(
    begun: Installation,
    compiled: bool,
    later: Seq<InstallEvent>,
)
    requires
        begun.phase == InstallPhase::PreparingRoot,
    ensures
        ({
            let looking = begun.advance_spec(InstallEvent::DirReady { ok: true });
            let found = looking.advance_spec(
                InstallEvent::Inspected { dir_exists: true, binary_exists: compiled },
            );
            &&& !begun.pending_spec().changes_files()
            &&& !looking.pending_spec().changes_files()
            &&& found.run(later).pending_spec() == InstallActionView::Finish(
                Ok(InstallOutcome::AlreadyInstalled { compiled }),
            )
        }),
{
    let looking = begun.advance_spec(InstallEvent::DirReady { ok: true });
    let found = looking.advance_spec(
        InstallEvent::Inspected { dir_exists: true, binary_exists: compiled },
    );
    lemma_final_stays(found, later);
}

/// A download that failed is followed by the removal of the archive, and
/// only then by the report of the failure, whether or not there was
/// anything to remove.
pub proof fn lemma_failed_download_is_cleaned_up(s: Installation, removed: bool)
    requires
        s.phase == InstallPhase::Downloading,
    ensures
        ({
            let failed = s.advance_spec(InstallEvent::Downloaded { ok: false });
            &&& failed.pending_spec() == InstallActionView::DeleteFile {
                path: archive_path_of(s.platform, s.root@, s.version@),
            }
            &&& failed.advance_spec(InstallEvent::FileRemoved { ok: removed }).pending_spec()
                == InstallActionView::Finish(Err(Error::NetworkFailure))
        }),
{
}

} // verus!
