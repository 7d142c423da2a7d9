//! The version repository: which versions are installed below the
//! installation root, and which of them the global pointer names.

use vstd::prelude::*;
use crate::error::Error;
use crate::layout::{
    binary_path_of, binary_suffix, lemma_binary_path_tells_versions_apart, version_dir,
    version_dir_of, Platform,
};
use crate::sorting::{
    is_sorted, lemma_stable_sort_is_permutation, lemma_stable_sort_is_sorted, sort, stable_sort,
    SortOrder,
};
use crate::text::{chars_of, copy_range, starts_with, strings, texts, to_strings};

verus! {

/// One entry of the installation root, as a directory scan reports it.
#[derive(Debug, PartialEq, Eq)]
pub struct DirEntry {
    /// The entry's name, without the path that leads to it.
    pub name: String,
    /// The entry is a directory.
    pub is_dir: bool,
}

/// What a scan of the installation root gave.
#[derive(Debug, PartialEq, Eq)]
pub enum RootScan {
    /// There is no installation root.
    Absent,
    /// The installation root is there, but could not be read.
    Unreadable,
    /// The entries of the installation root, in any order.
    Entries(Vec<DirEntry>),
}

/// The versions found below the installation root.
#[derive(Debug, PartialEq, Eq)]
pub enum Inventory {
    /// There is no installation root, hence no version.
    NoRoot,
    /// The versions below the root, in dictionary order.
    Versions(Vec<String>),
}

/// How far a version has come.
#[derive(Clone, Copy, Debug, PartialEq, Eq, Structural)]
pub enum Lifecycle {
    /// The version has no directory.
    Uninstalled,
    /// The sources are unpacked; there is no binary.
    SourceOnly,
    /// The binary is there.
    Compiled,
    /// The binary is there and the global pointer names it.
    Active,
}

/// An installed version.
#[derive(Debug, PartialEq, Eq)]
pub struct InstalledVersion {
    /// The version, as the name of its directory gives it.
    pub version: String,
    /// The version's directory.
    pub install_path: String,
    /// The binary is in its place below the directory.
    pub has_binary: bool,
}

/// A version with the state in which it was found.
#[derive(Debug, PartialEq, Eq)]
pub struct Listed {
    pub version: String,
    pub state: Lifecycle,
}

/// The entry is the directory of a version: a directory whose name begins
/// with `php-`.
pub open spec fn is_version_dir(entry: DirEntry) -> bool {
    entry.is_dir && "php-"@.is_prefix_of(entry.name@)
}

/// The version that a directory's name gives: the name without its first
/// four characters. It is taken as it stands.
pub open spec fn version_named(name: Seq<char>) -> Seq<char> {
    name.skip(4)
}

/// The versions of the directories among `entries`, in the order of the
/// entries.
pub open spec fn versions_in(entries: Seq<DirEntry>) -> Seq<Seq<char>>
    decreases entries.len(),
{
    if entries.len() == 0 {
        Seq::<Seq<char>>::empty()
    } else {
        let before = versions_in(entries.drop_last());
        if is_version_dir(entries.last()) {
            before.push(version_named(entries.last().name@))
        } else {
            before
        }
    }
}

/// The installed versions that `entries` show, in dictionary order.
pub open spec fn installed_of(entries: Seq<DirEntry>) -> Seq<Seq<char>> {
    stable_sort(SortOrder::Lexicographic, versions_in(entries))
}

/// What the repository holds after the scan `scan`.
pub open spec fn inventory_of(scan: RootScan, result: Result<Inventory, Error>) -> bool {
    match scan {
        RootScan::Absent => result == Ok::<Inventory, Error>(Inventory::NoRoot),
        RootScan::Unreadable => result == Err::<Inventory, Error>(Error::StorageFailure),
        RootScan::Entries(entries) => {
            &&& result is Ok
            &&& result->Ok_0 is Versions
            &&& strings(result->Ok_0->Versions_0@) == installed_of(entries@)
            &&& is_sorted(SortOrder::Lexicographic, strings(result->Ok_0->Versions_0@))
        },
    }
}

impl InstalledVersion {
    /// The entry is the one of its version below `root`.
    pub open spec fn wf(self, platform: Platform, root: Seq<char>) -> bool {
        self.install_path@ == version_dir_of(platform, root, self.version@)
    }

    /// The place of the entry's binary.
    pub open spec fn binary(self, platform: Platform) -> Seq<char> {
        self.install_path@ + binary_suffix(platform)
    }

    /// The global pointer, resolved to `pointer`, names the binary of this
    /// entry: the binary is there and the pointer's target is its path,
    /// character for character.
    pub open spec fn is_active(self, platform: Platform, pointer: Option<Seq<char>>) -> bool {
        self.has_binary && pointer == Some(self.binary(platform))
    }

    /// The state of the entry under the pointer `pointer`.
    pub open spec fn lifecycle(self, platform: Platform, pointer: Option<Seq<char>>) -> Lifecycle {
        if self.is_active(platform, pointer) {
            Lifecycle::Active
        } else if self.has_binary {
            Lifecycle::Compiled
        } else {
            Lifecycle::SourceOnly
        }
    }

    /// The entry of `version` below `root`.
    pub fn new(platform: Platform, root: &str, version: &str, has_binary: bool) -> (r:
        InstalledVersion)
        ensures
            r.wf(platform, root@),
            r.version@ == version@,
            r.has_binary == has_binary,
    {
        InstalledVersion {
            version: String::from_str(version),
            install_path: version_dir(platform, root, version),
            has_binary,
        }
    }

    /// The place of the entry's binary.
    pub fn binary_path(&self, platform: Platform) -> (r: String)
        ensures
            r@ == self.binary(platform),
    {
        let mut out = self.install_path.clone();
        match platform {
            Platform::Unix => out.append("/bin/php"),
            Platform::Windows => out.append("\\php.exe"),
        }
        out
    }

    /// Whether the global pointer, resolved to `pointer`, names the binary
    /// of this entry.
    pub fn is_active_under(&self, platform: Platform, pointer: &Option<String>) -> (r: bool)
        ensures
            r == self.is_active(platform, pointer_view(*pointer)),
    {
        match pointer {
            None => false,
            Some(target) => {
                if !self.has_binary {
                    return false;
                }
                let binary = self.binary_path(platform);
                binary == *target
            },
        }
    }

    /// The state of the entry under the pointer `pointer`.
    pub fn state_under(&self, platform: Platform, pointer: &Option<String>) -> (r: Lifecycle)
        ensures
            r == self.lifecycle(platform, pointer_view(*pointer)),
    {
        if self.is_active_under(platform, pointer) {
            Lifecycle::Active
        } else if self.has_binary {
            Lifecycle::Compiled
        } else {
            Lifecycle::SourceOnly
        }
    }
}

/// The target of the pointer as a character sequence.
pub open spec fn pointer_view(pointer: Option<String>) -> Option<Seq<char>> {
    match pointer {
        Some(target) => Some(target@),
        None => None,
    }
}

/// The sorted list of installed versions is in dictionary order and holds
/// the version of every version directory as often as the scan shows it.
pub proof fn lemma_installed_in_order(entries: Seq<DirEntry>)
    ensures
        is_sorted(SortOrder::Lexicographic, installed_of(entries)),
        installed_of(entries).to_multiset() == versions_in(entries).to_multiset(),
{
    lemma_stable_sort_is_sorted(SortOrder::Lexicographic, versions_in(entries));
    lemma_stable_sort_is_permutation(SortOrder::Lexicographic, versions_in(entries));
}

/// While the pointer names the binary of the version `x`, the repository
/// finds `x` active, and no entry of another version.
pub proof fn lemma_one_version_active(
    platform: Platform,
    root: Seq<char>,
    x: InstalledVersion,
    y: InstalledVersion,
)
    requires
        x.wf(platform, root),
        y.wf(platform, root),
        x.has_binary,
    ensures
        x.is_active(platform, Some(binary_path_of(platform, root, x.version@))),
        y.version@ != x.version@ ==> !y.is_active(
            platform,
            Some(binary_path_of(platform, root, x.version@)),
        ),
{
    if y.binary(platform) == x.binary(platform) {
        lemma_binary_path_tells_versions_apart(platform, root, x.version@, y.version@);
    }
}

/// The versions of the version directories among `entries`, in the order
/// of the entries.
pub fn version_dirs(entries: &Vec<DirEntry>) -> (r: Vec<Vec<char>>)
    ensures
        texts(r@) == versions_in(entries@),
{
    let marker = chars_of("php-");
    proof {
        reveal_strlit("php-");
    }
    let mut out: Vec<Vec<char>> = Vec::new();
    let mut i: usize = 0;
    while i < entries.len()
        invariant
            i <= entries.len(),
            marker@ == "php-"@,
            marker@.len() == 4,
            texts(out@) == versions_in(entries@.take(i as int)),
        decreases entries.len() - i,
    {
        let ghost next = entries@.take(i + 1);
        assert(next.drop_last() =~= entries@.take(i as int));
        if entries[i].is_dir {
            let name = chars_of(entries[i].name.as_str());
            if starts_with(name.as_slice(), marker.as_slice()) {
                let version = copy_range(name.as_slice(), 4, name.len());
                out.push(version);
            }
        }
        i += 1;
    }
    assert(entries@.take(entries.len() as int) =~= entries@);
    out
}

/// The installed versions that a scan of the installation root shows, in
/// dictionary order. A missing root means that nothing is installed; a root
/// that cannot be read is a failure.
pub fn installed_versions(scan: &RootScan) -> (r: Result<Inventory, Error>)
    ensures
        inventory_of(*scan, r),
{
    match scan {
        RootScan::Absent => Ok(Inventory::NoRoot),
        RootScan::Unreadable => Err(Error::StorageFailure),
        RootScan::Entries(entries) => {
            let found = version_dirs(entries);
            let sorted = sort(found, SortOrder::Lexicographic);
            proof {
                lemma_installed_in_order(entries@);
            }
            Ok(Inventory::Versions(to_strings(&sorted)))
        },
    }
}

/// The installed versions with their states, in the order of `entries`.
/// Every entry whose binary the pointer names is reported active, be it one
/// or several.
pub fn list_installed_versions(
    platform: Platform,
    entries: &Vec<InstalledVersion>,
    pointer: &Option<String>,
) -> (r: Vec<Listed>)
    ensures
        r@.len() == entries@.len(),
        forall|i: int|
            0 <= i < r@.len() ==> (#[trigger] r@[i]).version@ == entries@[i].version@ && r@[i].state
                == entries@[i].lifecycle(platform, pointer_view(*pointer)),
{
    let mut out: Vec<Listed> = Vec::new();
    let mut i: usize = 0;
    while i < entries.len()
        invariant
            i <= entries.len(),
            out@.len() == i,
            forall|k: int|
                0 <= k < i ==> (#[trigger] out@[k]).version@ == entries@[k].version@
                    && out@[k].state == entries@[k].lifecycle(platform, pointer_view(*pointer)),
        decreases entries.len() - i,
    {
        let state = entries[i].state_under(platform, pointer);
        out.push(Listed { version: entries[i].version.clone(), state });
        i += 1;
    }
    out
}

} // verus!
