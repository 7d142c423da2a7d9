//! Where things are kept: the installation root, one directory per version
//! below it, the binary inside a version's directory, the downloaded
//! archive, and the global pointer that names the active binary.

use vstd::prelude::*;

verus! {

/// The family of systems the manager runs on. It decides the separator of
/// path components, the place of the binary and the kind of pointer.
#[derive(Clone, Copy, Debug, PartialEq, Eq, Structural)]
pub enum Platform {
    /// The pointer is a symbolic link.
    Unix,
    /// The pointer is the first entry of the user's search path.
    Windows,
}

/// The seconds after which the fetch of the releases listing is given up.
pub const LISTING_TIMEOUT: u32 = 30;

/// The seconds after which the download of a source archive is given up.
pub const DOWNLOAD_TIMEOUT: u32 = 300;

/// The separator of path components.
pub open spec fn separator(platform: Platform) -> Seq<char> {
    match platform {
        Platform::Unix => "/"@,
        Platform::Windows => "\\"@,
    }
}

/// The name of the root directory below the user's base directory.
pub open spec fn root_name(platform: Platform) -> Seq<char> {
    match platform {
        Platform::Unix => ".palawija"@,
        Platform::Windows => "palawija"@,
    }
}

/// The binary's place below a version's directory.
pub open spec fn binary_suffix(platform: Platform) -> Seq<char> {
    match platform {
        Platform::Unix => "/bin/php"@,
        Platform::Windows => "\\php.exe"@,
    }
}

/// The installation root below the user's base directory `base`.
pub open spec fn install_root_of(platform: Platform, base: Seq<char>) -> Seq<char> {
    base + separator(platform) + root_name(platform)
}

/// The name of the directory of `version`.
pub open spec fn dir_name_of(version: Seq<char>) -> Seq<char> {
    "php-"@ + version
}

/// The directory of `version` below `root`.
pub open spec fn version_dir_of(platform: Platform, root: Seq<char>, version: Seq<char>) -> Seq<
    char,
> {
    root + separator(platform) + dir_name_of(version)
}

/// The binary of `version` below `root`.
pub open spec fn binary_path_of(platform: Platform, root: Seq<char>, version: Seq<char>) -> Seq<
    char,
> {
    version_dir_of(platform, root, version) + binary_suffix(platform)
}

/// The name of the source archive of `version`.
pub open spec fn archive_name_of(version: Seq<char>) -> Seq<char> {
    "php-"@ + version + ".tar.gz"@
}

/// Where the source archive of `version` is kept while it is installed.
pub open spec fn archive_path_of(platform: Platform, root: Seq<char>, version: Seq<char>) -> Seq<
    char,
> {
    root + separator(platform) + archive_name_of(version)
}

/// The address from which the source archive of `version` is fetched.
pub open spec fn download_url_of(version: Seq<char>) -> Seq<char> {
    "https://www.php.net/distributions/"@ + archive_name_of(version)
}

/// The address of the releases listing.
pub open spec fn releases_url_spec() -> Seq<char> {
    "https://www.php.net/releases/"@
}

/// The path of the global pointer on Unix.
pub open spec fn pointer_path_spec() -> Seq<char> {
    "/usr/local/bin/php"@
}

/// Two texts between the same head and the same tail are the same text.
pub proof fn lemma_same_frame_same_text(
    head: Seq<char>,
    a: Seq<char>,
    b: Seq<char>,
    tail: Seq<char>,
)
    requires
        head + a + tail == head + b + tail,
    ensures
        a == b,
{
    let x = head + a + tail;
    assert(x.len() == head.len() + a.len() + tail.len());
    assert forall|i: int| 0 <= i < a.len() implies a[i] == b[i] by {
        assert(x[head.len() + i] == a[i]);
    }
}

/// Different versions have different binaries below one root.
pub proof fn lemma_binary_path_tells_versions_apart(
    platform: Platform,
    root: Seq<char>,
    a: Seq<char>,
    b: Seq<char>,
)
    requires
        binary_path_of(platform, root, a) == binary_path_of(platform, root, b),
    ensures
        a == b,
{
    let head = root + separator(platform) + "php-"@;
    let tail = binary_suffix(platform);
    assert(binary_path_of(platform, root, a) =~= head + a + tail);
    assert(binary_path_of(platform, root, b) =~= head + b + tail);
    lemma_same_frame_same_text(head, a, b, tail);
}

/// Different versions have different directories below one root.
pub proof fn lemma_version_dir_tells_versions_apart(
    platform: Platform,
    root: Seq<char>,
    a: Seq<char>,
    b: Seq<char>,
)
    requires
        version_dir_of(platform, root, a) == version_dir_of(platform, root, b),
    ensures
        a == b,
{
    let head = root + separator(platform) + "php-"@;
    let tail = Seq::<char>::empty();
    assert(version_dir_of(platform, root, a) =~= head + a + tail);
    assert(version_dir_of(platform, root, b) =~= head + b + tail);
    lemma_same_frame_same_text(head, a, b, tail);
}

/// The separator of path components.
pub fn path_separator(platform: Platform) -> (r: &'static str)
    ensures
        r@ == separator(platform),
{
    match platform {
        Platform::Unix => "/",
        Platform::Windows => "\\",
    }
}

/// The installation root below the user's base directory: the home
/// directory on Unix, the application-data directory on Windows.
pub fn install_root(platform: Platform, base: &str) -> (r: String)
    ensures
        r@ == install_root_of(platform, base@),
{
    let mut out = String::from_str(base);
    out.append(path_separator(platform));
    match platform {
        Platform::Unix => out.append(".palawija"),
        Platform::Windows => out.append("palawija"),
    }
    out
}

/// The name of the directory of `version`.
pub fn dir_name(version: &str) -> (r: String)
    ensures
        r@ == dir_name_of(version@),
{
    let mut out = String::from_str("php-");
    out.append(version);
    out
}

/// The directory of `version` below `root`.
pub fn version_dir(platform: Platform, root: &str, version: &str) -> (r: String)
    ensures
        r@ == version_dir_of(platform, root@, version@),
{
    let mut out = String::from_str(root);
    out.append(path_separator(platform));
    out.append(dir_name(version).as_str());
    out
}

/// The binary of `version` below `root`.
pub fn binary_path(platform: Platform, root: &str, version: &str) -> (r: String)
    ensures
        r@ == binary_path_of(platform, root@, version@),
{
    let mut out = version_dir(platform, root, version);
    match platform {
        Platform::Unix => out.append("/bin/php"),
        Platform::Windows => out.append("\\php.exe"),
    }
    out
}

/// Where the source archive of `version` is kept while it is installed.
pub fn archive_path(platform: Platform, root: &str, version: &str) -> (r: String)
    ensures
        r@ == archive_path_of(platform, root@, version@),
{
    let mut out = String::from_str(root);
    out.append(path_separator(platform));
    out.append("php-");
    out.append(version);
    out.append(".tar.gz");
    out
}

/// The address from which the source archive of `version` is fetched.
pub fn download_url(version: &str) -> (r: String)
    ensures
        r@ == download_url_of(version@),
{
    let mut out = String::from_str("https://www.php.net/distributions/");
    out.append("php-");
    out.append(version);
    out.append(".tar.gz");
    out
}

/// The address of the releases listing.
pub fn releases_url() -> (r: String)
    ensures
        r@ == releases_url_spec(),
{
    String::from_str("https://www.php.net/releases/")
}

/// The path of the global pointer on Unix.
pub fn pointer_path() -> (r: String)
    ensures
        r@ == pointer_path_spec(),
{
    String::from_str("/usr/local/bin/php")
}

} // verus!
