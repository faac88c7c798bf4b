//! Where the SDKs live on disk and where they are downloaded from.
//!
//! All directories are derived from the home directory of the user. Paths
//! are held as strings and joined as `std::path::Path::join` joins them.

use crate::shell::Shell;
use crate::text::{chars_of, joined, push_chars, split, split_on, string_of, views};
use crate::version::Version;
use vstd::prelude::*;

verus! {

/// The path that `std::path::Path::join` makes of the path `base` and the
/// path `part`, as text. The rules of joining are those of the system
/// that the code is built for.
pub uninterp spec fn path_joined(base: Seq<char>, part: Seq<char>) -> Seq<char>;

/// Joins two paths with `std::path::Path::join`. The result is a function
/// of the two paths alone; nothing more is claimed of it.
#[verifier::external_body]
pub(crate) fn join_path(base: &str, part: &str) -> (path: String)
    ensures
        path@ == path_joined(base@, part@),
{
    std::path::Path::new(base).join(part).to_string_lossy().into_owned()
}

/// The working directory below the home directory `home`.
pub open spec fn work_dir(home: Seq<char>) -> Seq<char> {
    path_joined(path_joined(home, ".local"@), "goup"@)
}

/// The directory that holds the installed SDKs.
pub open spec fn installations_dir(home: Seq<char>) -> Seq<char> {
    path_joined(work_dir(home), "installations"@)
}

/// The link to the directory of the selected SDK.
pub open spec fn current_link_dir(home: Seq<char>) -> Seq<char> {
    path_joined(work_dir(home), "current"@)
}

/// The directory of the files of the selected SDK.
pub open spec fn current_install_dir(home: Seq<char>) -> Seq<char> {
    path_joined(current_link_dir(home), "go"@)
}

/// The directory of the binaries of the selected SDK.
pub open spec fn current_bin_dir(home: Seq<char>) -> Seq<char> {
    path_joined(current_install_dir(home), "bin"@)
}

/// Returns the working directory, which holds all status files, the
/// installed SDKs and the link to the selected SDK: for the home directory
/// `/home/me` it is `/home/me/.local/goup`.
pub fn get_work_dir(home: &str) -> (dir: String)
    ensures
        dir@ == work_dir(home@),
{
    let local = join_path(home, ".local");
    join_path(local.as_str(), "goup")
}

/// Returns the directory that holds all installed SDK versions,
/// `installations` in the working directory.
pub fn get_installations_dir(home: &str) -> (dir: String)
    ensures
        dir@ == installations_dir(home@),
{
    let work = get_work_dir(home);
    join_path(work.as_str(), "installations")
}

/// Returns the path of the link that points to the selected SDK version,
/// `current` in the working directory.
pub fn get_current_link_dir(home: &str) -> (dir: String)
    ensures
        dir@ == current_link_dir(home@),
{
    let work = get_work_dir(home);
    join_path(work.as_str(), "current")
}

/// Returns the directory of the files of the selected SDK, `go` below the
/// link.
pub fn get_current_install_dir(home: &str) -> (dir: String)
    ensures
        dir@ == current_install_dir(home@),
{
    let link = get_current_link_dir(home);
    join_path(link.as_str(), "go")
}

/// Returns the directory of the binaries of the selected SDK, `bin` in its
/// files.
pub fn get_current_bin_dir(home: &str) -> (dir: String)
    ensures
        dir@ == current_bin_dir(home@),
{
    let install = get_current_install_dir(home);
    join_path(install.as_str(), "bin")
}

/// Returns the directory of the installed SDK of the given version: the
/// directory in the installations directory that is named by the text of
/// the version.
pub fn get_version_installation_dir(home: &str, version: &Version) -> (dir: String)
    ensures
        dir@ == path_joined(installations_dir(home@), version.text()),
{
    let installations = get_installations_dir(home);
    let name = version.to_string();
    join_path(installations.as_str(), name.as_str())
}

/// Returns the path of the file that records the selected version,
/// `.current_version` in the working directory.
pub fn get_current_version_file(home: &str) -> (file: String)
    ensures
        file@ == path_joined(work_dir(home@), ".current_version"@),
{
    let work = get_work_dir(home);
    join_path(work.as_str(), ".current_version")
}

/// Returns the profile file of a user whose shell is not known: `.zshenv`
/// in the home directory if that file exists, else `.profile`.
pub fn get_profile_dir(home: &str, zshenv_exists: bool) -> (file: String)
    ensures
        file@ == if zshenv_exists {
            path_joined(home@, ".zshenv"@)
        } else {
            path_joined(home@, ".profile"@)
        },
{
    if zshenv_exists {
        join_path(home, ".zshenv")
    } else {
        join_path(home, ".profile")
    }
}

/// The systems for which SDK archives are offered.
#[derive(Debug, Clone, Copy, PartialEq, Eq, Structural)]
pub enum Platform {
    LinuxAmd64,
    Linux386,
    LinuxArm64,
    DarwinAmd64,
    Darwin386,
    DarwinArm64,
    WindowsAmd64,
    Windows386,
}

impl Platform {
    /// The end of the name of the archive for the platform: the system,
    /// the architecture and the kind of archive.
    pub open spec fn spec_archive_suffix(&self) -> &'static str {
        match self {
            Platform::LinuxAmd64 => "linux-amd64.tar.gz",
            Platform::Linux386 => "linux-386.tar.gz",
            Platform::LinuxArm64 => "linux-arm64.tar.gz",
            Platform::DarwinAmd64 => "darwin-amd64.tar.gz",
            Platform::Darwin386 => "darwin-386.tar.gz",
            Platform::DarwinArm64 => "darwin-arm64.tar.gz",
            Platform::WindowsAmd64 => "windows-amd64.zip",
            Platform::Windows386 => "windows-386.zip",
        }
    }

    /// Returns the end of the name of the archive for the platform, such
    /// as `linux-amd64.tar.gz`.
    #[verifier::when_used_as_spec(spec_archive_suffix)]
    pub fn archive_suffix(&self) -> (suffix: &'static str)
        ensures
            suffix == self.spec_archive_suffix(),
    {
        match self {
            Platform::LinuxAmd64 => "linux-amd64.tar.gz",
            Platform::Linux386 => "linux-386.tar.gz",
            Platform::LinuxArm64 => "linux-arm64.tar.gz",
            Platform::DarwinAmd64 => "darwin-amd64.tar.gz",
            Platform::Darwin386 => "darwin-386.tar.gz",
            Platform::DarwinArm64 => "darwin-arm64.tar.gz",
            Platform::WindowsAmd64 => "windows-amd64.zip",
            Platform::Windows386 => "windows-386.zip",
        }
    }

    /// Whether the platform is a Windows system.
    pub open spec fn spec_is_windows(&self) -> bool {
        *self == Platform::WindowsAmd64 || *self == Platform::Windows386
    }

    /// Returns true for the Windows platforms.
    #[verifier::when_used_as_spec(spec_is_windows)]
    pub fn is_windows(&self) -> (r: bool)
        ensures
            r == self.spec_is_windows(),
    {
        matches!(self, Platform::WindowsAmd64 | Platform::Windows386)
    }
}

/// The address of the archive of a version for a platform.
pub open spec fn download_url(v: Version, platform: Platform) -> Seq<char> {
    "https://go.dev/dl/go"@ + v.text() + "."@ + platform.archive_suffix()@
}

/// Returns the Go SDK download URL for the given version and platform,
/// such as `https://go.dev/dl/go1.21.3.linux-amd64.tar.gz`.
pub fn get_download_url(v: &Version, platform: Platform) -> (url: String)
    ensures
        url@ == download_url(*v, platform),
{
    let mut url = String::from_str("https://go.dev/dl/go");
    let version = v.to_string();
    url.append(version.as_str());
    url.append(".");
    url.append(platform.archive_suffix());
    url
}

/// The index behind the last occurrence of `sep` in `s`, or zero where
/// `sep` does not occur.
pub open spec fn after_last(s: Seq<char>, sep: char) -> int
    decreases s.len(),
{
    if s.len() == 0 {
        0
    } else if s.last() == sep {
        s.len() as int
    } else {
        after_last(s.drop_last(), sep)
    }
}

/// What follows the last dot of `url`, or all of `url` where it has no
/// dot.
pub open spec fn url_extension(url: Seq<char>) -> Seq<char> {
    url.skip(after_last(url, '.'))
}

/// The extension of an address is the last of the pieces between its
/// dots.
pub proof fn lemma_url_extension(url: Seq<char>)
    ensures
        0 <= after_last(url, '.') <= url.len(),
        url_extension(url) == split_on(url, '.').last(),
        split_on(url, '.').len() >= 1,
    decreases url.len(),
{
    if url.len() == 0 {
        assert(url.skip(0) =~= Seq::<char>::empty());
    } else if url.last() == '.' {
        assert(url.skip(url.len() as int) =~= Seq::<char>::empty());
        lemma_url_extension(url.drop_last());
    } else {
        let t = url.drop_last();
        lemma_url_extension(t);
        let k = after_last(t, '.');
        assert(url.skip(k) =~= t.skip(k).push(url.last()));
    }
}

/// Returns the extension of an address: what follows its last dot.
pub fn get_url_extension(url: &str) -> (extension: String)
    ensures
        extension@ == url_extension(url@),
{
    let chars = chars_of(url);
    let mut i: usize = chars.len();
    assert(chars@.take(i as int) =~= chars@);
    while i > 0 && chars[i - 1] != '.'
        invariant
            i <= chars.len(),
            after_last(chars@, '.') == after_last(chars@.take(i as int), '.'),
        decreases i,
    {
        assert(chars@.take(i as int).drop_last() =~= chars@.take(i - 1));
        i -= 1;
    }
    let tail = vstd::slice::slice_subrange(chars.as_slice(), i, chars.len());
    string_of(tail)
}

/// How an SDK archive is packed.
#[derive(Debug, Clone, Copy, PartialEq, Eq, Structural)]
pub enum ArchiveKind {
    /// A tar archive compressed with gzip.
    TarGz,
    /// A zip archive.
    Zip,
}

/// The kind of archive that an extension stands for: `gz` and `tgz` for a
/// compressed tar archive, `zip` for a zip archive.
pub open spec fn archive_kind(extension: Seq<char>) -> Option<ArchiveKind> {
    if extension == "gz"@ || extension == "tgz"@ {
        Some(ArchiveKind::TarGz)
    } else if extension == "zip"@ {
        Some(ArchiveKind::Zip)
    } else {
        None
    }
}

/// Returns how the archive at the given address is packed, going by the
/// extension of the address; `None` for an extension that stands for no
/// known kind of archive.
pub fn get_archive_kind(url: &str) -> (kind: Option<ArchiveKind>)
    ensures
        kind == archive_kind(url_extension(url@)),
{
    let extension = get_url_extension(url);
    if extension == String::from_str("gz") || extension == String::from_str("tgz") {
        Some(ArchiveKind::TarGz)
    } else if extension == String::from_str("zip") {
        Some(ArchiveKind::Zip)
    } else {
        None
    }
}

/// The lowercase letter of an uppercase letter of the ASCII alphabet;
/// every other character as it is.
pub open spec fn ascii_lowercase(c: char) -> char {
    if 'A' <= c && c <= 'Z' {
        ((c as int) + 32) as char
    } else {
        c
    }
}

/// The path with every backslash turned into a slash.
pub open spec fn with_slashes(path: Seq<char>) -> Seq<char> {
    path.map_values(
        |c: char|
            if c == '\\' {
                '/'
            } else {
                c
            },
    )
}

/// The path in the style of Git Bash: with slashes for backslashes, and,
/// where it then starts with a drive, a colon and a slash, with `/` and
/// the lowercase drive letter in place of the drive and the colon.
pub open spec fn gitbash_path(path: Seq<char>) -> Seq<char> {
    let p = with_slashes(path);
    if p.len() >= 3 && p[1] == ':' && p[2] == '/' {
        seq!['/', ascii_lowercase(p[0])] + p.skip(2)
    } else {
        p
    }
}

/// The list of paths in the style of Git Bash: the paths between the
/// semicolons of `paths`, each in the style of Git Bash, joined by colons.
pub open spec fn gitbash_path_var(paths: Seq<char>) -> Seq<char> {
    joined(split_on(paths, ';').map_values(|path: Seq<char>| gitbash_path(path)), seq![':'])
}

fn to_ascii_lowercase(c: char) -> (r: char)
    ensures
        r == ascii_lowercase(c),
{
    if c >= 'A' && c <= 'Z' {
        ((c as u8) + 32) as char
    } else {
        c
    }
}

fn gitbash_chars(path: &[char]) -> (r: Vec<char>)
    ensures
        r@ == gitbash_path(path@),
{
    let mut p: Vec<char> = Vec::new();
    let mut i: usize = 0;
    while i < path.len()
        invariant
            i <= path.len(),
            p@ == with_slashes(path@).take(i as int),
        decreases path.len() - i,
    {
        let c = path[i];
        if c == '\\' {
            p.push('/');
        } else {
            p.push(c);
        }
        assert(p@ =~= with_slashes(path@).take(i + 1));
        i += 1;
    }
    assert(p@ =~= with_slashes(path@));
    if p.len() >= 3 && p[1] == ':' && p[2] == '/' {
        let mut r: Vec<char> = Vec::new();
        r.push('/');
        r.push(to_ascii_lowercase(p[0]));
        let mut k: usize = 2;
        while k < p.len()
            invariant
                2 <= k <= p.len(),
                r@ == seq!['/', ascii_lowercase(p@[0])] + p@.subrange(2, k as int),
            decreases p.len() - k,
        {
            r.push(p[k]);
            assert(r@ =~= seq!['/', ascii_lowercase(p@[0])] + p@.subrange(2, k + 1));
            k += 1;
        }
        assert(p@.subrange(2, p.len() as int) =~= p@.skip(2));
        r
    } else {
        p
    }
}

/// Takes a path string and transforms it to a Git Bash style path:
/// `C:\users\foo` becomes `/c/users/foo`, and `users\foo` becomes
/// `users/foo`.
pub fn to_gitbash_path(pth: &str) -> (r: String)
    ensures
        r@ == gitbash_path(pth@),
{
    let chars = chars_of(pth);
    let converted = gitbash_chars(chars.as_slice());
    string_of(converted.as_slice())
}

/// Takes a path concatenation and transforms it to a bash style path
/// concatenation: the paths between the semicolons are each transformed to
/// a Git Bash style path and joined by colons.
pub fn to_gitbash_path_var(curr: &str) -> (r: String)
    ensures
        r@ == gitbash_path_var(curr@),
{
    let chars = chars_of(curr);
    let pieces = split(chars.as_slice(), ';');
    let ghost converted = split_on(curr@, ';').map_values(|path: Seq<char>| gitbash_path(path));
    let mut out = String::new();
    let mut i: usize = 0;
    while i < pieces.len()
        invariant
            i <= pieces.len(),
            views(pieces@) == split_on(curr@, ';'),
            converted == split_on(curr@, ';').map_values(|path: Seq<char>| gitbash_path(path)),
            out@ == joined(converted.take(i as int), seq![':']),
        decreases pieces.len() - i,
    {
        if i > 0 {
            out.push(':');
        }
        let piece = gitbash_chars(pieces[i].as_slice());
        push_chars(&mut out, piece.as_slice());
        proof {
            assert(views(pieces@)[i as int] == pieces@[i as int]@);
            assert(converted.take(i + 1).drop_last() =~= converted.take(i as int));
            assert(converted.take(i + 1).last() == piece@);
        }
        i += 1;
    }
    assert(converted.take(pieces.len() as int) =~= converted);
    out
}

/// The lines that set the variables which the SDK needs: `PATH`, which is
/// the search path `path` extended by the directory `bin_dir` of the
/// binaries of the selected SDK, and `GOROOT`, which is the directory
/// `install_dir` of its files. The directories are written as the shell
/// writes paths.
pub open spec fn env_vars(
    shell: Shell,
    path: Seq<char>,
    bin_dir: Seq<char>,
    install_dir: Seq<char>,
    windows: bool,
) -> Seq<char> {
    shell.setenv_command(
        "PATH"@,
        shell.path_with(path, shell.path_text(bin_dir, windows), windows),
    ) + "\n"@ + shell.setenv_command("GOROOT"@, shell.path_text(install_dir, windows))
}

/// Returns the commands of the shell that set the variables `PATH` and
/// `GOROOT` for an SDK with the given directories, one on each line.
/// `path` is the current value of the variable `PATH`.
pub fn get_env_vars_for(
    shell: &Shell,
    path: &str,
    bin_dir: &str,
    install_dir: &str,
    windows: bool,
) -> (vars: String)
    ensures
        vars@ == env_vars(*shell, path@, bin_dir@, install_dir@, windows),
{
    let bin = shell.path_to_string(bin_dir, windows);
    let new_path = shell.append_to_path(path, bin.as_str(), windows);
    let root = shell.path_to_string(install_dir, windows);

    let mut vars = shell.get_setenv_command("PATH", new_path.as_str());
    let goroot = shell.get_setenv_command("GOROOT", root.as_str());
    vars.append("\n");
    vars.append(goroot.as_str());
    vars
}

/// Returns all required environment variables for the selected SDK of the
/// user with the home directory `home`, as the commands of the shell that
/// set them, one on each line. `path` is the current value of the variable
/// `PATH`.
pub fn get_env_vars(shell: &Shell, path: &str, home: &str, windows: bool) -> (vars: String)
    ensures
        vars@ == env_vars(
            *shell,
            path@,
            current_bin_dir(home@),
            current_install_dir(home@),
            windows,
        ),
{
    let bin_dir = get_current_bin_dir(home);
    let install_dir = get_current_install_dir(home);
    get_env_vars_for(shell, path, bin_dir.as_str(), install_dir.as_str(), windows)
}

} // verus!
