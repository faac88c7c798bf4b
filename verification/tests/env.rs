use goup::env::{
    get_archive_kind, get_current_bin_dir, get_current_install_dir, get_current_link_dir,
    get_current_version_file, get_download_url, get_env_vars, get_env_vars_for,
    get_installations_dir, get_profile_dir, get_url_extension, get_version_installation_dir,
    get_work_dir, to_gitbash_path, to_gitbash_path_var, ArchiveKind, Platform,
};
use goup::shell::Shell;
use goup::version::Version;
use std::path::Path;

fn text(path: &Path) -> String {
    path.to_string_lossy().into_owned()
}

#[test]
fn test_to_gitbash_path() {
    assert_eq!("/c/users/foo/bar", to_gitbash_path(r"C:\users\foo\bar"));
    assert_eq!("/c/users/foo/bar", to_gitbash_path(r"C:/users/foo/bar"));
    assert_eq!("users/foo/bar", to_gitbash_path(r"users\foo\bar"));
}

#[test]
fn gitbash_path_edge_cases() {
    assert_eq!(to_gitbash_path(""), "");
    assert_eq!(to_gitbash_path("C:"), "C:");
    assert_eq!(to_gitbash_path("C:\\"), "/c/");
    assert_eq!(to_gitbash_path("d:/x"), "/d/x");
    assert_eq!(to_gitbash_path("Z:\\a\\b"), "/z/a/b");
    assert_eq!(to_gitbash_path("1:/x"), "/1/x");
    assert_eq!(to_gitbash_path("ab:/x"), "ab:/x");
    assert_eq!(to_gitbash_path("/usr/local"), "/usr/local");
    assert_eq!(to_gitbash_path("\u{c9}:\\x"), "/\u{c9}/x");
    assert_eq!(to_gitbash_path("C:\\caf\u{e9}\\x"), "/c/caf\u{e9}/x");
}

#[test]
fn gitbash_path_var() {
    assert_eq!(
        to_gitbash_path_var(r"C:\a\b;D:\c;rel\d"),
        "/c/a/b:/d/c:rel/d"
    );
    assert_eq!(to_gitbash_path_var(""), "");
    assert_eq!(to_gitbash_path_var(";"), ":");
    assert_eq!(to_gitbash_path_var(r"C:\a;"), "/c/a:");
    assert_eq!(to_gitbash_path_var(r"C:\a"), "/c/a");
}

#[test]
fn directories_lie_below_the_home_directory() {
    let home = Path::new("/home/me");
    let work = home.join(".local").join("goup");
    assert_eq!(get_work_dir("/home/me"), text(&work));
    assert_eq!(
        get_installations_dir("/home/me"),
        text(&work.join("installations"))
    );
    assert_eq!(get_current_link_dir("/home/me"), text(&work.join("current")));
    assert_eq!(
        get_current_install_dir("/home/me"),
        text(&work.join("current").join("go"))
    );
    assert_eq!(
        get_current_bin_dir("/home/me"),
        text(&work.join("current").join("go").join("bin"))
    );
    assert_eq!(
        get_current_version_file("/home/me"),
        text(&work.join(".current_version"))
    );
    let version: Version = "1.20.4".parse().unwrap();
    assert_eq!(
        get_version_installation_dir("/home/me", &version),
        text(&work.join("installations").join("1.20.4"))
    );
    assert_ne!(get_work_dir("/home/me"), "/home/me");
    assert_ne!(get_work_dir("/home/me"), "goup");
}

#[test]
fn directories_on_unix() {
    if std::path::MAIN_SEPARATOR != '/' {
        return;
    }
    assert_eq!(get_work_dir("/home/me"), "/home/me/.local/goup");
    assert_eq!(get_work_dir("/home/me/"), "/home/me/.local/goup");
    assert_eq!(
        get_installations_dir("/home/me"),
        "/home/me/.local/goup/installations"
    );
    assert_eq!(get_current_link_dir("/home/me"), "/home/me/.local/goup/current");
    assert_eq!(
        get_current_install_dir("/home/me"),
        "/home/me/.local/goup/current/go"
    );
    assert_eq!(
        get_current_bin_dir("/home/me"),
        "/home/me/.local/goup/current/go/bin"
    );
    let version: Version = "1.22rc1".parse().unwrap();
    assert_eq!(
        get_version_installation_dir("/home/me", &version),
        "/home/me/.local/goup/installations/1.22rc1"
    );
    assert_eq!(get_profile_dir("/home/me", true), "/home/me/.zshenv");
    assert_eq!(get_profile_dir("/home/me", false), "/home/me/.profile");
}

#[test]
fn profile_of_an_unknown_shell() {
    let home = Path::new("/home/me");
    assert_eq!(get_profile_dir("/home/me", true), text(&home.join(".zshenv")));
    assert_eq!(
        get_profile_dir("/home/me", false),
        text(&home.join(".profile"))
    );
}

#[test]
fn download_urls() {
    let v: Version = "1.21.3".parse().unwrap();
    assert_eq!(
        get_download_url(&v, Platform::LinuxAmd64),
        "https://go.dev/dl/go1.21.3.linux-amd64.tar.gz"
    );
    assert_eq!(
        get_download_url(&v, Platform::Linux386),
        "https://go.dev/dl/go1.21.3.linux-386.tar.gz"
    );
    assert_eq!(
        get_download_url(&v, Platform::LinuxArm64),
        "https://go.dev/dl/go1.21.3.linux-arm64.tar.gz"
    );
    assert_eq!(
        get_download_url(&v, Platform::DarwinAmd64),
        "https://go.dev/dl/go1.21.3.darwin-amd64.tar.gz"
    );
    assert_eq!(
        get_download_url(&v, Platform::Darwin386),
        "https://go.dev/dl/go1.21.3.darwin-386.tar.gz"
    );
    assert_eq!(
        get_download_url(&v, Platform::DarwinArm64),
        "https://go.dev/dl/go1.21.3.darwin-arm64.tar.gz"
    );
    assert_eq!(
        get_download_url(&v, Platform::WindowsAmd64),
        "https://go.dev/dl/go1.21.3.windows-amd64.zip"
    );
    assert_eq!(
        get_download_url(&v, Platform::Windows386),
        "https://go.dev/dl/go1.21.3.windows-386.zip"
    );
    let pre: Version = "1.22rc1".parse().unwrap();
    assert_eq!(
        get_download_url(&pre, Platform::LinuxAmd64),
        "https://go.dev/dl/go1.22rc1.linux-amd64.tar.gz"
    );
}

#[test]
fn platforms() {
    assert!(Platform::WindowsAmd64.is_windows());
    assert!(Platform::Windows386.is_windows());
    assert!(!Platform::LinuxAmd64.is_windows());
    assert!(!Platform::DarwinArm64.is_windows());
    assert_eq!(Platform::LinuxArm64.archive_suffix(), "linux-arm64.tar.gz");
    assert_eq!(Platform::Windows386.archive_suffix(), "windows-386.zip");
}

#[test]
fn url_extension() {
    assert_eq!(
        get_url_extension("https://go.dev/dl/go1.21.3.linux-amd64.tar.gz"),
        "gz"
    );
    assert_eq!(
        get_url_extension("https://go.dev/dl/go1.21.3.windows-amd64.zip"),
        "zip"
    );
    assert_eq!(get_url_extension("archive.tgz"), "tgz");
    assert_eq!(get_url_extension("no-dot"), "no-dot");
    assert_eq!(get_url_extension("ends-with-dot."), "");
    assert_eq!(get_url_extension(""), "");
    assert_eq!(get_url_extension(".hidden"), "hidden");
}

#[test]
fn env_vars_for_each_shell() {
    if std::path::MAIN_SEPARATOR != '/' {
        return;
    }
    let home = "/home/me";
    let path = "/usr/bin:/bin";
    assert_eq!(
        get_env_vars(&Shell::Bash, path, home, false),
        "export PATH=\"/home/me/.local/goup/current/go/bin:/usr/bin:/bin\"\n\
         export GOROOT=\"/home/me/.local/goup/current/go\""
    );
    assert_eq!(
        get_env_vars(&Shell::Zsh, path, home, false),
        get_env_vars(&Shell::Sh, path, home, false)
    );
    assert_eq!(
        get_env_vars(&Shell::Fish, path, home, false),
        "set -gx PATH /home/me/.local/goup/current/go/bin $PATH\n\
         set -gx GOROOT /home/me/.local/goup/current/go"
    );
    assert_eq!(
        get_env_vars(&Shell::Nushell, path, home, false),
        "PATH = '''/home/me/.local/goup/current/go/bin:/usr/bin:/bin'''\n\
         GOROOT = '''/home/me/.local/goup/current/go'''"
    );
    assert_eq!(
        get_env_vars(&Shell::PowerShell, path, home, false),
        "$env:PATH = \"/home/me/.local/goup/current/go/bin;/usr/bin:/bin\"\n\
         $env:GOROOT = \"/home/me/.local/goup/current/go\""
    );
}

#[test]
fn env_vars_are_two_commands() {
    let vars = get_env_vars(&Shell::Bash, "/usr/bin", "/home/me", false);
    let lines: Vec<&str> = vars.split('\n').collect();
    assert_eq!(lines.len(), 2);
    let bin = get_current_bin_dir("/home/me");
    let root = get_current_install_dir("/home/me");
    assert_eq!(lines[0], format!("export PATH=\"{}:/usr/bin\"", bin));
    assert_eq!(lines[1], format!("export GOROOT=\"{}\"", root));
}

#[test]
fn archive_kinds() {
    assert_eq!(
        get_archive_kind("https://go.dev/dl/go1.21.3.linux-amd64.tar.gz"),
        Some(ArchiveKind::TarGz)
    );
    assert_eq!(get_archive_kind("go.tgz"), Some(ArchiveKind::TarGz));
    assert_eq!(
        get_archive_kind("https://go.dev/dl/go1.21.3.windows-amd64.zip"),
        Some(ArchiveKind::Zip)
    );
    assert_eq!(get_archive_kind("go.msi"), None);
    assert_eq!(get_archive_kind("zip"), Some(ArchiveKind::Zip));
    assert_eq!(get_archive_kind("go.ZIP"), None);
    assert_eq!(get_archive_kind("go.zip."), None);
    assert_eq!(get_archive_kind(""), None);
    for platform in [
        Platform::LinuxAmd64,
        Platform::Linux386,
        Platform::LinuxArm64,
        Platform::DarwinAmd64,
        Platform::Darwin386,
        Platform::DarwinArm64,
    ] {
        let url = get_download_url(&"1.21.3".parse().unwrap(), platform);
        assert_eq!(get_archive_kind(&url), Some(ArchiveKind::TarGz));
    }
    for platform in [Platform::WindowsAmd64, Platform::Windows386] {
        let url = get_download_url(&"1.21.3".parse().unwrap(), platform);
        assert_eq!(get_archive_kind(&url), Some(ArchiveKind::Zip));
    }
}

#[test]
fn env_vars_for_given_directories() {
    assert_eq!(
        get_env_vars_for(&Shell::Bash, "/usr/bin", "/sdk/go/bin", "/sdk/go", false),
        "export PATH=\"/sdk/go/bin:/usr/bin\"\nexport GOROOT=\"/sdk/go\""
    );
    assert_eq!(
        get_env_vars_for(
            &Shell::Bash,
            r"C:\Windows;C:\tools",
            r"C:\sdk\go\bin",
            r"C:\sdk\go",
            true
        ),
        "export PATH=\"/c/Windows:/c/tools:/c/sdk/go/bin\"\nexport GOROOT=\"/c/sdk/go\""
    );
    assert_eq!(
        get_env_vars_for(
            &Shell::PowerShell,
            r"C:\Windows;C:\tools",
            r"C:\sdk\go\bin",
            r"C:\sdk\go",
            true
        ),
        "$env:PATH = \"C:\\sdk\\go\\bin;C:\\Windows;C:\\tools\"\n$env:GOROOT = \"C:\\sdk\\go\""
    );
    assert_eq!(
        get_env_vars_for(&Shell::Nushell, r"C:\Windows", r"C:\sdk\go\bin", r"C:\sdk\go", true),
        "PATH = '''C:\\sdk\\go\\bin;C:\\Windows'''\nGOROOT = '''C:\\sdk\\go'''"
    );
    assert_eq!(
        get_env_vars_for(&Shell::Fish, "/usr/bin", "/sdk/go/bin", "/sdk/go", false),
        "set -gx PATH /sdk/go/bin $PATH\nset -gx GOROOT /sdk/go"
    );
    assert_eq!(
        get_env_vars(&Shell::Zsh, "/usr/bin", "/home/me", false),
        get_env_vars_for(
            &Shell::Zsh,
            "/usr/bin",
            &get_current_bin_dir("/home/me"),
            &get_current_install_dir("/home/me"),
            false
        )
    );
}
