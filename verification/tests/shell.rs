use goup::env::{get_current_install_dir, to_gitbash_path};
use goup::shell::Shell;
use std::path::Path;

fn all_shells() -> Vec<Shell> {
    vec![
        Shell::Sh,
        Shell::Bash,
        Shell::Zsh,
        Shell::Fish,
        Shell::Nushell,
        Shell::PowerShell,
        Shell::Cmd,
    ]
}

#[test]
fn setenv_commands() {
    for shell in [Shell::Bash, Shell::Sh, Shell::Zsh] {
        assert_eq!(
            shell.get_setenv_command("GOROOT", "/x/go"),
            "export GOROOT=\"/x/go\""
        );
    }
    for shell in [Shell::Cmd, Shell::PowerShell] {
        assert_eq!(
            shell.get_setenv_command("GOROOT", "C:\\x\\go"),
            "$env:GOROOT = \"C:\\x\\go\""
        );
    }
    assert_eq!(
        Shell::Nushell.get_setenv_command("GOROOT", "/x/go"),
        "GOROOT = '''/x/go'''"
    );
    assert_eq!(
        Shell::Fish.get_setenv_command("GOROOT", "/x/go"),
        "set -gx GOROOT /x/go"
    );
    assert_eq!(Shell::Bash.get_setenv_command("", ""), "export =\"\"");
}

#[test]
fn append_to_path_off_windows() {
    for shell in [Shell::Bash, Shell::Sh, Shell::Zsh, Shell::Nushell] {
        assert_eq!(shell.append_to_path("/a:/b", "/new", false), "/new:/a:/b");
    }
    for shell in [Shell::Cmd, Shell::PowerShell] {
        assert_eq!(shell.append_to_path("/a:/b", "/new", false), "/new;/a:/b");
    }
    assert_eq!(Shell::Fish.append_to_path("/a:/b", "/new", false), "/new $PATH");
}

#[test]
fn append_to_path_on_windows() {
    for shell in [Shell::Bash, Shell::Sh, Shell::Zsh] {
        assert_eq!(
            shell.append_to_path(r"C:\a;D:\b", "/c/new", true),
            "/c/a:/d/b:/c/new"
        );
    }
    assert_eq!(
        Shell::Nushell.append_to_path(r"C:\a;D:\b", r"C:\new", true),
        r"C:\new;C:\a;D:\b"
    );
    for shell in [Shell::Cmd, Shell::PowerShell] {
        assert_eq!(
            shell.append_to_path(r"C:\a;D:\b", r"C:\new", true),
            r"C:\new;C:\a;D:\b"
        );
    }
    assert_eq!(
        Shell::Fish.append_to_path(r"C:\a", r"C:\new", true),
        r"C:\new $PATH"
    );
}

#[test]
fn profile_files() {
    let home = Path::new("/home/me");
    let text = |p: std::path::PathBuf| p.to_string_lossy().into_owned();
    for windows in [false, true] {
        for shell in [Shell::Bash, Shell::Sh] {
            assert_eq!(
                shell.get_profile_dir("/home/me", windows),
                text(home.join(".profile"))
            );
        }
        assert_eq!(
            Shell::Zsh.get_profile_dir("/home/me", windows),
            text(home.join(".zshenv"))
        );
        for shell in [Shell::PowerShell, Shell::Cmd] {
            assert_eq!(
                shell.get_profile_dir("/home/me", windows),
                text(
                    home.join("Documents")
                        .join("WindowsPowerShell")
                        .join("Microsoft.PowerShell_profile.ps1")
                )
            );
        }
        assert_eq!(
            Shell::Fish.get_profile_dir("/home/me", windows),
            text(
                home.join(".config")
                    .join("fish")
                    .join("conf.d")
                    .join("goup.fish")
            )
        );
    }
    assert_eq!(
        Shell::Nushell.get_profile_dir("/home/me", false),
        text(home.join(".config").join("nushell").join("config.nu"))
    );
    assert_eq!(
        Shell::Nushell.get_profile_dir("/home/me", true),
        text(
            home.join("AppData")
                .join("Roaming")
                .join("nushell")
                .join("config.nu")
        )
    );
}

#[test]
fn profile_files_on_unix() {
    if std::path::MAIN_SEPARATOR != '/' {
        return;
    }
    assert_eq!(
        Shell::Fish.get_profile_dir("/home/me", false),
        "/home/me/.config/fish/conf.d/goup.fish"
    );
    assert_eq!(
        Shell::Nushell.get_profile_dir("/home/me", false),
        "/home/me/.config/nushell/config.nu"
    );
    assert_eq!(Shell::Bash.get_profile_dir("/home/me", false), "/home/me/.profile");
}

#[test]
fn path_to_string() {
    for shell in all_shells() {
        assert_eq!(shell.path_to_string(r"C:\x\go", false), r"C:\x\go");
    }
    for shell in [Shell::Bash, Shell::Sh, Shell::Zsh] {
        assert_eq!(shell.path_to_string(r"C:\x\go", true), "/c/x/go");
    }
    for shell in [Shell::Fish, Shell::Nushell, Shell::PowerShell, Shell::Cmd] {
        assert_eq!(shell.path_to_string(r"C:\x\go", true), r"C:\x\go");
    }
}

#[test]
fn apply_env_commands() {
    for windows in [false, true] {
        for shell in [Shell::Bash, Shell::Sh, Shell::Zsh, Shell::Fish] {
            assert_eq!(shell.get_apply_env_command(windows), r#"eval "$(goup env)""#);
        }
        for shell in [Shell::Cmd, Shell::PowerShell] {
            assert_eq!(
                shell.get_apply_env_command(windows),
                "goup env | Out-String | Invoke-Expression"
            );
        }
    }
    assert_eq!(
        Shell::Nushell.get_apply_env_command(false),
        "load-env (\
            goup env \
            | from toml \
            | update PATH {do $env.ENV_CONVERSIONS.PATH.from_string $in}\
        )"
    );
    assert_eq!(
        Shell::Nushell.get_apply_env_command(true),
        "load-env (\
            goup env \
            | from toml \
            | rename -c {PATH: Path} \
            | update Path {do $env.ENV_CONVERSIONS.Path.from_string $in}\
        )"
    );
}

#[test]
fn env_applied() {
    let home = "/home/me";
    let root = get_current_install_dir(home);
    for shell in all_shells() {
        assert!(shell.is_env_applied(home, &root, false));
        assert!(!shell.is_env_applied(home, "", false));
        assert!(!shell.is_env_applied(home, "/usr/local/go", false));
    }
    let gitbash_root = to_gitbash_path(&root);
    assert!(Shell::Bash.is_env_applied(home, &gitbash_root, true));
}

#[test]
fn install_dir_is_compared_as_the_shell_writes_paths() {
    assert!(Shell::Bash.is_install_dir(r"C:\sdk\go", "/c/sdk/go", true));
    assert!(Shell::Bash.is_install_dir(r"C:\sdk\go", "C:/sdk/go", true));
    assert!(!Shell::Bash.is_install_dir(r"C:\sdk\go", "/c/sdk/go", false));
    assert!(!Shell::PowerShell.is_install_dir(r"C:\sdk\go", "/c/sdk/go", true));
    assert!(Shell::PowerShell.is_install_dir(r"C:\sdk\go", r"C:\sdk\go", true));
    assert!(!Shell::Fish.is_install_dir("/a", "/b", false));
    assert!(Shell::Fish.is_install_dir("", "", false));
}

#[test]
fn shells_that_run_the_profile_as_a_script() {
    for shell in all_shells() {
        assert_eq!(
            shell.runs_profile_as_script(),
            shell == Shell::PowerShell || shell == Shell::Cmd
        );
    }
}
