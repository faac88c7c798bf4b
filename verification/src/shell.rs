//! What differs between shells: how a variable is set, how the search path
//! is extended, where the profile file lies and how the environment is
//! applied.

use crate::env::{
    current_install_dir, get_current_install_dir, gitbash_path, gitbash_path_var, join_path,
    path_joined, to_gitbash_path, to_gitbash_path_var,
};
use vstd::prelude::*;

verus! {

/// The shells that are told apart.
#[derive(Debug, Clone, Copy, PartialEq, Eq, Structural)]
pub enum Shell {
    Sh,
    Bash,
    Zsh,
    Fish,
    Nushell,
    PowerShell,
    Cmd,
}

impl Shell {
    /// The shell is one of `sh`, `bash` and `zsh`.
    pub open spec fn is_posix(self) -> bool {
        self == Shell::Sh || self == Shell::Bash || self == Shell::Zsh
    }

    /// The command that sets the variable `key` to `val`.
    pub open spec fn setenv_command(self, key: Seq<char>, val: Seq<char>) -> Seq<char> {
        match self {
            Shell::Bash | Shell::Sh | Shell::Zsh => "export "@ + key + "=\""@ + val + "\""@,
            Shell::Cmd | Shell::PowerShell => "$env:"@ + key + " = \""@ + val + "\""@,
            Shell::Nushell => key + " = '''"@ + val + "'''"@,
            Shell::Fish => "set -gx "@ + key + " "@ + val,
        }
    }

    /// Returns the assembled shell command to set the given environment
    /// variable by key and value. For Nushell the line is in TOML format,
    /// which Nushell parses.
    pub fn get_setenv_command(&self, key: &str, val: &str) -> (command: String)
        ensures
            command@ == self.setenv_command(key@, val@),
    {
        match self {
            Shell::Bash | Shell::Sh | Shell::Zsh => {
                let mut s = String::from_str("export ");
                s.append(key);
                s.append("=\"");
                s.append(val);
                s.append("\"");
                s
            },
            Shell::Cmd | Shell::PowerShell => {
                let mut s = String::from_str("$env:");
                s.append(key);
                s.append(" = \"");
                s.append(val);
                s.append("\"");
                s
            },
            Shell::Nushell => {
                let mut s = String::from_str(key);
                s.append(" = '''");
                s.append(val);
                s.append("'''");
                s
            },
            Shell::Fish => {
                let mut s = String::from_str("set -gx ");
                s.append(key);
                s.append(" ");
                s.append(val);
                s
            },
        }
    }

    /// The search path `curr` extended by the path `new`.
    pub open spec fn path_with(self, curr: Seq<char>, new: Seq<char>, windows: bool) -> Seq<
        char,
    > {
        match self {
            Shell::Bash | Shell::Sh | Shell::Zsh => if windows {
                gitbash_path_var(curr) + ":"@ + new
            } else {
                new + ":"@ + curr
            },
            Shell::Nushell => if windows {
                new + ";"@ + curr
            } else {
                new + ":"@ + curr
            },
            Shell::Cmd | Shell::PowerShell => new + ";"@ + curr,
            Shell::Fish => new + " $PATH"@,
        }
    }

    /// Appends the given path string `new` to the passed `curr` path
    /// concatenation string, in the way of the shell. On Windows the
    /// shells `sh`, `bash` and `zsh` get the current paths in the style of
    /// Git Bash, with the new path behind them; `fish` gets the new path
    /// followed by a reference to its own search path.
    pub fn append_to_path(&self, curr: &str, new: &str, windows: bool) -> (path: String)
        ensures
            path@ == self.path_with(curr@, new@, windows),
    {
        match self {
            Shell::Bash | Shell::Sh | Shell::Zsh => {
                if windows {
                    let mut s = to_gitbash_path_var(curr);
                    s.append(":");
                    s.append(new);
                    s
                } else {
                    let mut s = String::from_str(new);
                    s.append(":");
                    s.append(curr);
                    s
                }
            },
            Shell::Nushell => {
                let mut s = String::from_str(new);
                if windows {
                    s.append(";");
                } else {
                    s.append(":");
                }
                s.append(curr);
                s
            },
            Shell::Cmd | Shell::PowerShell => {
                let mut s = String::from_str(new);
                s.append(";");
                s.append(curr);
                s
            },
            Shell::Fish => {
                let mut s = String::from_str(new);
                s.append(" $PATH");
                s
            },
        }
    }

    /// The profile file of the shell below the home directory `home`.
    pub open spec fn profile_dir(self, home: Seq<char>, windows: bool) -> Seq<char> {
        match self {
            Shell::Bash | Shell::Sh => path_joined(home, ".profile"@),
            Shell::Zsh => path_joined(home, ".zshenv"@),
            Shell::PowerShell | Shell::Cmd => path_joined(
                path_joined(path_joined(home, "Documents"@), "WindowsPowerShell"@),
                "Microsoft.PowerShell_profile.ps1"@,
            ),
            Shell::Nushell => if windows {
                path_joined(
                    path_joined(
                        path_joined(path_joined(home, "AppData"@), "Roaming"@),
                        "nushell"@,
                    ),
                    "config.nu"@,
                )
            } else {
                path_joined(path_joined(path_joined(home, ".config"@), "nushell"@), "config.nu"@)
            },
            Shell::Fish => path_joined(
                path_joined(
                    path_joined(path_joined(home, ".config"@), "fish"@),
                    "conf.d"@,
                ),
                "goup.fish"@,
            ),
        }
    }

    /// Returns the path of the user's profile file for the shell.
    pub fn get_profile_dir(&self, home: &str, windows: bool) -> (file: String)
        ensures
            file@ == self.profile_dir(home@, windows),
    {
        match self {
            Shell::Bash | Shell::Sh => join_path(home, ".profile"),
            Shell::Zsh => join_path(home, ".zshenv"),
            Shell::PowerShell | Shell::Cmd => {
                let documents = join_path(home, "Documents");
                let power_shell = join_path(documents.as_str(), "WindowsPowerShell");
                join_path(power_shell.as_str(), "Microsoft.PowerShell_profile.ps1")
            },
            Shell::Nushell => {
                if windows {
                    let app_data = join_path(home, "AppData");
                    let roaming = join_path(app_data.as_str(), "Roaming");
                    let nushell = join_path(roaming.as_str(), "nushell");
                    join_path(nushell.as_str(), "config.nu")
                } else {
                    let config = join_path(home, ".config");
                    let nushell = join_path(config.as_str(), "nushell");
                    join_path(nushell.as_str(), "config.nu")
                }
            },
            Shell::Fish => {
                let config = join_path(home, ".config");
                let fish = join_path(config.as_str(), "fish");
                let conf_d = join_path(fish.as_str(), "conf.d");
                join_path(conf_d.as_str(), "goup.fish")
            },
        }
    }

    /// The path as the shell writes it.
    pub open spec fn path_text(self, path: Seq<char>, windows: bool) -> Seq<char> {
        if self.is_posix() && windows {
            gitbash_path(path)
        } else {
            path
        }
    }

    /// Takes a path and converts it to a shell-compatible string: on
    /// Windows the shells `sh`, `bash` and `zsh` get the path in the style
    /// of Git Bash; every other shell gets the path as it is.
    pub fn path_to_string(&self, path: &str, windows: bool) -> (text: String)
        ensures
            text@ == self.path_text(path@, windows),
    {
        match self {
            Shell::Bash | Shell::Sh | Shell::Zsh => {
                if windows {
                    to_gitbash_path(path)
                } else {
                    String::from_str(path)
                }
            },
            Shell::Cmd | Shell::PowerShell | Shell::Nushell => String::from_str(path),
            Shell::Fish => String::from_str(path),
        }
    }

    /// The command that applies the printed variables to the running
    /// shell.
    pub open spec fn apply_env_command(self, windows: bool) -> &'static str {
        match self {
            Shell::Bash | Shell::Sh | Shell::Zsh | Shell::Fish => "eval \"$(goup env)\"",
            Shell::Cmd | Shell::PowerShell => "goup env | Out-String | Invoke-Expression",
            Shell::Nushell => if windows {
                "load-env (goup env | from toml | rename -c {PATH: Path} | update Path {do $env.ENV_CONVERSIONS.Path.from_string $in})"
            } else {
                "load-env (goup env | from toml | update PATH {do $env.ENV_CONVERSIONS.PATH.from_string $in})"
            },
        }
    }

    /// Returns the command to apply the env variables to the current shell
    /// session using the output of `goup env`. Nushell has no `eval` and
    /// loads the variables from the TOML lines instead.
    pub fn get_apply_env_command(&self, windows: bool) -> (command: &'static str)
        ensures
            command == self.apply_env_command(windows),
    {
        match self {
            Shell::Bash | Shell::Sh | Shell::Zsh | Shell::Fish => "eval \"$(goup env)\"",
            Shell::Cmd | Shell::PowerShell => "goup env | Out-String | Invoke-Expression",
            Shell::Nushell => {
                if windows {
                    "load-env (goup env | from toml | rename -c {PATH: Path} | update Path {do $env.ENV_CONVERSIONS.Path.from_string $in})"
                } else {
                    "load-env (goup env | from toml | update PATH {do $env.ENV_CONVERSIONS.PATH.from_string $in})"
                }
            },
        }
    }

    /// Returns true if `goroot` and `install_dir` are the same directory
    /// once both are written as the shell writes paths.
    pub fn is_install_dir(&self, goroot: &str, install_dir: &str, windows: bool) -> (same: bool)
        ensures
            same == (self.path_text(goroot@, windows) == self.path_text(install_dir@, windows)),
    {
        let current_install_dir = self.path_to_string(install_dir, windows);
        let set_install_dir = self.path_to_string(goroot, windows);
        set_install_dir == current_install_dir
    }

    /// Returns true if the env variable `GOROOT`, whose value is `goroot`,
    /// is correctly applied in the current shell environment: it is the
    /// directory of the files of the selected SDK of the user with the
    /// home directory `home`.
    pub fn is_env_applied(&self, home: &str, goroot: &str, windows: bool) -> (applied: bool)
        ensures
            applied == (self.path_text(goroot@, windows) == self.path_text(
                current_install_dir(home@),
                windows,
            )),
    {
        let install_dir = get_current_install_dir(home);
        self.is_install_dir(goroot, install_dir.as_str(), windows)
    }

    /// Returns true for the shells whose users may have to allow the
    /// running of scripts before a profile is loaded.
    pub fn runs_profile_as_script(&self) -> (r: bool)
        ensures
            r == (*self == Shell::PowerShell || *self == Shell::Cmd),
    {
        matches!(self, Shell::PowerShell | Shell::Cmd)
    }
}

} // verus!
