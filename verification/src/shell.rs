//! Shell integration: the supported shells, name parsing, and the
//! generated integration script that wraps the binary in a shell function.

use vstd::prelude::*;
use vstd::string::*;

use crate::text;

verus! {

/// Supported shells.
#[derive(Debug, Clone, Copy, PartialEq, Eq, Structural)]
pub enum Shell {
    Bash,
    Elvish,
    Fish,
    Nushell,
    Oil,
    Powershell,
    Xonsh,
    Zsh,
}

impl Shell {
    /// The shell's canonical name.
    pub open spec fn name_spec(self) -> Seq<char> {
        match self {
            Shell::Bash => "bash"@,
            Shell::Elvish => "elvish"@,
            Shell::Fish => "fish"@,
            Shell::Nushell => "nushell"@,
            Shell::Oil => "oil"@,
            Shell::Powershell => "powershell"@,
            Shell::Xonsh => "xonsh"@,
            Shell::Zsh => "zsh"@,
        }
    }

    pub fn name(&self) -> (r: &'static str)
        ensures
            r@ == self.name_spec(),
    {
        match self {
            Shell::Bash => "bash",
            Shell::Elvish => "elvish",
            Shell::Fish => "fish",
            Shell::Nushell => "nushell",
            Shell::Oil => "oil",
            Shell::Powershell => "powershell",
            Shell::Xonsh => "xonsh",
            Shell::Zsh => "zsh",
        }
    }

    /// Which shell a name denotes, compared case-insensitively over ASCII.
    pub open spec fn parse_spec(s: Seq<char>) -> Option<Shell> {
        let l = text::ascii_lower(s);
        if l == "bash"@ {
            Some(Shell::Bash)
        } else if l == "elvish"@ {
            Some(Shell::Elvish)
        } else if l == "fish"@ {
            Some(Shell::Fish)
        } else if l == "nushell"@ {
            Some(Shell::Nushell)
        } else if l == "oil"@ {
            Some(Shell::Oil)
        } else if l == "powershell"@ {
            Some(Shell::Powershell)
        } else if l == "xonsh"@ {
            Some(Shell::Xonsh)
        } else if l == "zsh"@ {
            Some(Shell::Zsh)
        } else {
            None
        }
    }

    /// Parse a shell name; an unknown name is reported in the error.
    pub fn parse_name(s: &str) -> (r: Result<Shell, String>)
        ensures
            match Shell::parse_spec(s@) {
                Some(shell) => r == Ok::<Shell, String>(shell),
                None => r matches Err(e) && e@ == "Unsupported shell: "@ + s@,
            },
    {
        let lower = text::to_ascii_lower(s);
        let l = lower.as_str();
        if text::str_eq(l, "bash") {
            Ok(Shell::Bash)
        } else if text::str_eq(l, "elvish") {
            Ok(Shell::Elvish)
        } else if text::str_eq(l, "fish") {
            Ok(Shell::Fish)
        } else if text::str_eq(l, "nushell") {
            Ok(Shell::Nushell)
        } else if text::str_eq(l, "oil") {
            Ok(Shell::Oil)
        } else if text::str_eq(l, "powershell") {
            Ok(Shell::Powershell)
        } else if text::str_eq(l, "xonsh") {
            Ok(Shell::Xonsh)
        } else if text::str_eq(l, "zsh") {
            Ok(Shell::Zsh)
        } else {
            let mut e = String::new();
            e.append("Unsupported shell: ");
            e.append(s);
            Err(e)
        }
    }
}

impl core::str::FromStr for Shell {
    type Err = String;

    fn from_str(s: &str) -> Result<Shell, String> {
        Shell::parse_name(s)
    }
}

/// The integration script for the POSIX-style shells: a function named
/// after the command prefix that forwards to the binary.
pub open spec fn posix_script(shell_name: Seq<char>, prefix: Seq<char>) -> Seq<char> {
    "# worktrunk shell integration for "@ + shell_name + "\n"@ + prefix
        + "() {\n    command wt \"$@\"\n}\n"@
}

pub open spec fn fish_script(prefix: Seq<char>) -> Seq<char> {
    "# worktrunk shell integration for fish\nfunction "@ + prefix
        + "\n    command wt $argv\nend\n"@
}

pub open spec fn nushell_script(prefix: Seq<char>) -> Seq<char> {
    "# worktrunk shell integration for nushell\ndef --wrapped "@ + prefix
        + " [...args] {\n    wt ...$args\n}\n"@
}

pub open spec fn powershell_script(prefix: Seq<char>) -> Seq<char> {
    "# worktrunk shell integration for PowerShell\nfunction "@ + prefix
        + " {\n    wt @args\n}\n"@
}

pub open spec fn elvish_script(prefix: Seq<char>) -> Seq<char> {
    "# worktrunk shell integration for elvish\nfn "@ + prefix
        + " {|@args|\n    wt $@args\n}\n"@
}

pub open spec fn xonsh_script(prefix: Seq<char>) -> Seq<char> {
    "# worktrunk shell integration for xonsh\ndef _"@ + prefix
        + "(args):\n    $[wt @(args)]\naliases[\'"@ + prefix + "\'] = _"@ + prefix + "\n"@
}

/// Shell integration configuration: the target shell and the name the
/// wrapping shell function will have.
#[derive(Debug)]
pub struct ShellInit {
    pub shell: Shell,
    pub cmd_prefix: String,
}

/// The script generated for each shell family.
pub open spec fn generate_spec(shell: Shell, prefix: Seq<char>) -> Seq<char> {
    match shell {
        Shell::Bash => posix_script(shell.name_spec(), prefix),
        Shell::Zsh => posix_script(shell.name_spec(), prefix),
        Shell::Oil => posix_script(shell.name_spec(), prefix),
        Shell::Fish => fish_script(prefix),
        Shell::Nushell => nushell_script(prefix),
        Shell::Powershell => powershell_script(prefix),
        Shell::Elvish => elvish_script(prefix),
        Shell::Xonsh => xonsh_script(prefix),
    }
}

impl ShellInit {
    pub fn new(shell: Shell, cmd_prefix: String) -> (r: ShellInit)
        ensures
            r.shell == shell,
            r.cmd_prefix == cmd_prefix,
    {
        ShellInit { shell, cmd_prefix }
    }

    /// Generate the shell integration code.
    pub fn generate(&self) -> (r: String)
        ensures
            r@ == generate_spec(self.shell, self.cmd_prefix@),
    {
        match self.shell {
            Shell::Bash | Shell::Zsh | Shell::Oil => {
                let mut s = String::new();
                s.append("# worktrunk shell integration for ");
                s.append(self.shell.name());
                s.append("\n");
                s.append(self.cmd_prefix.as_str());
                s.append("() {\n    command wt \"$@\"\n}\n");
                proof {
                    assert(s@ =~= generate_spec(self.shell, self.cmd_prefix@));
                }
                s
            },
            Shell::Fish => {
                let mut s = String::new();
                s.append("# worktrunk shell integration for fish\nfunction ");
                s.append(self.cmd_prefix.as_str());
                s.append("\n    command wt $argv\nend\n");
                proof {
                    assert(s@ =~= generate_spec(self.shell, self.cmd_prefix@));
                }
                s
            },
            Shell::Nushell => {
                let mut s = String::new();
                s.append("# worktrunk shell integration for nushell\ndef --wrapped ");
                s.append(self.cmd_prefix.as_str());
                s.append(" [...args] {\n    wt ...$args\n}\n");
                proof {
                    assert(s@ =~= generate_spec(self.shell, self.cmd_prefix@));
                }
                s
            },
            Shell::Powershell => {
                let mut s = String::new();
                s.append("# worktrunk shell integration for PowerShell\nfunction ");
                s.append(self.cmd_prefix.as_str());
                s.append(" {\n    wt @args\n}\n");
                proof {
                    assert(s@ =~= generate_spec(self.shell, self.cmd_prefix@));
                }
                s
            },
            Shell::Elvish => {
                let mut s = String::new();
                s.append("# worktrunk shell integration for elvish\nfn ");
                s.append(self.cmd_prefix.as_str());
                s.append(" {|@args|\n    wt $@args\n}\n");
                proof {
                    assert(s@ =~= generate_spec(self.shell, self.cmd_prefix@));
                }
                s
            },
            Shell::Xonsh => {
                let mut s = String::new();
                s.append("# worktrunk shell integration for xonsh\ndef _");
                s.append(self.cmd_prefix.as_str());
                s.append("(args):\n    $[wt @(args)]\naliases[\'");
                s.append(self.cmd_prefix.as_str());
                s.append("\'] = _");
                s.append(self.cmd_prefix.as_str());
                s.append("\n");
                proof {
                    assert(s@ =~= generate_spec(self.shell, self.cmd_prefix@));
                }
                s
            },
        }
    }
}

}
