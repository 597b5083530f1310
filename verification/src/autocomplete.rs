//! The `autocomplete install` command: which shell, where its completion
//! script and profile live, and the block that sources the script.

use vstd::prelude::*;
use crate::box_manager::{join_path, path_join};
use crate::text::{chars_of, find_sub, find_sub_from};

verus! {

/// The arguments of `autocomplete install`.
pub struct AutocompleteInstallArgs {
    /// Install for bash.
    pub bash: bool,
    /// Install for zsh.
    pub zsh: bool,
    /// Install for fish.
    pub fish: bool,
}

/// The shells that completion is installed for.
#[derive(Debug, Clone, Copy, PartialEq, Eq, Structural)]
pub enum ShellKind {
    /// bash.
    Bash,
    /// zsh.
    Zsh,
    /// fish.
    Fish,
}

/// The shell to install for: the first flag given (bash, zsh, fish), else
/// the shell that `SHELL` names when it mentions zsh or fish, else bash.
pub open spec fn shell_of(args: AutocompleteInstallArgs, shell_env: Seq<char>) -> ShellKind {
    if args.bash {
        ShellKind::Bash
    } else if args.zsh {
        ShellKind::Zsh
    } else if args.fish {
        ShellKind::Fish
    } else if find_sub(shell_env, "zsh"@) is Some {
        ShellKind::Zsh
    } else if find_sub(shell_env, "fish"@) is Some {
        ShellKind::Fish
    } else {
        ShellKind::Bash
    }
}

fn mentions(s: &str, p: &str) -> (b: bool)
    ensures
        b == (find_sub(s@, p@) is Some),
{
    let sv = chars_of(s);
    let pv = chars_of(p);
    match find_sub_from(&sv, &pv, 0) {
        Some(_) => true,
        None => false,
    }
}

/// Chooses the shell to install completion for, given the value of `SHELL`
/// (empty where unset).
pub fn choose_shell(args: &AutocompleteInstallArgs, shell_env: &str) -> (k: ShellKind)
    ensures
        k == shell_of(*args, shell_env@),
{
    if args.bash {
        ShellKind::Bash
    } else if args.zsh {
        ShellKind::Zsh
    } else if args.fish {
        ShellKind::Fish
    } else if mentions(shell_env, "zsh") {
        ShellKind::Zsh
    } else if mentions(shell_env, "fish") {
        ShellKind::Fish
    } else {
        ShellKind::Bash
    }
}

/// The file name of a shell's completion script.
pub open spec fn script_name_of(shell: ShellKind) -> Seq<char> {
    match shell {
        ShellKind::Zsh => "migratory-autocomplete.zsh"@,
        ShellKind::Fish => "migratory.fish"@,
        ShellKind::Bash => "migratory-autocomplete.bash"@,
    }
}

/// A shell's profile, relative to the home directory.
pub open spec fn profile_of(shell: ShellKind) -> Seq<char> {
    match shell {
        ShellKind::Zsh => ".zshrc"@,
        ShellKind::Fish => ".config/fish/config.fish"@,
        ShellKind::Bash => ".bashrc"@,
    }
}

/// Returns the file name of the completion script and the path of the
/// profile of `shell` under `home_dir`.
pub fn shell_paths(shell: ShellKind, home_dir: &str) -> (r: (&'static str, String))
    ensures
        r.0@ == script_name_of(shell),
        r.1@ == join_path(home_dir@, profile_of(shell)),
{
    match shell {
        ShellKind::Zsh => ("migratory-autocomplete.zsh", path_join(home_dir, ".zshrc")),
        ShellKind::Fish => ("migratory.fish", path_join(home_dir, ".config/fish/config.fish")),
        ShellKind::Bash => ("migratory-autocomplete.bash", path_join(home_dir, ".bashrc")),
    }
}

/// The line that opens the completion block in a profile.
pub open spec fn marker_start() -> Seq<char> {
    "# >>>> Migratory command completion (start)"@
}

/// The line that closes the completion block in a profile.
pub open spec fn marker_end() -> Seq<char> {
    "# <<<<  Migratory command completion (end)"@
}

/// The block appended to a profile: the markers around a line that sources
/// the script.
pub open spec fn completion_block_of(script_path: Seq<char>) -> Seq<char> {
    "\n"@ + marker_start() + "\n"@ + "source \""@ + script_path + "\""@ + "\n"@ + marker_end()
        + "\n"@
}

/// Returns the block appended to a profile for the script at `script_path`.
pub fn completion_block(script_path: &str) -> (s: String)
    ensures
        s@ == completion_block_of(script_path@),
{
    let mut s = "\n".to_owned();
    s.append("# >>>> Migratory command completion (start)");
    s.append("\n");
    s.append("source \"");
    s.append(script_path);
    s.append("\"");
    s.append("\n");
    s.append("# <<<<  Migratory command completion (end)");
    s.append("\n");
    s
}

/// Whether a profile still lacks the completion block: it holds no start
/// marker.
pub fn needs_completion_block(profile_content: &str) -> (b: bool)
    ensures
        b == (find_sub(profile_content@, marker_start()) is None),
{
    !mentions(profile_content, "# >>>> Migratory command completion (start)")
}

/// A profile after installation: the completion block appended, unless the
/// profile already holds the start marker.
pub open spec fn installed_profile(profile: Seq<char>, script_path: Seq<char>) -> Seq<char> {
    if find_sub(profile, marker_start()) is None {
        profile + completion_block_of(script_path)
    } else {
        profile
    }
}

/// Returns what installation appends to a profile holding
/// `profile_content`: the completion block for `script_path` where the
/// profile lacks the start marker, else nothing.
pub fn completion_append(profile_content: &str, script_path: &str) -> (r: Option<String>)
    ensures
        r is Some <==> find_sub(profile_content@, marker_start()) is None,
        r matches Some(s) ==> s@ == completion_block_of(script_path@),
        installed_profile(profile_content@, script_path@) == match r {
            Some(s) => profile_content@ + s@,
            None => profile_content@,
        },
{
    if needs_completion_block(profile_content) {
        Some(completion_block(script_path))
    } else {
        None
    }
}

/// The message that reports the installation.
pub open spec fn installed_message_of(profile_path: Seq<char>) -> Seq<char> {
    "Autocomplete installed at paths:\n- "@ + profile_path
}

/// Returns the message that reports the installation into `profile_path`.
pub fn installed_message(profile_path: &str) -> (s: String)
    ensures
        s@ == installed_message_of(profile_path@),
{
    let mut s = "Autocomplete installed at paths:\n- ".to_owned();
    s.append(profile_path);
    s
}

} // verus!
