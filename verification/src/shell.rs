//! Shell mode: the utility is handed to the user's shell, which is named by
//! the environment or, failing that, is `/bin/sh`.

use vstd::prelude::*;
use vstd::string::StringExecFns;

verus! {

/// The name under which the environment holds the user's shell.
pub open spec fn shell_variable() -> Seq<char> {
    "SHELL"@
}

/// The shell to use, given what the environment says of it: the shell it
/// names, or `/bin/sh` where it names none.
pub open spec fn shell_or_default(shell: Option<Seq<char>>) -> Seq<char> {
    match shell {
        Some(name) => name,
        None => "/bin/sh"@,
    }
}

/// The two words that start a command in shell mode: the shell and `-c`.
pub open spec fn shell_command(shell: Option<Seq<char>>) -> Seq<Seq<char>> {
    seq![shell_or_default(shell), "-c"@]
}

/// The command that runs `utility` in shell mode: the shell, `-c`, and
/// behind them the words of `utility` as they were.
pub open spec fn in_shell(shell: Option<Seq<char>>, utility: Seq<Seq<char>>) -> Seq<Seq<char>> {
    shell_command(shell) + utility
}

/// The words that start a command in shell mode. `shell` is what the
/// environment holds under `SHELL`, and `None` where it holds nothing.
pub fn get_shell_cmd(shell: Option<String>) -> (command: Vec<String>)
    ensures
        command.deep_view() == shell_command(shell.deep_view()),
{
    let name = match shell {
        Some(name) => name,
        None => String::from_str("/bin/sh"),
    };
    let mut command: Vec<String> = Vec::new();
    command.push(name);
    command.push(String::from_str("-c"));
    assert(command.deep_view() =~= shell_command(shell.deep_view()));
    command
}

/// Puts the shell and `-c` in front of `utility`, whose words keep their
/// order.
pub fn rewrite(shell: Option<String>, utility: Vec<String>) -> (command: Vec<String>)
    ensures
        command.deep_view() == in_shell(shell.deep_view(), utility.deep_view()),
{
    let mut command = get_shell_cmd(shell);
    let mut utility = utility;
    let ghost head = command.deep_view();
    let ghost tail = utility.deep_view();
    command.append(&mut utility);
    assert(command.deep_view() =~= head + tail);
    command
}

} // verus!
