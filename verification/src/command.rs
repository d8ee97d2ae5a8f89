//! Building the command line for the external print program.

use vstd::prelude::*;
use vstd::string::StringExecFns;
use crate::escape::escaped;
use crate::escape::escape_single_quotes;

verus! {

/// The command line that the shell-pipeline strategy hands to the shell:
/// the fixed template with the escaped receipt text inside single quotes.
pub open spec fn shell_command_of(text: Seq<char>) -> Seq<char> {
    "print print '"@ + escaped(text) + seq!['\'']
}

/// One spawnable external command: a program name and its argument vector,
/// handed to the surrounding application to execute.
pub struct CommandPlan {
    pub program: String,
    pub args: Vec<String>,
}

/// Which of the two interchangeable invocation strategies to use.
pub enum Strategy {
    /// Run the fixed command template inside an interactive login shell, with
    /// the receipt text escaped into a single-quoted argument, so that the
    /// user's full environment is loaded before the command resolves.
    ShellPipeline,
    /// Run an external interpreter on a delegate script, passing the receipt
    /// text as a positional argument with no shell interpretation.
    DelegateScript { interpreter: String, script_path: String },
}

/// The full command string for the shell-pipeline strategy.
pub fn shell_command_line(text: &str) -> (r: String)
    ensures
        r@ == shell_command_of(text@),
{
    let mut out: String = String::from_str("print print '");
    let escaped_text: String = escape_single_quotes(text);
    out.append(escaped_text.as_str());
    out.append("'");
    proof {
        reveal_strlit("'");
        assert("'"@ =~= seq!['\'']);
        assert(out@ =~= shell_command_of(text@));
    }
    out
}

/// The exact program and argument vector to spawn for the chosen strategy:
/// under the shell pipeline, an interactive login shell running the fixed
/// command template on the escaped text; under the delegate script, the
/// interpreter with the script path, the print verb, and the receipt text
/// passed through verbatim.
pub fn command_plan(strategy: &Strategy, text: &str) -> (r: CommandPlan)
    ensures
        strategy is ShellPipeline ==> {
            &&& r.program@ == "bash"@
            &&& r.args@.len() == 4
            &&& r.args@[0]@ == "-l"@
            &&& r.args@[1]@ == "-i"@
            &&& r.args@[2]@ == "-c"@
            &&& r.args@[3]@ == shell_command_of(text@)
        },
        strategy matches Strategy::DelegateScript { interpreter, script_path } ==> {
            &&& r.program@ == interpreter@
            &&& r.args@.len() == 3
            &&& r.args@[0]@ == script_path@
            &&& r.args@[1]@ == "print"@
            &&& r.args@[2]@ == text@
        },
{
    match strategy {
        Strategy::ShellPipeline => {
            let mut args: Vec<String> = Vec::new();
            args.push(String::from_str("-l"));
            args.push(String::from_str("-i"));
            args.push(String::from_str("-c"));
            args.push(shell_command_line(text));
            CommandPlan { program: String::from_str("bash"), args }
        },
        Strategy::DelegateScript { interpreter, script_path } => {
            let mut args: Vec<String> = Vec::new();
            args.push(script_path.clone());
            args.push(String::from_str("print"));
            args.push(String::from_str(text));
            CommandPlan { program: interpreter.clone(), args }
        },
    }
}

} // verus!
