use vstd::prelude::*;
use vstd::string::StringExecFns;

use crate::install::known_models_spec;
use crate::text::{str_equals, strings_view};

verus! {

/// What the command line asks for.
pub enum Command {
    /// Run the daemon in the foreground.
    Run,
    /// Download `model` and install the daemon as a systemd user service.
    Install { model: String },
    /// Stop and remove the service.
    Uninstall,
    /// Show model, binary and service status.
    Status,
    /// Show the usage text.
    Help,
}

/// A command line that is refused.
pub enum CliError {
    /// The first argument names no command.
    UnknownCommand { command: String },
    /// `--model` is the last argument, with no value after it.
    MissingModelValue,
}

/// A `Command` seen as character sequences.
pub enum CommandView {
    Run,
    Install { model: Seq<char> },
    Uninstall,
    Status,
    Help,
}

/// A `CliError` seen as character sequences.
pub enum CliErrorView {
    UnknownCommand { command: Seq<char> },
    MissingModelValue,
}

impl View for Command {
    type V = CommandView;

    open spec fn view(&self) -> CommandView {
        match self {
            Command::Run => CommandView::Run,
            Command::Install { model } => CommandView::Install { model: model@ },
            Command::Uninstall => CommandView::Uninstall,
            Command::Status => CommandView::Status,
            Command::Help => CommandView::Help,
        }
    }
}

impl View for CliError {
    type V = CliErrorView;

    open spec fn view(&self) -> CliErrorView {
        match self {
            CliError::UnknownCommand { command } => CliErrorView::UnknownCommand {
                command: command@,
            },
            CliError::MissingModelValue => CliErrorView::MissingModelValue,
        }
    }
}

/// The first index from `i` on at which `args` holds `w`.
pub open spec fn index_from(args: Seq<Seq<char>>, w: Seq<char>, i: int) -> Option<int>
    decreases args.len() - i,
{
    if i < 0 || i >= args.len() {
        None
    } else if args[i] == w {
        Some(i)
    } else {
        index_from(args, w, i + 1)
    }
}

/// The model that the arguments name: the one after the first `--model`, an
/// error where `--model` is last, and `large-v3-turbo` without `--model`.
pub open spec fn model_flag_spec(args: Seq<Seq<char>>) -> Result<Seq<char>, CliErrorView> {
    match index_from(args, "--model"@, 0) {
        Some(k) => if k + 1 < args.len() {
            Ok(args[k + 1])
        } else {
            Err(CliErrorView::MissingModelValue)
        },
        None => Ok("large-v3-turbo"@),
    }
}

/// The command that the arguments (without the program name) ask for.
pub open spec fn command_spec(args: Seq<Seq<char>>) -> Result<CommandView, CliErrorView> {
    if args.len() == 0 || args[0] == "run"@ {
        Ok(CommandView::Run)
    } else if args[0] == "install"@ {
        match model_flag_spec(args.skip(1)) {
            Ok(m) => Ok(CommandView::Install { model: m }),
            Err(e) => Err(e),
        }
    } else if args[0] == "uninstall"@ {
        Ok(CommandView::Uninstall)
    } else if args[0] == "status"@ {
        Ok(CommandView::Status)
    } else if args[0] == "-h"@ || args[0] == "--help"@ || args[0] == "help"@ {
        Ok(CommandView::Help)
    } else {
        Err(CliErrorView::UnknownCommand { command: args[0] })
    }
}

/// The view of a result of `parse_command` or `parse_model_flag`.
pub open spec fn result_view<T: View>(r: Result<T, CliError>) -> Result<T::V, CliErrorView> {
    match r {
        Ok(v) => Ok(v@),
        Err(e) => Err(e@),
    }
}

/// The model named by `args[from..]`.
fn model_flag_from(args: &Vec<String>, from: usize) -> (r: Result<String, CliError>)
    requires
        from <= args@.len(),
    ensures
        result_view(r) == model_flag_spec(strings_view(args@).skip(from as int)),
{
    let ghost all = strings_view(args@);
    let ghost rest = all.skip(from as int);
    let mut i: usize = from;
    while i < args.len()
        invariant
            from <= i <= args@.len(),
            all == strings_view(args@),
            rest == all.skip(from as int),
            index_from(rest, "--model"@, 0) == index_from(rest, "--model"@, i - from),
        decreases args@.len() - i,
    {
        assert(rest[i - from] == args@[i as int]@);
        if str_equals(args[i].as_str(), "--model") {
            if i + 1 < args.len() {
                assert(rest[i - from + 1] == args@[i + 1]@);
                return Ok(args[i + 1].clone());
            }
            return Err(CliError::MissingModelValue);
        }
        i = i + 1;
    }
    Ok(String::from_str("large-v3-turbo"))
}

/// The model that `args` names with `--model`, or the default model.
pub fn parse_model_flag(args: &Vec<String>) -> (r: Result<String, CliError>)
    ensures
        result_view(r) == model_flag_spec(strings_view(args@)),
{
    assert(strings_view(args@).skip(0) =~= strings_view(args@));
    model_flag_from(args, 0)
}

/// The command that the arguments (without the program name) ask for.
pub fn parse_command(args: &Vec<String>) -> (r: Result<Command, CliError>)
    ensures
        result_view(r) == command_spec(strings_view(args@)),
{
    if args.len() == 0 {
        return Ok(Command::Run);
    }
    let first = args[0].as_str();
    assert(strings_view(args@)[0] == first@);
    if str_equals(first, "run") {
        Ok(Command::Run)
    } else if str_equals(first, "install") {
        match model_flag_from(args, 1) {
            Ok(model) => Ok(Command::Install { model }),
            Err(e) => Err(e),
        }
    } else if str_equals(first, "uninstall") {
        Ok(Command::Uninstall)
    } else if str_equals(first, "status") {
        Ok(Command::Status)
    } else if str_equals(first, "-h") || str_equals(first, "--help") || str_equals(first, "help") {
        Ok(Command::Help)
    } else {
        Err(CliError::UnknownCommand { command: args[0].clone() })
    }
}


/// Without `--model`, `install` asks for a model that the installer knows.
pub proof fn lemma_default_model_known(args: Seq<Seq<char>>)
    requires
        index_from(args, "--model"@, 0) is None,
    ensures
        model_flag_spec(args) is Ok,
        known_models_spec().contains(model_flag_spec(args)->Ok_0),
{
    assert(known_models_spec()[11] == "large-v3-turbo"@);
}

/// Arguments that are not `w` are passed over in the search for it.
pub proof fn lemma_index_from_skips(args: Seq<Seq<char>>, w: Seq<char>, i: int, j: int)
    requires
        0 <= i <= j <= args.len(),
        forall|k: int| i <= k < j ==> args[k] != w,
    ensures
        index_from(args, w, i) == index_from(args, w, j),
    decreases j - i,
{
    if i < j {
        lemma_index_from_skips(args, w, i + 1, j);
    }
}

/// The model asked for is exactly the argument after the first `--model`,
/// whatever comes before (without `--model`) or after it; a `--model` with
/// nothing after it is refused; without `--model` the default model is asked
/// for.
pub proof fn lemma_model_flag_value(a: Seq<Seq<char>>, m: Seq<char>, b: Seq<Seq<char>>)
    requires
        !a.contains("--model"@),
    ensures
        model_flag_spec(a + seq!["--model"@, m] + b) == Ok::<Seq<char>, CliErrorView>(m),
        model_flag_spec(a + seq!["--model"@]) == Err::<Seq<char>, CliErrorView>(
            CliErrorView::MissingModelValue,
        ),
        model_flag_spec(a) == Ok::<Seq<char>, CliErrorView>("large-v3-turbo"@),
{
    let s = a + seq!["--model"@, m] + b;
    let t = a + seq!["--model"@];
    assert forall|k: int| 0 <= k < a.len() implies s[k] != "--model"@ && t[k] != "--model"@
        && a[k] != "--model"@ by {
        assert(s[k] == a[k]);
        assert(t[k] == a[k]);
    }
    lemma_index_from_skips(s, "--model"@, 0, a.len() as int);
    lemma_index_from_skips(t, "--model"@, 0, a.len() as int);
    lemma_index_from_skips(a, "--model"@, 0, a.len() as int);
    assert(s[a.len() as int] == "--model"@);
    assert(s[a.len() + 1 as int] == m);
    assert(t[a.len() as int] == "--model"@);
}

/// `install` asks for exactly the model after the first `--model` among the
/// following arguments, for every model name.
pub proof fn lemma_install_model(a: Seq<Seq<char>>, m: Seq<char>, b: Seq<Seq<char>>)
    requires
        !a.contains("--model"@),
    ensures
        command_spec(seq!["install"@] + (a + seq!["--model"@, m] + b)) == Ok::<
            CommandView,
            CliErrorView,
        >(CommandView::Install { model: m }),
{
    let args = seq!["install"@] + (a + seq!["--model"@, m] + b);
    assert(args[0] == "install"@);
    assert(args.skip(1) =~= a + seq!["--model"@, m] + b);
    lemma_model_flag_value(a, m, b);
    reveal_strlit("install");
    reveal_strlit("run");
}

} // verus!
