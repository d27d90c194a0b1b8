//! Command-line options of the server.
use crate::text::same_text;
use vstd::prelude::*;

verus! {

/// Settings given on the command line; each takes precedence over the
/// matching LSP initialization option.
#[derive(Debug, Clone, Default, PartialEq, Eq)]
pub struct CommandLineOptions {
    pub phpstan_path: Option<String>,
    pub configuration_path: Option<String>,
    pub memory_limit: Option<String>,
}

/// What the command line asks the program to do.
#[derive(Debug)]
pub enum CommandLineAction {
    Start(CommandLineOptions),
    Help,
}

/// The command-line options as plain text.
pub struct OptionsView {
    pub phpstan_path: Option<Seq<char>>,
    pub configuration_path: Option<Seq<char>>,
    pub memory_limit: Option<Seq<char>>,
}

impl View for CommandLineOptions {
    type V = OptionsView;

    open spec fn view(&self) -> OptionsView {
        OptionsView {
            phpstan_path: self.phpstan_path.deep_view(),
            configuration_path: self.configuration_path.deep_view(),
            memory_limit: self.memory_limit.deep_view(),
        }
    }
}

/// The command-line action as plain text.
pub enum ActionView {
    Start(OptionsView),
    Help,
}

impl View for CommandLineAction {
    type V = ActionView;

    open spec fn view(&self) -> ActionView {
        match self {
            CommandLineAction::Start(options) => ActionView::Start(options@),
            CommandLineAction::Help => ActionView::Help,
        }
    }
}

pub const HELP: &'static str = "Usage: phpstan-diagnostics-lsp [OPTIONS]\n\nA diagnostics-only Language Server Protocol adapter for PHPStan.\n\nOptions:\n  --phpstan-path <PATH>     Path to the PHPStan executable\n  -c, --configuration <PATH>\n                            Path to the PHPStan configuration file\n  --memory-limit <LIMIT>    PHP memory limit passed to PHPStan (for example, 1G)\n  -h, --help                Print help\n";

/// The sentence that ends every command-line error.
pub open spec fn usage_hint() -> Seq<char> {
    "\n\nRun phpstan-diagnostics-lsp --help for usage."@
}

/// The error for an argument that names no option.
pub open spec fn unknown_argument_message(argument: Seq<char>) -> Seq<char> {
    "Unknown argument: "@ + argument + usage_hint()
}

/// The error for an option given last, without its value.
pub open spec fn missing_value_message(option: Seq<char>) -> Seq<char> {
    "Missing value for "@ + option + usage_hint()
}

/// The options with none set.
pub open spec fn no_options() -> OptionsView {
    OptionsView { phpstan_path: None, configuration_path: None, memory_limit: None }
}

/// The arguments as plain text.
pub open spec fn arguments_view(arguments: Seq<String>) -> Seq<Seq<char>> {
    arguments.map_values(|a: String| a@)
}

/// What the arguments from position `i` on ask for, given the options read
/// before them: the first help flag wins, each option takes the argument
/// after it (a later one overriding an earlier one), and the first argument
/// that is no option, or an option without its value, is an error.
pub open spec fn parse_from(arguments: Seq<Seq<char>>, i: int, options: OptionsView) -> Result<
    ActionView,
    Seq<char>,
>
    decreases arguments.len() - i,
{
    if i < 0 || i >= arguments.len() {
        Ok(ActionView::Start(options))
    } else {
        let argument = arguments[i];
        if argument == "-h"@ || argument == "--help"@ {
            Ok(ActionView::Help)
        } else if argument == "--phpstan-path"@ || argument == "-c"@ || argument
            == "--configuration"@ || argument == "--memory-limit"@ {
            if i + 1 >= arguments.len() {
                Err(missing_value_message(argument))
            } else {
                let value = Some(arguments[i + 1]);
                let next = if argument == "--phpstan-path"@ {
                    OptionsView { phpstan_path: value, ..options }
                } else if argument == "--memory-limit"@ {
                    OptionsView { memory_limit: value, ..options }
                } else {
                    OptionsView { configuration_path: value, ..options }
                };
                parse_from(arguments, i + 2, next)
            }
        } else {
            Err(unknown_argument_message(argument))
        }
    }
}

/// What the whole argument list asks for.
pub open spec fn spec_parse(arguments: Seq<Seq<char>>) -> Result<ActionView, Seq<char>> {
    parse_from(arguments, 0, no_options())
}

/// The value that follows an option: the argument at `index`, or the error
/// that the option has no value.
pub fn next_value(arguments: &Vec<String>, index: usize, option: &str) -> (r: Result<
    String,
    String,
>)
    ensures
        index < arguments@.len() ==> (r matches Ok(v) && v@ == arguments@[index as int]@),
        index >= arguments@.len() ==> (r matches Err(e) && e@ == missing_value_message(option@)),
{
    if index < arguments.len() {
        Ok(arguments[index].clone())
    } else {
        Err(
            String::from_str("Missing value for ").concat(option).concat(
                "\n\nRun phpstan-diagnostics-lsp --help for usage.",
            ),
        )
    }
}

/// Reads the command-line arguments (without the program name).
pub fn parse(arguments: Vec<String>) -> (r: Result<CommandLineAction, String>)
    ensures
        match (r, spec_parse(arguments_view(arguments@))) {
            (Ok(action), Ok(expected)) => action@ == expected,
            (Err(message), Err(expected)) => message@ == expected,
            _ => false,
        },
{
    let ghost all = arguments_view(arguments@);
    let mut options = CommandLineOptions {
        phpstan_path: None,
        configuration_path: None,
        memory_limit: None,
    };
    let mut i: usize = 0;
    while i < arguments.len()
        invariant
            i <= arguments@.len(),
            all == arguments_view(arguments@),
            all.len() == arguments@.len(),
            spec_parse(all) == parse_from(all, i as int, options@),
        decreases arguments@.len() - i,
    {
        let argument = &arguments[i];
        assert(all[i as int] == argument@);
        if same_text(argument.as_str(), "-h") || same_text(argument.as_str(), "--help") {
            return Ok(CommandLineAction::Help);
        }
        let is_path = same_text(argument.as_str(), "--phpstan-path");
        let is_configuration = same_text(argument.as_str(), "-c") || same_text(
            argument.as_str(),
            "--configuration",
        );
        let is_limit = same_text(argument.as_str(), "--memory-limit");
        if !(is_path || is_configuration || is_limit) {
            return Err(
                String::from_str("Unknown argument: ").concat(argument.as_str()).concat(
                    "\n\nRun phpstan-diagnostics-lsp --help for usage.",
                ),
            );
        }
        let value = match next_value(&arguments, i + 1, argument.as_str()) {
            Ok(value) => value,
            Err(message) => {
                return Err(message);
            },
        };
        assert(all[i + 1] == value@);
        if is_path {
            options.phpstan_path = Some(value);
        } else if is_limit {
            options.memory_limit = Some(value);
        } else {
            options.configuration_path = Some(value);
        }
        i = i + 2;
    }
    Ok(CommandLineAction::Start(options))
}


/// A help flag as the first argument asks for help, whatever follows it.
pub proof fn lemma_help_first(arguments: Seq<Seq<char>>)
    requires
        arguments.len() > 0,
        arguments[0] == "-h"@ || arguments[0] == "--help"@,
    ensures
        spec_parse(arguments) == Ok::<ActionView, Seq<char>>(ActionView::Help),
{
}

/// Without arguments the server starts with no option set.
pub proof fn lemma_no_arguments()
    ensures
        spec_parse(Seq::empty()) == Ok::<ActionView, Seq<char>>(ActionView::Start(no_options())),
{
}

/// An argument that is no option is rejected with an error that names it,
/// whatever follows it.
pub proof fn lemma_unknown_first(arguments: Seq<Seq<char>>)
    requires
        arguments.len() > 0,
        arguments[0] != "-h"@ && arguments[0] != "--help"@ && arguments[0] != "--phpstan-path"@
            && arguments[0] != "-c"@ && arguments[0] != "--configuration"@ && arguments[0]
            != "--memory-limit"@,
    ensures
        spec_parse(arguments) == Err::<ActionView, Seq<char>>(
            unknown_argument_message(arguments[0]),
        ),
{
}


/// Arguments that are read in full leave the options they set to whatever
/// follows them: the arguments after them are read as if they came first,
/// from those options.
pub proof fn lemma_accepted_prefix(
    accepted: Seq<Seq<char>>,
    rest: Seq<Seq<char>>,
    i: int,
    options: OptionsView,
)
    requires
        0 <= i <= accepted.len(),
    ensures
        parse_from(accepted, i, options) matches Ok(ActionView::Start(set)) ==> parse_from(
            accepted + rest,
            i,
            options,
        ) == parse_from(accepted + rest, accepted.len() as int, set),
    decreases accepted.len() - i,
{
    let all = accepted + rest;
    if i < accepted.len() {
        assert(all[i] == accepted[i]);
        let argument = accepted[i];
        if argument == "--phpstan-path"@ || argument == "-c"@ || argument == "--configuration"@
            || argument == "--memory-limit"@ {
            if i + 1 < accepted.len() {
                assert(all[i + 1] == accepted[i + 1]);
                let value = Some(accepted[i + 1]);
                let next = if argument == "--phpstan-path"@ {
                    OptionsView { phpstan_path: value, ..options }
                } else if argument == "--memory-limit"@ {
                    OptionsView { memory_limit: value, ..options }
                } else {
                    OptionsView { configuration_path: value, ..options }
                };
                lemma_accepted_prefix(accepted, rest, i + 2, next);
            }
        }
    }
}

/// A help flag after arguments that are read in full asks for help, whatever
/// follows it, unknown arguments and options without values included.
pub proof fn lemma_help_after_accepted(
    accepted: Seq<Seq<char>>,
    help: Seq<char>,
    rest: Seq<Seq<char>>,
)
    requires
        spec_parse(accepted) is Ok,
        spec_parse(accepted)->Ok_0 is Start,
        help == "-h"@ || help == "--help"@,
    ensures
        spec_parse(accepted + seq![help] + rest) == Ok::<ActionView, Seq<char>>(ActionView::Help),
{
    let tail = seq![help] + rest;
    assert(accepted + seq![help] + rest =~= accepted + tail);
    lemma_accepted_prefix(accepted, tail, 0, no_options());
    assert((accepted + tail)[accepted.len() as int] == help);
}

/// An option and its value after arguments that are read in full set that
/// option's field to the value and keep the others: a later occurrence
/// overrides an earlier one, and `-c` and `--configuration` are the same.
pub proof fn lemma_option_after_accepted(
    accepted: Seq<Seq<char>>,
    option: Seq<char>,
    value: Seq<char>,
)
    requires
        spec_parse(accepted) is Ok,
        spec_parse(accepted)->Ok_0 is Start,
        option == "--phpstan-path"@ || option == "-c"@ || option == "--configuration"@ || option
            == "--memory-limit"@,
    ensures
        ({
            let set = spec_parse(accepted)->Ok_0->Start_0;
            let expected = if option == "--phpstan-path"@ {
                OptionsView { phpstan_path: Some(value), ..set }
            } else if option == "--memory-limit"@ {
                OptionsView { memory_limit: Some(value), ..set }
            } else {
                OptionsView { configuration_path: Some(value), ..set }
            };
            spec_parse(accepted + seq![option, value]) == Ok::<ActionView, Seq<char>>(
                ActionView::Start(expected),
            )
        }),
{
    let all = accepted + seq![option, value];
    lemma_accepted_prefix(accepted, seq![option, value], 0, no_options());
    let n = accepted.len() as int;
    assert(all[n] == option);
    assert(all[n + 1] == value);
    reveal_strlit("-h");
    reveal_strlit("--help");
    reveal_strlit("--phpstan-path");
    reveal_strlit("-c");
    reveal_strlit("--configuration");
    reveal_strlit("--memory-limit");
    assert("-h"@.len() == 2);
    assert("--help"@.len() == 6);
    assert("--phpstan-path"@.len() == 14);
    assert("-c"@.len() == 2);
    assert("--configuration"@.len() == 15);
    assert("--memory-limit"@.len() == 14);
    assert("-c"@[1] == 'c');
    assert("-h"@[1] == 'h');
    assert("--phpstan-path"@[2] == 'p');
    assert("--memory-limit"@[2] == 'm');
    assert(option != "-h"@) by {
        if option == "-c"@ {
            assert(option[1] != "-h"@[1]);
        }
    }
    assert(option != "--help"@);
    assert(option == "--phpstan-path"@ ==> option != "--memory-limit"@) by {
        if option == "--phpstan-path"@ {
            assert(option[2] != "--memory-limit"@[2]);
        }
    }
    let set = set_of(accepted);
    let expected = if option == "--phpstan-path"@ {
        OptionsView { phpstan_path: Some(value), ..set }
    } else if option == "--memory-limit"@ {
        OptionsView { memory_limit: Some(value), ..set }
    } else {
        OptionsView { configuration_path: Some(value), ..set }
    };
    assert(all.len() == n + 2);
    assert(parse_from(all, n + 2, expected) == Ok::<ActionView, Seq<char>>(
        ActionView::Start(expected),
    ));
    assert(parse_from(all, n, set) == parse_from(all, n + 2, expected));
    assert(parse_from(all, 0, no_options()) == parse_from(all, n, set));
}

/// The options that arguments read in full set.
pub open spec fn set_of(accepted: Seq<Seq<char>>) -> OptionsView {
    spec_parse(accepted)->Ok_0->Start_0
}

} // verus!
