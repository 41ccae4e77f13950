//! The command line.

use vstd::prelude::*;
use vstd::string::*;

use crate::text;

verus! {

/// What the command line asks for.
#[derive(Debug, Clone)]
pub struct Options {
    /// Run one cycle, then exit.
    pub once: bool,
    /// Print reports without sending them.
    pub no_discord: bool,
    /// The file that holds the configuration.
    pub config_path: String,
}

/// What the program does with its command line.
#[derive(Debug, Clone)]
pub enum Command {
    Run(Options),
    /// Show how the program is used, then exit.
    Help,
}

/// What is wrong with a command line.
#[derive(Debug, Clone)]
pub enum OptionsError {
    MissingPath,
    Unknown(String),
}

impl OptionsError {
    /// The sentence that tells the user what is wrong.
    pub open spec fn text(self) -> Seq<char> {
        match self {
            OptionsError::MissingPath => "--config requires a file path"@,
            OptionsError::Unknown(argument) => "unknown argument: "@ + argument@,
        }
    }

    /// The sentence that tells the user what is wrong.
    pub fn message(&self) -> (r: String)
        ensures
            r@ == self.text(),
    {
        match self {
            OptionsError::MissingPath => "--config requires a file path".to_owned(),
            OptionsError::Unknown(argument) => {
                let mut message = "unknown argument: ".to_owned();
                message.append(argument.as_str());
                message
            },
        }
    }
}

/// What a list of arguments means.
pub enum Meaning {
    Run { once: bool, no_discord: bool, config_path: Seq<char> },
    Help,
    MissingPath,
    Unknown(Seq<char>),
}

/// What `arguments` mean, read one after the other, where earlier ones have asked for `once`,
/// `no_discord` and `config_path`. What is wrong with an argument, or a call for help, decides
/// before the arguments behind it are read.
pub open spec fn meaning(
    arguments: Seq<Seq<char>>,
    once: bool,
    no_discord: bool,
    config_path: Seq<char>,
) -> Meaning
    decreases arguments.len(),
{
    if arguments.len() == 0 {
        Meaning::Run { once, no_discord, config_path }
    } else if arguments[0] == "--once"@ {
        meaning(arguments.skip(1), true, no_discord, config_path)
    } else if arguments[0] == "--no-discord"@ {
        meaning(arguments.skip(1), once, true, config_path)
    } else if arguments[0] == "--config"@ {
        if arguments.len() == 1 {
            Meaning::MissingPath
        } else {
            meaning(arguments.skip(2), once, no_discord, arguments[1])
        }
    } else if arguments[0] == "-h"@ || arguments[0] == "--help"@ {
        Meaning::Help
    } else {
        Meaning::Unknown(arguments[0])
    }
}

/// Whether `result` tells that a command line means `meaning`.
pub open spec fn tells(result: Result<Command, OptionsError>, meaning: Meaning) -> bool {
    match meaning {
        Meaning::Run { once, no_discord, config_path } => result matches Ok(Command::Run(options))
            && options.once == once && options.no_discord == no_discord && options.config_path@
            == config_path,
        Meaning::Help => result matches Ok(Command::Help),
        Meaning::MissingPath => result matches Err(OptionsError::MissingPath),
        Meaning::Unknown(argument) => result matches Err(OptionsError::Unknown(reported))
            && reported@ == argument,
    }
}

/// Whether `argument` is `name`.
fn is_named(argument: &String, name: &str) -> (r: bool)
    ensures
        r == (argument@ == name@),
{
    *argument == name.to_owned()
}

impl Options {
    /// Reads the arguments behind the name of the program.
    pub fn parse(arguments: &[String]) -> (r: Result<Command, OptionsError>)
        ensures
            tells(r, meaning(text::texts(arguments@), false, false, "config.toml"@)),
    {
        let mut options = Options {
            once: false,
            no_discord: false,
            config_path: "config.toml".to_owned(),
        };
        let ghost all = text::texts(arguments@);
        let ghost whole = meaning(all, false, false, "config.toml"@);
        let mut i: usize = 0;
        assert(all.skip(0) =~= all);
        while i < arguments.len()
            invariant
                i <= arguments.len(),
                all == text::texts(arguments@),
                whole == meaning(all, false, false, "config.toml"@),
                whole == meaning(
                    all.skip(i as int),
                    options.once,
                    options.no_discord,
                    options.config_path@,
                ),
            ensures
                i == arguments.len(),
                whole == (Meaning::Run {
                    once: options.once,
                    no_discord: options.no_discord,
                    config_path: options.config_path@,
                }),
            decreases arguments.len() - i,
        {
            let argument = &arguments[i];
            let ghost rest = all.skip(i as int);
            proof {
                assert(rest[0] == argument@);
                assert(rest.skip(1) =~= all.skip(i + 1));
                if rest.len() > 1 {
                    assert(rest[1] == all[i + 1]);
                    assert(rest.skip(2) =~= all.skip(i + 2));
                }
            }
            if is_named(argument, "--once") {
                options.once = true;
                i = i + 1;
            } else if is_named(argument, "--no-discord") {
                options.no_discord = true;
                i = i + 1;
            } else if is_named(argument, "--config") {
                if arguments.len() - i < 2 {
                    return Err(OptionsError::MissingPath);
                }
                options.config_path = arguments[i + 1].clone();
                i = i + 2;
            } else if is_named(argument, "-h") || is_named(argument, "--help") {
                return Ok(Command::Help);
            } else {
                return Err(OptionsError::Unknown(argument.clone()));
            }
        }
        Ok(Command::Run(options))
    }
}

/// How the program is used.
pub fn help_text() -> (r: String)
    ensures
        r@
            == "codex-monitor\n\nUSAGE:\n    codex-monitor [--once] [--no-discord] [--config PATH]\n\nOPTIONS:\n    --once          Run immediately, then exit\n    --no-discord    Print locally without using a Discord webhook\n    --config PATH   Read this TOML file (default: config.toml)\n"@,
{
    "codex-monitor\n\nUSAGE:\n    codex-monitor [--once] [--no-discord] [--config PATH]\n\nOPTIONS:\n    --once          Run immediately, then exit\n    --no-discord    Print locally without using a Discord webhook\n    --config PATH   Read this TOML file (default: config.toml)\n".to_owned()
}

proof fn lemma_meaning_of_more(
    arguments: Seq<Seq<char>>,
    more: Seq<Seq<char>>,
    once: bool,
    no_discord: bool,
    config_path: Seq<char>,
)
    ensures
        match meaning(arguments, once, no_discord, config_path) {
            Meaning::Run { once: o, no_discord: n, config_path: p } => meaning(
                arguments + more,
                once,
                no_discord,
                config_path,
            ) == meaning(more, o, n, p),
            Meaning::MissingPath => true,
            decided => meaning(arguments + more, once, no_discord, config_path) == decided,
        },
    decreases arguments.len(),
{
    let all = arguments + more;
    if arguments.len() == 0 {
        assert(all =~= more);
    } else {
        assert(all[0] == arguments[0]);
        assert(all.skip(1) =~= arguments.skip(1) + more);
        if arguments[0] == "--once"@ {
            lemma_meaning_of_more(arguments.skip(1), more, true, no_discord, config_path);
        } else if arguments[0] == "--no-discord"@ {
            lemma_meaning_of_more(arguments.skip(1), more, once, true, config_path);
        } else if arguments[0] == "--config"@ && arguments.len() > 1 {
            assert(all[1] == arguments[1]);
            assert(all.skip(2) =~= arguments.skip(2) + more);
            lemma_meaning_of_more(arguments.skip(2), more, once, no_discord, arguments[1]);
        }
    }
}

/// Without arguments the program runs on its schedule, sends its reports, and is configured by
/// `config.toml`.
pub proof fn law_no_arguments(arguments: &[String], read: Result<Command, OptionsError>)
    requires
        call_ensures(Options::parse, (arguments,), read),
        arguments@.len() == 0,
    ensures
        read matches Ok(Command::Run(options)) && !options.once && !options.no_discord
            && options.config_path@ == "config.toml"@,
{
}

/// Where the arguments before are understood, one more argument sets what it stands for and leaves the
/// rest as it is. One that stands for nothing is unknown, and a path cannot be left out.
pub proof fn law_one_more_argument(
    arguments: &[String],
    options: Options,
    more: &[String],
    read: Result<Command, OptionsError>,
)
    requires
        call_ensures(Options::parse, (arguments,), Ok(Command::Run(options))),
        call_ensures(Options::parse, (more,), read),
        more@.len() == arguments@.len() + 1,
        more@.drop_last() == arguments@,
    ensures
        ({
            let last = more@.last()@;
            &&& last == "--once"@ ==> (read matches Ok(Command::Run(o)) && o.once && o.no_discord
                == options.no_discord && o.config_path@ == options.config_path@)
            &&& last == "--no-discord"@ ==> (read matches Ok(Command::Run(o)) && o.no_discord && o.once
                == options.once && o.config_path@ == options.config_path@)
            &&& last == "--config"@ ==> (read matches Err(error) && error is MissingPath)
            &&& last == "-h"@ || last == "--help"@ ==> read is Ok && read->Ok_0 is Help
            &&& last != "--once"@ && last != "--no-discord"@ && last != "--config"@ && last != "-h"@
                && last != "--help"@ ==> (read matches Err(OptionsError::Unknown(said)) && said@
                == last)
        }),
{
    reveal_strlit("--once");
    reveal_strlit("--no-discord");
    reveal_strlit("--config");
    reveal_strlit("-h");
    reveal_strlit("--help");
    assert("--once"@.len() == 6 && "--no-discord"@.len() == 12 && "--config"@.len() == 8 && "-h"@.len()
        == 2 && "--help"@.len() == 6);
    assert("--once"@[2] != "--help"@[2]);
    let before = text::texts(arguments@);
    let last = seq![more@.last()@];
    assert(text::texts(more@) =~= before + last);
    lemma_meaning_of_more(before, last, false, false, "config.toml"@);
    assert(last.skip(1) =~= Seq::empty());
    assert(last[0] == more@.last()@);
    reveal_with_fuel(meaning, 2);
}

/// Where the arguments before are understood, a path behind `--config` replaces the one that was set,
/// whatever it is.
pub proof fn law_path_of_the_configuration(
    arguments: &[String],
    options: Options,
    more: &[String],
    read: Result<Command, OptionsError>,
)
    requires
        call_ensures(Options::parse, (arguments,), Ok(Command::Run(options))),
        call_ensures(Options::parse, (more,), read),
        more@.len() == arguments@.len() + 2,
        more@.take(arguments@.len() as int) == arguments@,
        more@[arguments@.len() as int]@ == "--config"@,
    ensures
        read matches Ok(Command::Run(o)) && o.config_path@ == more@.last()@ && o.once == options.once
            && o.no_discord == options.no_discord,
{
    reveal_strlit("--once");
    reveal_strlit("--no-discord");
    reveal_strlit("--config");
    assert("--once"@.len() == 6 && "--no-discord"@.len() == 12 && "--config"@.len() == 8);
    let before = text::texts(arguments@);
    let last = seq!["--config"@, more@.last()@];
    assert(text::texts(more@) =~= before + last) by {
        assert forall|i: int| 0 <= i < arguments@.len() implies more@[i] == arguments@[i] by {
            assert(more@.take(arguments@.len() as int)[i] == more@[i]);
        }
    }
    lemma_meaning_of_more(before, last, false, false, "config.toml"@);
    assert(last.skip(2) =~= Seq::empty());
    assert(last[0] == "--config"@ && last[1] == more@.last()@);
    reveal_with_fuel(meaning, 2);
}

/// A call for help, and an unknown argument, decide whatever stands behind them.
pub proof fn law_decided_arguments(
    arguments: &[String],
    first: Result<Command, OptionsError>,
    more: &[String],
    read: Result<Command, OptionsError>,
)
    requires
        call_ensures(Options::parse, (arguments,), first),
        call_ensures(Options::parse, (more,), read),
        arguments@.len() <= more@.len(),
        more@.take(arguments@.len() as int) == arguments@,
    ensures
        first matches Ok(Command::Help) ==> read matches Ok(Command::Help),
        first matches Err(OptionsError::Unknown(said)) ==> (
        read matches Err(OptionsError::Unknown(again)) && again@ == said@),
{
    let before = text::texts(arguments@);
    let behind = text::texts(more@.skip(arguments@.len() as int));
    assert(text::texts(more@) =~= before + behind) by {
        assert forall|i: int| 0 <= i < arguments@.len() implies more@[i] == arguments@[i] by {
            assert(more@.take(arguments@.len() as int)[i] == more@[i]);
        }
    }
    lemma_meaning_of_more(before, behind, false, false, "config.toml"@);
}

/// What the user is told of a command line that is wrong.
pub proof fn law_wrong_arguments_are_told(error: OptionsError, said: String)
    requires
        call_ensures(OptionsError::message, (&error,), said),
    ensures
        error is MissingPath ==> said@ == "--config requires a file path"@,
        error matches OptionsError::Unknown(argument) ==> said@ == "unknown argument: "@ + argument@,
{
}

} // verus!
