//! The accounts, and how the program of one is started.

use vstd::prelude::*;
use vstd::string::*;

use crate::names::NameMap;
use crate::text;

verus! {

/// An account to monitor.
#[derive(Debug, Clone)]
pub struct Account {
    /// The label that tells the account from the others.
    pub name: String,
    /// The program to run, by its name or its path.
    pub executable: String,
    /// What is added to the environment of the program.
    pub environment: NameMap<String>,
}

impl Account {
    pub open spec fn wf(self) -> bool {
        self.environment.wf()
    }
}

/// The values of a map, as texts.
pub open spec fn value_texts(values: Map<Seq<char>, String>) -> Map<Seq<char>, Seq<char>> {
    values.map_values(|value: String| value@)
}

/// How the program of an account is started.
#[derive(Debug)]
pub struct Launch {
    pub program: String,
    pub arguments: Vec<String>,
    /// What is set on top of the environment of the monitor.
    pub environment: NameMap<String>,
    /// The name of the thread that reads the output of the program.
    pub reader_name: String,
}

impl Launch {
    /// How the program of `account` is started: without the check for updates, on a terminal of
    /// a known type, and with what the account adds to the environment.
    pub fn new(account: &Account) -> (r: Launch)
        requires
            account.wf(),
        ensures
            r.program@ == account.executable@,
            text::texts(r.arguments@) == seq!["-c"@, "check_for_update_on_startup=false"@],
            r.environment.wf(),
            value_texts(r.environment@) == map!["TERM"@ => "xterm-256color"@].union_prefer_right(
                value_texts(account.environment@),
            ),
            r.reader_name@ == "codex-pty-"@ + account.name@,
    {
        let mut arguments: Vec<String> = Vec::new();
        arguments.push("-c".to_owned());
        arguments.push("check_for_update_on_startup=false".to_owned());
        let mut environment: NameMap<String> = NameMap::new();
        environment.insert("TERM".to_owned(), "xterm-256color".to_owned());
        let ghost first = value_texts(environment@);
        assert(first =~= map!["TERM"@ => "xterm-256color"@]);
        let mut i: usize = 0;
        let count: usize = account.environment.entries.len();
        proof {
            assert(account.environment.entries@.take(0) =~= Seq::empty());
            assert(first.union_prefer_right(value_texts(Map::empty())) =~= first);
        }
        while i < count
            invariant
                i <= count,
                count == account.environment.entries.len(),
                environment.wf(),
                value_texts(environment@) == first.union_prefer_right(
                    value_texts(crate::names::as_map(account.environment.entries@.take(i as int))),
                ),
            decreases count - i,
        {
            let ghost before = environment@;
            let ghost taken = account.environment.entries@.take(i as int);
            let name = account.environment.entries[i].0.clone();
            let value = account.environment.entries[i].1.clone();
            environment.insert(name, value);
            proof {
                let longer = account.environment.entries@.take(i + 1);
                assert(longer.drop_last() =~= taken);
                let map = crate::names::as_map(taken);
                assert(value_texts(map.insert(name@, value)) =~= value_texts(map).insert(
                    name@,
                    value@,
                ));
                assert(value_texts(before.insert(name@, value)) =~= value_texts(before).insert(
                    name@,
                    value@,
                ));
                assert(value_texts(environment@) =~= first.union_prefer_right(
                    value_texts(map).insert(name@, value@),
                ));
            }
            i = i + 1;
        }
        proof {
            assert(account.environment.entries@.take(count as int)
                =~= account.environment.entries@);
        }
        let mut reader_name = "codex-pty-".to_owned();
        reader_name.append(account.name.as_str());
        assert(text::texts(arguments@) =~= seq!["-c"@, "check_for_update_on_startup=false"@]);
        Launch { program: account.executable.clone(), arguments, environment, reader_name }
    }

    /// What is told where the program could not be started.
    pub fn failure_context(&self) -> (r: String)
        ensures
            r@ == "failed to start "@ + self.program@,
    {
        let mut context = "failed to start ".to_owned();
        context.append(self.program.as_str());
        context
    }
}

/// The program of an account is its own, with its own environment. The type of the terminal is set
/// where the account does not set it, and nothing else is.
pub proof fn law_launch_of_an_account(account: Account, launch: Launch, name: Seq<char>)
    requires
        call_ensures(Launch::new, (&account,), launch),
    ensures
        launch.program@ == account.executable@,
        launch.arguments@.len() == 2,
        launch.arguments@[0]@ == "-c"@,
        launch.arguments@[1]@ == "check_for_update_on_startup=false"@,
        launch.reader_name@ == "codex-pty-"@ + account.name@,
        account.environment@.dom().contains(name) ==> launch.environment@.dom().contains(name)
            && launch.environment@[name]@ == account.environment@[name]@,
        !account.environment@.dom().contains(name) && name == "TERM"@
            ==> launch.environment@.dom().contains(name) && launch.environment@[name]@
            == "xterm-256color"@,
        !account.environment@.dom().contains(name) && name != "TERM"@
            ==> !launch.environment@.dom().contains(name),
{
    let all = text::texts(launch.arguments@);
    assert(all.len() == 2);
    assert(all[0] == launch.arguments@[0]@ && all[1] == launch.arguments@[1]@);
    let own = value_texts(account.environment@);
    let set = value_texts(launch.environment@);
    assert(own.dom().contains(name) == account.environment@.dom().contains(name));
    assert(set.dom().contains(name) == launch.environment@.dom().contains(name));
    assert(own.dom().contains(name) ==> own[name] == account.environment@[name]@);
    assert(set.dom().contains(name) ==> set[name] == launch.environment@[name]@);
}

/// A program that could not be started is named.
pub proof fn law_failed_launch_is_told(launch: Launch, said: String)
    requires
        call_ensures(Launch::failure_context, (&launch,), said),
    ensures
        said@ == "failed to start "@ + launch.program@,
{
}

} // verus!
