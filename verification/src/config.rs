//! The configuration, its defaults, and what makes it valid.

use vstd::prelude::*;
use vstd::string::*;

use crate::accounts::Account;
use crate::codex::MonitorSettings;
use crate::text;
use crate::text::{chars_of, trimmed};
use crate::time::Span;

verus! {

/// The configuration of the monitor.
#[derive(Debug, Clone)]
pub struct AppConfig {
    pub accounts: Vec<Account>,
    pub monitor: MonitorConfig,
    pub schedule: ScheduleConfig,
    pub discord: DiscordConfig,
}

/// The size of the virtual terminal, and the time limits in seconds.
#[derive(Debug, Clone, Copy, PartialEq, Eq, Structural)]
pub struct MonitorConfig {
    pub terminal_rows: u16,
    pub terminal_cols: u16,
    pub startup_timeout_seconds: u64,
    pub status_timeout_seconds: u64,
    pub model_turn_timeout_seconds: u64,
    pub refresh_pause_seconds: u64,
    pub overall_timeout_seconds: u64,
}

impl Default for MonitorConfig {
    fn default() -> (r: Self)
        ensures
            r == (MonitorConfig {
                terminal_rows: 80,
                terminal_cols: 120,
                startup_timeout_seconds: 45,
                status_timeout_seconds: 25,
                model_turn_timeout_seconds: 90,
                refresh_pause_seconds: 4,
                overall_timeout_seconds: 300,
            }),
    {
        MonitorConfig {
            terminal_rows: 80,
            terminal_cols: 120,
            startup_timeout_seconds: 45,
            status_timeout_seconds: 25,
            model_turn_timeout_seconds: 90,
            refresh_pause_seconds: 4,
            overall_timeout_seconds: 300,
        }
    }
}

impl MonitorConfig {
    /// The settings that the configured numbers stand for.
    pub fn settings(&self) -> (r: MonitorSettings)
        ensures
            r.terminal_rows == self.terminal_rows,
            r.terminal_cols == self.terminal_cols,
            r.startup.nanos == self.startup_timeout_seconds * 1_000_000_000,
            r.status.nanos == self.status_timeout_seconds * 1_000_000_000,
            r.model_turn.nanos == self.model_turn_timeout_seconds * 1_000_000_000,
            r.refresh_pause.nanos == self.refresh_pause_seconds * 1_000_000_000,
            r.overall.nanos == self.overall_timeout_seconds * 1_000_000_000,
    {
        MonitorSettings {
            terminal_rows: self.terminal_rows,
            terminal_cols: self.terminal_cols,
            startup: Span::from_secs(self.startup_timeout_seconds),
            status: Span::from_secs(self.status_timeout_seconds),
            model_turn: Span::from_secs(self.model_turn_timeout_seconds),
            refresh_pause: Span::from_secs(self.refresh_pause_seconds),
            overall: Span::from_secs(self.overall_timeout_seconds),
        }
    }
}

/// When the monitor runs.
#[derive(Debug, Clone, Copy, PartialEq, Eq, Structural)]
pub struct ScheduleConfig {
    pub interval_minutes: u32,
}

impl Default for ScheduleConfig {
    fn default() -> (r: Self)
        ensures
            r == (ScheduleConfig { interval_minutes: 30 }),
    {
        ScheduleConfig { interval_minutes: 30 }
    }
}

/// Where reports go, and how the card is drawn.
#[derive(Debug, Clone)]
pub struct DiscordConfig {
    /// The environment variable that holds the address of the webhook.
    pub webhook_env: String,
    pub request_timeout_seconds: u64,
    pub status_font_path: String,
    /// The size of the font in pixels: the bits of a number in the binary32 format of IEEE 754.
    pub status_font_size_bits: u32,
}

impl Default for DiscordConfig {
    fn default() -> (r: Self)
        ensures
            r.webhook_env@ == "DISCORD_WEBHOOK_URL"@,
            r.request_timeout_seconds == 20,
            r.status_font_path@ == "/usr/share/fonts/truetype/dejavu/DejaVuSansMono.ttf"@,
            r.status_font_size_bits == 0x4190_0000,
    {
        DiscordConfig {
            webhook_env: "DISCORD_WEBHOOK_URL".to_owned(),
            request_timeout_seconds: 20,
            status_font_path: "/usr/share/fonts/truetype/dejavu/DejaVuSansMono.ttf".to_owned(),
            status_font_size_bits: 0x4190_0000,
        }
    }
}

/// The bits of 8.0 in the binary32 format.
pub const SMALLEST_FONT: u32 = 0x4100_0000;

/// The bits of 48.0 in the binary32 format. Between the two, the bits are ordered as the numbers
/// are, and no bits outside stand for a number between.
pub const LARGEST_FONT: u32 = 0x4240_0000;

/// What is wrong with a configuration.
#[derive(Debug)]
pub enum ConfigError {
    NoAccounts,
    EmptyAccountName,
    DuplicateAccountName(String),
    EmptyExecutable(String),
    BadInterval,
    TerminalTooSmall,
    ZeroTimeout,
    EmptyWebhookVariable,
    ZeroRequestTimeout,
    FontSizeOutOfRange,
    FontNotAFile(String),
}

impl ConfigError {
    /// The sentence that tells the user what is wrong.
    pub open spec fn text(self) -> Seq<char> {
        match self {
            ConfigError::NoAccounts =>
                "configuration must contain at least one [[accounts]] entry"@,
            ConfigError::EmptyAccountName => "account name cannot be empty"@,
            ConfigError::DuplicateAccountName(name) => "duplicate account name: "@ + name@,
            ConfigError::EmptyExecutable(name) => "account "@ + name@ + " has an empty executable"@,
            ConfigError::BadInterval =>
                "schedule.interval_minutes must be a positive divisor of 60"@,
            ConfigError::TerminalTooSmall =>
                "monitor terminal size must be at least 20 rows by 60 columns"@,
            ConfigError::ZeroTimeout => "monitor timeout values must be greater than zero"@,
            ConfigError::EmptyWebhookVariable => "discord.webhook_env cannot be empty"@,
            ConfigError::ZeroRequestTimeout =>
                "discord.request_timeout_seconds must be greater than zero"@,
            ConfigError::FontSizeOutOfRange =>
                "discord.status_font_size must be between 8 and 48"@,
            ConfigError::FontNotAFile(path) => "discord.status_font_path is not a file: "@ + path@,
        }
    }

    /// The sentence that tells the user what is wrong.
    pub fn message(&self) -> (r: String)
        ensures
            r@ == self.text(),
    {
        match self {
            ConfigError::NoAccounts =>
                "configuration must contain at least one [[accounts]] entry".to_owned(),
            ConfigError::EmptyAccountName => "account name cannot be empty".to_owned(),
            ConfigError::DuplicateAccountName(name) => {
                let mut message = "duplicate account name: ".to_owned();
                message.append(name.as_str());
                message
            },
            ConfigError::EmptyExecutable(name) => {
                let mut message = "account ".to_owned();
                message.append(name.as_str());
                message.append(" has an empty executable");
                message
            },
            ConfigError::BadInterval =>
                "schedule.interval_minutes must be a positive divisor of 60".to_owned(),
            ConfigError::TerminalTooSmall =>
                "monitor terminal size must be at least 20 rows by 60 columns".to_owned(),
            ConfigError::ZeroTimeout =>
                "monitor timeout values must be greater than zero".to_owned(),
            ConfigError::EmptyWebhookVariable => "discord.webhook_env cannot be empty".to_owned(),
            ConfigError::ZeroRequestTimeout =>
                "discord.request_timeout_seconds must be greater than zero".to_owned(),
            ConfigError::FontSizeOutOfRange =>
                "discord.status_font_size must be between 8 and 48".to_owned(),
            ConfigError::FontNotAFile(path) => {
                let mut message = "discord.status_font_path is not a file: ".to_owned();
                message.append(path.as_str());
                message
            },
        }
    }
}

/// What `str::to_lowercase` makes of a text.
pub uninterp spec fn lowercase(text: Seq<char>) -> Seq<char>;

/// `str::to_lowercase` gives the text in lower case, in the sense of Unicode.
#[verifier::external_body]
fn to_lowercase(text: &str) -> (r: String)
    ensures
        r@ == lowercase(text@),
{
    text.to_lowercase()
}

/// Whether nothing but white space stands in `s`.
pub open spec fn is_blank(s: Seq<char>) -> bool {
    text::trim(s).len() == 0
}

/// Whether nothing but white space stands in `s`.
pub fn blank(s: &str) -> (r: bool)
    ensures
        r == is_blank(s@),
{
    trimmed(chars_of(s).as_slice()).len() == 0
}

/// A text is blank where each of its characters is white space.
pub proof fn lemma_blank_is_white_space(s: Seq<char>)
    ensures
        is_blank(s) <==> forall|i: int|
            0 <= i < s.len() ==> text::is_white_space(#[trigger] s[i]),
{
    let (before, behind) = text::law_trimming_takes_white_space(s);
    if is_blank(s) {
        assert forall|i: int| 0 <= i < s.len() implies text::is_white_space(#[trigger] s[i]) by {
            if i < before.len() {
                assert(s[i] == before[i]);
            } else {
                assert(s[i] == behind[i - before.len()]);
            }
        }
    } else {
        assert(s[before.len() as int] == text::trim(s)[0]);
    }
}

/// A text is taken for blank exactly where each of its characters is white space.
pub proof fn law_blank_is_white_space(s: &str, answer: bool)
    requires
        call_ensures(blank, (s,), answer),
    ensures
        answer <==> forall|i: int| 0 <= i < s@.len() ==> text::is_white_space(#[trigger] s@[i]),
{
    lemma_blank_is_white_space(s@);
}

/// Whether the name at `i` stands in `names` before `i` too.
pub open spec fn repeats(names: Seq<String>, i: int) -> bool {
    exists|j: int| 0 <= j < i && (#[trigger] names[j])@ == names[i]@
}

/// Whether `place` is that of the first name that repeats an earlier one, and `None` where none
/// does.
pub open spec fn is_first_repeat(names: Seq<String>, place: Option<usize>) -> bool {
    match place {
        Some(i) => {
            &&& i < names.len()
            &&& repeats(names, i as int)
            &&& forall|j: int| 0 <= j < i ==> !#[trigger] repeats(names, j)
        },
        None => forall|j: int| 0 <= j < names.len() ==> !#[trigger] repeats(names, j),
    }
}

/// The place of the first name that repeats an earlier one.
pub fn first_repeat(names: &Vec<String>) -> (r: Option<usize>)
    ensures
        is_first_repeat(names@, r),
{
    let mut i: usize = 0;
    while i < names.len()
        invariant
            i <= names.len(),
            forall|j: int| 0 <= j < i ==> !#[trigger] repeats(names@, j),
        decreases names.len() - i,
    {
        let mut k: usize = 0;
        while k < i
            invariant
                k <= i < names.len(),
                forall|j: int| 0 <= j < i ==> !#[trigger] repeats(names@, j),
                forall|j: int| 0 <= j < k ==> (#[trigger] names@[j])@ != names@[i as int]@,
            decreases i - k,
        {
            if names[k] == names[i] {
                assert(names@[k as int]@ == names@[i as int]@);
                assert(repeats(names@, i as int));
                return Some(i);
            }
            k = k + 1;
        }
        assert(!repeats(names@, i as int));
        i = i + 1;
    }
    None
}

/// The names of `accounts` in lower case.
fn lowered_names(accounts: &Vec<Account>) -> (r: Vec<String>)
    ensures
        r@.len() == accounts@.len(),
        forall|j: int|
            0 <= j < r@.len() ==> (#[trigger] r@[j])@ == lowercase(accounts@[j].name@),
{
    let mut names: Vec<String> = Vec::new();
    while names.len() < accounts.len()
        invariant
            names@.len() <= accounts@.len(),
            forall|j: int|
                0 <= j < names@.len() ==> (#[trigger] names@[j])@ == lowercase(accounts@[j].name@),
        decreases accounts.len() - names.len(),
    {
        names.push(to_lowercase(accounts[names.len()].name.as_str()));
    }
    names
}

proof fn lemma_repeats(accounts: Seq<Account>, names: Seq<String>, i: int)
    requires
        0 <= i < accounts.len(),
        names.len() == accounts.len(),
        forall|j: int| 0 <= j < names.len() ==> (#[trigger] names[j])@ == lowercase(
            accounts[j].name@,
        ),
    ensures
        repeats(names, i) == repeats_a_name(accounts, i),
{
    if repeats(names, i) {
        let j = choose|j: int| 0 <= j < i && (#[trigger] names[j])@ == names[i]@;
        assert(lowercase(accounts[j].name@) == lowercase(accounts[i].name@));
    }
    if repeats_a_name(accounts, i) {
        let j = choose|j: int|
            0 <= j < i && lowercase((#[trigger] accounts[j]).name@) == lowercase(accounts[i].name@);
        assert(names[j]@ == names[i]@);
    }
}

/// Whether an account before the one at `i` has its name, but for upper and lower case.
pub open spec fn repeats_a_name(accounts: Seq<Account>, i: int) -> bool {
    exists|j: int|
        0 <= j < i && lowercase((#[trigger] accounts[j]).name@) == lowercase(accounts[i].name@)
}

/// Whether `error` is what is wrong with the account at `i`, and with none before it.
pub open spec fn is_account_error(accounts: Seq<Account>, i: int, error: ConfigError) -> bool {
    let account = accounts[i];
    match error {
        ConfigError::EmptyAccountName => is_blank(account.name@),
        ConfigError::DuplicateAccountName(name) => name@ == account.name@ && !is_blank(
            account.name@,
        ) && repeats_a_name(accounts, i),
        ConfigError::EmptyExecutable(name) => name@ == account.name@ && !is_blank(account.name@)
            && !repeats_a_name(accounts, i) && account.executable@.len() == 0,
        _ => false,
    }
}

/// Whether nothing is wrong with the account at `i`.
pub open spec fn account_is_valid(accounts: Seq<Account>, i: int) -> bool {
    &&& !is_blank(accounts[i].name@)
    &&& !repeats_a_name(accounts, i)
    &&& accounts[i].executable@.len() > 0
}

/// Whether nothing is wrong with the first `count` accounts.
pub open spec fn accounts_are_valid(accounts: Seq<Account>, count: int) -> bool {
    forall|i: int| 0 <= i < count ==> #[trigger] account_is_valid(accounts, i)
}

/// Whether `minutes` divides the hour.
pub open spec fn divides_the_hour(minutes: u32) -> bool {
    1 <= minutes <= 60 && 60u32 % minutes == 0
}

impl MonitorConfig {
    /// Whether the terminal is large enough for a card.
    pub open spec fn terminal_is_valid(self) -> bool {
        self.terminal_rows >= 20 && self.terminal_cols >= 60
    }

    /// Whether no time limit is zero.
    pub open spec fn timeouts_are_valid(self) -> bool {
        &&& self.startup_timeout_seconds > 0
        &&& self.status_timeout_seconds > 0
        &&& self.model_turn_timeout_seconds > 0
        &&& self.overall_timeout_seconds > 0
    }
}

impl AppConfig {
    /// Whether nothing is wrong with the configuration, where `font_is_file` tells whether the
    /// path of the font leads to a file.
    pub open spec fn valid(self, font_is_file: bool) -> bool {
        &&& self.accounts@.len() > 0
        &&& accounts_are_valid(self.accounts@, self.accounts@.len() as int)
        &&& divides_the_hour(self.schedule.interval_minutes)
        &&& self.monitor.terminal_is_valid()
        &&& self.monitor.timeouts_are_valid()
        &&& !is_blank(self.discord.webhook_env@)
        &&& self.discord.request_timeout_seconds > 0
        &&& SMALLEST_FONT <= self.discord.status_font_size_bits <= LARGEST_FONT
        &&& font_is_file
    }

    /// Whether `error` is the first thing that is wrong with the configuration.
    pub open spec fn fails_with(self, font_is_file: bool, error: ConfigError) -> bool {
        let accounts = self.accounts@;
        let accounts_hold = accounts.len() > 0 && accounts_are_valid(
            accounts,
            accounts.len() as int,
        );
        let interval_holds = accounts_hold && divides_the_hour(self.schedule.interval_minutes);
        let terminal_holds = interval_holds && self.monitor.terminal_is_valid();
        let timeouts_hold = terminal_holds && self.monitor.timeouts_are_valid();
        let webhook_holds = timeouts_hold && !is_blank(self.discord.webhook_env@);
        let request_holds = webhook_holds && self.discord.request_timeout_seconds > 0;
        let size_holds = request_holds && SMALLEST_FONT <= self.discord.status_font_size_bits
            <= LARGEST_FONT;
        match error {
            ConfigError::NoAccounts => accounts.len() == 0,
            ConfigError::EmptyAccountName
            | ConfigError::DuplicateAccountName(_)
            | ConfigError::EmptyExecutable(_) => exists|i: int|
                0 <= i < accounts.len() && accounts_are_valid(accounts, i)
                    && #[trigger] is_account_error(accounts, i, error),
            ConfigError::BadInterval => accounts_hold && !interval_holds,
            ConfigError::TerminalTooSmall => interval_holds && !terminal_holds,
            ConfigError::ZeroTimeout => terminal_holds && !timeouts_hold,
            ConfigError::EmptyWebhookVariable => timeouts_hold && !webhook_holds,
            ConfigError::ZeroRequestTimeout => webhook_holds && !request_holds,
            ConfigError::FontSizeOutOfRange => request_holds && !size_holds,
            ConfigError::FontNotAFile(path) => size_holds && !font_is_file && path@
                == self.discord.status_font_path@,
        }
    }

    /// Checks the accounts, one after the other.
    fn validate_accounts(&self) -> (r: Result<(), ConfigError>)
        ensures
            match r {
                Ok(()) => accounts_are_valid(self.accounts@, self.accounts@.len() as int),
                Err(error) => exists|i: int|
                    0 <= i < self.accounts@.len() && accounts_are_valid(self.accounts@, i)
                        && #[trigger] is_account_error(self.accounts@, i, error),
            },
    {
        let ghost accounts = self.accounts@;
        let names = lowered_names(&self.accounts);
        let repeated = first_repeat(&names);
        proof {
            assert forall|i: int| 0 <= i < accounts.len() implies #[trigger] repeats(names@, i)
                == repeats_a_name(accounts, i) by {
                lemma_repeats(accounts, names@, i);
            }
        }
        let mut i: usize = 0;
        while i < self.accounts.len()
            invariant
                i <= self.accounts.len(),
                accounts == self.accounts@,
                accounts_are_valid(accounts, i as int),
                names@.len() == accounts.len(),
                is_first_repeat(names@, repeated),
                forall|j: int|
                    0 <= j < accounts.len() ==> #[trigger] repeats(names@, j) == repeats_a_name(
                        accounts,
                        j,
                    ),
            decreases self.accounts.len() - i,
        {
            let account = &self.accounts[i];
            if blank(account.name.as_str()) {
                assert(is_account_error(accounts, i as int, ConfigError::EmptyAccountName));
                return Err(ConfigError::EmptyAccountName);
            }
            proof {
                assert forall|j: int| 0 <= j < i implies !#[trigger] repeats(names@, j) by {
                    assert(account_is_valid(accounts, j));
                }
                assert(repeats(names@, i as int) == (repeated == Some(i)));
            }
            if repeated == Some(i) {
                let error = ConfigError::DuplicateAccountName(account.name.clone());
                assert(is_account_error(accounts, i as int, error));
                return Err(error);
            }
            if account.executable.as_str().unicode_len() == 0 {
                let error = ConfigError::EmptyExecutable(account.name.clone());
                assert(is_account_error(accounts, i as int, error));
                return Err(error);
            }
            assert(account_is_valid(accounts, i as int));
            i = i + 1;
        }
        Ok(())
    }

    /// Checks the configuration, where `font_is_file` tells whether the path of the font leads to
    /// a file. The first thing that is wrong is reported.
    pub fn validate(&self, font_is_file: bool) -> (r: Result<(), ConfigError>)
        ensures
            match r {
                Ok(()) => self.valid(font_is_file),
                Err(error) => self.fails_with(font_is_file, error),
            },
    {
        if self.accounts.len() == 0 {
            return Err(ConfigError::NoAccounts);
        }
        match self.validate_accounts() {
            Ok(()) => {},
            Err(error) => {
                return Err(error);
            },
        }
        let interval = self.schedule.interval_minutes;
        if interval == 0 || interval > 60 || 60 % interval != 0 {
            return Err(ConfigError::BadInterval);
        }
        if self.monitor.terminal_rows < 20 || self.monitor.terminal_cols < 60 {
            return Err(ConfigError::TerminalTooSmall);
        }
        if self.monitor.startup_timeout_seconds == 0 || self.monitor.status_timeout_seconds == 0
            || self.monitor.model_turn_timeout_seconds == 0 || self.monitor.overall_timeout_seconds
            == 0 {
            return Err(ConfigError::ZeroTimeout);
        }
        if blank(self.discord.webhook_env.as_str()) {
            return Err(ConfigError::EmptyWebhookVariable);
        }
        if self.discord.request_timeout_seconds == 0 {
            return Err(ConfigError::ZeroRequestTimeout);
        }
        if self.discord.status_font_size_bits < SMALLEST_FONT || self.discord.status_font_size_bits
            > LARGEST_FONT {
            return Err(ConfigError::FontSizeOutOfRange);
        }
        if !font_is_file {
            return Err(ConfigError::FontNotAFile(self.discord.status_font_path.clone()));
        }
        Ok(())
    }
}

/// A configuration that is valid fails with no error, and one that fails with an error is not
/// valid.
pub proof fn law_valid_or_refused(config: AppConfig, font_is_file: bool, error: ConfigError)
    ensures
        config.fails_with(font_is_file, error) ==> !config.valid(font_is_file),
{
    let accounts = config.accounts@;
    if config.fails_with(font_is_file, error) && config.valid(font_is_file) {
        if error is EmptyAccountName || error is DuplicateAccountName || error is EmptyExecutable {
            let i = choose|i: int|
                0 <= i < accounts.len() && accounts_are_valid(accounts, i)
                    && #[trigger] is_account_error(accounts, i, error);
            assert(account_is_valid(accounts, i));
        }
    }
}

/// The names of the accounts of a valid configuration are told apart without regard to upper and
/// lower case.
pub proof fn law_valid_names_are_unique(config: AppConfig, font_is_file: bool, i: int, j: int)
    requires
        config.valid(font_is_file),
        0 <= i < j < config.accounts@.len(),
    ensures
        lowercase(config.accounts@[i].name@) != lowercase(config.accounts@[j].name@),
        config.accounts@[i].name@ != config.accounts@[j].name@,
{
    assert(account_is_valid(config.accounts@, j));
    assert(!repeats_a_name(config.accounts@, j));
}

/// Only one error can be reported of a configuration: two that its check may report read alike.
pub proof fn law_one_error_is_reported(
    config: AppConfig,
    font_is_file: bool,
    one: ConfigError,
    other: ConfigError,
)
    requires
        config.fails_with(font_is_file, one),
        config.fails_with(font_is_file, other),
    ensures
        one.text() == other.text(),
{
    let accounts = config.accounts@;
    let of_account = |error: ConfigError|
        error is EmptyAccountName || error is DuplicateAccountName || error is EmptyExecutable;
    if of_account(one) {
        let i = choose|i: int|
            0 <= i < accounts.len() && accounts_are_valid(accounts, i)
                && #[trigger] is_account_error(accounts, i, one);
        assert(!account_is_valid(accounts, i));
        if of_account(other) {
            let j = choose|j: int|
                0 <= j < accounts.len() && accounts_are_valid(accounts, j)
                    && #[trigger] is_account_error(accounts, j, other);
            assert(!account_is_valid(accounts, j));
            assert(i == j);
        }
    } else if of_account(other) {
        let j = choose|j: int|
            0 <= j < accounts.len() && accounts_are_valid(accounts, j)
                && #[trigger] is_account_error(accounts, j, other);
        assert(!account_is_valid(accounts, j));
    }
}

/// Whether `s` holds a character that is no white space.
pub open spec fn says_something(s: Seq<char>) -> bool {
    exists|i: int| 0 <= i < s.len() && !text::is_white_space(#[trigger] s[i])
}

/// Whether the account at `i` has a name of its own, upper and lower case aside, and a program.
pub open spec fn account_is_usable(accounts: Seq<Account>, i: int) -> bool {
    &&& says_something(accounts[i].name@)
    &&& accounts[i].executable@.len() > 0
    &&& forall|j: int|
        0 <= j < i ==> lowercase((#[trigger] accounts[j]).name@) != lowercase(accounts[i].name@)
}

/// Whether the hour is made of intervals of `minutes` minutes.
pub open spec fn makes_the_hour(minutes: u32) -> bool {
    exists|count: int| #[trigger] (minutes * count) == 60
}

proof fn lemma_makes_the_hour(minutes: u32)
    ensures
        makes_the_hour(minutes) <==> divides_the_hour(minutes),
{
    let m = minutes as int;
    if divides_the_hour(minutes) {
        vstd::arithmetic::div_mod::lemma_fundamental_div_mod(60, m);
        assert(minutes * (60int / m) == 60);
    }
    if makes_the_hour(minutes) {
        let count = choose|count: int| #[trigger] (minutes * count) == 60;
        assert(1 <= m <= 60 && count >= 1) by (nonlinear_arith)
            requires
                m * count == 60,
                m >= 0,
        ;
        vstd::arithmetic::div_mod::lemma_mod_multiples_basic(count, m);
        assert(count * m == m * count) by (nonlinear_arith);
        assert(60int % m == 0);
        assert(60u32 % minutes == 0);
    }
}

proof fn lemma_usable(accounts: Seq<Account>, i: int)
    requires
        0 <= i < accounts.len(),
    ensures
        account_is_usable(accounts, i) <==> account_is_valid(accounts, i),
{
    lemma_blank_is_white_space(accounts[i].name@);
}

/// A configuration is accepted exactly where it has accounts, each with a name of its own and a
/// program, an interval that the hour is made of, a terminal of at least 20 rows and 60 columns, time
/// for everything, a variable for the webhook, and a font that is a file and 8 to 48 pixels high. Of
/// what is wrong the first thing is told.
pub proof fn law_configuration_is_checked(
    config: AppConfig,
    font_is_file: bool,
    checked: Result<(), ConfigError>,
)
    requires
        call_ensures(AppConfig::validate, (&config, font_is_file), checked),
    ensures
        ({
            let accounts = config.accounts@;
            let monitor = config.monitor;
            let a = accounts.len() > 0;
            let b = a && forall|i: int|
                0 <= i < accounts.len() ==> #[trigger] account_is_usable(accounts, i);
            let c = b && makes_the_hour(config.schedule.interval_minutes);
            let d = c && monitor.terminal_rows >= 20 && monitor.terminal_cols >= 60;
            let e = d && monitor.startup_timeout_seconds != 0 && monitor.status_timeout_seconds != 0
                && monitor.model_turn_timeout_seconds != 0 && monitor.overall_timeout_seconds != 0;
            let f = e && says_something(config.discord.webhook_env@);
            let g = f && config.discord.request_timeout_seconds != 0;
            let h = g && 0x4100_0000 <= config.discord.status_font_size_bits <= 0x4240_0000;
            &&& checked is Ok <==> h && font_is_file
            &&& checked matches Err(error) ==> match error {
                ConfigError::NoAccounts => !a,
                ConfigError::EmptyAccountName => a && !b,
                ConfigError::DuplicateAccountName(name) => a && !b,
                ConfigError::EmptyExecutable(name) => a && !b,
                ConfigError::BadInterval => b && !c,
                ConfigError::TerminalTooSmall => c && !d,
                ConfigError::ZeroTimeout => d && !e,
                ConfigError::EmptyWebhookVariable => e && !f,
                ConfigError::ZeroRequestTimeout => f && !g,
                ConfigError::FontSizeOutOfRange => g && !h,
                ConfigError::FontNotAFile(path) => h && !font_is_file && path@
                    == config.discord.status_font_path@,
            }
        }),
{
    let accounts = config.accounts@;
    assert forall|i: int| 0 <= i < accounts.len() implies #[trigger] account_is_usable(accounts, i)
        == account_is_valid(accounts, i) by {
        lemma_usable(accounts, i);
    }
    lemma_makes_the_hour(config.schedule.interval_minutes);
    lemma_blank_is_white_space(config.discord.webhook_env@);
    if accounts_are_valid(accounts, accounts.len() as int) {
        assert forall|i: int| 0 <= i < accounts.len() implies #[trigger] account_is_usable(
            accounts,
            i,
        ) by {
            assert(account_is_valid(accounts, i));
        }
    } else {
        let i = choose|i: int| 0 <= i < accounts.len() && !#[trigger] account_is_valid(accounts, i);
        assert(!account_is_usable(accounts, i));
    }
    if let Err(error) = checked {
        if error is EmptyAccountName || error is DuplicateAccountName || error is EmptyExecutable {
            let i = choose|i: int|
                0 <= i < accounts.len() && accounts_are_valid(accounts, i)
                    && #[trigger] is_account_error(accounts, i, error);
            assert(!account_is_valid(accounts, i));
            assert(!account_is_usable(accounts, i));
        }
    }
}

/// What is wrong with the accounts is told of the first that is not usable: that it has no name, that
/// it has the name of an earlier one, or that it has no program.
pub proof fn law_accounts_are_checked(
    config: AppConfig,
    font_is_file: bool,
    error: ConfigError,
    i: int,
)
    requires
        call_ensures(AppConfig::validate, (&config, font_is_file), Err::<(), ConfigError>(error)),
        0 <= i < config.accounts@.len(),
        !account_is_usable(config.accounts@, i),
        forall|j: int| 0 <= j < i ==> #[trigger] account_is_usable(config.accounts@, j),
    ensures
        ({
            let account = config.accounts@[i];
            let repeated = exists|j: int|
                0 <= j < i && lowercase((#[trigger] config.accounts@[j]).name@) == lowercase(
                    account.name@,
                );
            &&& !says_something(account.name@) ==> error is EmptyAccountName
            &&& says_something(account.name@) && repeated ==> (
            error matches ConfigError::DuplicateAccountName(name) && name@ == account.name@)
            &&& says_something(account.name@) && !repeated ==> (
            error matches ConfigError::EmptyExecutable(name) && name@ == account.name@)
        }),
{
    let accounts = config.accounts@;
    lemma_usable(accounts, i);
    assert(!account_is_valid(accounts, i));
    assert(!accounts_are_valid(accounts, accounts.len() as int));
    lemma_blank_is_white_space(accounts[i].name@);
    assert(error is EmptyAccountName || error is DuplicateAccountName || error is EmptyExecutable);
    let k = choose|k: int|
        0 <= k < accounts.len() && accounts_are_valid(accounts, k) && #[trigger] is_account_error(
            accounts,
            k,
            error,
        );
    if k < i {
        assert(account_is_usable(accounts, k));
        lemma_usable(accounts, k);
        assert(account_is_valid(accounts, k));
    }
    if i < k {
        assert(account_is_valid(accounts, i));
    }
    assert(k == i);
}

/// The first name that repeats an earlier one is found, and none where all names differ.
pub proof fn law_first_repeat(names: Vec<String>, found: Option<usize>, i: int, j: int)
    requires
        call_ensures(first_repeat, (&names,), found),
    ensures
        found matches Some(place) ==> place < names@.len() && exists|k: int|
            0 <= k < place && (#[trigger] names@[k])@ == names@[place as int]@,
        0 <= i < j < names@.len() && names@[i]@ == names@[j]@ ==> (found matches Some(place) && place
            <= j),
{
    if 0 <= i < j < names@.len() && names@[i]@ == names@[j]@ {
        assert(repeats(names@, j));
    }
}

/// The configured numbers are seconds.
pub proof fn law_settings_are_seconds(config: MonitorConfig, settings: MonitorSettings)
    requires
        call_ensures(MonitorConfig::settings, (&config,), settings),
    ensures
        settings.terminal_rows == config.terminal_rows,
        settings.terminal_cols == config.terminal_cols,
        settings.startup.nanos == config.startup_timeout_seconds * 1_000_000_000,
        settings.status.nanos == config.status_timeout_seconds * 1_000_000_000,
        settings.model_turn.nanos == config.model_turn_timeout_seconds * 1_000_000_000,
        settings.refresh_pause.nanos == config.refresh_pause_seconds * 1_000_000_000,
        settings.overall.nanos == config.overall_timeout_seconds * 1_000_000_000,
{
}

/// What the user is told of a configuration that is wrong.
pub proof fn law_wrong_configuration_is_told(error: ConfigError, said: String)
    requires
        call_ensures(ConfigError::message, (&error,), said),
    ensures
        said@ == (match error {
            ConfigError::NoAccounts =>
                "configuration must contain at least one [[accounts]] entry"@,
            ConfigError::EmptyAccountName => "account name cannot be empty"@,
            ConfigError::DuplicateAccountName(name) => "duplicate account name: "@ + name@,
            ConfigError::EmptyExecutable(name) => "account "@ + name@ + " has an empty executable"@,
            ConfigError::BadInterval =>
                "schedule.interval_minutes must be a positive divisor of 60"@,
            ConfigError::TerminalTooSmall =>
                "monitor terminal size must be at least 20 rows by 60 columns"@,
            ConfigError::ZeroTimeout => "monitor timeout values must be greater than zero"@,
            ConfigError::EmptyWebhookVariable => "discord.webhook_env cannot be empty"@,
            ConfigError::ZeroRequestTimeout =>
                "discord.request_timeout_seconds must be greater than zero"@,
            ConfigError::FontSizeOutOfRange =>
                "discord.status_font_size must be between 8 and 48"@,
            ConfigError::FontNotAFile(path) => "discord.status_font_path is not a file: "@ + path@,
        }),
{
}

} // verus!
