//! Command-line rules shared by the headless tools: bounded integer options, because these
//! bounds decide provider spend, and the decimal syntax they are written in.
use crate::engine::{bot_name_is_usable, bot_name_usable};
use crate::harness::{
    MAX_REQUEST_INTERVAL_S, MAX_REQUESTS, MAX_SESSION_SECONDS, OptionsError, SessionOptions,
    spec_validate_objective, validate_objective,
};
use crate::model::{FixtureWaypoint, Mode, Settings};
use crate::text::{chars_of, decimal, decimal_text, is_blank, spec_is_blank, str_eq};
use vstd::prelude::*;

verus! {

pub open spec fn is_digit(c: char) -> bool {
    '0' <= c && c <= '9'
}

pub open spec fn digit_value(c: char) -> int {
    (c as u32) - ('0' as u32)
}

/// The value of a run of decimal digits.
pub open spec fn digits_value(s: Seq<char>) -> int
    decreases s.len(),
{
    if s.len() == 0 {
        0
    } else {
        digits_value(s.drop_last()) * 10 + digit_value(s.last())
    }
}

pub open spec fn all_digits(s: Seq<char>) -> bool {
    forall|i: int| 0 <= i < s.len() ==> is_digit(#[trigger] s[i])
}

/// `u64::from_str`: an optional leading `+`, then one or more decimal digits whose value
/// fits in a `u64`.
pub open spec fn spec_parse_u64(s: Seq<char>) -> Option<u64> {
    let digits = if s.len() > 0 && s[0] == '+' {
        s.drop_first()
    } else {
        s
    };
    if digits.len() > 0 && all_digits(digits) && digits_value(digits) <= u64::MAX {
        Some(digits_value(digits) as u64)
    } else {
        None
    }
}

proof fn lemma_digits_value_grows(s: Seq<char>, i: int, j: int)
    requires
        0 <= i <= j <= s.len(),
        all_digits(s),
    ensures
        digits_value(s.take(i)) <= digits_value(s.take(j)),
        0 <= digits_value(s.take(i)),
    decreases j,
{
    if j > i {
        assert(s.take(j).drop_last() =~= s.take(j - 1));
        assert(is_digit(s[j - 1]));
        lemma_digits_value_grows(s, i, j - 1);
        lemma_digits_value_grows(s, 0, j - 1);
    } else if i > 0 {
        assert(s.take(i).drop_last() =~= s.take(i - 1));
        assert(is_digit(s[i - 1]));
        lemma_digits_value_grows(s, i - 1, i - 1);
    }
}

/// Parses a decimal `u64` the way `u64::from_str` does.
pub fn parse_u64(text: &str) -> (r: Option<u64>)
    ensures
        r == spec_parse_u64(text@),
{
    let chars = chars_of(text);
    let start: usize = if chars.len() > 0 && chars[0] == '+' {
        1
    } else {
        0
    };
    let ghost digits = if text@.len() > 0 && text@[0] == '+' {
        text@.drop_first()
    } else {
        text@
    };
    proof {
        if start == 1 {
            assert(digits =~= chars@.subrange(1, chars@.len() as int));
        } else {
            assert(digits =~= chars@.subrange(0, chars@.len() as int));
        }
    }
    if start >= chars.len() {
        proof {
            assert(digits.len() == 0);
        }
        return None;
    }
    let mut value: u64 = 0;
    let mut i: usize = start;
    proof {
        assert(digits.take(0) =~= Seq::<char>::empty());
    }
    while i < chars.len()
        invariant
            chars@ == text@,
            start <= i <= chars@.len(),
            start == 0 || start == 1,
            digits == chars@.subrange(start as int, chars@.len() as int),
            digits == (if text@.len() > 0 && text@[0] == '+' {
                text@.drop_first()
            } else {
                text@
            }),
            all_digits(digits.take(i - start)),
            value == digits_value(digits.take(i - start)),
        decreases chars@.len() - i,
    {
        let c = chars[i];
        if !('0' <= c && c <= '9') {
            proof {
                assert(digits[i - start] == c);
                assert(!is_digit(digits[i - start]));
                assert(!all_digits(digits));
                assert(spec_parse_u64(text@) is None);
            }
            return None;
        }
        let d = (c as u32 - '0' as u32) as u64;
        proof {
            assert(digits.take(i - start + 1).drop_last() =~= digits.take(i - start));
            assert(digits.take(i - start + 1).last() == c);
            assert(all_digits(digits.take(i - start + 1)));
        }
        if value > (u64::MAX - d) / 10 {
            proof {
                assert(value * 10 + d > u64::MAX) by (nonlinear_arith)
                    requires
                        value > (u64::MAX - d) / 10,
                        d <= 9,
                ;
                assert(digits_value(digits.take(i - start + 1)) == value * 10 + d);
                assert(digits_value(digits.take(i - start + 1)) > u64::MAX);
                if all_digits(digits) {
                    lemma_digits_value_grows(digits, i - start + 1, digits.len() as int);
                    assert(digits.take(digits.len() as int) =~= digits);
                }
            }
            return None;
        }
        proof {
            assert(value * 10 + d <= u64::MAX) by (nonlinear_arith)
                requires
                    value <= (u64::MAX - d) / 10,
                    d <= 9,
            ;
        }
        value = value * 10 + d;
        i += 1;
    }
    proof {
        assert(digits.take(digits.len() as int) =~= digits);
    }
    Some(value)
}

/// The first index from `i` on at which `flag` occurs with an argument after it.
pub open spec fn first_flag_index(args: Seq<String>, flag: Seq<char>, i: int) -> Option<int>
    decreases args.len() - i,
{
    if i < 0 || i + 1 >= args.len() {
        None
    } else if args[i]@ == flag {
        Some(i)
    } else {
        first_flag_index(args, flag, i + 1)
    }
}

/// The value following the first occurrence of `flag` that has a following argument.
pub open spec fn flag_value(args: Seq<String>, flag: Seq<char>) -> Option<Seq<char>> {
    match first_flag_index(args, flag, 0) {
        Some(i) => Some(args[i + 1]@),
        None => None,
    }
}

proof fn lemma_first_flag_index_bounds(args: Seq<String>, flag: Seq<char>, j: int)
    requires
        0 <= j,
    ensures
        first_flag_index(args, flag, j) matches Some(i) ==> j <= i && i + 1 < args.len(),
    decreases args.len() - j,
{
    if j + 1 < args.len() && args[j]@ != flag {
        lemma_first_flag_index_bounds(args, flag, j + 1);
    }
}

fn flag_index(args: &[String], flag: &str) -> (r: Option<usize>)
    ensures
        match first_flag_index(args@, flag@, 0) {
            Some(i) => r == Some(i as usize) && 0 <= i && i + 1 < args@.len(),
            None => r is None,
        },
{
    proof {
        lemma_first_flag_index_bounds(args@, flag@, 0);
    }
    let n = args.len();
    let mut i: usize = 0;
    while i < n
        invariant
            n == args@.len(),
            i <= n,
            first_flag_index(args@, flag@, 0) == first_flag_index(args@, flag@, i as int),
        decreases n - i,
    {
        if i + 1 >= n {
            return None;
        }
        if str_eq(args[i].as_str(), flag) {
            return Some(i);
        }
        i += 1;
    }
    None
}

/// Why a bounded integer option was refused.
#[derive(Clone, Copy, Debug, PartialEq, Eq, Structural)]
pub enum NumberError {
    /// The value is not a decimal integer that fits in a `u64`.
    NotAnInteger,
    /// The value lies outside `low..=high`.
    OutOfRange,
}

pub open spec fn spec_number(
    args: Seq<String>,
    flag: Seq<char>,
    default: u64,
    low: u64,
    high: u64,
) -> Result<u64, NumberError> {
    match flag_value(args, flag) {
        None => Ok(default),
        Some(raw) => match spec_parse_u64(raw) {
            None => Err(NumberError::NotAnInteger),
            Some(v) => if low <= v <= high {
                Ok(v)
            } else {
                Err(NumberError::OutOfRange)
            },
        },
    }
}

/// Reads one bounded integer option: absent means `default`; a value that is not an
/// integer or lies outside `low..=high` is refused rather than replaced.
pub fn number(args: &[String], flag: &str, default: u64, low: u64, high: u64) -> (r: Result<
    u64,
    NumberError,
>)
    ensures
        r == spec_number(args@, flag@, default, low, high),
{
    let n = args.len();
    let raw = match flag_index(args, flag) {
        None => {
            return Ok(default);
        },
        Some(at) => args[at + 1].as_str(),
    };
    match parse_u64(raw) {
        None => Err(NumberError::NotAnInteger),
        Some(v) => if low <= v && v <= high {
            Ok(v)
        } else {
            Err(NumberError::OutOfRange)
        },
    }
}

/// The argument list holds `name` somewhere.
pub open spec fn has_flag(args: Seq<String>, name: Seq<char>) -> bool {
    exists|i: int| 0 <= i < args.len() && #[trigger] args[i]@ == name
}

/// Whether `name` occurs among the arguments.
pub fn flag_present(args: &[String], name: &str) -> (r: bool)
    ensures
        r == has_flag(args@, name@),
{
    let mut i: usize = 0;
    while i < args.len()
        invariant
            i <= args@.len(),
            forall|k: int| 0 <= k < i ==> #[trigger] args@[k]@ != name@,
        decreases args@.len() - i,
    {
        if str_eq(args[i].as_str(), name) {
            return true;
        }
        i += 1;
    }
    false
}

/// The argument after the first occurrence of `name` that has one.
pub fn value_of(args: &[String], name: &str) -> (r: Option<String>)
    ensures
        match flag_value(args@, name@) {
            Some(v) => r matches Some(s) && s@ == v,
            None => r is None,
        },
{
    let n = args.len();
    let found = flag_index(args, name);
    match found {
        Some(i) => {
            assert(first_flag_index(args@, name@, 0) is Some);
            assert(i + 1 < n);
            Some(args[i + 1].clone())
        },
        None => None,
    }
}

/// The message for a refused bounded integer option.
pub open spec fn spec_number_message(e: NumberError, flag: Seq<char>, low: u64, high: u64) -> Seq<
    char,
> {
    match e {
        NumberError::NotAnInteger => flag + " must be an integer from "@ + decimal(low as nat)
            + " to "@ + decimal(high as nat),
        NumberError::OutOfRange => flag + " must be between "@ + decimal(low as nat) + " and "@
            + decimal(high as nat),
    }
}

pub fn number_message(e: NumberError, flag: &str, low: u64, high: u64) -> (r: String)
    ensures
        r@ == spec_number_message(e, flag@, low, high),
{
    let middle = match e {
        NumberError::NotAnInteger => " must be an integer from ",
        NumberError::OutOfRange => " must be between ",
    };
    let joint = match e {
        NumberError::NotAnInteger => " to ",
        NumberError::OutOfRange => " and ",
    };
    let low_text = decimal_text(low);
    let high_text = decimal_text(high);
    String::from_str(flag).concat(middle).concat(low_text.as_str()).concat(joint).concat(
        high_text.as_str(),
    )
}

/// Why a tool's command line was refused.
#[derive(Clone, Debug, PartialEq, Eq)]
pub enum ArgumentError {
    /// A bounded integer option was refused.
    Number { flag: String, low: u64, high: u64, error: NumberError },
    /// The bot name is not 1 to 16 ASCII letters, digits or underscores.
    BotName,
    /// `--objective` was given without text.
    ObjectiveWithoutText,
    /// The objective breaks the engine's objective rule.
    Objective(OptionsError),
    /// A live run was asked for without a configured key.
    KeyMissing,
    /// The connect and goal budgets do not fit inside the session budget.
    BudgetsExceedSession,
}

/// The mathematical value of an [`ArgumentError`].
pub enum ArgumentErrorView {
    Number { flag: Seq<char>, low: u64, high: u64, error: NumberError },
    BotName,
    ObjectiveWithoutText,
    Objective(OptionsError),
    KeyMissing,
    BudgetsExceedSession,
}

impl View for ArgumentError {
    type V = ArgumentErrorView;

    open spec fn view(&self) -> ArgumentErrorView {
        match self {
            ArgumentError::Number { flag, low, high, error } => ArgumentErrorView::Number {
                flag: flag@,
                low: *low,
                high: *high,
                error: *error,
            },
            ArgumentError::BotName => ArgumentErrorView::BotName,
            ArgumentError::ObjectiveWithoutText => ArgumentErrorView::ObjectiveWithoutText,
            ArgumentError::Objective(e) => ArgumentErrorView::Objective(*e),
            ArgumentError::KeyMissing => ArgumentErrorView::KeyMissing,
            ArgumentError::BudgetsExceedSession => ArgumentErrorView::BudgetsExceedSession,
        }
    }
}

pub const BOT_NAME_RULE: &'static str = "--bot must be 1-16 alphanumeric or underscore characters";
pub const OBJECTIVE_WITHOUT_TEXT: &'static str = "--objective requires the session goal as text";
pub const KEY_MISSING: &'static str = "Live mode needs TYPESAFE_API_KEY or a readable TYPESAFE_API_KEY_FILE; the key is never printed";
pub const BUDGETS_EXCEED_SESSION: &'static str = "--connect-seconds plus --goal-seconds must fit inside --session-seconds, because the engine session budget starts when it connects";

impl ArgumentError {
    /// The one-line message for the command line.
    pub fn message(&self) -> (r: String)
        ensures
            r@ == match self@ {
                ArgumentErrorView::Number { flag, low, high, error } => spec_number_message(
                    error,
                    flag,
                    low,
                    high,
                ),
                ArgumentErrorView::BotName => BOT_NAME_RULE@,
                ArgumentErrorView::ObjectiveWithoutText => OBJECTIVE_WITHOUT_TEXT@,
                ArgumentErrorView::Objective(e) => crate::harness::spec_options_message(e),
                ArgumentErrorView::KeyMissing => KEY_MISSING@,
                ArgumentErrorView::BudgetsExceedSession => BUDGETS_EXCEED_SESSION@,
            },
    {
        match self {
            ArgumentError::Number { flag, low, high, error } => number_message(
                *error,
                flag.as_str(),
                *low,
                *high,
            ),
            ArgumentError::BotName => String::from_str(BOT_NAME_RULE),
            ArgumentError::ObjectiveWithoutText => String::from_str(OBJECTIVE_WITHOUT_TEXT),
            ArgumentError::Objective(e) => e.message(),
            ArgumentError::KeyMissing => String::from_str(KEY_MISSING),
            ArgumentError::BudgetsExceedSession => String::from_str(BUDGETS_EXCEED_SESSION),
        }
    }
}

/// Reads one bounded option, naming the flag and its bounds when it is refused.
fn bounded(args: &[String], flag: &str, default: u64, low: u64, high: u64) -> (r: Result<
    u64,
    ArgumentError,
>)
    ensures
        match spec_number(args@, flag@, default, low, high) {
            Ok(v) => r == Ok::<u64, ArgumentError>(v),
            Err(e) => r matches Err(x) && x@ == (ArgumentErrorView::Number {
                flag: flag@,
                low,
                high,
                error: e,
            }),
        },
{
    match number(args, flag, default, low, high) {
        Ok(v) => Ok(v),
        Err(error) => Err(ArgumentError::Number { flag: String::from_str(flag), low, high, error }),
    }
}

pub open spec fn number_error(flag: Seq<char>, low: u64, high: u64, e: NumberError) -> ArgumentErrorView {
    ArgumentErrorView::Number { flag, low, high, error: e }
}

/// What `session-run` reads from its command line, as values.
pub struct SessionArgumentsView {
    pub mode: Mode,
    pub port: u64,
    pub bot_name: Seq<char>,
    pub legacy_forwarding: bool,
    pub fixture_waypoint: FixtureWaypoint,
    pub objective: Seq<char>,
    pub safety_reflex: bool,
    pub request_interval_ms: u64,
    pub max_requests: u64,
    pub max_seconds: u64,
    pub connect_timeout_ms: u64,
    pub export: Option<Seq<char>>,
    pub keep_connected: bool,
    pub verbose: bool,
}

/// The command line of `session-run`, checked in the order the tool checks it: the bot
/// name, the objective, then each bounded number as the settings take it, the key a live
/// run needs, and the connect budget.
pub open spec fn spec_session_arguments(args: Seq<String>, key_configured: bool) -> Result<
    SessionArgumentsView,
    ArgumentErrorView,
> {
    let mode = if has_flag(args, "--fixture"@) {
        Mode::Demo
    } else {
        Mode::Live
    };
    let bot_name = match flag_value(args, "--bot"@) {
        Some(b) => b,
        None => "JevBot"@,
    };
    let objective = match flag_value(args, "--objective"@) {
        Some(o) => o,
        None => Seq::empty(),
    };
    if !bot_name_usable(bot_name) {
        Err(ArgumentErrorView::BotName)
    } else if has_flag(args, "--objective"@) && spec_is_blank(objective) {
        Err(ArgumentErrorView::ObjectiveWithoutText)
    } else if spec_validate_objective(objective) is Err {
        Err(ArgumentErrorView::Objective(spec_validate_objective(objective)->Err_0))
    } else {
        match spec_number(args, "--port"@, 25_565, 1, 65_535) {
            Err(e) => Err(number_error("--port"@, 1, 65_535, e)),
            Ok(port) => match spec_number(
                args,
                "--request-interval-seconds"@,
                0,
                0,
                MAX_REQUEST_INTERVAL_S,
            ) {
                Err(e) => Err(
                    number_error("--request-interval-seconds"@, 0, MAX_REQUEST_INTERVAL_S, e),
                ),
                Ok(interval) => match spec_number(args, "--max-requests"@, 30, 1, MAX_REQUESTS) {
                    Err(e) => Err(number_error("--max-requests"@, 1, MAX_REQUESTS, e)),
                    Ok(max_requests) => match spec_number(
                        args,
                        "--max-seconds"@,
                        300,
                        1,
                        MAX_SESSION_SECONDS,
                    ) {
                        Err(e) => Err(number_error("--max-seconds"@, 1, MAX_SESSION_SECONDS, e)),
                        Ok(max_seconds) => if mode == Mode::Live && !key_configured {
                            Err(ArgumentErrorView::KeyMissing)
                        } else {
                            match spec_number(args, "--connect-seconds"@, 60, 1, 300) {
                                Err(e) => Err(number_error("--connect-seconds"@, 1, 300, e)),
                                Ok(connect) => Ok(
                                    SessionArgumentsView {
                                        mode,
                                        port,
                                        bot_name,
                                        legacy_forwarding: has_flag(args, "--legacy-forwarding"@),
                                        fixture_waypoint: if has_flag(
                                            args,
                                            "--fixture-reachable-waypoint"@,
                                        ) {
                                            FixtureWaypoint::Reachable
                                        } else {
                                            FixtureWaypoint::Distant
                                        },
                                        objective,
                                        safety_reflex: has_flag(args, "--safety-reflex"@),
                                        request_interval_ms: (interval * 1000) as u64,
                                        max_requests,
                                        max_seconds,
                                        connect_timeout_ms: (connect * 1000) as u64,
                                        export: flag_value(args, "--export"@),
                                        keep_connected: has_flag(args, "--keep-connected"@),
                                        verbose: !has_flag(args, "--quiet"@),
                                    },
                                ),
                            }
                        },
                    },
                },
            },
        }
    }
}

/// The options match what the command line asked for.
pub open spec fn session_options_match(o: SessionOptions, v: SessionArgumentsView) -> bool {
    &&& o.settings.mode == v.mode
    &&& o.settings.port == v.port
    &&& o.settings.bot_name@ == v.bot_name
    &&& o.settings.legacy_forwarding == v.legacy_forwarding
    &&& o.settings.fixture_waypoint == v.fixture_waypoint
    &&& o.settings.objective@ == v.objective
    &&& o.settings.safety_reflex == v.safety_reflex
    &&& o.settings.request_interval_ms == v.request_interval_ms
    &&& o.settings.max_requests == v.max_requests
    &&& o.settings.max_seconds == v.max_seconds
    &&& o.connect_timeout_ms == v.connect_timeout_ms
    &&& match (o.export, v.export) {
        (Some(a), Some(b)) => a@ == b,
        (None, None) => true,
        _ => false,
    }
    &&& o.keep_connected == v.keep_connected
    &&& o.verbose == v.verbose
}

/// What `session-run` was asked to do.
pub enum SessionCommand {
    /// Print the usage and exit successfully.
    Help,
    /// Run one session with these options.
    Run(SessionOptions),
}

/// Reads the command line of `session-run`; `key_configured` says whether a provider
/// key is configured, which a live run needs.
pub fn session_arguments(args: &[String], key_configured: bool) -> (r: Result<
    SessionCommand,
    ArgumentError,
>)
    ensures
        has_flag(args@, "--help"@) ==> r matches Ok(SessionCommand::Help),
        !has_flag(args@, "--help"@) ==> match spec_session_arguments(args@, key_configured) {
            Ok(v) => r matches Ok(SessionCommand::Run(o)) && session_options_match(o, v),
            Err(e) => r matches Err(x) && x@ == e,
        },
{
    if flag_present(args, "--help") {
        return Ok(SessionCommand::Help);
    }
    let mode = if flag_present(args, "--fixture") {
        Mode::Demo
    } else {
        Mode::Live
    };
    let bot_name = match value_of(args, "--bot") {
        Some(b) => b,
        None => String::from_str("JevBot"),
    };
    let objective = match value_of(args, "--objective") {
        Some(o) => o,
        None => String::new(),
    };
    if !bot_name_is_usable(bot_name.as_str()) {
        return Err(ArgumentError::BotName);
    }
    if flag_present(args, "--objective") && is_blank(objective.as_str()) {
        return Err(ArgumentError::ObjectiveWithoutText);
    }
    if let Err(e) = validate_objective(objective.as_str()) {
        return Err(ArgumentError::Objective(e));
    }
    let port = match bounded(args, "--port", 25_565, 1, 65_535) {
        Ok(v) => v,
        Err(e) => {
            return Err(e);
        },
    };
    let interval = match bounded(args, "--request-interval-seconds", 0, 0, MAX_REQUEST_INTERVAL_S) {
        Ok(v) => v,
        Err(e) => {
            return Err(e);
        },
    };
    let max_requests = match bounded(args, "--max-requests", 30, 1, MAX_REQUESTS) {
        Ok(v) => v,
        Err(e) => {
            return Err(e);
        },
    };
    let max_seconds = match bounded(args, "--max-seconds", 300, 1, MAX_SESSION_SECONDS) {
        Ok(v) => v,
        Err(e) => {
            return Err(e);
        },
    };
    if mode == Mode::Live && !key_configured {
        return Err(ArgumentError::KeyMissing);
    }
    let connect = match bounded(args, "--connect-seconds", 60, 1, 300) {
        Ok(v) => v,
        Err(e) => {
            return Err(e);
        },
    };
    let settings = Settings {
        legacy_forwarding: flag_present(args, "--legacy-forwarding"),
        fixture_waypoint: if flag_present(args, "--fixture-reachable-waypoint") {
            FixtureWaypoint::Reachable
        } else {
            FixtureWaypoint::Distant
        },
        mode,
        port: port as u16,
        bot_name,
        max_requests: max_requests as u32,
        max_seconds,
        objective,
        request_interval_ms: interval * 1000,
        safety_reflex: flag_present(args, "--safety-reflex"),
    };
    Ok(
        SessionCommand::Run(
            SessionOptions {
                settings,
                connect_timeout_ms: connect * 1000,
                export: value_of(args, "--export"),
                keep_connected: flag_present(args, "--keep-connected"),
                verbose: !flag_present(args, "--quiet"),
            },
        ),
    )
}

/// What `navigation-demo` reads from its command line, as values.
pub struct NavigationArgumentsView {
    pub port: u64,
    pub bot_name: Seq<char>,
    pub legacy_forwarding: bool,
    pub connect_seconds: u64,
    pub goal_seconds: u64,
    pub session_seconds: u64,
    pub keep_connected: bool,
}

/// The command line of `navigation-demo`, checked in the order the tool checks it: the
/// bounded numbers, the budgets fitting the session, the bot name, then the key.
pub open spec fn spec_navigation_arguments(args: Seq<String>, key_configured: bool) -> Result<
    NavigationArgumentsView,
    ArgumentErrorView,
> {
    let bot_name = match flag_value(args, "--bot"@) {
        Some(b) => b,
        None => "JevBot"@,
    };
    match spec_number(args, "--port"@, 25_565, 1, 65_535) {
        Err(e) => Err(number_error("--port"@, 1, 65_535, e)),
        Ok(port) => match spec_number(args, "--connect-seconds"@, 60, 1, 300) {
            Err(e) => Err(number_error("--connect-seconds"@, 1, 300, e)),
            Ok(connect) => match spec_number(args, "--goal-seconds"@, 30, 1, 300) {
                Err(e) => Err(number_error("--goal-seconds"@, 1, 300, e)),
                Ok(goal) => match spec_number(args, "--session-seconds"@, 180, 1, 3_600) {
                    Err(e) => Err(number_error("--session-seconds"@, 1, 3_600, e)),
                    Ok(session) => if connect + goal > session {
                        Err(ArgumentErrorView::BudgetsExceedSession)
                    } else if !bot_name_usable(bot_name) {
                        Err(ArgumentErrorView::BotName)
                    } else if !key_configured {
                        Err(ArgumentErrorView::KeyMissing)
                    } else {
                        Ok(
                            NavigationArgumentsView {
                                port,
                                bot_name,
                                legacy_forwarding: has_flag(args, "--legacy-forwarding"@),
                                connect_seconds: connect,
                                goal_seconds: goal,
                                session_seconds: session,
                                keep_connected: has_flag(args, "--keep-connected"@),
                            },
                        )
                    },
                },
            },
        },
    }
}

/// One live navigation attempt: its settings (a live session with a request budget of
/// one) and its budgets.
pub struct NavigationArguments {
    pub settings: Settings,
    pub connect_seconds: u64,
    pub goal_seconds: u64,
    pub keep_connected: bool,
}

pub open spec fn navigation_matches(a: NavigationArguments, v: NavigationArgumentsView) -> bool {
    &&& a.settings.mode == Mode::Live
    &&& a.settings.port == v.port
    &&& a.settings.bot_name@ == v.bot_name
    &&& a.settings.legacy_forwarding == v.legacy_forwarding
    &&& a.settings.max_requests == 1
    &&& a.settings.max_seconds == v.session_seconds
    &&& a.settings.fixture_waypoint == FixtureWaypoint::Distant
    &&& a.settings.objective@ == Seq::<char>::empty()
    &&& a.settings.request_interval_ms == 0
    &&& !a.settings.safety_reflex
    &&& a.connect_seconds == v.connect_seconds
    &&& a.goal_seconds == v.goal_seconds
    &&& a.keep_connected == v.keep_connected
}

/// What `navigation-demo` was asked to do.
pub enum NavigationCommand {
    Help,
    Run(NavigationArguments),
}

/// Reads the command line of `navigation-demo`; `key_configured` says whether a provider
/// key is configured.
pub fn navigation_arguments(args: &[String], key_configured: bool) -> (r: Result<
    NavigationCommand,
    ArgumentError,
>)
    ensures
        has_flag(args@, "--help"@) ==> r matches Ok(NavigationCommand::Help),
        !has_flag(args@, "--help"@) ==> match spec_navigation_arguments(args@, key_configured) {
            Ok(v) => r matches Ok(NavigationCommand::Run(a)) && navigation_matches(a, v),
            Err(e) => r matches Err(x) && x@ == e,
        },
{
    if flag_present(args, "--help") {
        return Ok(NavigationCommand::Help);
    }
    let port = match bounded(args, "--port", 25_565, 1, 65_535) {
        Ok(v) => v,
        Err(e) => {
            return Err(e);
        },
    };
    let bot_name = match value_of(args, "--bot") {
        Some(b) => b,
        None => String::from_str("JevBot"),
    };
    let connect = match bounded(args, "--connect-seconds", 60, 1, 300) {
        Ok(v) => v,
        Err(e) => {
            return Err(e);
        },
    };
    let goal = match bounded(args, "--goal-seconds", 30, 1, 300) {
        Ok(v) => v,
        Err(e) => {
            return Err(e);
        },
    };
    let session = match bounded(args, "--session-seconds", 180, 1, 3_600) {
        Ok(v) => v,
        Err(e) => {
            return Err(e);
        },
    };
    let keep_connected = flag_present(args, "--keep-connected");
    if connect + goal > session {
        return Err(ArgumentError::BudgetsExceedSession);
    }
    if !bot_name_is_usable(bot_name.as_str()) {
        return Err(ArgumentError::BotName);
    }
    if !key_configured {
        return Err(ArgumentError::KeyMissing);
    }
    let settings = Settings {
        legacy_forwarding: flag_present(args, "--legacy-forwarding"),
        fixture_waypoint: FixtureWaypoint::Distant,
        mode: Mode::Live,
        port: port as u16,
        bot_name,
        max_requests: 1,
        max_seconds: session,
        objective: String::new(),
        request_interval_ms: 0,
        safety_reflex: false,
    };
    Ok(
        NavigationCommand::Run(
            NavigationArguments {
                settings,
                connect_seconds: connect,
                goal_seconds: goal,
                keep_connected,
            },
        ),
    )
}

/// Why the desktop application's command line was refused.
#[derive(Clone, Debug, PartialEq, Eq)]
pub enum DesktopError {
    ObjectiveWithoutText,
    /// A bounded integer option without a value inside its bounds.
    Number { flag: String, low: u64, high: u64 },
    Port,
    BotName,
    ScreenshotPath,
    ScreenshotAfterGoalPath,
    Unknown(String),
    BothScreenshots,
}

/// The mathematical value of a [`DesktopError`].
pub enum DesktopErrorView {
    ObjectiveWithoutText,
    Number { flag: Seq<char>, low: u64, high: u64 },
    Port,
    BotName,
    ScreenshotPath,
    ScreenshotAfterGoalPath,
    Unknown(Seq<char>),
    BothScreenshots,
}

impl View for DesktopError {
    type V = DesktopErrorView;

    open spec fn view(&self) -> DesktopErrorView {
        match self {
            DesktopError::ObjectiveWithoutText => DesktopErrorView::ObjectiveWithoutText,
            DesktopError::Number { flag, low, high } => DesktopErrorView::Number {
                flag: flag@,
                low: *low,
                high: *high,
            },
            DesktopError::Port => DesktopErrorView::Port,
            DesktopError::BotName => DesktopErrorView::BotName,
            DesktopError::ScreenshotPath => DesktopErrorView::ScreenshotPath,
            DesktopError::ScreenshotAfterGoalPath => DesktopErrorView::ScreenshotAfterGoalPath,
            DesktopError::Unknown(a) => DesktopErrorView::Unknown(a@),
            DesktopError::BothScreenshots => DesktopErrorView::BothScreenshots,
        }
    }
}

pub const BOTH_SCREENSHOTS: &'static str = "Use either --screenshot (first observation) or --screenshot-after-goal (first recorded arrival verdict), not both.";

pub open spec fn spec_desktop_message(e: DesktopErrorView) -> Seq<char> {
    match e {
        DesktopErrorView::ObjectiveWithoutText => OBJECTIVE_WITHOUT_TEXT@,
        DesktopErrorView::Number { flag, low, high } => flag + " requires an integer from "@
            + decimal(low as nat) + " to "@ + decimal(high as nat),
        DesktopErrorView::Port => "--port requires a number between 1 and 65535"@,
        DesktopErrorView::BotName => "--bot requires a name"@,
        DesktopErrorView::ScreenshotPath => "--screenshot requires a PNG path"@,
        DesktopErrorView::ScreenshotAfterGoalPath => "--screenshot-after-goal requires a PNG path"@,
        DesktopErrorView::Unknown(a) => "Unknown argument: "@ + a,
        DesktopErrorView::BothScreenshots => BOTH_SCREENSHOTS@,
    }
}

impl DesktopError {
    pub fn message(&self) -> (r: String)
        ensures
            r@ == spec_desktop_message(self@),
    {
        match self {
            DesktopError::ObjectiveWithoutText => String::from_str(OBJECTIVE_WITHOUT_TEXT),
            DesktopError::Number { flag, low, high } => {
                let low_text = decimal_text(*low);
                let high_text = decimal_text(*high);
                String::from_str(flag.as_str()).concat(" requires an integer from ").concat(
                    low_text.as_str(),
                ).concat(" to ").concat(high_text.as_str())
            },
            DesktopError::Port => String::from_str("--port requires a number between 1 and 65535"),
            DesktopError::BotName => String::from_str("--bot requires a name"),
            DesktopError::ScreenshotPath => String::from_str("--screenshot requires a PNG path"),
            DesktopError::ScreenshotAfterGoalPath => String::from_str(
                "--screenshot-after-goal requires a PNG path",
            ),
            DesktopError::Unknown(a) => String::from_str("Unknown argument: ").concat(a.as_str()),
            DesktopError::BothScreenshots => String::from_str(BOTH_SCREENSHOTS),
        }
    }
}

/// The desktop settings while the command line is read.
pub struct DesktopState {
    pub mode: Mode,
    pub auto_connect: bool,
    pub legacy_forwarding: bool,
    pub fixture_waypoint: FixtureWaypoint,
    pub objective: Seq<char>,
    pub max_requests: u64,
    pub max_seconds: u64,
    pub request_interval_ms: u64,
    pub safety_reflex: bool,
    pub port: u64,
    pub bot_name: Seq<char>,
    pub screenshot: Option<Seq<char>>,
    pub screenshot_after_goal: Option<Seq<char>>,
}

/// The state before any argument: the default settings, no auto-connect, no screenshot.
pub open spec fn desktop_initial() -> DesktopState {
    DesktopState {
        mode: Mode::Demo,
        auto_connect: false,
        legacy_forwarding: false,
        fixture_waypoint: FixtureWaypoint::Distant,
        objective: Seq::empty(),
        max_requests: 30,
        max_seconds: 300,
        request_interval_ms: 0,
        safety_reflex: false,
        port: 25_565,
        bot_name: "JevBot"@,
        screenshot: None,
        screenshot_after_goal: None,
    }
}

/// A bounded integer taken from the argument after an option.
pub open spec fn bounded_next(next: Option<Seq<char>>, low: u64, high: u64) -> Option<u64> {
    match next {
        Some(t) => match spec_parse_u64(t) {
            Some(v) => if low <= v <= high {
                Some(v)
            } else {
                None
            },
            None => None,
        },
        None => None,
    }
}

/// Reads the arguments from `i` on, one option at a time; an option that takes a value
/// takes the next argument, whatever it is.
pub open spec fn desktop_scan(args: Seq<Seq<char>>, i: int, st: DesktopState) -> Result<
    DesktopState,
    DesktopErrorView,
>
    decreases args.len() - i,
{
    if i < 0 || i >= args.len() {
        Ok(st)
    } else {
        let a = args[i];
        let next: Option<Seq<char>> = if i + 1 < args.len() {
            Some(args[i + 1])
        } else {
            None
        };
        if a == "--fixture-preview"@ {
            desktop_scan(args, i + 1, DesktopState { mode: Mode::Demo, auto_connect: true, ..st })
        } else if a == "--live-preview"@ {
            desktop_scan(args, i + 1, DesktopState { mode: Mode::Live, auto_connect: true, ..st })
        } else if a == "--legacy-forwarding"@ {
            desktop_scan(args, i + 1, DesktopState { legacy_forwarding: true, ..st })
        } else if a == "--fixture-reachable-waypoint"@ {
            desktop_scan(
                args,
                i + 1,
                DesktopState { fixture_waypoint: FixtureWaypoint::Reachable, ..st },
            )
        } else if a == "--objective"@ {
            match next {
                Some(v) => if spec_is_blank(v) {
                    Err(DesktopErrorView::ObjectiveWithoutText)
                } else {
                    desktop_scan(args, i + 2, DesktopState { objective: v, ..st })
                },
                None => Err(DesktopErrorView::ObjectiveWithoutText),
            }
        } else if a == "--max-requests"@ {
            match bounded_next(next, 1, MAX_REQUESTS) {
                Some(v) => desktop_scan(args, i + 2, DesktopState { max_requests: v, ..st }),
                None => Err(DesktopErrorView::Number { flag: a, low: 1, high: MAX_REQUESTS }),
            }
        } else if a == "--max-seconds"@ {
            match bounded_next(next, 1, MAX_SESSION_SECONDS) {
                Some(v) => desktop_scan(args, i + 2, DesktopState { max_seconds: v, ..st }),
                None => Err(DesktopErrorView::Number { flag: a, low: 1, high: MAX_SESSION_SECONDS }),
            }
        } else if a == "--request-interval-seconds"@ {
            match bounded_next(next, 0, MAX_REQUEST_INTERVAL_S) {
                Some(v) => desktop_scan(
                    args,
                    i + 2,
                    DesktopState { request_interval_ms: (v * 1000) as u64, ..st },
                ),
                None => Err(
                    DesktopErrorView::Number { flag: a, low: 0, high: MAX_REQUEST_INTERVAL_S },
                ),
            }
        } else if a == "--safety-reflex"@ {
            desktop_scan(args, i + 1, DesktopState { safety_reflex: true, ..st })
        } else if a == "--port"@ {
            match bounded_next(next, 1, 65_535) {
                Some(v) => desktop_scan(args, i + 2, DesktopState { port: v, ..st }),
                None => Err(DesktopErrorView::Port),
            }
        } else if a == "--bot"@ {
            match next {
                Some(v) => if v.len() == 0 {
                    Err(DesktopErrorView::BotName)
                } else {
                    desktop_scan(args, i + 2, DesktopState { bot_name: v, ..st })
                },
                None => Err(DesktopErrorView::BotName),
            }
        } else if a == "--screenshot"@ {
            match next {
                Some(v) => if v.len() == 0 {
                    Err(DesktopErrorView::ScreenshotPath)
                } else {
                    desktop_scan(args, i + 2, DesktopState { screenshot: Some(v), ..st })
                },
                None => Err(DesktopErrorView::ScreenshotPath),
            }
        } else if a == "--screenshot-after-goal"@ {
            match next {
                Some(v) => if v.len() == 0 {
                    Err(DesktopErrorView::ScreenshotAfterGoalPath)
                } else {
                    desktop_scan(args, i + 2, DesktopState { screenshot_after_goal: Some(v), ..st })
                },
                None => Err(DesktopErrorView::ScreenshotAfterGoalPath),
            }
        } else {
            Err(DesktopErrorView::Unknown(a))
        }
    }
}

/// The desktop command line: every option read in turn, then at most one screenshot.
pub open spec fn spec_desktop_arguments(args: Seq<Seq<char>>) -> Result<
    DesktopState,
    DesktopErrorView,
> {
    match desktop_scan(args, 0, desktop_initial()) {
        Err(e) => Err(e),
        Ok(st) => if st.screenshot is Some && st.screenshot_after_goal is Some {
            Err(DesktopErrorView::BothScreenshots)
        } else {
            Ok(st)
        },
    }
}

/// What the desktop application was asked to do.
pub struct DesktopArguments {
    pub settings: Settings,
    /// Connect at start instead of waiting for the operator.
    pub auto_connect: bool,
    /// Capture the window after the first observation to this PNG.
    pub screenshot: Option<String>,
    /// Capture the window after the first recorded arrival verdict to this PNG.
    pub screenshot_after_goal: Option<String>,
}

pub open spec fn opt_text_view(o: Option<String>) -> Option<Seq<char>> {
    match o {
        Some(s) => Some(s@),
        None => None,
    }
}

pub open spec fn desktop_matches(a: DesktopArguments, st: DesktopState) -> bool {
    &&& a.settings.mode == st.mode
    &&& a.auto_connect == st.auto_connect
    &&& a.settings.legacy_forwarding == st.legacy_forwarding
    &&& a.settings.fixture_waypoint == st.fixture_waypoint
    &&& a.settings.objective@ == st.objective
    &&& a.settings.max_requests == st.max_requests
    &&& a.settings.max_seconds == st.max_seconds
    &&& a.settings.request_interval_ms == st.request_interval_ms
    &&& a.settings.safety_reflex == st.safety_reflex
    &&& a.settings.port == st.port
    &&& a.settings.bot_name@ == st.bot_name
    &&& opt_text_view(a.screenshot) == st.screenshot
    &&& opt_text_view(a.screenshot_after_goal) == st.screenshot_after_goal
}

fn bounded_value(next: Option<&str>, low: u64, high: u64) -> (r: Option<u64>)
    ensures
        r == bounded_next(
            match next {
                Some(t) => Some(t@),
                None => None,
            },
            low,
            high,
        ),
{
    match next {
        Some(t) => match parse_u64(t) {
            Some(v) => if low <= v && v <= high {
                Some(v)
            } else {
                None
            },
            None => None,
        },
        None => None,
    }
}

/// Reads the desktop command line; see [`spec_desktop_arguments`].
pub fn desktop_arguments(args: &[String]) -> (r: Result<DesktopArguments, DesktopError>)
    ensures
        match spec_desktop_arguments(crate::sanitize::texts_view(args@)) {
            Ok(st) => r matches Ok(a) && desktop_matches(a, st),
            Err(e) => r matches Err(x) && x@ == e,
        },
{
    let ghost view = crate::sanitize::texts_view(args@);
    let mut mode = Mode::Demo;
    let mut auto_connect = false;
    let mut legacy_forwarding = false;
    let mut fixture_waypoint = FixtureWaypoint::Distant;
    let mut objective = String::new();
    let mut max_requests: u64 = 30;
    let mut max_seconds: u64 = 300;
    let mut request_interval_ms: u64 = 0;
    let mut safety_reflex = false;
    let mut port: u64 = 25_565;
    let mut bot_name = String::from_str("JevBot");
    let mut screenshot: Option<String> = None;
    let mut screenshot_after_goal: Option<String> = None;
    let n = args.len();
    let mut i: usize = 0;
    while i < n
        invariant
            n == args@.len(),
            view == crate::sanitize::texts_view(args@),
            view.len() == n,
            i <= n,
            1 <= max_requests <= MAX_REQUESTS || max_requests == 30,
            port <= 65_535,
            desktop_scan(view, 0, desktop_initial()) == desktop_scan(
                view,
                i as int,
                DesktopState {
                    mode,
                    auto_connect,
                    legacy_forwarding,
                    fixture_waypoint,
                    objective: objective@,
                    max_requests,
                    max_seconds,
                    request_interval_ms,
                    safety_reflex,
                    port,
                    bot_name: bot_name@,
                    screenshot: opt_text_view(screenshot),
                    screenshot_after_goal: opt_text_view(screenshot_after_goal),
                },
            ),
        decreases n - i,
    {
        let a = args[i].as_str();
        assert(view[i as int] == a@);
        let next: Option<&str> = if i + 1 < n {
            Some(args[i + 1].as_str())
        } else {
            None
        };
        proof {
            if i + 1 < n {
                assert(view[i + 1] == args@[i + 1]@);
            }
        }
        if str_eq(a, "--fixture-preview") {
            mode = Mode::Demo;
            auto_connect = true;
            i += 1;
        } else if str_eq(a, "--live-preview") {
            mode = Mode::Live;
            auto_connect = true;
            i += 1;
        } else if str_eq(a, "--legacy-forwarding") {
            legacy_forwarding = true;
            i += 1;
        } else if str_eq(a, "--fixture-reachable-waypoint") {
            fixture_waypoint = FixtureWaypoint::Reachable;
            i += 1;
        } else if str_eq(a, "--objective") {
            match next {
                Some(v) => {
                    if is_blank(v) {
                        return Err(DesktopError::ObjectiveWithoutText);
                    }
                    objective = String::from_str(v);
                },
                None => {
                    return Err(DesktopError::ObjectiveWithoutText);
                },
            }
            i += 2;
        } else if str_eq(a, "--max-requests") {
            match bounded_value(next, 1, MAX_REQUESTS) {
                Some(v) => {
                    max_requests = v;
                },
                None => {
                    return Err(
                        DesktopError::Number {
                            flag: String::from_str(a),
                            low: 1,
                            high: MAX_REQUESTS,
                        },
                    );
                },
            }
            i += 2;
        } else if str_eq(a, "--max-seconds") {
            match bounded_value(next, 1, MAX_SESSION_SECONDS) {
                Some(v) => {
                    max_seconds = v;
                },
                None => {
                    return Err(
                        DesktopError::Number {
                            flag: String::from_str(a),
                            low: 1,
                            high: MAX_SESSION_SECONDS,
                        },
                    );
                },
            }
            i += 2;
        } else if str_eq(a, "--request-interval-seconds") {
            match bounded_value(next, 0, MAX_REQUEST_INTERVAL_S) {
                Some(v) => {
                    request_interval_ms = v * 1000;
                },
                None => {
                    return Err(
                        DesktopError::Number {
                            flag: String::from_str(a),
                            low: 0,
                            high: MAX_REQUEST_INTERVAL_S,
                        },
                    );
                },
            }
            i += 2;
        } else if str_eq(a, "--safety-reflex") {
            safety_reflex = true;
            i += 1;
        } else if str_eq(a, "--port") {
            match bounded_value(next, 1, 65_535) {
                Some(v) => {
                    port = v;
                },
                None => {
                    return Err(DesktopError::Port);
                },
            }
            i += 2;
        } else if str_eq(a, "--bot") {
            match next {
                Some(v) => {
                    if v.unicode_len() == 0 {
                        return Err(DesktopError::BotName);
                    }
                    bot_name = String::from_str(v);
                },
                None => {
                    return Err(DesktopError::BotName);
                },
            }
            i += 2;
        } else if str_eq(a, "--screenshot") {
            match next {
                Some(v) => {
                    if v.unicode_len() == 0 {
                        return Err(DesktopError::ScreenshotPath);
                    }
                    screenshot = Some(String::from_str(v));
                },
                None => {
                    return Err(DesktopError::ScreenshotPath);
                },
            }
            i += 2;
        } else if str_eq(a, "--screenshot-after-goal") {
            match next {
                Some(v) => {
                    if v.unicode_len() == 0 {
                        return Err(DesktopError::ScreenshotAfterGoalPath);
                    }
                    screenshot_after_goal = Some(String::from_str(v));
                },
                None => {
                    return Err(DesktopError::ScreenshotAfterGoalPath);
                },
            }
            i += 2;
        } else {
            return Err(DesktopError::Unknown(String::from_str(a)));
        }
    }
    if screenshot.is_some() && screenshot_after_goal.is_some() {
        return Err(DesktopError::BothScreenshots);
    }
    let settings = Settings {
        legacy_forwarding,
        fixture_waypoint,
        mode,
        port: port as u16,
        bot_name,
        max_requests: max_requests as u32,
        max_seconds,
        objective,
        request_interval_ms,
        safety_reflex,
    };
    Ok(DesktopArguments { settings, auto_connect, screenshot, screenshot_after_goal })
}

/// Why the connection probe's command line was refused.
#[derive(Clone, Copy, Debug, PartialEq, Eq, Structural)]
pub enum ProbeError {
    ActionMissing,
    ActionNotInteger,
    ActionOutOfRange,
    SettleMissing,
    SettleNotInteger,
    SettleOutOfRange,
    Exclusive,
}

pub open spec fn spec_probe_message(e: ProbeError) -> Seq<char> {
    match e {
        ProbeError::ActionMissing => "--action-ms requires a value from 250 to 3000"@,
        ProbeError::ActionNotInteger => "--action-ms must be an integer from 250 to 3000"@,
        ProbeError::ActionOutOfRange => "--action-ms must be between 250 and 3000"@,
        ProbeError::SettleMissing => "--settle-seconds requires a value from 0 to 30"@,
        ProbeError::SettleNotInteger => "--settle-seconds must be an integer from 0 to 30"@,
        ProbeError::SettleOutOfRange => "--settle-seconds must be between 0 and 30"@,
        ProbeError::Exclusive => "--local-move and --jev are mutually exclusive"@,
    }
}

impl ProbeError {
    pub fn message(self) -> (r: &'static str)
        ensures
            r@ == spec_probe_message(self),
    {
        match self {
            ProbeError::ActionMissing => "--action-ms requires a value from 250 to 3000",
            ProbeError::ActionNotInteger => "--action-ms must be an integer from 250 to 3000",
            ProbeError::ActionOutOfRange => "--action-ms must be between 250 and 3000",
            ProbeError::SettleMissing => "--settle-seconds requires a value from 0 to 30",
            ProbeError::SettleNotInteger => "--settle-seconds must be an integer from 0 to 30",
            ProbeError::SettleOutOfRange => "--settle-seconds must be between 0 and 30",
            ProbeError::Exclusive => "--local-move and --jev are mutually exclusive",
        }
    }
}

/// A value the probe reads, with its default text.
pub open spec fn value_or(args: Seq<String>, flag: Seq<char>, default: Seq<char>) -> Seq<char> {
    match flag_value(args, flag) {
        Some(v) => v,
        None => default,
    }
}

/// The probe's command line: the action bound (250 to 3000 ms, default 500), the settle
/// delay (0 to 30 s, default 0), and `--jev` and `--local-move` not together.
pub open spec fn spec_probe_arguments(args: Seq<String>) -> Result<(u64, u64), ProbeError> {
    if has_flag(args, "--action-ms"@) && flag_value(args, "--action-ms"@) is None {
        Err(ProbeError::ActionMissing)
    } else {
        match spec_parse_u64(value_or(args, "--action-ms"@, "500"@)) {
            None => Err(ProbeError::ActionNotInteger),
            Some(action) => if !(250 <= action <= 3000) {
                Err(ProbeError::ActionOutOfRange)
            } else if has_flag(args, "--settle-seconds"@) && flag_value(
                args,
                "--settle-seconds"@,
            ) is None {
                Err(ProbeError::SettleMissing)
            } else {
                match spec_parse_u64(value_or(args, "--settle-seconds"@, "0"@)) {
                    None => Err(ProbeError::SettleNotInteger),
                    Some(settle) => if settle > 30 {
                        Err(ProbeError::SettleOutOfRange)
                    } else if has_flag(args, "--jev"@) && has_flag(args, "--local-move"@) {
                        Err(ProbeError::Exclusive)
                    } else {
                        Ok((action, settle))
                    },
                }
            },
        }
    }
}

/// What the connection probe was asked to do.
pub struct ProbeArguments {
    pub action_ms: u64,
    pub settle_seconds: u64,
    /// Ask the model for one decision.
    pub jev: bool,
    /// Move to the nearest verified waypoint without asking the model.
    pub local_move: bool,
    /// Offer a navigation goal to the model.
    pub offer_move: bool,
    /// The port as written, `25565` when absent; the caller parses it.
    pub port_text: String,
    pub bot_name: String,
    pub legacy_forwarding: bool,
}

fn text_value_or(args: &[String], flag: &str, default: &str) -> (r: String)
    ensures
        r@ == value_or(args@, flag@, default@),
{
    match value_of(args, flag) {
        Some(v) => v,
        None => String::from_str(default),
    }
}

/// Reads the probe's command line; see [`spec_probe_arguments`].
pub fn probe_arguments(args: &[String]) -> (r: Result<ProbeArguments, ProbeError>)
    ensures
        match spec_probe_arguments(args@) {
            Ok((action, settle)) => r matches Ok(p) && p.action_ms == action && p.settle_seconds
                == settle && p.jev == has_flag(args@, "--jev"@) && p.local_move == has_flag(
                args@,
                "--local-move"@,
            ) && p.offer_move == has_flag(args@, "--move"@) && p.port_text@ == value_or(
                args@,
                "--port"@,
                "25565"@,
            ) && p.bot_name@ == value_or(args@, "--bot"@, "JevBot"@) && p.legacy_forwarding
                == has_flag(args@, "--legacy-forwarding"@),
            Err(e) => r == Err::<ProbeArguments, ProbeError>(e),
        },
{
    if flag_present(args, "--action-ms") && value_of(args, "--action-ms").is_none() {
        return Err(ProbeError::ActionMissing);
    }
    let action_text = text_value_or(args, "--action-ms", "500");
    let action = match parse_u64(action_text.as_str()) {
        Some(v) => v,
        None => {
            return Err(ProbeError::ActionNotInteger);
        },
    };
    if !(250 <= action && action <= 3000) {
        return Err(ProbeError::ActionOutOfRange);
    }
    if flag_present(args, "--settle-seconds") && value_of(args, "--settle-seconds").is_none() {
        return Err(ProbeError::SettleMissing);
    }
    let settle_text = text_value_or(args, "--settle-seconds", "0");
    let settle = match parse_u64(settle_text.as_str()) {
        Some(v) => v,
        None => {
            return Err(ProbeError::SettleNotInteger);
        },
    };
    if settle > 30 {
        return Err(ProbeError::SettleOutOfRange);
    }
    let jev = flag_present(args, "--jev");
    let local_move = flag_present(args, "--local-move");
    if jev && local_move {
        return Err(ProbeError::Exclusive);
    }
    Ok(
        ProbeArguments {
            action_ms: action,
            settle_seconds: settle,
            jev,
            local_move,
            offer_move: flag_present(args, "--move"),
            port_text: text_value_or(args, "--port", "25565"),
            bot_name: text_value_or(args, "--bot", "JevBot"),
            legacy_forwarding: flag_present(args, "--legacy-forwarding"),
        },
    )
}

/// The index of the first argument from `i` on that is not an option.
pub open spec fn first_positional(args: Seq<String>, i: int) -> Option<int>
    decreases args.len() - i,
{
    if i < 0 || i >= args.len() {
        None
    } else if !crate::text::spec_starts_with(args[i]@, "--"@) {
        Some(i)
    } else {
        first_positional(args, i + 1)
    }
}

/// What the offline report was asked for.
pub struct ReportArguments {
    /// The recording: the first argument that is not an option.
    pub path: String,
    pub require_arrival: bool,
    pub as_json: bool,
    pub chain: bool,
}

/// Reads the report's command line; `None` when it names no recording.
pub fn report_arguments(args: &[String]) -> (r: Option<ReportArguments>)
    ensures
        match first_positional(args@, 0) {
            Some(i) => r matches Some(a) && a.path@ == args@[i]@ && a.require_arrival == has_flag(
                args@,
                "--require-arrival"@,
            ) && a.as_json == has_flag(args@, "--json"@) && a.chain == has_flag(args@, "--chain"@),
            None => r is None,
        },
{
    let n = args.len();
    let mut i: usize = 0;
    while i < n
        invariant
            n == args@.len(),
            i <= n,
            first_positional(args@, 0) == first_positional(args@, i as int),
        decreases n - i,
    {
        if !crate::text::starts_with(args[i].as_str(), "--") {
            return Some(
                ReportArguments {
                    path: args[i].clone(),
                    require_arrival: flag_present(args, "--require-arrival"),
                    as_json: flag_present(args, "--json"),
                    chain: flag_present(args, "--chain"),
                },
            );
        }
        i += 1;
    }
    None
}

} // verus!
