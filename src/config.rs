use std::io::Error as IoError;

use toml::de::Error as DeError;
use vstd::prelude::*;

use crate::nesting::{peak_depth, too_deep, MAX_DEPTH};
use crate::document::{
    parse_table, table_integer, toml_document,
};

verus! {

/// All durations are in minutes.
/// Priority is command line argument, configuration file, and then default value.
#[derive(Copy, Clone, Debug, PartialEq, Eq, Structural)]
pub struct Config {
    pub duration_pomodoro: Option<u64>,
    pub duration_short_break: Option<u64>,
    pub duration_long_break: Option<u64>,
    pub repetition: Option<i32>,
}

/// Why a configuration could not be had.
#[derive(Debug)]
pub enum Error {
    /// The configuration file exists but could not be read.
    Io(IoError),
    /// The document is not valid TOML.
    De(DeError),
    /// The document nests tables, arrays or dotted keys deeper than can be
    /// read, or a recognised key holds something other than an integer its
    /// field can take.
    Malformed,
    /// A recognised key holds an integer that is zero or negative.
    NonPositiveError,
}

pub const DEFAULT_DURATION_POMODORO: u64 = 25;
pub const DEFAULT_DURATION_SHORT_BREAK: u64 = 5;
pub const DEFAULT_DURATION_LONG_BREAK: u64 = 30;
pub const DEFAULT_REPETITION: i32 = 4;

/// The configuration with no field set.
pub open spec fn empty_config() -> Config {
    Config {
        duration_pomodoro: None,
        duration_short_break: None,
        duration_long_break: None,
        repetition: None,
    }
}

/// The built-in configuration: every field set.
pub open spec fn default_config() -> Config {
    Config {
        duration_pomodoro: Some(DEFAULT_DURATION_POMODORO),
        duration_short_break: Some(DEFAULT_DURATION_SHORT_BREAK),
        duration_long_break: Some(DEFAULT_DURATION_LONG_BREAK),
        repetition: Some(DEFAULT_REPETITION),
    }
}

/// `a` where it is set, else `b`.
pub open spec fn first_set<T>(a: Option<T>, b: Option<T>) -> Option<T> {
    match a {
        Some(_) => a,
        None => b,
    }
}

/// Field by field, the value of `a` where it is set, else that of `b`.
pub open spec fn merge(a: Config, b: Config) -> Config {
    Config {
        duration_pomodoro: first_set(a.duration_pomodoro, b.duration_pomodoro),
        duration_short_break: first_set(a.duration_short_break, b.duration_short_break),
        duration_long_break: first_set(a.duration_long_break, b.duration_long_break),
        repetition: first_set(a.repetition, b.repetition),
    }
}

/// What a document holds at one key: `None` where the key is absent,
/// `Some(None)` where its value is not an integer.
pub open spec fn entry_of(m: Map<Seq<char>, Option<i64>>, key: Seq<char>) -> Option<Option<i64>> {
    if m.contains_key(key) {
        Some(m[key])
    } else {
        None
    }
}

/// The entry is present and is not an integer.
pub open spec fn entry_not_integer(e: Option<Option<i64>>) -> bool {
    e matches Some(None)
}

/// The entry is present and is an integer above `max`.
pub open spec fn entry_above(e: Option<Option<i64>>, max: int) -> bool {
    match e {
        Some(Some(i)) => i > max,
        _ => false,
    }
}

/// The entry is present and is an integer of at most zero.
pub open spec fn entry_non_positive(e: Option<Option<i64>>) -> bool {
    match e {
        Some(Some(i)) => i <= 0,
        _ => false,
    }
}

pub open spec fn entry_value(e: Option<Option<i64>>) -> Option<int> {
    match e {
        Some(Some(i)) => Some(i as int),
        _ => None,
    }
}

/// The configuration that four document entries describe, or the error they
/// give: a value that is no integer comes first, then one at most zero, then a
/// repetition too large for its field.
pub open spec fn entries_config(
    pomodoro: Option<Option<i64>>,
    short_break: Option<Option<i64>>,
    long_break: Option<Option<i64>>,
    repetition: Option<Option<i64>>,
) -> Result<Config, Error> {
    if entry_not_integer(pomodoro) || entry_not_integer(short_break)
        || entry_not_integer(long_break) || entry_not_integer(repetition) {
        Err(Error::Malformed)
    } else if entry_non_positive(pomodoro) || entry_non_positive(short_break)
        || entry_non_positive(long_break) || entry_non_positive(repetition) {
        Err(Error::NonPositiveError)
    } else if entry_above(repetition, i32::MAX as int) {
        Err(Error::Malformed)
    } else {
        Ok(Config {
            duration_pomodoro: match entry_value(pomodoro) { Some(v) => Some(v as u64), None => None },
            duration_short_break: match entry_value(short_break) { Some(v) => Some(v as u64), None => None },
            duration_long_break: match entry_value(long_break) { Some(v) => Some(v as u64), None => None },
            repetition: match entry_value(repetition) { Some(v) => Some(v as i32), None => None },
        })
    }
}

/// The configuration a parsed document describes, or the error it gives.
pub open spec fn document_config(m: Map<Seq<char>, Option<i64>>) -> Result<Config, Error> {
    entries_config(
        entry_of(m, "duration_pomodoro"@),
        entry_of(m, "duration_short_break"@),
        entry_of(m, "duration_long_break"@),
        entry_of(m, "repetition"@),
    )
}

/// What reading the document `s` gives: `Malformed` where it nests deeper
/// than `MAX_DEPTH`, `None` where it is not valid TOML, which the reader
/// reports in its own error, else what its four recognised keys describe.
pub open spec fn document_outcome(s: Seq<char>) -> Option<Result<Config, Error>> {
    if peak_depth(s) > MAX_DEPTH {
        Some(Err(Error::Malformed))
    } else {
        match toml_document(s) {
            None => None,
            Some(m) => Some(document_config(m)),
        }
    }
}

fn not_integer(e: Option<Option<i64>>) -> (r: bool)
    ensures
        r == entry_not_integer(e),
{
    matches!(e, Some(None))
}

fn non_positive(e: Option<Option<i64>>) -> (r: bool)
    ensures
        r == entry_non_positive(e),
{
    match e {
        Some(Some(i)) => i <= 0,
        _ => false,
    }
}

fn duration_of(e: Option<Option<i64>>) -> (r: Option<u64>)
    requires
        !entry_non_positive(e),
    ensures
        r == (match entry_value(e) { Some(v) => Some(v as u64), None => None::<u64> }),
{
    match e {
        Some(Some(i)) => Some(i as u64),
        _ => None,
    }
}

impl Config {
    /// Every field is set and positive: the configuration a sequencer runs on.
    pub open spec fn resolved(self) -> bool {
        &&& self.duration_pomodoro matches Some(d) && d > 0
        &&& self.duration_short_break matches Some(d) && d > 0
        &&& self.duration_long_break matches Some(d) && d > 0
        &&& self.repetition matches Some(r) && r > 0
    }

    /// Every field that is set is positive.
    pub open spec fn set_fields_positive(self) -> bool {
        &&& self.duration_pomodoro matches Some(d) ==> d > 0
        &&& self.duration_short_break matches Some(d) ==> d > 0
        &&& self.duration_long_break matches Some(d) ==> d > 0
        &&& self.repetition matches Some(r) ==> r > 0
    }

    /// The configuration with no field set.
    pub fn empty() -> (r: Config)
        ensures
            r == empty_config(),
    {
        Config {
            duration_pomodoro: None,
            duration_short_break: None,
            duration_long_break: None,
            repetition: None,
        }
    }

    pub fn is_resolved(&self) -> (r: bool)
        ensures
            r == self.resolved(),
    {
        (match self.duration_pomodoro { Some(d) => d > 0, None => false })
            && (match self.duration_short_break { Some(d) => d > 0, None => false })
            && (match self.duration_long_break { Some(d) => d > 0, None => false })
            && (match self.repetition { Some(r) => r > 0, None => false })
    }

    /// The configuration that the values found at the four recognised keys of a
    /// document describe. Each is `None` where the key is absent and `Some(None)`
    /// where its value is not an integer.
    pub fn from_entries(
        pomodoro: Option<Option<i64>>,
        short_break: Option<Option<i64>>,
        long_break: Option<Option<i64>>,
        repetition: Option<Option<i64>>,
    ) -> (r: Result<Config, Error>)
        ensures
            r == entries_config(pomodoro, short_break, long_break, repetition),
    {
        if not_integer(pomodoro) || not_integer(short_break) || not_integer(long_break)
            || not_integer(repetition) {
            return Err(Error::Malformed);
        }
        if non_positive(pomodoro) || non_positive(short_break) || non_positive(long_break)
            || non_positive(repetition) {
            return Err(Error::NonPositiveError);
        }
        let repetition = match repetition {
            Some(Some(i)) => {
                if i > i32::MAX as i64 {
                    return Err(Error::Malformed);
                }
                Some(i as i32)
            },
            _ => None,
        };
        Ok(Config {
            duration_pomodoro: duration_of(pomodoro),
            duration_short_break: duration_of(short_break),
            duration_long_break: duration_of(long_break),
            repetition,
        })
    }

    /// Reads a configuration document. Keys other than the four recognised
    /// ones, and sections, are ignored.
    pub fn from_str(s: &str) -> (r: Result<Config, Error>)
        ensures
            match document_outcome(s@) {
                None => r matches Err(Error::De(_)),
                Some(outcome) => r == outcome,
            },
            s@.len() == 0 ==> r == Ok::<Config, Error>(empty_config()),
    {
        if too_deep(s) {
            return Err(Error::Malformed);
        }
        match parse_table(s) {
            Err(e) => Err(Error::from(e)),
            Ok(table) => Config::from_entries(
                table_integer(&table, "duration_pomodoro"),
                table_integer(&table, "duration_short_break"),
                table_integer(&table, "duration_long_break"),
                table_integer(&table, "repetition"),
            ),
        }
    }

    /// What the configuration file gives: `None` where there is no such file,
    /// which is no error and sets nothing, else the file's text.
    pub fn from_contents(contents: Option<&str>) -> (r: Result<Config, Error>)
        ensures
            contents is None ==> r == Ok::<Config, Error>(empty_config()),
            contents matches Some(s) ==> match document_outcome(s@) {
                None => r matches Err(Error::De(_)),
                Some(outcome) => r == outcome,
            },
    {
        match contents {
            None => Ok(Config::empty()),
            Some(s) => Config::from_str(s),
        }
    }
}

impl std::str::FromStr for Config {
    type Err = Error;

    fn from_str(s: &str) -> Result<Config, Error> {
        Config::from_str(s)
    }
}

impl From<IoError> for Error {
    fn from(err: IoError) -> (r: Error)
        ensures
            r == Error::Io(err),
    {
        Error::Io(err)
    }
}

impl vstd::std_specs::convert::FromSpecImpl<IoError> for Error {
    open spec fn obeys_from_spec() -> bool {
        true
    }

    open spec fn from_spec(err: IoError) -> Error {
        Error::Io(err)
    }
}

impl From<DeError> for Error {
    fn from(err: DeError) -> (r: Error)
        ensures
            r == Error::De(err),
    {
        Error::De(err)
    }
}

impl vstd::std_specs::convert::FromSpecImpl<DeError> for Error {
    open spec fn obeys_from_spec() -> bool {
        true
    }

    open spec fn from_spec(err: DeError) -> Error {
        Error::De(err)
    }
}

impl Default for Config {
    fn default() -> (r: Config)
        ensures
            r == default_config(),
    {
        Config {
            duration_pomodoro: Some(DEFAULT_DURATION_POMODORO),
            duration_short_break: Some(DEFAULT_DURATION_SHORT_BREAK),
            duration_long_break: Some(DEFAULT_DURATION_LONG_BREAK),
            repetition: Some(DEFAULT_REPETITION),
        }
    }
}

fn or<T>(a: Option<T>, b: Option<T>) -> (r: Option<T>)
    ensures
        r == first_set(a, b),
{
    match a {
        Some(_) => a,
        None => b,
    }
}

impl std::ops::BitOr for Config {
    type Output = Config;

    /// Field by field, the value of `self` where it is set, else that of `rhs`.
    fn bitor(self, rhs: Config) -> (r: Config)
        ensures
            r == merge(self, rhs),
    {
        Config {
            duration_pomodoro: or(self.duration_pomodoro, rhs.duration_pomodoro),
            duration_short_break: or(self.duration_short_break, rhs.duration_short_break),
            duration_long_break: or(self.duration_long_break, rhs.duration_long_break),
            repetition: or(self.repetition, rhs.repetition),
        }
    }
}

impl vstd::std_specs::ops::BitOrSpecImpl for Config {
    open spec fn obeys_bitor_spec() -> bool {
        true
    }

    open spec fn bitor_req(self, rhs: Config) -> bool {
        true
    }

    open spec fn bitor_spec(self, rhs: Config) -> Config {
        merge(self, rhs)
    }
}

/// Merging is associative: grouping a chain of configurations either way gives
/// the same result.
pub proof fn lemma_merge_associative(a: Config, b: Config, c: Config)
    ensures
        merge(merge(a, b), c) == merge(a, merge(b, c)),
{
}

/// Merging is left-biased: each field set in `a` keeps its value in `a | b`,
/// whatever `b` holds.
pub proof fn lemma_merge_left_biased(a: Config, b: Config)
    ensures
        a.duration_pomodoro is Some ==> merge(a, b).duration_pomodoro == a.duration_pomodoro,
        a.duration_short_break is Some ==> merge(a, b).duration_short_break == a.duration_short_break,
        a.duration_long_break is Some ==> merge(a, b).duration_long_break == a.duration_long_break,
        a.repetition is Some ==> merge(a, b).repetition == a.repetition,
{
}

/// Merging any configuration over the defaults sets every field; where the
/// fields set in it are positive, the result is resolved.
pub proof fn lemma_merge_defaults_total(a: Config)
    ensures
        merge(a, default_config()).duration_pomodoro is Some,
        merge(a, default_config()).duration_short_break is Some,
        merge(a, default_config()).duration_long_break is Some,
        merge(a, default_config()).repetition is Some,
        a.set_fields_positive() ==> merge(a, default_config()).resolved(),
{
}

/// In a valid TOML document within the nesting bound whose recognised keys
/// hold integers, a value at most zero is refused as non-positive; values that
/// are all positive (a repetition within its field's range) are accepted and
/// kept unchanged.
pub proof fn lemma_document_positivity(s: Seq<char>)
    requires
        peak_depth(s) <= MAX_DEPTH,
        toml_document(s) is Some,
    ensures
        ({
            let m = toml_document(s)->0;
            let p = entry_of(m, "duration_pomodoro"@);
            let sb = entry_of(m, "duration_short_break"@);
            let lb = entry_of(m, "duration_long_break"@);
            let r = entry_of(m, "repetition"@);
            let integers = !entry_not_integer(p) && !entry_not_integer(sb)
                && !entry_not_integer(lb) && !entry_not_integer(r);
            let non_positive = entry_non_positive(p) || entry_non_positive(sb)
                || entry_non_positive(lb) || entry_non_positive(r);
            &&& (integers && non_positive) ==> document_outcome(s) == Some(
                Err::<Config, Error>(Error::NonPositiveError),
            )
            &&& (integers && !non_positive && !entry_above(r, i32::MAX as int)) ==> (
            document_outcome(s) matches Some(Ok(c)) && {
                &&& c.set_fields_positive()
                &&& (c.duration_pomodoro matches Some(v) ==> entry_value(p) == Some(v as int))
                &&& (c.duration_pomodoro is None ==> p is None)
                &&& (c.duration_short_break matches Some(v) ==> entry_value(sb) == Some(v as int))
                &&& (c.duration_short_break is None ==> sb is None)
                &&& (c.duration_long_break matches Some(v) ==> entry_value(lb) == Some(v as int))
                &&& (c.duration_long_break is None ==> lb is None)
                &&& (c.repetition matches Some(v) ==> entry_value(r) == Some(v as int))
                &&& (c.repetition is None ==> r is None)
            })
        }),
{
}

} // verus!
