//! Configuration precedence resolution.
//!
//! One invocation merges three layers into a single immutable [`Config`]:
//! built-in defaults, a previously persisted configuration, and
//! per-invocation overrides.  Resolution is pure: it either produces a
//! fully validated `Config` or fails with a configuration error, before
//! any other component runs.

use vstd::prelude::*;

use crate::error::{Error, ErrorKind};

verus! {

/// The immutable configuration of one invocation.
///
/// Invariant ([`Config::wf`]): the limit is positive and at least one
/// site is configured.  The order of `sites` is the user's priority.
#[derive(Debug)]
pub struct Config {
    pub limit: u16,
    pub sites: Vec<String>,
    pub api_key: Option<String>,
    pub lucky: bool,
    pub duckduckgo: bool,
}

impl Config {
    /// The invariant every resolved configuration satisfies.
    pub open spec fn wf(&self) -> bool {
        self.limit > 0 && self.sites@.len() > 0
    }
}

impl Default for Config {
    /// The built-in defaults, used when nothing was persisted.
    fn default() -> (r: Config)
        ensures
            r.limit == 20,
            r.sites@.len() == 1,
            r.sites@[0]@ == "stackoverflow"@,
            r.api_key is None,
            !r.lucky,
            !r.duckduckgo,
            r.wf(),
    {
        let mut sites: Vec<String> = Vec::new();
        sites.push(String::from_str("stackoverflow"));
        Config { limit: 20, sites, api_key: None, lucky: false, duckduckgo: false }
    }
}

/// A tri-state override for a boolean setting: force it on, force it
/// off, or inherit the persisted value.
#[derive(Clone, Copy, PartialEq, Eq, Structural, Debug)]
pub enum Toggle {
    On,
    Off,
    Inherit,
}

/// What a pair of explicit-on / explicit-off flags means, or `None` when
/// the pair is contradictory.
pub open spec fn spec_toggle_of_flags(on: bool, off: bool) -> Option<Toggle> {
    if on && off {
        None
    } else if on {
        Some(Toggle::On)
    } else if off {
        Some(Toggle::Off)
    } else {
        Some(Toggle::Inherit)
    }
}

/// The boolean a toggle resolves to over a persisted default.
pub open spec fn spec_fold_toggle(t: Toggle, persisted: bool) -> bool {
    match t {
        Toggle::On => true,
        Toggle::Off => false,
        Toggle::Inherit => persisted,
    }
}

impl Toggle {
    /// Collects an explicit-on and an explicit-off flag into the
    /// three-valued toggle; both at once is a configuration error.
    pub fn from_flags(on: bool, off: bool) -> (r: Result<Toggle, Error>)
        ensures
            match r {
                Ok(t) => spec_toggle_of_flags(on, off) == Some(t),
                Err(e) => spec_toggle_of_flags(on, off) is None && e.kind == ErrorKind::Config,
            },
    {
        if on && off {
            Err(Error::new(
                ErrorKind::Config,
                String::from_str("a toggle cannot be forced on and off at once"),
            ))
        } else if on {
            Ok(Toggle::On)
        } else if off {
            Ok(Toggle::Off)
        } else {
            Ok(Toggle::Inherit)
        }
    }

    /// Collapses the toggle over the persisted value.
    pub fn fold(self, persisted: bool) -> (r: bool)
        ensures
            r == spec_fold_toggle(self, persisted),
    {
        match self {
            Toggle::On => true,
            Toggle::Off => false,
            Toggle::Inherit => persisted,
        }
    }
}

/// The per-invocation overrides, as collected at the boundary.
///
/// The two boolean settings arrive as raw flag pairs so that an
/// impossible simultaneous on+off is still representable; resolution
/// rejects it rather than silently picking one side.
pub struct Overrides {
    pub limit: Option<String>,
    pub sites: Option<Vec<String>>,
    pub api_key: Option<String>,
    pub lucky_on: bool,
    pub lucky_off: bool,
    pub duckduckgo_on: bool,
    pub duckduckgo_off: bool,
}

impl Overrides {
    /// Overrides that leave every persisted value unchanged.
    pub fn none() -> (r: Overrides)
        ensures
            r.limit is None,
            r.sites is None,
            r.api_key is None,
            !r.lucky_on,
            !r.lucky_off,
            !r.duckduckgo_on,
            !r.duckduckgo_off,
    {
        Overrides {
            limit: None,
            sites: None,
            api_key: None,
            lucky_on: false,
            lucky_off: false,
            duckduckgo_on: false,
            duckduckgo_off: false,
        }
    }
}

/// Whether `c` is a decimal digit.
pub open spec fn is_digit(c: char) -> bool {
    48 <= c as u32 <= 57
}

/// Whether every character of `s` is a decimal digit.
pub open spec fn all_digits(s: Seq<char>) -> bool {
    forall|i: int| 0 <= i < s.len() ==> is_digit(#[trigger] s[i])
}

/// The integer a digit string denotes, most significant digit first.
pub open spec fn digits_val(s: Seq<char>) -> int
    decreases s.len(),
{
    if s.len() == 0 {
        0
    } else {
        digits_val(s.drop_last()) * 10 + (s.last() as u32 - 48)
    }
}

/// Whether `s` denotes a valid result limit: a non-empty digit string
/// whose value is positive and fits the limit field.
pub open spec fn valid_limit_str(s: Seq<char>) -> bool {
    all_digits(s) && s.len() > 0 && 1 <= digits_val(s) <= u16::MAX
}

proof fn lemma_digits_val_nonneg(s: Seq<char>)
    requires
        all_digits(s),
    ensures
        digits_val(s) >= 0,
    decreases s.len(),
{
    if s.len() > 0 {
        assert(all_digits(s.drop_last()));
        lemma_digits_val_nonneg(s.drop_last());
    }
}

/// Appending digits never decreases the denoted value.
proof fn lemma_digits_val_prefix(s: Seq<char>, i: int)
    requires
        all_digits(s),
        0 <= i <= s.len(),
    ensures
        digits_val(s.take(i)) <= digits_val(s),
    decreases s.len() - i,
{
    if i < s.len() {
        assert(all_digits(s.take(i + 1)));
        assert(s.take(i + 1).drop_last() =~= s.take(i));
        lemma_digits_val_nonneg(s.take(i));
        lemma_digits_val_prefix(s, i + 1);
    } else {
        assert(s.take(i) =~= s);
    }
}

/// Parses the result limit override.
///
/// Returns the denoted value exactly when `s` is a non-empty decimal
/// digit string whose value is positive and fits; everything else is a
/// configuration error.
pub fn parse_limit(s: &str) -> (r: Result<u16, Error>)
    ensures
        match r {
            Ok(v) => valid_limit_str(s@) && v == digits_val(s@),
            Err(e) => !valid_limit_str(s@) && e.kind == ErrorKind::Config,
        },
{
    let n = s.unicode_len();
    let mut acc: u32 = 0;
    let mut i: usize = 0;
    while i < n
        invariant
            0 <= i <= n,
            n == s@.len(),
            all_digits(s@.take(i as int)),
            acc == digits_val(s@.take(i as int)),
            acc <= 0xffff,
        decreases n - i,
    {
        let c = s.get_char(i);
        let cv = c as u32;
        if cv < 48 || cv > 57 {
            assert(!is_digit(s@[i as int]));
            return Err(Error::new(
                ErrorKind::Config,
                String::from_str("the limit must be a positive integer"),
            ));
        }
        let next = acc * 10 + (cv - 48);
        assert(s@.take(i + 1).drop_last() =~= s@.take(i as int));
        assert(all_digits(s@.take(i + 1)));
        assert(next == digits_val(s@.take(i + 1)));
        if next > 0xffff {
            proof {
                if all_digits(s@) {
                    lemma_digits_val_prefix(s@, i + 1);
                }
            }
            return Err(Error::new(
                ErrorKind::Config,
                String::from_str("the limit must be a positive integer"),
            ));
        }
        acc = next;
        i = i + 1;
    }
    assert(s@.take(n as int) =~= s@);
    if n == 0 || acc == 0 {
        return Err(Error::new(
            ErrorKind::Config,
            String::from_str("the limit must be a positive integer"),
        ));
    }
    Ok(acc as u16)
}

/// The api key view an override resolves to.
pub open spec fn spec_key_view(k: Option<String>) -> Option<Seq<char>> {
    match k {
        Some(s) => Some(s@),
        None => None,
    }
}

/// Whether a set of overrides is acceptable against any persisted
/// configuration: the limit (if overridden) is a valid limit string, an
/// overriding site list is non-empty, and neither toggle pair is
/// contradictory.
pub open spec fn overrides_valid(ov: &Overrides) -> bool {
    &&& match ov.limit {
        Some(s) => valid_limit_str(s@),
        None => true,
    }
    &&& match ov.sites {
        Some(v) => v@.len() > 0,
        None => true,
    }
    &&& !(ov.lucky_on && ov.lucky_off)
    &&& !(ov.duckduckgo_on && ov.duckduckgo_off)
}

/// Merges a persisted configuration and the per-invocation overrides
/// into one validated configuration.
///
/// Per field: an explicit override replaces the persisted value (for
/// `sites`, wholesale, never merged); each boolean folds its tri-state
/// toggle over the persisted value; `limit` must denote a positive
/// integer that fits.  Any violation is a configuration error and no
/// configuration is produced.
pub fn resolve(persisted: Config, ov: Overrides) -> (r: Result<Config, Error>)
    requires
        persisted.wf(),
    ensures
        match r {
            Ok(c) => {
                &&& overrides_valid(&ov)
                &&& c.wf()
                &&& c.limit == match ov.limit {
                    Some(s) => digits_val(s@),
                    None => persisted.limit as int,
                }
                &&& c.sites.deep_view() == match ov.sites {
                    Some(v) => v.deep_view(),
                    None => persisted.sites.deep_view(),
                }
                &&& spec_key_view(c.api_key) == match ov.api_key {
                    Some(k) => Some(k@),
                    None => spec_key_view(persisted.api_key),
                }
                &&& spec_toggle_of_flags(ov.lucky_on, ov.lucky_off) matches Some(t)
                    && c.lucky == spec_fold_toggle(t, persisted.lucky)
                &&& spec_toggle_of_flags(ov.duckduckgo_on, ov.duckduckgo_off) matches Some(t)
                    && c.duckduckgo == spec_fold_toggle(t, persisted.duckduckgo)
            },
            Err(e) => !overrides_valid(&ov) && e.kind == ErrorKind::Config,
        },
{
    let lucky_toggle = match Toggle::from_flags(ov.lucky_on, ov.lucky_off) {
        Ok(t) => t,
        Err(e) => {
            return Err(e);
        },
    };
    let duckduckgo_toggle = match Toggle::from_flags(ov.duckduckgo_on, ov.duckduckgo_off) {
        Ok(t) => t,
        Err(e) => {
            return Err(e);
        },
    };
    let limit: u16 = match &ov.limit {
        Some(s) => match parse_limit(s.as_str()) {
            Ok(v) => v,
            Err(e) => {
                return Err(e);
            },
        },
        None => persisted.limit,
    };
    let sites: Vec<String> = match ov.sites {
        Some(v) => {
            if v.is_empty() {
                return Err(Error::new(
                    ErrorKind::Config,
                    String::from_str("an overriding site list must name at least one site"),
                ));
            }
            v
        },
        None => persisted.sites,
    };
    let api_key: Option<String> = match ov.api_key {
        Some(k) => Some(k),
        None => persisted.api_key,
    };
    let lucky = lucky_toggle.fold(persisted.lucky);
    let duckduckgo = duckduckgo_toggle.fold(persisted.duckduckgo);
    Ok(Config { limit, sites, api_key, lucky, duckduckgo })
}

} // verus!
