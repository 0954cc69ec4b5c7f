use vstd::prelude::*;
use crate::text::{char_code, digit_value, is_digit};
use crate::timestamp::{all_digits, digits_at};

verus! {

/// The process settings, read once at start and passed to whoever needs them.
#[allow(non_snake_case)]
#[derive(Clone, Debug)]
pub struct Config {
    pub DATABASE_FILE_PATH: String,
    pub DATABASE_SEED_FILE_PATH: String,
    pub PCAP_FILE_PATH: String,
    pub TSHARK_RUN_DURATION: u64,
    pub TSHARK_TARGET_INTERFACE: String,
    pub SLEEP: u64,
}

/// One of the process settings.
#[derive(Clone, Copy, Debug, PartialEq, Eq, Structural)]
pub enum Setting {
    DatabaseFilePath,
    DatabaseSeedFilePath,
    PcapFilePath,
    TsharkTargetInterface,
    TsharkRunDuration,
    Sleep,
}

/// Why the settings do not make a configuration.
#[derive(Clone, Copy, Debug, PartialEq, Eq, Structural)]
pub enum ConfigError {
    /// The setting is not given.
    Missing(Setting),
    /// The setting is not a whole number of seconds.
    NotANumber(Setting),
}

/// The name under which a setting is given.
pub open spec fn setting_name(s: Setting) -> Seq<char> {
    match s {
        Setting::DatabaseFilePath => "DATABASE_FILE_PATH"@,
        Setting::DatabaseSeedFilePath => "DATABASE_SEED_FILE_PATH"@,
        Setting::PcapFilePath => "PCAP_FILE_PATH"@,
        Setting::TsharkTargetInterface => "TSHARK_TARGET_INTERFACE"@,
        Setting::TsharkRunDuration => "TSHARK_RUN_DURATION"@,
        Setting::Sleep => "SLEEP"@,
    }
}

impl Setting {
    /// The name under which this setting is given.
    pub fn name(&self) -> (r: &'static str)
        ensures
            r@ == setting_name(*self),
    {
        match self {
            Setting::DatabaseFilePath => "DATABASE_FILE_PATH",
            Setting::DatabaseSeedFilePath => "DATABASE_SEED_FILE_PATH",
            Setting::PcapFilePath => "PCAP_FILE_PATH",
            Setting::TsharkTargetInterface => "TSHARK_TARGET_INTERFACE",
            Setting::TsharkRunDuration => "TSHARK_RUN_DURATION",
            Setting::Sleep => "SLEEP",
        }
    }
}

/// The digits of an unsigned number's text: a leading `+` is dropped.
pub open spec fn unsigned_digits(s: Seq<char>) -> Seq<char> {
    if s.len() > 0 && s[0] == '+' { s.drop_first() } else { s }
}

/// The `u64` that a text spells in decimal, optionally after a `+`.
pub open spec fn parse_u64_spec(s: Seq<char>) -> Option<u64> {
    let d = unsigned_digits(s);
    if d.len() > 0 && all_digits(d, 0, d.len() as int) && digits_at(d, 0, d.len()) <= u64::MAX {
        Some(digits_at(d, 0, d.len()) as u64)
    } else {
        None
    }
}

proof fn lemma_digits_grow(s: Seq<char>, k: nat, n: nat)
    requires
        k <= n,
        all_digits(s, 0, n as int),
    ensures
        digits_at(s, 0, k) <= digits_at(s, 0, n),
        0 <= digits_at(s, 0, k),
    decreases n,
{
    if n > 0 {
        assert(is_digit(s[n - 1]));
        if k < n {
            lemma_digits_grow(s, k, (n - 1) as nat);
            let v = digits_at(s, 0, (n - 1) as nat);
            assert(v <= v * 10 + digit_value(s[n - 1])) by (nonlinear_arith)
                requires v >= 0, digit_value(s[n - 1]) >= 0;
        } else {
            lemma_digits_grow(s, (n - 1) as nat, (n - 1) as nat);
        }
    }
}

/// Reads a `u64` written in decimal, optionally after a `+`.
pub fn parse_u64(s: &str) -> (r: Option<u64>)
    ensures
        r == parse_u64_spec(s@),
{
    let len = s.unicode_len();
    let start: usize = if len > 0 && s.get_char(0) == '+' { 1 } else { 0 };
    let ghost d = unsigned_digits(s@);
    assert(d =~= s@.skip(start as int));
    if start >= len {
        return None;
    }
    let mut v: u64 = 0;
    let mut k: usize = start;
    while k < len
        invariant
            start <= k <= len,
            len == s@.len(),
            d == s@.skip(start as int),
            d == unsigned_digits(s@),
            all_digits(d, 0, k - start),
            v as int == digits_at(d, 0, (k - start) as nat),
        decreases len - k,
    {
        let c = s.get_char(k);
        assert(c == d[k - start]);
        let code = char_code(c);
        if code < 48 || code > 57 {
            assert(!is_digit(d[k - start]));
            return None;
        }
        let dv = (code - 48) as u64;
        assert(dv as int == digit_value(d[k - start]));
        if v > 1844674407370955161 || (v == 1844674407370955161 && dv > 5) {
            proof {
                assert(digits_at(d, 0, (k - start + 1) as nat) > u64::MAX);
                if all_digits(d, 0, d.len() as int) {
                    lemma_digits_grow(d, (k - start + 1) as nat, d.len());
                }
            }
            return None;
        }
        v = v * 10 + dv;
        k = k + 1;
    }
    Some(v)
}

/// The error that a duration setting gives, if any.
pub open spec fn number_error(v: Option<String>, s: Setting) -> Option<ConfigError> {
    match v {
        None => Some(ConfigError::Missing(s)),
        Some(t) => if parse_u64_spec(t@) is Some { None } else { Some(ConfigError::NotANumber(s)) },
    }
}

/// The first setting, in field order, that is missing or unreadable, as an error.
pub open spec fn settings_error(
    database_file_path: Option<String>,
    database_seed_file_path: Option<String>,
    pcap_file_path: Option<String>,
    tshark_target_interface: Option<String>,
    tshark_run_duration: Option<String>,
    sleep: Option<String>,
) -> Option<ConfigError> {
    if database_file_path is None {
        Some(ConfigError::Missing(Setting::DatabaseFilePath))
    } else if database_seed_file_path is None {
        Some(ConfigError::Missing(Setting::DatabaseSeedFilePath))
    } else if pcap_file_path is None {
        Some(ConfigError::Missing(Setting::PcapFilePath))
    } else if tshark_target_interface is None {
        Some(ConfigError::Missing(Setting::TsharkTargetInterface))
    } else if number_error(tshark_run_duration, Setting::TsharkRunDuration) is Some {
        number_error(tshark_run_duration, Setting::TsharkRunDuration)
    } else {
        number_error(sleep, Setting::Sleep)
    }
}

impl Config {
    /// Builds the configuration from the settings as given, each `None` where
    /// it is not given; the two durations must be whole numbers of seconds.
    /// The first setting missing or unreadable, in field order, is reported.
    pub fn from_settings(
        database_file_path: Option<String>,
        database_seed_file_path: Option<String>,
        pcap_file_path: Option<String>,
        tshark_target_interface: Option<String>,
        tshark_run_duration: Option<String>,
        sleep: Option<String>,
    ) -> (r: Result<Config, ConfigError>)
        ensures
            r is Ok <==> settings_error(database_file_path, database_seed_file_path, pcap_file_path,
                tshark_target_interface, tshark_run_duration, sleep) is None,
            r matches Err(e) ==> settings_error(database_file_path, database_seed_file_path, pcap_file_path,
                tshark_target_interface, tshark_run_duration, sleep) == Some(e),
            r matches Ok(c) ==> {
                &&& database_file_path == Some(c.DATABASE_FILE_PATH)
                &&& database_seed_file_path == Some(c.DATABASE_SEED_FILE_PATH)
                &&& pcap_file_path == Some(c.PCAP_FILE_PATH)
                &&& tshark_target_interface == Some(c.TSHARK_TARGET_INTERFACE)
                &&& tshark_run_duration matches Some(t) && parse_u64_spec(t@) == Some(c.TSHARK_RUN_DURATION)
                &&& sleep matches Some(t) && parse_u64_spec(t@) == Some(c.SLEEP)
            },
    {
        let db = match database_file_path {
            Some(v) => v,
            None => return Err(ConfigError::Missing(Setting::DatabaseFilePath)),
        };
        let seed = match database_seed_file_path {
            Some(v) => v,
            None => return Err(ConfigError::Missing(Setting::DatabaseSeedFilePath)),
        };
        let pcap = match pcap_file_path {
            Some(v) => v,
            None => return Err(ConfigError::Missing(Setting::PcapFilePath)),
        };
        let iface = match tshark_target_interface {
            Some(v) => v,
            None => return Err(ConfigError::Missing(Setting::TsharkTargetInterface)),
        };
        let duration = match &tshark_run_duration {
            Some(t) => match parse_u64(t.as_str()) {
                Some(n) => n,
                None => return Err(ConfigError::NotANumber(Setting::TsharkRunDuration)),
            },
            None => return Err(ConfigError::Missing(Setting::TsharkRunDuration)),
        };
        let pause = match &sleep {
            Some(t) => match parse_u64(t.as_str()) {
                Some(n) => n,
                None => return Err(ConfigError::NotANumber(Setting::Sleep)),
            },
            None => return Err(ConfigError::Missing(Setting::Sleep)),
        };
        Ok(Config {
            DATABASE_FILE_PATH: db,
            DATABASE_SEED_FILE_PATH: seed,
            PCAP_FILE_PATH: pcap,
            TSHARK_RUN_DURATION: duration,
            TSHARK_TARGET_INTERFACE: iface,
            SLEEP: pause,
        })
    }
}

} // verus!
