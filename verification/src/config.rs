//! The daemon configuration: a table of known keys read from a `KEY=VALUE`
//! file. Reading the file happens outside; the parsing and validation of its
//! lines happen here. Unknown keys, empty keys and empty values are hard
//! errors.

use vstd::prelude::*;
use crate::json::str_eqs;

verus! {

/// The keys the configuration file may define.
#[derive(PartialEq, Eq, Structural, Clone, Copy)]
pub enum ConfigKey {
    WorkspaceConfigFilePath,
    DaemonCommandSocketPath,
    MonitorExecutablePath,
    LogDirectory,
}

/// Error of loading the configuration.
#[derive(Debug)]
pub enum Error {
    Io(String),
    Environment(String),
    MalformedConfigFile(String),
    Initialization(String),
}

/// The parsed configuration table.
pub struct Config {
    entries: Vec<(ConfigKey, String)>,
}

/// The value recorded for `key`: the last entry wins, as with repeated
/// insertions into a table.
pub open spec fn cfg_lookup(s: Seq<(ConfigKey, Seq<char>)>, key: ConfigKey) -> Option<Seq<char>>
    decreases s.len(),
{
    if s.len() == 0 {
        Option::None
    } else if s.last().0 == key {
        Option::Some(s.last().1)
    } else {
        cfg_lookup(s.drop_last(), key)
    }
}

impl View for Config {
    type V = Seq<(ConfigKey, Seq<char>)>;

    closed spec fn view(&self) -> Seq<(ConfigKey, Seq<char>)> {
        self.entries@.map_values(|p: (ConfigKey, String)| (p.0, p.1@))
    }
}

impl Config {
    /// An empty table.
    pub fn new() -> (r: Config)
        ensures
            r@ == Seq::<(ConfigKey, Seq<char>)>::empty(),
    {
        let r = Config { entries: Vec::new() };
        proof {
            assert(r@ =~= Seq::<(ConfigKey, Seq<char>)>::empty());
        }
        r
    }

    /// Records a value for a key; a later entry overrides an earlier one.
    pub fn insert(&mut self, key: ConfigKey, value: String)
        ensures
            final(self)@ == old(self)@.push((key, value@)),
            cfg_lookup(final(self)@, key) == Option::Some(value@),
    {
        self.entries.push((key, value));
        proof {
            assert(self@ =~= old(self)@.push((key, value@)));
            assert(self@.drop_last() =~= old(self)@);
        }
    }

    /// The value configured for `key`, if any.
    pub fn get_string(&self, key: ConfigKey) -> (r: Option<&String>)
        ensures
            match r {
                Option::Some(v) => cfg_lookup(self@, key) == Option::Some(v@),
                Option::None => cfg_lookup(self@, key) is None,
            },
    {
        let n = self.entries.len();
        let mut i: usize = n;
        proof {
            assert(self@.take(n as int) =~= self@);
        }
        while i > 0
            invariant
                i <= n,
                n == self.entries.len(),
                cfg_lookup(self@, key) == cfg_lookup(self@.take(i as int), key),
            decreases i,
        {
            i = i - 1;
            proof {
                assert(self@.take(i as int + 1).last() == self@[i as int]);
                assert(self@.take(i as int + 1).drop_last() =~= self@.take(i as int));
                assert(self@[i as int] == (self.entries@[i as int].0, self.entries@[i as int].1@));
            }
            if self.entries[i].0 == key {
                return Option::Some(&self.entries[i].1);
            }
        }
        proof {
            assert(self@.take(0) =~= Seq::<(ConfigKey, Seq<char>)>::empty());
        }
        Option::None
    }

    /// The value configured for `key`, as an owned path string.
    pub fn get_path(&self, key: ConfigKey) -> (r: Option<String>)
        ensures
            match r {
                Option::Some(v) => cfg_lookup(self@, key) == Option::Some(v@),
                Option::None => cfg_lookup(self@, key) is None,
            },
    {
        match self.get_string(key) {
            Option::Some(v) => Option::Some(v.clone()),
            Option::None => Option::None,
        }
    }
}

/// Position of the first `=` in `s`, or the length when there is none.
pub open spec fn eq_pos_from(s: Seq<char>, i: int) -> int
    decreases s.len() - i when 0 <= i <= s.len()
{
    if i >= s.len() {
        s.len() as int
    } else if s[i] == '=' {
        i
    } else {
        eq_pos_from(s, i + 1)
    }
}

pub open spec fn eq_pos(s: Seq<char>) -> int {
    eq_pos_from(s, 0)
}

/// Splits one `KEY=VALUE` line at its first `=`. A line without `=`, with an
/// empty key or with an empty value is rejected.
pub fn get_cfg_entry_components(cfg_line: String) -> (r: Result<(String, String), Error>)
    ensures
        match r {
            Result::Ok((k, v)) => {
                &&& 0 < eq_pos(cfg_line@) < cfg_line@.len() - 1
                &&& k@ == cfg_line@.subrange(0, eq_pos(cfg_line@))
                &&& v@ == cfg_line@.subrange(eq_pos(cfg_line@) + 1, cfg_line@.len() as int)
            },
            Result::Err(_) => !(0 < eq_pos(cfg_line@) < cfg_line@.len() - 1),
        },
{
    let n = cfg_line.as_str().unicode_len();
    let mut i: usize = 0;
    while i < n
        invariant
            i <= n,
            n == cfg_line@.len(),
            eq_pos(cfg_line@) == eq_pos_from(cfg_line@, i as int),
        decreases n - i,
    {
        if cfg_line.as_str().get_char(i) == '=' {
            assert(eq_pos_from(cfg_line@, i as int) == i as int);
            if i == 0 {
                return Result::Err(Error::MalformedConfigFile(crate::registry::msg2(
                    "Config entry '",
                    &cfg_line,
                    "' has an empty key value!",
                )));
            }
            if i + 1 >= n {
                return Result::Err(Error::MalformedConfigFile(crate::registry::msg2(
                    "Config entry '",
                    &cfg_line,
                    "' has no value!",
                )));
            }
            let k = cfg_line.as_str().substring_char(0, i).to_owned();
            let v = cfg_line.as_str().substring_char(i + 1, n).to_owned();
            return Result::Ok((k, v));
        }
        assert(eq_pos_from(cfg_line@, i as int) == eq_pos_from(cfg_line@, i as int + 1));
        i = i + 1;
    }
    Result::Err(Error::MalformedConfigFile(crate::registry::msg2(
        "Config entry '",
        &cfg_line,
        "' does not conform to the format 'KEY=VALUE'",
    )))
}

/// The key a name denotes, if it is a recognized one.
pub open spec fn spec_key_of(s: Seq<char>) -> Option<ConfigKey> {
    if s == "WorkspaceConfigFilePath"@ {
        Option::Some(ConfigKey::WorkspaceConfigFilePath)
    } else if s == "DaemonCommandSocketPath"@ {
        Option::Some(ConfigKey::DaemonCommandSocketPath)
    } else if s == "MonitorExecutablePath"@ {
        Option::Some(ConfigKey::MonitorExecutablePath)
    } else if s == "LogDirectory"@ {
        Option::Some(ConfigKey::LogDirectory)
    } else {
        Option::None
    }
}

/// Reads a key name; unknown names are rejected.
pub fn key_of(s: &String) -> (r: Option<ConfigKey>)
    ensures
        r == spec_key_of(s@),
{
    if str_eqs(s.as_str(), "WorkspaceConfigFilePath") {
        Option::Some(ConfigKey::WorkspaceConfigFilePath)
    } else if str_eqs(s.as_str(), "DaemonCommandSocketPath") {
        Option::Some(ConfigKey::DaemonCommandSocketPath)
    } else if str_eqs(s.as_str(), "MonitorExecutablePath") {
        Option::Some(ConfigKey::MonitorExecutablePath)
    } else if str_eqs(s.as_str(), "LogDirectory") {
        Option::Some(ConfigKey::LogDirectory)
    } else {
        Option::None
    }
}

/// The table entry one well-formed line yields: the recognized key left of
/// the first `=`, and everything right of it.
pub open spec fn cfg_entry_of(line: Seq<char>) -> (ConfigKey, Seq<char>) {
    (
        spec_key_of(line.subrange(0, eq_pos(line)))->Some_0,
        line.subrange(eq_pos(line) + 1, line.len() as int),
    )
}

/// A line is acceptable: split by its first `=` into a nonempty recognized
/// key and a nonempty value.
pub open spec fn cfg_line_ok(line: Seq<char>) -> bool {
    &&& 0 < eq_pos(line) < line.len() - 1
    &&& spec_key_of(line.subrange(0, eq_pos(line))) is Some
}

/// Builds the configuration from the lines of the file: every line must be a
/// well-formed `KEY=VALUE` pair with a recognized key, and the table records
/// the lines' entries in order; one bad line fails the whole file.
pub fn build_config(lines: Vec<String>) -> (r: Result<Config, Error>)
    ensures
        match r {
            Result::Ok(c) => {
                &&& c@.len() == lines@.len()
                &&& forall|k: int|
                    0 <= k < lines@.len() ==> cfg_line_ok((#[trigger] lines@[k])@) && c@[k]
                        == cfg_entry_of(lines@[k]@)
            },
            Result::Err(_) => exists|k: int|
                0 <= k < lines@.len() && !cfg_line_ok((#[trigger] lines@[k])@),
        },
{
    let mut config = Config::new();
    let n = lines.len();
    let mut i: usize = 0;
    while i < n
        invariant
            i <= n,
            n == lines@.len(),
            config@.len() == i as int,
            forall|k: int|
                0 <= k < i as int ==> cfg_line_ok((#[trigger] lines@[k])@) && config@[k]
                    == cfg_entry_of(lines@[k]@),
        decreases n - i,
    {
        let line = lines[i].clone();
        let ghost linev = lines@[i as int]@;
        let (kname, value) = match get_cfg_entry_components(line) {
            Result::Ok(kv) => kv,
            Result::Err(e) => {
                assert(!cfg_line_ok(linev));
                return Result::Err(e);
            },
        };
        let key = match key_of(&kname) {
            Option::Some(k) => k,
            Option::None => {
                assert(!cfg_line_ok(linev));
                return Result::Err(Error::MalformedConfigFile(crate::registry::msg2(
                    "Invalid config key '",
                    &kname,
                    "' found!",
                )));
            },
        };
        config.insert(key, value);
        proof {
            assert(config@[i as int] == cfg_entry_of(linev));
        }
        i = i + 1;
    }
    Result::Ok(config)
}

} // verus!
