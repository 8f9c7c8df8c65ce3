//! The configuration as plain values: provider blocks, display names, the
//! ignore list, the polling interval and the log level.

use vstd::prelude::*;
use vstd::string::*;

verus! {

/// The value of one option of a provider block.
#[derive(Debug, Clone)]
pub enum OptionValue {
    Bool(bool),
    Int(i64),
    Text(String),
    /// A value of any other shape.
    Other,
}

#[derive(Debug, Clone)]
pub struct Config {
    /// Provider blocks by lower-case provider name, each a list of options
    /// by name.
    pub notification_providers: Vec<(String, Vec<(String, OptionValue)>)>,
    /// Display names by public key.
    pub friendly_names: Vec<(String, String)>,
    /// Address ranges whose peers raise no notification.
    pub ignore_ipv4s: Vec<String>,
    /// Seconds between two cycles.
    pub update_interval: u64,
    pub log_level: String,
}

#[derive(Debug)]
pub enum ConfigError {
    Unknown,
    Message(String),
    /// The configuration holds no block for this provider.
    MissingProvider(String),
    /// The provider's block lacks this option, or holds it with a value of
    /// another type.
    MissingOption(String),
}

/// First position at or after `i` whose key is `key`, or the length.
pub open spec fn key_index<V>(entries: Seq<(String, V)>, key: Seq<char>, i: int) -> int
    decreases entries.len() - i,
{
    if 0 <= i < entries.len() && entries[i].0@ != key {
        key_index(entries, key, i + 1)
    } else {
        i
    }
}

/// The value of the first entry whose key is `key`.
pub open spec fn lookup<V>(entries: Seq<(String, V)>, key: Seq<char>) -> Option<V> {
    let i = key_index(entries, key, 0);
    if 0 <= i < entries.len() {
        Some(entries[i].1)
    } else {
        None
    }
}

/// Position of the first entry whose key is `key`.
pub fn find_key<V>(entries: &Vec<(String, V)>, key: &String) -> (r: Option<usize>)
    ensures
        match r {
            Some(i) => i < entries.len() && lookup(entries@, key@) == Some(entries[i as int].1),
            None => lookup(entries@, key@) is None,
        },
{
    let mut j: usize = 0;
    while j < entries.len()
        invariant
            j <= entries.len(),
            key_index(entries@, key@, j as int) == key_index(entries@, key@, 0),
        decreases entries.len() - j,
    {
        if entries[j].0 == *key {
            return Some(j);
        }
        j = j + 1;
    }
    None
}

pub fn default_providers() -> (r: Vec<(String, Vec<(String, OptionValue)>)>)
    ensures
        r@.len() == 0,
{
    Vec::new()
}

pub fn default_friendly_names() -> (r: Vec<(String, String)>)
    ensures
        r@.len() == 0,
{
    Vec::new()
}

pub fn default_log_level() -> (r: String)
    ensures
        r@ == "info"@,
{
    String::from_str("info")
}

pub fn default_ignore_ipv4s() -> (r: Vec<String>)
    ensures
        r@.len() == 0,
{
    Vec::new()
}

pub fn default_update_interval() -> (r: u64)
    ensures
        r == 5,
{
    5
}

impl Default for Config {
    fn default() -> (r: Self)
        ensures
            r.notification_providers@.len() == 0,
            r.friendly_names@.len() == 0,
            r.ignore_ipv4s@.len() == 0,
            r.update_interval == 5,
            r.log_level@ == "info"@,
    {
        Config {
            notification_providers: default_providers(),
            friendly_names: default_friendly_names(),
            ignore_ipv4s: default_ignore_ipv4s(),
            update_interval: default_update_interval(),
            log_level: default_log_level(),
        }
    }
}

/// What a configuration lacks, where it lacks something.
pub enum Lack {
    /// The block of the provider of this name.
    Provider(Seq<char>),
    /// The option of this name, or a value of its type for it.
    Setting(Seq<char>),
}

/// Whether the error tells of this lack.
pub open spec fn says(e: ConfigError, lack: Lack) -> bool {
    match lack {
        Lack::Provider(name) => e matches ConfigError::MissingProvider(s) && s@ == name,
        Lack::Setting(name) => e matches ConfigError::MissingOption(s) && s@ == name,
    }
}

/// The options of the provider of this name.
pub open spec fn block_of(conf: Config, name: Seq<char>) -> Option<Seq<(String, OptionValue)>> {
    match lookup(conf.notification_providers@, name) {
        Some(v) => Some(v@),
        None => None,
    }
}

/// The text that an option holds, if it holds a text.
pub open spec fn text_option(options: Seq<(String, OptionValue)>, key: Seq<char>) -> Option<
    Seq<char>,
> {
    match lookup(options, key) {
        Some(OptionValue::Text(t)) => Some(t@),
        _ => None,
    }
}

/// The truth value that an option holds, if it holds one.
pub open spec fn bool_option(options: Seq<(String, OptionValue)>, key: Seq<char>) -> Option<
    bool,
> {
    match lookup(options, key) {
        Some(OptionValue::Bool(b)) => Some(b),
        _ => None,
    }
}

/// The integer that an option holds, if it holds one.
pub open spec fn int_option(options: Seq<(String, OptionValue)>, key: Seq<char>) -> Option<i64> {
    match lookup(options, key) {
        Some(OptionValue::Int(n)) => Some(n),
        _ => None,
    }
}

/// Whether an option of this name is there at all.
pub open spec fn has_option(options: Seq<(String, OptionValue)>, key: Seq<char>) -> bool {
    lookup(options, key) is Some
}

pub fn get_text(options: &Vec<(String, OptionValue)>, key: &str) -> (r: Option<String>)
    ensures
        crate::wg::option_view(r) == text_option(options@, key@),
{
    let k = String::from_str(key);
    match find_key(options, &k) {
        Some(i) => match &options[i].1 {
            OptionValue::Text(t) => Some(t.clone()),
            _ => None,
        },
        None => None,
    }
}

pub fn get_bool(options: &Vec<(String, OptionValue)>, key: &str) -> (r: Option<bool>)
    ensures
        r == bool_option(options@, key@),
{
    let k = String::from_str(key);
    match find_key(options, &k) {
        Some(i) => match &options[i].1 {
            OptionValue::Bool(b) => Some(*b),
            _ => None,
        },
        None => None,
    }
}

pub fn get_int(options: &Vec<(String, OptionValue)>, key: &str) -> (r: Option<i64>)
    ensures
        r == int_option(options@, key@),
{
    let k = String::from_str(key);
    match find_key(options, &k) {
        Some(i) => match &options[i].1 {
            OptionValue::Int(n) => Some(*n),
            _ => None,
        },
        None => None,
    }
}

pub fn contains_option(options: &Vec<(String, OptionValue)>, key: &str) -> (r: bool)
    ensures
        r == has_option(options@, key@),
{
    let k = String::from_str(key);
    find_key(options, &k).is_some()
}

/// A copy of a block's options.
pub fn clone_options(options: &Vec<(String, OptionValue)>) -> (r: Vec<(String, OptionValue)>)
    ensures
        r@ == options@,
{
    let mut out: Vec<(String, OptionValue)> = Vec::new();
    let mut k: usize = 0;
    while k < options.len()
        invariant
            k <= options.len(),
            out@ =~= options@.take(k as int),
        decreases options.len() - k,
    {
        let value = match &options[k].1 {
            OptionValue::Bool(b) => OptionValue::Bool(*b),
            OptionValue::Int(n) => OptionValue::Int(*n),
            OptionValue::Text(t) => OptionValue::Text(t.clone()),
            OptionValue::Other => OptionValue::Other,
        };
        out.push((options[k].0.clone(), value));
        k = k + 1;
    }
    assert(options@.take(k as int) =~= options@);
    out
}

impl Config {
    /// The options of one provider, or the error that says that the
    /// configuration has no block for it.
    pub fn get_notification_provider_config(&self, provider_name: &str) -> (r: Result<
        &Vec<(String, OptionValue)>,
        ConfigError,
    >)
        ensures
            match block_of(*self, provider_name@) {
                Some(b) => r matches Ok(v) && v@ == b,
                None => r matches Err(e) && says(e, Lack::Provider(provider_name@)),
            },
    {
        let k = String::from_str(provider_name);
        match find_key(&self.notification_providers, &k) {
            Some(i) => Ok(&self.notification_providers[i].1),
            None => Err(ConfigError::MissingProvider(k)),
        }
    }
}

} // verus!
