//! The settings of a run, and how they are read from the plugin's
//! configuration.

use vstd::prelude::*;
use vstd::string::StringExecFns;

verus! {

/// `toml::Value`, a value of any of TOML's kinds. Nothing is known of what
/// it holds but what the three functions below return for it.
#[verifier::external_type_specification]
#[verifier::external_body]
pub struct ExTomlValue(toml::Value);

/// The entries of `config` where it is a table, by key; no entry where it is
/// any other kind of value.
pub uninterp spec fn entries(config: toml::Value) -> Map<Seq<char>, toml::Value>;

/// The text of `value` where it is a string.
pub uninterp spec fn text_of(value: toml::Value) -> Option<Seq<char>>;

/// The number in `value` where it is an integer.
pub uninterp spec fn integer_of(value: toml::Value) -> Option<i64>;

/// `toml::Value::get` with a string index: the entry of the table `config`
/// under `key`; none where `config` is no table or has no such key.
#[verifier::external_body]
fn entry<'a>(config: &'a toml::Value, key: &str) -> (value: Option<&'a toml::Value>)
    ensures
        match value {
            Some(v) => entries(*config).contains_key(key@) && entries(*config)[key@] == *v,
            None => !entries(*config).contains_key(key@),
        },
{
    config.get(key)
}

/// `toml::Value::as_str`: the string in `value`; none where it is another
/// kind of value.
#[verifier::external_body]
fn as_text<'a>(value: &'a toml::Value) -> (text: Option<&'a str>)
    ensures
        match text {
            Some(s) => text_of(*value) == Some(s@),
            None => text_of(*value) is None,
        },
{
    value.as_str()
}

/// `toml::Value::as_integer`: the integer in `value`; none where it is
/// another kind of value.
#[verifier::external_body]
fn as_integer(value: &toml::Value) -> (number: Option<i64>)
    ensures
        number == integer_of(*value),
{
    value.as_integer()
}

/// The string that `config` holds under `key`.
pub open spec fn config_text(config: toml::Value, key: Seq<char>) -> Option<Seq<char>> {
    if entries(config).contains_key(key) {
        text_of(entries(config)[key])
    } else {
        None
    }
}

/// The integer that `config` holds under `key`.
pub open spec fn config_integer(config: toml::Value, key: Seq<char>) -> Option<i64> {
    if entries(config).contains_key(key) {
        integer_of(entries(config)[key])
    } else {
        None
    }
}

/// The settings of a run.
#[derive(Debug)]
pub struct Settings {
    /// The text whose line gives way to the table of contents.
    pub placeholder: String,
    /// The lowest heading level that is listed; any integer.
    pub min_level: i64,
    /// The highest heading level that is listed; any integer. Where it lies
    /// below the lowest, no heading is listed.
    pub max_level: i64,
}

/// What the settings hold.
pub struct SettingsView {
    pub placeholder: Seq<char>,
    pub min_level: int,
    pub max_level: int,
}

impl View for Settings {
    type V = SettingsView;

    open spec fn view(&self) -> SettingsView {
        SettingsView {
            placeholder: self.placeholder@,
            min_level: self.min_level as int,
            max_level: self.max_level as int,
        }
    }
}

/// The settings for what a configuration holds, each value as it is given:
/// `[[_TOC_]]`, 2 and 5 where it holds no placeholder, lowest or highest
/// level.
pub open spec fn resolved(
    placeholder: Option<Seq<char>>,
    min_level: Option<i64>,
    max_level: Option<i64>,
) -> SettingsView {
    SettingsView {
        placeholder: match placeholder {
            Some(text) => text,
            None => "[[_TOC_]]"@,
        },
        min_level: match min_level {
            Some(level) => level as int,
            None => 2,
        },
        max_level: match max_level {
            Some(level) => level as int,
            None => 5,
        },
    }
}

/// The view of an optional string slice.
pub open spec fn text_view(text: Option<&str>) -> Option<Seq<char>> {
    match text {
        Some(s) => Some(s@),
        None => None,
    }
}

impl Settings {
    /// The settings for the given values, with the default for each that is
    /// missing.
    pub fn resolve(
        placeholder: Option<&str>,
        min_level: Option<i64>,
        max_level: Option<i64>,
    ) -> (settings: Settings)
        ensures
            settings@ == resolved(text_view(placeholder), min_level, max_level),
    {
        let placeholder = match placeholder {
            Some(text) => String::from_str(text),
            None => String::from_str("[[_TOC_]]"),
        };
        let min_level = match min_level {
            Some(level) => level,
            None => 2,
        };
        let max_level = match max_level {
            Some(level) => level,
            None => 5,
        };
        Settings { placeholder, min_level, max_level }
    }

    /// The settings that `config` asks for: the string under `placeholder`
    /// and the integers under `min-level` and `max-level`, with the default
    /// for each that is missing or of another kind.
    pub fn from_config(config: &toml::Value) -> (settings: Settings)
        ensures
            settings@ == resolved(
                config_text(*config, "placeholder"@),
                config_integer(*config, "min-level"@),
                config_integer(*config, "max-level"@),
            ),
    {
        let placeholder = match entry(config, "placeholder") {
            Some(value) => as_text(value),
            None => None,
        };
        let min_level = match entry(config, "min-level") {
            Some(value) => as_integer(value),
            None => None,
        };
        let max_level = match entry(config, "max-level") {
            Some(value) => as_integer(value),
            None => None,
        };
        Settings::resolve(placeholder, min_level, max_level)
    }
}

impl Default for Settings {
    fn default() -> (settings: Settings)
        ensures
            settings@ == resolved(None, None, None),
    {
        Settings::resolve(None, None, None)
    }
}

} // verus!
