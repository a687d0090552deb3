//! The charge settings: the energy to charge to and the time to reach it by.

use toml::de::Error as TomlDeError;
use vstd::prelude::*;

verus! {

#[verifier::external_type_specification]
#[verifier::external_body]
#[verifier::reject_recursive_types(K)]
#[verifier::reject_recursive_types(V)]
pub struct ExTomlMap<K, V>(toml::map::Map<K, V>);

#[verifier::external_type_specification]
#[verifier::external_body]
pub struct ExTomlValue(toml::Value);

#[verifier::external_type_specification]
#[verifier::external_body]
pub struct ExTomlError(TomlDeError);

/// What a TOML table holds, as far as the settings read it: each of its keys,
/// with the integer it maps the key to, or `None` where the value is no
/// integer.
pub uninterp spec fn toml_table_integers(table: toml::map::Map<String, toml::Value>) -> Map<
    Seq<char>,
    Option<i64>,
>;

/// What TOML parsing makes of a text: `None` where it is no TOML document,
/// else what the top-level table holds in the sense of
/// `toml_table_integers`.
pub uninterp spec fn toml_document_integers(content: Seq<char>) -> Option<Map<Seq<char>, Option<i64>>>;

/// Calls `<toml::Table as FromStr>::from_str`. The contract claims that the
/// table it returns is a function of the text (named by
/// `toml_document_integers`), and that it fails for the texts for which that
/// name is `None`; what TOML accepts is left to the name.
#[verifier::external_body]
fn parse_toml_table(content: &str) -> (r: Result<toml::map::Map<String, toml::Value>, TomlDeError>)
    ensures
        match r {
            Ok(t) => toml_document_integers(content@) == Some(toml_table_integers(t)),
            Err(_) => toml_document_integers(content@) is None,
        },
{
    content.parse::<toml::Table>()
}

/// Calls `toml::map::Map::get` for `key`, and `toml::Value::as_integer` on
/// the value found. The contract claims that the result is what the table
/// holds for the key: `None` where the key is absent, else the integer or
/// `None` where the value is no integer.
#[verifier::external_body]
fn table_integer(table: &toml::map::Map<String, toml::Value>, key: &str) -> (r: Option<Option<i64>>)
    ensures
        r == if toml_table_integers(*table).dom().contains(key@) {
            Some(toml_table_integers(*table)[key@])
        } else {
            None
        },
{
    match table.get(key) {
        Some(v) => Some(v.as_integer()),
        None => None,
    }
}

/// The charge settings.
#[derive(Debug, Clone, Copy, PartialEq, Eq, Structural)]
pub struct Config {
    /// The energy to charge to, in percent of the last full charge.
    pub target_energy: i64,
    /// The time to reach it by, in milliseconds after the Unix epoch.
    pub target_time: i64,
}

/// The integer that `fields` holds for `key`, if any.
pub open spec fn integer_field(fields: Map<Seq<char>, Option<i64>>, key: Seq<char>) -> Option<i64> {
    if fields.dom().contains(key) {
        fields[key]
    } else {
        None
    }
}

/// The settings that a table holds: both `target_energy` and `target_time`
/// must be integers.
pub open spec fn config_of(fields: Map<Seq<char>, Option<i64>>) -> Option<Config> {
    match (integer_field(fields, "target_energy"@), integer_field(fields, "target_time"@)) {
        (Some(e), Some(t)) => Some(Config { target_energy: e, target_time: t }),
        _ => None,
    }
}

/// Reads the settings from a table that holds them.
pub fn config_from_table(table: &toml::map::Map<String, toml::Value>) -> (c: Config)
    requires
        config_of(toml_table_integers(*table)) is Some,
    ensures
        config_of(toml_table_integers(*table)) == Some(c),
{
    let target_energy = match table_integer(table, "target_energy") {
        Some(Some(v)) => v,
        _ => 0,
    };
    let target_time = match table_integer(table, "target_time") {
        Some(Some(v)) => v,
        _ => 0,
    };
    Config { target_energy, target_time }
}

/// Reads the settings from the text of the settings file; `None` where the
/// text is no TOML document or lacks one of the two integers.
pub fn parse_config(content: &str) -> (r: Option<Config>)
    ensures
        r == match toml_document_integers(content@) {
            Some(fields) => config_of(fields),
            None => None,
        },
{
    match parse_toml_table(content) {
        Ok(table) => {
            let energy = table_integer(&table, "target_energy");
            let time = table_integer(&table, "target_time");
            match (energy, time) {
                (Some(Some(_)), Some(Some(_))) => Some(config_from_table(&table)),
                _ => None,
            }
        },
        Err(_) => None,
    }
}

/// The milliseconds from `now` to the target time, both in milliseconds
/// after the Unix epoch; the target must not lie in the past.
pub fn time_until_target(target_time: i64, now: i64) -> (d: u64)
    requires
        0 <= target_time - now <= i64::MAX,
    ensures
        d == target_time - now,
{
    (target_time - now) as u64
}

} // verus!
