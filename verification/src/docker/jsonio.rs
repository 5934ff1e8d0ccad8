//! Readers for the JSON lines the Docker Engine streams back. Each reader
//! hands one shape of field out as plain values; what each returns is given
//! a name, and the listeners' contracts are stated over those names.

use vstd::prelude::*;

verus! {

/// The string at `key` of the JSON object `line`, if `line` parses as a JSON
/// object holding a string there.
pub uninterp spec fn json_field_str(line: Seq<char>, key: Seq<char>) -> Option<Seq<char>>;

/// The string at `k1.k2` of the JSON object `line`.
pub uninterp spec fn json_field2_str(line: Seq<char>, k1: Seq<char>, k2: Seq<char>) -> Option<
    Seq<char>,
>;

/// The array of strings at `key` of the JSON object `line`.
pub uninterp spec fn json_str_array(line: Seq<char>, key: Seq<char>) -> Option<Seq<Seq<char>>>;

/// The array of arrays of strings at `key` of the JSON object `line`.
pub uninterp spec fn json_str_array_array(line: Seq<char>, key: Seq<char>) -> Option<
    Seq<Seq<Seq<char>>>,
>;

/// The keys of the JSON object at `k1.k2` of `line`, in the order
/// `serde_json` iterates them (sorted: its maps are B-trees).
pub uninterp spec fn json_object_keys2(line: Seq<char>, k1: Seq<char>, k2: Seq<char>) -> Option<
    Seq<Seq<char>>,
>;

/// The string at `NetworkSettings.Ports[port_key][0].HostPort` of the
/// container-inspect body `line`.
pub uninterp spec fn json_host_port(line: Seq<char>, port_key: Seq<char>) -> Option<Seq<char>>;

/// Relies on `serde_json::from_str` and `Value::get`/`as_str`: both are
/// functions of the text alone.
#[verifier::external_body]
pub(crate) fn get_json_str(line: &str, key: &str) -> (r: Option<String>)
    ensures
        r.deep_view() == json_field_str(line@, key@),
{
    serde_json::from_str::<serde_json::Value>(line).ok().and_then(
        |v| v.get(key).and_then(|f| f.as_str()).map(|s| s.to_string()),
    )
}

/// Relies on `serde_json::from_str` and `Value::get`/`as_str`, two levels
/// deep.
#[verifier::external_body]
pub(crate) fn get_json_str2(line: &str, k1: &str, k2: &str) -> (r: Option<String>)
    ensures
        r.deep_view() == json_field2_str(line@, k1@, k2@),
{
    serde_json::from_str::<serde_json::Value>(line).ok().and_then(
        |v| v.get(k1)?.get(k2)?.as_str().map(|s| s.to_string()),
    )
}

/// Relies on `serde_json::from_str` and `Value::as_array`/`as_str`: the
/// whole array is handed out only when every element is a string.
#[verifier::external_body]
pub(crate) fn get_json_str_array(line: &str, key: &str) -> (r: Option<Vec<String>>)
    ensures
        r.deep_view() == json_str_array(line@, key@),
{
    let v: serde_json::Value = serde_json::from_str(line).ok()?;
    let arr = v.get(key)?.as_array()?;
    arr.iter().map(|x| x.as_str().map(|s| s.to_string())).collect()
}

/// Relies on `serde_json::from_str` and `Value::as_array`/`as_str`, one
/// level of nesting deeper.
#[verifier::external_body]
pub(crate) fn get_json_str_array_array(line: &str, key: &str) -> (r: Option<Vec<Vec<String>>>)
    ensures
        r.deep_view() == json_str_array_array(line@, key@),
{
    let v: serde_json::Value = serde_json::from_str(line).ok()?;
    let arr = v.get(key)?.as_array()?;
    arr.iter().map(
        |row| row.as_array()?.iter().map(|x| x.as_str().map(|s| s.to_string())).collect(),
    ).collect()
}

/// Relies on `serde_json::from_str` and `Value::as_object`: `serde_json`'s
/// maps are B-trees, so the key order is a function of the text.
#[verifier::external_body]
pub(crate) fn get_json_object_keys2(line: &str, k1: &str, k2: &str) -> (r: Option<Vec<String>>)
    ensures
        r.deep_view() == json_object_keys2(line@, k1@, k2@),
{
    let v: serde_json::Value = serde_json::from_str(line).ok()?;
    let obj = v.get(k1)?.get(k2)?.as_object()?;
    Some(obj.keys().cloned().collect())
}

/// Relies on `serde_json::from_str` and `Value::get`/`as_str` down the
/// fixed path `NetworkSettings.Ports[port_key][0].HostPort`.
#[verifier::external_body]
pub(crate) fn get_json_host_port(line: &str, port_key: &str) -> (r: Option<String>)
    ensures
        r.deep_view() == json_host_port(line@, port_key@),
{
    let v: serde_json::Value = serde_json::from_str(line).ok()?;
    let s = v.get("NetworkSettings")?.get("Ports")?.get(port_key)?.get(0)?.get(
        "HostPort",
    )?.as_str()?;
    Some(s.to_string())
}

} // verus!
