//! The server's configuration and the validation of its values.

use vstd::prelude::*;
use crate::memory::{MemoryFormat, free_memory_with_format, total_memory_with_format, in_format};
use crate::paths::{eq_ignore_ascii_case, extension_of, is_file_extension};
use crate::path_map::str_equal;
use crate::text::{cat, cat3, chars_of, lower_of, own, same_result, same_text_result, string_of, to_lower, to_upper, upper_of};

verus! {

/// How the server fills its cache.
#[derive(PartialEq, Eq, Structural, Debug)]
pub enum ServerCacheMode {
    Fill,
    Hits,
}

/// The cache settings.
pub struct ServerCache {
    pub counter_reset: u64,
    pub mode: ServerCacheMode,
    pub max_memory: u64,
}

/// The settings of a served site.
pub struct ServerRunConfig {
    pub output: String,
    pub port: u16,
    pub cache: ServerCache,
    pub fallback: Option<String>,
}

/// The port served on when the configuration names none.
pub fn default_port() -> (r: u16)
    ensures
        r == 7997,
{
    7997
}

/// The fallback file when the configuration names none: none.
pub fn default_fallback() -> (r: Option<String>)
    ensures
        r is None,
{
    None
}

/// The cache mode when the configuration names none.
pub fn default_mode() -> (r: ServerCacheMode)
    ensures
        r == ServerCacheMode::Hits,
{
    ServerCacheMode::Hits
}

/// The counter reset when the configuration names none: six hours, in seconds.
pub fn default_counter_reset() -> (r: u64)
    ensures
        r == 21600,
{
    60 * 60 * 6
}

/// The default memory limit for the given free and total memory (in MB):
/// the smaller of a third of the free memory and a quarter of the total.
pub open spec fn max_memory_default(free_mb: nat, total_mb: nat) -> nat {
    if free_mb / 3 <= total_mb / 4 { free_mb / 3 } else { total_mb / 4 }
}

/// The default memory limit for the given free and total memory (in MB).
pub fn default_max_memory_of(free_mb: u64, total_mb: u64) -> (r: u64)
    ensures
        r == max_memory_default(free_mb as nat, total_mb as nat),
{
    let a = free_mb / 3;
    let b = total_mb / 4;
    if a <= b { a } else { b }
}

/// The default memory limit for this machine, in MB.
pub fn default_max_memory() -> (r: u64)
    ensures
        exists|free: u64, total: u64| r == max_memory_default(
            in_format(free, MemoryFormat::MB),
            in_format(total, MemoryFormat::MB),
        ),
{
    let free_memory = free_memory_with_format(Some(MemoryFormat::MB));
    let total_memory = total_memory_with_format(Some(MemoryFormat::MB));
    default_max_memory_of(free_memory, total_memory)
}

/// The verdict on the configured output folder, given whether it exists and
/// whether it is a directory.
pub open spec fn output_dir_verdict(output: Seq<char>, exists: bool, is_dir: bool) -> Result<Seq<char>, Seq<char>> {
    if output.len() == 0 {
        Err("Output directory path cannot be empty."@)
    } else if !exists {
        Err("`output` path does not exist: "@ + output)
    } else if !is_dir {
        Err("`output` must be a directory: "@ + output)
    } else if output.last() != '/' {
        Err("`output` must end with '/'."@)
    } else {
        Ok(output)
    }
}

/// Checks the configured output folder: it must be named, exist, be a
/// directory and end with `/`.
pub fn check_output_dir(output: &str, exists: bool, is_dir: bool) -> (r: Result<String, String>)
    ensures
        same_text_result(r, output_dir_verdict(output@, exists, is_dir)),
{
    let v = chars_of(output);
    if v.len() == 0 {
        return Err(own("Output directory path cannot be empty."));
    }
    if !exists {
        return Err(cat("`output` path does not exist: ", output));
    }
    if !is_dir {
        return Err(cat("`output` must be a directory: ", output));
    }
    if v[v.len() - 1] != '/' {
        return Err(own("`output` must end with '/'."));
    }
    Ok(own(output))
}

/// Checks the configured port: it must not be zero.
pub fn check_port(port: u16) -> (r: Result<u16, String>)
    ensures
        same_result(r, if port == 0 { Err("Port number must be between 1 and 65535."@) } else { Ok(port) }),
{
    if port == 0 {
        return Err(own("Port number must be between 1 and 65535."));
    }
    Ok(port)
}

/// The cache mode named by `raw`: `fill` in any case; every other name is refused.
pub open spec fn cache_mode_verdict(lowered: Seq<char>) -> Result<ServerCacheMode, Seq<char>> {
    if lowered == "fill"@ {
        Ok(ServerCacheMode::Fill)
    } else {
        Err("Invalid cache mode: "@ + lowered + ". Supported modes: fill"@)
    }
}

/// The cache mode named by `lowered`, a name already in lower case.
pub fn cache_mode_from(lowered: &str) -> (r: Result<ServerCacheMode, String>)
    ensures
        same_result(r, cache_mode_verdict(lowered@)),
{
    if str_equal(lowered, "fill") {
        Ok(ServerCacheMode::Fill)
    } else {
        Err(cat3("Invalid cache mode: ", lowered, ". Supported modes: fill"))
    }
}

/// Reads a cache mode name, in any case.
pub fn parse_cache_mode(raw: &str) -> (r: Result<ServerCacheMode, String>)
    ensures
        same_result(r, cache_mode_verdict(lower_of(raw@))),
{
    let mode_str = to_lower(raw);
    cache_mode_from(mode_str.as_str())
}

/// Whether `c` belongs to the number part of a value: an ASCII digit or `.`.
pub open spec fn is_number_char(c: char) -> bool {
    ('0' <= c && c <= '9') || c == '.'
}

/// The characters of `s` that belong to the number part, in order.
pub open spec fn number_part(s: Seq<char>) -> Seq<char>
    decreases s.len(),
{
    if s.len() == 0 {
        s
    } else if is_number_char(s.last()) {
        number_part(s.drop_last()).push(s.last())
    } else {
        number_part(s.drop_last())
    }
}

/// The characters of `s` that do not belong to the number part, in order.
pub open spec fn unit_part(s: Seq<char>) -> Seq<char>
    decreases s.len(),
{
    if s.len() == 0 {
        s
    } else if is_number_char(s.last()) {
        unit_part(s.drop_last())
    } else {
        unit_part(s.drop_last()).push(s.last())
    }
}

/// Splits `s` into its number characters (digits and `.`) and the rest,
/// each kept in order.
pub fn split_number_unit(s: &str) -> (r: (String, String))
    ensures
        r.0@ == number_part(s@),
        r.1@ == unit_part(s@),
{
    let v = chars_of(s);
    let mut num: Vec<char> = Vec::new();
    let mut unit: Vec<char> = Vec::new();
    let mut i: usize = 0;
    while i < v.len()
        invariant
            i <= v@.len(),
            num@ == number_part(v@.take(i as int)),
            unit@ == unit_part(v@.take(i as int)),
        decreases v@.len() - i,
    {
        let c = v[i];
        assert(v@.take(i + 1).drop_last() =~= v@.take(i as int));
        if ('0' <= c && c <= '9') || c == '.' {
            num.push(c);
        } else {
            unit.push(c);
        }
        i = i + 1;
    }
    assert(v@.take(v@.len() as int) =~= v@);
    (string_of(num.as_slice()), string_of(unit.as_slice()))
}

/// The seconds in one counter-reset unit; `upper` is the unit in upper case,
/// `unit` as written.
pub open spec fn counter_unit_verdict(upper: Seq<char>, unit: Seq<char>) -> Result<u64, Seq<char>> {
    if upper == "S"@ {
        Ok(1)
    } else if upper == "M"@ {
        Ok(60)
    } else if upper == "H"@ {
        Ok(3600)
    } else if upper == "D"@ {
        Ok(86400)
    } else if upper.len() == 0 {
        Ok(1)
    } else {
        Err("Invalid counter-reset unit: "@ + unit
            + ". Supported units: S (seconds), M (minutes), H (hours), D (days)."@)
    }
}

/// The seconds in a counter-reset unit, given the unit in upper case
/// (`upper`) and as written (`unit`, used in the message).
pub fn counter_reset_seconds(upper: &str, unit: &str) -> (r: Result<u64, String>)
    ensures
        same_result(r, counter_unit_verdict(upper@, unit@)),
{
    if str_equal(upper, "S") {
        Ok(1)
    } else if str_equal(upper, "M") {
        Ok(60)
    } else if str_equal(upper, "H") {
        Ok(60 * 60)
    } else if str_equal(upper, "D") {
        Ok(60 * 60 * 24)
    } else if chars_of(upper).len() == 0 {
        Ok(1)
    } else {
        Err(cat3("Invalid counter-reset unit: ", unit,
            ". Supported units: S (seconds), M (minutes), H (hours), D (days)."))
    }
}

/// The seconds in the counter-reset unit `unit` (seconds when it is empty).
pub fn counter_reset_multiplier(unit: &str) -> (r: Result<u64, String>)
    ensures
        same_result(r, counter_unit_verdict(upper_of(unit@), unit@)),
{
    let u = to_upper(unit);
    counter_reset_seconds(u.as_str(), unit)
}

/// The bytes in one memory unit, written in upper case.
pub open spec fn memory_unit_verdict(unit: Seq<char>) -> Result<u64, Seq<char>> {
    if unit == "B"@ {
        Ok(1)
    } else if unit == "KB"@ {
        Ok(1024)
    } else if unit == "MB"@ {
        Ok(0x10_0000)
    } else if unit == "GB"@ {
        Ok(0x4000_0000)
    } else {
        Err("Invalid memory unit: "@ + unit + ". Supported units: B, KB, MB, GB."@)
    }
}

/// The memory units are bytes and steps of 1024: `B` is one byte, `KB` is
/// 1024 bytes, `MB` is 1024 `KB` and `GB` is 1024 `MB`; no other unit (in
/// upper case, as read) is accepted.
pub proof fn law_memory_units_step_by_1024(unit: Seq<char>)
    ensures
        memory_unit_verdict("B"@) == Ok::<u64, Seq<char>>(1),
        memory_unit_verdict("KB"@) is Ok && memory_unit_verdict("KB"@)->Ok_0 == 1024 * memory_unit_verdict("B"@)->Ok_0,
        memory_unit_verdict("MB"@) is Ok && memory_unit_verdict("MB"@)->Ok_0 == 1024 * memory_unit_verdict("KB"@)->Ok_0,
        memory_unit_verdict("GB"@) is Ok && memory_unit_verdict("GB"@)->Ok_0 == 1024 * memory_unit_verdict("MB"@)->Ok_0,
        unit != "B"@ && unit != "KB"@ && unit != "MB"@ && unit != "GB"@ ==> memory_unit_verdict(unit) is Err,
{
    reveal_strlit("B");
    reveal_strlit("KB");
    reveal_strlit("MB");
    reveal_strlit("GB");
    assert("KB"@.len() == 2 && "B"@.len() == 1);
    assert("MB"@ != "KB"@) by {
        assert("MB"@[0] != "KB"@[0]);
    }
    assert("GB"@ != "KB"@ && "GB"@ != "MB"@) by {
        assert("GB"@[0] != "KB"@[0]);
        assert("GB"@[0] != "MB"@[0]);
    }
}

/// The bytes in the memory unit `unit`, which the configuration reader has
/// put in upper case.
pub fn memory_unit_multiplier(unit: &str) -> (r: Result<u64, String>)
    ensures
        same_result(r, memory_unit_verdict(unit@)),
{
    if str_equal(unit, "B") {
        Ok(1)
    } else if str_equal(unit, "KB") {
        Ok(1024)
    } else if str_equal(unit, "MB") {
        Ok(1024 * 1024)
    } else if str_equal(unit, "GB") {
        Ok(1024 * 1024 * 1024)
    } else {
        Err(cat3("Invalid memory unit: ", unit, ". Supported units: B, KB, MB, GB."))
    }
}

/// A memory setting split for reading: its upper-case number part and unit.
pub fn split_memory_setting(raw: &str) -> (r: (String, String))
    ensures
        r.0@ == number_part(upper_of(raw@)),
        r.1@ == unit_part(upper_of(raw@)),
{
    let upper = to_upper(raw);
    split_number_unit(upper.as_str())
}

/// Checks how many words follow `--serve`: one or two (the first names the
/// configuration file).
pub fn server_arguments_check(count: usize) -> (r: Result<(), String>)
    ensures
        same_result(r, if count == 0 {
            Err("No arguments provided for server mode."@)
        } else if count > 2 {
            Err("Too many arguments provided for server mode."@)
        } else {
            Ok(())
        }),
{
    if count == 0 {
        return Err(own("No arguments provided for server mode."));
    }
    if count > 2 {
        return Err(own("Too many arguments provided for server mode."));
    }
    Ok(())
}

/// The verdict on a configuration file path, given whether it exists and
/// whether it is a file: it must also have the extension `yaml`.
pub open spec fn config_path_verdict(config: Seq<char>, exists: bool, is_file: bool) -> Result<(), Seq<char>> {
    if !exists {
        Err("Config file does not exist: "@ + config)
    } else if !is_file {
        Err("Config path is not a file: "@ + config)
    } else if !(extension_of(config) matches Some(e) && eq_ignore_ascii_case(e, "yaml"@)) {
        Err("Config file must be a .yaml file: "@ + config)
    } else {
        Ok(())
    }
}

/// Checks a configuration file path.
pub fn validate_config(config: &str, exists: bool, is_file: bool) -> (r: Result<(), String>)
    ensures
        same_result(r, config_path_verdict(config@, exists, is_file)),
{
    if !exists {
        return Err(cat("Config file does not exist: ", config));
    }
    if !is_file {
        return Err(cat("Config path is not a file: ", config));
    }
    if !is_file_extension(config, "yaml") {
        return Err(cat("Config file must be a .yaml file: ", config));
    }
    Ok(())
}

} // verus!
