//! Trusted boundary to the system clock and to the process random
//! number generator. Selection timestamps come from the clock; the
//! uniform-random policy draws its index from the generator. Nothing is
//! promised of the clock reading; of a random draw only its range.

use vstd::prelude::*;
use rand::Rng;
use crate::config::ConfigValue;

verus! {

#[verifier::external_type_specification]
#[verifier::external_body]
pub struct ExTomlValue(toml::Value);

/// Relies on toml's `FromStr` for `toml::Value`: the document parsed,
/// or `None` on text that is not valid TOML. Nothing is promised of
/// the parsed value; every decision on it is made by verified code on
/// the converted tree.
#[verifier::external_body]
pub(crate) fn parse_toml(text: &str) -> (r: Option<toml::Value>) {
    text.parse::<toml::Value>().ok()
}

/// Relies on the shape of `toml::Value` alone: each variant moved into
/// the balancer's own configuration tree, arrays element by element and
/// tables entry by entry in the order toml's map iterates them (sorted
/// by key); floats and datetimes, which the balancer never reads,
/// become `Other`.
#[verifier::external_body]
pub(crate) fn toml_to_config(v: &toml::Value) -> ConfigValue {
    match v {
        toml::Value::Boolean(b) => ConfigValue::Bool(*b),
        toml::Value::Integer(i) => ConfigValue::Int(*i),
        toml::Value::String(s) => ConfigValue::Str(s.clone()),
        toml::Value::Array(a) => ConfigValue::Array(a.iter().map(toml_to_config).collect()),
        toml::Value::Table(t) => ConfigValue::Table(
            t.iter().map(|(k, x)| (k.clone(), toml_to_config(x))).collect(),
        ),
        _ => ConfigValue::Other,
    }
}

#[verifier::external_type_specification]
#[verifier::external_body]
pub struct ExSystemTime(std::time::SystemTime);

#[verifier::external_type_specification]
#[verifier::external_body]
pub struct ExSystemTimeError(std::time::SystemTimeError);

#[verifier::external_type_specification]
#[verifier::external_body]
pub struct ExThreadRng(rand::rngs::ThreadRng);

/// Relies on std::time::SystemTime::now: the current system time;
/// nothing is promised of the reading.
pub assume_specification[ std::time::SystemTime::now ]() -> std::time::SystemTime;

/// Relies on std::time::SystemTime::duration_since: the elapsed time
/// since `earlier`, or an error if `self` lies before `earlier`;
/// nothing is promised of either outcome.
pub assume_specification[ std::time::SystemTime::duration_since ](
    t: &std::time::SystemTime,
    earlier: std::time::SystemTime,
) -> Result<core::time::Duration, std::time::SystemTimeError>;

/// Relies on core::time::Duration::as_micros: the whole number of
/// microseconds in the duration; nothing is promised of the value.
pub assume_specification[ core::time::Duration::as_micros ](
    d: &core::time::Duration,
) -> u128;

/// Relies on std::time::UNIX_EPOCH: the epoch reference point.
#[verifier::external_body]
fn unix_epoch() -> std::time::SystemTime {
    std::time::UNIX_EPOCH
}

/// Microseconds since the Unix epoch; 0 if the clock reads before the
/// epoch. Two readings in one process may return anything: callers
/// state what holds of every outcome.
pub(crate) fn now_micros() -> u128 {
    let now = std::time::SystemTime::now();
    match now.duration_since(unix_epoch()) {
        Ok(d) => d.as_micros(),
        Err(_) => 0,
    }
}

/// Relies on rand::thread_rng: a handle to the thread-local generator.
#[verifier::external_body]
pub(crate) fn fresh_rng() -> rand::rngs::ThreadRng {
    rand::thread_rng()
}

/// Relies on rand::Rng::gen_range: a sample from the half-open range
/// `0..n`, so below `n`; it panics only on an empty range, which the
/// precondition excludes.
#[verifier::external_body]
pub(crate) fn gen_below(rng: &mut rand::rngs::ThreadRng, n: usize) -> (r: usize)
    requires
        n >= 1,
    ensures
        r < n,
{
    rng.gen_range(0..n)
}

} // verus!
