//! Options of the liveliness operations, with their default values.
use vstd::prelude::*;

verus! {

/// How long a liveliness query waits for replies by default, in milliseconds.
pub const DEFAULT_LIVELINESS_GET_TIMEOUT_MS: u32 = 10000;

/// The options for declaring a liveliness token (none yet).
#[allow(non_camel_case_types)]
#[derive(Clone, Copy, Debug, PartialEq, Eq, Structural)]
pub struct zc_liveliness_declaration_options_t {
    pub _dummy: u8,
}

/// The options for declaring a liveliness subscriber (none yet).
#[allow(non_camel_case_types)]
#[derive(Clone, Copy, Debug, PartialEq, Eq, Structural)]
pub struct zc_liveliness_subscriber_options_t {
    pub _dummy: u8,
}

/// The options for querying liveliness tokens.
#[allow(non_camel_case_types)]
#[derive(Clone, Copy, Debug, PartialEq, Eq, Structural)]
pub struct zc_liveliness_get_options_t {
    /// How long to wait for replies, in milliseconds.
    pub timeout_ms: u32,
}

/// Sets `this` to the default declaration options.
pub fn zc_liveliness_declaration_options_default(this: &mut zc_liveliness_declaration_options_t)
    ensures
        final(this)._dummy == 0,
{
    *this = zc_liveliness_declaration_options_t { _dummy: 0 };
}

/// Sets `this` to the default subscriber options.
pub fn zc_liveliness_subscriber_options_default(this: &mut zc_liveliness_subscriber_options_t)
    ensures
        final(this)._dummy == 0,
{
    *this = zc_liveliness_subscriber_options_t { _dummy: 0 };
}

/// Sets `this` to the default query options: a timeout of ten seconds.
pub fn zc_liveliness_get_options_default(this: &mut zc_liveliness_get_options_t)
    ensures
        final(this).timeout_ms == DEFAULT_LIVELINESS_GET_TIMEOUT_MS,
{
    *this = zc_liveliness_get_options_t { timeout_ms: DEFAULT_LIVELINESS_GET_TIMEOUT_MS };
}

} // verus!
