//! Rules on the language model settings that are checked before they are
//! saved, and the upgrade of old settings.

use vstd::prelude::*;

verus! {

/// Smallest `max_tokens` that may be saved.
pub const MIN_MAX_TOKENS: u32 = 1;

/// Largest `max_tokens` that may be saved.
pub const MAX_MAX_TOKENS: u32 = 128000;

/// The `max_tokens` that older settings are raised to.
pub const UPGRADED_MAX_TOKENS: u32 = 16000;

/// Checks the `max_tokens` setting: it must lie in 1..=128000.
pub fn validate_max_tokens(max_tokens: u32) -> (r: Result<(), String>)
    ensures
        r is Ok <==> MIN_MAX_TOKENS <= max_tokens <= MAX_MAX_TOKENS,
        r matches Err(e) ==> e@ == "max_tokens must be between 1 and 128000"@,
{
    if max_tokens == 0 || max_tokens > MAX_MAX_TOKENS {
        return Err("max_tokens must be between 1 and 128000".to_string());
    }
    Ok(())
}

/// What start-up raises a saved `max_tokens` to: a set value below 16000
/// becomes 16000; an unset (zero) or large enough value is left alone.
pub open spec fn legacy_upgrade(max_tokens: u32) -> Option<u32> {
    if 0 < max_tokens < UPGRADED_MAX_TOKENS {
        Some(UPGRADED_MAX_TOKENS)
    } else {
        None
    }
}

/// What the `upgrade-config` command raises a saved `max_tokens` to: any
/// value below 16000 becomes 16000.
pub open spec fn command_upgrade(max_tokens: u32) -> Option<u32> {
    if max_tokens < UPGRADED_MAX_TOKENS {
        Some(UPGRADED_MAX_TOKENS)
    } else {
        None
    }
}

/// The `max_tokens` that settings written by older versions are raised to
/// at start-up (see `legacy_upgrade`).
pub fn upgrade_legacy_ai_config(max_tokens: u32) -> (r: Option<u32>)
    ensures
        r == legacy_upgrade(max_tokens),
{
    if max_tokens > 0 && max_tokens < UPGRADED_MAX_TOKENS {
        Some(UPGRADED_MAX_TOKENS)
    } else {
        None
    }
}

/// The `max_tokens` that the `upgrade-config` command sets (see
/// `command_upgrade`).
pub fn upgrade_config_command(max_tokens: u32) -> (r: Option<u32>)
    ensures
        r == command_upgrade(max_tokens),
{
    if max_tokens < UPGRADED_MAX_TOKENS {
        Some(UPGRADED_MAX_TOKENS)
    } else {
        None
    }
}

/// An upgrade only ever raises `max_tokens`, to a value that passes the
/// check on saving; the command upgrades every value that start-up does,
/// to the same value; and an upgraded value is not upgraded again.
pub proof fn law_upgrade_is_valid(max_tokens: u32)
    ensures
        legacy_upgrade(max_tokens) matches Some(v) ==> MIN_MAX_TOKENS <= v <= MAX_MAX_TOKENS && v
            > max_tokens,
        command_upgrade(max_tokens) matches Some(v) ==> MIN_MAX_TOKENS <= v <= MAX_MAX_TOKENS && v
            > max_tokens,
        legacy_upgrade(max_tokens) is Some ==> command_upgrade(max_tokens) == legacy_upgrade(
            max_tokens,
        ),
        legacy_upgrade(max_tokens) matches Some(v) ==> legacy_upgrade(v) is None && command_upgrade(
            v,
        ) is None,
{
}

} // verus!
