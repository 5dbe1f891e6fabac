use crate::policy;
use vstd::prelude::*;

verus! {

/// The thermostat's part of the configuration: where the raw reading is
/// found, and the two thresholds, in converted units.
pub struct Temperature {
    pub file: String,
    pub max: u64,
    pub min: u64,
}

/// Credentials of the optional notification side channel.
pub struct TelegramConf {
    pub token: String,
    pub chat_id: String,
}

/// Everything the controller is given at startup, immutable afterwards.
pub struct Config {
    pub pin: u8,
    pub seconds: u64,
    pub temperature: Temperature,
    pub telegram: Option<TelegramConf>,
}

impl Temperature {
    /// Should the output flip, given its current state and the converted
    /// reading `t`? Pure hysteresis against this configuration's thresholds.
    pub fn switch_condition(&self, is_active: bool, t: u64) -> (flip: bool)
        ensures
            flip == policy::spec_decide(is_active, t as int, self.min as int, self.max as int),
    {
        policy::decide(is_active, t, self.min, self.max)
    }
}

} // verus!
