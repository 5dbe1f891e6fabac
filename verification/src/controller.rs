use crate::config::Temperature;
use crate::policy;
use crate::sensor;
use crate::sensor::SensorError;
use vstd::prelude::*;

verus! {

/// What one iteration of the control loop must do next.
#[derive(Clone, Copy, Debug, PartialEq, Eq, Structural)]
pub enum TickOutcome {
    /// Shutdown was observed: leave the loop without touching the output.
    Stop,
    /// Keep running; flip the output first when `toggle` holds.
    Run { toggle: bool },
    /// The reading was unusable: fatal, propagate and terminate.
    Fail { err: SensorError },
}

/// The decision a tick comes to, as a function of the shutdown flag as it
/// was observed, the output's current state, and the raw reading's bytes.
pub open spec fn spec_tick(
    cfg: Temperature,
    shutdown: bool,
    is_active: bool,
    raw: Seq<u8>,
) -> TickOutcome {
    if shutdown {
        TickOutcome::Stop
    } else {
        match sensor::spec_read_temperature(raw) {
            Ok(t) => (TickOutcome::Run {
                toggle: policy::spec_decide(is_active, t as int, cfg.min as int, cfg.max as int),
            }),
            Err(e) => (TickOutcome::Fail { err: e }),
        }
    }
}

impl Temperature {
    /// One iteration of the control loop, with the outside world already
    /// sampled: the shutdown flag's observed value, the output device's
    /// current state, and the raw bytes read from the sensor file. An
    /// observed shutdown yields `Stop` whatever the rest says; otherwise the
    /// reading is parsed, converted, and handed to the hysteresis policy.
    pub fn tick(&self, shutdown: bool, is_active: bool, raw: &[u8]) -> (r: TickOutcome)
        ensures
            r == spec_tick(*self, shutdown, is_active, raw@),
            shutdown ==> r == TickOutcome::Stop,
    {
        if shutdown {
            return TickOutcome::Stop;
        }
        match sensor::read_temperature(raw) {
            Ok(t) => (TickOutcome::Run { toggle: self.switch_condition(is_active, t) }),
            Err(e) => (TickOutcome::Fail { err: e }),
        }
    }
}

} // verus!
