use vstd::prelude::*;
use crate::control::{Configuration, ControlMessage};

verus! {

/// Command-line configuration of the coordinator: the broker to reach.
pub struct CliArgs {
    pub target_host_uri: String,
}

/// The latest known parameters, the reset toggle, and whether a generator swarm is live.
#[derive(PartialEq, Eq, Structural, Clone, Copy, Debug)]
pub struct Coordinator {
    pub qos: Option<u8>,
    pub delay_ms: Option<u64>,
    pub instance_count: Option<u64>,
    pub reset: bool,
    pub swarm_alive: bool,
    pub finished: bool,
}

/// What the coordinator asks its runner to do after one control message, in this order:
/// stop and drain the live generator swarm, start a new one, end the process.
#[derive(PartialEq, Eq, Structural, Clone, Copy, Debug)]
pub struct CoordinatorStep {
    pub stop_swarm: bool,
    pub start: Option<Configuration>,
    pub terminate: bool,
}

/// The configuration to run, once the toggle is on and every parameter is known.
pub open spec fn ready_config(c: Coordinator) -> Option<Configuration> {
    if c.reset && c.qos is Some && c.delay_ms is Some && c.instance_count is Some {
        Some(
            Configuration {
                qos: c.qos->0,
                delay_ms: c.delay_ms->0,
                instance_count: c.instance_count->0,
            },
        )
    } else {
        None
    }
}

/// The state after the message's own effect, before any restart.
pub open spec fn absorb(c: Coordinator, m: ControlMessage) -> Coordinator {
    match m {
        ControlMessage::Qos(q) => Coordinator { qos: Some(q), ..c },
        ControlMessage::Delay(d) => Coordinator { delay_ms: Some(d), ..c },
        ControlMessage::InstanceCount(n) => Coordinator { instance_count: Some(n), ..c },
        ControlMessage::Reset => Coordinator { reset: !c.reset, swarm_alive: false, ..c },
        ControlMessage::Killall => Coordinator { swarm_alive: false, finished: true, ..c },
        ControlMessage::Ignored => c,
    }
}

/// The state and the step after the control message `m`.
pub open spec fn transition(c: Coordinator, m: ControlMessage) -> (Coordinator, CoordinatorStep) {
    if c.finished {
        (c, CoordinatorStep { stop_swarm: false, start: None, terminate: false })
    } else {
        let stop_first = c.swarm_alive && (m is Reset || m is Killall);
        let a = absorb(c, m);
        if m is Killall {
            (a, CoordinatorStep { stop_swarm: stop_first, start: None, terminate: true })
        } else {
            match ready_config(a) {
                Some(cfg) => (
                    Coordinator { swarm_alive: true, ..a },
                    CoordinatorStep { stop_swarm: stop_first || a.swarm_alive, start: Some(cfg), terminate: false },
                ),
                None => (a, CoordinatorStep { stop_swarm: stop_first, start: None, terminate: false }),
            }
        }
    }
}

impl Coordinator {
    /// A coordinator that knows no parameter yet, with the toggle off and no swarm.
    pub fn new() -> (r: Coordinator)
        ensures
            r.qos is None,
            r.delay_ms is None,
            r.instance_count is None,
            !r.reset,
            !r.swarm_alive,
            !r.finished,
    {
        Coordinator {
            qos: None,
            delay_ms: None,
            instance_count: None,
            reset: false,
            swarm_alive: false,
            finished: false,
        }
    }

    /// Handles one control message and says what to do about the generator swarm.
    pub fn on_control(&mut self, m: ControlMessage) -> (r: CoordinatorStep)
        ensures
            (*final(self), r) == transition(*old(self), m),
            old(self).swarm_alive && r.start is Some ==> r.stop_swarm,
            old(self).swarm_alive && r.terminate ==> r.stop_swarm,
    {
        if self.finished {
            return CoordinatorStep { stop_swarm: false, start: None, terminate: false };
        }
        let stop_first = self.swarm_alive && (matches!(m, ControlMessage::Reset) || matches!(m, ControlMessage::Killall));
        match m {
            ControlMessage::Qos(q) => {
                self.qos = Some(q);
            },
            ControlMessage::Delay(d) => {
                self.delay_ms = Some(d);
            },
            ControlMessage::InstanceCount(n) => {
                self.instance_count = Some(n);
            },
            ControlMessage::Reset => {
                self.reset = !self.reset;
                self.swarm_alive = false;
            },
            ControlMessage::Killall => {
                self.swarm_alive = false;
                self.finished = true;
                return CoordinatorStep { stop_swarm: stop_first, start: None, terminate: true };
            },
            ControlMessage::Ignored => {},
        }
        if self.reset {
            match (self.qos, self.delay_ms, self.instance_count) {
                (Some(q), Some(d), Some(n)) => {
                    let stop = stop_first || self.swarm_alive;
                    self.swarm_alive = true;
                    return CoordinatorStep {
                        stop_swarm: stop,
                        start: Some(Configuration { qos: q, delay_ms: d, instance_count: n }),
                        terminate: false,
                    };
                },
                _ => {},
            }
        }
        CoordinatorStep { stop_swarm: stop_first, start: None, terminate: false }
    }

    /// Records whether the swarm that the last step asked for could be started.
    pub fn record_start(&mut self, started: bool)
        ensures
            *final(self) == (Coordinator { swarm_alive: started, ..*old(self) }),
    {
        self.swarm_alive = started;
    }
}

} // verus!
