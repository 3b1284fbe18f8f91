use vstd::prelude::*;

verus! {

/// Additional attempts after a failed send, before the message is dropped.
pub const SEND_RETRIES: u8 = 3;

/// Where a generator instance stands in its loop.
#[derive(PartialEq, Eq, Structural, Clone, Copy, Debug)]
pub enum GeneratorPhase {
    /// At the top of the loop: the stop signal is to be checked.
    Idle,
    /// A send of the current counter is under way, with this many retries left.
    Sending(u8),
    /// Stopped: the session is to be disconnected.
    Done,
}

/// What the runner observed.
#[derive(PartialEq, Eq, Structural, Clone, Copy, Debug)]
pub enum GeneratorEvent {
    /// The stop signal was read.
    Polled(bool),
    /// A send attempt finished, with success or failure.
    Sent(bool),
}

/// What the runner does next.
#[derive(PartialEq, Eq, Structural, Clone, Copy, Debug)]
pub enum GeneratorAction {
    /// Read the stop signal.
    Poll,
    /// Sleep this many milliseconds (none for `0`), then publish the counter value.
    Send { sleep_ms: u64, counter: u64 },
    /// Disconnect the session; the instance sent this many messages.
    Disconnect(u64),
}

/// One load-generating instance: its index, its parameters and its counter.
#[derive(PartialEq, Eq, Structural, Clone, Copy, Debug)]
pub struct Generator {
    pub index: u64,
    pub qos: u8,
    pub delay_ms: u64,
    pub counter: u64,
    pub phase: GeneratorPhase,
}

/// Whether `ev` reports a successful send. Any other event while a send is under way
/// counts as a failed attempt.
pub open spec fn attempt_succeeded(ev: GeneratorEvent) -> bool {
    match ev {
        GeneratorEvent::Sent(ok) => ok,
        GeneratorEvent::Polled(_) => false,
    }
}

/// The state and the action after `ev`. A finished send attempt, successful or with no
/// retry left, ends the iteration and advances the counter; a counter that cannot
/// advance further ends the instance.
pub open spec fn generator_next(g: Generator, ev: GeneratorEvent) -> (Generator, GeneratorAction) {
    match (g.phase, ev) {
        (GeneratorPhase::Idle, GeneratorEvent::Polled(true)) => (
            Generator { phase: GeneratorPhase::Done, ..g },
            GeneratorAction::Disconnect(g.counter),
        ),
        (GeneratorPhase::Idle, GeneratorEvent::Polled(false)) => (
            Generator { phase: GeneratorPhase::Sending(SEND_RETRIES), ..g },
            GeneratorAction::Send { sleep_ms: g.delay_ms, counter: g.counter },
        ),
        (GeneratorPhase::Sending(r), _) => {
            if attempt_succeeded(ev) || r == 0 {
                if g.counter == u64::MAX {
                    (Generator { phase: GeneratorPhase::Done, ..g }, GeneratorAction::Disconnect(g.counter))
                } else {
                    (
                        Generator { counter: (g.counter + 1) as u64, phase: GeneratorPhase::Idle, ..g },
                        GeneratorAction::Poll,
                    )
                }
            } else {
                (
                    Generator { phase: GeneratorPhase::Sending((r - 1) as u8), ..g },
                    GeneratorAction::Send { sleep_ms: 0, counter: g.counter },
                )
            }
        },
        (GeneratorPhase::Done, _) => (g, GeneratorAction::Disconnect(g.counter)),
        (GeneratorPhase::Idle, GeneratorEvent::Sent(_)) => (g, GeneratorAction::Poll),
    }
}

/// Whether `ev` ends an iteration of the loop.
pub open spec fn completes_iteration(g: Generator, ev: GeneratorEvent) -> bool {
    match (g.phase, ev) {
        (GeneratorPhase::Sending(r), _) => (attempt_succeeded(ev) || r == 0) && g.counter < u64::MAX,
        _ => false,
    }
}

/// The state after the events `evs`, in order.
pub open spec fn generator_run(g: Generator, evs: Seq<GeneratorEvent>) -> Generator
    decreases evs.len(),
{
    if evs.len() == 0 {
        g
    } else {
        generator_next(generator_run(g, evs.drop_last()), evs.last()).0
    }
}

/// How many iterations the events `evs` complete.
pub open spec fn iterations(g: Generator, evs: Seq<GeneratorEvent>) -> nat
    decreases evs.len(),
{
    if evs.len() == 0 {
        0
    } else {
        iterations(g, evs.drop_last()) + if completes_iteration(generator_run(g, evs.drop_last()), evs.last()) {
            1nat
        } else {
            0nat
        }
    }
}

/// The counter counts iterations: after any events, whatever became of the sends, it
/// has grown by exactly the number of loop iterations completed.
pub proof fn lemma_counter_counts_iterations(g: Generator, evs: Seq<GeneratorEvent>)
    ensures
        generator_run(g, evs).counter == g.counter + iterations(g, evs),
    decreases evs.len(),
{
    if evs.len() > 0 {
        lemma_counter_counts_iterations(g, evs.drop_last());
    }
}

/// Stopping is final: an instance that reads the stop signal at the top of its loop
/// disconnects, reporting its counter, and once stopped it stays stopped whatever follows.
pub proof fn lemma_stop_is_final(g: Generator, ev: GeneratorEvent)
    ensures
        g.phase == GeneratorPhase::Idle ==> generator_next(g, GeneratorEvent::Polled(true)) == (
            Generator { phase: GeneratorPhase::Done, ..g },
            GeneratorAction::Disconnect(g.counter),
        ),
        g.phase == GeneratorPhase::Done ==> generator_next(g, ev) == (g, GeneratorAction::Disconnect(g.counter)),
{
}

impl Generator {
    /// A fresh instance at the top of its loop, with the counter at `0`.
    pub fn new(index: u64, qos: u8, delay_ms: u64) -> (r: Generator)
        ensures
            r == (Generator { index, qos, delay_ms, counter: 0, phase: GeneratorPhase::Idle }),
    {
        Generator { index, qos, delay_ms, counter: 0, phase: GeneratorPhase::Idle }
    }

    /// Takes one observed event and says what to do next.
    pub fn step(&mut self, ev: GeneratorEvent) -> (r: GeneratorAction)
        ensures
            (*final(self), r) == generator_next(*old(self), ev),
    {
        match (self.phase, ev) {
            (GeneratorPhase::Idle, GeneratorEvent::Polled(stop)) => {
                if stop {
                    self.phase = GeneratorPhase::Done;
                    GeneratorAction::Disconnect(self.counter)
                } else {
                    self.phase = GeneratorPhase::Sending(SEND_RETRIES);
                    GeneratorAction::Send { sleep_ms: self.delay_ms, counter: self.counter }
                }
            },
            (GeneratorPhase::Sending(r), _) => {
                let ok = match ev {
                    GeneratorEvent::Sent(ok) => ok,
                    GeneratorEvent::Polled(_) => false,
                };
                if ok || r == 0 {
                    if self.counter == u64::MAX {
                        self.phase = GeneratorPhase::Done;
                        GeneratorAction::Disconnect(self.counter)
                    } else {
                        self.counter = self.counter + 1;
                        self.phase = GeneratorPhase::Idle;
                        GeneratorAction::Poll
                    }
                } else {
                    self.phase = GeneratorPhase::Sending(r - 1);
                    GeneratorAction::Send { sleep_ms: 0, counter: self.counter }
                }
            },
            (GeneratorPhase::Done, _) => GeneratorAction::Disconnect(self.counter),
            (GeneratorPhase::Idle, GeneratorEvent::Sent(_)) => GeneratorAction::Poll,
        }
    }
}

} // verus!
