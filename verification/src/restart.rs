//! Restart boundaries and bounded backoff of supervised workers.
//!
//! Durations are milliseconds.
use vstd::prelude::*;
use crate::shared_texture::RESOURCE_GENERATION_LOST_EXIT_CODE;
use crate::text;

verus! {

/// Delay before the first restart in one consecutive-failure sequence.
pub const INITIAL_BACKOFF_MS: u64 = 250;

/// Maximum delay between attempts; long enough to avoid a hot failure loop.
pub const MAX_BACKOFF_MS: u64 = 4_000;

/// Uptime that resets an earlier consecutive-failure sequence.
pub const STABLE_RESET_AFTER_MS: u64 = 30_000;

/// Maximum restarts allowed before the supervisor reports exhaustion.
pub const MAX_CONSECUTIVE_RESTARTS: u32 = 6;

/// Managed child whose process exit triggered recovery.
#[derive(Debug, Clone, Copy, PartialEq, Eq, Structural)]
pub enum Component {
    /// Safe window capture and shared-texture producer.
    Capture,
    /// Shared-texture consumer and H.264 producer.
    Encoder,
    /// Stdin-to-WebSocket transport worker.
    Relay,
}

impl Component {
    /// The diagnostic label of this component.
    pub open spec fn label(self) -> Seq<char> {
        match self {
            Component::Capture => "live-capture"@,
            Component::Encoder => "live-encoder"@,
            Component::Relay => "live-ws"@,
        }
    }

    /// Stable diagnostic label used in generation-aware supervisor logs.
    pub fn name(self) -> (name: &'static str)
        ensures
            name@ == self.label(),
    {
        match self {
            Component::Capture => "live-capture",
            Component::Encoder => "live-encoder",
            Component::Relay => "live-ws",
        }
    }
}

/// Smallest process/resource scope that safely recovers one child exit.
#[derive(Debug, Clone, Copy, PartialEq, Eq, Structural)]
pub enum RecoveryScope {
    /// Retain the mailbox, encoder, and relay while restarting capture.
    Capture,
    /// Retain the mailbox and capture worker while recreating the media pipe pair.
    EncoderRelay,
    /// Re-select the adapter and replace the complete resource cohort.
    ResourceGeneration,
}

/// The restart boundary of a worker exit.
pub open spec fn scope_of(component: Component, exit_code: Option<i32>) -> RecoveryScope {
    if exit_code == Some(RESOURCE_GENERATION_LOST_EXIT_CODE) {
        RecoveryScope::ResourceGeneration
    } else {
        match component {
            Component::Capture => RecoveryScope::Capture,
            Component::Encoder => RecoveryScope::EncoderRelay,
            Component::Relay => RecoveryScope::EncoderRelay,
        }
    }
}

/// Map a stable worker exit to its explicit restart boundary.
pub fn recovery_scope(component: Component, exit_code: Option<i32>) -> (scope: RecoveryScope)
    ensures
        scope == scope_of(component, exit_code),
{
    if let Some(code) = exit_code {
        if code == RESOURCE_GENERATION_LOST_EXIT_CODE {
            return RecoveryScope::ResourceGeneration;
        }
    }
    match component {
        Component::Capture => RecoveryScope::Capture,
        Component::Encoder => RecoveryScope::EncoderRelay,
        Component::Relay => RecoveryScope::EncoderRelay,
    }
}

/// The delay after a number of consecutive failures: it doubles with each, up to the maximum.
pub open spec fn delay_after(failures: nat) -> nat
    decreases failures,
{
    if failures == 0 {
        INITIAL_BACKOFF_MS as nat
    } else if delay_after((failures - 1) as nat) * 2 >= MAX_BACKOFF_MS {
        MAX_BACKOFF_MS as nat
    } else {
        delay_after((failures - 1) as nat) * 2
    }
}

/// Consecutive-failure tracker with capped delay and finite retry budget.
#[derive(Debug, Clone, Copy, PartialEq, Eq, Structural)]
pub struct RestartBackoff {
    failures: u32,
}

impl View for RestartBackoff {
    type V = u32;

    closed spec fn view(&self) -> u32 {
        self.failures
    }
}

impl Default for RestartBackoff {
    fn default() -> (backoff: RestartBackoff)
        ensures
            backoff@ == 0,
    {
        RestartBackoff { failures: 0 }
    }
}

/// The failures that count when a process fails after some uptime.
pub open spec fn charged(failures: u32, stable_for: u64) -> u32 {
    if stable_for >= STABLE_RESET_AFTER_MS {
        0
    } else {
        failures
    }
}

impl RestartBackoff {
    /// Charge one failure and return its delay, or `None` after exhaustion.
    ///
    /// `stable_for` belongs to the process or generation that just failed. A stable interval
    /// resets old history before the new failure is charged.
    pub fn next_delay(&mut self, stable_for: u64) -> (delay: Option<u64>)
        ensures
            match delay {
                Some(delay) => {
                    &&& charged(old(self)@, stable_for) < MAX_CONSECUTIVE_RESTARTS
                    &&& delay == delay_after(charged(old(self)@, stable_for) as nat)
                    &&& final(self)@ == charged(old(self)@, stable_for) + 1
                },
                None => charged(old(self)@, stable_for) >= MAX_CONSECUTIVE_RESTARTS && final(self)@
                    == charged(old(self)@, stable_for),
            },
    {
        if stable_for >= STABLE_RESET_AFTER_MS {
            self.failures = 0;
        }
        if self.failures >= MAX_CONSECUTIVE_RESTARTS {
            return None;
        }
        let mut delay: u64 = INITIAL_BACKOFF_MS;
        let mut i: u32 = 0;
        while i < self.failures
            invariant
                i <= self.failures,
                delay <= MAX_BACKOFF_MS,
                delay == delay_after(i as nat),
            decreases self.failures - i,
        {
            delay = if delay * 2 >= MAX_BACKOFF_MS {
                MAX_BACKOFF_MS
            } else {
                delay * 2
            };
            i = i + 1;
        }
        self.failures = self.failures + 1;
        Some(delay)
    }

    /// Forget component-local failures after creating a new resource cohort.
    pub fn reset(&mut self)
        ensures
            final(self)@ == 0,
    {
        self.failures = 0;
    }

    /// Number of attempts already charged for diagnostics.
    pub fn failures(&self) -> (failures: u32)
        ensures
            failures == self@,
    {
        self.failures
    }
}

/// The failures counted after a run of them, or nothing once the budget is exhausted.
pub open spec fn after_failures(start: u32, uptimes: Seq<u64>) -> Option<u32>
    decreases uptimes.len(),
{
    if uptimes.len() == 0 {
        Some(start)
    } else {
        match after_failures(start, uptimes.drop_last()) {
            None => None,
            Some(failures) => if charged(failures, uptimes.last()) >= MAX_CONSECUTIVE_RESTARTS {
                None
            } else {
                Some((charged(failures, uptimes.last()) + 1) as u32)
            },
        }
    }
}

/// Delays never shrink within one sequence of failures, and never exceed the maximum.
pub proof fn law_delays_are_capped(failures: nat)
    ensures
        INITIAL_BACKOFF_MS <= delay_after(failures) <= delay_after(failures + 1) <= MAX_BACKOFF_MS,
    decreases failures,
{
    if failures > 0 {
        law_delays_are_capped((failures - 1) as nat);
    }
}

/// A worker that never stays up long enough is given up after its budget of restarts, however
/// short or long each attempt lasted.
pub proof fn law_unstable_workers_are_given_up(uptimes: Seq<u64>)
    requires
        forall|i: int| 0 <= i < uptimes.len() ==> (#[trigger] uptimes[i]) < STABLE_RESET_AFTER_MS,
    ensures
        match after_failures(0, uptimes) {
            Some(failures) => failures == uptimes.len() && uptimes.len()
                <= MAX_CONSECUTIVE_RESTARTS,
            None => uptimes.len() > MAX_CONSECUTIVE_RESTARTS,
        },
    decreases uptimes.len(),
{
    if uptimes.len() > 0 {
        assert forall|i: int| 0 <= i < uptimes.drop_last().len() implies (
        #[trigger] uptimes.drop_last()[i]) < STABLE_RESET_AFTER_MS by {
            assert(uptimes[i] < STABLE_RESET_AFTER_MS);
        }
        law_unstable_workers_are_given_up(uptimes.drop_last());
        assert(uptimes[uptimes.len() - 1] < STABLE_RESET_AFTER_MS);
    }
}

/// Why no further restart is attempted.
pub open spec fn exhaustion_text(component: Seq<char>, failures: u32) -> Seq<char> {
    component + " restart budget exhausted after "@ + text::decimal(failures as nat)
        + " consecutive attempts"@
}

/// Charge one bounded restart attempt and produce a contextual exhaustion error.
pub fn next_delay(backoff: &mut RestartBackoff, stable_for: u64, component: &str) -> (result:
    Result<u64, String>)
    ensures
        match result {
            Ok(delay) => {
                &&& charged(old(backoff)@, stable_for) < MAX_CONSECUTIVE_RESTARTS
                &&& delay == delay_after(charged(old(backoff)@, stable_for) as nat)
                &&& final(backoff)@ == charged(old(backoff)@, stable_for) + 1
            },
            Err(message) => {
                &&& charged(old(backoff)@, stable_for) >= MAX_CONSECUTIVE_RESTARTS
                &&& final(backoff)@ == charged(old(backoff)@, stable_for)
                &&& message@ == exhaustion_text(component@, final(backoff)@)
            },
        },
{
    match backoff.next_delay(stable_for) {
        Some(delay) => Ok(delay),
        None => {
            let mut message = component.to_owned();
            text::push_text(&mut message, " restart budget exhausted after ");
            text::push_decimal(&mut message, backoff.failures() as u64);
            text::push_text(&mut message, " consecutive attempts");
            Err(message)
        },
    }
}

/// The worker that exited is inside the restarted scope, and a scope beyond it is chosen only for
/// a lost resource generation.
pub proof fn law_exited_workers_are_restarted(
    component: Component,
    exit_code: Option<i32>,
    scope: RecoveryScope,
)
    requires
        call_ensures(recovery_scope, (component, exit_code), scope),
    ensures
        component == Component::Capture ==> scope != RecoveryScope::EncoderRelay,
        component == Component::Encoder || component == Component::Relay ==> scope
            != RecoveryScope::Capture,
        scope == RecoveryScope::ResourceGeneration <==> exit_code == Some(75i32),
{
}

/// Consecutive failures wait a quarter of a second first and twice as long each time, but never
/// longer than four seconds; after six of them no restart is left. A process that stayed up for
/// half a minute starts over.
pub proof fn law_consecutive_failures_back_off(
    backoff: &mut RestartBackoff,
    again: &mut RestartBackoff,
    stable_for: u64,
    next_stable_for: u64,
    delay: Option<u64>,
    next: Option<u64>,
)
    requires
        call_ensures(RestartBackoff::next_delay, (backoff, stable_for), delay),
        *old(again) == *final(backoff),
        call_ensures(RestartBackoff::next_delay, (again, next_stable_for), next),
    ensures
        old(backoff)@ == 0 || stable_for >= 30_000 ==> delay == Some(250u64),
        next_stable_for >= 30_000 ==> next == Some(250u64),
        delay is Some && next_stable_for < 30_000 ==> final(backoff)@ >= 1 && (final(backoff)@ >= 6
            <==> next is None) && (next matches Some(next) ==> next == if delay->Some_0 * 2
            >= 4_000 {
            4_000int
        } else {
            delay->Some_0 * 2
        }),
        delay is Some ==> final(backoff)@ == if stable_for >= 30_000 {
            1int
        } else {
            old(backoff)@ + 1
        },
        delay is None <==> old(backoff)@ >= 6 && stable_for < 30_000,
{
    reveal_with_fuel(delay_after, 2);
}

/// Components are named in diagnostics, and a reset tracker counts from zero.
pub proof fn law_components_are_named(
    component: Component,
    name: &'static str,
    backoff: &mut RestartBackoff,
    failures: u32,
)
    requires
        call_ensures(Component::name, (component,), name),
        call_ensures(RestartBackoff::reset, (backoff,), ()),
        call_ensures(RestartBackoff::failures, (final(backoff),), failures),
    ensures
        component == Component::Capture ==> name@ == "live-capture"@,
        component == Component::Encoder ==> name@ == "live-encoder"@,
        component == Component::Relay ==> name@ == "live-ws"@,
        failures == 0,
{
}

} // verus!
