//! Per-host request gate: adaptive pacing shared by all fetches.
//!
//! The host gate is reactive. It honors a server's `Retry-After` where there is one and, for hosts that
//! send none, applies a bounded cooldown that escalates with repeated throttles.

use vstd::prelude::*;
use vstd::string::*;

use crate::error::RssError;
use crate::link::address_of;
use crate::text::{number_text, parse_u64, same, to_ascii_lowercase, trim};
use crate::time::Duration;

verus! {

/// Max concurrent requests to one authority.
pub const HOST_MAX_CONCURRENCY: usize = 1;

/// First cooldown after a throttle without `Retry-After`, in milliseconds.
pub const HOST_BASE_COOLDOWN_MS: u128 = 2_000;

/// Ceiling on any single cooldown, in milliseconds.
pub const HOST_MAX_COOLDOWN_MS: u128 = 60_000;

/// Spacing between requests to a recently throttled host, in milliseconds.
pub const STICKY_SPACING_MS: u128 = 1_000;

/// How long a host counts as recently throttled, in milliseconds.
pub const WARM_WINDOW_MS: u128 = 120_000;

/// Longest pacing wait that a request absorbs before it fails, in milliseconds.
pub const MAX_GATE_WAIT_MS: u128 = 60_000;

/// The host gate's key of a URL: its lowercased host and its port. A text that is no URL is its own key.
pub open spec fn authority(url: Seq<char>) -> Seq<char> {
    if crate::link::is_absolute_url(url) {
        authority_at(crate::link::host_in(url), crate::link::port_in(url))
    } else {
        url
    }
}

/// The host gate's key of an address. Without a host its host is empty, and without a port its port
/// is zero.
pub open spec fn authority_at(host: Option<Seq<char>>, port: Option<u16>) -> Seq<char> {
    crate::text::ascii_lowercase(
        match host {
            Some(h) => h,
            None => Seq::empty(),
        },
    ) + ":"@ + crate::text::decimal(
        match port {
            Some(p) => p as nat,
            None => 0,
        },
    )
}

/// The host gate's key, given the URL's host and port, if it is a URL.
pub fn authority_from(address: Option<(Option<String>, Option<u16>)>, url: &str) -> (r: String)
    ensures
        r@ == (match address {
            Some((host, port)) => authority_at(host.deep_view(), port),
            None => url@,
        }),
{
    match address {
        Some((host, port)) => {
            let h = match host {
                Some(h) => h,
                None => String::new(),
            };
            let p: u16 = match port {
                Some(p) => p,
                None => 0,
            };
            to_ascii_lowercase(h.as_str()).concat(":").concat(&number_text(p as u64))
        },
        None => url.to_owned(),
    }
}

/// The host gate's key of a URL: lowercased `host:port`, with the scheme's own port filled in.
pub fn authority_of(url: &str) -> (r: String)
    ensures
        r@ == authority(url@),
{
    authority_from(address_of(url), url)
}

/// What the host gate knows of a host.
#[derive(Debug, Clone, Copy, PartialEq, Eq, Structural)]
pub struct HostState {
    /// Earliest epoch millisecond at which the next request may be sent.
    pub next_allowed_ms: i64,
    /// Epoch millisecond until which the host counts as recently throttled.
    pub warm_until_ms: i64,
    /// How far up the cooldown ladder the host has climbed.
    pub escalation_depth: u32,
}

/// A host that the host gate knows.
#[derive(Debug)]
pub struct HostSlot {
    pub authority: String,
    pub state: HostState,
}

/// The per-host gate.
#[derive(Debug)]
pub struct HostGate {
    pub slots: Vec<HostSlot>,
    pub per_host: usize,
    pub base_cooldown: Duration,
    pub max_cooldown: Duration,
    pub sticky_spacing: Duration,
    pub warm_window: Duration,
    pub max_gate_wait: Duration,
}

/// A host that was never throttled.
pub open spec fn cold() -> HostState {
    HostState { next_allowed_ms: 0, warm_until_ms: 0, escalation_depth: 0 }
}

/// What the first slot of a host says of it.
pub open spec fn state_in(slots: Seq<HostSlot>, authority: Seq<char>) -> HostState
    decreases slots.len(),
{
    if slots.len() == 0 {
        cold()
    } else if slots[0].authority@ == authority {
        slots[0].state
    } else {
        state_in(slots.skip(1), authority)
    }
}

/// A span in milliseconds, at most the largest number that epoch milliseconds can hold.
pub open spec fn span_ms(d: Duration) -> int {
    if d.millis > i64::MAX {
        i64::MAX as int
    } else {
        d.millis as int
    }
}

/// A span after an instant, both in milliseconds, at most the largest instant.
pub open spec fn later(now: int, d: Duration) -> int {
    if now + span_ms(d) > i64::MAX {
        i64::MAX as int
    } else {
        now + span_ms(d)
    }
}

/// The larger of two instants.
pub open spec fn latest(a: int, b: int) -> int {
    if a < b {
        b
    } else {
        a
    }
}

/// The smaller of two spans.
pub open spec fn shorter(a: int, b: int) -> int {
    if a < b {
        a
    } else {
        b
    }
}

/// Two to the power `k`.
pub open spec fn power_of_two(k: nat) -> nat
    decreases k,
{
    if k == 0 {
        1
    } else {
        2 * power_of_two((k - 1) as nat)
    }
}

/// How many rungs a depth climbs.
pub open spec fn rungs(depth: u32) -> nat {
    if depth == 0 {
        0
    } else if depth - 1 > 30 {
        30
    } else {
        (depth - 1) as nat
    }
}

/// The cooldown that a throttle brings, in milliseconds: the server's own, else the base doubled
/// for each rung, and never more than the ceiling.
pub open spec fn cooldown_ms(g: HostGate, depth: u32, retry_after: Option<Duration>) -> int {
    match retry_after {
        Some(d) => shorter(d.millis as int, g.max_cooldown.millis as int),
        None => shorter(
            g.base_cooldown.millis * power_of_two(rungs(depth)),
            g.max_cooldown.millis as int,
        ),
    }
}

/// What becomes of a host's state when it throttles at `now`.
pub open spec fn throttled(g: HostGate, s: HostState, retry_after: Option<Duration>, now: i64) -> HostState {
    let depth = if s.warm_until_ms > now {
        (if s.escalation_depth == u32::MAX {
            u32::MAX
        } else {
            (s.escalation_depth + 1) as u32
        })
    } else {
        1
    };
    HostState {
        next_allowed_ms: latest(
            s.next_allowed_ms as int,
            later(now as int, Duration { millis: cooldown_ms(g, depth, retry_after) as u128 }),
        ) as i64,
        warm_until_ms: latest(s.warm_until_ms as int, later(now as int, g.warm_window)) as i64,
        escalation_depth: depth,
    }
}

/// What becomes of a host's state when it answers without throttling.
pub open spec fn eased(s: HostState) -> HostState {
    HostState {
        escalation_depth: (if s.escalation_depth == 0 {
            0
        } else {
            (s.escalation_depth - 1) as u32
        }),
        ..s
    }
}

/// What becomes of a host's state when a request to it starts at `now`: while it is warm, the next
/// request is spaced.
pub open spec fn reserved(g: HostGate, s: HostState, now: i64) -> HostState {
    if s.warm_until_ms > now {
        HostState {
            next_allowed_ms: latest(
                s.next_allowed_ms as int,
                later(now as int, g.sticky_spacing),
            ) as i64,
            ..s
        }
    } else {
        s
    }
}

/// How long a request at `now` must wait, in milliseconds.
pub open spec fn wait_ms(s: HostState, now: i64) -> int {
    if s.next_allowed_ms > now {
        s.next_allowed_ms - now
    } else {
        0
    }
}

/// How the wait for a host's permit ended.
#[derive(Debug, Clone, Copy, PartialEq, Eq, Structural)]
pub enum PermitOutcome {
    Granted,
    /// The deadline passed first.
    TimedOut,
    /// The host gate is shut down.
    Closed,
}

/// A deadline, seen from now.
#[derive(Debug, Clone, Copy, PartialEq, Eq, Structural)]
pub struct Deadline {
    pub passed: bool,
    /// How much time is left.
    pub left: Duration,
}

/// What a request that wants to start does next.
#[derive(Debug)]
pub enum GateAction {
    /// Give up, and hand the permit back.
    Refuse(RssError),
    /// Wait this long, holding the permit, and ask again.
    Pause(Duration),
    /// Start.
    Start,
}

/// The deadline has passed.
pub open spec fn has_passed(d: Option<Deadline>) -> bool {
    d matches Some(x) && x.passed
}

/// The action is the one due after the wait for a permit.
pub open spec fn is_permit_action(
    a: GateAction,
    g: HostGate,
    url: Seq<char>,
    outcome: PermitOutcome,
    deadline: Option<Deadline>,
    now: i64,
) -> bool {
    let wait = wait_ms(g.state_of(authority(url)), now);
    if outcome == PermitOutcome::TimedOut {
        a matches GateAction::Refuse(RssError::DeadlineExceeded { url: u }) && u@ == url
    } else if outcome == PermitOutcome::Closed {
        a matches GateAction::Refuse(RssError::Other(m)) && m@ == "rate-limiter semaphore closed"@
    } else if has_passed(deadline) {
        a matches GateAction::Refuse(RssError::DeadlineExceeded { url: u }) && u@ == url
    } else if wait > g.max_gate_wait.millis {
        a matches GateAction::Refuse(RssError::RateLimited { url: u, retry_after }) && u@ == url
            && retry_after.millis == wait
    } else if wait > 0 && (deadline matches Some(d) && wait > d.left.millis) {
        a matches GateAction::Refuse(RssError::DeadlineExceeded { url: u }) && u@ == url
    } else if wait > 0 {
        a matches GateAction::Pause(d) && d.millis == wait
    } else {
        a is Start
    }
}

fn saturated(n: i128) -> (r: i64)
    requires
        i64::MIN <= n,
    ensures
        r == (if n > i64::MAX {
            i64::MAX as int
        } else {
            n as int
        }),
{
    if n > i64::MAX as i128 {
        i64::MAX
    } else {
        n as i64
    }
}

fn after(now: i64, d: Duration) -> (r: i64)
    ensures
        r == later(now as int, d),
{
    let span: i128 = if d.millis > i64::MAX as u128 { i64::MAX as i128 } else { d.millis as i128 };
    saturated(now as i128 + span)
}

fn max_ms(a: i64, b: i64) -> (r: i64)
    ensures
        r == latest(a as int, b as int),
{
    if a < b {
        b
    } else {
        a
    }
}

impl Default for HostGate {
    fn default() -> (r: Self)
        ensures
            r.per_host == HOST_MAX_CONCURRENCY,
            r.base_cooldown.millis == HOST_BASE_COOLDOWN_MS,
            r.max_cooldown.millis == HOST_MAX_COOLDOWN_MS,
            r.sticky_spacing.millis == STICKY_SPACING_MS,
            r.warm_window.millis == WARM_WINDOW_MS,
            r.max_gate_wait.millis == MAX_GATE_WAIT_MS,
            r.slots@.len() == 0,
            forall|a: Seq<char>| #[trigger] r.state_of(a) == cold(),
    {
        HostGate {
            slots: Vec::new(),
            per_host: HOST_MAX_CONCURRENCY,
            base_cooldown: Duration { millis: HOST_BASE_COOLDOWN_MS },
            max_cooldown: Duration { millis: HOST_MAX_COOLDOWN_MS },
            sticky_spacing: Duration { millis: STICKY_SPACING_MS },
            warm_window: Duration { millis: WARM_WINDOW_MS },
            max_gate_wait: Duration { millis: MAX_GATE_WAIT_MS },
        }
    }
}

/// The number that an override holds, if it holds one.
pub open spec fn override_value(raw: Option<Seq<char>>) -> Option<nat> {
    match raw {
        Some(s) => crate::text::unsigned_value(crate::text::trimmed(s), u64::MAX as nat),
        None => None,
    }
}

fn read_override(raw: Option<&str>) -> (r: Option<u64>)
    ensures
        match r {
            Some(n) => override_value(crate::identity::chars(raw)) == Some(n as nat),
            None => override_value(crate::identity::chars(raw)) is None,
        },
{
    match raw {
        Some(s) => parse_u64(trim(s).as_str()),
        None => None,
    }
}

/// Both gates are set the same.
pub open spec fn same_settings(a: HostGate, b: HostGate) -> bool {
    &&& a.per_host == b.per_host
    &&& a.base_cooldown == b.base_cooldown
    &&& a.max_cooldown == b.max_cooldown
    &&& a.sticky_spacing == b.sticky_spacing
    &&& a.warm_window == b.warm_window
    &&& a.max_gate_wait == b.max_gate_wait
}

/// The host gate knows of `authority` what `s` says, and of every other host what it knew before.
pub open spec fn only_changed(after: HostGate, before: HostGate, authority: Seq<char>, s: HostState) -> bool {
    &&& same_settings(after, before)
    &&& after.state_of(authority) == s
    &&& forall|b: Seq<char>| b != authority ==> #[trigger] after.state_of(b) == before.state_of(b)
}

proof fn lemma_state_at(slots: Seq<HostSlot>, authority: Seq<char>, i: int)
    requires
        0 <= i < slots.len(),
        slots[i].authority@ == authority,
        forall|k: int| 0 <= k < i ==> (#[trigger] slots[k]).authority@ != authority,
    ensures
        state_in(slots, authority) == slots[i].state,
    decreases i,
{
    if i > 0 {
        assert(slots.skip(1)[i - 1] == slots[i]);
        assert forall|k: int| 0 <= k < i - 1 implies (#[trigger] slots.skip(1)[k]).authority@
            != authority by {
            assert(slots[k + 1].authority@ != authority);
        }
        lemma_state_at(slots.skip(1), authority, i - 1);
    }
}

proof fn lemma_state_absent(slots: Seq<HostSlot>, authority: Seq<char>)
    requires
        forall|k: int| 0 <= k < slots.len() ==> (#[trigger] slots[k]).authority@ != authority,
    ensures
        state_in(slots, authority) == cold(),
    decreases slots.len(),
{
    if slots.len() > 0 {
        assert(slots[0].authority@ != authority);
        assert forall|k: int| 0 <= k < slots.len() - 1 implies (#[trigger] slots.skip(1)[k]).authority@
            != authority by {
            assert(slots[k + 1].authority@ != authority);
        }
        lemma_state_absent(slots.skip(1), authority);
    }
}

proof fn lemma_other_states(a: Seq<HostSlot>, b: Seq<HostSlot>, authority: Seq<char>)
    requires
        a.len() >= b.len(),
        forall|k: int|
            0 <= k < b.len() ==> (#[trigger] a[k]).authority@ == b[k].authority@ && (
            a[k].authority@ != authority ==> a[k].state == b[k].state),
        forall|k: int| b.len() <= k < a.len() ==> (#[trigger] a[k]).authority@ == authority,
    ensures
        forall|x: Seq<char>| x != authority ==> #[trigger] state_in(a, x) == state_in(b, x),
    decreases a.len(),
{
    if a.len() > 0 {
        if b.len() > 0 {
            assert(a[0].authority@ == b[0].authority@);
            assert forall|k: int| 0 <= k < b.skip(1).len() implies (#[trigger] a.skip(1)[k]).authority@
                == b.skip(1)[k].authority@ && (a.skip(1)[k].authority@ != authority
                ==> a.skip(1)[k].state == b.skip(1)[k].state) by {
                assert(a[k + 1].authority@ == b[k + 1].authority@);
            }
            assert forall|k: int| b.skip(1).len() <= k < a.skip(1).len() implies (
            #[trigger] a.skip(1)[k]).authority@ == authority by {
                assert(a[k + 1].authority@ == authority);
            }
            lemma_other_states(a.skip(1), b.skip(1), authority);
            assert forall|x: Seq<char>| x != authority implies #[trigger] state_in(a, x) == state_in(
                b,
                x,
            ) by {
                assert(state_in(a.skip(1), x) == state_in(b.skip(1), x));
            }
        } else {
            assert(a[0].authority@ == authority);
            assert forall|k: int| 0 <= k < a.skip(1).len() implies (#[trigger] a.skip(1)[k]).authority@
                == authority by {
                assert(a[k + 1].authority@ == authority);
            }
            lemma_other_states(a.skip(1), b, authority);
            assert forall|x: Seq<char>| x != authority implies #[trigger] state_in(a, x) == state_in(
                b,
                x,
            ) by {
                assert(state_in(a.skip(1), x) == state_in(b, x));
            }
        }
    }
}

impl HostGate {
    /// What the host gate knows of a host.
    pub open spec fn state_of(self, authority: Seq<char>) -> HostState {
        state_in(self.slots@, authority)
    }

    /// Builds a gate, with its settings overridden by what the environment holds: the given values of
    /// its variables, where they are set. One that holds no number overrides nothing.
    pub fn from_env(
        host_concurrency: Option<&str>,
        max_cooldown_secs: Option<&str>,
        max_gate_wait_secs: Option<&str>,
    ) -> (r: HostGate)
        ensures
            r.per_host == (match override_value(crate::identity::chars(host_concurrency)) {
                Some(n) => if n > usize::MAX {
                    HOST_MAX_CONCURRENCY as int
                } else if n < 1 {
                    1
                } else {
                    n as int
                },
                None => HOST_MAX_CONCURRENCY as int,
            }),
            r.max_cooldown.millis == (match override_value(
                crate::identity::chars(max_cooldown_secs),
            ) {
                Some(n) => (n * 1000) as int,
                None => HOST_MAX_COOLDOWN_MS as int,
            }),
            r.max_gate_wait.millis == (match override_value(
                crate::identity::chars(max_gate_wait_secs),
            ) {
                Some(n) => (n * 1000) as int,
                None => MAX_GATE_WAIT_MS as int,
            }),
            r.base_cooldown.millis == HOST_BASE_COOLDOWN_MS,
            r.sticky_spacing.millis == STICKY_SPACING_MS,
            r.warm_window.millis == WARM_WINDOW_MS,
            forall|a: Seq<char>| #[trigger] r.state_of(a) == cold(),
    {
        let mut gate = HostGate::default();
        if let Some(n) = read_override(host_concurrency) {
            if n <= usize::MAX as u64 {
                gate.per_host = if n < 1 { 1 } else { n as usize };
            }
        }
        if let Some(secs) = read_override(max_cooldown_secs) {
            gate.max_cooldown = Duration::from_secs(secs);
        }
        if let Some(secs) = read_override(max_gate_wait_secs) {
            gate.max_gate_wait = Duration::from_secs(secs);
        }
        assert(gate.slots@.len() == 0);
        gate
    }

    /// How many requests to one host may run at once: at least one.
    pub fn permits(&self) -> (r: usize)
        ensures
            r == (if self.per_host < 1 {
                1
            } else {
                self.per_host as int
            }),
    {
        if self.per_host < 1 {
            1
        } else {
            self.per_host
        }
    }

    /// What the host gate knows of a host.
    pub fn state(&self, authority: &str) -> (r: HostState)
        ensures
            r == self.state_of(authority@),
    {
        let mut i: usize = 0;
        while i < self.slots.len()
            invariant
                i <= self.slots@.len(),
                forall|k: int| 0 <= k < i ==> (#[trigger] self.slots@[k]).authority@ != authority@,
            decreases self.slots@.len() - i,
        {
            if same(self.slots[i].authority.as_str(), authority) {
                proof {
                    lemma_state_at(self.slots@, authority@, i as int);
                }
                return self.slots[i].state;
            }
            i = i + 1;
        }
        proof {
            lemma_state_absent(self.slots@, authority@);
        }
        HostState { next_allowed_ms: 0, warm_until_ms: 0, escalation_depth: 0 }
    }

    fn set_state(&mut self, authority: String, state: HostState)
        ensures
            only_changed(*final(self), *old(self), authority@, state),
    {
        let mut i: usize = 0;
        while i < self.slots.len()
            invariant
                *self == *old(self),
                i <= self.slots@.len(),
                forall|k: int| 0 <= k < i ==> (#[trigger] self.slots@[k]).authority@ != authority@,
            decreases self.slots@.len() - i,
        {
            if same(self.slots[i].authority.as_str(), authority.as_str()) {
                let ghost before = self.slots@;
                self.slots[i].state = state;
                proof {
                    lemma_state_at(self.slots@, authority@, i as int);
                    lemma_other_states(self.slots@, before, authority@);
                }
                return;
            }
            i = i + 1;
        }
        let ghost before = self.slots@;
        let ghost name = authority@;
        self.slots.push(HostSlot { authority, state });
        proof {
            assert forall|k: int| 0 <= k < before.len() implies (#[trigger] self.slots@[k]).authority@
                != name by {
                assert(self.slots@[k] == before[k]);
            }
            lemma_state_at(self.slots@, name, before.len() as int);
            lemma_other_states(self.slots@, before, name);
        }
    }

    /// The cooldown that a throttle brings: the server's own, else the base doubled for each rung of
    /// the ladder, and never more than the ceiling.
    pub fn cooldown_for(&self, n: u32, retry_after: Option<Duration>) -> (r: Duration)
        ensures
            r.millis == cooldown_ms(*self, n, retry_after),
    {
        match retry_after {
            Some(d) => if d.millis < self.max_cooldown.millis {
                d
            } else {
                self.max_cooldown
            },
            None => {
                let climb: u32 = if n == 0 {
                    0
                } else if n - 1 > 30 {
                    30
                } else {
                    n - 1
                };
                let mut factor: u128 = 1;
                let mut k: u32 = 0;
                while k < climb
                    invariant
                        k <= climb <= 30,
                        factor == power_of_two(k as nat),
                    decreases climb - k,
                {
                    proof {
                        lemma_power_grows((k + 1) as nat, 30);
                        assert(power_of_two(30) == 0x4000_0000) by {
                            reveal_with_fuel(power_of_two, 31);
                        }
                    }
                    factor = factor * 2;
                    k = k + 1;
                }
                match self.base_cooldown.millis.checked_mul(factor) {
                    Some(m) => if m < self.max_cooldown.millis {
                        Duration { millis: m }
                    } else {
                        self.max_cooldown
                    },
                    None => self.max_cooldown,
                }
            },
        }
    }

    /// Records a throttle from a URL's host at `now`: a host throttled again while it is warm climbs
    /// a rung; the cooldown and the warm window are extended, never shortened.
    pub fn note_throttled(&mut self, url: &str, retry_after: Option<Duration>, now: i64)
        ensures
            only_changed(
                *final(self),
                *old(self),
                authority(url@),
                throttled(*old(self), old(self).state_of(authority(url@)), retry_after, now),
            ),
    {
        let name = authority_of(url);
        let s = self.state(name.as_str());
        let depth: u32 = if s.warm_until_ms > now {
            s.escalation_depth.saturating_add(1)
        } else {
            1
        };
        let cooldown = self.cooldown_for(depth, retry_after);
        let next = HostState {
            next_allowed_ms: max_ms(s.next_allowed_ms, after(now, cooldown)),
            warm_until_ms: max_ms(s.warm_until_ms, after(now, self.warm_window)),
            escalation_depth: depth,
        };
        self.set_state(name, next);
    }

    /// Records an answer from a URL's host that was no throttle: the host steps down one rung.
    pub fn note_success(&mut self, url: &str)
        ensures
            only_changed(
                *final(self),
                *old(self),
                authority(url@),
                eased(old(self).state_of(authority(url@))),
            ),
    {
        let name = authority_of(url);
        let s = self.state(name.as_str());
        let next = HostState { escalation_depth: s.escalation_depth.saturating_sub(1), ..s };
        self.set_state(name, next);
    }

    /// The pacing delay that a URL's host has left at `now`, if any.
    pub fn cooldown_remaining(&self, url: &str, now: i64) -> (r: Option<Duration>)
        ensures
            match r {
                Some(d) => d.millis == wait_ms(self.state_of(authority(url@)), now) && d.millis > 0,
                None => wait_ms(self.state_of(authority(url@)), now) == 0,
            },
    {
        let s = self.state(authority_of(url).as_str());
        if s.next_allowed_ms > now {
            Some(Duration { millis: (s.next_allowed_ms as i128 - now as i128) as u128 })
        } else {
            None
        }
    }

    /// What a request does when its wait for the host's permit has ended.
    pub fn on_permit(
        &self,
        url: &str,
        outcome: PermitOutcome,
        deadline: Option<Deadline>,
        now: i64,
    ) -> (r: GateAction)
        ensures
            is_permit_action(r, *self, url@, outcome, deadline, now),
    {
        match outcome {
            PermitOutcome::TimedOut => {
                return GateAction::Refuse(RssError::DeadlineExceeded { url: url.to_owned() });
            },
            PermitOutcome::Closed => {
                return GateAction::Refuse(
                    RssError::Other("rate-limiter semaphore closed".to_owned()),
                );
            },
            PermitOutcome::Granted => {},
        }
        if let Some(d) = deadline {
            if d.passed {
                return GateAction::Refuse(RssError::DeadlineExceeded { url: url.to_owned() });
            }
        }
        let wait = match self.cooldown_remaining(url, now) {
            Some(w) => w,
            None => {
                return GateAction::Start;
            },
        };
        if wait.millis > self.max_gate_wait.millis {
            return GateAction::Refuse(
                RssError::RateLimited { url: url.to_owned(), retry_after: wait },
            );
        }
        if let Some(d) = deadline {
            if wait.millis > d.left.millis {
                return GateAction::Refuse(RssError::DeadlineExceeded { url: url.to_owned() });
            }
        }
        GateAction::Pause(wait)
    }

    /// What a request does when its pause has ended: it starts, unless its deadline has passed.
    pub fn on_wake(url: &str, deadline: Option<Deadline>) -> (r: GateAction)
        ensures
            if has_passed(deadline) {
                r matches GateAction::Refuse(RssError::DeadlineExceeded { url: u }) && u@ == url@
            } else {
                r is Start
            },
    {
        if let Some(d) = deadline {
            if d.passed {
                return GateAction::Refuse(RssError::DeadlineExceeded { url: url.to_owned() });
            }
        }
        GateAction::Start
    }

    /// Reserves the spacing that a request which starts at `now` leaves to the next one.
    pub fn reserve(&mut self, url: &str, now: i64)
        ensures
            only_changed(
                *final(self),
                *old(self),
                authority(url@),
                reserved(*old(self), old(self).state_of(authority(url@)), now),
            ),
    {
        let name = authority_of(url);
        let s = self.state(name.as_str());
        let next = if s.warm_until_ms > now {
            HostState {
                next_allowed_ms: max_ms(s.next_allowed_ms, after(now, self.sticky_spacing)),
                ..s
            }
        } else {
            s
        };
        self.set_state(name, next);
    }
}

proof fn lemma_power_positive(k: nat)
    ensures
        power_of_two(k) >= 1,
    decreases k,
{
    if k > 0 {
        lemma_power_positive((k - 1) as nat);
    }
}

proof fn lemma_power_grows(a: nat, b: nat)
    requires
        a <= b,
    ensures
        power_of_two(a) <= power_of_two(b),
    decreases b,
{
    if a < b {
        lemma_power_grows(a, (b - 1) as nat);
        lemma_power_positive((b - 1) as nat);
    }
}

/// A cooldown never exceeds the ceiling, and a deeper host never waits less.
pub proof fn law_cooldown_is_capped_and_escalates(g: HostGate, a: u32, b: u32, retry_after: Option<Duration>)
    requires
        a <= b,
    ensures
        0 <= cooldown_ms(g, a, retry_after) <= g.max_cooldown.millis,
        cooldown_ms(g, a, None) <= cooldown_ms(g, b, None),
{
    lemma_power_grows(rungs(a), rungs(b));
    lemma_power_positive(rungs(a));
    let (p, q, m) = (power_of_two(rungs(a)) as int, power_of_two(rungs(b)) as int, g.base_cooldown.millis as int);
    assert(0 <= m * p <= m * q) by (nonlinear_arith)
        requires
            0 <= p <= q,
            0 <= m,
    ;
}

/// A throttle after the warm window has lapsed starts over from the first rung.
pub proof fn law_lapsed_throttle_starts_over(g: HostGate, s: HostState, retry_after: Option<Duration>, now: i64)
    requires
        s.warm_until_ms <= now,
    ensures
        throttled(g, s, retry_after, now).escalation_depth == 1,
{
}

/// A throttle while the host is warm climbs one rung, and a success undoes exactly one: the depth
/// that was learned is not cleared.
pub proof fn law_success_undoes_one_rung(g: HostGate, s: HostState, retry_after: Option<Duration>, now: i64)
    requires
        s.warm_until_ms > now,
        s.escalation_depth < u32::MAX,
    ensures
        throttled(g, s, retry_after, now).escalation_depth == s.escalation_depth + 1,
        eased(throttled(g, s, retry_after, now)).escalation_depth == s.escalation_depth,
        eased(throttled(g, s, retry_after, now)).next_allowed_ms == throttled(
            g,
            s,
            retry_after,
            now,
        ).next_allowed_ms,
{
}

/// Neither a throttle, nor a success, nor a start ever lets a host be sent to earlier.
pub proof fn law_pacing_never_shortens(g: HostGate, s: HostState, retry_after: Option<Duration>, now: i64)
    ensures
        throttled(g, s, retry_after, now).next_allowed_ms >= s.next_allowed_ms,
        throttled(g, s, retry_after, now).warm_until_ms >= s.warm_until_ms,
        reserved(g, s, now).next_allowed_ms >= s.next_allowed_ms,
        eased(s).next_allowed_ms == s.next_allowed_ms,
{
    let d = if s.warm_until_ms > now {
        (if s.escalation_depth == u32::MAX {
            u32::MAX
        } else {
            (s.escalation_depth + 1) as u32
        })
    } else {
        1
    };
    law_cooldown_is_capped_and_escalates(g, d, d, retry_after);
}

/// A request pauses no longer than the host gate's ceiling and no longer than its deadline leaves.
pub proof fn law_a_pause_is_bounded(
    g: HostGate,
    url: Seq<char>,
    outcome: PermitOutcome,
    deadline: Option<Deadline>,
    now: i64,
    d: Duration,
)
    requires
        is_permit_action(GateAction::Pause(d), g, url, outcome, deadline, now),
    ensures
        0 < d.millis <= g.max_gate_wait.millis,
        deadline matches Some(x) ==> !x.passed && d.millis <= x.left.millis,
{
}

/// A request whose deadline has passed does not start, and one that starts owes its host no wait.
pub proof fn law_no_start_past_the_deadline(
    a: GateAction,
    g: HostGate,
    url: Seq<char>,
    outcome: PermitOutcome,
    deadline: Option<Deadline>,
    now: i64,
)
    requires
        is_permit_action(a, g, url, outcome, deadline, now),
    ensures
        has_passed(deadline) ==> a is Refuse,
        a is Start ==> outcome == PermitOutcome::Granted && wait_ms(g.state_of(authority(url)), now)
            == 0,
{
}

/// A host that was never throttled makes no request wait.
pub proof fn law_cold_host_never_waits(now: i64)
    requires
        now >= 0,
    ensures
        wait_ms(cold(), now) == 0,
{
}

} // verus!
