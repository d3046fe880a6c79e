//! What the host gate promises: how long a throttled host is left alone, which hosts share a slot, and
//! which requests start.

use vstd::prelude::*;

use crate::error::RssError;
use crate::ratelimit::{
    authority, authority_at, cooldown_ms, eased, is_permit_action, only_changed, power_of_two, reserved,
    rungs, throttled, wait_ms, Deadline, GateAction, HostGate, HostState, PermitOutcome,
    HOST_BASE_COOLDOWN_MS, HOST_MAX_CONCURRENCY, HOST_MAX_COOLDOWN_MS, MAX_GATE_WAIT_MS, STICKY_SPACING_MS,
    WARM_WINDOW_MS,
};
use crate::text::{ascii_lowercase, decimal};
use crate::time::Duration;

verus! {

/// Unless told otherwise, one request at a time goes to a host; a throttle costs two seconds at first and
/// a minute at most; a host that throttled is spaced by a second for two minutes; and no request waits
/// longer than a minute.
pub proof fn law_the_usual_pace()
    ensures
        HOST_MAX_CONCURRENCY == 1,
        HOST_BASE_COOLDOWN_MS == 2 * 1000,
        HOST_MAX_COOLDOWN_MS == 60 * 1000,
        STICKY_SPACING_MS == 1000,
        WARM_WINDOW_MS == 120 * 1000,
        MAX_GATE_WAIT_MS == 60 * 1000,
{
}

/// A server that says how long to wait is believed, up to the ceiling. Without its word the first
/// throttle costs the base, and each further one twice as much as the one before, up to the ceiling and
/// the thirty-first.
pub proof fn law_cooldowns_double(g: HostGate, n: u32, d: Duration)
    requires
        1 <= n,
    ensures
        cooldown_ms(g, n, Some(d)) == (if d.millis <= g.max_cooldown.millis {
            d.millis
        } else {
            g.max_cooldown.millis
        }),
        cooldown_ms(g, 1, None) == (if g.base_cooldown.millis <= g.max_cooldown.millis {
            g.base_cooldown.millis
        } else {
            g.max_cooldown.millis
        }),
        n < 31 ==> cooldown_ms(g, (n + 1) as u32, None) == (if 2 * cooldown_ms(g, n, None)
            <= g.max_cooldown.millis {
            2 * cooldown_ms(g, n, None)
        } else {
            g.max_cooldown.millis as int
        }),
        n >= 31 ==> cooldown_ms(g, n, None) == cooldown_ms(g, 31, None),
{
    let b = g.base_cooldown.millis as int;
    let p = power_of_two(rungs(n)) as int;
    assert(power_of_two(0) == 1 && rungs(1) == 0);
    assert(b * 1 == b);
    if n < 31 {
        assert(rungs((n + 1) as u32) == rungs(n) + 1);
        assert(power_of_two(rungs((n + 1) as u32)) == 2 * power_of_two(rungs(n)));
        assert(b * (2 * p) == 2 * (b * p)) by (nonlinear_arith);
        assert(b * p >= 0) by (nonlinear_arith)
            requires
                b >= 0,
                p >= 0,
        ;
    }
}

/// A throttle keeps the host from being sent to until the cooldown is over, and warm until the window is,
/// neither earlier than it was kept before. One that comes while the host is warm counts on from the
/// throttles before it, and one that comes later counts as the first.
pub proof fn law_a_throttle_pauses_its_host(g: HostGate, s: HostState, retry_after: Option<Duration>, now: i64)
    requires
        0 <= now < i64::MAX / 4,
        g.max_cooldown.millis < i64::MAX / 4,
        g.warm_window.millis < i64::MAX / 4,
        s.escalation_depth < u32::MAX,
    ensures
        throttled(g, s, retry_after, now).escalation_depth == (if s.warm_until_ms > now {
            s.escalation_depth + 1
        } else {
            1
        }),
        ({
            let t = throttled(g, s, retry_after, now);
            let due = now + cooldown_ms(g, t.escalation_depth, retry_after);
            let warm = now + g.warm_window.millis;
            &&& t.next_allowed_ms >= s.next_allowed_ms && t.next_allowed_ms >= due
            &&& t.next_allowed_ms == s.next_allowed_ms || t.next_allowed_ms == due
            &&& t.warm_until_ms >= s.warm_until_ms && t.warm_until_ms >= warm
            &&& t.warm_until_ms == s.warm_until_ms || t.warm_until_ms == warm
        }),
{
    let depth = throttled(g, s, retry_after, now).escalation_depth;
    crate::ratelimit::law_cooldown_is_capped_and_escalates(g, depth, depth, retry_after);
}

/// An answer that is no throttle takes one throttle back and changes nothing else.
pub proof fn law_an_answer_takes_one_throttle_back(s: HostState)
    ensures
        s.escalation_depth > 0 ==> eased(s).escalation_depth == s.escalation_depth - 1,
        s.escalation_depth == 0 ==> eased(s).escalation_depth == 0,
        eased(s).next_allowed_ms == s.next_allowed_ms,
        eased(s).warm_until_ms == s.warm_until_ms,
{
}

/// A request that starts while its host is warm leaves the spacing to the next one; while it is not, it
/// leaves nothing.
pub proof fn law_a_start_spaces_the_next(g: HostGate, s: HostState, now: i64)
    requires
        0 <= now < i64::MAX / 4,
        g.sticky_spacing.millis < i64::MAX / 4,
    ensures
        s.warm_until_ms <= now ==> reserved(g, s, now) == s,
        s.warm_until_ms > now ==> ({
            let t = reserved(g, s, now);
            &&& t.next_allowed_ms >= now + g.sticky_spacing.millis
            &&& t.next_allowed_ms >= s.next_allowed_ms
            &&& t.next_allowed_ms == s.next_allowed_ms || t.next_allowed_ms == now + g.sticky_spacing.millis
            &&& t.warm_until_ms == s.warm_until_ms && t.escalation_depth == s.escalation_depth
        }),
{
}

/// A request waits until its host may be sent to, and no longer.
pub proof fn law_a_wait_is_what_is_left(s: HostState, now: i64)
    ensures
        wait_ms(s, now) >= 0,
        now + wait_ms(s, now) >= s.next_allowed_ms,
        wait_ms(s, now) > 0 ==> now + wait_ms(s, now) == s.next_allowed_ms,
{
}

/// URLs of one host and port share a slot, whatever the case of the host; those of other ports do not. A
/// text that is no URL has a slot of its own.
pub proof fn law_a_slot_is_a_host_and_a_port(
    a: Seq<char>,
    b: Seq<char>,
    host: Seq<char>,
    p: u16,
    q: u16,
)
    ensures
        !crate::link::is_absolute_url(a) ==> authority(a) == a,
        crate::link::is_absolute_url(a) && crate::link::is_absolute_url(b) && crate::link::port_in(a)
            == crate::link::port_in(b) && (crate::link::host_in(a) matches Some(g)
            && crate::link::host_in(b) matches Some(h) && ascii_lowercase(crate::link::host_in(a)->Some_0)
            == ascii_lowercase(crate::link::host_in(b)->Some_0)) ==> authority(a) == authority(b),
        crate::link::is_absolute_url(a) && crate::link::host_in(a) == Some(host) && crate::link::port_in(a)
            == Some(p) ==> authority(a) == ascii_lowercase(host) + ":"@ + decimal(p as nat),
        p != q ==> authority_at(Some(host), Some(p)) != authority_at(Some(host), Some(q)),
{
    if p != q {
        let x = ascii_lowercase(host) + ":"@;
        crate::text::lemma_decimal_value(p as nat);
        crate::text::lemma_decimal_value(q as nat);
        let u = x + decimal(p as nat);
        let v = x + decimal(q as nat);
        assert(u.skip(x.len() as int) =~= decimal(p as nat));
        assert(v.skip(x.len() as int) =~= decimal(q as nat));
    }
}

/// What is learned of one host changes nothing that is known of others, nor how the host gate is set.
pub proof fn law_hosts_are_kept_apart(after: HostGate, before: HostGate, host: Seq<char>, s: HostState)
    requires
        only_changed(after, before, host, s),
    ensures
        after.state_of(host) == s,
        forall|other: Seq<char>| other != host ==> #[trigger] after.state_of(other) == before.state_of(other),
        after.per_host == before.per_host,
        after.base_cooldown == before.base_cooldown,
        after.max_cooldown == before.max_cooldown,
        after.sticky_spacing == before.sticky_spacing,
        after.warm_window == before.warm_window,
        after.max_gate_wait == before.max_gate_wait,
{
}

/// A gate remembers of a host what its first slot says, and of one without a slot nothing: it may be sent
/// to at once.
pub proof fn law_a_host_is_known_by_its_first_slot(g: HostGate, host: Seq<char>, k: int)
    requires
        0 <= k <= g.slots@.len(),
        forall|j: int| 0 <= j < k ==> (#[trigger] g.slots@[j]).authority@ != host,
    ensures
        k < g.slots@.len() && g.slots@[k].authority@ == host ==> g.state_of(host) == g.slots@[k].state,
        k == g.slots@.len() ==> g.state_of(host) == (HostState {
            next_allowed_ms: 0,
            warm_until_ms: 0,
            escalation_depth: 0,
        }),
{
    lemma_first_slot(g.slots@, host, k);
}

proof fn lemma_first_slot(slots: Seq<crate::ratelimit::HostSlot>, host: Seq<char>, k: int)
    requires
        0 <= k <= slots.len(),
        forall|j: int| 0 <= j < k ==> (#[trigger] slots[j]).authority@ != host,
    ensures
        k < slots.len() && slots[k].authority@ == host ==> crate::ratelimit::state_in(slots, host)
            == slots[k].state,
        k == slots.len() ==> crate::ratelimit::state_in(slots, host) == crate::ratelimit::cold(),
    decreases k,
{
    if k > 0 {
        let r = slots.skip(1);
        assert(slots[0].authority@ != host);
        assert forall|j: int| 0 <= j < k - 1 implies (#[trigger] r[j]).authority@ != host by {
            assert(r[j] == slots[j + 1]);
        }
        lemma_first_slot(r, host, k - 1);
        if k < slots.len() {
            assert(r[k - 1] == slots[k]);
        }
    }
}

/// What a request does when its turn has come: it starts where its host may be sent to, waits where that
/// is neither too long for the host gate nor for its deadline, is told how long to wait where it is too long
/// for the host gate, and gives up where its deadline comes first. A refusal names the address.
pub proof fn law_what_a_request_does_next(
    a: GateAction,
    g: HostGate,
    url: Seq<char>,
    outcome: PermitOutcome,
    deadline: Option<Deadline>,
    now: i64,
)
    requires
        is_permit_action(a, g, url, outcome, deadline, now),
    ensures
        ({
            let wait = wait_ms(g.state_of(authority(url)), now);
            let in_time = deadline matches Some(d) ==> !d.passed;
            let granted = outcome == PermitOutcome::Granted && in_time;
            &&& a is Start <==> granted && wait == 0
            &&& a is Pause <==> granted && 0 < wait <= g.max_gate_wait.millis && (deadline matches Some(d)
                ==> wait <= d.left.millis)
            &&& a matches GateAction::Pause(d) ==> d.millis == wait
            &&& granted && wait > g.max_gate_wait.millis <==> (a matches GateAction::Refuse(e)
                && e is RateLimited)
            &&& a matches GateAction::Refuse(RssError::RateLimited { url: u, retry_after }) ==> u@ == url
                && retry_after.millis == wait
            &&& a matches GateAction::Refuse(RssError::DeadlineExceeded { url: u }) ==> u@ == url
            &&& outcome == PermitOutcome::TimedOut || (outcome == PermitOutcome::Granted && !in_time) || (granted
                && wait <= g.max_gate_wait.millis && wait > 0 && (deadline matches Some(d) && wait
                > d.left.millis)) ==> (a matches GateAction::Refuse(e) && e is DeadlineExceeded)
            &&& outcome == PermitOutcome::Closed ==> (a matches GateAction::Refuse(e) && e is Other)
        }),
{
}

} // verus!
