//! The periodic side of the front end: the tick counters that schedule
//! probes and refreshes, reachability results, the probe history of each
//! router, and the bounded log buffers.

use vstd::prelude::*;

use crate::router::{ConnectionModel, ConnectionStatus};
use crate::text::{append_chars, chars_of, string_of};

verus! {

// ─── Ticks ───────────────────────────────────────────────────────────────────

/// Ticks between reachability probes.
pub const PING_EVERY: u8 = 25;

/// Ticks between refreshes of all connected routers (off the config tab).
pub const REFRESH_EVERY: u16 = 150;

/// The tick counters.
#[derive(Debug, Clone, Copy, PartialEq, Eq, Structural)]
pub struct Ticker {
    pub tick_counter: u64,
    pub ping_tick: u8,
    pub bgp_refresh_tick: u16,
}

/// What a tick asks for.
#[derive(Debug, Clone, Copy, PartialEq, Eq, Structural)]
pub struct TickActions {
    /// Probe every router's reachability.
    pub ping: bool,
    /// Refresh the BGP data of every connected router.
    pub refresh_all: bool,
}

/// A tick: the counters advance (wrapping); the probe counter restarts
/// after `PING_EVERY` ticks with a probe, and off the configuration tab the
/// refresh counter restarts after `REFRESH_EVERY` ticks with a refresh.
pub open spec fn ticked(t: Ticker, on_config: bool) -> (Ticker, TickActions) {
    let p = vstd::wrapping::u8_specs::wrapping_add(t.ping_tick, 1);
    let ping = p >= PING_EVERY;
    let b = vstd::wrapping::u16_specs::wrapping_add(t.bgp_refresh_tick, 1);
    let refresh = !on_config && b >= REFRESH_EVERY;
    (
        Ticker {
            tick_counter: vstd::wrapping::u64_specs::wrapping_add(t.tick_counter, 1),
            ping_tick: if ping {
                0
            } else {
                p
            },
            bgp_refresh_tick: if on_config {
                t.bgp_refresh_tick
            } else if refresh {
                0
            } else {
                b
            },
        },
        TickActions { ping, refresh_all: refresh },
    )
}

impl Ticker {
    pub fn new() -> (r: Self)
        ensures
            r == (Ticker { tick_counter: 0, ping_tick: 0, bgp_refresh_tick: 0 }),
    {
        Ticker { tick_counter: 0, ping_tick: 0, bgp_refresh_tick: 0 }
    }

    pub fn tick(&mut self, on_config: bool) -> (r: TickActions)
        ensures
            (*final(self), r) == ticked(*old(self), on_config),
    {
        self.tick_counter = self.tick_counter.wrapping_add(1);
        self.ping_tick = self.ping_tick.wrapping_add(1);
        let ping = self.ping_tick >= PING_EVERY;
        if ping {
            self.ping_tick = 0;
        }
        let mut refresh = false;
        if !on_config {
            self.bgp_refresh_tick = self.bgp_refresh_tick.wrapping_add(1);
            if self.bgp_refresh_tick >= REFRESH_EVERY {
                self.bgp_refresh_tick = 0;
                refresh = true;
            }
        }
        TickActions { ping, refresh_all: refresh }
    }
}

/// The counters stay below their periods; started from 0, the probe comes
/// on every `PING_EVERY`-th tick and the refresh on every `REFRESH_EVERY`-th
/// tick off the configuration tab, while on it the refresh counter stands
/// still and no refresh comes.
pub proof fn law_tick_cadence(t: Ticker, on_config: bool)
    requires
        t.ping_tick < PING_EVERY,
        t.bgp_refresh_tick < REFRESH_EVERY,
    ensures
        ticked(t, on_config).0.ping_tick < PING_EVERY,
        ticked(t, on_config).1.ping == (t.ping_tick == PING_EVERY - 1),
        !ticked(t, on_config).1.ping ==> ticked(t, on_config).0.ping_tick == t.ping_tick + 1,
        ticked(t, on_config).0.bgp_refresh_tick < REFRESH_EVERY,
        on_config ==> !ticked(t, on_config).1.refresh_all && ticked(t, on_config).0.bgp_refresh_tick
            == t.bgp_refresh_tick,
        !on_config ==> ticked(t, on_config).1.refresh_all == (t.bgp_refresh_tick == REFRESH_EVERY
            - 1),
        !on_config && !ticked(t, on_config).1.refresh_all ==> ticked(t, on_config).0.bgp_refresh_tick
            == t.bgp_refresh_tick + 1,
{
}

// ─── Reachability ────────────────────────────────────────────────────────────

/// What a reachability result means for a router.
#[derive(Debug, Clone, Copy, PartialEq, Eq, Structural)]
pub struct PingOutcome {
    /// The router's new status is `Connected` (else `Disconnected`).
    pub connected: bool,
    /// The status changed: the connection log gets a line.
    pub changed: bool,
    /// The router came online: refresh its BGP data.
    pub came_online: bool,
}

pub open spec fn status_is(prev: Option<ConnectionModel>, connected: bool) -> bool {
    match prev {
        Some(ConnectionModel::Connected) => connected,
        Some(ConnectionModel::Disconnected) => !connected,
        Some(ConnectionModel::Error(_)) => false,
        None => !connected,
    }
}

/// The outcome of a probe after the previous status (none: never seen,
/// taken as disconnected).
pub open spec fn ping_outcome_of(prev: Option<ConnectionModel>, reachable: bool) -> PingOutcome {
    PingOutcome {
        connected: reachable,
        changed: !status_is(prev, reachable),
        came_online: reachable && !status_is(prev, true),
    }
}

pub open spec fn conn_view(c: Option<&ConnectionStatus>) -> Option<ConnectionModel> {
    match c {
        Some(s) => Some(s@),
        None => None,
    }
}

pub fn ping_outcome(prev: Option<&ConnectionStatus>, reachable: bool) -> (r: PingOutcome)
    ensures
        r == ping_outcome_of(conn_view(prev), reachable),
{
    let (was_connected, was_disconnected) = match prev {
        Some(ConnectionStatus::Connected) => (true, false),
        Some(ConnectionStatus::Disconnected) => (false, true),
        Some(ConnectionStatus::Error(_)) => (false, false),
        None => (false, true),
    };
    let same = if reachable {
        was_connected
    } else {
        was_disconnected
    };
    PingOutcome { connected: reachable, changed: !same, came_online: reachable && !was_connected }
}

// ─── Probe history ───────────────────────────────────────────────────────────

/// The probes a router's history keeps.
pub const PING_HISTORY_LEN: usize = 30;

/// Recent reachability probes of a router: the round-trip time in
/// nanoseconds of each (none: no answer), the last one, and when it was
/// taken (microseconds since the Unix epoch).
pub struct PingStats {
    pub history: std::collections::VecDeque<Option<u64>>,
    pub last_rtt: Option<u64>,
    pub last_probe: Option<i64>,
}

/// The history after a probe: the oldest probe goes when the history is
/// full, the new one is added at the end.
pub open spec fn recorded(h: Seq<Option<u64>>, rtt: Option<u64>) -> Seq<Option<u64>> {
    if h.len() >= PING_HISTORY_LEN {
        h.drop_first().push(rtt)
    } else {
        h.push(rtt)
    }
}

/// The probes that got no answer.
pub open spec fn failures(h: Seq<Option<u64>>) -> nat
    decreases h.len(),
{
    if h.len() == 0 {
        0
    } else {
        failures(h.drop_last()) + if h.last() is None {
            1nat
        } else {
            0nat
        }
    }
}

/// The larger of two optional round-trip times, an answer winning over none.
pub open spec fn max_of(a: Option<u64>, b: Option<u64>) -> Option<u64> {
    match (a, b) {
        (Some(x), Some(y)) => Some(if x >= y { x } else { y }),
        (Some(x), None) => Some(x),
        (None, y) => y,
    }
}

/// The smaller of two optional round-trip times, an answer winning over none.
pub open spec fn min_of(a: Option<u64>, b: Option<u64>) -> Option<u64> {
    match (a, b) {
        (Some(x), Some(y)) => Some(if x <= y { x } else { y }),
        (Some(x), None) => Some(x),
        (None, y) => y,
    }
}

/// The longest answered round-trip time of a history (none: no answers).
pub open spec fn slowest(h: Seq<Option<u64>>) -> Option<u64>
    decreases h.len(),
{
    if h.len() == 0 {
        None
    } else {
        max_of(slowest(h.drop_last()), h.last())
    }
}

/// The shortest answered round-trip time of a history (none: no answers).
pub open spec fn fastest(h: Seq<Option<u64>>) -> Option<u64>
    decreases h.len(),
{
    if h.len() == 0 {
        None
    } else {
        min_of(fastest(h.drop_last()), h.last())
    }
}

impl PingStats {
    /// The longest answered round-trip time, in nanoseconds.
    pub fn max_rtt_nanos(&self) -> (r: Option<u64>)
        ensures
            r == slowest(self.history@),
    {
        let mut m: Option<u64> = None;
        let mut i: usize = 0;
        while i < self.history.len()
            invariant
                i <= self.history@.len(),
                m == slowest(self.history@.take(i as int)),
            decreases self.history@.len() - i,
        {
            assert(self.history@.take(i + 1).drop_last() =~= self.history@.take(i as int));
            let x = self.history[i];
            m = match (m, x) {
                (Some(a), Some(b)) => Some(if a >= b { a } else { b }),
                (Some(a), None) => Some(a),
                (None, y) => y,
            };
            i = i + 1;
        }
        assert(self.history@.take(self.history@.len() as int) =~= self.history@);
        m
    }

    /// The shortest answered round-trip time, in nanoseconds.
    pub fn min_rtt_nanos(&self) -> (r: Option<u64>)
        ensures
            r == fastest(self.history@),
    {
        let mut m: Option<u64> = None;
        let mut i: usize = 0;
        while i < self.history.len()
            invariant
                i <= self.history@.len(),
                m == fastest(self.history@.take(i as int)),
            decreases self.history@.len() - i,
        {
            assert(self.history@.take(i + 1).drop_last() =~= self.history@.take(i as int));
            let x = self.history[i];
            m = match (m, x) {
                (Some(a), Some(b)) => Some(if a <= b { a } else { b }),
                (Some(a), None) => Some(a),
                (None, y) => y,
            };
            i = i + 1;
        }
        assert(self.history@.take(self.history@.len() as int) =~= self.history@);
        m
    }

    pub fn new() -> (r: Self)
        ensures
            r.history@.len() == 0,
            r.last_rtt is None,
            r.last_probe is None,
    {
        PingStats {
            history: std::collections::VecDeque::new(),
            last_rtt: None,
            last_probe: None,
        }
    }

    /// Records a probe taken at `now`.
    pub fn record(&mut self, rtt: Option<u64>, now: i64)
        ensures
            final(self).history@ == recorded(old(self).history@, rtt),
            final(self).last_rtt == rtt,
            final(self).last_probe == Some(now),
    {
        if self.history.len() >= PING_HISTORY_LEN {
            self.history.pop_front();
        }
        self.history.push_back(rtt);
        self.last_rtt = rtt;
        self.last_probe = Some(now);
    }

    /// The number of probes that got no answer.
    pub fn failure_count(&self) -> (r: usize)
        ensures
            r == failures(self.history@),
    {
        let mut n: usize = 0;
        let mut i: usize = 0;
        while i < self.history.len()
            invariant
                i <= self.history@.len(),
                n == failures(self.history@.take(i as int)),
                n <= i,
            decreases self.history@.len() - i,
        {
            assert(self.history@.take(i + 1).drop_last() =~= self.history@.take(i as int));
            if self.history[i].is_none() {
                n = n + 1;
            }
            i = i + 1;
        }
        assert(self.history@.take(self.history@.len() as int) =~= self.history@);
        n
    }
}

/// A history never holds more than `PING_HISTORY_LEN` probes, and the
/// newest probe is last.
pub proof fn law_history_bounded(h: Seq<Option<u64>>, rtt: Option<u64>)
    requires
        h.len() <= PING_HISTORY_LEN,
    ensures
        recorded(h, rtt).len() <= PING_HISTORY_LEN,
        recorded(h, rtt).last() == rtt,
        h.len() < PING_HISTORY_LEN ==> recorded(h, rtt).drop_last() == h,
{
    if h.len() < PING_HISTORY_LEN {
        assert(h.push(rtt).drop_last() =~= h);
    }
}

// ─── Log buffers ─────────────────────────────────────────────────────────────

/// The lines a log keeps.
pub const LOG_CAPACITY: usize = 500;

/// `"[stamp] message"`.
pub open spec fn log_line(stamp: Seq<char>, msg: Seq<char>) -> Seq<char> {
    "["@ + stamp + "] "@ + msg
}

/// The log after a line was added: the oldest line goes past the capacity.
pub open spec fn logged(ls: Seq<Seq<char>>, line: Seq<char>) -> Seq<Seq<char>> {
    if ls.len() + 1 > LOG_CAPACITY {
        ls.push(line).drop_first()
    } else {
        ls.push(line)
    }
}

/// Adds a line stamped with the local time `stamp`; returns the row to
/// select (the newest line).
pub fn push_log(log: &mut Vec<String>, stamp: &str, msg: &str) -> (r: usize)
    ensures
        final(log).deep_view() == logged(old(log).deep_view(), log_line(stamp@, msg@)),
        r == if final(log).len() > 0 {
            final(log).len() - 1
        } else {
            0
        },
{
    let mut v = chars_of("[");
    append_chars(&mut v, chars_of(stamp));
    append_chars(&mut v, chars_of("] "));
    append_chars(&mut v, chars_of(msg));
    let line = string_of(&v);
    let ghost before = log.deep_view();
    let ghost lv = line@;
    log.push(line);
    assert(log.deep_view() =~= before.push(lv));
    if log.len() > LOG_CAPACITY {
        let ghost pushed = log@;
        log.remove(0);
        assert(log.deep_view() =~= before.push(lv).drop_first()) by {
            assert forall|k: int| 0 <= k < log.len() implies #[trigger] log.deep_view()[k]
                == before.push(lv).drop_first()[k] by {
                assert(log@[k] == pushed[k + 1]);
            }
        }
    }
    if log.len() > 0 {
        log.len() - 1
    } else {
        0
    }
}

/// A log never holds more than `LOG_CAPACITY` lines, and the newest line is
/// last.
pub proof fn law_log_bounded(ls: Seq<Seq<char>>, line: Seq<char>)
    requires
        ls.len() <= LOG_CAPACITY,
    ensures
        logged(ls, line).len() <= LOG_CAPACITY,
        logged(ls, line).last() == line,
{
}

/// The state changes a peer keeps.
pub const PEER_HISTORY_LEN: usize = 100;

/// Adds an entry to a bounded history, dropping the oldest past `cap`.
pub fn push_bounded<T>(h: &mut std::collections::VecDeque<T>, x: T, cap: usize)
    ensures
        final(h)@ == (if old(h)@.len() + 1 > cap {
            old(h)@.push(x).skip(old(h)@.len() + 1 - cap)
        } else {
            old(h)@.push(x)
        }),
{
    let ghost start = h@.push(x);
    h.push_back(x);
    let ghost n = h@.len();
    while h.len() > cap
        invariant
            n == start.len(),
            h@.len() >= cap ==> h@ == start.skip(n - h@.len()),
            h@.len() < cap ==> h@ == start,
            h@.len() <= n,
        decreases h@.len(),
    {
        let ghost before = h@;
        h.pop_front();
        assert(h@ =~= start.skip(n - h@.len()));
    }
    proof {
        if start.len() > cap {
            assert(h@.len() == cap);
        } else {
            assert(h@ =~= start);
        }
    }
}

/// The slowest round-trip time of a history is one of its answers and no
/// answer took longer; the fastest is one of its answers and none was
/// quicker; both are absent exactly when no probe was answered. The
/// failures are none exactly when every probe was answered, and all of the
/// probes exactly when none was.
pub proof fn law_history_extremes(h: Seq<Option<u64>>)
    ensures
        slowest(h) is None <==> (forall|i: int| 0 <= i < h.len() ==> #[trigger] h[i] is None),
        fastest(h) is None <==> (forall|i: int| 0 <= i < h.len() ==> #[trigger] h[i] is None),
        slowest(h) matches Some(v) ==> (exists|i: int| 0 <= i < h.len() && #[trigger] h[i] == Some(v))
            && (forall|i: int| 0 <= i < h.len() && #[trigger] h[i] is Some ==> h[i]->0 <= v),
        fastest(h) matches Some(v) ==> (exists|i: int| 0 <= i < h.len() && #[trigger] h[i] == Some(v))
            && (forall|i: int| 0 <= i < h.len() && #[trigger] h[i] is Some ==> v <= h[i]->0),
        failures(h) <= h.len(),
        failures(h) == 0 <==> (forall|i: int| 0 <= i < h.len() ==> #[trigger] h[i] is Some),
        failures(h) == h.len() <==> (forall|i: int| 0 <= i < h.len() ==> #[trigger] h[i] is None),
    decreases h.len(),
{
    if h.len() > 0 {
        let d = h.drop_last();
        let n = h.len() - 1;
        law_history_extremes(d);
        assert forall|i: int| 0 <= i < n implies #[trigger] h[i] == d[i] by {}
        if let Some(v) = slowest(d) {
            let i = choose|i: int| 0 <= i < d.len() && #[trigger] d[i] == Some(v);
            assert(h[i] == Some(v));
        }
        if let Some(v) = fastest(d) {
            let i = choose|i: int| 0 <= i < d.len() && #[trigger] d[i] == Some(v);
            assert(h[i] == Some(v));
        }
        assert(h[n] == h.last());
        if forall|i: int| 0 <= i < h.len() ==> #[trigger] h[i] is None {
            assert(forall|i: int| 0 <= i < d.len() ==> #[trigger] d[i] is None) by {
                assert forall|i: int| 0 <= i < d.len() implies #[trigger] d[i] is None by {
                    assert(h[i] == d[i]);
                }
            }
        }
        if forall|i: int| 0 <= i < h.len() ==> #[trigger] h[i] is Some {
            assert(forall|i: int| 0 <= i < d.len() ==> #[trigger] d[i] is Some) by {
                assert forall|i: int| 0 <= i < d.len() implies #[trigger] d[i] is Some by {
                    assert(h[i] == d[i]);
                }
            }
        }
        if !(forall|i: int| 0 <= i < d.len() ==> #[trigger] d[i] is None) {
            let i = choose|i: int| 0 <= i < d.len() && !(#[trigger] d[i] is None);
            assert(h[i] == d[i]);
        }
        if !(forall|i: int| 0 <= i < d.len() ==> #[trigger] d[i] is Some) {
            let i = choose|i: int| 0 <= i < d.len() && !(#[trigger] d[i] is Some);
            assert(h[i] == d[i]);
        }
    }
}

/// A probe reports a change exactly when the router's status was another
/// one (a router never seen counts as disconnected), and that it came online
/// exactly when it answered and was not connected before; the same result
/// once more, on the status it left, reports neither.
pub proof fn law_ping_settles(prev: Option<ConnectionModel>, reachable: bool)
    ensures
        ({
            let o = ping_outcome_of(prev, reachable);
            let now = if reachable {
                ConnectionModel::Connected
            } else {
                ConnectionModel::Disconnected
            };
            let seen = match prev {
                Some(c) => c,
                None => ConnectionModel::Disconnected,
            };
            &&& o.connected == reachable
            &&& o.changed <==> seen != now
            &&& o.came_online <==> (reachable && seen != ConnectionModel::Connected)
            &&& !ping_outcome_of(Some(now), reachable).changed
            &&& !ping_outcome_of(Some(now), reachable).came_online
        }),
{
}

} // verus!
