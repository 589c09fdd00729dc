//! The session state: the in-memory view-model that consumes the worker's
//! events. It owns the pending round-trip requests, the bounded latency
//! sample window, the running metrics, and the message history, and decides
//! what to send back (identity re-assertion, automatic pings). Time comes in
//! as an argument — a monotonic millisecond clock — so every decision here
//! is a pure state transition.
use vstd::prelude::*;

use crate::protocol::{opt_str_view, users_view, Incoming, IncomingV, Outgoing, OutgoingV, UserInfo};
use crate::text::{chars_to_string, push_chars, push_str_chars, push_u64_dec, str_to_chars};
use crate::worker::{SecurityInfo, UiEvent, UiEventV};

verus! {

/// Milliseconds between automatic latency pings.
pub const AUTO_PING_INTERVAL_MS: u64 = 5000;

/// Most latency samples the rolling window keeps.
pub const MAX_LATENCY_SAMPLES: usize = 100;

/// Most raw frames the inspector history keeps.
pub const MAX_RAW_MESSAGES: usize = 500;

/// Milliseconds an error stays inside the errors-per-minute window.
pub const ERROR_WINDOW_MS: u64 = 60000;

/// The reserved token prefix that marks a ping as automatic.
pub open spec fn auto_prefix() -> Seq<char> {
    "auto-"@
}

/// Whether a ping token is an automatic one: it carries the reserved prefix.
pub open spec fn is_auto_token(t: Seq<char>) -> bool {
    t.len() >= 5 && t.subrange(0, 5) == auto_prefix()
}

fn is_auto_token_exec(t: &Vec<char>) -> (r: bool)
    ensures
        r == is_auto_token(t@),
{
    if t.len() < 5 {
        return false;
    }
    let head = crate::json::vec_slice(t, 0, 5);
    let lit = str_to_chars("auto-");
    crate::protocol::chars_eq(&head, &lit)
}

// ---------------------------------------------------------------------------
// The pending-ping map
// ---------------------------------------------------------------------------
/// The instant a token's ping was sent, if one is pending: first match wins,
/// and the uniqueness invariant keeps matches unique.
pub open spec fn pend_time(s: Seq<(String, u64)>, tok: Seq<char>) -> Option<u64>
    decreases s.len(),
{
    if s.len() == 0 {
        Option::None
    } else if s[0].0@ == tok {
        Option::Some(s[0].1)
    } else {
        pend_time(s.drop_first(), tok)
    }
}

/// At most one pending entry per token.
pub open spec fn tokens_unique(s: Seq<(String, u64)>) -> bool {
    forall|i: int, j: int| 0 <= i < j < s.len() ==> (#[trigger] s[i].0)@ != (#[trigger] s[j].0)@
}

proof fn lemma_pend_time_none_absent(s: Seq<(String, u64)>, tok: Seq<char>)
    requires
        pend_time(s, tok) is None,
    ensures
        forall|m: int| 0 <= m < s.len() ==> (#[trigger] s[m].0)@ != tok,
    decreases s.len(),
{
    if s.len() > 0 {
        lemma_pend_time_none_absent(s.drop_first(), tok);
        assert forall|m: int| 0 <= m < s.len() implies (#[trigger] s[m].0)@ != tok by {
            if m > 0 {
                assert(s[m] == s.drop_first()[m - 1]);
            }
        }
    }
}

proof fn lemma_pend_time_absent(s: Seq<(String, u64)>, tok: Seq<char>)
    requires
        forall|m: int| 0 <= m < s.len() ==> (#[trigger] s[m].0)@ != tok,
    ensures
        pend_time(s, tok) is None,
    decreases s.len(),
{
    if s.len() > 0 {
        lemma_pend_time_absent(s.drop_first(), tok);
    }
}

proof fn lemma_pend_time_remove(s: Seq<(String, u64)>, i: int, tok: Seq<char>)
    requires
        0 <= i < s.len(),
        s[i].0@ != tok,
    ensures
        pend_time(s.remove(i), tok) == pend_time(s, tok),
    decreases s.len(),
{
    if i == 0 {
        assert(s.remove(0) =~= s.drop_first());
    } else {
        assert(s.remove(i).drop_first() =~= s.drop_first().remove(i - 1));
        lemma_pend_time_remove(s.drop_first(), i - 1, tok);
    }
}

proof fn lemma_pend_time_found(s: Seq<(String, u64)>, i: int)
    requires
        0 <= i < s.len(),
        forall|m: int| 0 <= m < i ==> (#[trigger] s[m].0)@ != s[i].0@,
    ensures
        pend_time(s, s[i].0@) == Option::Some(s[i].1),
    decreases i,
{
    if i > 0 {
        lemma_pend_time_found(s.drop_first(), i - 1);
    }
}

proof fn lemma_pend_time_push(s: Seq<(String, u64)>, entry: (String, u64), tok: Seq<char>)
    ensures
        entry.0@ == tok ==> pend_time(s.push(entry), tok) == (if pend_time(s, tok) is Some {
            pend_time(s, tok)
        } else {
            Option::Some(entry.1)
        }),
        entry.0@ != tok ==> pend_time(s.push(entry), tok) == pend_time(s, tok),
    decreases s.len(),
{
    if s.len() == 0 {
        assert(s.push(entry)[0] == entry);
        assert(s.push(entry).drop_first() =~= Seq::<(String, u64)>::empty());
        assert(pend_time(Seq::<(String, u64)>::empty(), tok) is None);
    } else {
        assert(s.push(entry)[0] == s[0]);
        assert(s.push(entry).drop_first() =~= s.drop_first().push(entry));
        lemma_pend_time_push(s.drop_first(), entry, tok);
    }
}

// ---------------------------------------------------------------------------
// Sorting, for the percentile gauge
// ---------------------------------------------------------------------------
/// `x` placed into an ascending sequence, before the first larger element.
pub open spec fn insert_sorted(x: u64, s: Seq<u64>) -> Seq<u64>
    decreases s.len(),
{
    if s.len() == 0 {
        seq![x]
    } else if x <= s[0] {
        seq![x] + s
    } else {
        seq![s[0]] + insert_sorted(x, s.drop_first())
    }
}

/// The ascending rearrangement of a sequence, by insertion.
pub open spec fn sort_spec(s: Seq<u64>) -> Seq<u64>
    decreases s.len(),
{
    if s.len() == 0 {
        Seq::empty()
    } else {
        insert_sorted(s[0], sort_spec(s.drop_first()))
    }
}

fn insert_sorted_exec(x: u64, s: &Vec<u64>, k: usize) -> (r: Vec<u64>)
    requires
        k <= s.len(),
    ensures
        r@ == insert_sorted(x, s@.subrange(k as int, s@.len() as int)),
    decreases s.len() - k,
{
    let mut out: Vec<u64> = Vec::new();
    if k == s.len() {
        out.push(x);
        proof {
            assert(s@.subrange(k as int, s@.len() as int) =~= Seq::<u64>::empty());
            assert(out@ =~= seq![x]);
        }
        return out;
    }
    proof {
        assert(s@.subrange(k as int, s@.len() as int)[0] == s@[k as int]);
        assert(s@.subrange(k as int, s@.len() as int).drop_first() =~= s@.subrange(
            k + 1 as int,
            s@.len() as int,
        ));
    }
    if x <= s[k] {
        out.push(x);
        let mut m = k;
        while m < s.len()
            invariant
                k <= m <= s@.len(),
                out@ == seq![x] + s@.subrange(k as int, m as int),
            decreases s.len() - m,
        {
            out.push(s[m]);
            proof {
                assert(out@ =~= seq![x] + s@.subrange(k as int, m + 1 as int));
            }
            m = m + 1;
        }
        proof {
            assert(out@ =~= insert_sorted(x, s@.subrange(k as int, s@.len() as int)));
        }
        out
    } else {
        let rest = insert_sorted_exec(x, s, k + 1);
        let mut out2: Vec<u64> = Vec::new();
        out2.push(s[k]);
        crate::text::push_u64s(&mut out2, &rest);
        proof {
            assert(out2@ =~= insert_sorted(x, s@.subrange(k as int, s@.len() as int)));
        }
        out2
    }
}

/// Sorts the samples ascending, exactly as the insertion specification says.
fn sort_exec(s: &Vec<u64>, k: usize) -> (r: Vec<u64>)
    requires
        k <= s.len(),
    ensures
        r@ == sort_spec(s@.subrange(k as int, s@.len() as int)),
    decreases s.len() - k,
{
    if k == s.len() {
        let out: Vec<u64> = Vec::new();
        proof {
            assert(s@.subrange(k as int, s@.len() as int) =~= Seq::<u64>::empty());
        }
        return out;
    }
    proof {
        assert(s@.subrange(k as int, s@.len() as int)[0] == s@[k as int]);
        assert(s@.subrange(k as int, s@.len() as int).drop_first() =~= s@.subrange(
            k + 1 as int,
            s@.len() as int,
        ));
    }
    let rest = sort_exec(s, k + 1);
    let r = insert_sorted_exec(s[k], &rest, 0);
    proof {
        assert(rest@.subrange(0, rest@.len() as int) =~= rest@);
    }
    r
}

/// The sum of a sample window.
pub open spec fn sum_seq(s: Seq<u64>) -> int
    decreases s.len(),
{
    if s.len() == 0 {
        0
    } else {
        sum_seq(s.drop_last()) + s.last()
    }
}


// ---------------------------------------------------------------------------
// Message history entries
// ---------------------------------------------------------------------------
/// One rendered line of the chat history.
#[derive(Debug, Clone, PartialEq)]
pub enum ChatLine {
    Chat { from: String, text: String, at: Option<u64> },
    System { text: String, at: Option<u64> },
    Error(String),
    Status { text: String, at: Option<u64> },
    StatusCard { at: Option<u64>, rows: Vec<(String, String)> },
    UsersCard { at: Option<u64>, users: Vec<(String, String, String)> },
    Ai { from: String, prompt: String, response: String, stats: String, at: Option<u64> },
}

pub enum ChatLineV {
    Chat { from: Seq<char>, text: Seq<char>, at: Option<u64> },
    System { text: Seq<char>, at: Option<u64> },
    Error(Seq<char>),
    Status { text: Seq<char>, at: Option<u64> },
    StatusCard { at: Option<u64>, rows: Seq<(Seq<char>, Seq<char>)> },
    UsersCard { at: Option<u64>, users: Seq<(Seq<char>, Seq<char>, Seq<char>)> },
    Ai {
        from: Seq<char>,
        prompt: Seq<char>,
        response: Seq<char>,
        stats: Seq<char>,
        at: Option<u64>,
    },
}

pub open spec fn pairs_view(rows: Seq<(String, String)>) -> Seq<(Seq<char>, Seq<char>)> {
    Seq::new(rows.len(), |k: int| (rows[k].0@, rows[k].1@))
}

pub open spec fn triples_view(us: Seq<(String, String, String)>) -> Seq<
    (Seq<char>, Seq<char>, Seq<char>),
> {
    Seq::new(us.len(), |k: int| (us[k].0@, us[k].1@, us[k].2@))
}

impl View for ChatLine {
    type V = ChatLineV;

    open spec fn view(&self) -> ChatLineV {
        match self {
            ChatLine::Chat { from, text, at } => ChatLineV::Chat {
                from: from@,
                text: text@,
                at: *at,
            },
            ChatLine::System { text, at } => ChatLineV::System { text: text@, at: *at },
            ChatLine::Error(m) => ChatLineV::Error(m@),
            ChatLine::Status { text, at } => ChatLineV::Status { text: text@, at: *at },
            ChatLine::StatusCard { at, rows } => ChatLineV::StatusCard {
                at: *at,
                rows: pairs_view(rows@),
            },
            ChatLine::UsersCard { at, users } => ChatLineV::UsersCard {
                at: *at,
                users: triples_view(users@),
            },
            ChatLine::Ai { from, prompt, response, stats, at } => ChatLineV::Ai {
                from: from@,
                prompt: prompt@,
                response: response@,
                stats: stats@,
                at: *at,
            },
        }
    }
}

/// One raw frame as the inspector shows it: the tagged line and the bare
/// payload behind the direction tag.
#[derive(Debug, Clone, PartialEq)]
pub struct RawLine {
    pub line: String,
    pub payload: String,
}

pub struct RawLineV {
    pub line: Seq<char>,
    pub payload: Seq<char>,
}

impl View for RawLine {
    type V = RawLineV;

    open spec fn view(&self) -> RawLineV {
        RawLineV { line: self.line@, payload: self.payload@ }
    }
}

/// The payload of a raw line: whatever follows the direction tag.
pub open spec fn raw_payload_spec(line: Seq<char>) -> Seq<char> {
    if line.len() >= 3 && (line.subrange(0, 3) == ">> "@ || line.subrange(0, 3) == "<< "@) {
        line.subrange(3, line.len() as int)
    } else {
        line
    }
}

/// Running connection metrics.
#[derive(Debug, Clone, PartialEq)]
pub struct Metrics {
    pub ws_in_frames: u64,
    pub ws_out_frames: u64,
    pub reconnects: u64,
    pub connect_count: u64,
    pub last_connected_at: Option<u64>,
    pub error_timestamps: Vec<u64>,
}

/// Counters never run past their top.
pub open spec fn bump(n: u64) -> u64 {
    if n < 0xFFFFFFFFFFFFFFFF {
        (n + 1) as u64
    } else {
        n
    }
}

fn bump_exec(n: u64) -> (r: u64)
    ensures
        r == bump(n),
{
    if n < 0xFFFFFFFFFFFFFFFF {
        n + 1
    } else {
        n
    }
}

// ---------------------------------------------------------------------------
// The session state
// ---------------------------------------------------------------------------
/// The view-model one connection's consumer keeps. `clock` is the last
/// monotonic millisecond instant the session saw; every entry that records a
/// time stays at or below it.
pub struct SessionState {
    pub connected: bool,
    pub has_sink: bool,
    pub preferred_username: String,
    pub username: String,
    pub messages: Vec<ChatLine>,
    pub raw_messages: Vec<RawLine>,
    pub selected_raw_index: Option<usize>,
    pub pending_pings: Vec<(String, u64)>,
    pub latency_samples: Vec<u64>,
    pub last_auto_ping_sent: Option<u64>,
    pub security_info: Option<SecurityInfo>,
    pub metrics: Metrics,
    pub clock: u64,
}

impl SessionState {
    /// The structural invariant every transition keeps.
    pub open spec fn wf(self) -> bool {
        &&& tokens_unique(self.pending_pings@)
        &&& forall|k: int|
            0 <= k < self.pending_pings@.len() ==> (#[trigger] self.pending_pings@[k]).1
                <= self.clock
        &&& self.latency_samples@.len() <= MAX_LATENCY_SAMPLES
        &&& self.raw_messages@.len() <= MAX_RAW_MESSAGES
        &&& (self.last_auto_ping_sent matches Some(t) ==> t <= self.clock)
    }

    /// A fresh session around a remembered user name: a name the server
    /// assigned (a guest name) is not treated as a preference to re-assert.
    pub fn new(username: String) -> (r: SessionState)
        ensures
            r.wf(),
            r.connected == false,
            r.has_sink == false,
            r.username@ == username@,
            r.preferred_username@ == (if crate::protocol::is_guest_name_spec(username@) {
                Seq::<char>::empty()
            } else {
                username@
            }),
            r.messages@.len() == 0,
            r.raw_messages@.len() == 0,
            r.pending_pings@.len() == 0,
            r.latency_samples@.len() == 0,
            r.last_auto_ping_sent is None,
            r.security_info is None,
            r.metrics.connect_count == 0,
            r.metrics.reconnects == 0,
            r.metrics.ws_in_frames == 0,
            r.metrics.ws_out_frames == 0,
            r.metrics.error_timestamps@.len() == 0,
            r.clock == 0,
    {
        let preferred = if crate::protocol::is_guest_name(username.as_str()) {
            String::new()
        } else {
            username.clone()
        };
        SessionState {
            connected: false,
            has_sink: false,
            preferred_username: preferred,
            username,
            messages: Vec::new(),
            raw_messages: Vec::new(),
            selected_raw_index: None,
            pending_pings: Vec::new(),
            latency_samples: Vec::new(),
            last_auto_ping_sent: None,
            security_info: None,
            metrics: Metrics {
                ws_in_frames: 0,
                ws_out_frames: 0,
                reconnects: 0,
                connect_count: 0,
                last_connected_at: None,
                error_timestamps: Vec::new(),
            },
            clock: 0,
        }
    }

    /// The consumer asked for a connection: it now holds a command sink.
    /// The worker's lifecycle events do the rest.
    pub fn connect_requested(&mut self)
        requires
            old(self).wf(),
        ensures
            final(self).wf(),
            *final(self) == (SessionState { has_sink: true, ..*old(self) }),
    {
        self.has_sink = true;
    }

    /// Removes the pending entry for `tok`, answering when its ping was
    /// sent; no entry, no change.
    fn pending_remove(&mut self, tok: &Vec<char>) -> (r: Option<u64>)
        requires
            tokens_unique(old(self).pending_pings@),
        ensures
            tokens_unique(final(self).pending_pings@),
            r == pend_time(old(self).pending_pings@, tok@),
            pend_time(final(self).pending_pings@, tok@) is None,
            forall|t2: Seq<char>|
                t2 != tok@ ==> #[trigger] pend_time(final(self).pending_pings@, t2) == pend_time(
                    old(self).pending_pings@,
                    t2,
                ),
            forall|k: int|
                0 <= k < final(self).pending_pings@.len() ==> exists|m: int|
                    0 <= m < old(self).pending_pings@.len() && #[trigger] final(self).pending_pings@[k] == old(self).pending_pings@[m],
            *final(self) == (SessionState {
                pending_pings: final(self).pending_pings,
                ..*old(self)
            }),
    {
        let ghost orig = self.pending_pings@;
        let n = self.pending_pings.len();
        let mut k: usize = 0;
        while k < n
            invariant
                k <= n,
                n == self.pending_pings@.len(),
                self.pending_pings@ == orig,
                orig == old(self).pending_pings@,
                tokens_unique(orig),
                *self == (SessionState { pending_pings: self.pending_pings, ..*old(self) }),
                forall|m: int| 0 <= m < k ==> (#[trigger] orig[m].0)@ != tok@,
            decreases n - k,
        {
            let hit = crate::protocol::chars_eq(&str_to_chars(self.pending_pings[k].0.as_str()), tok);
            if hit {
                let entry = self.pending_pings.remove(k);
                proof {
                    let rem = orig.remove(k as int);
                    lemma_pend_time_found(orig, k as int);
                    assert forall|t2: Seq<char>| t2 != tok@ implies #[trigger] pend_time(
                        rem,
                        t2,
                    ) == pend_time(orig, t2) by {
                        lemma_pend_time_remove(orig, k as int, t2);
                    }
                    assert forall|m2: int| 0 <= m2 < rem.len() implies (#[trigger] rem[m2].0)@
                        != tok@ by {
                        if m2 < k {
                            assert(rem[m2] == orig[m2]);
                        } else {
                            assert(rem[m2] == orig[m2 + 1]);
                            assert((orig[k as int].0)@ != (orig[m2 + 1].0)@);
                        }
                    }
                    lemma_pend_time_absent(rem, tok@);
                    assert forall|i2: int, j2: int|
                        0 <= i2 < j2 < rem.len() implies (#[trigger] rem[i2].0)@ != (
                    #[trigger] rem[j2].0)@ by {
                        let io = if i2 < k {
                            i2
                        } else {
                            i2 + 1
                        };
                        let jo = if j2 < k {
                            j2
                        } else {
                            j2 + 1
                        };
                        assert(rem[i2] == orig[io]);
                        assert(rem[j2] == orig[jo]);
                        assert((orig[io].0)@ != (orig[jo].0)@);
                    }
                    assert forall|k2: int| 0 <= k2 < rem.len() implies exists|m: int|
                        0 <= m < orig.len() && #[trigger] rem[k2] == orig[m] by {
                        if k2 < k {
                            assert(rem[k2] == orig[k2]);
                        } else {
                            assert(rem[k2] == orig[k2 + 1]);
                        }
                    }
                }
                return Some(entry.1);
            }
            k = k + 1;
        }
        proof {
            lemma_pend_time_absent(orig, tok@);
        }
        None
    }

    /// Records a ping as pending at `now`: any stale entry under the same
    /// token is replaced, so at most one entry per token ever exists.
    fn pending_insert(&mut self, tok: &Vec<char>, now: u64)
        requires
            tokens_unique(old(self).pending_pings@),
            forall|k: int|
                0 <= k < old(self).pending_pings@.len() ==> (#[trigger] old(self).pending_pings@[k]).1 <= now,
        ensures
            tokens_unique(final(self).pending_pings@),
            pend_time(final(self).pending_pings@, tok@) == Option::Some(now),
            forall|t2: Seq<char>|
                t2 != tok@ ==> #[trigger] pend_time(final(self).pending_pings@, t2) == pend_time(
                    old(self).pending_pings@,
                    t2,
                ),
            forall|k: int|
                0 <= k < final(self).pending_pings@.len() ==> (#[trigger] final(self).pending_pings@[k]).1 <= now,
            *final(self) == (SessionState {
                pending_pings: final(self).pending_pings,
                ..*old(self)
            }),
    {
        let _ = self.pending_remove(tok);
        let ghost mid = self.pending_pings@;
        let entry = (chars_to_string(tok), now);
        proof {
            lemma_pend_time_none_absent(mid, tok@);
            lemma_pend_time_push(mid, entry, tok@);
            assert forall|t2: Seq<char>| t2 != tok@ implies #[trigger] pend_time(
                mid.push(entry),
                t2,
            ) == pend_time(mid, t2) by {
                lemma_pend_time_push(mid, entry, t2);
            }
            assert forall|i: int, j: int|
                0 <= i < j < mid.push(entry).len() implies (#[trigger] mid.push(entry)[i].0)@ != (
            #[trigger] mid.push(entry)[j].0)@ by {
                assert(mid.push(entry)[i] == (if i < mid.len() {
                    mid[i]
                } else {
                    entry
                }));
                assert(mid.push(entry)[j] == (if j < mid.len() {
                    mid[j]
                } else {
                    entry
                }));
            }
        }
        self.pending_pings.push(entry);
    }

    /// Appends one round-trip sample; when the window is full the oldest
    /// goes first. The window never exceeds its bound.
    pub fn record_latency_sample(&mut self, ms: u64)
        requires
            old(self).latency_samples@.len() <= MAX_LATENCY_SAMPLES,
        ensures
            final(self).latency_samples@.len() <= MAX_LATENCY_SAMPLES,
            old(self).latency_samples@.len() < MAX_LATENCY_SAMPLES ==> final(self).latency_samples@
                == old(self).latency_samples@.push(ms),
            old(self).latency_samples@.len() == MAX_LATENCY_SAMPLES ==> final(self).latency_samples@ == old(self).latency_samples@.drop_first().push(ms),
            *final(self) == (SessionState {
                latency_samples: final(self).latency_samples,
                ..*old(self)
            }),
    {
        self.latency_samples.push(ms);
        if self.latency_samples.len() > MAX_LATENCY_SAMPLES {
            let _ = self.latency_samples.remove(0);
            proof {
                assert(final(self).latency_samples@ =~= old(self).latency_samples@.drop_first().push(ms));
            }
        }
    }

    /// The rolling average round-trip, rounded down; nothing without samples.
    pub fn latency_avg_ms(&self) -> (r: Option<u64>)
        ensures
            self.latency_samples@.len() == 0 ==> r is None,
            self.latency_samples@.len() > 0 ==> r == Option::Some(
                (sum_seq(self.latency_samples@) / self.latency_samples@.len() as int) as u64,
            ),
    {
        let n = self.latency_samples.len();
        if n == 0 {
            return None;
        }
        let mut total: u128 = 0;
        let mut k: usize = 0;
        while k < n
            invariant
                k <= n,
                n == self.latency_samples@.len(),
                total == sum_seq(self.latency_samples@.subrange(0, k as int)),
                total <= k * 0xFFFFFFFFFFFFFFFF,
            decreases n - k,
        {
            proof {
                assert(self.latency_samples@.subrange(0, k + 1 as int).drop_last()
                    =~= self.latency_samples@.subrange(0, k as int));
            }
            total = total + self.latency_samples[k] as u128;
            k = k + 1;
        }
        proof {
            assert(self.latency_samples@.subrange(0, n as int) =~= self.latency_samples@);
        }
        let avg = total / (n as u128);
        proof {
            assert(sum_seq(self.latency_samples@) >= 0) by {
                lemma_sum_nonneg(self.latency_samples@);
            }
            assert(avg <= total);
        }
        Some(avg as u64)
    }

    /// The 95th-percentile round-trip over the window, by rank on the
    /// ascending rearrangement; nothing without samples.
    pub fn latency_p95_ms(&self) -> (r: Option<u64>)
        requires
            self.latency_samples@.len() <= MAX_LATENCY_SAMPLES,
        ensures
            self.latency_samples@.len() == 0 ==> r is None,
            self.latency_samples@.len() > 0 ==> r == Option::Some(
                sort_spec(self.latency_samples@)[(self.latency_samples@.len() as int * 95 + 99)
                    / 100 - 1],
            ),
    {
        let n = self.latency_samples.len();
        if n == 0 {
            return None;
        }
        let sorted = sort_exec(&self.latency_samples, 0);
        proof {
            assert(self.latency_samples@.subrange(0, n as int) =~= self.latency_samples@);
            lemma_sort_len(self.latency_samples@);
        }
        let idx = (n * 95 + 99) / 100;
        Some(sorted[idx - 1])
    }

    /// Remembers one error's instant and drops what fell out of the window.
    pub fn record_error_event(&mut self, now: u64)
        requires
            old(self).wf(),
            now >= old(self).clock,
        ensures
            final(self).wf(),
            final(self).metrics.error_timestamps@ == prune_spec(
                old(self).metrics.error_timestamps@.push(now),
                now,
            ),
            final(self).clock == now,
            *final(self) == (SessionState {
                metrics: final(self).metrics,
                clock: now,
                ..*old(self)
            }),
            final(self).metrics == (Metrics {
                error_timestamps: final(self).metrics.error_timestamps,
                ..old(self).metrics
            }),
    {
        self.clock = now;
        self.metrics.error_timestamps.push(now);
        self.prune_old_errors(now);
    }

    /// Drops the leading error instants that fell out of the one-minute
    /// window ending at `now`.
    pub fn prune_old_errors(&mut self, now: u64)
        ensures
            final(self).metrics.error_timestamps@ == prune_spec(
                old(self).metrics.error_timestamps@,
                now,
            ),
            *final(self) == (SessionState { metrics: final(self).metrics, ..*old(self) }),
            final(self).metrics == (Metrics {
                error_timestamps: final(self).metrics.error_timestamps,
                ..old(self).metrics
            }),
    {
        loop
            invariant
                prune_spec(old(self).metrics.error_timestamps@, now) == prune_spec(
                    self.metrics.error_timestamps@,
                    now,
                ),
                *self == (SessionState { metrics: self.metrics, ..*old(self) }),
                self.metrics == (Metrics {
                    error_timestamps: self.metrics.error_timestamps,
                    ..old(self).metrics
                }),
            decreases self.metrics.error_timestamps@.len(),
        {
            if self.metrics.error_timestamps.len() == 0 {
                return ;
            }
            let oldest = self.metrics.error_timestamps[0];
            if now >= oldest && now - oldest > ERROR_WINDOW_MS {
                proof {
                    assert(self.metrics.error_timestamps@.remove(0)
                        =~= self.metrics.error_timestamps@.drop_first());
                }
                let _ = self.metrics.error_timestamps.remove(0);
            } else {
                return ;
            }
        }
    }
}

proof fn lemma_sum_nonneg(s: Seq<u64>)
    ensures
        sum_seq(s) >= 0,
    decreases s.len(),
{
    if s.len() > 0 {
        lemma_sum_nonneg(s.drop_last());
    }
}

proof fn lemma_insert_sorted_len(x: u64, s: Seq<u64>)
    ensures
        insert_sorted(x, s).len() == s.len() + 1,
    decreases s.len(),
{
    if s.len() > 0 && x > s[0] {
        lemma_insert_sorted_len(x, s.drop_first());
    }
}

proof fn lemma_sort_len(s: Seq<u64>)
    ensures
        sort_spec(s).len() == s.len(),
    decreases s.len(),
{
    if s.len() > 0 {
        lemma_sort_len(s.drop_first());
        lemma_insert_sorted_len(s[0], sort_spec(s.drop_first()));
    }
}

/// The error window after pruning: the stale leading instants removed. An
/// instant ahead of `now` counts as fresh, as an unsigned elapsed time does.
pub open spec fn prune_spec(s: Seq<u64>, now: u64) -> Seq<u64>
    decreases s.len(),
{
    if s.len() > 0 && s[0] <= now && now - s[0] > ERROR_WINDOW_MS {
        prune_spec(s.drop_first(), now)
    } else {
        s
    }
}


/// The chat history as mathematical lines.
pub open spec fn lines_view(s: Seq<ChatLine>) -> Seq<ChatLineV> {
    Seq::new(s.len(), |k: int| s[k]@)
}

/// Whether the scheduler owes an automatic ping at `now`: connected, a sink
/// in hand, and none sent within the last interval.
pub open spec fn auto_ping_due(s: SessionState, now: u64) -> bool {
    s.connected && s.has_sink && (match s.last_auto_ping_sent {
        Option::None => true,
        Option::Some(t) => now - t >= AUTO_PING_INTERVAL_MS,
    })
}

/// Relies on uuid's `Uuid::new_v4` and its `Display`: a fresh random
/// identifier in the 36-character hyphenated spelling. The value is random,
/// so nothing more is promised of it.
#[verifier::external_body]
fn new_uuid_string() -> (r: String)
    ensures
        r@.len() == 36,
{
    uuid::Uuid::new_v4().to_string()
}

impl SessionState {
    /// While connected, sends at most one automatic ping per interval: a
    /// fresh reserved-prefix token goes pending at `now` and rides out in a
    /// `Ping`; within the interval of the last one, nothing happens.
    pub fn maybe_send_auto_ping(&mut self, now: u64) -> (r: Option<Outgoing>)
        requires
            old(self).wf(),
            now >= old(self).clock,
        ensures
            final(self).wf(),
            final(self).clock >= old(self).clock,
            r is Some <==> auto_ping_due(*old(self), now),
            !auto_ping_due(*old(self), now) ==> *final(self) == *old(self),
            (r matches Some(c) ==> c@ matches OutgoingV::Ping { token: Option::Some(tk) }
                && is_auto_token(tk) && pend_time(final(self).pending_pings@, tk) == Option::Some(
                now,
            ) && (forall|t2: Seq<char>|
                t2 != tk ==> #[trigger] pend_time(final(self).pending_pings@, t2) == pend_time(
                    old(self).pending_pings@,
                    t2,
                )) && final(self).last_auto_ping_sent == Option::Some(now) && final(self).clock
                == now && *final(self) == (SessionState {
                pending_pings: final(self).pending_pings,
                last_auto_ping_sent: Option::Some(now),
                clock: now,
                ..*old(self)
            })),
    {
        if !self.connected || !self.has_sink {
            return None;
        }
        let due = match self.last_auto_ping_sent {
            Option::None => true,
            Option::Some(t) => now - t >= AUTO_PING_INTERVAL_MS,
        };
        if !due {
            return None;
        }
        let mut tokc = str_to_chars("auto-");
        let fresh = new_uuid_string();
        let freshc = str_to_chars(fresh.as_str());
        push_chars(&mut tokc, &freshc);
        proof {
            reveal_strlit("auto-");
            assert(tokc@.subrange(0, 5) =~= "auto-"@);
        }
        self.pending_insert(&tokc, now);
        self.last_auto_ping_sent = Some(now);
        self.clock = now;
        Some(Outgoing::Ping { token: Some(chars_to_string(&tokc)) })
    }

    /// The consumer pressed disconnect. With a sink in hand the session
    /// drops it — the caller sends the close request through it — clears the
    /// pending round-trips, resets the auto-ping marker, and notes the
    /// request in the history; without one, nothing changes.
    pub fn request_disconnect(&mut self) -> (r: bool)
        requires
            old(self).wf(),
        ensures
            final(self).wf(),
            r == old(self).has_sink,
            !old(self).has_sink ==> *final(self) == *old(self),
            old(self).has_sink ==> {
                &&& final(self).pending_pings@.len() == 0
                &&& final(self).last_auto_ping_sent is None
                &&& lines_view(final(self).messages@) == lines_view(old(self).messages@).push(
                    ChatLineV::System { text: "Disconnect requested"@, at: Option::None },
                )
                &&& *final(self) == (SessionState {
                    connected: false,
                    has_sink: false,
                    pending_pings: final(self).pending_pings,
                    last_auto_ping_sent: Option::None,
                    messages: final(self).messages,
                    ..*old(self)
                })
            },
    {
        if !self.has_sink {
            return false;
        }
        self.has_sink = false;
        self.connected = false;
        self.pending_pings = Vec::new();
        self.last_auto_ping_sent = None;
        let text = str_to_chars("Disconnect requested");
        self.messages.push(ChatLine::System { text: chars_to_string(&text), at: None });
        proof {
            assert(lines_view(final(self).messages@) =~= lines_view(old(self).messages@).push(
                ChatLineV::System { text: "Disconnect requested"@, at: Option::None },
            ));
        }
        true
    }

    /// Hands a command on when a sink is held; otherwise notes the failure
    /// in the history, as sending without a connection does.
    fn queue_command(&mut self, cmd: Outgoing) -> (r: Option<Outgoing>)
        ensures
            old(self).has_sink ==> r == Option::Some(cmd) && *final(self) == *old(self),
            !old(self).has_sink ==> r is None && lines_view(final(self).messages@) == lines_view(
                old(self).messages@,
            ).push(ChatLineV::Error("Not connected to server."@)) && *final(self) == (SessionState {
                messages: final(self).messages,
                ..*old(self)
            }),
    {
        if self.has_sink {
            Some(cmd)
        } else {
            let text = str_to_chars("Not connected to server.");
            self.messages.push(ChatLine::Error(chars_to_string(&text)));
            proof {
                assert(lines_view(final(self).messages@) =~= lines_view(old(self).messages@).push(
                    ChatLineV::Error("Not connected to server."@),
                ));
            }
            None
        }
    }
}

/// Law: automatic pings are spaced: once the scheduler has sent one at
/// `t1`, it declines at every instant short of a full interval later, so at
/// most one automatic ping is generated within any window of the interval's
/// length.
pub proof fn lemma_auto_ping_window(s: SessionState, t1: u64, t2: u64)
    requires
        s.last_auto_ping_sent == Option::Some(t1),
        t2 < t1 + AUTO_PING_INTERVAL_MS,
    ensures
        !auto_ping_due(s, t2),
{
}

/// Law: the latency sample window never exceeds its bound; eviction (the
/// contract of `record_latency_sample`) drops the oldest sample first.
pub proof fn lemma_latency_window_bound(s: SessionState)
    requires
        s.wf(),
    ensures
        s.latency_samples@.len() <= MAX_LATENCY_SAMPLES,
{
}


/// What one line of user input does to the session and what it sends: a
/// validation failure becomes an error line and reaches no network; a
/// command reaches the sink when one is held; a ping goes pending under its
/// token — the given one, or a fresh one — before it is sent; a prompt
/// notes that the helper is thinking.
pub open spec fn handle_input_post(
    pre: SessionState,
    post: SessionState,
    p: crate::protocol::ParsedInputV,
    r: Option<Outgoing>,
    now: u64,
) -> bool {
    match p {
        crate::protocol::ParsedInputV::Empty => post == pre && r is None,
        crate::protocol::ParsedInputV::Error(m) => r is None && lines_view(post.messages@)
            == lines_view(pre.messages@).push(ChatLineV::Error(m)) && post == (SessionState {
            messages: post.messages,
            ..pre
        }),
        crate::protocol::ParsedInputV::Chat(txt) => queued_post(
            pre,
            post,
            OutgoingV::Chat { text: txt },
            r,
        ),
        crate::protocol::ParsedInputV::SetName(n) => queued_post(
            (SessionState { preferred_username: post.preferred_username, ..pre }),
            post,
            OutgoingV::SetName { name: n },
            r,
        ) && post.preferred_username@ == n,
        crate::protocol::ParsedInputV::Status => queued_post(pre, post, OutgoingV::Status, r),
        crate::protocol::ParsedInputV::ListUsers => queued_post(pre, post, OutgoingV::ListUsers, r),
        crate::protocol::ParsedInputV::Ping(given) => exists|tk: Seq<char>|
            {
                &&& (match given {
                    Option::Some(a) => tk == a,
                    Option::None => tk.len() == 36,
                })
                &&& pend_time(post.pending_pings@, tk) == Option::Some(now)
                &&& (forall|t2: Seq<char>|
                    t2 != tk ==> #[trigger] pend_time(post.pending_pings@, t2) == pend_time(
                        pre.pending_pings@,
                        t2,
                    ))
                &&& queued_post(
                    (SessionState { pending_pings: post.pending_pings, clock: now, ..pre }),
                    post,
                    OutgoingV::Ping { token: Option::Some(tk) },
                    r,
                )
            },
        crate::protocol::ParsedInputV::Ai(prompt) => {
            &&& (if pre.has_sink {
                r matches Some(c) && c@ == (OutgoingV::Ai { prompt: prompt })
            } else {
                r is None
            })
            &&& lines_view(post.messages@) == lines_view(pre.messages@).push(
                ChatLineV::System { text: "AI is thinking..."@, at: Option::None },
            ).add(
                if pre.has_sink {
                    Seq::empty()
                } else {
                    seq![ChatLineV::Error("Not connected to server."@)]
                },
            )
            &&& post == (SessionState { messages: post.messages, ..pre })
        },
    }
}

/// What handing a command to the sink leaves behind: with a sink, the
/// command goes out unchanged; without one, an error line instead.
pub open spec fn queued_post(
    pre: SessionState,
    post: SessionState,
    cmd: OutgoingV,
    r: Option<Outgoing>,
) -> bool {
    if pre.has_sink {
        (r matches Some(c) && c@ == cmd) && post == pre
    } else {
        r is None && lines_view(post.messages@) == lines_view(pre.messages@).push(
            ChatLineV::Error("Not connected to server."@),
        ) && post == (SessionState { messages: post.messages, ..pre })
    }
}

impl SessionState {
    /// Reads one line of user input and acts on it, answering the command
    /// to transmit, if any.
    pub fn handle_input(&mut self, input: &str, now: u64) -> (r: Option<Outgoing>)
        requires
            old(self).wf(),
            now >= old(self).clock,
        ensures
            final(self).wf(),
            final(self).clock >= old(self).clock,
            handle_input_post(
                *old(self),
                *final(self),
                crate::protocol::parse_input_spec(input@),
                r,
                now,
            ),
    {
        match crate::protocol::parse_user_input(input) {
            crate::protocol::ParsedInput::Empty => None,
            crate::protocol::ParsedInput::Error(m) => {
                let ghost mv = m@;
                self.messages.push(ChatLine::Error(m));
                proof {
                    assert(lines_view(final(self).messages@) =~= lines_view(
                        old(self).messages@,
                    ).push(ChatLineV::Error(mv)));
                }
                None
            },
            crate::protocol::ParsedInput::Chat(txt) => self.queue_command(
                Outgoing::Chat { text: txt },
            ),
            crate::protocol::ParsedInput::SetName(n) => {
                self.preferred_username = n.clone();
                self.queue_command(Outgoing::SetName { name: n })
            },
            crate::protocol::ParsedInput::Status => self.queue_command(Outgoing::Status),
            crate::protocol::ParsedInput::ListUsers => self.queue_command(Outgoing::ListUsers),
            crate::protocol::ParsedInput::Ping(given) => {
                let tokc = match given {
                    Option::Some(a) => str_to_chars(a.as_str()),
                    Option::None => str_to_chars(new_uuid_string().as_str()),
                };
                self.pending_insert(&tokc, now);
                self.clock = now;
                let r = self.queue_command(
                    Outgoing::Ping { token: Some(chars_to_string(&tokc)) },
                );
                proof {
                    let tk = tokc@;
                    assert((match crate::protocol::parse_input_spec(input@) {
                        crate::protocol::ParsedInputV::Ping(g) => match g {
                            Option::Some(a) => tk == a,
                            Option::None => tk.len() == 36,
                        },
                        _ => false,
                    }));
                }
                r
            },
            crate::protocol::ParsedInput::Ai(prompt) => {
                let text = str_to_chars("AI is thinking...");
                self.messages.push(
                    ChatLine::System { text: chars_to_string(&text), at: None },
                );
                proof {
                    assert(lines_view(self.messages@) =~= lines_view(old(self).messages@).push(
                        ChatLineV::System { text: "AI is thinking..."@, at: Option::None },
                    ));
                }
                let r = self.queue_command(Outgoing::Ai { prompt });
                proof {
                    if old(self).has_sink {
                        assert(lines_view(final(self).messages@) =~= lines_view(
                            old(self).messages@,
                        ).push(
                            ChatLineV::System { text: "AI is thinking..."@, at: Option::None },
                        ).add(Seq::empty()));
                    } else {
                        assert(lines_view(final(self).messages@) =~= lines_view(
                            old(self).messages@,
                        ).push(
                            ChatLineV::System { text: "AI is thinking..."@, at: Option::None },
                        ).add(seq![ChatLineV::Error("Not connected to server."@)]));
                    }
                }
                r
            },
        }
    }
}


// ---------------------------------------------------------------------------
// Consuming worker events
// ---------------------------------------------------------------------------
pub open spec fn rawlines_view(s: Seq<RawLine>) -> Seq<RawLineV> {
    Seq::new(s.len(), |k: int| s[k]@)
}

/// Whether a raw line is tagged with the given three-character direction tag.
pub open spec fn has_tag(line: Seq<char>, tag: Seq<char>) -> bool {
    line.len() >= 3 && line.subrange(0, 3) == tag
}

/// The first eight characters of a token, or all of a shorter one.
pub open spec fn token_head(tk: Seq<char>) -> Seq<char> {
    if tk.len() < 8 {
        tk
    } else {
        tk.subrange(0, 8)
    }
}

/// The parenthesized token note a visible pong line carries.
pub open spec fn token_tail(tk: Seq<char>) -> Seq<char> {
    " (token: "@ + token_head(tk) + "...)"@
}

/// The visible line for a resolved manual round-trip.
pub open spec fn pong_text(rtt_ms: u64, tk: Seq<char>) -> Seq<char> {
    "Pong! roundtrip: "@ + crate::text::dec_seq(rtt_ms as nat) + "ms"@ + token_tail(tk)
}

/// The status card's rows, in order: the fixed rows, with the optional ones
/// present exactly when the server sent their fields.
pub open spec fn status_rows_spec(
    version: Seq<char>,
    rust_version: Option<Seq<char>>,
    os: Option<Seq<char>>,
    cpu_cores: Option<u64>,
    uptime_seconds: u64,
    user_count: u64,
    peak_users: Option<u64>,
    connections_total: Option<u64>,
    messages_sent: u64,
    messages_per_second: Seq<char>,
    memory_mb: Seq<char>,
    ai_enabled: Option<bool>,
    ai_model: Option<Seq<char>>,
) -> Seq<(Seq<char>, Seq<char>)> {
    seq![("Version"@, version), ("Uptime"@, crate::protocol::uptime_spec(uptime_seconds))] + (
    match os {
        Option::Some(o) => seq![
            (
                "Platform"@,
                match cpu_cores {
                    Option::Some(c) => o + " ("@ + crate::text::dec_seq(c as nat) + " cores)"@,
                    Option::None => o,
                },
            ),
        ],
        Option::None => Seq::empty(),
    }) + (match rust_version {
        Option::Some(rv) => seq![("Rust"@, rv)],
        Option::None => Seq::empty(),
    }) + seq![
        (
            "Users"@,
            match peak_users {
                Option::Some(p) => crate::text::dec_seq(user_count as nat) + " (peak: "@
                    + crate::text::dec_seq(p as nat) + ")"@,
                Option::None => crate::text::dec_seq(user_count as nat),
            },
        ),
    ] + (match connections_total {
        Option::Some(n) => seq![("Connections"@, crate::text::dec_seq(n as nat))],
        Option::None => Seq::empty(),
    }) + seq![
        ("Messages"@, crate::text::dec_seq(messages_sent as nat)),
        ("Throughput"@, messages_per_second + " msg/s"@),
        ("Memory"@, memory_mb + " MB"@),
    ] + (match ai_enabled {
        Option::Some(en) => seq![
            (
                "AI"@,
                if en {
                    match ai_model {
                        Option::Some(m) => m,
                        Option::None => "enabled"@,
                    }
                } else {
                    "disabled"@
                },
            ),
        ],
        Option::None => Seq::empty(),
    })
}

/// The stats note under a helper reply.
pub open spec fn ai_stats_spec(
    response_ms: u64,
    tokens: Option<u32>,
    cost: Option<Seq<char>>,
) -> Seq<char> {
    crate::text::dec_seq(response_ms as nat) + "ms"@ + (match tokens {
        Option::Some(tn) => " | "@ + crate::text::dec_seq(tn as nat) + " tokens"@,
        Option::None => Seq::empty(),
    }) + (match cost {
        Option::Some(c) => " | $"@ + c,
        Option::None => Seq::empty(),
    })
}

/// Readiness: counters move, identity is re-asserted when a non-guest
/// preference stands, the auto-ping marker starts at `now`, and the notice
/// line lands last.
pub open spec fn connected_post(
    pre: SessionState,
    post: SessionState,
    r: Option<Outgoing>,
    now: u64,
) -> bool {
    let wants = crate::protocol::trim_spec(pre.preferred_username@).len() > 0
        && !crate::protocol::is_guest_name_spec(pre.preferred_username@);
    &&& (if wants && pre.has_sink {
        r matches Some(c) && c@ == (OutgoingV::SetName { name: pre.preferred_username@ })
    } else {
        r is None
    })
    &&& lines_view(post.messages@) == lines_view(pre.messages@).add(
        if wants && !pre.has_sink {
            seq![ChatLineV::Error("Not connected to server."@)]
        } else {
            Seq::empty()
        },
    ).push(ChatLineV::System { text: "Connected!"@, at: Option::None })
    &&& post.metrics == (Metrics {
        reconnects: if pre.metrics.connect_count > 0 {
            bump(pre.metrics.reconnects)
        } else {
            pre.metrics.reconnects
        },
        connect_count: bump(pre.metrics.connect_count),
        last_connected_at: Option::Some(now),
        ..pre.metrics
    })
    &&& post == (SessionState {
        connected: true,
        last_auto_ping_sent: Option::Some(now),
        clock: now,
        messages: post.messages,
        metrics: post.metrics,
        ..pre
    })
}

/// The one `Disconnected`: connection-dependent state resets exactly once —
/// pending round-trips cannot resolve against a dead connection and are
/// dropped, and the auto-ping marker clears so the scheduler restarts
/// cleanly on the next connection.
pub open spec fn disconnected_post(
    pre: SessionState,
    post: SessionState,
    reason: Option<Seq<char>>,
    now: u64,
) -> bool {
    &&& lines_view(post.messages@) == lines_view(pre.messages@).add(
        match reason {
            Option::Some(m) => seq![ChatLineV::Error(m)],
            Option::None => Seq::empty(),
        },
    ).push(ChatLineV::System { text: "Disconnected"@, at: Option::None })
    &&& post.pending_pings@.len() == 0
    &&& post == (SessionState {
        connected: false,
        has_sink: false,
        pending_pings: post.pending_pings,
        last_auto_ping_sent: Option::None,
        messages: post.messages,
        clock: now,
        ..pre
    })
}

/// A warning or error event: noted in the errors-per-minute window and
/// shown as a line.
pub open spec fn noted_error_post(
    pre: SessionState,
    post: SessionState,
    text: Seq<char>,
    now: u64,
) -> bool {
    &&& post.metrics.error_timestamps@ == prune_spec(
        pre.metrics.error_timestamps@.push(now),
        now,
    )
    &&& post.metrics == (Metrics {
        error_timestamps: post.metrics.error_timestamps,
        ..pre.metrics
    })
    &&& lines_view(post.messages@) == lines_view(pre.messages@).push(ChatLineV::Error(text))
    &&& post == (SessionState {
        metrics: post.metrics,
        messages: post.messages,
        clock: now,
        ..pre
    })
}

/// A raw frame: it joins the bounded inspector history — oldest out first,
/// the selection index following — and bumps the matching frame counter.
pub open spec fn raw_post(pre: SessionState, post: SessionState, line: Seq<char>, now: u64) -> bool {
    let entry = RawLineV { line: line, payload: raw_payload_spec(line) };
    &&& (pre.raw_messages@.len() < MAX_RAW_MESSAGES ==> rawlines_view(post.raw_messages@)
        == rawlines_view(pre.raw_messages@).push(entry) && post.selected_raw_index
        == pre.selected_raw_index)
    &&& (pre.raw_messages@.len() >= MAX_RAW_MESSAGES ==> rawlines_view(post.raw_messages@)
        == rawlines_view(pre.raw_messages@).drop_first().push(entry) && post.selected_raw_index
        == (match pre.selected_raw_index {
        Option::None => Option::None::<usize>,
        Option::Some(s) => if s == 0 {
            Option::None
        } else {
            Option::Some((s - 1) as usize)
        },
    }))
    &&& post.metrics == (Metrics {
        ws_out_frames: if has_tag(line, ">> "@) {
            bump(pre.metrics.ws_out_frames)
        } else {
            pre.metrics.ws_out_frames
        },
        ws_in_frames: if !has_tag(line, ">> "@) && has_tag(line, "<< "@) {
            bump(pre.metrics.ws_in_frames)
        } else {
            pre.metrics.ws_in_frames
        },
        ..pre.metrics
    })
    &&& post == (SessionState {
        raw_messages: post.raw_messages,
        selected_raw_index: post.selected_raw_index,
        metrics: post.metrics,
        clock: now,
        ..pre
    })
}

/// A pong: the token's pending entry — if any — resolves and leaves the
/// map; a resolved automatic ping feeds the latency window silently, a
/// manual one surfaces a visible round-trip line, and an unknown token
/// harms nothing. The elapsed time is never negative: pending instants
/// never run ahead of the clock.
pub open spec fn pong_post(
    pre: SessionState,
    post: SessionState,
    token: Option<Seq<char>>,
    at: Option<u64>,
    now: u64,
) -> bool {
    match token {
        Option::None => {
            &&& lines_view(post.messages@) == lines_view(pre.messages@).push(
                ChatLineV::Status { text: "Pong!"@, at: at },
            )
            &&& post == (SessionState { messages: post.messages, clock: now, ..pre })
        },
        Option::Some(tk) => {
            let found = pend_time(pre.pending_pings@, tk);
            let auto = is_auto_token(tk);
            &&& pend_time(post.pending_pings@, tk) is None
            &&& (forall|t2: Seq<char>|
                t2 != tk ==> #[trigger] pend_time(post.pending_pings@, t2) == pend_time(
                    pre.pending_pings@,
                    t2,
                ))
            &&& (match found {
                Option::Some(t0) => if auto {
                    &&& (pre.latency_samples@.len() < MAX_LATENCY_SAMPLES
                        ==> post.latency_samples@ == pre.latency_samples@.push(
                        (now - t0) as u64,
                    ))
                    &&& (pre.latency_samples@.len() == MAX_LATENCY_SAMPLES
                        ==> post.latency_samples@ == pre.latency_samples@.drop_first().push(
                        (now - t0) as u64,
                    ))
                    &&& post.messages == pre.messages
                } else {
                    &&& post.latency_samples == pre.latency_samples
                    &&& lines_view(post.messages@) == lines_view(pre.messages@).push(
                        ChatLineV::Status { text: pong_text((now - t0) as u64, tk), at: at },
                    )
                },
                Option::None => {
                    &&& post.latency_samples == pre.latency_samples
                    &&& (if auto {
                        post.messages == pre.messages
                    } else {
                        lines_view(post.messages@) == lines_view(pre.messages@).push(
                            ChatLineV::Status { text: "Pong!"@ + token_tail(tk), at: at },
                        )
                    })
                },
            })
            &&& post == (SessionState {
                pending_pings: post.pending_pings,
                latency_samples: post.latency_samples,
                messages: post.messages,
                clock: now,
                ..pre
            })
        },
    }
}

/// What each typed inbound event does to the view-model.
pub open spec fn incoming_post(
    pre: SessionState,
    post: SessionState,
    e: IncomingV,
    now: u64,
) -> bool {
    match e {
        IncomingV::Chat { from, text, at } => {
            &&& lines_view(post.messages@) == lines_view(pre.messages@).push(
                ChatLineV::Chat { from: from, text: text, at: at },
            )
            &&& post == (SessionState { messages: post.messages, clock: now, ..pre })
        },
        IncomingV::System { text, at } => {
            &&& lines_view(post.messages@) == lines_view(pre.messages@).push(
                ChatLineV::System { text: text, at: at },
            )
            &&& post == (SessionState { messages: post.messages, clock: now, ..pre })
        },
        IncomingV::AckName { name, at } => {
            &&& post.username@ == name
            &&& lines_view(post.messages@) == lines_view(pre.messages@).push(
                ChatLineV::System { text: "Your name is now: "@ + name, at: at },
            )
            &&& post == (SessionState {
                username: post.username,
                messages: post.messages,
                clock: now,
                ..pre
            })
        },
        IncomingV::Status {
            version,
            rust_version,
            os,
            cpu_cores,
            uptime_seconds,
            user_count,
            peak_users,
            connections_total,
            messages_sent,
            messages_per_second,
            memory_mb,
            ai_enabled,
            ai_model,
            at,
        } => {
            &&& lines_view(post.messages@) == lines_view(pre.messages@).push(
                ChatLineV::StatusCard {
                    at: at,
                    rows: status_rows_spec(
                        version,
                        rust_version,
                        os,
                        cpu_cores,
                        uptime_seconds,
                        user_count,
                        peak_users,
                        connections_total,
                        messages_sent,
                        messages_per_second,
                        memory_mb,
                        ai_enabled,
                        ai_model,
                    ),
                },
            )
            &&& post == (SessionState { messages: post.messages, clock: now, ..pre })
        },
        IncomingV::ListUsers { users, at } => {
            &&& lines_view(post.messages@) == lines_view(pre.messages@).push(
                ChatLineV::UsersCard {
                    at: at,
                    users: Seq::new(users.len(), |k: int| (users[k].name, users[k].ip, users[k].id)),
                },
            )
            &&& post == (SessionState { messages: post.messages, clock: now, ..pre })
        },
        IncomingV::Error { message, at } => {
            &&& lines_view(post.messages@) == lines_view(pre.messages@).push(
                ChatLineV::Error(crate::protocol::at_prefix_spec(at) + message),
            )
            &&& post == (SessionState { messages: post.messages, clock: now, ..pre })
        },
        IncomingV::Pong { token, at } => pong_post(pre, post, token, at, now),
        IncomingV::Ai { from, prompt, response, response_ms, tokens, cost, at } => {
            &&& lines_view(post.messages@) == lines_view(pre.messages@).push(
                ChatLineV::Ai {
                    from: from,
                    prompt: prompt,
                    response: response,
                    stats: ai_stats_spec(response_ms, tokens, cost),
                    at: at,
                },
            )
            &&& post == (SessionState { messages: post.messages, clock: now, ..pre })
        },
    }
}

/// What one worker event does to the session, and what it sends back.
pub open spec fn process_event_post(
    pre: SessionState,
    post: SessionState,
    ev: UiEventV,
    r: Option<Outgoing>,
    now: u64,
) -> bool {
    match ev {
        UiEventV::Connected => connected_post(pre, post, r, now),
        UiEventV::Disconnected(reason) => disconnected_post(pre, post, reason, now) && r is None,
        UiEventV::Warning(text) => noted_error_post(pre, post, text, now) && r is None,
        UiEventV::Error(text) => noted_error_post(pre, post, text, now) && r is None,
        UiEventV::Incoming(e) => incoming_post(pre, post, e, now) && r is None,
        UiEventV::Raw(line) => raw_post(pre, post, line, now) && r is None,
        UiEventV::Security(info) => r is None && (match post.security_info {
            Option::Some(i) => i@ == info,
            Option::None => false,
        }) && post == (SessionState { security_info: post.security_info, clock: now, ..pre }),
    }
}


fn lit(s: &str) -> (r: String)
    ensures
        r@ == s@,
{
    let v = str_to_chars(s);
    chars_to_string(&v)
}

proof fn lemma_pend_time_bound(s: Seq<(String, u64)>, tk: Seq<char>, b: u64)
    requires
        forall|k: int| 0 <= k < s.len() ==> (#[trigger] s[k]).1 <= b,
        pend_time(s, tk) is Some,
    ensures
        pend_time(s, tk)->0 <= b,
    decreases s.len(),
{
    if s.len() > 0 && s[0].0@ != tk {
        assert forall|k: int| 0 <= k < s.drop_first().len() implies (#[trigger] s.drop_first()[k]).1
            <= b by {
            assert(s.drop_first()[k] == s[k + 1]);
        }
        lemma_pend_time_bound(s.drop_first(), tk, b);
    }
}

/// Builds the status card's rows.
#[verifier::rlimit(100)]
fn build_status_rows(
    version: String,
    rust_version: Option<String>,
    os: Option<String>,
    cpu_cores: Option<u64>,
    uptime_seconds: u64,
    user_count: u64,
    peak_users: Option<u64>,
    connections_total: Option<u64>,
    messages_sent: u64,
    messages_per_second: String,
    memory_mb: String,
    ai_enabled: Option<bool>,
    ai_model: Option<String>,
) -> (r: Vec<(String, String)>)
    ensures
        pairs_view(r@) == status_rows_spec(
            version@,
            opt_str_view(rust_version),
            opt_str_view(os),
            cpu_cores,
            uptime_seconds,
            user_count,
            peak_users,
            connections_total,
            messages_sent,
            messages_per_second@,
            memory_mb@,
            ai_enabled,
            opt_str_view(ai_model),
        ),
{
    let ghost spec_rows = status_rows_spec(
        version@,
        opt_str_view(rust_version),
        opt_str_view(os),
        cpu_cores,
        uptime_seconds,
        user_count,
        peak_users,
        connections_total,
        messages_sent,
        messages_per_second@,
        memory_mb@,
        ai_enabled,
        opt_str_view(ai_model),
    );
    let mut rows: Vec<(String, String)> = Vec::new();
    rows.push((lit("Version"), version));
    rows.push((lit("Uptime"), crate::protocol::format_uptime(uptime_seconds)));
    match os {
        Option::Some(o) => {
            let value = match cpu_cores {
                Option::Some(c) => {
                    let mut vc = str_to_chars(o.as_str());
                    push_str_chars(&mut vc, " (");
                    push_u64_dec(&mut vc, c);
                    push_str_chars(&mut vc, " cores)");
                    chars_to_string(&vc)
                },
                Option::None => o,
            };
            rows.push((lit("Platform"), value));
        },
        Option::None => {},
    }
    match rust_version {
        Option::Some(rv) => {
            rows.push((lit("Rust"), rv));
        },
        Option::None => {},
    }
    let users_value = match peak_users {
        Option::Some(p) => {
            let mut vc: Vec<char> = Vec::new();
            push_u64_dec(&mut vc, user_count);
            push_str_chars(&mut vc, " (peak: ");
            push_u64_dec(&mut vc, p);
            push_str_chars(&mut vc, ")");
            chars_to_string(&vc)
        },
        Option::None => {
            let mut vc: Vec<char> = Vec::new();
            push_u64_dec(&mut vc, user_count);
            chars_to_string(&vc)
        },
    };
    rows.push((lit("Users"), users_value));
    match connections_total {
        Option::Some(n) => {
            let mut vc: Vec<char> = Vec::new();
            push_u64_dec(&mut vc, n);
            rows.push((lit("Connections"), chars_to_string(&vc)));
        },
        Option::None => {},
    }
    let mut mc: Vec<char> = Vec::new();
    push_u64_dec(&mut mc, messages_sent);
    rows.push((lit("Messages"), chars_to_string(&mc)));
    let mut tc = str_to_chars(messages_per_second.as_str());
    push_str_chars(&mut tc, " msg/s");
    rows.push((lit("Throughput"), chars_to_string(&tc)));
    let mut memc = str_to_chars(memory_mb.as_str());
    push_str_chars(&mut memc, " MB");
    rows.push((lit("Memory"), chars_to_string(&memc)));
    match ai_enabled {
        Option::Some(en) => {
            let value = if en {
                match ai_model {
                    Option::Some(m) => m,
                    Option::None => lit("enabled"),
                }
            } else {
                lit("disabled")
            };
            rows.push((lit("AI"), value));
        },
        Option::None => {},
    }
    proof {
        assert(pairs_view(rows@) =~= spec_rows);
    }
    rows
}

/// The identity triples of a user list, in display order.
fn users_triples(users: &Vec<UserInfo>) -> (r: Vec<(String, String, String)>)
    ensures
        triples_view(r@) == Seq::new(
            users@.len(),
            |k: int| (users@[k].name@, users@[k].ip@, users@[k].id@),
        ),
{
    let n = users.len();
    let mut out: Vec<(String, String, String)> = Vec::new();
    let mut k: usize = 0;
    while k < n
        invariant
            k <= n,
            n == users@.len(),
            out@.len() == k,
            forall|m: int|
                0 <= m < k ==> #[trigger] out@[m].0@ == users@[m].name@ && out@[m].1@
                    == users@[m].ip@ && out@[m].2@ == users@[m].id@,
        decreases n - k,
    {
        let u = &users[k];
        out.push((u.name.clone(), u.ip.clone(), u.id.clone()));
        k = k + 1;
    }
    proof {
        assert(triples_view(out@) =~= Seq::new(
            users@.len(),
            |k2: int| (users@[k2].name@, users@[k2].ip@, users@[k2].id@),
        ));
    }
    out
}

impl SessionState {
    /// Adds one raw frame to the bounded inspector history; when full the
    /// oldest leaves first and the selection index follows it.
    fn record_raw_line(&mut self, line: String)
        requires
            old(self).raw_messages@.len() <= MAX_RAW_MESSAGES,
        ensures
            final(self).raw_messages@.len() <= MAX_RAW_MESSAGES,
            (old(self).raw_messages@.len() < MAX_RAW_MESSAGES ==> rawlines_view(
                final(self).raw_messages@,
            ) == rawlines_view(old(self).raw_messages@).push(
                RawLineV { line: line@, payload: raw_payload_spec(line@) },
            ) && final(self).selected_raw_index == old(self).selected_raw_index),
            (old(self).raw_messages@.len() >= MAX_RAW_MESSAGES ==> rawlines_view(
                final(self).raw_messages@,
            ) == rawlines_view(old(self).raw_messages@).drop_first().push(
                RawLineV { line: line@, payload: raw_payload_spec(line@) },
            ) && final(self).selected_raw_index == (match old(self).selected_raw_index {
                Option::None => Option::None::<usize>,
                Option::Some(s) => if s == 0 {
                    Option::None
                } else {
                    Option::Some((s - 1) as usize)
                },
            })),
            *final(self) == (SessionState {
                raw_messages: final(self).raw_messages,
                selected_raw_index: final(self).selected_raw_index,
                ..*old(self)
            }),
    {
        let lc = str_to_chars(line.as_str());
        let tagged_out = {
            let head = if lc.len() >= 3 {
                crate::json::vec_slice(&lc, 0, 3)
            } else {
                Vec::new()
            };
            lc.len() >= 3 && crate::protocol::chars_eq(&head, &str_to_chars(">> "))
        };
        let tagged_in = {
            let head = if lc.len() >= 3 {
                crate::json::vec_slice(&lc, 0, 3)
            } else {
                Vec::new()
            };
            lc.len() >= 3 && crate::protocol::chars_eq(&head, &str_to_chars("<< "))
        };
        let payload = if tagged_out || tagged_in {
            crate::json::vec_slice(&lc, 3, lc.len())
        } else {
            let mut whole: Vec<char> = Vec::new();
            push_chars(&mut whole, &lc);
            proof {
                assert(whole@ =~= line@);
            }
            whole
        };
        let entry = RawLine { line, payload: chars_to_string(&payload) };
        let ghost entry_v = entry@;
        self.raw_messages.push(entry);
        if self.raw_messages.len() > MAX_RAW_MESSAGES {
            let _ = self.raw_messages.remove(0);
            proof {
                assert(rawlines_view(self.raw_messages@) =~= rawlines_view(
                    old(self).raw_messages@,
                ).drop_first().push(entry_v));
            }
            match self.selected_raw_index {
                Option::Some(s) => {
                    if s == 0 {
                        self.selected_raw_index = None;
                    } else {
                        self.selected_raw_index = Some(s - 1);
                    }
                },
                Option::None => {},
            }
        } else {
            proof {
                assert(rawlines_view(self.raw_messages@) =~= rawlines_view(
                    old(self).raw_messages@,
                ).push(entry_v));
            }
        }
    }

    /// Consumes one worker event, in arrival order, and answers the command
    /// to transmit, if the event calls for one.
    pub fn process_event(&mut self, event: UiEvent, now: u64) -> (r: Option<Outgoing>)
        requires
            old(self).wf(),
            now >= old(self).clock,
        ensures
            final(self).wf(),
            final(self).clock >= old(self).clock,
            process_event_post(*old(self), *final(self), event@, r, now),
    {
        match event {
            UiEvent::Connected => {
                if self.metrics.connect_count > 0 {
                    self.metrics.reconnects = bump_exec(self.metrics.reconnects);
                }
                self.metrics.connect_count = bump_exec(self.metrics.connect_count);
                self.metrics.last_connected_at = Some(now);
                self.connected = true;
                self.last_auto_ping_sent = Some(now);
                self.clock = now;
                let pc = str_to_chars(self.preferred_username.as_str());
                let trimmed = crate::protocol::trim_chars(&pc);
                let wants = trimmed.len() > 0 && !crate::protocol::is_guest_name(
                    self.preferred_username.as_str(),
                );
                let r = if wants {
                    self.queue_command(Outgoing::SetName { name: self.preferred_username.clone() })
                } else {
                    None
                };
                let text = str_to_chars("Connected!");
                self.messages.push(ChatLine::System { text: chars_to_string(&text), at: None });
                proof {
                    if wants && !old(self).has_sink {
                        assert(lines_view(final(self).messages@) =~= lines_view(
                            old(self).messages@,
                        ).add(seq![ChatLineV::Error("Not connected to server."@)]).push(
                            ChatLineV::System { text: "Connected!"@, at: Option::None },
                        ));
                    } else {
                        assert(lines_view(final(self).messages@) =~= lines_view(
                            old(self).messages@,
                        ).add(Seq::empty()).push(
                            ChatLineV::System { text: "Connected!"@, at: Option::None },
                        ));
                    }
                }
                r
            },
            UiEvent::Disconnected(reason) => {
                self.connected = false;
                self.has_sink = false;
                self.pending_pings = Vec::new();
                self.last_auto_ping_sent = None;
                self.clock = now;
                let ghost had_reason = reason is Some;
                match reason {
                    Option::Some(m) => {
                        let ghost mv = m@;
                        self.messages.push(ChatLine::Error(m));
                        proof {
                            assert(lines_view(self.messages@) =~= lines_view(
                                old(self).messages@,
                            ).push(ChatLineV::Error(mv)));
                        }
                    },
                    Option::None => {},
                }
                let text = str_to_chars("Disconnected");
                self.messages.push(ChatLine::System { text: chars_to_string(&text), at: None });
                proof {
                    if had_reason {
                        assert(lines_view(final(self).messages@) =~= lines_view(
                            old(self).messages@,
                        ).add(
                            match opt_str_view(reason) {
                                Option::Some(m) => seq![ChatLineV::Error(m)],
                                Option::None => Seq::empty(),
                            },
                        ).push(ChatLineV::System { text: "Disconnected"@, at: Option::None }));
                    } else {
                        assert(lines_view(final(self).messages@) =~= lines_view(
                            old(self).messages@,
                        ).add(Seq::empty()).push(
                            ChatLineV::System { text: "Disconnected"@, at: Option::None },
                        ));
                    }
                }
                None
            },
            UiEvent::Warning(text) => {
                self.record_error_event(now);
                let ghost tv = text@;
                self.messages.push(ChatLine::Error(text));
                proof {
                    assert(lines_view(final(self).messages@) =~= lines_view(
                        old(self).messages@,
                    ).push(ChatLineV::Error(tv)));
                }
                None
            },
            UiEvent::Error(text) => {
                self.record_error_event(now);
                let ghost tv = text@;
                self.messages.push(ChatLine::Error(text));
                proof {
                    assert(lines_view(final(self).messages@) =~= lines_view(
                        old(self).messages@,
                    ).push(ChatLineV::Error(tv)));
                }
                None
            },
            UiEvent::Raw(line) => {
                let ghost lv = line@;
                let lc = str_to_chars(line.as_str());
                let out_tag = {
                    let head = if lc.len() >= 3 {
                        crate::json::vec_slice(&lc, 0, 3)
                    } else {
                        Vec::new()
                    };
                    lc.len() >= 3 && crate::protocol::chars_eq(&head, &str_to_chars(">> "))
                };
                let in_tag = {
                    let head = if lc.len() >= 3 {
                        crate::json::vec_slice(&lc, 0, 3)
                    } else {
                        Vec::new()
                    };
                    lc.len() >= 3 && crate::protocol::chars_eq(&head, &str_to_chars("<< "))
                };
                self.record_raw_line(line);
                if out_tag {
                    self.metrics.ws_out_frames = bump_exec(self.metrics.ws_out_frames);
                } else if in_tag {
                    self.metrics.ws_in_frames = bump_exec(self.metrics.ws_in_frames);
                }
                self.clock = now;
                None
            },
            UiEvent::Security(info) => {
                self.security_info = Some(info);
                self.clock = now;
                None
            },
            UiEvent::Incoming(e) => {
                self.on_incoming(e, now);
                None
            },
        }
    }
}


impl SessionState {
    /// Applies one typed inbound event to the view-model.
    fn on_incoming(&mut self, e: Incoming, now: u64)
        requires
            old(self).wf(),
            now >= old(self).clock,
        ensures
            final(self).wf(),
            final(self).clock >= old(self).clock,
            incoming_post(*old(self), *final(self), e@, now),
    {
        match e {
            Incoming::Chat { from, text, at } => {
                let ghost fv = from@;
                let ghost tv = text@;
                self.messages.push(ChatLine::Chat { from, text, at });
                self.clock = now;
                proof {
                    assert(lines_view(final(self).messages@) =~= lines_view(
                        old(self).messages@,
                    ).push(ChatLineV::Chat { from: fv, text: tv, at: at }));
                }
            },
            Incoming::System { text, at } => {
                let ghost tv = text@;
                self.messages.push(ChatLine::System { text, at });
                self.clock = now;
                proof {
                    assert(lines_view(final(self).messages@) =~= lines_view(
                        old(self).messages@,
                    ).push(ChatLineV::System { text: tv, at: at }));
                }
            },
            Incoming::AckName { name, at } => {
                let ghost nv = name@;
                self.username = name.clone();
                let mut line = str_to_chars("Your name is now: ");
                let nc = str_to_chars(name.as_str());
                push_chars(&mut line, &nc);
                self.messages.push(ChatLine::System { text: chars_to_string(&line), at });
                self.clock = now;
                proof {
                    assert(lines_view(final(self).messages@) =~= lines_view(
                        old(self).messages@,
                    ).push(ChatLineV::System { text: "Your name is now: "@ + nv, at: at }));
                }
            },
            Incoming::Status {
                version,
                rust_version,
                os,
                cpu_cores,
                uptime_seconds,
                user_count,
                peak_users,
                connections_total,
                messages_sent,
                messages_per_second,
                memory_mb,
                ai_enabled,
                ai_model,
                at,
            } => {
                let ghost rows_v = status_rows_spec(
                    version@,
                    opt_str_view(rust_version),
                    opt_str_view(os),
                    cpu_cores,
                    uptime_seconds,
                    user_count,
                    peak_users,
                    connections_total,
                    messages_sent,
                    messages_per_second@,
                    memory_mb@,
                    ai_enabled,
                    opt_str_view(ai_model),
                );
                let rows = build_status_rows(
                    version,
                    rust_version,
                    os,
                    cpu_cores,
                    uptime_seconds,
                    user_count,
                    peak_users,
                    connections_total,
                    messages_sent,
                    messages_per_second,
                    memory_mb,
                    ai_enabled,
                    ai_model,
                );
                self.messages.push(ChatLine::StatusCard { at, rows });
                self.clock = now;
                proof {
                    assert(lines_view(final(self).messages@) =~= lines_view(
                        old(self).messages@,
                    ).push(ChatLineV::StatusCard { at: at, rows: rows_v }));
                }
            },
            Incoming::ListUsers { users, at } => {
                let mapped = users_triples(&users);
                let ghost uv = users_view(users@);
                self.messages.push(ChatLine::UsersCard { at, users: mapped });
                self.clock = now;
                proof {
                    assert(Seq::new(
                        users@.len(),
                        |k: int| (users@[k].name@, users@[k].ip@, users@[k].id@),
                    ) =~= Seq::new(uv.len(), |k: int| (uv[k].name, uv[k].ip, uv[k].id)));
                    assert(lines_view(final(self).messages@) =~= lines_view(
                        old(self).messages@,
                    ).push(
                        ChatLineV::UsersCard {
                            at: at,
                            users: Seq::new(uv.len(), |k: int| (uv[k].name, uv[k].ip, uv[k].id)),
                        },
                    ));
                }
            },
            Incoming::Error { message, at } => {
                let prefix = crate::protocol::format_at_prefix(at);
                let ghost mv = message@;
                let mut line = str_to_chars(prefix.as_str());
                let mc = str_to_chars(message.as_str());
                push_chars(&mut line, &mc);
                self.messages.push(ChatLine::Error(chars_to_string(&line)));
                self.clock = now;
                proof {
                    assert(lines_view(final(self).messages@) =~= lines_view(
                        old(self).messages@,
                    ).push(ChatLineV::Error(crate::protocol::at_prefix_spec(at) + mv)));
                }
            },
            Incoming::Pong { token, at } => {
                match token {
                    Option::None => {
                        self.messages.push(ChatLine::Status { text: lit("Pong!"), at });
                        self.clock = now;
                        proof {
                            assert(lines_view(final(self).messages@) =~= lines_view(
                                old(self).messages@,
                            ).push(ChatLineV::Status { text: "Pong!"@, at: at }));
                        }
                    },
                    Option::Some(tok) => {
                        let tokc = str_to_chars(tok.as_str());
                        let found = self.pending_remove(&tokc);
                        let auto = is_auto_token_exec(&tokc);
                        let head = if tokc.len() < 8 {
                            crate::json::vec_slice(&tokc, 0, tokc.len())
                        } else {
                            crate::json::vec_slice(&tokc, 0, 8)
                        };
                        proof {
                            if tokc@.len() < 8 {
                                assert(tokc@.subrange(0, tokc@.len() as int) =~= tokc@);
                            }
                        }
                        match found {
                            Option::Some(t0) => {
                                proof {
                                    lemma_pend_time_bound(
                                        old(self).pending_pings@,
                                        tokc@,
                                        old(self).clock,
                                    );
                                }
                                let rtt = now - t0;
                                if auto {
                                    self.record_latency_sample(rtt);
                                    self.clock = now;
                                } else {
                                    let mut line = str_to_chars("Pong! roundtrip: ");
                                    push_u64_dec(&mut line, rtt);
                                    push_str_chars(&mut line, "ms");
                                    push_str_chars(&mut line, " (token: ");
                                    push_chars(&mut line, &head);
                                    push_str_chars(&mut line, "...)");
                                    self.messages.push(
                                        ChatLine::Status { text: chars_to_string(&line), at },
                                    );
                                    self.clock = now;
                                    proof {
                                        assert(line@ =~= pong_text(rtt, tokc@));
                                        assert(lines_view(final(self).messages@) =~= lines_view(
                                            old(self).messages@,
                                        ).push(
                                            ChatLineV::Status {
                                                text: pong_text(rtt, tokc@),
                                                at: at,
                                            },
                                        ));
                                    }
                                }
                            },
                            Option::None => {
                                if !auto {
                                    let mut line = str_to_chars("Pong!");
                                    push_str_chars(&mut line, " (token: ");
                                    push_chars(&mut line, &head);
                                    push_str_chars(&mut line, "...)");
                                    self.messages.push(
                                        ChatLine::Status { text: chars_to_string(&line), at },
                                    );
                                    self.clock = now;
                                    proof {
                                        assert(line@ =~= "Pong!"@ + token_tail(tokc@));
                                        assert(lines_view(final(self).messages@) =~= lines_view(
                                            old(self).messages@,
                                        ).push(
                                            ChatLineV::Status {
                                                text: "Pong!"@ + token_tail(tokc@),
                                                at: at,
                                            },
                                        ));
                                    }
                                } else {
                                    self.clock = now;
                                }
                            },
                        }
                    },
                }
            },
            Incoming::Ai { from, prompt, response, response_ms, tokens, cost, at } => {
                let ghost fv = from@;
                let ghost pv = prompt@;
                let ghost rv = response@;
                let ghost cv = opt_str_view(cost);
                let mut stats = Vec::new();
                push_u64_dec(&mut stats, response_ms);
                push_str_chars(&mut stats, "ms");
                match tokens {
                    Option::Some(tn) => {
                        push_str_chars(&mut stats, " | ");
                        push_u64_dec(&mut stats, tn as u64);
                        push_str_chars(&mut stats, " tokens");
                    },
                    Option::None => {},
                }
                match cost {
                    Option::Some(c) => {
                        push_str_chars(&mut stats, " | $");
                        let cc = str_to_chars(c.as_str());
                        push_chars(&mut stats, &cc);
                    },
                    Option::None => {},
                }
                proof {
                    assert(stats@ =~= ai_stats_spec(response_ms, tokens, cv));
                }
                self.messages.push(
                    ChatLine::Ai {
                        from,
                        prompt,
                        response,
                        stats: chars_to_string(&stats),
                        at,
                    },
                );
                self.clock = now;
                proof {
                    assert(lines_view(final(self).messages@) =~= lines_view(
                        old(self).messages@,
                    ).push(
                        ChatLineV::Ai {
                            from: fv,
                            prompt: pv,
                            response: rv,
                            stats: ai_stats_spec(response_ms, tokens, cv),
                            at: at,
                        },
                    ));
                }
            },
        }
    }
}

} // verus!
