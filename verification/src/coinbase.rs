//! The Coinbase connection supervisor: multiplexed topology, one shared
//! socket for every subscribed symbol.
//!
//! Subscribing the first symbol opens the shared connection; a
//! `subscribe` control frame listing the full current symbol set is
//! sent whenever a socket opens (including reconnects), and again when
//! the set grows while streaming.  Unsubscribing sends an `unsubscribe`
//! control frame, or tears the shared connection down when the last
//! symbol leaves; subscribing again after that reopens it cleanly.

use vstd::prelude::*;
use crate::bus::FanInBus;
use crate::bytes::{ascii_bytes, clone_bytes, lit_bytes, push_bytes};
use crate::conn::{Action, ConnectError, ConnectionState, FailReason, SubscribeError, SupEvent,
    TerminalStep, TerminateReason, next_step, spec_next_step};
use crate::decode::{DecodeOutcome, SpecOutcome, decode_coinbase, spec_decode_coinbase};
use crate::models::PriceUpdate;
use crate::policy::ReconnectPolicy;

verus! {

/// One shared-connection record: the arena entry owning the connection
/// identifier, its lifecycle state, its consecutive-failure counter,
/// and whether its reader task is running.
#[derive(Clone, Copy, Debug, PartialEq, Eq, Structural)]
pub struct SharedConn {
    pub id: u64,
    pub state: ConnectionState,
    pub attempts: u32,
    pub reader_live: bool,
}

/// How many records have a running reader task.
pub open spec fn count_live(rs: Seq<SharedConn>) -> int
    decreases rs.len(),
{
    if rs.len() == 0 {
        0
    } else {
        count_live(rs.drop_last()) + (if rs.last().reader_live {
            1int
        } else {
            0int
        })
    }
}

proof fn lemma_count_live_bounds(rs: Seq<SharedConn>)
    ensures
        0 <= count_live(rs) <= rs.len(),
    decreases rs.len(),
{
    if rs.len() > 0 {
        lemma_count_live_bounds(rs.drop_last());
    }
}

proof fn lemma_count_live_update(rs: Seq<SharedConn>, k: int, r: SharedConn)
    requires
        0 <= k < rs.len(),
    ensures
        count_live(rs.update(k, r)) == count_live(rs) - (if rs[k].reader_live {
            1int
        } else {
            0int
        }) + (if r.reader_live {
            1int
        } else {
            0int
        }),
    decreases rs.len(),
{
    if k == rs.len() - 1 {
        assert(rs.update(k, r).drop_last() =~= rs.drop_last());
        assert(rs.update(k, r).last() == r);
    } else {
        assert(rs.update(k, r).drop_last() =~= rs.drop_last().update(k, r));
        assert(rs.update(k, r).last() == rs.last());
        lemma_count_live_update(rs.drop_last(), k, r);
    }
}

proof fn lemma_count_live_push(rs: Seq<SharedConn>, r: SharedConn)
    ensures
        count_live(rs.push(r)) == count_live(rs) + (if r.reader_live {
            1int
        } else {
            0int
        }),
{
    assert(rs.push(r).drop_last() =~= rs);
    assert(rs.push(r).last() == r);
}

/// A record with a live reader contributes to the live count.
proof fn lemma_count_live_at(rs: Seq<SharedConn>, k: int)
    requires
        0 <= k < rs.len(),
        rs[k].reader_live,
    ensures
        count_live(rs) >= 1,
    decreases rs.len(),
{
    lemma_count_live_bounds(rs.drop_last());
    if k < rs.len() - 1 {
        assert(rs.drop_last()[k] == rs[k]);
        lemma_count_live_at(rs.drop_last(), k);
    }
}

/// The views of a list of byte-string symbols.
pub open spec fn syms_view(v: Seq<Vec<u8>>) -> Seq<Seq<u8>> {
    v.map_values(|x: Vec<u8>| x@)
}

/// The shared Coinbase WebSocket endpoint.
pub open spec fn spec_coinbase_endpoint() -> Seq<u8> {
    ascii_bytes("wss://ws-feed.exchange.coinbase.com"@)
}

/// Builds the shared feed endpoint.
pub fn coinbase_endpoint() -> (r: Vec<u8>)
    ensures
        r@ == spec_coinbase_endpoint(),
{
    proof {
        reveal_strlit("wss://ws-feed.exchange.coinbase.com");
    }
    lit_bytes("wss://ws-feed.exchange.coinbase.com")
}

/// The product identifiers as a JSON string list body:
/// `"a","b","c"` (no surrounding brackets).
pub open spec fn spec_quoted_list(syms: Seq<Seq<u8>>) -> Seq<u8>
    decreases syms.len(),
{
    if syms.len() == 0 {
        Seq::empty()
    } else if syms.len() == 1 {
        seq![34u8] + syms[0] + seq![34u8]
    } else {
        seq![34u8] + syms[0] + seq![34u8] + seq![44u8] + spec_quoted_list(syms.drop_first())
    }
}

proof fn lemma_quoted_list_push(syms: Seq<Seq<u8>>, x: Seq<u8>)
    ensures
        spec_quoted_list(syms.push(x)) == (if syms.len() == 0 {
            seq![34u8] + x + seq![34u8]
        } else {
            spec_quoted_list(syms) + seq![44u8] + (seq![34u8] + x + seq![34u8])
        }),
    decreases syms.len(),
{
    if syms.len() == 0 {
        assert(syms.push(x).len() == 1);
        assert(syms.push(x)[0] == x);
        assert(spec_quoted_list(syms.push(x)) =~= seq![34u8] + x + seq![34u8]);
    } else {
        assert(syms.push(x).drop_first() =~= syms.drop_first().push(x));
        lemma_quoted_list_push(syms.drop_first(), x);
        if syms.len() == 1 {
            assert(spec_quoted_list(syms.push(x)) =~= spec_quoted_list(syms) + seq![44u8] + (
            seq![34u8] + x + seq![34u8]));
        } else {
            assert(spec_quoted_list(syms.push(x)) =~= spec_quoted_list(syms) + seq![44u8] + (
            seq![34u8] + x + seq![34u8]));
        }
    }
}

/// The `subscribe`/`unsubscribe` control frame for the ticker channel
/// with the given product identifiers.
pub open spec fn spec_control_msg(kind: Seq<u8>, syms: Seq<Seq<u8>>) -> Seq<u8> {
    ascii_bytes("{\"type\":\""@) + kind + ascii_bytes(
        "\",\"channels\":[{\"name\":\"ticker\",\"product_ids\":["@,
    ) + spec_quoted_list(syms) + ascii_bytes("]}]}"@)
}

/// Builds a ticker-channel control frame.
pub fn build_control_msg(kind: &Vec<u8>, symbols: &Vec<Vec<u8>>) -> (r: Vec<u8>)
    ensures
        r@ == spec_control_msg(kind@, syms_view(symbols@)),
{
    proof {
        reveal_strlit("{\"type\":\"");
        reveal_strlit("\",\"channels\":[{\"name\":\"ticker\",\"product_ids\":[");
        reveal_strlit("]}]}");
    }
    let mut r = lit_bytes("{\"type\":\"");
    push_bytes(&mut r, kind);
    let mid = lit_bytes("\",\"channels\":[{\"name\":\"ticker\",\"product_ids\":[");
    push_bytes(&mut r, &mid);
    let ghost prefix: Seq<u8> = r@;
    let mut i: usize = 0;
    while i < symbols.len()
        invariant
            i <= symbols@.len(),
            r@ == prefix + spec_quoted_list(syms_view(symbols@.subrange(0, i as int))),
        decreases symbols@.len() - i,
    {
        proof {
            assert(spec_quoted_list(syms_view(symbols@.subrange(0, 0))) =~= Seq::<u8>::empty());
        }
        if i > 0 {
            r.push(44);
        }
        r.push(34);
        push_bytes(&mut r, &symbols[i]);
        r.push(34);
        proof {
            let pre = syms_view(symbols@.subrange(0, i as int));
            assert(symbols@.subrange(0, i + 1 as int) =~= symbols@.subrange(0, i as int).push(
                symbols@[i as int],
            ));
            assert(syms_view(symbols@.subrange(0, i + 1 as int)) =~= pre.push(
                symbols@[i as int]@,
            ));
            lemma_quoted_list_push(pre, symbols@[i as int]@);
            assert(pre.len() == i as int);
            assert(r@ =~= prefix + spec_quoted_list(
                syms_view(symbols@.subrange(0, i + 1 as int)),
            ));
        }
        i += 1;
    }
    proof {
        assert(symbols@.subrange(0, symbols@.len() as int) =~= symbols@);
    }
    let close = lit_bytes("]}]}");
    push_bytes(&mut r, &close);
    proof {
        assert(r@ =~= spec_control_msg(kind@, syms_view(symbols@)));
    }
    r
}

/// Supervisor for Coinbase: one shared connection for all subscribed
/// symbols.
#[derive(Debug)]
pub struct CoinBaseContainer {
    /// The subscription registry: the exchange-native product
    /// identifiers currently subscribed, without duplicates.
    pub symbols: Vec<Vec<u8>>,
    /// The shared-connection arena; at most one record is active.
    pub conns: Vec<SharedConn>,
    /// The next fresh connection identifier.
    pub next_id: u64,
    /// Reconnect policy of the shared connection.
    pub policy: ReconnectPolicy,
    /// The fan-in queue of decoded updates.
    pub bus: FanInBus,
    /// The cancellation signal: set once by `shutdown`.
    pub shutdown_flag: bool,
    /// How many sockets were opened (readers started) so far.
    pub opened: u64,
    /// How many reader terminal events were consumed so far.
    pub terminated: u64,
    /// Structured event log.
    pub events: Vec<SupEvent>,
}

impl CoinBaseContainer {
    /// Structural invariant of the supervisor.
    pub open spec fn wf(&self) -> bool {
        &&& forall|i: int, j: int|
            #![trigger self.conns@[i], self.conns@[j]]
            0 <= i < j < self.conns@.len() ==> self.conns@[i].id != self.conns@[j].id
        &&& forall|i: int|
            0 <= i < self.conns@.len() ==> (#[trigger] self.conns@[i]).id < self.next_id
        &&& forall|i: int, j: int|
            #![trigger self.conns@[i], self.conns@[j]]
            0 <= i < j < self.conns@.len() ==> !(self.conns@[i].state.is_active()
                && self.conns@[j].state.is_active())
        &&& forall|i: int|
            0 <= i < self.conns@.len() ==> (#[trigger] self.conns@[i]).attempts
                <= self.policy.max_attempts
        &&& forall|i: int|
            0 <= i < self.conns@.len() ==> ((#[trigger] self.conns@[i]).reader_live ==> (
            self.conns@[i].state is Streaming || self.conns@[i].state is Closed))
        &&& forall|i: int|
            0 <= i < self.conns@.len() ==> ((#[trigger] self.conns@[i]).state is Streaming
                ==> self.conns@[i].reader_live)
        &&& forall|i: int, j: int|
            #![trigger self.symbols@[i], self.symbols@[j]]
            0 <= i < j < self.symbols@.len() ==> self.symbols@[i]@ != self.symbols@[j]@
        &&& self.opened as int == self.terminated as int + count_live(self.conns@)
        &&& self.bus.closed == self.shutdown_flag
        &&& self.shutdown_flag ==> forall|i: int|
            0 <= i < self.conns@.len() ==> !(#[trigger] self.conns@[i]).state.is_active()
    }

    /// The registry: whether `sym` is currently subscribed.
    pub open spec fn subscribed(&self, sym: Seq<u8>) -> bool {
        exists|i: int| 0 <= i < self.symbols@.len() && (#[trigger] self.symbols@[i])@ == sym
    }

    /// Whether a shared connection is open or being established.
    pub open spec fn has_active(&self) -> bool {
        exists|i: int|
            0 <= i < self.conns@.len() && (#[trigger] self.conns@[i]).state.is_active()
    }

    /// The index of the active shared-connection record.
    pub open spec fn active_idx(&self) -> int {
        choose|i: int|
            0 <= i < self.conns@.len() && (#[trigger] self.conns@[i]).state.is_active()
    }

    /// The index of the record with identifier `conn`.
    pub open spec fn conn_idx(&self, conn: u64) -> int {
        choose|i: int| 0 <= i < self.conns@.len() && (#[trigger] self.conns@[i]).id == conn
    }

    /// Whether a frame from connection `conn` is accepted.
    pub open spec fn accepts_frame(&self, conn: u64) -> bool {
        &&& !self.shutdown_flag
        &&& exists|i: int|
            0 <= i < self.conns@.len() && (#[trigger] self.conns@[i]).id == conn
                && self.conns@[i].state is Streaming
    }

    /// Whether a terminal event from connection `conn` is consumed.
    pub open spec fn accepts_terminal(&self, conn: u64) -> bool {
        exists|i: int|
            0 <= i < self.conns@.len() && (#[trigger] self.conns@[i]).id == conn
                && self.conns@[i].reader_live
    }

    /// Whether an opened socket for `conn` may start streaming.
    pub open spec fn accepts_opened(&self, conn: u64) -> bool {
        &&& !self.shutdown_flag
        &&& exists|i: int|
            0 <= i < self.conns@.len() && (#[trigger] self.conns@[i]).id == conn && (
            self.conns@[i].state is Connecting || self.conns@[i].state is Reconnecting)
    }

    /// A supervisor with no symbols, no connection, an open empty bus
    /// and the given policy.
    pub fn with_policy(policy: ReconnectPolicy) -> (c: CoinBaseContainer)
        ensures
            c.wf(),
            c.symbols@.len() == 0,
            c.conns@.len() == 0,
            c.next_id == 0,
            c.policy == policy,
            !c.shutdown_flag,
            c.opened == 0,
            c.terminated == 0,
            c.bus.items@.len() == 0,
            !c.bus.closed,
            c.events@.len() == 0,
            forall|s: Seq<u8>| !c.subscribed(s),
            !c.has_active(),
    {
        CoinBaseContainer {
            symbols: Vec::new(),
            conns: Vec::new(),
            next_id: 0,
            policy,
            bus: FanInBus::new(),
            shutdown_flag: false,
            opened: 0,
            terminated: 0,
            events: Vec::new(),
        }
    }

    /// A supervisor with the default policy: five reconnection
    /// attempts, one second of base delay.
    pub fn new() -> (c: CoinBaseContainer)
        ensures
            c.wf(),
            c.symbols@.len() == 0,
            c.conns@.len() == 0,
            c.next_id == 0,
            c.policy == (ReconnectPolicy { base_delay_ms: 1000u64, max_attempts: 5u32 }),
            !c.shutdown_flag,
            c.opened == 0,
            c.terminated == 0,
            c.bus.items@.len() == 0,
            !c.bus.closed,
            c.events@.len() == 0,
            forall|s: Seq<u8>| !c.subscribed(s),
            !c.has_active(),
    {
        Self::with_policy(ReconnectPolicy { base_delay_ms: 1000, max_attempts: 5 })
    }
}

impl CoinBaseContainer {
    /// Subscribes `sym`.  The symbol joins the registry (a duplicate is
    /// not added twice); if no shared connection is open or being
    /// established, one is opened; if the shared connection is already
    /// streaming, a `subscribe` control frame with the full updated
    /// symbol set is sent.  During shutdown no subscription is
    /// accepted.
    pub fn add_symbol(&mut self, sym: &Vec<u8>) -> (r: Result<Vec<Action>, SubscribeError>)
        requires
            old(self).wf(),
            old(self).next_id < u64::MAX,
        ensures
            final(self).wf(),
            old(self).shutdown_flag ==> r == Err::<Vec<Action>, SubscribeError>(
                SubscribeError::ShuttingDown,
            ) && *final(self) == *old(self),
            !old(self).shutdown_flag ==> ({
                &&& r is Ok
                &&& forall|s: Seq<u8>|
                    final(self).subscribed(s) == (old(self).subscribed(s) || s == sym@)
                &&& (if old(self).subscribed(sym@) {
                    final(self).symbols@ == old(self).symbols@
                } else {
                    final(self).symbols@.len() == old(self).symbols@.len() + 1
                        && final(self).symbols@.drop_last() == old(self).symbols@ && final(self).symbols@.last()@ == sym@
                })
                &&& (if old(self).has_active() {
                    let i = old(self).active_idx();
                    &&& final(self).conns@ == old(self).conns@
                    &&& final(self).next_id == old(self).next_id
                    &&& (if old(self).conns@[i].state is Streaming {
                        r matches Ok(acts) && acts@.len() == 1 && (acts@[0] matches
                            Action::SendText { conn, payload } && conn == old(self).conns@[i].id && payload@ == spec_control_msg(
                            ascii_bytes("subscribe"@),
                            syms_view(final(self).symbols@),
                        ))
                    } else {
                        r matches Ok(acts) && acts@.len() == 0
                    })
                } else {
                    &&& final(self).conns@.len() == old(self).conns@.len() + 1
                    &&& final(self).conns@.drop_last() == old(self).conns@
                    &&& final(self).conns@.last() == (SharedConn {
                        id: old(self).next_id,
                        state: ConnectionState::Connecting,
                        attempts: 0,
                        reader_live: false,
                    })
                    &&& final(self).next_id == old(self).next_id + 1
                    &&& (r matches Ok(acts) && acts@.len() == 1 && (acts@[0] matches
                        Action::OpenSocket { conn, endpoint } && conn == old(self).next_id
                        && endpoint@ == spec_coinbase_endpoint()))
                })
                &&& final(self).opened == old(self).opened
                &&& final(self).terminated == old(self).terminated
                &&& final(self).bus == old(self).bus
                &&& final(self).policy == old(self).policy
                &&& final(self).shutdown_flag == old(self).shutdown_flag
                &&& final(self).events@ == old(self).events@
            }),
    {
        if self.shutdown_flag {
            return Err(SubscribeError::ShuttingDown);
        }
        let ghost olds = old(self).symbols@;
        match find_symbol(&self.symbols, sym) {
            Some(_) => {},
            None => {
                self.symbols.push(clone_bytes(sym));
                proof {
                    assert(self.symbols@.drop_last() =~= olds);
                }
            },
        }
        let out: Result<Vec<Action>, SubscribeError> = match find_active(&self.conns) {
            Some(ix) => {
                proof {
                    let i = old(self).active_idx();
                    assert(0 <= i < self.conns@.len() && self.conns@[i].state.is_active());
                    if i != ix {
                        assert(false);
                    }
                }
                let streaming = match self.conns[ix].state {
                    ConnectionState::Streaming => true,
                    _ => false,
                };
                if streaming {
                    proof {
                        reveal_strlit("subscribe");
                    }
                    let kind = lit_bytes("subscribe");
                    let payload = build_control_msg(&kind, &self.symbols);
                    let mut acts: Vec<Action> = Vec::new();
                    acts.push(Action::SendText { conn: self.conns[ix].id, payload });
                    Ok(acts)
                } else {
                    Ok(Vec::new())
                }
            },
            None => {
                let id = self.next_id;
                let rec = SharedConn {
                    id,
                    state: ConnectionState::Connecting,
                    attempts: 0,
                    reader_live: false,
                };
                self.conns.push(rec);
                self.next_id = id + 1;
                let endpoint = coinbase_endpoint();
                let mut acts: Vec<Action> = Vec::new();
                acts.push(Action::OpenSocket { conn: id, endpoint });
                proof {
                    lemma_count_live_push(old(self).conns@, rec);
                    assert(self.conns@.drop_last() =~= old(self).conns@);
                }
                Ok(acts)
            },
        };
        proof {
            assert forall|s: Seq<u8>|
                self.subscribed(s) == (old(self).subscribed(s) || s == sym@) by {
                let n = olds.len() as int;
                if old(self).subscribed(s) {
                    let i = choose|i: int|
                        0 <= i < olds.len() && (#[trigger] olds[i])@ == s;
                    assert(self.symbols@[i] == olds[i]);
                    assert(self.subscribed(s));
                }
                if s == sym@ {
                    if self.symbols@.len() > n {
                        assert(self.symbols@[n]@ == s);
                        assert(self.subscribed(s));
                    } else {
                        let i = choose|i: int|
                            0 <= i < olds.len() && (#[trigger] olds[i])@ == sym@;
                        assert(self.symbols@[i] == olds[i]);
                        assert(self.subscribed(s));
                    }
                }
                if self.subscribed(s) {
                    let i = choose|i: int|
                        0 <= i < self.symbols@.len() && (#[trigger] self.symbols@[i])@ == s;
                    if i < n {
                        assert(olds[i] == self.symbols@[i]);
                        assert(old(self).subscribed(s));
                    } else {
                        assert(s == sym@);
                    }
                }
            }
        }
        out
    }

    /// Unsubscribes `sym`.  While other symbols remain and the shared
    /// connection is streaming, an `unsubscribe` control frame for just
    /// this symbol is sent; when the last symbol leaves, the shared
    /// connection is torn down.  Removing an unknown symbol is a no-op.
    pub fn remove_symbol(&mut self, sym: &Vec<u8>) -> (acts: Vec<Action>)
        requires
            old(self).wf(),
        ensures
            final(self).wf(),
            !old(self).subscribed(sym@) ==> *final(self) == *old(self) && acts@.len() == 0,
            old(self).subscribed(sym@) ==> ({
                &&& forall|s: Seq<u8>|
                    final(self).subscribed(s) == (old(self).subscribed(s) && s != sym@)
                &&& final(self).symbols@.len() == old(self).symbols@.len() - 1
                &&& (if final(self).symbols@.len() == 0 {
                    // The last symbol tears the shared connection down.
                    &&& !final(self).has_active()
                    &&& (if old(self).has_active() {
                        let i = old(self).active_idx();
                        &&& final(self).conns@ == old(self).conns@.update(
                            i,
                            SharedConn { state: ConnectionState::Closed, ..old(self).conns@[i] },
                        )
                        &&& (if old(self).conns@[i].reader_live {
                            acts@.len() == 2 && acts@[0] == (Action::CloseSocket {
                                conn: old(self).conns@[i].id,
                            }) && acts@[1] == (Action::JoinReader {
                                conn: old(self).conns@[i].id,
                            })
                        } else {
                            acts@.len() == 0
                        })
                    } else {
                        final(self).conns@ == old(self).conns@ && acts@.len() == 0
                    })
                } else {
                    &&& final(self).conns@ == old(self).conns@
                    &&& (if old(self).has_active() && old(self).conns@[old(self).active_idx()].state is Streaming {
                        acts@.len() == 1 && (acts@[0] matches Action::SendText { conn, payload }
                            && conn == old(self).conns@[old(self).active_idx()].id && payload@
                            == spec_control_msg(ascii_bytes("unsubscribe"@), seq![sym@]))
                    } else {
                        acts@.len() == 0
                    })
                })
                &&& final(self).opened == old(self).opened
                &&& final(self).terminated == old(self).terminated
                &&& final(self).next_id == old(self).next_id
                &&& final(self).bus == old(self).bus
                &&& final(self).policy == old(self).policy
                &&& final(self).shutdown_flag == old(self).shutdown_flag
                &&& final(self).events@ == old(self).events@
            }),
    {
        let ghost olds = old(self).symbols@;
        match find_symbol(&self.symbols, sym) {
            None => {
                proof {
                    assert forall|s: Seq<u8>|
                        self.subscribed(s) == (self.subscribed(s) && s != sym@) by {
                        if s == sym@ {
                            assert(!self.subscribed(s));
                        }
                    }
                }
                Vec::new()
            },
            Some(k) => {
                self.symbols.remove(k);
                proof {
                    let ki = k as int;
                    assert(self.symbols@ =~= olds.subrange(0, ki) + olds.subrange(
                        ki + 1,
                        olds.len() as int,
                    ));
                    assert forall|s: Seq<u8>|
                        self.subscribed(s) == (old(self).subscribed(s) && s != sym@) by {
                        if self.subscribed(s) {
                            let i = choose|i: int|
                                0 <= i < self.symbols@.len() && (#[trigger] self.symbols@[i])@ == s;
                            if i < ki {
                                assert(olds[i]@ == s);
                            } else {
                                assert(olds[i + 1]@ == s);
                            }
                            assert(old(self).subscribed(s));
                            if s == sym@ {
                                assert(false);
                            }
                        }
                        if old(self).subscribed(s) && s != sym@ {
                            let i = choose|i: int|
                                0 <= i < olds.len() && (#[trigger] olds[i])@ == s;
                            assert(i != ki);
                            if i < ki {
                                assert(self.symbols@[i]@ == s);
                            } else {
                                assert(self.symbols@[i - 1]@ == s);
                            }
                            assert(self.subscribed(s));
                        }
                    }
                }
                if self.symbols.len() == 0 {
                    match find_active(&self.conns) {
                        None => {
                            proof {
                                assert(!self.has_active());
                            }
                            Vec::new()
                        },
                        Some(ix) => {
                            proof {
                                let i = old(self).active_idx();
                                assert(0 <= i < self.conns@.len() && self.conns@[i].state.is_active());
                                if i != ix {
                                    assert(false);
                                }
                            }
                            let was_live = self.conns[ix].reader_live;
                            let id = self.conns[ix].id;
                            let r = rec_mut(&mut self.conns, ix);
                            r.state = ConnectionState::Closed;
                            proof {
                                lemma_count_live_update(
                                    old(self).conns@,
                                    ix as int,
                                    self.conns@[ix as int],
                                );
                                assert forall|i: int|
                                    0 <= i < self.conns@.len() implies !(
                                #[trigger] self.conns@[i]).state.is_active() by {
                                    if i != ix as int {
                                        assert(self.conns@[i] == old(self).conns@[i]);
                                    }
                                }
                            }
                            let mut acts: Vec<Action> = Vec::new();
                            if was_live {
                                acts.push(Action::CloseSocket { conn: id });
                                acts.push(Action::JoinReader { conn: id });
                            }
                            acts
                        },
                    }
                } else {
                    match find_active(&self.conns) {
                        None => Vec::new(),
                        Some(ix) => {
                            proof {
                                let i = old(self).active_idx();
                                assert(0 <= i < self.conns@.len() && self.conns@[i].state.is_active());
                                if i != ix {
                                    assert(false);
                                }
                            }
                            let streaming = match self.conns[ix].state {
                                ConnectionState::Streaming => true,
                                _ => false,
                            };
                            if streaming {
                                proof {
                                    reveal_strlit("unsubscribe");
                                }
                                let kind = lit_bytes("unsubscribe");
                                let mut one: Vec<Vec<u8>> = Vec::new();
                                one.push(clone_bytes(sym));
                                let payload = build_control_msg(&kind, &one);
                                proof {
                                    assert(syms_view(one@) =~= seq![sym@]);
                                }
                                let mut acts: Vec<Action> = Vec::new();
                                acts.push(Action::SendText { conn: self.conns[ix].id, payload });
                                acts
                            } else {
                                Vec::new()
                            }
                        },
                    }
                }
            },
        }
    }

    /// Reports a disconnect request; the actual teardown is
    /// `shutdown`'s job.
    pub fn disconnect(&self) {
    }

    /// The state `sym`'s shared connection is in, observable by the
    /// caller: `None` when the symbol is not subscribed, the shared
    /// connection's state while one is open or being established, and
    /// `Closed` when none is.
    pub fn symbol_state(&self, sym: &Vec<u8>) -> (r: Option<ConnectionState>)
        requires
            self.wf(),
        ensures
            match r {
                None => !self.subscribed(sym@),
                Some(st) => self.subscribed(sym@) && (if self.has_active() {
                    st == self.conns@[self.active_idx()].state
                } else {
                    st == ConnectionState::Closed
                }),
            },
    {
        match find_symbol(&self.symbols, sym) {
            None => None,
            Some(_) => {
                match find_active(&self.conns) {
                    None => Some(ConnectionState::Closed),
                    Some(ix) => {
                        proof {
                            let i = self.active_idx();
                            assert(0 <= i < self.conns@.len()
                                && self.conns@[i].state.is_active());
                            if i != ix {
                                assert(false);
                            }
                        }
                        Some(self.conns[ix].state)
                    },
                }
            },
        }
    }

    /// Whether the shared connection exists (open or being
    /// established).
    pub fn has_socket_connection(&self) -> (r: bool)
        requires
            self.wf(),
        ensures
            r == self.has_active(),
    {
        match find_active(&self.conns) {
            None => false,
            Some(_) => true,
        }
    }

    /// Delivers the next fan-in update, oldest first; the caller hands
    /// it to whatever wants symbol updates.
    pub fn on_symbol_update(&mut self) -> (r: Option<PriceUpdate>)
        ensures
            old(self).bus.items@.len() == 0 ==> r is None && *final(self) == *old(self),
            old(self).bus.items@.len() > 0 ==> r == Some(old(self).bus.items@[0])
                && final(self).bus.items@ == old(self).bus.items@.drop_first()
                && final(self).bus.closed == old(self).bus.closed
                && final(self).conns@ == old(self).conns@
                && final(self).symbols@ == old(self).symbols@
                && final(self).events@ == old(self).events@,
    {
        self.bus.pop()
    }

    /// Opens the shared connection if none is active; the `subscribe`
    /// control frame follows once the socket reports open.
    pub fn start_monitoring(&mut self) -> (r: Result<Vec<Action>, SubscribeError>)
        requires
            old(self).wf(),
            old(self).next_id < u64::MAX,
        ensures
            final(self).wf(),
            old(self).shutdown_flag ==> r == Err::<Vec<Action>, SubscribeError>(
                SubscribeError::ShuttingDown,
            ) && *final(self) == *old(self),
            !old(self).shutdown_flag && old(self).has_active() ==> (r matches Ok(acts)
                && acts@.len() == 0) && *final(self) == *old(self),
            !old(self).shutdown_flag && !old(self).has_active() ==> ({
                &&& final(self).conns@.len() == old(self).conns@.len() + 1
                &&& final(self).conns@.drop_last() == old(self).conns@
                &&& final(self).conns@.last() == (SharedConn {
                    id: old(self).next_id,
                    state: ConnectionState::Connecting,
                    attempts: 0,
                    reader_live: false,
                })
                &&& final(self).next_id == old(self).next_id + 1
                &&& (r matches Ok(acts) && acts@.len() == 1 && (acts@[0] matches
                    Action::OpenSocket { conn, endpoint } && conn == old(self).next_id
                    && endpoint@ == spec_coinbase_endpoint()))
                &&& final(self).symbols@ == old(self).symbols@
                &&& final(self).opened == old(self).opened
                &&& final(self).terminated == old(self).terminated
                &&& final(self).bus == old(self).bus
                &&& final(self).policy == old(self).policy
                &&& final(self).shutdown_flag == old(self).shutdown_flag
                &&& final(self).events@ == old(self).events@
            }),
    {
        if self.shutdown_flag {
            return Err(SubscribeError::ShuttingDown);
        }
        match find_active(&self.conns) {
            Some(_) => Ok(Vec::new()),
            None => {
                let id = self.next_id;
                let rec = SharedConn {
                    id,
                    state: ConnectionState::Connecting,
                    attempts: 0,
                    reader_live: false,
                };
                self.conns.push(rec);
                self.next_id = id + 1;
                let endpoint = coinbase_endpoint();
                let mut acts: Vec<Action> = Vec::new();
                acts.push(Action::OpenSocket { conn: id, endpoint });
                proof {
                    lemma_count_live_push(old(self).conns@, rec);
                    assert(self.conns@.drop_last() =~= old(self).conns@);
                }
                Ok(acts)
            },
        }
    }
}

/// The actions that stop every running reader: close its socket, then
/// join its task.
pub open spec fn shutdown_actions(rs: Seq<SharedConn>) -> Seq<Action>
    decreases rs.len(),
{
    if rs.len() == 0 {
        Seq::empty()
    } else {
        (if rs[0].reader_live {
            seq![
                Action::CloseSocket { conn: rs[0].id },
                Action::JoinReader { conn: rs[0].id },
            ]
        } else {
            Seq::empty()
        }) + shutdown_actions(rs.drop_first())
    }
}

impl CoinBaseContainer {
    /// Reports that the shared socket was opened and its reader task
    /// started: the `subscribe` control frame for the full current
    /// symbol set is sent.  If the connection is no longer waiting for
    /// a socket, the socket is closed again and no reader is counted.
    pub fn on_opened(&mut self, conn: u64) -> (acts: Vec<Action>)
        requires
            old(self).wf(),
            old(self).opened < u64::MAX,
        ensures
            final(self).wf(),
            !old(self).accepts_opened(conn) ==> *final(self) == *old(self) && acts@.len() == 1
                && acts@[0] == (Action::CloseSocket { conn }),
            old(self).accepts_opened(conn) ==> ({
                let i = old(self).conn_idx(conn);
                let rec = old(self).conns@[i];
                &&& 0 <= i < old(self).conns@.len()
                &&& final(self).conns@ == old(self).conns@.update(
                    i,
                    SharedConn { state: ConnectionState::Streaming, reader_live: true, ..rec },
                )
                &&& final(self).opened == old(self).opened + 1
                &&& final(self).terminated == old(self).terminated
                &&& final(self).events@ == old(self).events@.push(SupEvent::Connected { conn })
                &&& acts@.len() == 1 && (acts@[0] matches Action::SendText { conn: c2, payload }
                    && c2 == conn && payload@ == spec_control_msg(
                    ascii_bytes("subscribe"@),
                    syms_view(old(self).symbols@),
                ))
                &&& final(self).symbols@ == old(self).symbols@
                &&& final(self).next_id == old(self).next_id
                &&& final(self).bus == old(self).bus
                &&& final(self).policy == old(self).policy
                &&& final(self).shutdown_flag == old(self).shutdown_flag
            }),
    {
        if self.shutdown_flag {
            let mut acts: Vec<Action> = Vec::new();
            acts.push(Action::CloseSocket { conn });
            return acts;
        }
        match find_by_id(&self.conns, conn) {
            None => {
                let mut acts: Vec<Action> = Vec::new();
                acts.push(Action::CloseSocket { conn });
                acts
            },
            Some(ix) => {
                let waiting = match self.conns[ix].state {
                    ConnectionState::Connecting => true,
                    ConnectionState::Reconnecting { .. } => true,
                    _ => false,
                };
                if !waiting {
                    proof {
                        assert forall|i: int|
                            0 <= i < self.conns@.len() implies !((#[trigger] self.conns@[i]).id
                            == conn && (self.conns@[i].state is Connecting || self.conns@[i].state
                            is Reconnecting)) by {
                            if i != ix && self.conns@[i].id == conn {
                                assert(false);
                            }
                        }
                    }
                    let mut acts: Vec<Action> = Vec::new();
                    acts.push(Action::CloseSocket { conn });
                    acts
                } else {
                    proof {
                        let i = old(self).conn_idx(conn);
                        assert(0 <= i < self.conns@.len() && self.conns@[i].id == conn);
                        if i != ix {
                            assert(false);
                        }
                    }
                    let r = rec_mut(&mut self.conns, ix);
                    r.state = ConnectionState::Streaming;
                    r.reader_live = true;
                    self.opened = self.opened + 1;
                    self.events.push(SupEvent::Connected { conn });
                    proof {
                        reveal_strlit("subscribe");
                        lemma_count_live_update(
                            old(self).conns@,
                            ix as int,
                            self.conns@[ix as int],
                        );
                    }
                    let kind = lit_bytes("subscribe");
                    let payload = build_control_msg(&kind, &self.symbols);
                    let mut acts: Vec<Action> = Vec::new();
                    acts.push(Action::SendText { conn, payload });
                    acts
                }
            },
        }
    }

    /// Reports that opening the shared socket failed.  The reconnect
    /// policy decides between another attempt and giving up.
    pub fn on_open_failed(&mut self, conn: u64, err: ConnectError) -> (acts: Vec<Action>)
        requires
            old(self).wf(),
        ensures
            final(self).wf(),
            !old(self).accepts_opened(conn) ==> *final(self) == *old(self) && acts@.len() == 0,
            old(self).accepts_opened(conn) ==> ({
                let i = old(self).conn_idx(conn);
                let rec = old(self).conns@[i];
                &&& 0 <= i < old(self).conns@.len()
                &&& match spec_next_step(rec.attempts, old(self).policy) {
                    TerminalStep::Retry { attempt, delay_ms } => {
                        &&& final(self).conns@ == old(self).conns@.update(
                            i,
                            SharedConn {
                                state: ConnectionState::Reconnecting { attempt },
                                attempts: attempt,
                                ..rec
                            },
                        )
                        &&& final(self).events@ == old(self).events@.push(
                            SupEvent::OpenFailed { conn, err },
                        ).push(SupEvent::ReconnectAttempt { conn, attempt })
                        &&& acts@.len() == 1 && (acts@[0] matches Action::Reopen {
                            conn: c2,
                            delay_ms: d2,
                            endpoint,
                        } && c2 == conn && d2 == delay_ms && endpoint@
                            == spec_coinbase_endpoint())
                    },
                    TerminalStep::Exhausted => {
                        &&& final(self).conns@ == old(self).conns@.update(
                            i,
                            SharedConn {
                                state: ConnectionState::Failed {
                                    reason: FailReason::ReconnectExhausted,
                                },
                                ..rec
                            },
                        )
                        &&& final(self).events@ == old(self).events@.push(
                            SupEvent::OpenFailed { conn, err },
                        ).push(SupEvent::GaveUp { conn })
                        &&& acts@.len() == 0
                    },
                }
                &&& final(self).symbols@ == old(self).symbols@
                &&& final(self).opened == old(self).opened
                &&& final(self).terminated == old(self).terminated
                &&& final(self).next_id == old(self).next_id
                &&& final(self).bus == old(self).bus
                &&& final(self).policy == old(self).policy
                &&& final(self).shutdown_flag == old(self).shutdown_flag
            }),
    {
        if self.shutdown_flag {
            return Vec::new();
        }
        match find_by_id(&self.conns, conn) {
            None => Vec::new(),
            Some(ix) => {
                let waiting = match self.conns[ix].state {
                    ConnectionState::Connecting => true,
                    ConnectionState::Reconnecting { .. } => true,
                    _ => false,
                };
                if !waiting {
                    proof {
                        assert forall|i: int|
                            0 <= i < self.conns@.len() implies !((#[trigger] self.conns@[i]).id
                            == conn && (self.conns@[i].state is Connecting || self.conns@[i].state
                            is Reconnecting)) by {
                            if i != ix && self.conns@[i].id == conn {
                                assert(false);
                            }
                        }
                    }
                    return Vec::new();
                }
                proof {
                    let i = old(self).conn_idx(conn);
                    assert(0 <= i < self.conns@.len() && self.conns@[i].id == conn);
                    if i != ix {
                        assert(false);
                    }
                }
                let attempts = self.conns[ix].attempts;
                let step = next_step(attempts, &self.policy);
                self.events.push(SupEvent::OpenFailed { conn, err });
                match step {
                    TerminalStep::Retry { attempt, delay_ms } => {
                        let endpoint = coinbase_endpoint();
                        let r = rec_mut(&mut self.conns, ix);
                        r.state = ConnectionState::Reconnecting { attempt };
                        r.attempts = attempt;
                        self.events.push(SupEvent::ReconnectAttempt { conn, attempt });
                        let mut acts: Vec<Action> = Vec::new();
                        acts.push(Action::Reopen { conn, delay_ms, endpoint });
                        proof {
                            lemma_count_live_update(
                                old(self).conns@,
                                ix as int,
                                self.conns@[ix as int],
                            );
                        }
                        acts
                    },
                    TerminalStep::Exhausted => {
                        let r = rec_mut(&mut self.conns, ix);
                        r.state = ConnectionState::Failed {
                            reason: FailReason::ReconnectExhausted,
                        };
                        self.events.push(SupEvent::GaveUp { conn });
                        proof {
                            lemma_count_live_update(
                                old(self).conns@,
                                ix as int,
                                self.conns@[ix as int],
                            );
                        }
                        Vec::new()
                    },
                }
            },
        }
    }

    /// Handles one text frame read from the shared socket; the frame is
    /// accepted only while the connection is streaming and no shutdown
    /// is in progress.  A decoded update goes onto the bus and resets
    /// the attempt counter; a valid non-price frame (subscription ack,
    /// heartbeat) only resets the counter; a malformed frame is
    /// dropped, leaves the connection untouched and is recorded as a
    /// decode failure.
    pub fn on_frame(&mut self, conn: u64, frame: &Vec<u8>)
        requires
            old(self).wf(),
        ensures
            final(self).wf(),
            !old(self).accepts_frame(conn) ==> *final(self) == *old(self),
            old(self).accepts_frame(conn) ==> ({
                let i = old(self).conn_idx(conn);
                let rec = old(self).conns@[i];
                &&& 0 <= i < old(self).conns@.len()
                &&& match spec_decode_coinbase(frame@) {
                    SpecOutcome::Malformed => {
                        &&& final(self).conns@ == old(self).conns@
                        &&& final(self).bus.items@ == old(self).bus.items@
                        &&& final(self).events@ == old(self).events@.push(
                            SupEvent::DecodeFailure { conn },
                        )
                    },
                    SpecOutcome::Ignored => {
                        &&& final(self).conns@ == old(self).conns@.update(
                            i,
                            SharedConn { attempts: 0, ..rec },
                        )
                        &&& final(self).bus.items@ == old(self).bus.items@
                        &&& final(self).events@ == old(self).events@
                    },
                    SpecOutcome::Update { symbol, price, source } => {
                        &&& final(self).conns@ == old(self).conns@.update(
                            i,
                            SharedConn { attempts: 0, ..rec },
                        )
                        &&& final(self).bus.items@.len() == old(self).bus.items@.len() + 1
                        &&& final(self).bus.items@.drop_last() == old(self).bus.items@
                        &&& final(self).bus.items@.last().symbol@ == symbol
                        &&& final(self).bus.items@.last().price == price
                        &&& final(self).bus.items@.last().source == source
                        &&& final(self).events@ == old(self).events@
                    },
                }
                &&& final(self).bus.closed == old(self).bus.closed
                &&& final(self).symbols@ == old(self).symbols@
                &&& final(self).opened == old(self).opened
                &&& final(self).terminated == old(self).terminated
                &&& final(self).next_id == old(self).next_id
                &&& final(self).policy == old(self).policy
                &&& final(self).shutdown_flag == old(self).shutdown_flag
            }),
    {
        if self.shutdown_flag {
            return;
        }
        match find_by_id(&self.conns, conn) {
            None => {},
            Some(ix) => {
                let streaming = match self.conns[ix].state {
                    ConnectionState::Streaming => true,
                    _ => false,
                };
                if !streaming {
                    proof {
                        assert forall|i: int|
                            0 <= i < self.conns@.len() implies !((#[trigger] self.conns@[i]).id
                            == conn && self.conns@[i].state is Streaming) by {
                            if i != ix && self.conns@[i].id == conn {
                                assert(false);
                            }
                        }
                    }
                    return;
                }
                proof {
                    let i = old(self).conn_idx(conn);
                    assert(0 <= i < self.conns@.len() && self.conns@[i].id == conn);
                    if i != ix {
                        assert(false);
                    }
                }
                let outcome = decode_coinbase(frame);
                match outcome {
                    DecodeOutcome::Malformed => {
                        self.events.push(SupEvent::DecodeFailure { conn });
                    },
                    DecodeOutcome::Ignored => {
                        let r = rec_mut(&mut self.conns, ix);
                        r.attempts = 0;
                        proof {
                            lemma_count_live_update(
                                old(self).conns@,
                                ix as int,
                                self.conns@[ix as int],
                            );
                        }
                    },
                    DecodeOutcome::Update(u) => {
                        let r = rec_mut(&mut self.conns, ix);
                        r.attempts = 0;
                        let pushed = self.bus.push(u);
                        proof {
                            assert(pushed is Ok);
                            lemma_count_live_update(
                                old(self).conns@,
                                ix as int,
                                self.conns@[ix as int],
                            );
                        }
                    },
                }
            },
        }
    }

    /// Consumes the terminal event of the shared reader: exactly one is
    /// consumed per reader the supervisor started.  During shutdown (or
    /// after teardown, or on observed cancellation) the connection
    /// closes; otherwise the reconnect policy decides between a delayed
    /// reopen and giving up, surfaced as the `Failed` state.
    pub fn on_terminate(&mut self, conn: u64, reason: TerminateReason) -> (acts: Vec<Action>)
        requires
            old(self).wf(),
        ensures
            final(self).wf(),
            !old(self).accepts_terminal(conn) ==> *final(self) == *old(self) && acts@.len()
                == 0,
            old(self).accepts_terminal(conn) ==> ({
                let i = old(self).conn_idx(conn);
                let rec = old(self).conns@[i];
                &&& 0 <= i < old(self).conns@.len()
                &&& final(self).terminated == old(self).terminated + 1
                &&& (if old(self).shutdown_flag || rec.state is Closed || reason
                    is Cancelled {
                    &&& final(self).conns@ == old(self).conns@.update(
                        i,
                        SharedConn {
                            state: ConnectionState::Closed,
                            reader_live: false,
                            ..rec
                        },
                    )
                    &&& final(self).events@ == old(self).events@.push(
                        SupEvent::Disconnected { conn },
                    )
                    &&& acts@.len() == 0
                } else {
                    match spec_next_step(rec.attempts, old(self).policy) {
                        TerminalStep::Retry { attempt, delay_ms } => {
                            &&& final(self).conns@ == old(self).conns@.update(
                                i,
                                SharedConn {
                                    state: ConnectionState::Reconnecting { attempt },
                                    attempts: attempt,
                                    reader_live: false,
                                    ..rec
                                },
                            )
                            &&& final(self).events@ == old(self).events@.push(
                                SupEvent::Disconnected { conn },
                            ).push(SupEvent::ReconnectAttempt { conn, attempt })
                            &&& acts@.len() == 1 && (acts@[0] matches Action::Reopen {
                                conn: c2,
                                delay_ms: d2,
                                endpoint,
                            } && c2 == conn && d2 == delay_ms && endpoint@
                                == spec_coinbase_endpoint())
                        },
                        TerminalStep::Exhausted => {
                            &&& final(self).conns@ == old(self).conns@.update(
                                i,
                                SharedConn {
                                    state: ConnectionState::Failed {
                                        reason: FailReason::ReconnectExhausted,
                                    },
                                    reader_live: false,
                                    ..rec
                                },
                            )
                            &&& final(self).events@ == old(self).events@.push(
                                SupEvent::Disconnected { conn },
                            ).push(SupEvent::GaveUp { conn })
                            &&& acts@.len() == 0
                        },
                    }
                })
                &&& final(self).symbols@ == old(self).symbols@
                &&& final(self).opened == old(self).opened
                &&& final(self).next_id == old(self).next_id
                &&& final(self).bus == old(self).bus
                &&& final(self).policy == old(self).policy
                &&& final(self).shutdown_flag == old(self).shutdown_flag
            }),
    {
        match find_by_id(&self.conns, conn) {
            None => Vec::new(),
            Some(ix) => {
                if !self.conns[ix].reader_live {
                    proof {
                        assert forall|i: int|
                            0 <= i < self.conns@.len() implies !((#[trigger] self.conns@[i]).id
                            == conn && self.conns@[i].reader_live) by {
                            if i != ix && self.conns@[i].id == conn {
                                assert(false);
                            }
                        }
                    }
                    return Vec::new();
                }
                proof {
                    let i = old(self).conn_idx(conn);
                    assert(0 <= i < self.conns@.len() && self.conns@[i].id == conn);
                    if i != ix {
                        assert(false);
                    }
                    lemma_count_live_at(old(self).conns@, ix as int);
                }
                let closing = match self.conns[ix].state {
                    ConnectionState::Closed => true,
                    _ => false,
                };
                let cancelled = match reason {
                    TerminateReason::Cancelled => true,
                    _ => false,
                };
                if self.shutdown_flag || closing || cancelled {
                    let r = rec_mut(&mut self.conns, ix);
                    r.state = ConnectionState::Closed;
                    r.reader_live = false;
                    self.terminated = self.terminated + 1;
                    self.events.push(SupEvent::Disconnected { conn });
                    proof {
                        lemma_count_live_update(
                            old(self).conns@,
                            ix as int,
                            self.conns@[ix as int],
                        );
                    }
                    Vec::new()
                } else {
                    let attempts = self.conns[ix].attempts;
                    let step = next_step(attempts, &self.policy);
                    self.terminated = self.terminated + 1;
                    self.events.push(SupEvent::Disconnected { conn });
                    match step {
                        TerminalStep::Retry { attempt, delay_ms } => {
                            let endpoint = coinbase_endpoint();
                            let r = rec_mut(&mut self.conns, ix);
                            r.state = ConnectionState::Reconnecting { attempt };
                            r.attempts = attempt;
                            r.reader_live = false;
                            self.events.push(SupEvent::ReconnectAttempt { conn, attempt });
                            let mut acts: Vec<Action> = Vec::new();
                            acts.push(Action::Reopen { conn, delay_ms, endpoint });
                            proof {
                                lemma_count_live_update(
                                    old(self).conns@,
                                    ix as int,
                                    self.conns@[ix as int],
                                );
                            }
                            acts
                        },
                        TerminalStep::Exhausted => {
                            let r = rec_mut(&mut self.conns, ix);
                            r.state = ConnectionState::Failed {
                                reason: FailReason::ReconnectExhausted,
                            };
                            r.reader_live = false;
                            self.events.push(SupEvent::GaveUp { conn });
                            proof {
                                lemma_count_live_update(
                                    old(self).conns@,
                                    ix as int,
                                    self.conns@[ix as int],
                                );
                            }
                            Vec::new()
                        },
                    }
                }
            },
        }
    }

    /// Initiates graceful shutdown: the cancellation flag is set, the
    /// bus is closed to new updates (queued ones stay available), every
    /// record leaves the active states, and every running reader is
    /// asked to stop and be joined.  Idempotent.
    pub fn shutdown(&mut self) -> (acts: Vec<Action>)
        requires
            old(self).wf(),
        ensures
            final(self).wf(),
            final(self).shutdown_flag,
            final(self).bus.closed,
            final(self).bus.items@ == old(self).bus.items@,
            final(self).conns@.len() == old(self).conns@.len(),
            forall|i: int|
                0 <= i < old(self).conns@.len() ==> final(self).conns@[i] == (SharedConn {
                    state: (if old(self).conns@[i].state is Failed {
                        old(self).conns@[i].state
                    } else {
                        ConnectionState::Closed
                    }),
                    ..old(self).conns@[i]
                }),
            acts@ == shutdown_actions(old(self).conns@),
            final(self).symbols@ == old(self).symbols@,
            final(self).opened == old(self).opened,
            final(self).terminated == old(self).terminated,
            final(self).next_id == old(self).next_id,
            final(self).policy == old(self).policy,
            final(self).events@ == old(self).events@,
            !final(self).has_active(),
    {
        self.shutdown_flag = true;
        self.bus.close();
        let mut acts: Vec<Action> = Vec::new();
        let ghost oldc = old(self).conns@;
        proof {
            assert(oldc.skip(0) =~= oldc);
            assert(acts@ + shutdown_actions(oldc) =~= shutdown_actions(oldc));
        }
        let mut i: usize = 0;
        while i < self.conns.len()
            invariant
                i <= self.conns@.len(),
                self.conns@.len() == oldc.len(),
                forall|j: int|
                    0 <= j < i ==> #[trigger] self.conns@[j] == (SharedConn {
                        state: (if oldc[j].state is Failed {
                            oldc[j].state
                        } else {
                            ConnectionState::Closed
                        }),
                        ..oldc[j]
                    }),
                forall|j: int| i <= j < oldc.len() ==> #[trigger] self.conns@[j] == oldc[j],
                shutdown_actions(oldc) == acts@ + shutdown_actions(oldc.skip(i as int)),
                self.shutdown_flag,
                self.bus.closed,
                self.bus.items@ == old(self).bus.items@,
                self.symbols@ == old(self).symbols@,
                self.opened == old(self).opened,
                self.terminated == old(self).terminated,
                self.next_id == old(self).next_id,
                self.policy == old(self).policy,
                self.events@ == old(self).events@,
                oldc == old(self).conns@,
            decreases self.conns@.len() - i,
        {
            let live = self.conns[i].reader_live;
            let id = self.conns[i].id;
            let failed = match self.conns[i].state {
                ConnectionState::Failed { .. } => true,
                _ => false,
            };
            proof {
                assert(oldc.skip(i as int)[0] == oldc[i as int]);
                assert(oldc.skip(i as int).drop_first() =~= oldc.skip(i as int + 1));
            }
            if !failed {
                let r = rec_mut(&mut self.conns, i);
                r.state = ConnectionState::Closed;
            }
            if live {
                acts.push(Action::CloseSocket { conn: id });
                acts.push(Action::JoinReader { conn: id });
                proof {
                    assert(acts@ =~= (acts@.drop_last().drop_last()).push(
                        Action::CloseSocket { conn: id },
                    ).push(Action::JoinReader { conn: id }));
                    assert((acts@.drop_last().drop_last()) + (seq![
                        Action::CloseSocket { conn: id },
                        Action::JoinReader { conn: id },
                    ] + shutdown_actions(oldc.skip(i as int + 1))) =~= acts@
                        + shutdown_actions(oldc.skip(i as int + 1)));
                }
            } else {
                proof {
                    assert(Seq::<Action>::empty() + shutdown_actions(oldc.skip(i as int + 1))
                        =~= shutdown_actions(oldc.skip(i as int + 1)));
                }
            }
            i += 1;
        }
        proof {
            assert(oldc.skip(oldc.len() as int) =~= Seq::<SharedConn>::empty());
            assert(acts@ + Seq::<Action>::empty() =~= acts@);
            assert(count_live(self.conns@) == count_live(oldc)) by {
                lemma_count_live_same(self.conns@, oldc);
            }
        }
        acts
    }

    /// How many reader tasks are currently running.
    pub fn live_readers(&self) -> (n: usize)
        ensures
            n == count_live(self.conns@),
    {
        proof {
            lemma_count_live_bounds(self.conns@);
        }
        let mut n: usize = 0;
        let mut i: usize = 0;
        while i < self.conns.len()
            invariant
                i <= self.conns@.len(),
                n == count_live(self.conns@.subrange(0, i as int)),
                n <= i,
            decreases self.conns@.len() - i,
        {
            proof {
                assert(self.conns@.subrange(0, i + 1 as int).drop_last() =~= self.conns@.subrange(
                    0,
                    i as int,
                ));
                assert(self.conns@.subrange(0, i + 1 as int).last() == self.conns@[i as int]);
            }
            if self.conns[i].reader_live {
                n += 1;
            }
            i += 1;
        }
        proof {
            assert(self.conns@.subrange(0, self.conns@.len() as int) =~= self.conns@);
        }
        n
    }
}

/// Closing records does not change which readers are live.
proof fn lemma_count_live_same(a: Seq<SharedConn>, b: Seq<SharedConn>)
    requires
        a.len() == b.len(),
        forall|i: int|
            0 <= i < a.len() ==> (#[trigger] a[i]).reader_live == (#[trigger] b[i]).reader_live,
    ensures
        count_live(a) == count_live(b),
    decreases a.len(),
{
    if a.len() > 0 {
        assert(a.drop_last().len() == b.drop_last().len());
        lemma_count_live_same(a.drop_last(), b.drop_last());
    }
}

/// One terminal event per reader of the shared connection: the number
/// of consumed terminal events plus the readers still running equals
/// the number of readers ever started; once no reader is running, the
/// two counts agree exactly.
pub proof fn lemma_terminal_accounting(c: &CoinBaseContainer)
    requires
        c.wf(),
    ensures
        c.opened as int == c.terminated as int + count_live(c.conns@),
        count_live(c.conns@) == 0 ==> c.opened == c.terminated,
{
}

/// The attempt counter of the shared connection never exceeds the
/// policy's limit.
pub proof fn lemma_attempts_bounded(c: &CoinBaseContainer, i: int)
    requires
        c.wf(),
        0 <= i < c.conns@.len(),
    ensures
        c.conns@[i].attempts <= c.policy.max_attempts,
{
}

/// Finds the record with identifier `id`.
fn find_by_id(conns: &Vec<SharedConn>, id: u64) -> (r: Option<usize>)
    ensures
        match r {
            None => forall|i: int| 0 <= i < conns@.len() ==> (#[trigger] conns@[i]).id != id,
            Some(ix) => ix < conns@.len() && conns@[ix as int].id == id,
        },
{
    let mut i: usize = 0;
    while i < conns.len()
        invariant
            i <= conns@.len(),
            forall|j: int| 0 <= j < i ==> (#[trigger] conns@[j]).id != id,
        decreases conns@.len() - i,
    {
        if conns[i].id == id {
            return Some(i);
        }
        i += 1;
    }
    None
}

/// Finds the active shared-connection record.
fn find_active(conns: &Vec<SharedConn>) -> (r: Option<usize>)
    ensures
        match r {
            None => forall|i: int|
                0 <= i < conns@.len() ==> !(#[trigger] conns@[i]).state.is_active(),
            Some(ix) => ix < conns@.len() && conns@[ix as int].state.is_active(),
        },
{
    let mut i: usize = 0;
    while i < conns.len()
        invariant
            i <= conns@.len(),
            forall|j: int| 0 <= j < i ==> !(#[trigger] conns@[j]).state.is_active(),
        decreases conns@.len() - i,
    {
        let active = match conns[i].state {
            ConnectionState::Connecting => true,
            ConnectionState::Streaming => true,
            ConnectionState::Reconnecting { .. } => true,
            _ => false,
        };
        if active {
            return Some(i);
        }
        i += 1;
    }
    None
}

/// Finds `sym` in the symbol registry.
fn find_symbol(symbols: &Vec<Vec<u8>>, sym: &Vec<u8>) -> (r: Option<usize>)
    ensures
        match r {
            None => forall|i: int|
                0 <= i < symbols@.len() ==> (#[trigger] symbols@[i])@ != sym@,
            Some(ix) => ix < symbols@.len() && symbols@[ix as int]@ == sym@,
        },
{
    let mut i: usize = 0;
    while i < symbols.len()
        invariant
            i <= symbols@.len(),
            forall|j: int| 0 <= j < i ==> (#[trigger] symbols@[j])@ != sym@,
        decreases symbols@.len() - i,
    {
        if crate::bytes::bytes_eq(&symbols[i], sym) {
            return Some(i);
        }
        i += 1;
    }
    None
}

/// Mutable access to one record, with the update visible in the view.
fn rec_mut(v: &mut Vec<SharedConn>, i: usize) -> (r: &mut SharedConn)
    requires
        i < old(v)@.len(),
    ensures
        *r == old(v)@[i as int],
        final(v)@ == old(v)@.update(i as int, *final(r)),
{
    &mut v[i]
}

} // verus!
