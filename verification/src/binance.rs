//! The Binance connection supervisor: per-symbol topology, one socket
//! and one reader task per subscribed symbol.
//!
//! The container owns the registry of tracked connections and all of
//! their state; the surrounding process performs the socket work its
//! [`Action`]s request and reports what happened through `on_opened`,
//! `on_open_failed`, `on_frame` and `on_terminate`.  Decoded updates go
//! onto the container's fan-in bus; reconnection follows the linear
//! backoff policy independently per connection, and the attempt counter
//! is reset by any successfully decoded frame.

use vstd::prelude::*;
use crate::bus::FanInBus;
use crate::bytes::{ascii_bytes, clone_bytes, lit_bytes, push_bytes};
use crate::conn::{Action, ConnectError, ConnectionState, FailReason, SubscribeError, SupEvent,
    TerminalStep, TerminateReason, next_step, spec_next_step};
use crate::decode::{DecodeOutcome, SpecOutcome, decode_binance, spec_decode_binance};
use crate::models::PriceUpdate;
use crate::policy::ReconnectPolicy;

verus! {

/// One tracked connection: the arena entry owning the connection
/// identifier, the symbol the socket serves, its lifecycle state, its
/// consecutive-failure counter, and whether its reader task is running.
#[derive(Debug)]
pub struct ConnRecord {
    pub id: u64,
    pub symbol: Vec<u8>,
    pub state: ConnectionState,
    pub attempts: u32,
    pub reader_live: bool,
}

/// How many records have a running reader task.
pub open spec fn count_live(rs: Seq<ConnRecord>) -> int
    decreases rs.len(),
{
    if rs.len() == 0 {
        0
    } else {
        count_live(rs.drop_last()) + (if rs.last().reader_live {
            1int
        } else {
            0int
        })
    }
}

proof fn lemma_count_live_bounds(rs: Seq<ConnRecord>)
    ensures
        0 <= count_live(rs) <= rs.len(),
    decreases rs.len(),
{
    if rs.len() > 0 {
        lemma_count_live_bounds(rs.drop_last());
    }
}

proof fn lemma_count_live_update(rs: Seq<ConnRecord>, k: int, r: ConnRecord)
    requires
        0 <= k < rs.len(),
    ensures
        count_live(rs.update(k, r)) == count_live(rs) - (if rs[k].reader_live {
            1int
        } else {
            0int
        }) + (if r.reader_live {
            1int
        } else {
            0int
        }),
    decreases rs.len(),
{
    if k == rs.len() - 1 {
        assert(rs.update(k, r).drop_last() =~= rs.drop_last());
        assert(rs.update(k, r).last() == r);
    } else {
        assert(rs.update(k, r).drop_last() =~= rs.drop_last().update(k, r));
        assert(rs.update(k, r).last() == rs.last());
        lemma_count_live_update(rs.drop_last(), k, r);
    }
}

proof fn lemma_count_live_push(rs: Seq<ConnRecord>, r: ConnRecord)
    ensures
        count_live(rs.push(r)) == count_live(rs) + (if r.reader_live {
            1int
        } else {
            0int
        }),
{
    assert(rs.push(r).drop_last() =~= rs);
    assert(rs.push(r).last() == r);
}

/// A record with a live reader contributes to the live count.
proof fn lemma_count_live_at(rs: Seq<ConnRecord>, k: int)
    requires
        0 <= k < rs.len(),
        rs[k].reader_live,
    ensures
        count_live(rs) >= 1,
    decreases rs.len(),
{
    lemma_count_live_bounds(rs.drop_last());
    if k < rs.len() - 1 {
        assert(rs.drop_last()[k] == rs[k]);
        lemma_count_live_at(rs.drop_last(), k);
    }
}

/// The Binance WebSocket endpoint for one symbol.
pub open spec fn spec_binance_endpoint(sym: Seq<u8>) -> Seq<u8> {
    ascii_bytes("wss://stream.binance.com:9443/ws/"@) + sym + ascii_bytes("@ticker"@)
}

/// Builds the per-symbol ticker endpoint.
pub fn binance_endpoint(sym: &Vec<u8>) -> (r: Vec<u8>)
    ensures
        r@ == spec_binance_endpoint(sym@),
{
    proof {
        reveal_strlit("wss://stream.binance.com:9443/ws/");
        reveal_strlit("@ticker");
    }
    let mut r = lit_bytes("wss://stream.binance.com:9443/ws/");
    push_bytes(&mut r, sym);
    let suffix = lit_bytes("@ticker");
    push_bytes(&mut r, &suffix);
    proof {
        assert(r@ =~= spec_binance_endpoint(sym@));
    }
    r
}

/// `r` with its attempt counter replaced.
pub open spec fn with_attempts(r: ConnRecord, a: u32) -> ConnRecord {
    ConnRecord { attempts: a, ..r }
}

/// `r` after its reader delivered the terminal event and no retry
/// follows.
pub open spec fn retired(r: ConnRecord) -> ConnRecord {
    ConnRecord { state: ConnectionState::Closed, reader_live: false, ..r }
}

/// Supervisor for Binance: one connection per subscribed symbol.
#[derive(Debug)]
pub struct BinanceContainer {
    /// The connection arena; `Closed` records are retired entries.
    pub conns: Vec<ConnRecord>,
    /// The next fresh connection identifier.
    pub next_id: u64,
    /// Reconnect policy shared by every connection.
    pub policy: ReconnectPolicy,
    /// The fan-in queue of decoded updates.
    pub bus: FanInBus,
    /// The cancellation signal: set once by `shutdown`.
    pub shutdown_flag: bool,
    /// How many sockets were opened (readers started) so far.
    pub opened: u64,
    /// How many reader terminal events were consumed so far.
    pub terminated: u64,
    /// Structured event log.
    pub events: Vec<SupEvent>,
}

impl BinanceContainer {
    /// Structural invariant of the supervisor.
    pub open spec fn wf(&self) -> bool {
        &&& forall|i: int, j: int|
            #![trigger self.conns@[i], self.conns@[j]]
            0 <= i < j < self.conns@.len() ==> self.conns@[i].id != self.conns@[j].id
        &&& forall|i: int|
            0 <= i < self.conns@.len() ==> (#[trigger] self.conns@[i]).id < self.next_id
        &&& forall|i: int, j: int|
            #![trigger self.conns@[i], self.conns@[j]]
            0 <= i < j < self.conns@.len() && !(self.conns@[i].state is Closed) && !(
            self.conns@[j].state is Closed) ==> self.conns@[i].symbol@ != self.conns@[j].symbol@
        &&& forall|i: int|
            0 <= i < self.conns@.len() ==> (#[trigger] self.conns@[i]).attempts
                <= self.policy.max_attempts
        &&& forall|i: int|
            0 <= i < self.conns@.len() ==> ((#[trigger] self.conns@[i]).reader_live ==> (
            self.conns@[i].state is Streaming || self.conns@[i].state is Closed))
        &&& forall|i: int|
            0 <= i < self.conns@.len() ==> ((#[trigger] self.conns@[i]).state is Streaming
                ==> self.conns@[i].reader_live)
        &&& self.opened as int == self.terminated as int + count_live(self.conns@)
        &&& self.bus.closed == self.shutdown_flag
        &&& self.shutdown_flag ==> forall|i: int|
            0 <= i < self.conns@.len() ==> !(#[trigger] self.conns@[i]).state.is_active()
    }

    /// The registry: whether `sym` is currently subscribed (it has a
    /// connection record that was not closed by unsubscribe/shutdown).
    pub open spec fn subscribed(&self, sym: Seq<u8>) -> bool {
        exists|i: int|
            0 <= i < self.conns@.len() && !((#[trigger] self.conns@[i]).state is Closed)
                && self.conns@[i].symbol@ == sym
    }

    /// The index of the record with identifier `conn`.
    pub open spec fn conn_idx(&self, conn: u64) -> int {
        choose|i: int| 0 <= i < self.conns@.len() && (#[trigger] self.conns@[i]).id == conn
    }

    /// The index of the live registry record for `sym`.
    pub open spec fn sym_idx(&self, sym: Seq<u8>) -> int {
        choose|i: int|
            0 <= i < self.conns@.len() && !((#[trigger] self.conns@[i]).state is Closed)
                && self.conns@[i].symbol@ == sym
    }

    /// Whether a frame from connection `conn` is accepted: no shutdown
    /// in progress and the connection is streaming.
    pub open spec fn accepts_frame(&self, conn: u64) -> bool {
        &&& !self.shutdown_flag
        &&& exists|i: int|
            0 <= i < self.conns@.len() && (#[trigger] self.conns@[i]).id == conn
                && self.conns@[i].state is Streaming
    }

    /// Whether a terminal event from connection `conn` is consumed: its
    /// reader is recorded as running.
    pub open spec fn accepts_terminal(&self, conn: u64) -> bool {
        exists|i: int|
            0 <= i < self.conns@.len() && (#[trigger] self.conns@[i]).id == conn
                && self.conns@[i].reader_live
    }

    /// Whether an opened socket for `conn` may start streaming: no
    /// shutdown in progress and the connection is waiting for a socket.
    pub open spec fn accepts_opened(&self, conn: u64) -> bool {
        &&& !self.shutdown_flag
        &&& exists|i: int|
            0 <= i < self.conns@.len() && (#[trigger] self.conns@[i]).id == conn && (
            self.conns@[i].state is Connecting || self.conns@[i].state is Reconnecting)
    }

    /// A supervisor with no connections, an open empty bus, and the
    /// given policy.
    pub fn with_policy(policy: ReconnectPolicy) -> (c: BinanceContainer)
        ensures
            c.wf(),
            c.conns@.len() == 0,
            c.next_id == 0,
            c.policy == policy,
            !c.shutdown_flag,
            c.opened == 0,
            c.terminated == 0,
            c.bus.items@.len() == 0,
            !c.bus.closed,
            c.events@.len() == 0,
            forall|s: Seq<u8>| !c.subscribed(s),
    {
        BinanceContainer {
            conns: Vec::new(),
            next_id: 0,
            policy,
            bus: FanInBus::new(),
            shutdown_flag: false,
            opened: 0,
            terminated: 0,
            events: Vec::new(),
        }
    }

    /// A supervisor with the default policy: five reconnection
    /// attempts, one second of base delay.
    pub fn new() -> (c: BinanceContainer)
        ensures
            c.wf(),
            c.conns@.len() == 0,
            c.next_id == 0,
            c.policy == (ReconnectPolicy { base_delay_ms: 1000u64, max_attempts: 5u32 }),
            !c.shutdown_flag,
            c.opened == 0,
            c.terminated == 0,
            c.bus.items@.len() == 0,
            !c.bus.closed,
            c.events@.len() == 0,
            forall|s: Seq<u8>| !c.subscribed(s),
    {
        Self::with_policy(ReconnectPolicy { base_delay_ms: 1000, max_attempts: 5 })
    }
}

impl BinanceContainer {
    /// Subscribes `symbol`.  A symbol that is already subscribed (even
    /// one whose connection has failed) is a no-op; otherwise a fresh
    /// connection record is created and its socket open is requested.
    /// During shutdown no subscription is accepted.
    pub fn add_symbol(&mut self, symbol: &Vec<u8>) -> (r: Result<Vec<Action>, SubscribeError>)
        requires
            old(self).wf(),
            old(self).next_id < u64::MAX,
        ensures
            final(self).wf(),
            old(self).shutdown_flag ==> r == Err::<Vec<Action>, SubscribeError>(
                SubscribeError::ShuttingDown,
            ) && *final(self) == *old(self),
            !old(self).shutdown_flag && old(self).subscribed(symbol@) ==> (
            r matches Ok(acts) && acts@.len() == 0) && *final(self) == *old(self),
            !old(self).shutdown_flag && !old(self).subscribed(symbol@) ==> ({
                &&& r matches Ok(acts) && acts@.len() == 1 && (acts@[0] matches
                    Action::OpenSocket { conn, endpoint } && conn == old(self).next_id
                    && endpoint@ == spec_binance_endpoint(symbol@))
                &&& final(self).conns@.len() == old(self).conns@.len() + 1
                &&& final(self).conns@.drop_last() == old(self).conns@
                &&& final(self).conns@.last().id == old(self).next_id
                &&& final(self).conns@.last().symbol@ == symbol@
                &&& final(self).conns@.last().state is Connecting
                &&& final(self).conns@.last().attempts == 0
                &&& !final(self).conns@.last().reader_live
                &&& final(self).next_id == old(self).next_id + 1
                &&& final(self).bus == old(self).bus
                &&& final(self).policy == old(self).policy
                &&& final(self).shutdown_flag == old(self).shutdown_flag
                &&& final(self).opened == old(self).opened
                &&& final(self).terminated == old(self).terminated
                &&& final(self).events@ == old(self).events@
            }),
            !old(self).shutdown_flag ==> forall|s: Seq<u8>|
                final(self).subscribed(s) == (old(self).subscribed(s) || s == symbol@),
    {
        if self.shutdown_flag {
            return Err(SubscribeError::ShuttingDown);
        }
        match find_by_symbol(&self.conns, symbol) {
            Some(_) => {
                proof {
                    assert forall|s: Seq<u8>|
                        self.subscribed(s) == (self.subscribed(s) || s == symbol@) by {
                        if s == symbol@ {
                            assert(self.subscribed(s));
                        }
                    }
                }
                Ok(Vec::new())
            },
            None => {
                let id = self.next_id;
                let endpoint = binance_endpoint(symbol);
                let rec = ConnRecord {
                    id,
                    symbol: clone_bytes(symbol),
                    state: ConnectionState::Connecting,
                    attempts: 0,
                    reader_live: false,
                };
                self.conns.push(rec);
                self.next_id = id + 1;
                let mut acts: Vec<Action> = Vec::new();
                acts.push(Action::OpenSocket { conn: id, endpoint });
                proof {
                    let oldc = old(self).conns@;
                    lemma_count_live_push(oldc, self.conns@.last());
                    assert(self.conns@.drop_last() =~= oldc);
                    assert forall|s: Seq<u8>|
                        self.subscribed(s) == (old(self).subscribed(s) || s == symbol@) by {
                        let n = oldc.len() as int;
                        if old(self).subscribed(s) {
                            let i = choose|i: int|
                                0 <= i < oldc.len() && !((#[trigger] oldc[i]).state is Closed)
                                    && oldc[i].symbol@ == s;
                            assert(self.conns@[i] == oldc[i]);
                            assert(self.subscribed(s));
                        }
                        if s == symbol@ {
                            assert(!(self.conns@[n].state is Closed) && self.conns@[n].symbol@
                                == s);
                            assert(self.subscribed(s));
                        }
                        if self.subscribed(s) {
                            let i = choose|i: int|
                                0 <= i < self.conns@.len() && !((#[trigger] self.conns@[i]).state is Closed) && self.conns@[i].symbol@ == s;
                            if i < n {
                                assert(oldc[i] == self.conns@[i]);
                                assert(old(self).subscribed(s));
                            } else {
                                assert(s == symbol@);
                            }
                        }
                    }
                }
                Ok(acts)
            },
        }
    }

    /// Unsubscribes `symbol`: its record is closed; a live reader is
    /// asked to stop (close the socket, then join the task).  Removing
    /// a symbol that is not subscribed is a no-op.
    pub fn remove_symbol(&mut self, symbol: &Vec<u8>) -> (acts: Vec<Action>)
        requires
            old(self).wf(),
        ensures
            final(self).wf(),
            !old(self).subscribed(symbol@) ==> *final(self) == *old(self) && acts@.len() == 0,
            old(self).subscribed(symbol@) ==> ({
                let i = old(self).sym_idx(symbol@);
                let rec = old(self).conns@[i];
                &&& 0 <= i < old(self).conns@.len()
                &&& final(self).conns@ == old(self).conns@.update(
                    i,
                    ConnRecord { state: ConnectionState::Closed, ..rec },
                )
                &&& (if rec.reader_live {
                    acts@.len() == 2 && acts@[0] == (Action::CloseSocket { conn: rec.id })
                        && acts@[1] == (Action::JoinReader { conn: rec.id })
                } else {
                    acts@.len() == 0
                })
                &&& final(self).next_id == old(self).next_id
                &&& final(self).bus == old(self).bus
                &&& final(self).policy == old(self).policy
                &&& final(self).shutdown_flag == old(self).shutdown_flag
                &&& final(self).opened == old(self).opened
                &&& final(self).terminated == old(self).terminated
                &&& final(self).events@ == old(self).events@
            }),
            forall|s: Seq<u8>|
                final(self).subscribed(s) == (old(self).subscribed(s) && s != symbol@),
    {
        match find_by_symbol(&self.conns, symbol) {
            None => {
                proof {
                    assert forall|s: Seq<u8>|
                        self.subscribed(s) == (self.subscribed(s) && s != symbol@) by {
                        if s == symbol@ {
                            assert(!self.subscribed(s));
                        }
                    }
                }
                Vec::new()
            },
            Some(ix) => {
                proof {
                    let i = old(self).sym_idx(symbol@);
                    assert(0 <= i < old(self).conns@.len() && !(old(self).conns@[i].state
                        is Closed) && old(self).conns@[i].symbol@ == symbol@);
                    if i != ix {
                        assert(false);
                    }
                }
                let was_live = self.conns[ix].reader_live;
                let id = self.conns[ix].id;
                let r = rec_mut(&mut self.conns, ix);
                r.state = ConnectionState::Closed;
                let mut acts: Vec<Action> = Vec::new();
                if was_live {
                    acts.push(Action::CloseSocket { conn: id });
                    acts.push(Action::JoinReader { conn: id });
                }
                proof {
                    let oldc = old(self).conns@;
                    let ixi = ix as int;
                    lemma_count_live_update(oldc, ixi, self.conns@[ixi]);
                    assert forall|s: Seq<u8>|
                        self.subscribed(s) == (old(self).subscribed(s) && s != symbol@) by {
                        if self.subscribed(s) {
                            let i = choose|i: int|
                                0 <= i < self.conns@.len() && !((#[trigger] self.conns@[i]).state is Closed) && self.conns@[i].symbol@ == s;
                            assert(i != ixi);
                            assert(oldc[i] == self.conns@[i]);
                            assert(old(self).subscribed(s));
                            if s == symbol@ {
                                assert(false);
                            }
                        }
                        if old(self).subscribed(s) && s != symbol@ {
                            let i = choose|i: int|
                                0 <= i < oldc.len() && !((#[trigger] oldc[i]).state is Closed)
                                    && oldc[i].symbol@ == s;
                            assert(i != ixi);
                            assert(self.conns@[i] == oldc[i]);
                            assert(self.subscribed(s));
                        }
                    }
                }
                acts
            },
        }
    }

    /// Whether a connection (open or being established) exists for
    /// `symbol`.
    pub fn has_socket_connection(&self, symbol: &Vec<u8>) -> (r: bool)
        requires
            self.wf(),
        ensures
            r == exists|i: int|
                0 <= i < self.conns@.len() && (#[trigger] self.conns@[i]).state.is_active()
                    && self.conns@[i].symbol@ == symbol@,
    {
        match find_by_symbol(&self.conns, symbol) {
            None => {
                proof {
                    assert forall|i: int|
                        0 <= i < self.conns@.len() implies !((#[trigger] self.conns@[i]).state.is_active() && self.conns@[i].symbol@ == symbol@) by {}
                }
                false
            },
            Some(ix) => {
                let active = match self.conns[ix].state {
                    ConnectionState::Connecting => true,
                    ConnectionState::Streaming => true,
                    ConnectionState::Reconnecting { .. } => true,
                    _ => false,
                };
                proof {
                    if !active {
                        assert forall|i: int|
                            0 <= i < self.conns@.len() implies !((#[trigger] self.conns@[i]).state.is_active() && self.conns@[i].symbol@ == symbol@) by {
                            if i != ix && !(self.conns@[i].state is Closed) && self.conns@[i].symbol@ == symbol@ {
                                assert(false);
                            }
                        }
                    }
                }
                active
            },
        }
    }

    /// The current state of `symbol`'s connection, observable by the
    /// caller; `None` when the symbol is not subscribed.
    pub fn symbol_state(&self, symbol: &Vec<u8>) -> (r: Option<ConnectionState>)
        requires
            self.wf(),
        ensures
            match r {
                None => !self.subscribed(symbol@),
                Some(st) => self.subscribed(symbol@) && self.conns@[self.sym_idx(symbol@)].state
                    == st,
            },
    {
        match find_by_symbol(&self.conns, symbol) {
            None => None,
            Some(ix) => {
                proof {
                    assert(self.subscribed(symbol@));
                    let i = self.sym_idx(symbol@);
                    assert(0 <= i < self.conns@.len() && !(self.conns@[i].state is Closed)
                        && self.conns@[i].symbol@ == symbol@);
                    if i != ix {
                        assert(false);
                    }
                }
                Some(self.conns[ix].state)
            },
        }
    }

    /// Reports a disconnect request; the actual teardown is
    /// `shutdown`'s job.
    pub fn disconnect(&self) {
    }

    /// How many reader tasks are currently running.
    pub fn live_readers(&self) -> (n: usize)
        ensures
            n == count_live(self.conns@),
    {
        proof {
            lemma_count_live_bounds(self.conns@);
        }
        let mut n: usize = 0;
        let mut i: usize = 0;
        while i < self.conns.len()
            invariant
                i <= self.conns@.len(),
                n == count_live(self.conns@.subrange(0, i as int)),
                n <= i,
            decreases self.conns@.len() - i,
        {
            proof {
                assert(self.conns@.subrange(0, i + 1 as int).drop_last() =~= self.conns@.subrange(
                    0,
                    i as int,
                ));
                assert(self.conns@.subrange(0, i + 1 as int).last() == self.conns@[i as int]);
            }
            if self.conns[i].reader_live {
                n += 1;
            }
            i += 1;
        }
        proof {
            assert(self.conns@.subrange(0, self.conns@.len() as int) =~= self.conns@);
        }
        n
    }
}

impl BinanceContainer {
    /// Reports that connection `conn`'s socket was opened and its
    /// reader task started.  If the connection is no longer waiting for
    /// a socket (unsubscribed, failed, duplicate report, or shutdown in
    /// progress), the socket is closed again and no reader is counted.
    pub fn on_opened(&mut self, conn: u64) -> (acts: Vec<Action>)
        requires
            old(self).wf(),
            old(self).opened < u64::MAX,
        ensures
            final(self).wf(),
            !old(self).accepts_opened(conn) ==> *final(self) == *old(self) && acts@.len() == 1
                && acts@[0] == (Action::CloseSocket { conn }),
            old(self).accepts_opened(conn) ==> ({
                let i = old(self).conn_idx(conn);
                let rec = old(self).conns@[i];
                &&& 0 <= i < old(self).conns@.len()
                &&& final(self).conns@ == old(self).conns@.update(
                    i,
                    ConnRecord { state: ConnectionState::Streaming, reader_live: true, ..rec },
                )
                &&& final(self).opened == old(self).opened + 1
                &&& final(self).terminated == old(self).terminated
                &&& final(self).events@ == old(self).events@.push(SupEvent::Connected { conn })
                &&& acts@.len() == 0
                &&& final(self).next_id == old(self).next_id
                &&& final(self).bus == old(self).bus
                &&& final(self).policy == old(self).policy
                &&& final(self).shutdown_flag == old(self).shutdown_flag
            }),
    {
        if self.shutdown_flag {
            let mut acts: Vec<Action> = Vec::new();
            acts.push(Action::CloseSocket { conn });
            return acts;
        }
        match find_by_id(&self.conns, conn) {
            None => {
                let mut acts: Vec<Action> = Vec::new();
                acts.push(Action::CloseSocket { conn });
                acts
            },
            Some(ix) => {
                let waiting = match self.conns[ix].state {
                    ConnectionState::Connecting => true,
                    ConnectionState::Reconnecting { .. } => true,
                    _ => false,
                };
                if !waiting {
                    proof {
                        assert forall|i: int|
                            0 <= i < self.conns@.len() implies !((#[trigger] self.conns@[i]).id
                            == conn && (self.conns@[i].state is Connecting || self.conns@[i].state
                            is Reconnecting)) by {
                            if i != ix && self.conns@[i].id == conn {
                                assert(false);
                            }
                        }
                    }
                    let mut acts: Vec<Action> = Vec::new();
                    acts.push(Action::CloseSocket { conn });
                    acts
                } else {
                    proof {
                        let i = old(self).conn_idx(conn);
                        assert(0 <= i < self.conns@.len() && self.conns@[i].id == conn);
                        if i != ix {
                            assert(false);
                        }
                    }
                    let r = rec_mut(&mut self.conns, ix);
                    r.state = ConnectionState::Streaming;
                    r.reader_live = true;
                    self.opened = self.opened + 1;
                    self.events.push(SupEvent::Connected { conn });
                    proof {
                        lemma_count_live_update(
                            old(self).conns@,
                            ix as int,
                            self.conns@[ix as int],
                        );
                    }
                    Vec::new()
                }
            },
        }
    }

    /// Reports that opening a socket for connection `conn` failed.  The
    /// reconnect policy decides between another attempt (with its
    /// backoff delay) and giving up.
    pub fn on_open_failed(&mut self, conn: u64, err: ConnectError) -> (acts: Vec<Action>)
        requires
            old(self).wf(),
        ensures
            final(self).wf(),
            !old(self).accepts_opened(conn) ==> *final(self) == *old(self) && acts@.len() == 0,
            old(self).accepts_opened(conn) ==> ({
                let i = old(self).conn_idx(conn);
                let rec = old(self).conns@[i];
                &&& 0 <= i < old(self).conns@.len()
                &&& match spec_next_step(rec.attempts, old(self).policy) {
                    TerminalStep::Retry { attempt, delay_ms } => {
                        &&& final(self).conns@ == old(self).conns@.update(
                            i,
                            ConnRecord {
                                state: ConnectionState::Reconnecting { attempt },
                                attempts: attempt,
                                ..rec
                            },
                        )
                        &&& final(self).events@ == old(self).events@.push(
                            SupEvent::OpenFailed { conn, err },
                        ).push(SupEvent::ReconnectAttempt { conn, attempt })
                        &&& acts@.len() == 1 && (acts@[0] matches Action::Reopen {
                            conn: c2,
                            delay_ms: d2,
                            endpoint,
                        } && c2 == conn && d2 == delay_ms && endpoint@ == spec_binance_endpoint(
                            rec.symbol@,
                        ))
                    },
                    TerminalStep::Exhausted => {
                        &&& final(self).conns@ == old(self).conns@.update(
                            i,
                            ConnRecord {
                                state: ConnectionState::Failed {
                                    reason: FailReason::ReconnectExhausted,
                                },
                                ..rec
                            },
                        )
                        &&& final(self).events@ == old(self).events@.push(
                            SupEvent::OpenFailed { conn, err },
                        ).push(SupEvent::GaveUp { conn })
                        &&& acts@.len() == 0
                    },
                }
                &&& final(self).opened == old(self).opened
                &&& final(self).terminated == old(self).terminated
                &&& final(self).next_id == old(self).next_id
                &&& final(self).bus == old(self).bus
                &&& final(self).policy == old(self).policy
                &&& final(self).shutdown_flag == old(self).shutdown_flag
            }),
    {
        if self.shutdown_flag {
            return Vec::new();
        }
        match find_by_id(&self.conns, conn) {
            None => Vec::new(),
            Some(ix) => {
                let waiting = match self.conns[ix].state {
                    ConnectionState::Connecting => true,
                    ConnectionState::Reconnecting { .. } => true,
                    _ => false,
                };
                if !waiting {
                    proof {
                        assert forall|i: int|
                            0 <= i < self.conns@.len() implies !((#[trigger] self.conns@[i]).id
                            == conn && (self.conns@[i].state is Connecting || self.conns@[i].state
                            is Reconnecting)) by {
                            if i != ix && self.conns@[i].id == conn {
                                assert(false);
                            }
                        }
                    }
                    return Vec::new();
                }
                proof {
                    let i = old(self).conn_idx(conn);
                    assert(0 <= i < self.conns@.len() && self.conns@[i].id == conn);
                    if i != ix {
                        assert(false);
                    }
                }
                let attempts = self.conns[ix].attempts;
                let step = next_step(attempts, &self.policy);
                self.events.push(SupEvent::OpenFailed { conn, err });
                match step {
                    TerminalStep::Retry { attempt, delay_ms } => {
                        let endpoint = binance_endpoint(&self.conns[ix].symbol);
                        let r = rec_mut(&mut self.conns, ix);
                        r.state = ConnectionState::Reconnecting { attempt };
                        r.attempts = attempt;
                        self.events.push(SupEvent::ReconnectAttempt { conn, attempt });
                        let mut acts: Vec<Action> = Vec::new();
                        acts.push(Action::Reopen { conn, delay_ms, endpoint });
                        proof {
                            lemma_count_live_update(
                                old(self).conns@,
                                ix as int,
                                self.conns@[ix as int],
                            );
                        }
                        acts
                    },
                    TerminalStep::Exhausted => {
                        let r = rec_mut(&mut self.conns, ix);
                        r.state = ConnectionState::Failed {
                            reason: FailReason::ReconnectExhausted,
                        };
                        self.events.push(SupEvent::GaveUp { conn });
                        proof {
                            lemma_count_live_update(
                                old(self).conns@,
                                ix as int,
                                self.conns@[ix as int],
                            );
                        }
                        Vec::new()
                    },
                }
            },
        }
    }
}

/// The actions that stop every running reader: close its socket, then
/// join its task.
pub open spec fn shutdown_actions(rs: Seq<ConnRecord>) -> Seq<Action>
    decreases rs.len(),
{
    if rs.len() == 0 {
        Seq::empty()
    } else {
        (if rs[0].reader_live {
            seq![
                Action::CloseSocket { conn: rs[0].id },
                Action::JoinReader { conn: rs[0].id },
            ]
        } else {
            Seq::empty()
        }) + shutdown_actions(rs.drop_first())
    }
}

impl BinanceContainer {
    /// Handles one text frame read by connection `conn`'s reader.  A
    /// frame is accepted only while the connection is streaming and no
    /// shutdown is in progress.  A decoded update goes onto the bus and
    /// resets the attempt counter; a valid non-price frame only resets
    /// the counter; a malformed frame is dropped, leaves the connection
    /// untouched and is recorded as a decode failure.
    pub fn on_frame(&mut self, conn: u64, frame: &Vec<u8>)
        requires
            old(self).wf(),
        ensures
            final(self).wf(),
            !old(self).accepts_frame(conn) ==> *final(self) == *old(self),
            old(self).accepts_frame(conn) ==> ({
                let i = old(self).conn_idx(conn);
                let rec = old(self).conns@[i];
                &&& 0 <= i < old(self).conns@.len()
                &&& match spec_decode_binance(rec.symbol@, frame@) {
                    SpecOutcome::Malformed => {
                        &&& final(self).conns@ == old(self).conns@
                        &&& final(self).bus.items@ == old(self).bus.items@
                        &&& final(self).events@ == old(self).events@.push(
                            SupEvent::DecodeFailure { conn },
                        )
                    },
                    SpecOutcome::Ignored => {
                        &&& final(self).conns@ == old(self).conns@.update(
                            i,
                            with_attempts(rec, 0),
                        )
                        &&& final(self).bus.items@ == old(self).bus.items@
                        &&& final(self).events@ == old(self).events@
                    },
                    SpecOutcome::Update { symbol, price, source } => {
                        &&& final(self).conns@ == old(self).conns@.update(
                            i,
                            with_attempts(rec, 0),
                        )
                        &&& final(self).bus.items@.len() == old(self).bus.items@.len() + 1
                        &&& final(self).bus.items@.drop_last() == old(self).bus.items@
                        &&& final(self).bus.items@.last().symbol@ == symbol
                        &&& final(self).bus.items@.last().price == price
                        &&& final(self).bus.items@.last().source == source
                        &&& final(self).events@ == old(self).events@
                    },
                }
                &&& final(self).bus.closed == old(self).bus.closed
                &&& final(self).opened == old(self).opened
                &&& final(self).terminated == old(self).terminated
                &&& final(self).next_id == old(self).next_id
                &&& final(self).policy == old(self).policy
                &&& final(self).shutdown_flag == old(self).shutdown_flag
            }),
    {
        if self.shutdown_flag {
            return;
        }
        match find_by_id(&self.conns, conn) {
            None => {},
            Some(ix) => {
                let streaming = match self.conns[ix].state {
                    ConnectionState::Streaming => true,
                    _ => false,
                };
                if !streaming {
                    proof {
                        assert forall|i: int|
                            0 <= i < self.conns@.len() implies !((#[trigger] self.conns@[i]).id
                            == conn && self.conns@[i].state is Streaming) by {
                            if i != ix && self.conns@[i].id == conn {
                                assert(false);
                            }
                        }
                    }
                    return;
                }
                proof {
                    let i = old(self).conn_idx(conn);
                    assert(0 <= i < self.conns@.len() && self.conns@[i].id == conn);
                    if i != ix {
                        assert(false);
                    }
                }
                let outcome = decode_binance(&self.conns[ix].symbol, frame);
                match outcome {
                    DecodeOutcome::Malformed => {
                        self.events.push(SupEvent::DecodeFailure { conn });
                    },
                    DecodeOutcome::Ignored => {
                        let r = rec_mut(&mut self.conns, ix);
                        r.attempts = 0;
                        proof {
                            lemma_count_live_update(
                                old(self).conns@,
                                ix as int,
                                self.conns@[ix as int],
                            );
                        }
                    },
                    DecodeOutcome::Update(u) => {
                        let r = rec_mut(&mut self.conns, ix);
                        r.attempts = 0;
                        let pushed = self.bus.push(u);
                        proof {
                            assert(pushed is Ok);
                            lemma_count_live_update(
                                old(self).conns@,
                                ix as int,
                                self.conns@[ix as int],
                            );
                        }
                    },
                }
            },
        }
    }

    /// Consumes the terminal event of connection `conn`'s reader:
    /// exactly one is consumed per reader the supervisor started.
    /// During shutdown (or after unsubscribe, or on observed
    /// cancellation) the connection closes; otherwise the reconnect
    /// policy decides between a delayed reopen and giving up, which is
    /// surfaced as the `Failed` state, never swallowed.
    pub fn on_terminate(&mut self, conn: u64, reason: TerminateReason) -> (acts: Vec<Action>)
        requires
            old(self).wf(),
        ensures
            final(self).wf(),
            !old(self).accepts_terminal(conn) ==> *final(self) == *old(self) && acts@.len()
                == 0,
            old(self).accepts_terminal(conn) ==> ({
                let i = old(self).conn_idx(conn);
                let rec = old(self).conns@[i];
                &&& 0 <= i < old(self).conns@.len()
                &&& final(self).terminated == old(self).terminated + 1
                &&& (if old(self).shutdown_flag || rec.state is Closed || reason
                    is Cancelled {
                    &&& final(self).conns@ == old(self).conns@.update(i, retired(rec))
                    &&& final(self).events@ == old(self).events@.push(
                        SupEvent::Disconnected { conn },
                    )
                    &&& acts@.len() == 0
                } else {
                    match spec_next_step(rec.attempts, old(self).policy) {
                        TerminalStep::Retry { attempt, delay_ms } => {
                            &&& final(self).conns@ == old(self).conns@.update(
                                i,
                                ConnRecord {
                                    state: ConnectionState::Reconnecting { attempt },
                                    attempts: attempt,
                                    reader_live: false,
                                    ..rec
                                },
                            )
                            &&& final(self).events@ == old(self).events@.push(
                                SupEvent::Disconnected { conn },
                            ).push(SupEvent::ReconnectAttempt { conn, attempt })
                            &&& acts@.len() == 1 && (acts@[0] matches Action::Reopen {
                                conn: c2,
                                delay_ms: d2,
                                endpoint,
                            } && c2 == conn && d2 == delay_ms && endpoint@
                                == spec_binance_endpoint(rec.symbol@))
                        },
                        TerminalStep::Exhausted => {
                            &&& final(self).conns@ == old(self).conns@.update(
                                i,
                                ConnRecord {
                                    state: ConnectionState::Failed {
                                        reason: FailReason::ReconnectExhausted,
                                    },
                                    reader_live: false,
                                    ..rec
                                },
                            )
                            &&& final(self).events@ == old(self).events@.push(
                                SupEvent::Disconnected { conn },
                            ).push(SupEvent::GaveUp { conn })
                            &&& acts@.len() == 0
                        },
                    }
                })
                &&& final(self).opened == old(self).opened
                &&& final(self).next_id == old(self).next_id
                &&& final(self).bus == old(self).bus
                &&& final(self).policy == old(self).policy
                &&& final(self).shutdown_flag == old(self).shutdown_flag
            }),
    {
        match find_by_id(&self.conns, conn) {
            None => Vec::new(),
            Some(ix) => {
                if !self.conns[ix].reader_live {
                    proof {
                        assert forall|i: int|
                            0 <= i < self.conns@.len() implies !((#[trigger] self.conns@[i]).id
                            == conn && self.conns@[i].reader_live) by {
                            if i != ix && self.conns@[i].id == conn {
                                assert(false);
                            }
                        }
                    }
                    return Vec::new();
                }
                proof {
                    let i = old(self).conn_idx(conn);
                    assert(0 <= i < self.conns@.len() && self.conns@[i].id == conn);
                    if i != ix {
                        assert(false);
                    }
                    lemma_count_live_at(old(self).conns@, ix as int);
                }
                let closing = match self.conns[ix].state {
                    ConnectionState::Closed => true,
                    _ => false,
                };
                let cancelled = match reason {
                    TerminateReason::Cancelled => true,
                    _ => false,
                };
                if self.shutdown_flag || closing || cancelled {
                    let r = rec_mut(&mut self.conns, ix);
                    r.state = ConnectionState::Closed;
                    r.reader_live = false;
                    self.terminated = self.terminated + 1;
                    self.events.push(SupEvent::Disconnected { conn });
                    proof {
                        lemma_count_live_update(
                            old(self).conns@,
                            ix as int,
                            self.conns@[ix as int],
                        );
                    }
                    Vec::new()
                } else {
                    let attempts = self.conns[ix].attempts;
                    let step = next_step(attempts, &self.policy);
                    self.terminated = self.terminated + 1;
                    self.events.push(SupEvent::Disconnected { conn });
                    match step {
                        TerminalStep::Retry { attempt, delay_ms } => {
                            let endpoint = binance_endpoint(&self.conns[ix].symbol);
                            let r = rec_mut(&mut self.conns, ix);
                            r.state = ConnectionState::Reconnecting { attempt };
                            r.attempts = attempt;
                            r.reader_live = false;
                            self.events.push(SupEvent::ReconnectAttempt { conn, attempt });
                            let mut acts: Vec<Action> = Vec::new();
                            acts.push(Action::Reopen { conn, delay_ms, endpoint });
                            proof {
                                lemma_count_live_update(
                                    old(self).conns@,
                                    ix as int,
                                    self.conns@[ix as int],
                                );
                            }
                            acts
                        },
                        TerminalStep::Exhausted => {
                            let r = rec_mut(&mut self.conns, ix);
                            r.state = ConnectionState::Failed {
                                reason: FailReason::ReconnectExhausted,
                            };
                            r.reader_live = false;
                            self.events.push(SupEvent::GaveUp { conn });
                            proof {
                                lemma_count_live_update(
                                    old(self).conns@,
                                    ix as int,
                                    self.conns@[ix as int],
                                );
                            }
                            Vec::new()
                        },
                    }
                }
            },
        }
    }

    /// Initiates graceful shutdown: the cancellation flag is set, the
    /// bus is closed to new updates (queued ones stay available), every
    /// record leaves the active states, and every running reader is
    /// asked to stop and be joined.  Idempotent: calling it again is
    /// safe and reissues the stop actions for readers still running.
    pub fn shutdown(&mut self) -> (acts: Vec<Action>)
        requires
            old(self).wf(),
        ensures
            final(self).wf(),
            final(self).shutdown_flag,
            final(self).bus.closed,
            final(self).bus.items@ == old(self).bus.items@,
            final(self).conns@.len() == old(self).conns@.len(),
            forall|i: int|
                0 <= i < old(self).conns@.len() ==> final(self).conns@[i] == (ConnRecord {
                    state: (if old(self).conns@[i].state is Failed {
                        old(self).conns@[i].state
                    } else {
                        ConnectionState::Closed
                    }),
                    ..old(self).conns@[i]
                }),
            acts@ == shutdown_actions(old(self).conns@),
            final(self).opened == old(self).opened,
            final(self).terminated == old(self).terminated,
            final(self).next_id == old(self).next_id,
            final(self).policy == old(self).policy,
            final(self).events@ == old(self).events@,
    {
        self.shutdown_flag = true;
        self.bus.close();
        let mut acts: Vec<Action> = Vec::new();
        let ghost oldc = old(self).conns@;
        proof {
            assert(oldc.skip(0) =~= oldc);
            assert(acts@ + shutdown_actions(oldc) =~= shutdown_actions(oldc));
        }
        let mut i: usize = 0;
        while i < self.conns.len()
            invariant
                i <= self.conns@.len(),
                self.conns@.len() == oldc.len(),
                forall|j: int|
                    0 <= j < i ==> #[trigger] self.conns@[j] == (ConnRecord {
                        state: (if oldc[j].state is Failed {
                            oldc[j].state
                        } else {
                            ConnectionState::Closed
                        }),
                        ..oldc[j]
                    }),
                forall|j: int| i <= j < oldc.len() ==> #[trigger] self.conns@[j] == oldc[j],
                shutdown_actions(oldc) == acts@ + shutdown_actions(oldc.skip(i as int)),
                self.shutdown_flag,
                self.bus.closed,
                self.bus.items@ == old(self).bus.items@,
                self.opened == old(self).opened,
                self.terminated == old(self).terminated,
                self.next_id == old(self).next_id,
                self.policy == old(self).policy,
                self.events@ == old(self).events@,
                oldc == old(self).conns@,
            decreases self.conns@.len() - i,
        {
            let live = self.conns[i].reader_live;
            let id = self.conns[i].id;
            let failed = match self.conns[i].state {
                ConnectionState::Failed { .. } => true,
                _ => false,
            };
            proof {
                assert(oldc.skip(i as int)[0] == oldc[i as int]);
                assert(oldc.skip(i as int).drop_first() =~= oldc.skip(i as int + 1));
            }
            if !failed {
                let r = rec_mut(&mut self.conns, i);
                r.state = ConnectionState::Closed;
            }
            if live {
                acts.push(Action::CloseSocket { conn: id });
                acts.push(Action::JoinReader { conn: id });
                proof {
                    assert(acts@ =~= (acts@.drop_last().drop_last()).push(
                        Action::CloseSocket { conn: id },
                    ).push(Action::JoinReader { conn: id }));
                    assert((acts@.drop_last().drop_last()) + (seq![
                        Action::CloseSocket { conn: id },
                        Action::JoinReader { conn: id },
                    ] + shutdown_actions(oldc.skip(i as int + 1))) =~= acts@
                        + shutdown_actions(oldc.skip(i as int + 1)));
                }
            } else {
                proof {
                    assert(Seq::<Action>::empty() + shutdown_actions(oldc.skip(i as int + 1))
                        =~= shutdown_actions(oldc.skip(i as int + 1)));
                }
            }
            i += 1;
        }
        proof {
            assert(oldc.skip(oldc.len() as int) =~= Seq::<ConnRecord>::empty());
            assert(acts@ + Seq::<Action>::empty() =~= acts@);
            assert(count_live(self.conns@) == count_live(oldc)) by {
                lemma_count_live_same(self.conns@, oldc);
            }
        }
        acts
    }

    /// Starts monitoring every symbol in `symbols` by subscribing each
    /// in turn; the returned actions open one socket per symbol that
    /// was not already subscribed.
    pub fn start_monitoring(&mut self, symbols: &Vec<Vec<u8>>) -> (r: Result<
        Vec<Action>,
        SubscribeError,
    >)
        requires
            old(self).wf(),
            old(self).next_id as int + symbols@.len() <= u64::MAX,
        ensures
            final(self).wf(),
            old(self).shutdown_flag ==> r == Err::<Vec<Action>, SubscribeError>(
                SubscribeError::ShuttingDown,
            ) && *final(self) == *old(self),
            !old(self).shutdown_flag ==> r is Ok && (forall|s: Seq<u8>|
                final(self).subscribed(s) == (old(self).subscribed(s) || exists|j: int|
                    0 <= j < symbols@.len() && (#[trigger] symbols@[j])@ == s)),
            !old(self).shutdown_flag ==> (r matches Ok(acts) && ({
                // One socket open per symbol newly subscribed, with
                // consecutive fresh connection identifiers.
                &&& acts@.len() == final(self).next_id - old(self).next_id
                &&& forall|k: int|
                    0 <= k < acts@.len() ==> ((#[trigger] acts@[k]) matches Action::OpenSocket {
                        conn,
                        endpoint,
                    } && conn == old(self).next_id + k)
            })),
            !old(self).shutdown_flag ==> final(self).shutdown_flag == old(self).shutdown_flag
                && final(self).opened == old(self).opened && final(self).terminated == old(self).terminated && final(self).bus == old(self).bus && final(self).policy == old(self).policy,
    {
        if self.shutdown_flag {
            return Err(SubscribeError::ShuttingDown);
        }
        let mut acts: Vec<Action> = Vec::new();
        let mut i: usize = 0;
        while i < symbols.len()
            invariant
                i <= symbols@.len(),
                self.wf(),
                !self.shutdown_flag,
                self.next_id as int + (symbols@.len() - i) <= u64::MAX,
                forall|s: Seq<u8>|
                    self.subscribed(s) == (old(self).subscribed(s) || exists|j: int|
                        0 <= j < i && (#[trigger] symbols@[j])@ == s),
                acts@.len() == self.next_id - old(self).next_id,
                forall|k: int|
                    0 <= k < acts@.len() ==> ((#[trigger] acts@[k]) matches Action::OpenSocket {
                        conn,
                        endpoint,
                    } && conn == old(self).next_id + k),
                self.opened == old(self).opened,
                self.terminated == old(self).terminated,
                self.bus == old(self).bus,
                self.policy == old(self).policy,
            decreases symbols@.len() - i,
        {
            let res = self.add_symbol(&symbols[i]);
            match res {
                Ok(mut a) => {
                    acts.append(&mut a);
                },
                Err(_) => {},
            }
            proof {
                assert forall|s: Seq<u8>|
                    self.subscribed(s) == (old(self).subscribed(s) || exists|j: int|
                        0 <= j < i + 1 && (#[trigger] symbols@[j])@ == s) by {
                    if exists|j: int| 0 <= j < i + 1 && (#[trigger] symbols@[j])@ == s {
                        let j = choose|j: int| 0 <= j < i + 1 && (#[trigger] symbols@[j])@ == s;
                        if j < i {
                            assert(exists|j2: int|
                                0 <= j2 < i && (#[trigger] symbols@[j2])@ == s);
                        } else {
                            assert(symbols@[i as int]@ == s);
                        }
                    }
                }
            }
            i += 1;
        }
        Ok(acts)
    }

    /// Pops the next fan-in update, oldest first.
    pub fn next_update(&mut self) -> (r: Option<PriceUpdate>)
        ensures
            old(self).bus.items@.len() == 0 ==> r is None && *final(self) == *old(self),
            old(self).bus.items@.len() > 0 ==> r == Some(old(self).bus.items@[0])
                && final(self).bus.items@ == old(self).bus.items@.drop_first() && final(self).bus.closed == old(self).bus.closed && final(self).conns@ == old(self).conns@
                && final(self).events@ == old(self).events@,
    {
        self.bus.pop()
    }
}

/// Closing records does not change which readers are live.
proof fn lemma_count_live_same(a: Seq<ConnRecord>, b: Seq<ConnRecord>)
    requires
        a.len() == b.len(),
        forall|i: int|
            0 <= i < a.len() ==> (#[trigger] a[i]).reader_live == (#[trigger] b[i]).reader_live,
    ensures
        count_live(a) == count_live(b),
    decreases a.len(),
{
    if a.len() > 0 {
        assert(a.drop_last().len() == b.drop_last().len());
        lemma_count_live_same(a.drop_last(), b.drop_last());
    }
}

/// One terminal event per reader: however the run interleaved, the
/// number of consumed terminal events plus the readers still running
/// equals the number of readers ever started; once no reader is
/// running, the two counts agree exactly.
pub proof fn lemma_terminal_accounting(c: &BinanceContainer)
    requires
        c.wf(),
    ensures
        c.opened as int == c.terminated as int + count_live(c.conns@),
        count_live(c.conns@) == 0 ==> c.opened == c.terminated,
{
}

/// The attempt counter of every tracked connection never exceeds the
/// policy's limit; the policy transitions a connection to `Failed`
/// before that could happen.
pub proof fn lemma_attempts_bounded(c: &BinanceContainer, i: int)
    requires
        c.wf(),
        0 <= i < c.conns@.len(),
    ensures
        c.conns@[i].attempts <= c.policy.max_attempts,
{
}

/// Finds the record with identifier `id`.
fn find_by_id(conns: &Vec<ConnRecord>, id: u64) -> (r: Option<usize>)
    ensures
        match r {
            None => forall|i: int| 0 <= i < conns@.len() ==> (#[trigger] conns@[i]).id != id,
            Some(ix) => ix < conns@.len() && conns@[ix as int].id == id,
        },
{
    let mut i: usize = 0;
    while i < conns.len()
        invariant
            i <= conns@.len(),
            forall|j: int| 0 <= j < i ==> (#[trigger] conns@[j]).id != id,
        decreases conns@.len() - i,
    {
        if conns[i].id == id {
            return Some(i);
        }
        i += 1;
    }
    None
}

/// Finds the live registry record for `sym`.
fn find_by_symbol(conns: &Vec<ConnRecord>, sym: &Vec<u8>) -> (r: Option<usize>)
    ensures
        match r {
            None => forall|i: int|
                0 <= i < conns@.len() ==> ((#[trigger] conns@[i]).state is Closed
                    || conns@[i].symbol@ != sym@),
            Some(ix) => ix < conns@.len() && !(conns@[ix as int].state is Closed)
                && conns@[ix as int].symbol@ == sym@,
        },
{
    let mut i: usize = 0;
    while i < conns.len()
        invariant
            i <= conns@.len(),
            forall|j: int|
                0 <= j < i ==> ((#[trigger] conns@[j]).state is Closed || conns@[j].symbol@
                    != sym@),
        decreases conns@.len() - i,
    {
        let closed = match conns[i].state {
            ConnectionState::Closed => true,
            _ => false,
        };
        if !closed && crate::bytes::bytes_eq(&conns[i].symbol, sym) {
            return Some(i);
        }
        i += 1;
    }
    None
}

/// Mutable access to one record, with the update visible in the view.
fn rec_mut(v: &mut Vec<ConnRecord>, i: usize) -> (r: &mut ConnRecord)
    requires
        i < old(v)@.len(),
    ensures
        *r == old(v)@[i as int],
        final(v)@ == old(v)@.update(i as int, *final(r)),
{
    &mut v[i]
}

} // verus!
