//! The fan-in consumer: tracks the symbols the caller wants, hands them
//! to the Binance supervisor, and drains the decoded updates.

use vstd::prelude::*;
use crate::binance::BinanceContainer;
use crate::bytes::clone_bytes;
use crate::conn::{Action, SubscribeError};
use crate::models::PriceUpdate;

verus! {

/// Collects symbols to monitor and consumes the resulting updates.
#[derive(Debug)]
pub struct SocketConsumer {
    /// The symbols the caller asked to monitor, in request order.
    pub symbols: Vec<Vec<u8>>,
    /// The supervisor that owns the per-symbol connections.
    pub binance_container: BinanceContainer,
}

impl SocketConsumer {
    /// A consumer with no symbols and a fresh supervisor.
    pub fn new() -> (c: SocketConsumer)
        ensures
            c.symbols@.len() == 0,
            c.binance_container.wf(),
            c.binance_container.conns@.len() == 0,
            c.binance_container.next_id == 0,
            !c.binance_container.shutdown_flag,
            c.binance_container.bus.items@.len() == 0,
            forall|s: Seq<u8>| !c.binance_container.subscribed(s),
    {
        SocketConsumer { symbols: Vec::new(), binance_container: BinanceContainer::new() }
    }

    /// Remembers one more symbol to monitor.
    pub fn add_symbol(&mut self, symbol: &Vec<u8>)
        ensures
            final(self).symbols@.len() == old(self).symbols@.len() + 1,
            final(self).symbols@.drop_last() == old(self).symbols@,
            final(self).symbols@.last()@ == symbol@,
            final(self).binance_container == old(self).binance_container,
    {
        self.symbols.push(clone_bytes(symbol));
        proof {
            assert(self.symbols@.drop_last() =~= old(self).symbols@);
        }
    }

    /// Subscribes every remembered symbol with the supervisor; the
    /// returned actions open one socket per symbol not already
    /// subscribed.  The caller then performs the actions and drains
    /// updates through `next_update`.
    pub fn start_binance_price_monitoring(&mut self) -> (r: Result<Vec<Action>, SubscribeError>)
        requires
            old(self).binance_container.wf(),
            old(self).binance_container.next_id as int + old(self).symbols@.len() <= u64::MAX,
        ensures
            final(self).binance_container.wf(),
            final(self).symbols@ == old(self).symbols@,
            old(self).binance_container.shutdown_flag ==> r == Err::<Vec<Action>, SubscribeError>(
                SubscribeError::ShuttingDown,
            ),
            !old(self).binance_container.shutdown_flag ==> r is Ok && (forall|s: Seq<u8>|
                final(self).binance_container.subscribed(s) == (old(
                    self,
                ).binance_container.subscribed(s) || exists|j: int|
                    0 <= j < old(self).symbols@.len() && (#[trigger] old(self).symbols@[j])@
                        == s)),
    {
        let symbols = clone_symbol_list(&self.symbols);
        proof {
            assert forall|j: int| 0 <= j < symbols@.len() implies (#[trigger] symbols@[j])@
                == self.symbols@[j]@ by {}
        }
        let r = self.binance_container.start_monitoring(&symbols);
        proof {
            if !old(self).binance_container.shutdown_flag {
                assert forall|s: Seq<u8>|
                    self.binance_container.subscribed(s) == (old(
                        self,
                    ).binance_container.subscribed(s) || exists|j: int|
                        0 <= j < old(self).symbols@.len() && (#[trigger] old(self).symbols@[j])@
                            == s) by {
                    if exists|j: int|
                        0 <= j < symbols@.len() && (#[trigger] symbols@[j])@ == s {
                        let j = choose|j: int|
                            0 <= j < symbols@.len() && (#[trigger] symbols@[j])@ == s;
                        assert(old(self).symbols@[j]@ == s);
                    }
                    if exists|j: int|
                        0 <= j < old(self).symbols@.len() && (#[trigger] old(self).symbols@[j])@
                            == s {
                        let j = choose|j: int|
                            0 <= j < old(self).symbols@.len() && (#[trigger] old(
                                self,
                            ).symbols@[j])@ == s;
                        assert(symbols@[j]@ == s);
                    }
                }
            }
        }
        r
    }

    /// Pops the next decoded update, oldest first.
    pub fn next_update(&mut self) -> (r: Option<PriceUpdate>)
        ensures
            old(self).binance_container.bus.items@.len() == 0 ==> r is None,
            old(self).binance_container.bus.items@.len() > 0 ==> r == Some(
                old(self).binance_container.bus.items@[0],
            ) && final(self).binance_container.bus.items@ == old(
                self,
            ).binance_container.bus.items@.drop_first(),
            final(self).symbols@ == old(self).symbols@,
    {
        self.binance_container.next_update()
    }
}

/// An owned copy of a symbol list.
fn clone_symbol_list(v: &Vec<Vec<u8>>) -> (r: Vec<Vec<u8>>)
    ensures
        r@.len() == v@.len(),
        forall|i: int| 0 <= i < v@.len() ==> (#[trigger] r@[i])@ == v@[i]@,
{
    let mut r: Vec<Vec<u8>> = Vec::new();
    let mut i: usize = 0;
    while i < v.len()
        invariant
            i <= v@.len(),
            r@.len() == i,
            forall|j: int| 0 <= j < i ==> (#[trigger] r@[j])@ == v@[j]@,
        decreases v@.len() - i,
    {
        r.push(clone_bytes(&v[i]));
        i += 1;
    }
    r
}

} // verus!
