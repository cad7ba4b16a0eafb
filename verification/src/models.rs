//! Canonical data shapes: exchange identity, decimal prices, the
//! `PriceUpdate` event that every wire decoder produces, and the generic
//! API response envelope.

use vstd::prelude::*;

verus! {

/// The exchange a price update originated from.
#[derive(Clone, Copy, Debug, PartialEq, Eq, Structural)]
pub enum ExchangeId {
    Binance,
    Coinbase,
}

/// Whether an exchange multiplexes every symbol over one shared socket or
/// opens one socket per symbol.
#[derive(Clone, Copy, Debug, PartialEq, Eq, Structural)]
pub enum Topology {
    PerSymbol,
    Multiplexed,
}

impl ExchangeId {
    /// Connection topology of this exchange: Binance opens one socket per
    /// symbol, Coinbase shares one socket across all symbols.
    pub fn topology(&self) -> (t: Topology)
        ensures
            t == (match *self {
                ExchangeId::Binance => Topology::PerSymbol,
                ExchangeId::Coinbase => Topology::Multiplexed,
            }),
    {
        match *self {
            ExchangeId::Binance => Topology::PerSymbol,
            ExchangeId::Coinbase => Topology::Multiplexed,
        }
    }
}

/// An exact decimal price: the represented value is
/// `mantissa / 10^scale`.  Exchanges quote prices as decimal strings, so a
/// scaled integer keeps every quoted digit exactly.
#[derive(Clone, Copy, Debug, PartialEq, Eq, Structural)]
pub struct Price {
    /// All digits of the quoted price, with the decimal point removed.
    pub mantissa: u64,
    /// How many of the mantissa's trailing digits are fractional.
    pub scale: u32,
}

/// One canonical price event: an exchange-neutral symbol (UTF-8 bytes,
/// e.g. `BTCUSDT`), the quoted price, and the exchange it came from.
/// Immutable once constructed; produced only by the wire decoders.
#[derive(Clone, Debug, PartialEq, Eq)]
pub struct PriceUpdate {
    pub symbol: Vec<u8>,
    pub price: Price,
    pub source: ExchangeId,
}

/// Common response structure for API endpoints.
#[derive(Debug)]
pub struct ApiResponse<T> {
    pub success: bool,
    pub data: Option<T>,
    pub message: Option<String>,
}

impl<T> ApiResponse<T> {
    /// A successful envelope carrying `data` and no message.
    pub fn success(data: T) -> (r: ApiResponse<T>)
        ensures
            r.success,
            r.data == Some(data),
            r.message is None,
    {
        ApiResponse { success: true, data: Some(data), message: None }
    }

    /// A failed envelope carrying only an error message.
    pub fn error(message: String) -> (r: ApiResponse<T>)
        ensures
            !r.success,
            r.data is None,
            r.message == Some(message),
    {
        ApiResponse { success: false, data: None, message: Some(message) }
    }
}

} // verus!
