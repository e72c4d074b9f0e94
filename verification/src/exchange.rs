//! Exchange capability interface and its Binance spot implementations.
//!
//! An [`ExchangeServer`] fixes one exchange family's identity, websocket
//! endpoint and channel encoding. The registry and the multiplexing
//! transformer are generic over it, so adding an exchange family means
//! implementing this trait and nothing else.

use vstd::prelude::*;

use crate::model::{StreamKind, Subscription};

verus! {

/// Capability interface for one exchange family: a fixed identity, a fixed
/// websocket endpoint, and the encoding from a [`Subscription`] to the
/// channel token the exchange uses as subscription identifier. A kind the
/// exchange does not support encodes to `None`.
pub trait ExchangeServer {
    /// The channel token this exchange derives for `sub`, as a mathematical
    /// value; `None` when the exchange does not support `sub.kind`.
    spec fn spec_channel(sub: Subscription) -> Option<Seq<char>>;

    /// The exchange's identity tag, as a mathematical value.
    spec fn spec_id() -> Seq<char>;

    /// The exchange's websocket base url, as a mathematical value.
    spec fn spec_websocket_url() -> Seq<char>;

    /// Encodes the channel token for `sub`, or `None` for a [`StreamKind`]
    /// this exchange does not support.
    fn channel(sub: &Subscription) -> (r: Option<String>)
        ensures
            r matches Some(s) ==> Self::spec_channel(*sub) == Some(s@),
            r is None ==> Self::spec_channel(*sub) is None,
    ;

    /// The exchange's identity tag, used to label normalised trades.
    fn id() -> (r: &'static str)
        ensures
            r@ == Self::spec_id(),
    ;

    /// The exchange's websocket base url.
    fn websocket_url() -> (r: &'static str)
        ensures
            r@ == Self::spec_websocket_url(),
    ;
}

/// Channel suffix shared by the Binance spot family: `"@trade"`,
/// `"@kline_{interval}"` or `"@depth"`; candles and klines both map to the
/// exchange's kline channel. Full order-book streams are not offered.
pub open spec fn binance_channel_suffix(kind: StreamKind) -> Option<Seq<char>> {
    match kind {
        StreamKind::Trades => Some("@trade"@),
        StreamKind::Candles(interval) => Some("@kline_"@ + interval@),
        StreamKind::Klines(interval) => Some("@kline_"@ + interval@),
        StreamKind::OrderBookDeltas => Some("@depth"@),
        StreamKind::OrderBooks => None,
    }
}

/// Channel token of the Binance spot family: `"{base}{quote}{suffix}"`, the
/// symbols joined verbatim in the case the caller supplied.
pub open spec fn binance_channel(sub: Subscription) -> Option<Seq<char>> {
    match binance_channel_suffix(sub.kind) {
        Some(suffix) => Some(sub.instrument.base@ + sub.instrument.quote@ + suffix),
        None => None,
    }
}

/// Encodes the Binance spot channel token for `sub`; see [`binance_channel`].
pub fn encode_binance_channel(sub: &Subscription) -> (r: Option<String>)
    ensures
        r matches Some(s) ==> binance_channel(*sub) == Some(s@),
        r is None ==> binance_channel(*sub) is None,
{
    let suffix: String = match &sub.kind {
        StreamKind::Trades => String::from_str("@trade"),
        StreamKind::Candles(interval) => String::from_str("@kline_").concat(interval.0.as_str()),
        StreamKind::Klines(interval) => String::from_str("@kline_").concat(interval.0.as_str()),
        StreamKind::OrderBookDeltas => String::from_str("@depth"),
        StreamKind::OrderBooks => {
            return None;
        },
    };
    let channel = sub.instrument.base.clone().concat(sub.instrument.quote.as_str()).concat(
        suffix.as_str(),
    );
    Some(channel)
}

/// Binance spot exchange server.
#[derive(Copy, Clone, Eq, PartialEq, Structural, Ord, PartialOrd, Hash, Debug, Default)]
pub struct BinanceServerSpot;

impl ExchangeServer for BinanceServerSpot {
    open spec fn spec_channel(sub: Subscription) -> Option<Seq<char>> {
        binance_channel(sub)
    }

    open spec fn spec_id() -> Seq<char> {
        "binance_spot"@
    }

    open spec fn spec_websocket_url() -> Seq<char> {
        "wss://stream.binance.com:9443/ws"@
    }

    fn channel(sub: &Subscription) -> (r: Option<String>) {
        encode_binance_channel(sub)
    }

    fn id() -> (r: &'static str) {
        "binance_spot"
    }

    fn websocket_url() -> (r: &'static str) {
        "wss://stream.binance.com:9443/ws"
    }
}

/// Binance US spot exchange server: same wire encoding as [`BinanceServerSpot`],
/// different identity and endpoint.
#[derive(Copy, Clone, Eq, PartialEq, Structural, Ord, PartialOrd, Hash, Debug, Default)]
pub struct BinanceUSServerSpot;

impl ExchangeServer for BinanceUSServerSpot {
    open spec fn spec_channel(sub: Subscription) -> Option<Seq<char>> {
        binance_channel(sub)
    }

    open spec fn spec_id() -> Seq<char> {
        "binance_us_spot"@
    }

    open spec fn spec_websocket_url() -> Seq<char> {
        "wss://stream.binance.us:9443/ws"@
    }

    fn channel(sub: &Subscription) -> (r: Option<String>) {
        encode_binance_channel(sub)
    }

    fn id() -> (r: &'static str) {
        "binance_us_spot"
    }

    fn websocket_url() -> (r: &'static str) {
        "wss://stream.binance.us:9443/ws"
    }
}

} // verus!
