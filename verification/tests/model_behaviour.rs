use barter_data::exchange::{BinanceServerSpot, BinanceUSServerSpot, ExchangeServer};
use barter_data::model::{
    Instrument, InstrumentKind, Interval, MarketData, MarketEvent, Sequence, StreamId, StreamKind,
    StreamMeta, Subscription, SubscriptionId,
};

fn btc_usdt() -> Instrument {
    Instrument::new(String::from("btc"), String::from("usdt"), InstrumentKind::Spot)
}

#[test]
fn interval_round_trips_verbatim() {
    assert_eq!(Interval::new(String::from("1m")).to_string(), "1m");
    assert_eq!(Interval::new(String::from("1h")).to_string(), "1h");
    assert_eq!(Interval::new(String::from("12h")).to_string(), "12h");
    assert_eq!(Interval::new(String::from("1M")).to_string(), "1M");
    assert_eq!(Interval::new(String::from("1w")).to_string(), "1w");
}

#[test]
fn subscription_id_round_trips_verbatim() {
    let id = SubscriptionId::new(String::from("btcusdt@depth"));
    assert_eq!(id.to_string(), "btcusdt@depth");
}

#[test]
fn stream_kind_canonical_strings() {
    assert_eq!(StreamKind::Trades.to_string(), "trades");
    assert_eq!(StreamKind::Candles(Interval::new(String::from("1m"))).to_string(), "candles_1m");
    assert_eq!(StreamKind::Klines(Interval::new(String::from("5m"))).to_string(), "klines_5m");
    assert_eq!(StreamKind::OrderBookDeltas.to_string(), "order_book_deltas");
    assert_eq!(StreamKind::OrderBooks.to_string(), "order_books");
}

#[test]
fn stream_id_round_trips_verbatim() {
    let id = StreamId::new(String::from("btcusdt@trade"));
    assert_eq!(id.to_string(), "btcusdt@trade");
}

#[test]
fn market_event_new_keeps_sequence_and_payload() {
    let event = MarketEvent::new(Sequence(7), MarketData::OrderBook);
    assert_eq!(event.sequence.0, 7);
    assert!(matches!(event.data, MarketData::OrderBook));
}

#[test]
fn instrument_new_normalises_symbols_to_lowercase() {
    let instrument =
        Instrument::new(String::from("BTC"), String::from("Usdt"), InstrumentKind::Spot);
    assert_eq!(instrument.base, "btc");
    assert_eq!(instrument.quote, "usdt");
    // non-letters and already-lowercase characters are untouched
    let odd = Instrument::new(String::from("1INCH"), String::from("usd-t"), InstrumentKind::Spot);
    assert_eq!(odd.base, "1inch");
    assert_eq!(odd.quote, "usd-t");
}

#[test]
fn instrument_kind_canonical_strings() {
    assert_eq!(InstrumentKind::Spot.to_string(), "spot");
    assert_eq!(InstrumentKind::FuturePerpetual.to_string(), "future_perpetual");
    assert_eq!(InstrumentKind::FutureQuarterly.to_string(), "future_quarterly");
}

#[test]
fn subscription_renders_kind_then_instrument() {
    let sub = Subscription::new(
        Instrument::new(String::from("btc"), String::from("usdt"), InstrumentKind::FutureQuarterly),
        StreamKind::OrderBookDeltas,
    );
    assert_eq!(sub.to_string(), "order_book_deltasbtc_usdt_future_quarterly");
    assert_eq!(sub.instrument.to_string(), "btc_usdt_future_quarterly");
}

#[test]
fn model_equality_is_structural() {
    let sub = || Subscription::new(btc_usdt(), StreamKind::Candles(Interval::new(String::from("1m"))));
    assert_eq!(sub(), sub());
    let other = Subscription::new(btc_usdt(), StreamKind::Klines(Interval::new(String::from("1m"))));
    assert_ne!(sub(), other);

    let event = || MarketEvent::new(Sequence(3), MarketData::OrderBook);
    assert_eq!(event(), event());
    assert_ne!(event(), MarketEvent::new(Sequence(4), MarketData::OrderBook));
    assert_ne!(event(), MarketEvent::new(Sequence(3), MarketData::Candle));
}

#[test]
fn stream_meta_starts_at_sequence_zero() {
    let meta = StreamMeta::new(Subscription::new(btc_usdt(), StreamKind::Trades));
    assert_eq!(meta.sequence.0, 0);
    assert_eq!(meta.subscription.instrument.base, "btc");
}

#[test]
fn binance_server_identities() {
    assert_eq!(BinanceServerSpot::id(), "binance_spot");
    assert_eq!(BinanceServerSpot::websocket_url(), "wss://stream.binance.com:9443/ws");
    assert_eq!(BinanceUSServerSpot::id(), "binance_us_spot");
    assert_eq!(BinanceUSServerSpot::websocket_url(), "wss://stream.binance.us:9443/ws");
}

#[test]
fn binance_channel_encoding() {
    let trades = Subscription::new(btc_usdt(), StreamKind::Trades);
    assert_eq!(BinanceServerSpot::channel(&trades).unwrap(), "btcusdt@trade");

    let deltas = Subscription::new(btc_usdt(), StreamKind::OrderBookDeltas);
    assert_eq!(BinanceServerSpot::channel(&deltas).unwrap(), "btcusdt@depth");

    let candles =
        Subscription::new(btc_usdt(), StreamKind::Candles(Interval::new(String::from("1m"))));
    assert_eq!(BinanceServerSpot::channel(&candles).unwrap(), "btcusdt@kline_1m");

    let books = Subscription::new(btc_usdt(), StreamKind::OrderBooks);
    assert!(BinanceServerSpot::channel(&books).is_none());
}
