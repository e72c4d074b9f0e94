use barter_data::book::{
    apply_change, build_ladder, BookDelta, BookSnapshot, BookState, Level,
};
use barter_data::exchange::BinanceServerSpot;
use barter_data::model::{
    DataError, Direction, Instrument, InstrumentKind, Interval, MarketData, StreamKind,
    Subscription, SubscriptionId, Trade,
};
use barter_data::numeric::{parse_decimal, parse_level, parse_levels, FIXED_POINT_SCALE};
use barter_data::registry::build_meta;
use barter_data::transformer::{InboundMessage, MultiBookTransformer};

fn btc_usdt() -> Instrument {
    Instrument::new(String::from("btc"), String::from("usdt"), InstrumentKind::Spot)
}

fn level(price: u64, amount: u64) -> Level {
    Level { price, amount }
}

/// Price `100.0` etc. at the fixed-point scale.
fn px(units: u64) -> u64 {
    units * FIXED_POINT_SCALE
}

fn deltas_transformer() -> MultiBookTransformer {
    let subs = vec![Subscription::new(btc_usdt(), StreamKind::OrderBookDeltas)];
    let meta = build_meta::<BinanceServerSpot>(subs).unwrap();
    assert_eq!(meta.expected_responses, 1);
    assert_eq!(
        meta.subscriptions[0],
        "{\"method\":\"SUBSCRIBE\",\"params\":[\"btcusdt@depth\"],\"id\":1}"
    );
    MultiBookTransformer::new(meta.ids)
}

fn snapshot_message() -> InboundMessage {
    InboundMessage::Snapshot(BookSnapshot {
        subscription_id: SubscriptionId::new(String::from("btcusdt@depth")),
        last_update_id: 10,
        bids: vec![level(px(100), px(1))],
        asks: vec![level(px(101), px(2))],
    })
}

#[test]
fn ladders_stay_sorted_without_duplicates() {
    // unsorted snapshot with a duplicate price and an empty level
    let raw = vec![level(5, 1), level(9, 2), level(7, 3), level(9, 4), level(6, 0)];
    let bids = build_ladder(&raw, true);
    assert_eq!(bids, vec![level(9, 4), level(7, 3), level(5, 1)]);
    let asks = build_ladder(&raw, false);
    assert_eq!(asks, vec![level(5, 1), level(7, 3), level(9, 4)]);
}

#[test]
fn zero_amount_change_removes_the_level() {
    let ladder = vec![level(9, 4), level(7, 3), level(5, 1)];
    assert_eq!(apply_change(&ladder, level(7, 0), true), vec![level(9, 4), level(5, 1)]);
    assert_eq!(
        apply_change(&ladder, level(7, 9), true),
        vec![level(9, 4), level(7, 9), level(5, 1)]
    );
    assert_eq!(
        apply_change(&ladder, level(8, 2), true),
        vec![level(9, 4), level(8, 2), level(7, 3), level(5, 1)]
    );
}

#[test]
fn snapshot_then_delta_emit_consecutive_events() {
    let mut transformer = deltas_transformer();

    let events = transformer.process(snapshot_message()).unwrap();
    assert_eq!(events.len(), 1);
    assert_eq!(events[0].sequence.0, 0);
    assert!(matches!(events[0].data, MarketData::OrderBook));

    // delta 10 -> 11 removing the bid: one event with sequence 1
    let delta = InboundMessage::Delta(BookDelta {
        subscription_id: SubscriptionId::new(String::from("btcusdt@depth")),
        prev_update_id: 10,
        last_update_id: 11,
        bids: vec![level(px(100), 0)],
        asks: vec![],
    });
    let events = transformer.process(delta).unwrap();
    assert_eq!(events.len(), 1);
    assert_eq!(events[0].sequence.0, 1);
    assert!(matches!(events[0].data, MarketData::OrderBook));

    // the bid side is now empty, the ask side untouched
    match &transformer.streams[0].book {
        BookState::Initialized(book) => {
            assert_eq!(book.bids, vec![]);
            assert_eq!(book.asks, vec![level(px(101), px(2))]);
            assert_eq!(book.last_update_id, 11);
        },
        _ => panic!("book should be initialised"),
    }
}

#[test]
fn gap_delta_desyncs_without_event() {
    let mut transformer = deltas_transformer();
    transformer.process(snapshot_message()).unwrap();

    // predecessor id 15 does not match the last-applied id 10: gap
    let gap = InboundMessage::Delta(BookDelta {
        subscription_id: SubscriptionId::new(String::from("btcusdt@depth")),
        prev_update_id: 15,
        last_update_id: 16,
        bids: vec![level(px(99), px(1))],
        asks: vec![],
    });
    match transformer.process(gap) {
        Err(DataError::SequenceGap { expected, received }) => {
            assert_eq!(expected, 10);
            assert_eq!(received, 15);
        },
        _ => panic!("a gap delta must raise SequenceGap"),
    }
    assert!(matches!(transformer.streams[0].book, BookState::Desynced));

    // while desynced, further deltas are discarded without events
    let late = InboundMessage::Delta(BookDelta {
        subscription_id: SubscriptionId::new(String::from("btcusdt@depth")),
        prev_update_id: 16,
        last_update_id: 17,
        bids: vec![],
        asks: vec![],
    });
    let events = transformer.process(late).unwrap();
    assert!(events.is_empty());

    // a fresh snapshot re-initialises the book and resumes the sequence
    let events = transformer.process(snapshot_message()).unwrap();
    assert_eq!(events.len(), 1);
    assert_eq!(events[0].sequence.0, 1);
    assert!(matches!(transformer.streams[0].book, BookState::Initialized(_)));
}

#[test]
fn unknown_subscription_id_is_non_fatal() {
    let mut transformer = deltas_transformer();
    transformer.process(snapshot_message()).unwrap();

    let unknown = InboundMessage::Snapshot(BookSnapshot {
        subscription_id: SubscriptionId::new(String::from("ZZZ@depth")),
        last_update_id: 1,
        bids: vec![],
        asks: vec![],
    });
    match transformer.process(unknown) {
        Err(DataError::UnidentifiedMessage(id)) => assert_eq!(id.to_string(), "ZZZ@depth"),
        _ => panic!("an unknown id must be reported as UnidentifiedMessage"),
    }

    // the connection stays live: the registered stream still works
    let delta = InboundMessage::Delta(BookDelta {
        subscription_id: SubscriptionId::new(String::from("btcusdt@depth")),
        prev_update_id: 10,
        last_update_id: 11,
        bids: vec![],
        asks: vec![level(px(102), px(1))],
    });
    let events = transformer.process(delta).unwrap();
    assert_eq!(events.len(), 1);
    assert_eq!(events[0].sequence.0, 1);
}

#[test]
fn uppercase_symbols_encode_to_lowercase_channels() {
    let instrument =
        Instrument::new(String::from("BTC"), String::from("USDT"), InstrumentKind::Spot);
    let subs = vec![Subscription::new(instrument, StreamKind::OrderBookDeltas)];
    let meta = build_meta::<BinanceServerSpot>(subs).unwrap();
    let id = SubscriptionId::new(String::from("btcusdt@depth"));
    assert!(meta.ids.get(&id).is_some());
}

#[test]
fn malformed_sequencing_frame_desyncs_the_book() {
    let mut transformer = deltas_transformer();
    transformer.process(snapshot_message()).unwrap();

    // a malformed field that does not carry sequencing data: frame dropped,
    // book untouched
    let harmless = InboundMessage::Malformed {
        subscription_id: SubscriptionId::new(String::from("btcusdt@depth")),
        sequencing_critical: false,
    };
    assert!(matches!(transformer.process(harmless), Err(DataError::MalformedPayload)));
    assert!(matches!(transformer.streams[0].book, BookState::Initialized(_)));

    // a malformed update identifier: frame dropped and the book desynced
    let critical = InboundMessage::Malformed {
        subscription_id: SubscriptionId::new(String::from("btcusdt@depth")),
        sequencing_critical: true,
    };
    assert!(matches!(transformer.process(critical), Err(DataError::MalformedPayload)));
    assert!(matches!(transformer.streams[0].book, BookState::Desynced));

    // no event was emitted for either frame: the next snapshot continues at 1
    let events = transformer.process(snapshot_message()).unwrap();
    assert_eq!(events.len(), 1);
    assert_eq!(events[0].sequence.0, 1);
}

#[test]
fn duplicate_subscription_ids_fail_registry_construction() {
    // candles and klines of one interval share the exchange's kline channel
    let subs = vec![
        Subscription::new(btc_usdt(), StreamKind::Candles(Interval::new(String::from("1m")))),
        Subscription::new(btc_usdt(), StreamKind::Klines(Interval::new(String::from("1m")))),
    ];
    match build_meta::<BinanceServerSpot>(subs) {
        Err(DataError::DuplicateSubscriptionId(id)) => {
            assert_eq!(id.to_string(), "btcusdt@kline_1m");
        },
        _ => panic!("colliding ids must fail registry construction"),
    }
}

#[test]
fn unsupported_stream_kind_fails_registry_construction() {
    let subs = vec![Subscription::new(btc_usdt(), StreamKind::OrderBooks)];
    match build_meta::<BinanceServerSpot>(subs) {
        Err(DataError::UnsupportedStreamKind(kind)) => {
            assert_eq!(kind.to_string(), "order_books");
        },
        _ => panic!("an unsupported kind must fail registry construction"),
    }
}

#[test]
fn registry_batches_all_channels_into_one_request() {
    let subs = vec![
        Subscription::new(btc_usdt(), StreamKind::Trades),
        Subscription::new(btc_usdt(), StreamKind::OrderBookDeltas),
    ];
    let meta = build_meta::<BinanceServerSpot>(subs).unwrap();
    assert_eq!(meta.ids.len(), 2);
    assert_eq!(meta.expected_responses, 1);
    assert_eq!(
        meta.subscriptions,
        vec![String::from(
            "{\"method\":\"SUBSCRIBE\",\"params\":[\"btcusdt@trade\",\"btcusdt@depth\"],\"id\":1}"
        )]
    );
    let id = SubscriptionId::new(String::from("btcusdt@trade"));
    let sub = meta.ids.get(&id).unwrap();
    assert!(matches!(sub.kind, StreamKind::Trades));
    assert!(meta.ids.get(&SubscriptionId::new(String::from("nope"))).is_none());
}

#[test]
fn empty_subscription_list_builds_empty_meta() {
    let meta = build_meta::<BinanceServerSpot>(vec![]).unwrap();
    assert_eq!(meta.ids.len(), 0);
    assert_eq!(meta.expected_responses, 0);
    assert!(meta.subscriptions.is_empty());
}

#[test]
fn trade_batches_emit_one_event_per_trade() {
    let subs = vec![Subscription::new(btc_usdt(), StreamKind::Trades)];
    let meta = build_meta::<BinanceServerSpot>(subs).unwrap();
    let mut transformer = MultiBookTransformer::new(meta.ids);

    let trade = |id: &str, direction: Direction| Trade {
        id: String::from(id),
        exchange: String::from("binance_spot"),
        instrument: btc_usdt(),
        received_timestamp: 1_700_000_000_123,
        exchange_timestamp: 1_700_000_000_100,
        price: px(100),
        quantity: px(2),
        direction,
    };
    let batch = InboundMessage::Trades(
        SubscriptionId::new(String::from("btcusdt@trade")),
        vec![trade("t1", Direction::Buy), trade("t2", Direction::Sell)],
    );
    let events = transformer.process(batch).unwrap();
    assert_eq!(events.len(), 2);
    assert_eq!(events[0].sequence.0, 0);
    assert_eq!(events[1].sequence.0, 1);
    match (&events[0].data, &events[1].data) {
        (MarketData::Trade(first), MarketData::Trade(second)) => {
            assert_eq!(first.id, "t1");
            assert!(matches!(first.direction, Direction::Buy));
            assert_eq!(second.id, "t2");
            assert!(matches!(second.direction, Direction::Sell));
        },
        _ => panic!("trade batches must map to trade events"),
    }

    // the next batch continues the per-subscription sequence: 2, 3, ...
    let next = InboundMessage::Trades(
        SubscriptionId::new(String::from("btcusdt@trade")),
        vec![trade("t3", Direction::Buy)],
    );
    let events = transformer.process(next).unwrap();
    assert_eq!(events.len(), 1);
    assert_eq!(events[0].sequence.0, 2);
}

#[test]
fn decimal_parsing_exact_values() {
    assert_eq!(parse_decimal("100.0"), Some(100 * FIXED_POINT_SCALE));
    assert_eq!(parse_decimal("0.00000001"), Some(1));
    assert_eq!(parse_decimal("1.5"), Some(150_000_000));
    assert_eq!(parse_decimal("42"), Some(42 * FIXED_POINT_SCALE));
    assert_eq!(parse_decimal("007"), Some(7 * FIXED_POINT_SCALE));
    assert_eq!(parse_decimal("0.12345678"), Some(12_345_678));
}

#[test]
fn malformed_decimals_are_rejected() {
    assert_eq!(parse_decimal(""), None);
    assert_eq!(parse_decimal("."), None);
    assert_eq!(parse_decimal("1."), None);
    assert_eq!(parse_decimal(".5"), None);
    assert_eq!(parse_decimal("12a"), None);
    assert_eq!(parse_decimal("1.2.3"), None);
    assert_eq!(parse_decimal("-1"), None);
    // more fractional digits than the fixed-point representation holds
    assert_eq!(parse_decimal("1.000000001"), None);
    // too large for the scaled representation
    assert_eq!(parse_decimal("999999999999999999999"), None);
}

#[test]
fn malformed_level_is_a_malformed_payload() {
    assert!(matches!(
        parse_level("abc", "1.0"),
        Err(DataError::MalformedPayload)
    ));
    let ok = parse_level("101.0", "2.0").unwrap();
    assert_eq!(ok, Level { price: px(101), amount: px(2) });

    let raw = vec![
        (String::from("100.0"), String::from("1.0")),
        (String::from("101.0"), String::from("0")),
    ];
    let levels = parse_levels(&raw).unwrap();
    assert_eq!(levels, vec![level(px(100), px(1)), level(px(101), 0)]);

    let bad = vec![(String::from("100.0"), String::from("x"))];
    assert!(matches!(parse_levels(&bad), Err(DataError::MalformedPayload)));
}
