//! Value types shared by the subscription registry, the order-book engine and
//! the multiplexing transformer: instruments, stream kinds, subscription
//! identifiers and the normalised event envelope.

use vstd::prelude::*;

verus! {

use vstd::std_specs::cmp::PartialEqSpec;

/// Synthetic, per-subscription, strictly increasing counter stamped on each
/// normalised event. Starts at 0 and grows by exactly 1 per emitted event.
#[derive(Clone, Copy, PartialEq, Eq, Structural, Debug, Hash)]
pub struct Sequence(pub u64);

/// Direction of a [`Trade`].
#[derive(Clone, Copy, PartialEq, Eq, Structural, Debug, Hash)]
pub enum Direction {
    Buy,
    Sell,
}

/// Kind of market an [`Instrument`] is traded on.
#[derive(Clone, Copy, PartialEq, Eq, Structural, Debug, Hash)]
pub enum InstrumentKind {
    Spot,
    FuturePerpetual,
    FutureQuarterly,
}

impl InstrumentKind {
    /// Canonical rendering of this market kind.
    pub open spec fn label(self) -> Seq<char> {
        match self {
            InstrumentKind::Spot => "spot"@,
            InstrumentKind::FuturePerpetual => "future_perpetual"@,
            InstrumentKind::FutureQuarterly => "future_quarterly"@,
        }
    }

    /// The canonical string for this market kind; see
    /// [`InstrumentKind::label`].
    pub fn to_string(&self) -> (r: String)
        ensures
            r@ == self.label(),
    {
        match self {
            InstrumentKind::Spot => String::from_str("spot"),
            InstrumentKind::FuturePerpetual => String::from_str("future_perpetual"),
            InstrumentKind::FutureQuarterly => String::from_str("future_quarterly"),
        }
    }
}

/// `c` with an ASCII uppercase letter mapped to its lowercase form; any
/// other character is unchanged.
pub open spec fn lower_char(c: char) -> char {
    if 65 <= c as int && c as int <= 90 {
        ((c as u8) + 32) as char
    } else {
        c
    }
}

/// `s` with every ASCII uppercase letter mapped to lowercase.
pub open spec fn lower_ascii(s: Seq<char>) -> Seq<char> {
    s.map_values(|c: char| lower_char(c))
}

/// Maps every ASCII uppercase letter of `s` to lowercase, leaving all other
/// characters unchanged.
pub fn to_lowercase_ascii(s: &str) -> (r: String)
    ensures
        r@ == lower_ascii(s@),
{
    let n = s.unicode_len();
    let mut out = String::new();
    let mut i: usize = 0;
    while i < n
        invariant
            i <= n,
            n == s@.len(),
            out@ == lower_ascii(s@.take(i as int)),
        decreases n - i,
    {
        let table = "abcdefghijklmnopqrstuvwxyz";
        proof {
            reveal_strlit("abcdefghijklmnopqrstuvwxyz");
        }
        let c = s.get_char(i);
        let cv = c as u32;
        let piece: &str = if 65 <= cv && cv <= 90 {
            table.substring_char((cv - 65) as usize, (cv - 64) as usize)
        } else {
            s.substring_char(i, i + 1)
        };
        proof {
            reveal_strlit("abcdefghijklmnopqrstuvwxyz");
            assert(c as int == cv as int);
            if 65 <= cv && cv <= 90 {
                let k = cv - 65;
                assert(piece@.len() == 1);
                assert(piece@[0] == table@[k as int]);
                assert(table@[k as int] as int == 97 + k) by {
                    reveal_strlit("abcdefghijklmnopqrstuvwxyz");
                }
                assert(lower_char(c) as int == 97 + k);
                assert(piece@[0] == lower_char(s@[i as int]));
            } else {
                assert(piece@.len() == 1);
                assert(piece@[0] == s@[i as int]);
                assert(lower_char(s@[i as int]) == s@[i as int]);
            }
            assert(piece@ =~= seq![lower_char(s@[i as int])]);
            assert(lower_ascii(s@.take(i + 1)) =~= lower_ascii(s@.take(i as int)) + seq![
                lower_char(s@[i as int]),
            ]);
        }
        out.append(piece);
        i += 1;
    }
    proof {
        assert(s@.take(n as int) =~= s@);
    }
    out
}

/// Exchange-agnostic identity of a tradable pair: base symbol, quote symbol
/// and the kind of market. [`Instrument::new`] normalises symbols to ASCII
/// lowercase, the case exchanges use in their channel names.
#[derive(Debug)]
pub struct Instrument {
    pub base: String,
    pub quote: String,
    pub kind: InstrumentKind,
}

impl Instrument {
    /// Constructs a new [`Instrument`] from its base symbol, quote symbol and
    /// market kind, normalising both symbols to ASCII lowercase.
    pub fn new(base: String, quote: String, kind: InstrumentKind) -> (r: Self)
        ensures
            r.base@ == lower_ascii(base@),
            r.quote@ == lower_ascii(quote@),
            r.kind == kind,
    {
        let lowered_base = to_lowercase_ascii(base.as_str());
        let lowered_quote = to_lowercase_ascii(quote.as_str());
        Instrument { base: lowered_base, quote: lowered_quote, kind }
    }

    /// Canonical rendering of this instrument: `"{base}_{quote}_{kind}"`.
    pub open spec fn label(self) -> Seq<char> {
        self.base@ + "_"@ + self.quote@ + "_"@ + self.kind.label()
    }

    /// The canonical string for this instrument; see [`Instrument::label`].
    pub fn to_string(&self) -> (r: String)
        ensures
            r@ == self.label(),
    {
        self.base.clone().concat("_").concat(self.quote.as_str()).concat("_").concat(
            self.kind.to_string().as_str(),
        )
    }
}

impl PartialEq for Instrument {
    fn eq(&self, other: &Instrument) -> (r: bool) {
        self.base == other.base && self.quote == other.quote && self.kind == other.kind
    }
}

impl vstd::std_specs::cmp::PartialEqSpecImpl for Instrument {
    open spec fn obeys_eq_spec() -> bool {
        true
    }

    open spec fn eq_spec(&self, other: &Instrument) -> bool {
        self.base@ == other.base@ && self.quote@ == other.quote@ && self.kind == other.kind
    }
}

/// Time-interval token such as `"1m"`, `"1h"` or `"1d"`. The token is stored
/// and rendered verbatim: no unit parsing is performed.
#[derive(Debug)]
pub struct Interval(pub String);

impl View for Interval {
    type V = Seq<char>;

    open spec fn view(&self) -> Seq<char> {
        self.0@
    }
}

impl Interval {
    /// Construct an [`Interval`] holding the provided token verbatim.
    pub fn new(input: String) -> (r: Self)
        ensures
            r@ == input@,
    {
        Interval(input)
    }

    /// The token this interval was built from, rendered verbatim.
    pub fn to_string(&self) -> (r: String)
        ensures
            r@ == self@,
    {
        self.0.clone()
    }
}

impl PartialEq for Interval {
    fn eq(&self, other: &Interval) -> (r: bool) {
        self.0 == other.0
    }
}

impl vstd::std_specs::cmp::PartialEqSpecImpl for Interval {
    open spec fn obeys_eq_spec() -> bool {
        true
    }

    open spec fn eq_spec(&self, other: &Interval) -> bool {
        self.0@ == other.0@
    }
}

/// Opaque `String` identifier correlating an inbound exchange message with the
/// [`Subscription`] it belongs to. Its format is exchange-defined (for example
/// `"{symbol}@depth"`); the engine treats it as an opaque comparable token.
#[derive(Debug)]
pub struct SubscriptionId(pub String);

impl View for SubscriptionId {
    type V = Seq<char>;

    open spec fn view(&self) -> Seq<char> {
        self.0@
    }
}

impl SubscriptionId {
    /// Construct a [`SubscriptionId`] holding the provided token verbatim.
    pub fn new(input: String) -> (r: Self)
        ensures
            r@ == input@,
    {
        SubscriptionId(input)
    }

    /// The identifier token, rendered verbatim.
    pub fn to_string(&self) -> (r: String)
        ensures
            r@ == self@,
    {
        self.0.clone()
    }
}

impl PartialEq for SubscriptionId {
    fn eq(&self, other: &SubscriptionId) -> (r: bool) {
        self.0 == other.0
    }
}

impl vstd::std_specs::cmp::PartialEqSpecImpl for SubscriptionId {
    open spec fn obeys_eq_spec() -> bool {
        true
    }

    open spec fn eq_spec(&self, other: &SubscriptionId) -> bool {
        self.0@ == other.0@
    }
}

/// Opaque `String` identifier naming one subscribed stream.
#[derive(Debug)]
pub struct StreamId(pub String);

impl View for StreamId {
    type V = Seq<char>;

    open spec fn view(&self) -> Seq<char> {
        self.0@
    }
}

impl StreamId {
    /// Construct a [`StreamId`] holding the provided token verbatim.
    pub fn new(input: String) -> (r: Self)
        ensures
            r@ == input@,
    {
        StreamId(input)
    }

    /// The identifier token, rendered verbatim.
    pub fn to_string(&self) -> (r: String)
        ensures
            r@ == self@,
    {
        self.0.clone()
    }
}

impl PartialEq for StreamId {
    fn eq(&self, other: &StreamId) -> (r: bool) {
        self.0 == other.0
    }
}

impl vstd::std_specs::cmp::PartialEqSpecImpl for StreamId {
    open spec fn obeys_eq_spec() -> bool {
        true
    }

    open spec fn eq_spec(&self, other: &StreamId) -> bool {
        self.0@ == other.0@
    }
}

/// Stream types a [`Subscription`] may request.
#[derive(Debug)]
pub enum StreamKind {
    Trades,
    Candles(Interval),
    Klines(Interval),
    OrderBookDeltas,
    OrderBooks,
}

impl StreamKind {
    /// Canonical rendering of this stream kind, e.g. `"order_book_deltas"` or
    /// `"candles_1m"`.
    pub open spec fn label(self) -> Seq<char> {
        match self {
            StreamKind::Trades => "trades"@,
            StreamKind::Candles(interval) => "candles_"@ + interval@,
            StreamKind::Klines(interval) => "klines_"@ + interval@,
            StreamKind::OrderBookDeltas => "order_book_deltas"@,
            StreamKind::OrderBooks => "order_books"@,
        }
    }

    /// The canonical string for this stream kind; see [`StreamKind::label`].
    pub fn to_string(&self) -> (r: String)
        ensures
            r@ == self.label(),
    {
        match self {
            StreamKind::Trades => String::from_str("trades"),
            StreamKind::Candles(interval) => String::from_str("candles_").concat(interval.0.as_str()),
            StreamKind::Klines(interval) => String::from_str("klines_").concat(interval.0.as_str()),
            StreamKind::OrderBookDeltas => String::from_str("order_book_deltas"),
            StreamKind::OrderBooks => String::from_str("order_books"),
        }
    }
}

impl PartialEq for StreamKind {
    fn eq(&self, other: &StreamKind) -> (r: bool) {
        match (self, other) {
            (StreamKind::Trades, StreamKind::Trades) => true,
            (StreamKind::Candles(a), StreamKind::Candles(b)) => a == b,
            (StreamKind::Klines(a), StreamKind::Klines(b)) => a == b,
            (StreamKind::OrderBookDeltas, StreamKind::OrderBookDeltas) => true,
            (StreamKind::OrderBooks, StreamKind::OrderBooks) => true,
            _ => false,
        }
    }
}

impl vstd::std_specs::cmp::PartialEqSpecImpl for StreamKind {
    open spec fn obeys_eq_spec() -> bool {
        true
    }

    open spec fn eq_spec(&self, other: &StreamKind) -> bool {
        match (self, other) {
            (StreamKind::Trades, StreamKind::Trades) => true,
            (StreamKind::Candles(a), StreamKind::Candles(b)) => a@ == b@,
            (StreamKind::Klines(a), StreamKind::Klines(b)) => a@ == b@,
            (StreamKind::OrderBookDeltas, StreamKind::OrderBookDeltas) => true,
            (StreamKind::OrderBooks, StreamKind::OrderBooks) => true,
            _ => false,
        }
    }
}

/// A caller's request to observe one market stream: an [`Instrument`] paired
/// with the [`StreamKind`] to stream for it. Must be unique within one
/// connection's subscription set.
#[derive(Debug)]
pub struct Subscription {
    pub instrument: Instrument,
    pub kind: StreamKind,
}

impl Subscription {
    /// Constructs a new [`Subscription`] from the provided instrument and
    /// stream kind.
    pub fn new(instrument: Instrument, kind: StreamKind) -> (r: Self)
        ensures
            r.instrument == instrument,
            r.kind == kind,
    {
        Subscription { instrument, kind }
    }

    /// Canonical rendering of this subscription: the stream kind's label
    /// immediately followed by the instrument's.
    pub open spec fn label(self) -> Seq<char> {
        self.kind.label() + self.instrument.label()
    }

    /// The canonical string for this subscription; see
    /// [`Subscription::label`].
    pub fn to_string(&self) -> (r: String)
        ensures
            r@ == self.label(),
    {
        self.kind.to_string().concat(self.instrument.to_string().as_str())
    }
}

impl PartialEq for Subscription {
    fn eq(&self, other: &Subscription) -> (r: bool) {
        self.instrument == other.instrument && self.kind == other.kind
    }
}

impl vstd::std_specs::cmp::PartialEqSpecImpl for Subscription {
    open spec fn obeys_eq_spec() -> bool {
        true
    }

    open spec fn eq_spec(&self, other: &Subscription) -> bool {
        PartialEqSpec::eq_spec(&self.instrument, &other.instrument) && PartialEqSpec::eq_spec(
            &self.kind,
            &other.kind,
        )
    }
}

/// Normalised public trade. Timestamps are milliseconds since the Unix epoch;
/// price and quantity are fixed-point integers at the caller's scale.
#[derive(Debug)]
pub struct Trade {
    pub id: String,
    pub exchange: String,
    pub instrument: Instrument,
    pub received_timestamp: i64,
    pub exchange_timestamp: i64,
    pub price: u64,
    pub quantity: u64,
    pub direction: Direction,
}

impl PartialEq for Trade {
    fn eq(&self, other: &Trade) -> (r: bool) {
        self.id == other.id && self.exchange == other.exchange && self.instrument
            == other.instrument && self.received_timestamp == other.received_timestamp
            && self.exchange_timestamp == other.exchange_timestamp && self.price == other.price
            && self.quantity == other.quantity && self.direction == other.direction
    }
}

impl vstd::std_specs::cmp::PartialEqSpecImpl for Trade {
    open spec fn obeys_eq_spec() -> bool {
        true
    }

    open spec fn eq_spec(&self, other: &Trade) -> bool {
        &&& self.id@ == other.id@
        &&& self.exchange@ == other.exchange@
        &&& PartialEqSpec::eq_spec(&self.instrument, &other.instrument)
        &&& self.received_timestamp == other.received_timestamp
        &&& self.exchange_timestamp == other.exchange_timestamp
        &&& self.price == other.price
        &&& self.quantity == other.quantity
        &&& self.direction == other.direction
    }
}

/// Market data payload variants carried by a [`MarketEvent`].
#[derive(Debug)]
pub enum MarketData {
    Trade(Trade),
    Candle,
    Kline,
    OrderBook,
}

impl PartialEq for MarketData {
    fn eq(&self, other: &MarketData) -> (r: bool) {
        match (self, other) {
            (MarketData::Trade(a), MarketData::Trade(b)) => a == b,
            (MarketData::Candle, MarketData::Candle) => true,
            (MarketData::Kline, MarketData::Kline) => true,
            (MarketData::OrderBook, MarketData::OrderBook) => true,
            _ => false,
        }
    }
}

impl vstd::std_specs::cmp::PartialEqSpecImpl for MarketData {
    open spec fn obeys_eq_spec() -> bool {
        true
    }

    open spec fn eq_spec(&self, other: &MarketData) -> bool {
        match (self, other) {
            (MarketData::Trade(a), MarketData::Trade(b)) => PartialEqSpec::eq_spec(a, b),
            (MarketData::Candle, MarketData::Candle) => true,
            (MarketData::Kline, MarketData::Kline) => true,
            (MarketData::OrderBook, MarketData::OrderBook) => true,
            _ => false,
        }
    }
}

/// Normalised event envelope: the per-subscription [`Sequence`] at the time
/// of emission plus a [`MarketData`] payload.
#[derive(Debug)]
pub struct MarketEvent {
    pub sequence: Sequence,
    pub data: MarketData,
}

impl MarketEvent {
    /// Constructs a new [`MarketEvent`] from a sequence number and payload.
    pub fn new(sequence: Sequence, data: MarketData) -> (r: Self)
        ensures
            r.sequence == sequence,
            r.data == data,
    {
        MarketEvent { sequence, data }
    }
}

impl PartialEq for MarketEvent {
    fn eq(&self, other: &MarketEvent) -> (r: bool) {
        self.sequence == other.sequence && self.data == other.data
    }
}

impl vstd::std_specs::cmp::PartialEqSpecImpl for MarketEvent {
    open spec fn obeys_eq_spec() -> bool {
        true
    }

    open spec fn eq_spec(&self, other: &MarketEvent) -> bool {
        self.sequence == other.sequence && PartialEqSpec::eq_spec(&self.data, &other.data)
    }
}

/// Per-subscription running state owned by the multiplexing transformer: the
/// next [`Sequence`] to stamp on an emitted event, plus the owning
/// [`Subscription`].
#[derive(Debug)]
pub struct StreamMeta {
    pub sequence: Sequence,
    pub subscription: Subscription,
}

impl StreamMeta {
    /// Construct a new [`StreamMeta`] for the provided [`Subscription`], with
    /// the sequence counter at zero.
    pub fn new(subscription: Subscription) -> (r: Self)
        ensures
            r.sequence.0 == 0,
            r.subscription == subscription,
    {
        StreamMeta { sequence: Sequence(0), subscription }
    }
}

/// Read-only mapping from [`SubscriptionId`] to the owning [`Subscription`],
/// built once per connection by the registry and shared for the connection's
/// lifetime. Identifiers are pairwise distinct.
#[derive(Debug)]
pub struct SubscriptionIds(pub Vec<(SubscriptionId, Subscription)>);

impl SubscriptionIds {
    /// The identifier/subscription pairs of the map.
    pub open spec fn entries(self) -> Seq<(SubscriptionId, Subscription)> {
        self.0@
    }

    /// Some entry carries the identifier `id`.
    pub open spec fn contains_id(self, id: Seq<char>) -> bool {
        exists|i: int| 0 <= i < self.entries().len() && self.entries()[i].0@ == id
    }

    /// No two entries share an identifier.
    pub open spec fn distinct_ids(self) -> bool {
        forall|i: int, j: int|
            #![trigger self.entries()[i], self.entries()[j]]
            0 <= i < j < self.entries().len() ==> self.entries()[i].0@ != self.entries()[j].0@
    }

    /// Number of registered identifiers.
    pub fn len(&self) -> (r: usize)
        ensures
            r == self.entries().len(),
    {
        self.0.len()
    }

    /// Looks up the [`Subscription`] registered under `id`, or `None` when
    /// the identifier is unknown.
    pub fn get(&self, id: &SubscriptionId) -> (r: Option<&Subscription>)
        ensures
            r is Some <==> self.contains_id(id@),
            r matches Some(sub) ==> exists|i: int|
                0 <= i < self.entries().len() && self.entries()[i].0@ == id@
                    && self.entries()[i].1 == *sub,
    {
        let mut i: usize = 0;
        while i < self.0.len()
            invariant
                i <= self.0.len(),
                forall|k: int| 0 <= k < i ==> (#[trigger] self.entries()[k]).0@ != id@,
            decreases self.0.len() - i,
        {
            if self.0[i].0.0 == id.0 {
                proof {
                    let w = i as int;
                    assert(0 <= w < self.entries().len() && self.entries()[w].0@ == id@);
                }
                return Some(&self.0[i].1);
            }
            i += 1;
        }
        None
    }
}

/// Error conditions of registry construction and frame processing. The first
/// two are fatal at connection-setup time; the rest are recovered locally and
/// never terminate the event stream.
#[derive(Debug)]
pub enum DataError {
    /// Two distinct subscriptions encode to the same [`SubscriptionId`].
    DuplicateSubscriptionId(SubscriptionId),
    /// A subscription requests a [`StreamKind`] the exchange does not offer.
    UnsupportedStreamKind(StreamKind),
    /// An inbound frame carries a [`SubscriptionId`] absent from the registry;
    /// the frame is dropped and processing continues.
    UnidentifiedMessage(SubscriptionId),
    /// A numeric field of an inbound frame failed to parse; the frame is
    /// dropped.
    MalformedPayload,
    /// A delta's predecessor identifier did not match the last-applied one;
    /// the book is desynced until a fresh snapshot arrives.
    SequenceGap { expected: u64, received: u64 },
}

/// The registry's build artifact for one connection: the correlation map, the
/// number of acknowledgement responses the exchange will send, and the
/// outbound subscribe payload texts.
#[derive(Debug)]
pub struct SubscriptionMeta {
    pub ids: SubscriptionIds,
    pub expected_responses: usize,
    pub subscriptions: Vec<String>,
}

} // verus!
