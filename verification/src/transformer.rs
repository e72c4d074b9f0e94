//! Multiplexing transformer: owns, for one connection, the map from
//! subscription identifier to per-stream state (sequence counter plus order
//! book), routes each inbound message to the stream it belongs to, and emits
//! normalised events stamped with strictly increasing per-stream sequence
//! numbers.

use vstd::prelude::*;

use crate::book::{BookDelta, BookSnapshot, BookState, DeltaOutcome, Level, changes_applied};
use crate::model::{
    DataError, MarketData, MarketEvent, Sequence, StreamMeta, SubscriptionId, SubscriptionIds,
    Trade,
};

verus! {

/// One inbound frame, reduced to the structure the engine needs: the
/// correlation identifier plus either a book snapshot, a book delta, or a
/// batch of already-normalised trades.
#[derive(Debug)]
pub enum InboundMessage {
    Snapshot(BookSnapshot),
    Delta(BookDelta),
    Trades(SubscriptionId, Vec<Trade>),
    /// A frame whose identifier was extracted but whose body failed upstream
    /// parsing. `sequencing_critical` says whether the unparseable field
    /// carried sequencing data (an update identifier): the frame is dropped
    /// either way, and a critical failure also desyncs the book.
    Malformed { subscription_id: SubscriptionId, sequencing_critical: bool },
}

impl InboundMessage {
    /// The correlation identifier the frame carries.
    pub open spec fn spec_sub_id(self) -> Seq<char> {
        match self {
            InboundMessage::Snapshot(s) => s.subscription_id@,
            InboundMessage::Delta(d) => d.subscription_id@,
            InboundMessage::Trades(id, _) => id@,
            InboundMessage::Malformed { subscription_id, .. } => subscription_id@,
        }
    }

    /// Upper bound on the number of events the frame can produce.
    pub open spec fn event_capacity(self) -> int {
        match self {
            InboundMessage::Snapshot(_) => 1,
            InboundMessage::Delta(_) => 1,
            InboundMessage::Trades(_, trades) => trades@.len() as int,
            InboundMessage::Malformed { .. } => 0,
        }
    }
}

/// Per-stream state owned by the transformer: the correlation identifier,
/// the running [`StreamMeta`], and the order-book state machine.
#[derive(Debug)]
pub struct StreamEntry {
    pub id: SubscriptionId,
    pub meta: StreamMeta,
    pub book: BookState,
}

/// The events of a processing result: the emitted batch on success, none on
/// an error.
pub open spec fn emitted(r: Result<Vec<MarketEvent>, DataError>) -> Seq<MarketEvent> {
    match r {
        Ok(events) => events@,
        Err(_) => Seq::empty(),
    }
}

/// The events carry exactly the sequence numbers `start, start + 1, …`, in
/// order.
pub open spec fn stamped_from(events: Seq<MarketEvent>, start: int) -> bool {
    forall|i: int| 0 <= i < events.len() ==> (#[trigger] events[i]).sequence.0 == start + i
}

/// One processing step's sequencing guarantee for a stream, as
/// [`MultiBookTransformer::process`] ensures it: the step's events are
/// stamped consecutively from the stream's counter, which advances by their
/// number.
pub open spec fn step_stamps(
    pre_seq: u64,
    events: Seq<MarketEvent>,
    post_seq: u64,
) -> bool {
    &&& stamped_from(events, pre_seq as int)
    &&& post_seq == pre_seq + events.len()
}

/// The event batches of a run, concatenated in processing order.
pub open spec fn concat_all(blocks: Seq<Seq<MarketEvent>>) -> Seq<MarketEvent>
    decreases blocks.len(),
{
    if blocks.len() == 0 {
        Seq::empty()
    } else {
        concat_all(blocks.drop_last()) + blocks.last()
    }
}

proof fn lemma_consecutive_blocks(a: Seq<MarketEvent>, b: Seq<MarketEvent>, start: int)
    requires
        stamped_from(a, start),
        stamped_from(b, start + a.len()),
    ensures
        stamped_from(a + b, start),
{
    assert forall|i: int| 0 <= i < (a + b).len() implies (#[trigger] (a + b)[i]).sequence.0 == start
        + i by {
        if i < a.len() {
            assert((a + b)[i] == a[i]);
        } else {
            assert((a + b)[i] == b[i - a.len()]);
        }
    }
}

/// Law: over any run of processing steps that each meet the sequencing
/// guarantee of [`MultiBookTransformer::process`] for one stream — tracked by
/// the stream's counter values before and after each step — a stream whose
/// counter starts at 0, as [`StreamMeta::new`] creates it, emits exactly the
/// sequence numbers `0, 1, 2, …`, in order, with no gap and no repeat.
pub proof fn lemma_run_stamped(counters: Seq<u64>, blocks: Seq<Seq<MarketEvent>>)
    requires
        counters.len() == blocks.len() + 1,
        counters[0] == 0,
        forall|i: int|
            0 <= i < blocks.len() ==> step_stamps(counters[i], #[trigger] blocks[i], counters[i
                + 1]),
    ensures
        stamped_from(concat_all(blocks), 0),
        concat_all(blocks).len() == counters.last(),
    decreases blocks.len(),
{
    if blocks.len() == 0 {
        assert(counters.last() == counters[0]);
    } else {
        let n = blocks.len() as int;
        assert forall|i: int|
            0 <= i < blocks.drop_last().len() implies step_stamps(
            counters.drop_last()[i],
            #[trigger] blocks.drop_last()[i],
            counters.drop_last()[i + 1],
        ) by {
            assert(blocks.drop_last()[i] == blocks[i]);
            assert(counters.drop_last()[i] == counters[i]);
            assert(counters.drop_last()[i + 1] == counters[i + 1]);
        }
        lemma_run_stamped(counters.drop_last(), blocks.drop_last());
        assert(counters.drop_last().last() == counters[n - 1]);
        assert(step_stamps(counters[n - 1], blocks[n - 1], counters[n]));
        assert(blocks.last() == blocks[n - 1]);
        lemma_consecutive_blocks(concat_all(blocks.drop_last()), blocks.last(), 0);
        assert(counters.last() == counters[n]);
    }
}

/// Multiplexing transformer for one connection.
///
/// Inbound frames are processed strictly one at a time, in arrival order;
/// the transformer owns all per-stream state exclusively, which is what lets
/// the sequencing and gap-detection guarantees hold without locks.
#[derive(Debug)]
pub struct MultiBookTransformer {
    pub streams: Vec<StreamEntry>,
}

impl MultiBookTransformer {
    /// The per-stream entries, in registration order.
    pub open spec fn entries(self) -> Seq<StreamEntry> {
        self.streams@
    }

    /// Some entry carries the identifier `id`.
    pub open spec fn contains_id(self, id: Seq<char>) -> bool {
        exists|i: int| 0 <= i < self.entries().len() && self.entries()[i].id@ == id
    }

    /// The index of the entry carrying `id` (meaningful when
    /// [`Self::contains_id`] holds; identifiers are distinct under
    /// [`Self::wf`]).
    pub open spec fn entry_index(self, id: Seq<char>) -> int {
        choose|i: int| 0 <= i < self.entries().len() && self.entries()[i].id@ == id
    }

    /// Well-formed transformer: identifiers pairwise distinct, every book
    /// well-formed.
    pub open spec fn wf(self) -> bool {
        &&& forall|i: int, j: int|
            #![trigger self.entries()[i], self.entries()[j]]
            0 <= i < j < self.entries().len() ==> self.entries()[i].id@ != self.entries()[j].id@
        &&& forall|i: int|
            0 <= i < self.entries().len() ==> (#[trigger] self.entries()[i]).book.wf()
    }

    /// The routed stream's counter has room to stamp every event the message
    /// can produce (a machine limit of the `u64` counter).
    pub open spec fn can_stamp(self, message: InboundMessage) -> bool {
        self.contains_id(message.spec_sub_id()) ==> self.entries()[self.entry_index(
            message.spec_sub_id(),
        )].meta.sequence.0 + message.event_capacity() <= u64::MAX
    }

    /// Every entry except `j` is untouched, and entry `j` keeps its identity
    /// and owning subscription.
    pub open spec fn routed_only_to(pre: Self, post: Self, j: int) -> bool {
        &&& post.entries().len() == pre.entries().len()
        &&& forall|k: int|
            0 <= k < pre.entries().len() && k != j ==> post.entries()[k] == pre.entries()[k]
        &&& post.entries()[j].id == pre.entries()[j].id
        &&& post.entries()[j].meta.subscription == pre.entries()[j].meta.subscription
    }

    /// Builds the transformer from the registry's correlation map: one entry
    /// per registered subscription, in order, each with its sequence counter
    /// at zero and no book built yet.
    pub fn new(ids: SubscriptionIds) -> (r: Self)
        requires
            ids.distinct_ids(),
        ensures
            r.wf(),
            r.entries().len() == ids.entries().len(),
            forall|i: int|
                0 <= i < ids.entries().len() ==> {
                    &&& (#[trigger] r.entries()[i]).id == ids.entries()[i].0
                    &&& r.entries()[i].meta.subscription == ids.entries()[i].1
                    &&& r.entries()[i].meta.sequence.0 == 0
                    &&& r.entries()[i].book is Uninitialized
                },
    {
        let ghost orig = ids.0@;
        let mut rest = ids.0;
        let mut streams: Vec<StreamEntry> = Vec::new();
        while rest.len() > 0
            invariant
                streams@.len() + rest@.len() == orig.len(),
                rest@ == orig.skip(streams@.len() as int),
                forall|k: int|
                    0 <= k < streams@.len() ==> {
                        &&& (#[trigger] streams@[k]).id == orig[k].0
                        &&& streams@[k].meta.subscription == orig[k].1
                        &&& streams@[k].meta.sequence.0 == 0
                        &&& streams@[k].book is Uninitialized
                    },
            decreases rest@.len(),
        {
            proof {
                let p = streams@.len() as int;
                assert(rest@[0] == orig[p]);
                assert(orig.skip(p).remove(0) =~= orig.skip(p + 1));
            }
            let (id, subscription) = rest.remove(0);
            streams.push(
                StreamEntry {
                    id,
                    meta: StreamMeta::new(subscription),
                    book: BookState::Uninitialized,
                },
            );
        }
        let r = MultiBookTransformer { streams };
        proof {
            assert forall|i: int, j: int|
                #![trigger r.entries()[i], r.entries()[j]]
                0 <= i < j < r.entries().len() implies r.entries()[i].id@ != r.entries()[j].id@ by {
                assert(ids.entries()[i] == orig[i]);
                assert(ids.entries()[j] == orig[j]);
            }
        }
        r
    }

    /// Scans the streams for the entry registered under `id`.
    fn find_stream(&self, id: &SubscriptionId) -> (r: Option<usize>)
        ensures
            r matches Some(j) ==> 0 <= j < self.entries().len() && self.entries()[j as int].id@
                == id@,
            r is None ==> !self.contains_id(id@),
    {
        let mut i: usize = 0;
        while i < self.streams.len()
            invariant
                i <= self.streams@.len(),
                forall|k: int| 0 <= k < i ==> (#[trigger] self.entries()[k]).id@ != id@,
            decreases self.streams@.len() - i,
        {
            if self.streams[i].id.0 == id.0 {
                return Some(i);
            }
            i += 1;
        }
        None
    }

    /// Processes one inbound frame, in arrival order.
    ///
    /// An unknown identifier is reported as `UnidentifiedMessage` and drops
    /// the frame without touching any stream. A known identifier routes the
    /// frame to its stream alone: a snapshot (re)initialises the book and
    /// emits one event; a delta whose predecessor identifier matches the
    /// book applies it and emits one event; a mismatched delta desyncs the
    /// book, emits nothing and reports `SequenceGap`; deltas arriving with no
    /// book or while desynced are discarded; a batch of trades emits one
    /// event per trade. A frame that failed upstream parsing emits nothing
    /// and reports `MalformedPayload`; if its unparseable field carried
    /// sequencing data the stream's book is desynced, otherwise the stream is
    /// untouched. Every emitted event is stamped with the routed
    /// stream's consecutive sequence numbers, and the stream's counter
    /// advances by exactly the number of events emitted.
    pub fn process(&mut self, message: InboundMessage) -> (r: Result<Vec<MarketEvent>, DataError>)
        requires
            old(self).wf(),
            old(self).can_stamp(message),
        ensures
            final(self).wf(),
            !old(self).contains_id(message.spec_sub_id()) ==> *final(self) == *old(self) && (
            r matches Err(e) && e matches DataError::UnidentifiedMessage(id) && id@
                == message.spec_sub_id()),
            r matches Err(DataError::UnidentifiedMessage(_)) ==> !old(self).contains_id(
                message.spec_sub_id(),
            ),
            old(self).contains_id(message.spec_sub_id()) ==> ({
                let j = old(self).entry_index(message.spec_sub_id());
                let pre = old(self).entries()[j];
                let post = final(self).entries()[j];
                &&& Self::routed_only_to(*old(self), *final(self), j)
                &&& stamped_from(emitted(r), pre.meta.sequence.0 as int)
                &&& post.meta.sequence.0 == pre.meta.sequence.0 + emitted(r).len()
                &&& match message {
                    InboundMessage::Snapshot(s) => {
                        &&& r matches Ok(events) && events@.len() == 1 && events@[0].data
                            is OrderBook
                        &&& post.book is Initialized
                        &&& post.book->Initialized_0.bids@ == changes_applied(
                            Seq::<Level>::empty(),
                            s.bids@,
                            true,
                        )
                        &&& post.book->Initialized_0.asks@ == changes_applied(
                            Seq::<Level>::empty(),
                            s.asks@,
                            false,
                        )
                        &&& post.book->Initialized_0.last_update_id == s.last_update_id
                    },
                    InboundMessage::Delta(d) => {
                        if pre.book is Initialized && d.prev_update_id
                            == pre.book->Initialized_0.last_update_id {
                            &&& r matches Ok(events) && events@.len() == 1 && events@[0].data
                                is OrderBook
                            &&& post.book is Initialized
                            &&& post.book->Initialized_0.bids@ == changes_applied(
                                pre.book->Initialized_0.bids@,
                                d.bids@,
                                true,
                            )
                            &&& post.book->Initialized_0.asks@ == changes_applied(
                                pre.book->Initialized_0.asks@,
                                d.asks@,
                                false,
                            )
                            &&& post.book->Initialized_0.last_update_id == d.last_update_id
                        } else if pre.book is Initialized {
                            &&& r matches Err(e) && e matches DataError::SequenceGap {
                                expected,
                                received,
                            } && expected == pre.book->Initialized_0.last_update_id && received
                                == d.prev_update_id
                            &&& post.book is Desynced
                        } else {
                            &&& r matches Ok(events) && events@.len() == 0
                            &&& post == pre
                        }
                    },
                    InboundMessage::Trades(_, trades) => {
                        &&& r matches Ok(events) && events@.len() == trades@.len() && forall|i: int|
                            0 <= i < trades@.len() ==> (#[trigger] events@[i]).data
                                == MarketData::Trade(trades@[i])
                        &&& post.book == pre.book
                    },
                    InboundMessage::Malformed { subscription_id: _, sequencing_critical } => {
                        &&& r matches Err(e) && e is MalformedPayload
                        &&& if sequencing_critical {
                            post.book is Desynced
                        } else {
                            post.book == pre.book
                        }
                    },
                }
            }),
    {
        let j_opt = match &message {
            InboundMessage::Snapshot(s) => self.find_stream(&s.subscription_id),
            InboundMessage::Delta(d) => self.find_stream(&d.subscription_id),
            InboundMessage::Trades(id, _) => self.find_stream(id),
            InboundMessage::Malformed { subscription_id, .. } => self.find_stream(subscription_id),
        };
        let j: usize = match j_opt {
            Some(j) => j,
            None => {
                let id = match message {
                    InboundMessage::Snapshot(s) => s.subscription_id,
                    InboundMessage::Delta(d) => d.subscription_id,
                    InboundMessage::Trades(id, _) => id,
                    InboundMessage::Malformed { subscription_id, .. } => subscription_id,
                };
                return Err(DataError::UnidentifiedMessage(id));
            },
        };
        proof {
            assert(old(self).contains_id(message.spec_sub_id()));
            let j0 = old(self).entry_index(message.spec_sub_id());
            assert(0 <= j0 < old(self).entries().len() && old(self).entries()[j0].id@
                == message.spec_sub_id());
            if j0 < j as int {
                assert(old(self).entries()[j0].id@ != old(self).entries()[j as int].id@);
            }
            if (j as int) < j0 {
                assert(old(self).entries()[j as int].id@ != old(self).entries()[j0].id@);
            }
            assert(j0 == j as int);
        }
        let ghost pre_streams = self.streams@;
        let mut entry = self.streams.remove(j);
        let result: Result<Vec<MarketEvent>, DataError> = match message {
            InboundMessage::Snapshot(s) => {
                let seq0 = entry.meta.sequence.0;
                entry.book.apply_snapshot(&s);
                entry.meta.sequence = Sequence(seq0 + 1);
                let mut events: Vec<MarketEvent> = Vec::new();
                events.push(MarketEvent { sequence: Sequence(seq0), data: MarketData::OrderBook });
                Ok(events)
            },
            InboundMessage::Delta(d) => {
                let expected = match &entry.book {
                    BookState::Initialized(book) => book.last_update_id,
                    _ => 0,
                };
                let outcome = entry.book.apply_delta(&d);
                match outcome {
                    DeltaOutcome::Applied => {
                        let seq0 = entry.meta.sequence.0;
                        entry.meta.sequence = Sequence(seq0 + 1);
                        let mut events: Vec<MarketEvent> = Vec::new();
                        events.push(
                            MarketEvent { sequence: Sequence(seq0), data: MarketData::OrderBook },
                        );
                        Ok(events)
                    },
                    DeltaOutcome::Discarded => {
                        let events: Vec<MarketEvent> = Vec::new();
                        Ok(events)
                    },
                    DeltaOutcome::Gap => {
                        Err(DataError::SequenceGap { expected, received: d.prev_update_id })
                    },
                }
            },
            InboundMessage::Trades(_, trades) => {
                let seq0 = entry.meta.sequence.0;
                let ghost origts = trades@;
                let mut rest = trades;
                let mut events: Vec<MarketEvent> = Vec::new();
                while rest.len() > 0
                    invariant
                        events@.len() + rest@.len() == origts.len(),
                        rest@ == origts.skip(events@.len() as int),
                        seq0 + origts.len() <= u64::MAX,
                        forall|i: int|
                            0 <= i < events@.len() ==> (#[trigger] events@[i]).sequence.0 == seq0
                                + i && events@[i].data == MarketData::Trade(origts[i]),
                    decreases rest@.len(),
                {
                    proof {
                        let p = events@.len() as int;
                        assert(rest@[0] == origts[p]);
                        assert(origts.skip(p).remove(0) =~= origts.skip(p + 1));
                    }
                    let trade = rest.remove(0);
                    let k = events.len();
                    events.push(
                        MarketEvent {
                            sequence: Sequence(seq0 + (k as u64)),
                            data: MarketData::Trade(trade),
                        },
                    );
                }
                entry.meta.sequence = Sequence(seq0 + (events.len() as u64));
                Ok(events)
            },
            InboundMessage::Malformed { subscription_id: _, sequencing_critical } => {
                if sequencing_critical {
                    entry.book.desync();
                }
                Err(DataError::MalformedPayload)
            },
        };
        self.streams.insert(j, entry);
        proof {
            assert(self.streams@ =~= pre_streams.update(j as int, self.streams@[j as int]));
        }
        result
    }
}

} // verus!
