//! Local order-book reconstruction: price-level ladders kept strictly sorted,
//! snapshot and delta application, and the per-subscription state machine with
//! sequence-gap detection.
//!
//! Prices and amounts are fixed-point integers: the caller picks one scale
//! and uses it consistently for every message of one stream (the `numeric`
//! module parses exchange decimal strings at the 10^8 scale). The engine only
//! compares prices and tests amounts against zero, so any consistent scale
//! works. An amount of zero removes the price level.

use vstd::prelude::*;

use crate::model::SubscriptionId;

verus! {

/// One price level of an order-book ladder.
#[derive(Clone, Copy, PartialEq, Eq, Structural, Debug)]
pub struct Level {
    pub price: u64,
    pub amount: u64,
}

/// `a` comes before `b` in a ladder: strictly higher price on the bid side
/// (`descending`), strictly lower price on the ask side.
pub open spec fn level_precedes(a: Level, b: Level, descending: bool) -> bool {
    if descending {
        a.price > b.price
    } else {
        a.price < b.price
    }
}

/// The ladder is strictly sorted, which also rules out duplicate prices.
pub open spec fn ladder_sorted(s: Seq<Level>, descending: bool) -> bool {
    forall|i: int, j: int|
        #![trigger s[i], s[j]]
        0 <= i < j < s.len() ==> level_precedes(s[i], s[j], descending)
}

/// No level of the ladder has a zero amount.
pub open spec fn no_empty_levels(s: Seq<Level>) -> bool {
    forall|i: int| 0 <= i < s.len() ==> #[trigger] s[i].amount > 0
}

/// A well-formed ladder: strictly sorted and free of empty levels.
pub open spec fn ladder_wf(s: Seq<Level>, descending: bool) -> bool {
    ladder_sorted(s, descending) && no_empty_levels(s)
}

/// Reference model: the ladder with every level of price `p` removed,
/// remaining levels kept in order.
pub open spec fn with_price_removed(s: Seq<Level>, p: u64) -> Seq<Level>
    decreases s.len(),
{
    if s.len() == 0 {
        s
    } else {
        let rest = with_price_removed(s.drop_last(), p);
        if s.last().price == p {
            rest
        } else {
            rest.push(s.last())
        }
    }
}

/// Reference model: the position at which a level of `l`'s price belongs,
/// counted as the longest prefix of levels that precede `l`.
pub open spec fn insert_position(s: Seq<Level>, l: Level, descending: bool) -> int
    decreases s.len(),
{
    if s.len() == 0 {
        0
    } else if level_precedes(s[0], l, descending) {
        1 + insert_position(s.drop_first(), l, descending)
    } else {
        0
    }
}

/// Reference model: the ladder with `l` inserted at its sorted position.
pub open spec fn with_level_inserted(s: Seq<Level>, l: Level, descending: bool) -> Seq<Level> {
    let pos = insert_position(s, l, descending);
    s.take(pos) + seq![l] + s.skip(pos)
}

/// Reference model of one price-level change: remove the price, then, unless
/// the change's amount is zero, insert the new level at its sorted position.
pub open spec fn change_applied(s: Seq<Level>, c: Level, descending: bool) -> Seq<Level> {
    let cleared = with_price_removed(s, c.price);
    if c.amount == 0 {
        cleared
    } else {
        with_level_inserted(cleared, c, descending)
    }
}

/// Reference model of a batch of price-level changes, applied left to right.
pub open spec fn changes_applied(s: Seq<Level>, cs: Seq<Level>, descending: bool) -> Seq<Level>
    decreases cs.len(),
{
    if cs.len() == 0 {
        s
    } else {
        changes_applied(change_applied(s, cs[0], descending), cs.drop_first(), descending)
    }
}

proof fn lemma_removed_props(s: Seq<Level>, p: u64)
    ensures
        forall|i: int|
            0 <= i < with_price_removed(s, p).len() ==> (#[trigger] with_price_removed(s, p)[i]).price
                != p,
        forall|i: int|
            0 <= i < with_price_removed(s, p).len() ==> s.contains(
                #[trigger] with_price_removed(s, p)[i],
            ),
        with_price_removed(s, p).len() <= s.len(),
    decreases s.len(),
{
    if s.len() > 0 {
        lemma_removed_props(s.drop_last(), p);
        let rest = with_price_removed(s.drop_last(), p);
        let res = with_price_removed(s, p);
        assert forall|i: int| 0 <= i < res.len() implies s.contains(#[trigger] res[i]) by {
            if i < rest.len() {
                assert(s.drop_last().contains(rest[i]));
                let j = choose|j: int| 0 <= j < s.drop_last().len() && s.drop_last()[j] == rest[i];
                assert(s[j] == rest[i]);
            } else {
                assert(res[i] == s.last());
                assert(s[s.len() - 1] == s.last());
            }
        }
    }
}

proof fn lemma_removed_sorted(s: Seq<Level>, p: u64, descending: bool)
    requires
        ladder_sorted(s, descending),
    ensures
        ladder_sorted(with_price_removed(s, p), descending),
    decreases s.len(),
{
    if s.len() > 0 {
        assert(ladder_sorted(s.drop_last(), descending)) by {
            assert forall|i: int, j: int|
                #![trigger s.drop_last()[i], s.drop_last()[j]]
                0 <= i < j < s.drop_last().len() implies level_precedes(
                s.drop_last()[i],
                s.drop_last()[j],
                descending,
            ) by {
                assert(s.drop_last()[i] == s[i]);
                assert(s.drop_last()[j] == s[j]);
            }
        }
        lemma_removed_sorted(s.drop_last(), p, descending);
        let rest = with_price_removed(s.drop_last(), p);
        let res = with_price_removed(s, p);
        if s.last().price != p {
            lemma_removed_props(s.drop_last(), p);
            assert forall|i: int, j: int|
                #![trigger res[i], res[j]]
                0 <= i < j < res.len() implies level_precedes(res[i], res[j], descending) by {
                if j < rest.len() {
                    assert(res[i] == rest[i]);
                    assert(res[j] == rest[j]);
                } else {
                    assert(res[j] == s.last());
                    assert(res[i] == rest[i]);
                    assert(s.drop_last().contains(rest[i]));
                    let k = choose|k: int|
                        0 <= k < s.drop_last().len() && s.drop_last()[k] == rest[i];
                    assert(s[k] == rest[i]);
                    assert(s[s.len() - 1] == s.last());
                    assert(level_precedes(s[k], s[s.len() - 1], descending));
                }
            }
        }
    }
}

proof fn lemma_insert_position_props(s: Seq<Level>, l: Level, descending: bool)
    ensures
        0 <= insert_position(s, l, descending) <= s.len(),
        forall|k: int|
            0 <= k < insert_position(s, l, descending) ==> level_precedes(
                #[trigger] s[k],
                l,
                descending,
            ),
        insert_position(s, l, descending) < s.len() ==> !level_precedes(
            s[insert_position(s, l, descending)],
            l,
            descending,
        ),
    decreases s.len(),
{
    if s.len() > 0 && level_precedes(s[0], l, descending) {
        lemma_insert_position_props(s.drop_first(), l, descending);
        let pos = insert_position(s, l, descending);
        assert forall|k: int| 0 <= k < pos implies level_precedes(#[trigger] s[k], l, descending) by {
            if k > 0 {
                assert(s.drop_first()[k - 1] == s[k]);
            }
        }
        if pos < s.len() {
            assert(s.drop_first()[pos - 1] == s[pos]);
        }
    }
}

proof fn lemma_insert_position_unique(s: Seq<Level>, l: Level, descending: bool, j: int)
    requires
        0 <= j <= s.len(),
        forall|k: int| 0 <= k < j ==> level_precedes(#[trigger] s[k], l, descending),
        j < s.len() ==> !level_precedes(s[j], l, descending),
    ensures
        insert_position(s, l, descending) == j,
    decreases j,
{
    if j > 0 {
        assert(level_precedes(s[0], l, descending));
        lemma_insert_position_unique(s.drop_first(), l, descending, j - 1);
        assert forall|k: int|
            0 <= k < j - 1 implies level_precedes(#[trigger] s.drop_first()[k], l, descending) by {
            assert(s.drop_first()[k] == s[k + 1]);
        }
        if j - 1 < s.drop_first().len() {
            assert(s.drop_first()[j - 1] == s[j]);
        }
    }
}

proof fn lemma_insert_wf(s: Seq<Level>, l: Level, descending: bool)
    requires
        ladder_sorted(s, descending),
        forall|k: int| 0 <= k < s.len() ==> (#[trigger] s[k]).price != l.price,
        l.amount > 0,
        no_empty_levels(s),
    ensures
        ladder_wf(with_level_inserted(s, l, descending), descending),
        with_level_inserted(s, l, descending).len() == s.len() + 1,
{
    lemma_insert_position_props(s, l, descending);
    let pos = insert_position(s, l, descending);
    let res = with_level_inserted(s, l, descending);
    assert(res.len() == s.len() + 1);
    assert forall|k: int| 0 <= k < res.len() implies (#[trigger] res[k]).amount > 0 by {
        if k < pos {
            assert(res[k] == s[k]);
        } else if k == pos {
            assert(res[k] == l);
        } else {
            assert(res[k] == s[k - 1]);
        }
    }
    // every existing level on or after the insert position comes after `l`
    assert forall|k: int| pos <= k < s.len() implies level_precedes(l, #[trigger] s[k], descending) by {
        assert(!level_precedes(s[pos], l, descending));
        assert(s[pos].price != l.price);
        if k > pos {
            assert(level_precedes(s[pos], s[k], descending));
        }
    }
    assert forall|i: int, j: int|
        #![trigger res[i], res[j]]
        0 <= i < j < res.len() implies level_precedes(res[i], res[j], descending) by {
        if i < pos {
            assert(res[i] == s[i]);
        } else if i == pos {
            assert(res[i] == l);
        } else {
            assert(res[i] == s[i - 1]);
        }
        if j < pos {
            assert(res[j] == s[j]);
        } else if j == pos {
            assert(res[j] == l);
        } else {
            assert(res[j] == s[j - 1]);
        }
    }
}

/// A single change keeps a well-formed ladder well-formed: strictly sorted on
/// both sides, no duplicate prices, and a zero amount removes the level.
pub proof fn lemma_change_applied_wf(s: Seq<Level>, c: Level, descending: bool)
    requires
        ladder_wf(s, descending),
    ensures
        ladder_wf(change_applied(s, c, descending), descending),
{
    lemma_removed_props(s, c.price);
    lemma_removed_sorted(s, c.price, descending);
    let cleared = with_price_removed(s, c.price);
    assert forall|k: int| 0 <= k < cleared.len() implies (#[trigger] cleared[k]).amount > 0 by {
        assert(s.contains(cleared[k]));
        let j = choose|j: int| 0 <= j < s.len() && s[j] == cleared[k];
        assert(s[j].amount > 0);
    }
    if c.amount != 0 {
        lemma_insert_wf(cleared, c, descending);
    }
}

/// Law: applying any batch of price-level changes to a well-formed ladder
/// (for example one reconstructed from a snapshot) keeps the ladder strictly
/// sorted — bids descending, asks ascending — with no duplicate prices and no
/// zero-amount levels.
pub proof fn lemma_changes_applied_wf(s: Seq<Level>, cs: Seq<Level>, descending: bool)
    requires
        ladder_wf(s, descending),
    ensures
        ladder_wf(changes_applied(s, cs, descending), descending),
    decreases cs.len(),
{
    if cs.len() > 0 {
        lemma_change_applied_wf(s, cs[0], descending);
        lemma_changes_applied_wf(change_applied(s, cs[0], descending), cs.drop_first(), descending);
    }
}

/// Reference model of one ladder side after a whole sequence of deltas: the
/// batches applied one after the other, left to right.
pub open spec fn ladder_after_deltas(
    s: Seq<Level>,
    ds: Seq<Seq<Level>>,
    descending: bool,
) -> Seq<Level>
    decreases ds.len(),
{
    if ds.len() == 0 {
        s
    } else {
        ladder_after_deltas(changes_applied(s, ds[0], descending), ds.drop_first(), descending)
    }
}

/// Law: for every sequence of delta batches applied atop a well-formed
/// ladder — such as one reconstructed from a snapshot — the resulting ladder
/// of the reference model stays well-formed: bids strictly descending, asks
/// strictly ascending, no duplicate prices, and no zero-amount level. Each
/// [`BookState::apply_delta`] ensures its ladders equal this model one batch
/// at a time, so the same holds of the reconstruction.
pub proof fn lemma_ladder_after_deltas_wf(s: Seq<Level>, ds: Seq<Seq<Level>>, descending: bool)
    requires
        ladder_wf(s, descending),
    ensures
        ladder_wf(ladder_after_deltas(s, ds, descending), descending),
    decreases ds.len(),
{
    if ds.len() > 0 {
        lemma_changes_applied_wf(s, ds[0], descending);
        lemma_ladder_after_deltas_wf(changes_applied(s, ds[0], descending), ds.drop_first(), descending);
    }
}

/// Tests whether `a` comes before `b` on the given side of the book.
fn precedes(a: &Level, b: &Level, descending: bool) -> (r: bool)
    ensures
        r == level_precedes(*a, *b, descending),
{
    if descending {
        a.price > b.price
    } else {
        a.price < b.price
    }
}

/// Applies one price-level change to a ladder, returning the new ladder. The
/// result is exactly the reference model [`change_applied`].
pub fn apply_change(ladder: &Vec<Level>, change: Level, descending: bool) -> (r: Vec<Level>)
    ensures
        r@ == change_applied(ladder@, change, descending),
{
    let mut cleared: Vec<Level> = Vec::new();
    let mut i: usize = 0;
    while i < ladder.len()
        invariant
            i <= ladder.len(),
            cleared@ == with_price_removed(ladder@.take(i as int), change.price),
        decreases ladder.len() - i,
    {
        proof {
            assert(ladder@.take(i + 1).drop_last() =~= ladder@.take(i as int));
            assert(ladder@.take(i + 1).last() == ladder@[i as int]);
        }
        let l = ladder[i];
        if l.price != change.price {
            cleared.push(l);
        }
        i += 1;
    }
    proof {
        assert(ladder@.take(ladder@.len() as int) =~= ladder@);
    }
    if change.amount == 0 {
        return cleared;
    }
    let mut j: usize = 0;
    while j < cleared.len() && precedes(&cleared[j], &change, descending)
        invariant
            j <= cleared.len(),
            forall|k: int| 0 <= k < j ==> level_precedes(#[trigger] cleared@[k], change, descending),
        decreases cleared.len() - j,
    {
        j += 1;
    }
    proof {
        lemma_insert_position_unique(cleared@, change, descending, j as int);
    }
    let mut result = cleared;
    result.insert(j, change);
    proof {
        let pos = j as int;
        let cl = with_price_removed(ladder@, change.price);
        assert(result@ =~= cl.take(pos) + seq![change] + cl.skip(pos));
    }
    result
}

/// Applies a batch of price-level changes left to right, returning the new
/// ladder. The result is exactly the reference model [`changes_applied`].
pub fn apply_changes(ladder: &Vec<Level>, changes: &Vec<Level>, descending: bool) -> (r: Vec<Level>)
    ensures
        r@ == changes_applied(ladder@, changes@, descending),
{
    let mut acc: Vec<Level> = Vec::new();
    let mut i: usize = 0;
    while i < ladder.len()
        invariant
            i <= ladder.len(),
            acc@ == ladder@.take(i as int),
        decreases ladder.len() - i,
    {
        proof {
            assert(ladder@.take(i + 1) =~= ladder@.take(i as int).push(ladder@[i as int]));
        }
        acc.push(ladder[i]);
        i += 1;
    }
    proof {
        assert(ladder@.take(ladder@.len() as int) =~= ladder@);
        assert(changes@.skip(0) =~= changes@);
    }
    let mut k: usize = 0;
    while k < changes.len()
        invariant
            k <= changes.len(),
            changes_applied(acc@, changes@.skip(k as int), descending) == changes_applied(
                ladder@,
                changes@,
                descending,
            ),
        decreases changes.len() - k,
    {
        proof {
            assert(changes@.skip(k as int).drop_first() =~= changes@.skip(k + 1));
            assert(changes@.skip(k as int)[0] == changes@[k as int]);
        }
        let next = apply_change(&acc, changes[k], descending);
        acc = next;
        k += 1;
    }
    proof {
        assert(changes@.skip(changes@.len() as int) =~= Seq::<Level>::empty());
    }
    acc
}

/// Builds a normalised ladder from the raw levels of a snapshot: duplicate
/// prices collapse to the latest entry, zero-amount levels are dropped, and
/// the result is strictly sorted on the requested side.
pub fn build_ladder(levels: &Vec<Level>, descending: bool) -> (r: Vec<Level>)
    ensures
        r@ == changes_applied(Seq::<Level>::empty(), levels@, descending),
        ladder_wf(r@, descending),
{
    let empty: Vec<Level> = Vec::new();
    let r = apply_changes(&empty, levels, descending);
    proof {
        lemma_changes_applied_wf(Seq::<Level>::empty(), levels@, descending);
    }
    r
}

/// Full order-book ladder sent by an exchange to (re)initialise
/// reconstruction, together with its exchange-native update identifier.
#[derive(Debug)]
pub struct BookSnapshot {
    pub subscription_id: SubscriptionId,
    pub last_update_id: u64,
    pub bids: Vec<Level>,
    pub asks: Vec<Level>,
}

/// Incremental price-level changes applied atop an initialised ladder.
/// `prev_update_id` names the update the delta expects to follow: it must
/// equal the book's last-applied identifier, or a gap is declared.
#[derive(Debug)]
pub struct BookDelta {
    pub subscription_id: SubscriptionId,
    pub prev_update_id: u64,
    pub last_update_id: u64,
    pub bids: Vec<Level>,
    pub asks: Vec<Level>,
}

/// Locally reconstructed order book: both ladders plus the exchange-native
/// identifier of the last applied update, used for gap detection.
#[derive(Debug)]
pub struct OrderBook {
    pub bids: Vec<Level>,
    pub asks: Vec<Level>,
    pub last_update_id: u64,
}

impl OrderBook {
    /// Both ladders are well-formed: bids strictly descending, asks strictly
    /// ascending, no duplicate prices, no zero-amount levels.
    pub open spec fn wf(self) -> bool {
        ladder_wf(self.bids@, true) && ladder_wf(self.asks@, false)
    }
}

/// Per-subscription reconstruction state machine.
///
/// `Uninitialized` holds until the first snapshot arrives; deltas received
/// before that are discarded, which is sound for exchanges whose next
/// snapshot supersedes them. `Initialized` applies each delta whose
/// `prev_update_id` exactly matches the last-applied identifier and declares
/// a gap otherwise. `Desynced` discards every delta until a fresh snapshot
/// re-initialises the book.
#[derive(Debug)]
pub enum BookState {
    Uninitialized,
    Initialized(OrderBook),
    Desynced,
}

/// Result of offering one delta to a [`BookState`].
#[derive(Clone, Copy, PartialEq, Eq, Structural, Debug)]
pub enum DeltaOutcome {
    /// The delta matched the book's last-applied identifier and was applied.
    Applied,
    /// The state discards deltas (no book yet, or already desynced).
    Discarded,
    /// The delta's predecessor identifier did not match: the book is now
    /// desynced and a fresh snapshot is required.
    Gap,
}

impl BookState {
    /// Any book held by the state is well-formed.
    pub open spec fn wf(self) -> bool {
        match self {
            BookState::Initialized(book) => book.wf(),
            _ => true,
        }
    }

    /// Forces the state to `Desynced`, discarding any book held. Used when a
    /// frame whose unparseable field carried sequencing data makes the local
    /// reconstruction untrustworthy: deltas are then discarded until a fresh
    /// snapshot re-initialises the book.
    pub fn desync(&mut self)
        ensures
            *final(self) is Desynced,
            final(self).wf(),
    {
        *self = BookState::Desynced;
    }

    /// Rebuilds the book from a snapshot and enters `Initialized`, from any
    /// state.
    pub fn apply_snapshot(&mut self, snapshot: &BookSnapshot)
        ensures
            final(self).wf(),
            *final(self) is Initialized,
            final(self)->Initialized_0.bids@ == changes_applied(
                Seq::<Level>::empty(),
                snapshot.bids@,
                true,
            ),
            final(self)->Initialized_0.asks@ == changes_applied(
                Seq::<Level>::empty(),
                snapshot.asks@,
                false,
            ),
            final(self)->Initialized_0.last_update_id == snapshot.last_update_id,
    {
        let bids = build_ladder(&snapshot.bids, true);
        let asks = build_ladder(&snapshot.asks, false);
        *self = BookState::Initialized(
            OrderBook { bids, asks, last_update_id: snapshot.last_update_id },
        );
    }

    /// Offers one delta to the state machine.
    ///
    /// A delta is applied if and only if the state is `Initialized` and the
    /// delta's `prev_update_id` equals the book's last-applied identifier;
    /// the resulting ladders are exactly the reference model
    /// [`changes_applied`]. A mismatched delta yields `Gap` and moves the
    /// state to `Desynced` without touching the ladders it discards; while
    /// `Uninitialized` or `Desynced`, every delta is discarded unchanged.
    pub fn apply_delta(&mut self, delta: &BookDelta) -> (r: DeltaOutcome)
        requires
            old(self).wf(),
        ensures
            final(self).wf(),
            *old(self) is Uninitialized || *old(self) is Desynced ==> r
                == DeltaOutcome::Discarded && *final(self) == *old(self),
            *old(self) is Initialized && delta.prev_update_id == old(
                self,
            )->Initialized_0.last_update_id ==> {
                &&& r == DeltaOutcome::Applied
                &&& *final(self) is Initialized
                &&& final(self)->Initialized_0.bids@ == changes_applied(
                    old(self)->Initialized_0.bids@,
                    delta.bids@,
                    true,
                )
                &&& final(self)->Initialized_0.asks@ == changes_applied(
                    old(self)->Initialized_0.asks@,
                    delta.asks@,
                    false,
                )
                &&& final(self)->Initialized_0.last_update_id == delta.last_update_id
            },
            *old(self) is Initialized && delta.prev_update_id != old(
                self,
            )->Initialized_0.last_update_id ==> r == DeltaOutcome::Gap && *final(self) is Desynced,
    {
        match &*self {
            BookState::Uninitialized => DeltaOutcome::Discarded,
            BookState::Desynced => DeltaOutcome::Discarded,
            BookState::Initialized(book) => {
                if delta.prev_update_id == book.last_update_id {
                    let bids = apply_changes(&book.bids, &delta.bids, true);
                    let asks = apply_changes(&book.asks, &delta.asks, false);
                    proof {
                        lemma_changes_applied_wf(
                            old(self)->Initialized_0.bids@,
                            delta.bids@,
                            true,
                        );
                        lemma_changes_applied_wf(
                            old(self)->Initialized_0.asks@,
                            delta.asks@,
                            false,
                        );
                    }
                    *self = BookState::Initialized(
                        OrderBook { bids, asks, last_update_id: delta.last_update_id },
                    );
                    DeltaOutcome::Applied
                } else {
                    *self = BookState::Desynced;
                    DeltaOutcome::Gap
                }
            },
        }
    }
}

} // verus!
