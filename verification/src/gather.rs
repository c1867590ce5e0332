//! Collecting what the services say about the tokens of one event.
//!
//! The lookups of an event may be made side by side and may come back in any
//! order. Each answer is put into the slot of its token, so that the tokens
//! come out in the order of the event whatever the order of the answers. A
//! slot that no answer reached comes out as a token of which nothing is
//! known.

use crate::bid::{no_bid, TopBid, TopBidView};
use crate::notification::{lookups_view, TokenLookup, TokenLookupView};
use crate::valuation::{Valuation, ValuationView};
use vstd::prelude::*;

verus! {

/// The slot of one token.
#[derive(Debug)]
struct Slot {
    valuation: Option<Valuation>,
    bid: Option<TopBid>,
}

/// The slots for the tokens of one event.
#[derive(Debug)]
pub struct Gather {
    slots: Vec<Slot>,
}

/// A [`Gather`] over mathematical values: for each token, in the order of
/// the event, the valuation and the bid that have come in.
pub struct GatherView {
    pub valuations: Seq<Option<ValuationView>>,
    pub bids: Seq<Option<TopBidView>>,
}

/// The view of a slot for a valuation.
pub open spec fn valuation_slot(slot: Option<Valuation>) -> Option<ValuationView> {
    match slot {
        Some(valuation) => Some(valuation@),
        None => None,
    }
}

/// The view of a slot for a bid.
pub open spec fn bid_slot(slot: Option<TopBid>) -> Option<TopBidView> {
    match slot {
        Some(bid) => Some(bid@),
        None => None,
    }
}

impl View for Gather {
    type V = GatherView;

    closed spec fn view(&self) -> GatherView {
        GatherView {
            valuations: Seq::new(
                self.slots@.len(),
                |i: int| valuation_slot(self.slots@[i].valuation),
            ),
            bids: Seq::new(self.slots@.len(), |i: int| bid_slot(self.slots@[i].bid)),
        }
    }
}

/// Slots for `count` tokens, all empty.
pub open spec fn empty_slots(count: nat) -> GatherView {
    GatherView {
        valuations: Seq::new(count, |i: int| None::<ValuationView>),
        bids: Seq::new(count, |i: int| None::<TopBidView>),
    }
}

/// The slots after the valuation of the token at `index` has come in. An
/// index beyond the slots changes nothing.
pub open spec fn with_valuation(slots: GatherView, index: int, valuation: ValuationView) -> GatherView {
    if 0 <= index < slots.valuations.len() {
        GatherView { valuations: slots.valuations.update(index, Some(valuation)), ..slots }
    } else {
        slots
    }
}

/// The slots after the bid on the token at `index` has come in. An index
/// beyond the slots changes nothing.
pub open spec fn with_bid(slots: GatherView, index: int, bid: TopBidView) -> GatherView {
    if 0 <= index < slots.bids.len() {
        GatherView { bids: slots.bids.update(index, Some(bid)), ..slots }
    } else {
        slots
    }
}

/// What is known of the token at `index`: the valuation that came in, if
/// one did, and the bid that came in, or the bid of nobody.
pub open spec fn lookup_at(slots: GatherView, index: int) -> TokenLookupView {
    TokenLookupView {
        valuation: slots.valuations[index],
        top_bid: match slots.bids[index] {
            Some(bid) => bid,
            None => no_bid(),
        },
    }
}

/// What is known of each token, in the order of the event.
pub open spec fn gathered(slots: GatherView) -> Seq<TokenLookupView> {
    Seq::new(slots.valuations.len(), |i: int| lookup_at(slots, i))
}

/// Answers for different tokens may come in either order: the slots end up
/// the same. So do a valuation and a bid, for whichever tokens.
pub proof fn lemma_arrival_order_is_free(
    slots: GatherView,
    i: int,
    j: int,
    first_valuation: ValuationView,
    second_valuation: ValuationView,
    first_bid: TopBidView,
    second_bid: TopBidView,
)
    ensures
        i != j ==> with_valuation(with_valuation(slots, i, first_valuation), j, second_valuation)
            == with_valuation(with_valuation(slots, j, second_valuation), i, first_valuation),
        i != j ==> with_bid(with_bid(slots, i, first_bid), j, second_bid) == with_bid(
            with_bid(slots, j, second_bid),
            i,
            first_bid,
        ),
        with_bid(with_valuation(slots, i, first_valuation), j, first_bid) == with_valuation(
            with_bid(slots, j, first_bid),
            i,
            first_valuation,
        ),
{
    if i != j {
        assert(with_valuation(
            with_valuation(slots, i, first_valuation),
            j,
            second_valuation,
        ).valuations =~= with_valuation(
            with_valuation(slots, j, second_valuation),
            i,
            first_valuation,
        ).valuations);
        assert(with_bid(with_bid(slots, i, first_bid), j, second_bid).bids =~= with_bid(
            with_bid(slots, j, second_bid),
            i,
            first_bid,
        ).bids);
    }
}

/// An answer shows in the slot of its token and in no other.
pub proof fn lemma_answer_lands_in_its_slot(
    slots: GatherView,
    index: int,
    valuation: ValuationView,
    bid: TopBidView,
)
    requires
        slots.valuations.len() == slots.bids.len(),
        0 <= index < slots.valuations.len(),
    ensures
        gathered(with_valuation(slots, index, valuation)).len() == gathered(slots).len(),
        gathered(with_bid(slots, index, bid)).len() == gathered(slots).len(),
        gathered(with_valuation(slots, index, valuation))[index].valuation == Some(valuation),
        gathered(with_bid(slots, index, bid))[index].top_bid == bid,
        forall|k: int|
            0 <= k < slots.valuations.len() && k != index ==> #[trigger] gathered(
                with_valuation(slots, index, valuation),
            )[k] == gathered(slots)[k] && gathered(with_bid(slots, index, bid))[k] == gathered(
                slots,
            )[k],
{
}

/// A copy of a slot for a valuation.
fn copy_valuation_slot(slot: &Option<Valuation>) -> (r: Option<Valuation>)
    ensures
        valuation_slot(r) == valuation_slot(*slot),
{
    match slot {
        Some(valuation) => Some(valuation.duplicate()),
        None => None,
    }
}

/// A copy of a slot for a bid.
fn copy_bid_slot(slot: &Option<TopBid>) -> (r: Option<TopBid>)
    ensures
        bid_slot(r) == bid_slot(*slot),
{
    match slot {
        Some(bid) => Some(bid.duplicate()),
        None => None,
    }
}

impl Gather {
    /// Empty slots for `count` tokens.
    pub fn new(count: usize) -> (r: Gather)
        ensures
            r@ == empty_slots(count as nat),
    {
        let mut slots: Vec<Slot> = Vec::new();
        let mut i: usize = 0;
        while i < count
            invariant
                i <= count,
                slots@.len() == i,
                forall|k: int|
                    0 <= k < i ==> (#[trigger] slots@[k]).valuation is None && slots@[k].bid
                        is None,
            decreases count - i,
        {
            slots.push(Slot { valuation: None, bid: None });
            i = i + 1;
        }
        let r = Gather { slots };
        assert(r@.valuations =~= empty_slots(count as nat).valuations);
        assert(r@.bids =~= empty_slots(count as nat).bids);
        r
    }

    /// For how many tokens there are slots.
    pub fn len(&self) -> (r: usize)
        ensures
            r == self@.valuations.len(),
            r == self@.bids.len(),
    {
        self.slots.len()
    }

    /// Puts the valuation of the token at `index` into its slot. Answers
    /// whether there is such a slot.
    pub fn place_valuation(&mut self, index: usize, valuation: Valuation) -> (r: bool)
        ensures
            r == (index < old(self)@.valuations.len()),
            final(self)@ == with_valuation(old(self)@, index as int, valuation@),
    {
        if index < self.slots.len() {
            let bid = copy_bid_slot(&self.slots[index].bid);
            self.slots.set(index, Slot { valuation: Some(valuation), bid });
            assert(self@.valuations =~= with_valuation(
                old(self)@,
                index as int,
                valuation@,
            ).valuations);
            assert(self@.bids =~= old(self)@.bids);
            true
        } else {
            false
        }
    }

    /// Puts the bid on the token at `index` into its slot. Answers whether
    /// there is such a slot.
    pub fn place_bid(&mut self, index: usize, bid: TopBid) -> (r: bool)
        ensures
            r == (index < old(self)@.bids.len()),
            final(self)@ == with_bid(old(self)@, index as int, bid@),
    {
        if index < self.slots.len() {
            let valuation = copy_valuation_slot(&self.slots[index].valuation);
            self.slots.set(index, Slot { valuation, bid: Some(bid) });
            assert(self@.bids =~= with_bid(old(self)@, index as int, bid@).bids);
            assert(self@.valuations =~= old(self)@.valuations);
            true
        } else {
            false
        }
    }

    /// What is known of each token, in the order of the event. A token whose
    /// valuation did not come in has none; one whose bid did not come in has
    /// the bid of nobody.
    pub fn finish(&self) -> (r: Vec<TokenLookup>)
        ensures
            lookups_view(r@) == gathered(self@),
            r@.len() == self@.valuations.len(),
    {
        let n: usize = self.slots.len();
        let mut lookups: Vec<TokenLookup> = Vec::new();
        let mut i: usize = 0;
        while i < n
            invariant
                i <= n,
                n == self.slots@.len(),
                lookups@.len() == i,
                forall|k: int| 0 <= k < i ==> (#[trigger] lookups@[k])@ == lookup_at(self@, k),
            decreases n - i,
        {
            let valuation = copy_valuation_slot(&self.slots[i].valuation);
            let top_bid = match &self.slots[i].bid {
                Some(bid) => bid.duplicate(),
                None => TopBid::none(),
            };
            let lookup = TokenLookup { valuation, top_bid };
            assert(lookup@ == lookup_at(self@, i as int));
            lookups.push(lookup);
            i = i + 1;
        }
        assert(lookups_view(lookups@) =~= gathered(self@));
        lookups
    }
}

} // verus!
