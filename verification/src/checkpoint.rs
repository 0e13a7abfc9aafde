//! What a checkpoint must not overtake.

use vstd::prelude::*;

use crate::error::Result;
use crate::ids::{Lsn, TxnId};

verus! {

/// The pairs as a map from transaction to position.
pub open spec fn pins_of(pairs: Seq<(TxnId, Lsn)>) -> Map<TxnId, Lsn>
    decreases pairs.len(),
{
    if pairs.len() == 0 {
        Map::empty()
    } else {
        pins_of(pairs.drop_last()).insert(pairs.last().0, pairs.last().1)
    }
}

/// No transaction occurs twice.
pub open spec fn distinct(pairs: Seq<(TxnId, Lsn)>) -> bool {
    forall|i: int, j: int|
        0 <= i < j < pairs.len() ==> (#[trigger] pairs[i]).0 != (#[trigger] pairs[j]).0
}

/// The smaller of the position on record, if any, and a new one.
pub open spec fn earliest(pins: Map<TxnId, Lsn>, txn_id: TxnId, replay_from: Lsn) -> Lsn {
    if pins.contains_key(txn_id) && pins[txn_id] <= replay_from {
        pins[txn_id]
    } else {
        replay_from
    }
}

/// The earliest position that is pinned, if any is.
pub open spec fn is_oldest(pins: Map<TxnId, Lsn>, oldest: Option<Lsn>) -> bool {
    match oldest {
        Some(lsn) => (exists|txn_id: TxnId| #[trigger]
            pins.contains_key(txn_id) && pins[txn_id] == lsn) && forall|txn_id: TxnId| #[trigger]
            pins.contains_key(txn_id) ==> lsn <= pins[txn_id],
        None => pins == Map::<TxnId, Lsn>::empty(),
    }
}

/// The pins after a transaction has registered a position.
pub open spec fn registered(pins: Map<TxnId, Lsn>, txn_id: TxnId, replay_from: Lsn) -> Map<
    TxnId,
    Lsn,
> {
    pins.insert(txn_id, earliest(pins, txn_id, replay_from))
}

/// To register a position never raises a pin, so that the oldest position never grows,
/// and it lies at or before the registered one.
pub proof fn registering_raises_no_pin(
    pins: Map<TxnId, Lsn>,
    txn_id: TxnId,
    replay_from: Lsn,
    before: Option<Lsn>,
    after: Option<Lsn>,
)
    requires
        is_oldest(pins, before),
        is_oldest(registered(pins, txn_id, replay_from), after),
    ensures
        forall|id: TxnId| #[trigger]
            pins.contains_key(id) ==> registered(pins, txn_id, replay_from).contains_key(id)
                && registered(pins, txn_id, replay_from)[id] <= pins[id],
        forall|id: TxnId|
            id != txn_id && #[trigger] pins.contains_key(id) ==> registered(
                pins,
                txn_id,
                replay_from,
            )[id] == pins[id],
        after matches Some(lsn) && lsn <= replay_from && (before matches Some(earlier) ==> lsn
            <= earlier),
{
    let now = registered(pins, txn_id, replay_from);
    assert(now.contains_key(txn_id));
    if let Some(earlier) = before {
        let id = choose|id: TxnId| #[trigger] pins.contains_key(id) && pins[id] == earlier;
        assert(now.contains_key(id));
    }
}

/// To resolve a transaction drops its pin alone, so that the oldest position never falls.
pub proof fn resolving_lowers_no_pin(
    pins: Map<TxnId, Lsn>,
    txn_id: TxnId,
    before: Option<Lsn>,
    after: Option<Lsn>,
)
    requires
        is_oldest(pins, before),
        is_oldest(pins.remove(txn_id), after),
    ensures
        !pins.remove(txn_id).contains_key(txn_id),
        forall|id: TxnId|
            id != txn_id && #[trigger] pins.contains_key(id) ==> pins.remove(txn_id).contains_key(
                id,
            ) && pins.remove(txn_id)[id] == pins[id],
        after matches Some(lsn) ==> before matches Some(earlier) && earlier <= lsn,
        !pins.contains_key(txn_id) ==> after == before,
{
    if let Some(lsn) = after {
        let id = choose|id: TxnId| #[trigger]
            pins.remove(txn_id).contains_key(id) && pins.remove(txn_id)[id] == lsn;
        assert(pins.contains_key(id));
    }
    if !pins.contains_key(txn_id) {
        assert(pins.remove(txn_id) =~= pins);
        if let (Some(a), Some(b)) = (before, after) {
            let id = choose|id: TxnId| #[trigger] pins.contains_key(id) && pins[id] == a;
            assert(pins.remove(txn_id).contains_key(id));
        }
        if let Some(a) = before {
            let id = choose|id: TxnId| #[trigger] pins.contains_key(id) && pins[id] == a;
            assert(pins.remove(txn_id).contains_key(id));
        }
    }
}

proof fn lemma_pins(pairs: Seq<(TxnId, Lsn)>)
    requires
        distinct(pairs),
    ensures
        forall|i: int|
            0 <= i < pairs.len() ==> pins_of(pairs).contains_key((#[trigger] pairs[i]).0)
                && pins_of(pairs)[pairs[i].0] == pairs[i].1,
        forall|txn_id: TxnId| #[trigger]
            pins_of(pairs).contains_key(txn_id) ==> exists|i: int|
                0 <= i < pairs.len() && (#[trigger] pairs[i]).0 == txn_id,
    decreases pairs.len(),
{
    if pairs.len() > 0 {
        let front = pairs.drop_last();
        assert(distinct(front)) by {
            assert forall|i: int, j: int| 0 <= i < j < front.len() implies (#[trigger] front[i]).0
                != (#[trigger] front[j]).0 by {
                assert(front[i] == pairs[i] && front[j] == pairs[j]);
            }
        }
        lemma_pins(front);
        assert forall|i: int| 0 <= i < pairs.len() implies pins_of(pairs).contains_key(
            (#[trigger] pairs[i]).0,
        ) && pins_of(pairs)[pairs[i].0] == pairs[i].1 by {
            if i < front.len() {
                assert(front[i] == pairs[i]);
            }
        }
        assert forall|txn_id: TxnId| #[trigger] pins_of(pairs).contains_key(txn_id) implies exists|
            i: int,
        |
            0 <= i < pairs.len() && (#[trigger] pairs[i]).0 == txn_id by {
            if txn_id == pairs.last().0 {
                assert(pairs[pairs.len() - 1].0 == txn_id);
            } else {
                assert(pins_of(front).contains_key(txn_id));
                let i = choose|i: int| 0 <= i < front.len() && (#[trigger] front[i]).0 == txn_id;
                assert(pairs[i].0 == txn_id);
            }
        }
    }
}

/// Redo pins for generic catalog WAL records whose transaction has not finished
/// publishing (or restoring) its catalog/storage state.
#[derive(Debug)]
pub struct CatalogRedoTracker {
    pending: Vec<(TxnId, Lsn)>,
}

impl View for CatalogRedoTracker {
    type V = Map<TxnId, Lsn>;

    closed spec fn view(&self) -> Map<TxnId, Lsn> {
        pins_of(self.pending@)
    }
}

impl Default for CatalogRedoTracker {
    fn default() -> (tracker: Self)
        ensures
            tracker@ == Map::<TxnId, Lsn>::empty(),
    {
        CatalogRedoTracker { pending: Vec::new() }
    }
}

impl CatalogRedoTracker {
    #[verifier::type_invariant]
    spec fn one_pin_each(self) -> bool {
        distinct(self.pending@)
    }

    fn position(&self, txn_id: TxnId) -> (position: Option<usize>)
        ensures
            distinct(self.pending@),
            match position {
                Some(i) => i < self.pending@.len() && self.pending@[i as int].0 == txn_id
                    && self@.contains_key(txn_id) && self@[txn_id] == self.pending@[i as int].1,
                None => !self@.contains_key(txn_id) && forall|j: int|
                    0 <= j < self.pending@.len() ==> (#[trigger] self.pending@[j]).0 != txn_id,
            },
    {
        proof {
            use_type_invariant(self);
            lemma_pins(self.pending@);
        }
        let mut i: usize = 0;
        while i < self.pending.len()
            invariant
                i <= self.pending@.len(),
                forall|j: int| 0 <= j < i ==> (#[trigger] self.pending@[j]).0 != txn_id,
                self@ == pins_of(self.pending@),
                forall|j: int|
                    0 <= j < self.pending@.len() ==> self@.contains_key(
                        (#[trigger] self.pending@[j]).0,
                    ) && self@[self.pending@[j].0] == self.pending@[j].1,
                distinct(self.pending@),
            decreases self.pending@.len() - i,
        {
            if self.pending[i].0 == txn_id {
                return Some(i);
            }
            i += 1;
        }
        None
    }

    /// Pins `replay_from` for a transaction, which keeps the earliest position of all
    /// that it was given.
    pub fn register(&mut self, txn_id: TxnId, replay_from: Lsn) -> (result: Result<()>)
        ensures
            result is Ok,
            final(self)@ == registered(old(self)@, txn_id, replay_from),
    {
        let found: Option<usize> = self.position(txn_id);
        let mut pending: Vec<(TxnId, Lsn)> = Vec::new();
        core::mem::swap(&mut pending, &mut self.pending);
        let ghost before = pending@;
        match found {
            Some(i) => {
                if replay_from < pending[i].1 {
                    pending.set(i, (txn_id, replay_from));
                }
                proof {
                    lemma_pins(before);
                    let after = pending@;
                    assert forall|a: int, b: int| 0 <= a < b < after.len() implies (
                    #[trigger] after[a]).0 != (#[trigger] after[b]).0 by {
                        assert(after[a].0 == before[a].0 && after[b].0 == before[b].0);
                    }
                    assert forall|id: TxnId| #[trigger]
                        pins_of(before).insert(
                            txn_id,
                            earliest(pins_of(before), txn_id, replay_from),
                        ).contains_key(id) implies exists|j: int|
                        0 <= j < after.len() && (#[trigger] after[j]).0 == id by {
                        if id == txn_id {
                            assert(after[i as int].0 == id);
                        } else {
                            let x = choose|x: int|
                                0 <= x < before.len() && (#[trigger] before[x]).0 == id;
                            assert(after[x].0 == id);
                        }
                    }
                    lemma_same_pins(
                        after,
                        pins_of(before).insert(
                            txn_id,
                            earliest(pins_of(before), txn_id, replay_from),
                        ),
                    );
                }
            },
            None => {
                pending.push((txn_id, replay_from));
                proof {
                    assert(pending@.drop_last() == before);
                    assert(distinct(pending@)) by {
                        let after = pending@;
                        assert forall|a: int, b: int| 0 <= a < b < after.len() implies (
                        #[trigger] after[a]).0 != (#[trigger] after[b]).0 by {
                            assert(after[a] == before[a]);
                            if b < before.len() {
                                assert(after[b] == before[b]);
                            }
                        }
                    }
                }
            },
        }
        self.pending = pending;
        Ok(())
    }

    /// Drops the pin of a transaction.
    pub fn resolve(&mut self, txn_id: TxnId) -> (result: Result<()>)
        ensures
            result is Ok,
            final(self)@ == old(self)@.remove(txn_id),
    {
        let found: Option<usize> = self.position(txn_id);
        let mut pending: Vec<(TxnId, Lsn)> = Vec::new();
        core::mem::swap(&mut pending, &mut self.pending);
        let ghost before = pending@;
        match found {
            Some(i) => {
                let _ = pending.remove(i);
                proof {
                    lemma_pins(before);
                    let after = pending@;
                    assert forall|a: int, b: int| 0 <= a < b < after.len() implies (
                    #[trigger] after[a]).0 != (#[trigger] after[b]).0 by {
                        let x = if a < i {
                            a
                        } else {
                            a + 1
                        };
                        let y = if b < i {
                            b
                        } else {
                            b + 1
                        };
                        assert(after[a] == before[x] && after[b] == before[y]);
                    }
                    lemma_pins(after);
                    assert forall|j: int| 0 <= j < after.len() implies pins_of(before).remove(
                        txn_id,
                    ).contains_key((#[trigger] after[j]).0) && pins_of(before).remove(
                        txn_id,
                    )[after[j].0] == after[j].1 by {
                        let x = if j < i {
                            j
                        } else {
                            j + 1
                        };
                        assert(after[j] == before[x]);
                    }
                    assert forall|id: TxnId| #[trigger]
                        pins_of(before).remove(txn_id).contains_key(id) implies exists|j: int|
                        0 <= j < after.len() && (#[trigger] after[j]).0 == id by {
                        let x = choose|x: int|
                            0 <= x < before.len() && (#[trigger] before[x]).0 == id;
                        if x < i {
                            assert(after[x].0 == id);
                        } else {
                            assert(after[x - 1].0 == id);
                        }
                    }
                    lemma_same_pins(after, pins_of(before).remove(txn_id));
                }
            },
            None => {
                assert(pins_of(before).remove(txn_id) =~= pins_of(before));
            },
        }
        self.pending = pending;
        Ok(())
    }

    /// The earliest position that is pinned, if any is.
    pub fn oldest_pending(&self) -> (result: Result<Option<Lsn>>)
        ensures
            result matches Ok(oldest) && is_oldest(self@, oldest),
    {
        proof {
            use_type_invariant(self);
            lemma_pins(self.pending@);
        }
        if self.pending.len() == 0 {
            return Ok(None);
        }
        let mut least: Lsn = self.pending[0].1;
        let mut i: usize = 1;
        assert(self.pending@[0].1 == least);
        while i < self.pending.len()
            invariant
                1 <= i <= self.pending@.len(),
                exists|j: int|
                    0 <= j < self.pending@.len() && (#[trigger] self.pending@[j]).1 == least,
                forall|j: int| 0 <= j < i ==> least <= (#[trigger] self.pending@[j]).1,
            decreases self.pending@.len() - i,
        {
            if self.pending[i].1 < least {
                least = self.pending[i].1;
                assert(self.pending@[i as int].1 == least);
            }
            i += 1;
        }
        proof {
            let j = choose|j: int|
                0 <= j < self.pending@.len() && (#[trigger] self.pending@[j]).1 == least;
            assert(self@.contains_key(self.pending@[j].0));
            assert forall|txn_id: TxnId| #[trigger] self@.contains_key(txn_id) implies least
                <= self@[txn_id] by {
                let k = choose|k: int|
                    0 <= k < self.pending@.len() && (#[trigger] self.pending@[k]).0 == txn_id;
                assert(least <= self.pending@[k].1);
            }
        }
        Ok(Some(least))
    }
}

proof fn lemma_same_pins(pairs: Seq<(TxnId, Lsn)>, pins: Map<TxnId, Lsn>)
    requires
        distinct(pairs),
        forall|i: int|
            0 <= i < pairs.len() ==> pins.contains_key((#[trigger] pairs[i]).0)
                && pins[pairs[i].0] == pairs[i].1,
        forall|txn_id: TxnId| #[trigger]
            pins.contains_key(txn_id) ==> exists|i: int|
                0 <= i < pairs.len() && (#[trigger] pairs[i]).0 == txn_id,
    ensures
        pins_of(pairs) == pins,
{
    lemma_pins(pairs);
    assert forall|txn_id: TxnId| #[trigger]
        pins_of(pairs).contains_key(txn_id) == pins.contains_key(txn_id) by {
        if pins.contains_key(txn_id) {
            let i = choose|i: int| 0 <= i < pairs.len() && (#[trigger] pairs[i]).0 == txn_id;
            assert(pins_of(pairs).contains_key(pairs[i].0));
        }
        if pins_of(pairs).contains_key(txn_id) {
            let i = choose|i: int| 0 <= i < pairs.len() && (#[trigger] pairs[i]).0 == txn_id;
            assert(pins.contains_key(pairs[i].0));
        }
    }
    assert forall|txn_id: TxnId| pins.contains_key(txn_id) implies #[trigger] pins_of(pairs)[txn_id]
        == pins[txn_id] by {
        let i = choose|i: int| 0 <= i < pairs.len() && (#[trigger] pairs[i]).0 == txn_id;
        assert(pins_of(pairs)[pairs[i].0] == pairs[i].1);
    }
    assert(pins_of(pairs) =~= pins);
}

} // verus!
