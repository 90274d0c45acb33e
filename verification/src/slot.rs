//! The result channel: a single-use, monotonically-keyed handoff store.
//!
//! The return callback registered with the engine delivers one JSON value
//! per call into a fresh slot; the call bridge takes the slot's value out
//! exactly once, after which the slot id is retired and never reused.

use vstd::prelude::*;

use crate::json::JsValue;
use crate::json::SpecJson;

verus! {

broadcast use vstd::std_specs::vec::group_vec_axioms;

/// The store of pending results, keyed by slot id.
#[derive(Debug)]
pub struct SlotStore {
    pub next_id: u32,
    pub entries: Vec<(u32, JsValue)>,
}

/// The value filed under `id`, if any.
pub open spec fn spec_lookup(entries: Seq<(int, SpecJson)>, id: int) -> Option<SpecJson>
    decreases entries.len(),
{
    if entries.len() == 0 {
        None
    } else if entries[0].0 == id {
        Some(entries[0].1)
    } else {
        spec_lookup(entries.drop_first(), id)
    }
}

/// A lookup succeeds exactly when some entry carries the id, and under
/// distinct ids it returns that entry's value.
pub proof fn lemma_lookup_index(entries: Seq<(int, SpecJson)>, id: int)
    ensures
        (spec_lookup(entries, id) is Some) <==> (exists|j: int|
            0 <= j < entries.len() && (#[trigger] entries[j]).0 == id),
        forall|j: int|
            0 <= j < entries.len() && (#[trigger] entries[j]).0 == id && (forall|k: int|
                0 <= k < j ==> (#[trigger] entries[k]).0 != id) ==> spec_lookup(entries, id)
                == Some(entries[j].1),
    decreases entries.len(),
{
    if entries.len() > 0 {
        lemma_lookup_index(entries.drop_first(), id);
        assert(forall|j: int|
            1 <= j < entries.len() ==> #[trigger] entries[j] == entries.drop_first()[j - 1]);
    }
}

/// Removing the entry at `j` removes its id from the store and leaves every
/// other id's lookup unchanged, provided ids are distinct.
pub proof fn lemma_lookup_remove(entries: Seq<(int, SpecJson)>, j: int)
    requires
        0 <= j < entries.len(),
        forall|a: int, b: int|
            0 <= a < b < entries.len() ==> (#[trigger] entries[a]).0 != (#[trigger] entries[b]).0,
    ensures
        spec_lookup(entries.remove(j), entries[j].0) is None,
        forall|id: int|
            id != entries[j].0 ==> spec_lookup(entries.remove(j), id) == spec_lookup(entries, id),
    decreases entries.len(),
{
    let rest = entries.drop_first();
    if j == 0 {
        assert(entries.remove(0) =~= rest);
        lemma_lookup_index(rest, entries[0].0);
        assert(forall|k: int|
            1 <= k < entries.len() ==> #[trigger] entries[k] == rest[k - 1]);
        assert(forall|k: int| 0 <= k < rest.len() ==> (#[trigger] rest[k]).0 != entries[0].0);
    } else {
        assert(forall|k: int|
            1 <= k < entries.len() ==> #[trigger] entries[k] == rest[k - 1]);
        lemma_lookup_remove(rest, j - 1);
        assert(entries.remove(j).drop_first() =~= rest.remove(j - 1));
        assert(entries.remove(j)[0] == entries[0]);
        assert(entries[j] == rest[j - 1]);
        assert forall|id: int|
            id != entries[j].0 implies spec_lookup(entries.remove(j), id) == spec_lookup(
            entries,
            id,
        ) by {
            assert(spec_lookup(rest.remove(j - 1), id) == spec_lookup(rest, id));
        }
        assert(spec_lookup(entries.remove(j), entries[j].0) is None) by {
            assert(entries.remove(j)[0].0 != entries[j].0);
            assert(spec_lookup(rest.remove(j - 1), entries[j].0) is None);
        }
    }
}

/// Slot ids are never reused: the id the store will assign next differs
/// from every id still filed, so one call's late or duplicate delivery can
/// never corrupt a later, unrelated call's slot.
pub proof fn lemma_fresh_id_unused(s: SlotStore)
    requires
        s.wf(),
    ensures
        forall|i: int| 0 <= i < s.rep().len() ==> (#[trigger] s.rep()[i]).0 != s.spec_next_id(),
{
}

impl SlotStore {
    /// The entries as id–value pairs, in insertion order.
    pub open spec fn rep(&self) -> Seq<(int, SpecJson)> {
        Seq::new(self.entries@.len(), |i: int| (self.entries@[i].0 as int, self.entries@[i].1@))
    }

    /// The id the next delivered result will get.
    pub open spec fn spec_next_id(&self) -> int {
        self.next_id as int
    }

    /// Every filed id was assigned before `next_id`, and no id is filed
    /// twice: a slot holds at most one value, and a retired id never
    /// returns.
    pub open spec fn wf(&self) -> bool {
        &&& forall|i: int| 0 <= i < self.rep().len() ==> (#[trigger] self.rep()[i]).0
            < self.spec_next_id()
        &&& forall|a: int, b: int|
            0 <= a < b < self.rep().len() ==> (#[trigger] self.rep()[a]).0 != (
            #[trigger] self.rep()[b]).0
    }

    /// An empty store whose first slot id is 0.
    pub fn new() -> (s: SlotStore)
        ensures
            s.wf(),
            s.rep() == Seq::<(int, SpecJson)>::empty(),
            s.spec_next_id() == 0,
    {
        let s = SlotStore { next_id: 0, entries: Vec::new() };
        proof {
            assert(s.rep() =~= Seq::<(int, SpecJson)>::empty());
        }
        s
    }

    /// Files one delivered value under a fresh slot id and hands the id
    /// back.  This is what the engine-registered return callback does with
    /// the value a script hands it.
    pub fn deliver(&mut self, value: JsValue) -> (id: u32)
        requires
            old(self).wf(),
            old(self).spec_next_id() < u32::MAX,
        ensures
            final(self).wf(),
            id as int == old(self).spec_next_id(),
            final(self).spec_next_id() == old(self).spec_next_id() + 1,
            final(self).rep() == old(self).rep().push((id as int, value@)),
    {
        let id = self.next_id;
        self.entries.push((id, value));
        self.next_id = self.next_id + 1;
        proof {
            assert(self.rep() =~= old(self).rep().push((id as int, value@)));
        }
        id
    }

    /// Takes the value filed under `id` out of the store, retiring the
    /// slot: a second take of the same id finds nothing.
    #[verifier::loop_isolation(false)]
    pub fn take(&mut self, id: u32) -> (r: Option<JsValue>)
        requires
            old(self).wf(),
        ensures
            final(self).wf(),
            final(self).spec_next_id() == old(self).spec_next_id(),
            r matches Some(v) ==> spec_lookup(old(self).rep(), id as int) == Some(v@),
            r is None <==> spec_lookup(old(self).rep(), id as int) is None,
            r is None ==> final(self).rep() == old(self).rep(),
            spec_lookup(final(self).rep(), id as int) is None,
            forall|other: int|
                other != id as int ==> spec_lookup(final(self).rep(), other) == spec_lookup(
                    old(self).rep(),
                    other,
                ),
    {
        proof {
            lemma_lookup_index(self.rep(), id as int);
        }
        let n = self.entries.len();
        let mut j: usize = 0;
        while j < n
            invariant
                j <= n,
                *self == *old(self),
                n == self.entries@.len(),
                forall|k: int| 0 <= k < j ==> (#[trigger] self.rep()[k]).0 != id as int,
            decreases n - j,
        {
            if self.entries[j].0 == id {
                proof {
                    lemma_lookup_remove(self.rep(), j as int);
                    assert(self.rep()[j as int].0 == id as int);
                }
                let entry = self.entries.remove(j);
                proof {
                    assert(self.entries@ == old(self).entries@.remove(j as int));
                    assert forall|k: int| 0 <= k < self.rep().len() implies self.rep()[k] == old(
                        self,
                    ).rep().remove(j as int)[k] by {
                        if k < j {
                            assert(self.entries@[k] == old(self).entries@[k]);
                        } else {
                            assert(self.entries@[k] == old(self).entries@[k + 1]);
                        }
                    }
                    assert(self.rep() =~= old(self).rep().remove(j as int));
                }
                return Some(entry.1);
            }
            j = j + 1;
        }
        proof {
            assert(spec_lookup(self.rep(), id as int) is None);
        }
        None
    }
}

} // verus!
