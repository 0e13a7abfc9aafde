//! Shared allocation limits for collections nested in durable catalog values.

use std::collections::BTreeMap;

use vstd::prelude::*;

use crate::ids::ColumnId;
use crate::text;

verus! {

broadcast use vstd::std_specs::btree::group_btree_axioms;

/// Maximum number of entries in one nested durable catalog collection.
pub const MAX_DURABLE_COLLECTION_ITEMS: usize = 65_536;

/// Maximum number of bytes in one durable byte vector.
pub const MAX_DURABLE_BYTE_ITEMS: usize = 67_108_864;

/// Tells that a collection holds more items than it may.
pub fn exceeds_items(description: &str, limit: usize) -> (message: String)
    ensures
        message@ == description@ + " exceeds "@ + text::decimal_text(limit as nat) + " items"@,
{
    let mut message: String = description.to_owned();
    let number: String = text::numbered(" exceeds ", limit as u128);
    message.append(&number);
    message.append(" items");
    assert(message@ =~= description@ + " exceeds "@ + text::decimal_text(limit as nat)
        + " items"@);
    message
}

/// A list that is being decoded, of at most `limit` items.
#[derive(Debug)]
pub struct BoundedList<T> {
    items: Vec<T>,
    limit: usize,
}

impl<T> View for BoundedList<T> {
    type V = Seq<T>;

    closed spec fn view(&self) -> Seq<T> {
        self.items@
    }
}

impl<T> BoundedList<T> {
    #[verifier::type_invariant]
    spec fn within_limit(self) -> bool {
        self.items@.len() <= self.limit
    }

    /// The number of items that the list may hold.
    pub closed spec fn spec_limit(self) -> usize {
        self.limit
    }

    /// An empty list, unless the announced number of items is beyond the limit.
    pub fn begin(announced: Option<usize>, limit: usize) -> (list: Option<Self>)
        ensures
            match list {
                Some(list) => list@ == Seq::<T>::empty() && list.spec_limit() == limit && (
                announced matches Some(count) ==> count <= limit),
                None => announced matches Some(count) && count > limit,
            },
    {
        if let Some(count) = announced {
            if count > limit {
                return None;
            }
        }
        Some(BoundedList { items: Vec::new(), limit })
    }

    /// Takes the next decoded item, or gives it back when the list is full.
    pub fn push(&mut self, item: T) -> (result: core::result::Result<(), T>)
        ensures
            final(self).spec_limit() == old(self).spec_limit(),
            match result {
                Ok(()) => old(self)@.len() < old(self).spec_limit() && final(self)@ == old(
                    self,
                )@.push(item),
                Err(rejected) => old(self)@.len() >= old(self).spec_limit() && rejected == item
                    && final(self)@ == old(self)@,
            },
    {
        proof {
            use_type_invariant(&*self);
        }
        if self.items.len() >= self.limit {
            return Err(item);
        }
        let mut items: Vec<T> = Vec::new();
        core::mem::swap(&mut items, &mut self.items);
        items.push(item);
        self.items = items;
        Ok(())
    }

    /// Whether another item would be one too many.
    pub fn is_full(&self) -> (full: bool)
        ensures
            full == (self@.len() >= self.spec_limit()),
    {
        self.items.len() >= self.limit
    }

    /// The items that were decoded, which are within the limit.
    pub fn finish(self) -> (items: Vec<T>)
        ensures
            items@ == self@,
            items@.len() <= self.spec_limit(),
    {
        proof {
            use_type_invariant(&self);
        }
        let BoundedList { items, limit: _ } = self;
        items
    }
}

/// What is wrong with one more entry of a durable map.
pub open spec fn entry_problem<V>(values: Map<ColumnId, V>, key: ColumnId) -> Option<Seq<char>> {
    if values.len() >= MAX_DURABLE_COLLECTION_ITEMS {
        Some("durable map exceeds item limit"@)
    } else if values.contains_key(key) {
        Some("durable map repeats a key"@)
    } else {
        None
    }
}

/// Takes one decoded entry of a durable map.
pub fn add_durable_entry<V>(values: &mut BTreeMap<ColumnId, V>, key: ColumnId, value: V) -> (result:
    core::result::Result<(), &'static str>)
    ensures
        match result {
            Ok(()) => entry_problem(old(values)@, key) is None && final(values)@ == old(
                values,
            )@.insert(key, value),
            Err(message) => entry_problem(old(values)@, key) == Some(message@) && final(values)@
                == old(values)@,
        },
{
    if values.len() >= MAX_DURABLE_COLLECTION_ITEMS {
        return Err("durable map exceeds item limit");
    }
    if values.contains_key(&key) {
        return Err("durable map repeats a key");
    }
    let _ = values.insert(key, value);
    Ok(())
}

/// A list is begun exactly if no more items are announced than it may hold, and it begins
/// empty.
pub proof fn lists_keep_to_their_limit<T>(
    announced: Option<usize>,
    limit: usize,
    list: Option<BoundedList<T>>,
)
    requires
        call_ensures(BoundedList::<T>::begin, (announced, limit), list),
    ensures
        list is Some <==> announced is None || announced->0 <= limit,
        list is Some ==> list->0@.len() == 0 && list->0.spec_limit() == limit,
{
}

/// A decoded map takes an entry exactly if its key is new and the map is not full.
pub proof fn entries_have_new_keys<V>(values: Map<ColumnId, V>, key: ColumnId)
    ensures
        entry_problem(values, key) is None <==> !values.contains_key(key) && values.len() < 65_536,
{
}

} // verus!
