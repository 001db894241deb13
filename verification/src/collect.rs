//! Decoding of lists and of mappings from names to values.

use vstd::prelude::*;
use crate::decode::{accepted, Decode};
use crate::fault::{
    lemma_leads_through_entry, lemma_leads_through_item, Cause, CauseView, DecodeError,
    DecodeErrorView, Step, StepView,
};
use crate::json::{Entries, Json, JsonView};
use crate::least::{least, lemma_least, lemma_least_absent, lemma_least_found};
use crate::name_map::NameMap;
use crate::node::{lemma_entry, AN_OBJECT};

verus! {

/// What is expected where a list stands.
pub const AN_ARRAY: &'static str = "an array";

/// The property of a position that the item there is rejected.
pub open spec fn item_rejected<T: Decode>(items: Seq<JsonView>) -> spec_fn(int) -> bool {
    |i: int| T::decoding(items[i]) is Err
}

/// The property of a position that the value of the entry there is rejected.
pub open spec fn entry_rejected<T: Decode>(entries: Entries) -> spec_fn(int) -> bool {
    |i: int| T::decoding(entries[i].1) is Err
}

/// The mapping that the first `n` entries give, each value decoded: an entry
/// gives its name the value it holds, in the place of what an earlier entry
/// of that name gave.
pub open spec fn collected<T: Decode>(entries: Entries, n: int) -> Map<Seq<char>, T::V>
    decreases n,
{
    if n <= 0 {
        Map::empty()
    } else {
        collected::<T>(entries, n - 1).insert(entries[n - 1].0, T::decoding(entries[n - 1].1)->Ok_0)
    }
}

impl<T: Decode> Decode for Vec<T> {
    /// A list is decoded from an array, item by item. The first item that is
    /// rejected rejects the array, with its position on the path.
    open spec fn decoding(value: JsonView) -> Result<Seq<T::V>, DecodeErrorView> {
        match value {
            JsonView::Array(items) => match least(item_rejected::<T>(items), items.len() as int) {
                Some(i) => Err(T::decoding(items[i])->Err_0.under(StepView::Index(i))),
                None => Ok(Seq::new(items.len(), |i: int| T::decoding(items[i])->Ok_0)),
            },
            _ => Err(DecodeErrorView::here(AN_ARRAY@, CauseView::WrongShape(value.shape()))),
        }
    }

    /// A list holds a stray key where one of its items does.
    open spec fn has_stray_key(value: JsonView) -> bool {
        value matches JsonView::Array(items) && exists|i: int|
            0 <= i < items.len() && T::has_stray_key(#[trigger] items[i])
    }

    proof fn lemma_stray_key_rejected(value: JsonView) {
        if Self::has_stray_key(value) {
            let items = value->Array_0;
            let i = choose|i: int| 0 <= i < items.len() && T::has_stray_key(#[trigger] items[i]);
            T::lemma_stray_key_rejected(items[i]);
            lemma_list::<T>(value);
        }
    }

    proof fn lemma_fault_placed(value: JsonView) {
        if let JsonView::Array(items) = value {
            if let Some(i) = least(item_rejected::<T>(items), items.len() as int) {
                lemma_least(item_rejected::<T>(items), items.len() as int);
                T::lemma_fault_placed(items[i]);
                lemma_leads_through_item(value, i, T::decoding(items[i])->Err_0);
            }
        }
    }

    fn decode(value: &Json) -> (res: Result<Vec<T>, DecodeError>) {
        match value {
            Json::Array(items) => {
                proof {
                    value.lemma_parts();
                }
                let ghost p = item_rejected::<T>(items.deep_view());
                let mut list: Vec<T> = Vec::new();
                let mut i: usize = 0;
                while i < items.len()
                    invariant
                        i <= items@.len(),
                        value.deep_view() == JsonView::Array(items.deep_view()),
                        p == item_rejected::<T>(items.deep_view()),
                        list@.len() == i,
                        forall|m: int| 0 <= m < i ==> !#[trigger] p(m),
                        forall|m: int|
                            0 <= m < i ==> T::decoding(items.deep_view()[m]) == accepted(
                                (#[trigger] list@[m]).deep_view(),
                            ),
                    decreases items@.len() - i,
                {
                    assert(items.deep_view()[i as int] == items@[i as int].deep_view());
                    match T::decode(&items[i]) {
                        Ok(item) => {
                            assert(!p(i as int));
                            list.push(item);
                        },
                        Err(fault) => {
                            proof {
                                assert(p(i as int));
                                lemma_least_found(p, items@.len() as int, i as int);
                            }
                            return Err(fault.under(Step::Index(i)));
                        },
                    }
                    i = i + 1;
                }
                proof {
                    lemma_least_absent(p, items@.len() as int);
                    assert(list.deep_view() =~= Seq::new(
                        items.deep_view().len(),
                        |i: int| T::decoding(items.deep_view()[i])->Ok_0,
                    ));
                }
                Ok(list)
            },
            _ => Err(DecodeError::here(AN_ARRAY, Cause::WrongShape(value.shape()))),
        }
    }
}

impl<T: Decode> Decode for NameMap<T> {
    /// A mapping is decoded from an object, entry by entry in the order of the
    /// document. The first entry whose value is rejected rejects the object,
    /// with its name on the path. Of two entries with one name the later one
    /// gives the name its value.
    open spec fn decoding(value: JsonView) -> Result<Map<Seq<char>, T::V>, DecodeErrorView> {
        match value {
            JsonView::Object(entries) => match least(
                entry_rejected::<T>(entries),
                entries.len() as int,
            ) {
                Some(i) => Err(T::decoding(entries[i].1)->Err_0.under(StepView::Key(entries[i].0))),
                None => Ok(collected::<T>(entries, entries.len() as int)),
            },
            _ => Err(DecodeErrorView::here(AN_OBJECT@, CauseView::WrongShape(value.shape()))),
        }
    }

    /// A mapping holds a stray key where the value of one of its entries
    /// does. The names of the entries are no keys of a node: none is stray.
    open spec fn has_stray_key(value: JsonView) -> bool {
        value matches JsonView::Object(entries) && exists|i: int|
            0 <= i < entries.len() && T::has_stray_key((#[trigger] entries[i]).1)
    }

    proof fn lemma_stray_key_rejected(value: JsonView) {
        if Self::has_stray_key(value) {
            let entries = value->Object_0;
            let i = choose|i: int|
                0 <= i < entries.len() && T::has_stray_key((#[trigger] entries[i]).1);
            T::lemma_stray_key_rejected(entries[i].1);
            lemma_map::<T>(value);
        }
    }

    proof fn lemma_fault_placed(value: JsonView) {
        if let JsonView::Object(entries) = value {
            if let Some(i) = least(entry_rejected::<T>(entries), entries.len() as int) {
                lemma_least(entry_rejected::<T>(entries), entries.len() as int);
                T::lemma_fault_placed(entries[i].1);
                lemma_leads_through_entry(value, i, T::decoding(entries[i].1)->Err_0);
            }
        }
    }

    fn decode(value: &Json) -> (res: Result<NameMap<T>, DecodeError>) {
        match value {
            Json::Object(entries) => {
                proof {
                    value.lemma_parts();
                }
                let ghost p = entry_rejected::<T>(entries.deep_view());
                let mut map: NameMap<T> = NameMap::new();
                let mut i: usize = 0;
                proof {
                    assert(map.deep_view() =~= collected::<T>(entries.deep_view(), 0));
                }
                while i < entries.len()
                    invariant
                        i <= entries@.len(),
                        value.deep_view() == JsonView::Object(entries.deep_view()),
                        p == entry_rejected::<T>(entries.deep_view()),
                        forall|m: int| 0 <= m < i ==> !#[trigger] p(m),
                        map.deep_view() == collected::<T>(entries.deep_view(), i as int),
                    decreases entries@.len() - i,
                {
                    proof {
                        lemma_entry(entries, i as int);
                    }
                    match T::decode(&entries[i].1) {
                        Ok(decoded) => {
                            assert(!p(i as int));
                            let ghost before = map@;
                            let ghost fresh = decoded.deep_view();
                            map.insert(entries[i].0.clone(), decoded);
                            proof {
                                assert(map.deep_view() =~= before.map_values(
                                    |value: T| value.deep_view(),
                                ).insert(entries@[i as int].0@, fresh));
                            }
                        },
                        Err(fault) => {
                            proof {
                                assert(p(i as int));
                                lemma_least_found(p, entries@.len() as int, i as int);
                            }
                            return Err(fault.under(Step::Key(entries[i].0.clone())));
                        },
                    }
                    i = i + 1;
                }
                proof {
                    lemma_least_absent(p, entries@.len() as int);
                }
                Ok(map)
            },
            _ => Err(DecodeError::here(AN_OBJECT, Cause::WrongShape(value.shape()))),
        }
    }
}

/// A list is accepted exactly when it is an array of which every item is
/// accepted. It then holds the decoded items, one for one and in their order.
pub proof fn lemma_list<T: Decode>(value: JsonView)
    ensures
        Vec::<T>::decoding(value) is Ok <==> (value matches JsonView::Array(items)
            && forall|i: int| 0 <= i < items.len() ==> T::decoding(#[trigger] items[i]) is Ok),
        Vec::<T>::decoding(value) matches Ok(list) ==> (value matches JsonView::Array(items)
            && list.len() == items.len() && forall|i: int|
            0 <= i < items.len() ==> T::decoding(items[i]) == accepted(
                #[trigger] list[i],
            )),
{
    if let JsonView::Array(items) = value {
        let p = item_rejected::<T>(items);
        lemma_least(p, items.len() as int);
        if least(p, items.len() as int) is None {
            assert forall|i: int| 0 <= i < items.len() implies T::decoding(
                #[trigger] items[i],
            ) is Ok by {
                assert(!p(i));
            }
        } else {
            let i = least(p, items.len() as int)->Some_0;
            assert(p(i));
        }
    }
}

/// The names of the mapping that the first `n` entries give are the names of
/// those entries, and a name has the value of the last of them that bears it.
pub proof fn lemma_collected<T: Decode>(entries: Entries, n: int)
    requires
        0 <= n <= entries.len(),
    ensures
        forall|name: Seq<char>| #[trigger]
            collected::<T>(entries, n).contains_key(name) <==> exists|i: int|
                0 <= i < n && (#[trigger] entries[i]).0 == name,
        forall|i: int|
            0 <= i < n && (forall|j: int| i < j < n ==> (#[trigger] entries[j]).0 != entries[i].0)
                ==> collected::<T>(entries, n)[(#[trigger] entries[i]).0] == T::decoding(
                entries[i].1,
            )->Ok_0,
    decreases n,
{
    if n > 0 {
        lemma_collected::<T>(entries, n - 1);
        let last = entries[n - 1];
        assert forall|name: Seq<char>| #[trigger]
            collected::<T>(entries, n).contains_key(name) <==> exists|i: int|
                0 <= i < n && (#[trigger] entries[i]).0 == name by {
            if collected::<T>(entries, n).contains_key(name) {
                if name == last.0 {
                    assert(entries[n - 1].0 == name);
                } else {
                    assert(collected::<T>(entries, n - 1).contains_key(name));
                    let i = choose|i: int| 0 <= i < n - 1 && (#[trigger] entries[i]).0 == name;
                    assert(0 <= i < n && entries[i].0 == name);
                }
            }
            if exists|i: int| 0 <= i < n && (#[trigger] entries[i]).0 == name {
                let i = choose|i: int| 0 <= i < n && (#[trigger] entries[i]).0 == name;
                if i < n - 1 {
                    assert(collected::<T>(entries, n - 1).contains_key(name));
                }
            }
        }
        assert forall|i: int|
            0 <= i < n && (forall|j: int|
                i < j < n ==> (#[trigger] entries[j]).0 != entries[i].0) implies collected::<T>(
            entries,
            n,
        )[(#[trigger] entries[i]).0] == T::decoding(entries[i].1)->Ok_0 by {
            if i < n - 1 {
                assert(entries[n - 1].0 != entries[i].0);
                assert forall|j: int| i < j < n - 1 implies (#[trigger] entries[j]).0
                    != entries[i].0 by {}
            }
        }
    }
}

/// A mapping is accepted exactly when it is an object of which the value of
/// every entry is accepted. Its names are then the names of the entries, and
/// a name has the decoded value of the last entry that bears it.
pub proof fn lemma_map<T: Decode>(value: JsonView)
    ensures
        NameMap::<T>::decoding(value) is Ok <==> (value matches JsonView::Object(entries)
            && forall|i: int|
            0 <= i < entries.len() ==> T::decoding((#[trigger] entries[i]).1) is Ok),
        NameMap::<T>::decoding(value) matches Ok(map) ==> (value matches JsonView::Object(entries)
            && {
            &&& forall|name: Seq<char>| #[trigger]
                map.contains_key(name) <==> exists|i: int|
                    0 <= i < entries.len() && (#[trigger] entries[i]).0 == name
            &&& forall|i: int|
                0 <= i < entries.len() && (forall|j: int|
                    i < j < entries.len() ==> (#[trigger] entries[j]).0 != entries[i].0)
                    ==> map[(#[trigger] entries[i]).0] == T::decoding(entries[i].1)->Ok_0
        }),
{
    if let JsonView::Object(entries) = value {
        let p = entry_rejected::<T>(entries);
        lemma_least(p, entries.len() as int);
        if least(p, entries.len() as int) is None {
            assert forall|i: int| 0 <= i < entries.len() implies T::decoding(
                (#[trigger] entries[i]).1,
            ) is Ok by {
                assert(!p(i));
            }
            lemma_collected::<T>(entries, entries.len() as int);
        } else {
            let i = least(p, entries.len() as int)->Some_0;
            assert(p(i));
        }
    }
}

} // verus!
