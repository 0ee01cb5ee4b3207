//! Names without repetition, and names in alphabetical order.
//!
//! Names are put in order by keys: the key of a name is the name in lower
//! case, and keys are compared character by character.

use crate::release::{names, Author};
use crate::text::{
    lemma_lex_le_total, lemma_lex_le_transitive, lex_le, lowercase, name_le, str_le, to_lowercase,
};
use vstd::prelude::*;

verus! {

/// The names of `names` in the order of their first occurrence, each once.
pub open spec fn dedup(names: Seq<Seq<char>>) -> Seq<Seq<char>>
    decreases names.len(),
{
    if names.len() == 0 {
        Seq::empty()
    } else {
        let before = dedup(names.drop_last());
        if before.contains(names.last()) {
            before
        } else {
            before.push(names.last())
        }
    }
}

/// No name occurs twice in `dedup(names)`, and it holds exactly the names
/// that `names` holds.
pub proof fn lemma_dedup(names: Seq<Seq<char>>)
    ensures
        dedup(names).no_duplicates(),
        forall|name: Seq<char>| dedup(names).contains(name) <==> names.contains(name),
    decreases names.len(),
{
    if names.len() > 0 {
        let front = names.drop_last();
        let last = names.last();
        lemma_dedup(front);
        let before = dedup(front);
        assert forall|name: Seq<char>| dedup(names).contains(name) <==> names.contains(name) by {
            if names.contains(name) {
                let i = choose|i: int| 0 <= i < names.len() && names[i] == name;
                if i < names.len() - 1 {
                    assert(front[i] == name);
                    assert(front.contains(name));
                    let k = choose|k: int| 0 <= k < before.len() && before[k] == name;
                    assert(dedup(names)[k] == name);
                } else if !before.contains(last) {
                    assert(dedup(names)[before.len() as int] == name);
                }
            }
            if dedup(names).contains(name) {
                let k = choose|k: int| 0 <= k < dedup(names).len() && dedup(names)[k] == name;
                if k < before.len() {
                    assert(before[k] == name);
                    assert(before.contains(name));
                    assert(front.contains(name));
                    let i = choose|i: int| 0 <= i < front.len() && front[i] == name;
                    assert(names[i] == name);
                } else {
                    assert(names[names.len() - 1] == name);
                }
            }
        }
    }
}

/// A name with the key by which it is put in order.
pub ghost struct Keyed {
    pub key: Seq<char>,
    pub name: Seq<char>,
}

/// Where a key goes into a list that is in order: behind the last key that
/// does not come after it.
pub open spec fn insert_pos(sorted: Seq<Keyed>, key: Seq<char>) -> int
    decreases sorted.len(),
{
    if sorted.len() == 0 {
        0
    } else if lex_le(sorted.last().key, key) {
        sorted.len() as int
    } else {
        insert_pos(sorted.drop_last(), key)
    }
}

/// The list in the order of its keys; items with the same key keep the
/// order in which they came.
pub open spec fn sort_keyed(items: Seq<Keyed>) -> Seq<Keyed>
    decreases items.len(),
{
    if items.len() == 0 {
        Seq::empty()
    } else {
        let sorted = sort_keyed(items.drop_last());
        sorted.insert(insert_pos(sorted, items.last().key), items.last())
    }
}

/// Whether each key of the list comes before the next or equals it.
pub open spec fn in_order(items: Seq<Keyed>) -> bool {
    forall|i: int, j: int| 0 <= i < j < items.len() ==> lex_le(items[i].key, items[j].key)
}

/// The names, each with its lower-case form as its key.
pub open spec fn with_keys(names: Seq<Seq<char>>) -> Seq<Keyed> {
    Seq::new(names.len(), |i: int| Keyed { key: lowercase(names[i]), name: names[i] })
}

/// The names of a list of keyed names.
pub open spec fn names_of(items: Seq<Keyed>) -> Seq<Seq<char>> {
    Seq::new(items.len(), |i: int| items[i].name)
}

/// The names in alphabetical order without regard to case; names that differ
/// only in case keep the order in which they came.
pub open spec fn sort_names(names: Seq<Seq<char>>) -> Seq<Seq<char>> {
    names_of(sort_keyed(with_keys(names)))
}

/// Whether each name of the list comes before the next or equals it, case
/// set aside.
pub open spec fn names_in_order(names: Seq<Seq<char>>) -> bool {
    forall|i: int, j: int| 0 <= i < j < names.len() ==> name_le(names[i], names[j])
}

/// The place that `insert_pos` gives lies within the list; every key before
/// it does not come after the new key, and every key from it on does.
pub proof fn lemma_insert_pos(sorted: Seq<Keyed>, key: Seq<char>)
    requires
        in_order(sorted),
    ensures
        0 <= insert_pos(sorted, key) <= sorted.len(),
        forall|i: int| 0 <= i < insert_pos(sorted, key) ==> lex_le((#[trigger] sorted[i]).key, key),
        forall|i: int|
            insert_pos(sorted, key) <= i < sorted.len() ==> !lex_le((#[trigger] sorted[i]).key, key),
    decreases sorted.len(),
{
    if sorted.len() > 0 {
        let front = sorted.drop_last();
        assert forall|i: int, j: int| 0 <= i < j < front.len() implies lex_le(
            front[i].key,
            front[j].key,
        ) by {
            assert(front[i] == sorted[i] && front[j] == sorted[j]);
        }
        if lex_le(sorted.last().key, key) {
            assert forall|i: int| 0 <= i < sorted.len() implies lex_le(
                (#[trigger] sorted[i]).key,
                key,
            ) by {
                if i < sorted.len() - 1 {
                    assert(lex_le(sorted[i].key, sorted[sorted.len() - 1].key));
                    lemma_lex_le_transitive(sorted[i].key, sorted.last().key, key);
                }
            }
        } else {
            lemma_insert_pos(front, key);
            assert forall|i: int| 0 <= i < insert_pos(sorted, key) implies lex_le(
                (#[trigger] sorted[i]).key,
                key,
            ) by {
                assert(front[i] == sorted[i]);
            }
            assert forall|i: int| insert_pos(sorted, key) <= i < sorted.len() implies !lex_le(
                (#[trigger] sorted[i]).key,
                key,
            ) by {
                if i < sorted.len() - 1 {
                    assert(front[i] == sorted[i]);
                }
            }
        }
    }
}

/// Sorting gives a list in order that holds each item as often as the
/// unsorted list held it.
pub proof fn lemma_sort_keyed(items: Seq<Keyed>)
    ensures
        in_order(sort_keyed(items)),
        sort_keyed(items).to_multiset() == items.to_multiset(),
        sort_keyed(items).len() == items.len(),
    decreases items.len(),
{
    broadcast use vstd::seq_lib::group_to_multiset_ensures;

    if items.len() == 0 {
        assert(sort_keyed(items).to_multiset() =~= items.to_multiset());
    } else {
        let front = items.drop_last();
        let last = items.last();
        lemma_sort_keyed(front);
        let sorted = sort_keyed(front);
        let at = insert_pos(sorted, last.key);
        lemma_insert_pos(sorted, last.key);
        let result = sorted.insert(at, last);
        assert forall|i: int, j: int| 0 <= i < j < result.len() implies lex_le(
            result[i].key,
            result[j].key,
        ) by {
            if j == at {
                assert(result[i] == sorted[i]);
            } else if i == at {
                assert(result[j] == sorted[j - 1]);
                lemma_lex_le_total(sorted[j - 1].key, last.key);
            } else {
                let si = if i < at { i } else { i - 1 };
                let sj = if j < at { j } else { j - 1 };
                assert(result[i] == sorted[si] && result[j] == sorted[sj]);
            }
        }
        assert(items =~= front.push(last));
        vstd::seq_lib::to_multiset_insert(sorted, at, last);
        assert(front.push(last).to_multiset() =~= front.to_multiset().insert(last));
    }
}

/// Sorting keeps items with the same key in the order in which they came.
/// The proof gives the place to which each item goes: no two items go to
/// the same place, and of two items with the same key the earlier goes to
/// the earlier place.
pub proof fn lemma_sort_keyed_places(items: Seq<Keyed>) -> (place: Seq<int>)
    ensures
        place.len() == items.len(),
        forall|i: int|
            0 <= i < items.len() ==> 0 <= #[trigger] place[i] < items.len() && sort_keyed(
                items,
            )[place[i]] == items[i],
        forall|i: int, j: int| 0 <= i < j < items.len() ==> place[i] != place[j],
        forall|i: int, j: int|
            0 <= i < j < items.len() && items[i].key == items[j].key ==> place[i] < place[j],
    decreases items.len(),
{
    if items.len() == 0 {
        Seq::empty()
    } else {
        let front = items.drop_last();
        let last = items.last();
        let before = lemma_sort_keyed_places(front);
        lemma_sort_keyed(front);
        let sorted = sort_keyed(front);
        let at = insert_pos(sorted, last.key);
        lemma_insert_pos(sorted, last.key);
        let place = Seq::new(
            items.len(),
            |i: int|
                if i == items.len() - 1 {
                    at
                } else if before[i] < at {
                    before[i]
                } else {
                    before[i] + 1
                },
        );
        assert forall|i: int| 0 <= i < items.len() implies 0 <= #[trigger] place[i] < items.len()
            && sort_keyed(items)[place[i]] == items[i] by {
            if i < items.len() - 1 {
                assert(front[i] == items[i]);
                assert(sorted[before[i]] == front[i]);
            }
        }
        assert forall|i: int, j: int|
            0 <= i < j < items.len() && items[i].key == items[j].key implies place[i]
            < place[j] by {
            assert(front[i] == items[i]);
            if j < items.len() - 1 {
                assert(front[j] == items[j]);
            } else {
                assert(sorted[before[i]] == front[i]);
                crate::text::lemma_lex_le_reflexive(last.key);
            }
        }
        place
    }
}

/// Sorting the names of a list together with one more name puts that name
/// into the sorted names of the list.
proof fn lemma_sort_names_step(names: Seq<Seq<char>>)
    requires
        names.len() > 0,
    ensures
        sort_names(names) == sort_names(names.drop_last()).insert(
            insert_pos(sort_keyed(with_keys(names.drop_last())), lowercase(names.last())),
            names.last(),
        ),
        0 <= insert_pos(sort_keyed(with_keys(names.drop_last())), lowercase(names.last()))
            <= names.len() - 1,
{
    let items = with_keys(names);
    assert(items.drop_last() =~= with_keys(names.drop_last()));
    let sorted = sort_keyed(items.drop_last());
    let at = insert_pos(sorted, items.last().key);
    lemma_sort_keyed(items.drop_last());
    lemma_insert_pos(sorted, items.last().key);
    assert(names_of(sorted.insert(at, items.last())) =~= names_of(sorted).insert(
        at,
        names.last(),
    ));
}

/// In the sorted list each name stands with its own key.
proof fn lemma_keys_kept(names: Seq<Seq<char>>)
    ensures
        sort_keyed(with_keys(names)).len() == names.len(),
        forall|i: int|
            0 <= i < names.len() ==> (#[trigger] sort_keyed(with_keys(names))[i]).key == lowercase(
                sort_keyed(with_keys(names))[i].name,
            ),
    decreases names.len(),
{
    if names.len() > 0 {
        let items = with_keys(names);
        assert(items.drop_last() =~= with_keys(names.drop_last()));
        lemma_keys_kept(names.drop_last());
        lemma_sort_keyed(items.drop_last());
        lemma_insert_pos(sort_keyed(items.drop_last()), items.last().key);
    }
}

/// Sorting names gives names in alphabetical order, case set aside, and
/// each name as often as the unsorted list held it.
pub proof fn lemma_sort_names(names: Seq<Seq<char>>)
    ensures
        names_in_order(sort_names(names)),
        sort_names(names).to_multiset() == names.to_multiset(),
        sort_names(names).len() == names.len(),
    decreases names.len(),
{
    broadcast use vstd::seq_lib::group_to_multiset_ensures;

    lemma_keys_kept(names);
    lemma_sort_keyed(with_keys(names));
    let sorted = sort_keyed(with_keys(names));
    assert forall|i: int, j: int| 0 <= i < j < sort_names(names).len() implies name_le(
        sort_names(names)[i],
        sort_names(names)[j],
    ) by {
        assert(lex_le(sorted[i].key, sorted[j].key));
    }
    if names.len() == 0 {
        assert(sort_names(names).to_multiset() =~= names.to_multiset());
    } else {
        let front = names.drop_last();
        lemma_sort_names(front);
        lemma_sort_names_step(names);
        let at = insert_pos(sort_keyed(with_keys(front)), lowercase(names.last()));
        assert(names =~= front.push(names.last()));
        vstd::seq_lib::to_multiset_insert(sort_names(front), at, names.last());
        assert(front.push(names.last()).to_multiset() =~= front.to_multiset().insert(
            names.last(),
        ));
    }
}

/// The names and keys of a list of authors with their keys.
pub open spec fn keyed_views(keyed: Seq<(String, Author)>) -> Seq<Keyed> {
    Seq::new(keyed.len(), |i: int| Keyed { key: keyed[i].0@, name: keyed[i].1@ })
}

/// The authors in the order of their keys; authors with the same key keep
/// the order in which they came.
pub fn sort_by_key(keyed: Vec<(String, Author)>) -> (sorted: Vec<Author>)
    ensures
        names(sorted@) == names_of(sort_keyed(keyed_views(keyed@))),
{
    let ghost items = keyed_views(keyed@);
    let mut sorted: Vec<Author> = Vec::new();
    let mut keys: Vec<String> = Vec::new();
    let mut i: usize = 0;
    assert(names(sorted@) =~= names_of(sort_keyed(items.take(0))));
    while i < keyed.len()
        invariant
            i <= keyed.len(),
            items == keyed_views(keyed@),
            keys.len() == sorted.len(),
            sort_keyed(items.take(i as int)).len() == sorted.len(),
            forall|k: int|
                0 <= k < keys.len() ==> (#[trigger] keys[k])@ == sort_keyed(
                    items.take(i as int),
                )[k].key,
            names(sorted@) == names_of(sort_keyed(items.take(i as int))),
        decreases keyed.len() - i,
    {
        let key = keyed[i].0.clone();
        let author = keyed[i].1.clone();
        let ghost before = sort_keyed(items.take(i as int));
        let mut at: usize = sorted.len();
        assert(before.take(at as int) =~= before);
        while at > 0 && !str_le(keys[at - 1].as_str(), key.as_str())
            invariant
                at <= sorted.len(),
                keys.len() == sorted.len(),
                before.len() == sorted.len(),
                forall|k: int| 0 <= k < keys.len() ==> (#[trigger] keys[k])@ == before[k].key,
                insert_pos(before, key@) == insert_pos(before.take(at as int), key@),
            decreases at,
        {
            assert(before.take(at as int).drop_last() =~= before.take(at - 1));
            assert(before.take(at as int).last() == before[at - 1]);
            at -= 1;
        }
        proof {
            if at > 0 {
                assert(before.take(at as int).last() == before[at - 1]);
            }
            assert(insert_pos(before, key@) == at);
            let now = items.take(i + 1);
            assert(now.drop_last() =~= items.take(i as int));
            assert(now.last() == items[i as int]);
            assert(names_of(before.insert(at as int, items[i as int])) =~= names_of(
                before,
            ).insert(at as int, author@));
        }
        let ghost listed = names(sorted@);
        sorted.insert(at, author);
        keys.insert(at, key);
        assert(names(sorted@) =~= listed.insert(at as int, author@));
        i += 1;
    }
    assert(items.take(keyed.len() as int) =~= items);
    sorted
}

/// The authors in alphabetical order without regard to case; authors whose
/// names differ only in case keep the order in which they came.
pub fn sort_authors(authors: Vec<Author>) -> (sorted: Vec<Author>)
    ensures
        names(sorted@) == sort_names(names(authors@)),
{
    let mut keyed: Vec<(String, Author)> = Vec::new();
    let mut i: usize = 0;
    while i < authors.len()
        invariant
            i <= authors.len(),
            keyed.len() == i,
            forall|k: int|
                0 <= k < i ==> (#[trigger] keyed[k]).0@ == lowercase(authors[k]@) && keyed[k].1@
                    == authors[k]@,
        decreases authors.len() - i,
    {
        let author = &authors[i];
        keyed.push((to_lowercase(author.name()), author.clone()));
        i += 1;
    }
    assert(keyed_views(keyed@) =~= with_keys(names(authors@)));
    sort_by_key(keyed)
}

} // verus!
