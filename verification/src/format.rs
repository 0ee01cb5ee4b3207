//! The form in which a release is read and written: a record with the
//! fields `repo_url`, `added`, `changed`, `fixed` and `removed`. Each of the
//! last four is a list of changes, and each change a list of four values:
//! category, name, authors and commits.

use crate::codec::{decoded, encodes, lemma_round_trip};
use crate::release::{
    change_views, Author, Change, ChangeView, Commit, OneOrMore, Release, ReleaseView, Scalar,
    MIN_HASH_LEN,
};
use crate::scan::{first_true, lemma_first_true_is, lemma_first_true_none};
use crate::text::text_of;
use crate::value::{DecodeError, DecodeFault, Expected, Value};
use vstd::prelude::*;
use vstd::string::StringExecFns;

verus! {

/// The number of values of which a change is made.
pub const CHANGE_LEN: usize = 4;

/// What decoding a value as a change gives: the value is a list of four,
/// two strings and two fields of one item or more.
pub open spec fn decoded_change(value: Value) -> Result<ChangeView, DecodeFault> {
    match value {
        Value::List(items) => {
            if items@.len() != CHANGE_LEN {
                Err(DecodeFault::WrongLength(items@.len()))
            } else if !(items@[0] is Text) || !(items@[1] is Text) {
                Err(DecodeFault::WrongKind(Expected::Text))
            } else {
                match decoded::<Author>(items@[2]) {
                    Err(fault) => Err(fault),
                    Ok(authors) => match decoded::<Commit>(items@[3]) {
                        Err(fault) => Err(fault),
                        Ok(commits) => Ok(
                            ChangeView {
                                category: items@[0]->Text_0@,
                                name: items@[1]->Text_0@,
                                authors,
                                commits,
                            },
                        ),
                    },
                }
            }
        },
        _ => Err(DecodeFault::WrongKind(Expected::List)),
    }
}

/// For each value of the list, whether it cannot be decoded as a change.
pub open spec fn change_faults(items: Seq<Value>) -> Seq<bool> {
    Seq::new(items.len(), |i: int| decoded_change(items[i]) is Err)
}

/// What decoding a value as a list of changes gives. The first value that
/// is no change decides the error.
pub open spec fn decoded_changes(value: Value) -> Result<Seq<ChangeView>, DecodeFault> {
    match value {
        Value::List(items) => {
            let at = first_true(change_faults(items@));
            if at < items@.len() {
                Err(decoded_change(items@[at])->Err_0)
            } else {
                Ok(Seq::new(items@.len(), |i: int| decoded_change(items@[i])->Ok_0))
            }
        },
        _ => Err(DecodeFault::WrongKind(Expected::List)),
    }
}

/// The fields of a release that have been read so far.
pub ghost struct Fields {
    pub repo_url: Option<Seq<char>>,
    pub added: Option<Seq<ChangeView>>,
    pub changed: Option<Seq<ChangeView>>,
    pub fixed: Option<Seq<ChangeView>>,
    pub removed: Option<Seq<ChangeView>>,
}

/// No field has been read.
pub open spec fn no_fields() -> Fields {
    Fields { repo_url: None, added: None, changed: None, fixed: None, removed: None }
}

/// Reads a list of changes for a field that may not have been read before.
pub open spec fn read_changes(seen: bool, name: Seq<char>, value: Value) -> Result<
    Seq<ChangeView>,
    DecodeFault,
> {
    if seen {
        Err(DecodeFault::Duplicate(name))
    } else {
        decoded_changes(value)
    }
}

/// Reads one named value of the record of a release. A field that was read
/// before is refused; a name that is none of the five fields is passed over.
pub open spec fn read_field(fields: Fields, name: Seq<char>, value: Value) -> Result<
    Fields,
    DecodeFault,
> {
    if name == "repo_url"@ {
        if fields.repo_url is Some {
            Err(DecodeFault::Duplicate(name))
        } else {
            match value {
                Value::Text(url) => Ok(Fields { repo_url: Some(url@), ..fields }),
                _ => Err(DecodeFault::WrongKind(Expected::Text)),
            }
        }
    } else if name == "added"@ {
        match read_changes(fields.added is Some, name, value) {
            Ok(changes) => Ok(Fields { added: Some(changes), ..fields }),
            Err(fault) => Err(fault),
        }
    } else if name == "changed"@ {
        match read_changes(fields.changed is Some, name, value) {
            Ok(changes) => Ok(Fields { changed: Some(changes), ..fields }),
            Err(fault) => Err(fault),
        }
    } else if name == "fixed"@ {
        match read_changes(fields.fixed is Some, name, value) {
            Ok(changes) => Ok(Fields { fixed: Some(changes), ..fields }),
            Err(fault) => Err(fault),
        }
    } else if name == "removed"@ {
        match read_changes(fields.removed is Some, name, value) {
            Ok(changes) => Ok(Fields { removed: Some(changes), ..fields }),
            Err(fault) => Err(fault),
        }
    } else {
        Ok(fields)
    }
}

/// Reads the named values of a record in order. The first that is refused
/// decides the error.
pub open spec fn read_fields(entries: Seq<(String, Value)>) -> Result<Fields, DecodeFault>
    decreases entries.len(),
{
    if entries.len() == 0 {
        Ok(no_fields())
    } else {
        match read_fields(entries.drop_last()) {
            Err(fault) => Err(fault),
            Ok(fields) => read_field(fields, entries.last().0@, entries.last().1),
        }
    }
}

/// The changes of a field, none where the field was not given.
pub open spec fn or_none(changes: Option<Seq<ChangeView>>) -> Seq<ChangeView> {
    match changes {
        Some(changes) => changes,
        None => Seq::empty(),
    }
}

/// What decoding a value as a release gives: the value is a record, which
/// must give `repo_url`; a list of changes that it does not give is empty.
pub open spec fn decoded_release(value: Value) -> Result<ReleaseView, DecodeFault> {
    match value {
        Value::Record(entries) => match read_fields(entries@) {
            Err(fault) => Err(fault),
            Ok(fields) => match fields.repo_url {
                None => Err(DecodeFault::MissingUrl),
                Some(repo_url) => Ok(
                    ReleaseView {
                        repo_url,
                        added: or_none(fields.added),
                        changed: or_none(fields.changed),
                        fixed: or_none(fields.fixed),
                        removed: or_none(fields.removed),
                    },
                ),
            },
        },
        _ => Err(DecodeFault::WrongKind(Expected::Record)),
    }
}

/// Whether a value is the encoding of a change: the list of its category,
/// its name, its authors and its commits.
pub open spec fn encodes_change(change: ChangeView, value: Value) -> bool {
    &&& value is List
    &&& value->List_0@.len() == CHANGE_LEN
    &&& value->List_0@[0] is Text
    &&& value->List_0@[0]->Text_0@ == change.category
    &&& value->List_0@[1] is Text
    &&& value->List_0@[1]->Text_0@ == change.name
    &&& encodes(change.authors, value->List_0@[2])
    &&& encodes(change.commits, value->List_0@[3])
}

/// Whether a value is the encoding of a list of changes: the list of their
/// encodings, in order.
pub open spec fn encodes_changes(changes: Seq<ChangeView>, value: Value) -> bool {
    &&& value is List
    &&& value->List_0@.len() == changes.len()
    &&& forall|i: int|
        0 <= i < changes.len() ==> encodes_change(changes[i], #[trigger] value->List_0@[i])
}

/// Whether a value is the encoding of a release: the record of its five
/// fields, in the order `repo_url`, `added`, `changed`, `fixed`, `removed`.
pub open spec fn encodes_release(release: ReleaseView, value: Value) -> bool {
    &&& value is Record
    &&& value->Record_0@.len() == 5
    &&& value->Record_0@[0].0@ == "repo_url"@
    &&& value->Record_0@[0].1 is Text
    &&& value->Record_0@[0].1->Text_0@ == release.repo_url
    &&& value->Record_0@[1].0@ == "added"@
    &&& encodes_changes(release.added, value->Record_0@[1].1)
    &&& value->Record_0@[2].0@ == "changed"@
    &&& encodes_changes(release.changed, value->Record_0@[2].1)
    &&& value->Record_0@[3].0@ == "fixed"@
    &&& encodes_changes(release.fixed, value->Record_0@[3].1)
    &&& value->Record_0@[4].0@ == "removed"@
    &&& encodes_changes(release.removed, value->Record_0@[4].1)
}

impl Change {
    /// Encodes the change as the list of its category, its name, its
    /// authors and its commits.
    pub fn encode(&self) -> (value: Value)
        ensures
            encodes_change(self@, value),
    {
        let mut items: Vec<Value> = Vec::new();
        items.push(Value::Text(self.category.clone()));
        items.push(Value::Text(self.name.clone()));
        items.push(self.authors.encode());
        items.push(self.commits.encode());
        Value::List(items)
    }

    /// Decodes a change from the list of its category, its name, its
    /// authors and its commits.
    pub fn decode(value: &Value) -> (r: Result<Change, DecodeError>)
        ensures
            match r {
                Ok(change) => decoded_change(*value) == Ok::<ChangeView, DecodeFault>(change@)
                    && change.authors.well_formed() && change.commits.well_formed(),
                Err(e) => decoded_change(*value) == Err::<ChangeView, DecodeFault>(e@),
            },
    {
        let items = match value {
            Value::List(items) => items,
            _ => {
                return Err(DecodeError::WrongKind(Expected::List));
            },
        };
        if items.len() != CHANGE_LEN {
            return Err(DecodeError::WrongLength(items.len()));
        }
        let category = match &items[0] {
            Value::Text(text) => text.clone(),
            _ => {
                return Err(DecodeError::WrongKind(Expected::Text));
            },
        };
        let name = match &items[1] {
            Value::Text(text) => text.clone(),
            _ => {
                return Err(DecodeError::WrongKind(Expected::Text));
            },
        };
        let authors = match OneOrMore::<Author>::decode(&items[2]) {
            Ok(authors) => authors,
            Err(e) => {
                return Err(e);
            },
        };
        let commits = match OneOrMore::<Commit>::decode(&items[3]) {
            Ok(commits) => commits,
            Err(e) => {
                return Err(e);
            },
        };
        Ok(Change { category, name, authors, commits })
    }
}

/// Encodes a list of changes as the list of their encodings.
pub fn encode_changes(changes: &Vec<Change>) -> (value: Value)
    ensures
        encodes_changes(change_views(changes@), value),
{
    let mut items: Vec<Value> = Vec::new();
    let mut i: usize = 0;
    while i < changes.len()
        invariant
            i <= changes.len(),
            items.len() == i,
            forall|k: int| 0 <= k < i ==> encodes_change(changes[k]@, #[trigger] items[k]),
        decreases changes.len() - i,
    {
        items.push(changes[i].encode());
        i += 1;
    }
    Value::List(items)
}

/// Decodes a list of changes.
pub fn decode_changes(value: &Value) -> (r: Result<Vec<Change>, DecodeError>)
    ensures
        match r {
            Ok(changes) => decoded_changes(*value) == Ok::<Seq<ChangeView>, DecodeFault>(
                change_views(changes@),
            ),
            Err(e) => decoded_changes(*value) == Err::<Seq<ChangeView>, DecodeFault>(e@),
        },
{
    let items = match value {
        Value::List(items) => items,
        _ => {
            return Err(DecodeError::WrongKind(Expected::List));
        },
    };
    let ghost faults = change_faults(items@);
    let mut changes: Vec<Change> = Vec::new();
    let mut i: usize = 0;
    while i < items.len()
        invariant
            i <= items.len(),
            changes.len() == i,
            *value is List,
            value->List_0 == *items,
            faults == change_faults(items@),
            forall|k: int| 0 <= k < i ==> !faults[k],
            forall|k: int|
                0 <= k < i ==> decoded_change(items@[k]) == Ok::<ChangeView, DecodeFault>(
                    (#[trigger] changes[k])@,
                ),
        decreases items.len() - i,
    {
        match Change::decode(&items[i]) {
            Ok(change) => {
                changes.push(change);
            },
            Err(e) => {
                proof {
                    lemma_first_true_is(faults, i as int);
                }
                return Err(e);
            },
        }
        i += 1;
    }
    proof {
        lemma_first_true_none(faults);
        assert(change_views(changes@) =~= Seq::new(
            items@.len(),
            |i: int| decoded_change(items@[i])->Ok_0,
        ));
    }
    Ok(changes)
}

/// The changes of a field as plain data, where the field has been read.
pub open spec fn read_views(changes: Option<Vec<Change>>) -> Option<Seq<ChangeView>> {
    match changes {
        Some(changes) => Some(change_views(changes@)),
        None => None,
    }
}

/// Once a named value of a record is refused, the record is refused for the
/// same reason, whatever follows.
pub proof fn lemma_refused_stays(entries: Seq<(String, Value)>, n: int)
    requires
        0 <= n <= entries.len(),
        read_fields(entries.take(n)) is Err,
    ensures
        read_fields(entries) == read_fields(entries.take(n)),
    decreases entries.len() - n,
{
    if n < entries.len() {
        assert(entries.take(n + 1).drop_last() =~= entries.take(n));
        lemma_refused_stays(entries, n + 1);
    } else {
        assert(entries.take(n) =~= entries);
    }
}

/// Reads a list of changes for a field of a release, unless the field has
/// been read before.
fn read_list(seen: bool, name: &String, value: &Value) -> (r: Result<Vec<Change>, DecodeError>)
    ensures
        match r {
            Ok(changes) => read_changes(seen, name@, *value) == Ok::<
                Seq<ChangeView>,
                DecodeFault,
            >(change_views(changes@)),
            Err(e) => read_changes(seen, name@, *value) == Err::<Seq<ChangeView>, DecodeFault>(
                e@,
            ),
        },
{
    if seen {
        Err(DecodeError::Duplicate(name.clone()))
    } else {
        decode_changes(value)
    }
}

/// The changes of a field, none where the field was not given.
fn given_or_none(changes: Option<Vec<Change>>) -> (r: Vec<Change>)
    ensures
        change_views(r@) == or_none(read_views(changes)),
{
    match changes {
        Some(changes) => changes,
        None => {
            let none: Vec<Change> = Vec::new();
            assert(change_views(none@) =~= Seq::empty());
            none
        },
    }
}

impl Release {
    /// Encodes the release as the record of its five fields.
    pub fn encode(&self) -> (value: Value)
        ensures
            encodes_release(self@, value),
    {
        let mut entries: Vec<(String, Value)> = Vec::new();
        entries.push((String::from_str("repo_url"), Value::Text(self.repo_url.clone())));
        entries.push((String::from_str("added"), encode_changes(&self.added)));
        entries.push((String::from_str("changed"), encode_changes(&self.changed)));
        entries.push((String::from_str("fixed"), encode_changes(&self.fixed)));
        entries.push((String::from_str("removed"), encode_changes(&self.removed)));
        Value::Record(entries)
    }

    /// Decodes a release from the record of its fields. The record gives
    /// `repo_url`; a list of changes that it does not give is empty; what it
    /// gives besides the five fields is passed over.
    pub fn decode(value: &Value) -> (r: Result<Release, DecodeError>)
        ensures
            match r {
                Ok(release) => decoded_release(*value) == Ok::<ReleaseView, DecodeFault>(release@),
                Err(e) => decoded_release(*value) == Err::<ReleaseView, DecodeFault>(e@),
            },
    {
        let entries = match value {
            Value::Record(entries) => entries,
            _ => {
                return Err(DecodeError::WrongKind(Expected::Record));
            },
        };
        let url_name = String::from_str("repo_url");
        let added_name = String::from_str("added");
        let changed_name = String::from_str("changed");
        let fixed_name = String::from_str("fixed");
        let removed_name = String::from_str("removed");
        let mut repo_url: Option<String> = None;
        let mut added: Option<Vec<Change>> = None;
        let mut changed: Option<Vec<Change>> = None;
        let mut fixed: Option<Vec<Change>> = None;
        let mut removed: Option<Vec<Change>> = None;
        let mut i: usize = 0;
        while i < entries.len()
            invariant
                i <= entries.len(),
                *value is Record,
                value->Record_0 == *entries,
                url_name@ == "repo_url"@,
                added_name@ == "added"@,
                changed_name@ == "changed"@,
                fixed_name@ == "fixed"@,
                removed_name@ == "removed"@,
                read_fields(entries@.take(i as int)) == Ok::<Fields, DecodeFault>(
                    Fields {
                        repo_url: text_of(repo_url),
                        added: read_views(added),
                        changed: read_views(changed),
                        fixed: read_views(fixed),
                        removed: read_views(removed),
                    },
                ),
            decreases entries.len() - i,
        {
            let entry = &entries[i];
            proof {
                assert(entries@.take(i + 1).drop_last() =~= entries@.take(i as int));
                assert(entries@.take(i + 1).last() == entries@[i as int]);
            }
            if entry.0 == url_name {
                if repo_url.is_some() {
                    proof {
                        lemma_refused_stays(entries@, i + 1);
                    }
                    return Err(DecodeError::Duplicate(entry.0.clone()));
                }
                match &entry.1 {
                    Value::Text(url) => {
                        repo_url = Some(url.clone());
                    },
                    _ => {
                        proof {
                            lemma_refused_stays(entries@, i + 1);
                        }
                        return Err(DecodeError::WrongKind(Expected::Text));
                    },
                }
            } else if entry.0 == added_name {
                match read_list(added.is_some(), &entry.0, &entry.1) {
                    Ok(changes) => {
                        added = Some(changes);
                    },
                    Err(e) => {
                        proof {
                            lemma_refused_stays(entries@, i + 1);
                        }
                        return Err(e);
                    },
                }
            } else if entry.0 == changed_name {
                match read_list(changed.is_some(), &entry.0, &entry.1) {
                    Ok(changes) => {
                        changed = Some(changes);
                    },
                    Err(e) => {
                        proof {
                            lemma_refused_stays(entries@, i + 1);
                        }
                        return Err(e);
                    },
                }
            } else if entry.0 == fixed_name {
                match read_list(fixed.is_some(), &entry.0, &entry.1) {
                    Ok(changes) => {
                        fixed = Some(changes);
                    },
                    Err(e) => {
                        proof {
                            lemma_refused_stays(entries@, i + 1);
                        }
                        return Err(e);
                    },
                }
            } else if entry.0 == removed_name {
                match read_list(removed.is_some(), &entry.0, &entry.1) {
                    Ok(changes) => {
                        removed = Some(changes);
                    },
                    Err(e) => {
                        proof {
                            lemma_refused_stays(entries@, i + 1);
                        }
                        return Err(e);
                    },
                }
            }
            i += 1;
        }
        assert(entries@.take(entries.len() as int) =~= entries@);
        let repo_url = match repo_url {
            Some(url) => url,
            None => {
                return Err(DecodeError::MissingUrl);
            },
        };
        Ok(
            Release {
                repo_url,
                added: given_or_none(added),
                changed: given_or_none(changed),
                fixed: given_or_none(fixed),
                removed: given_or_none(removed),
            },
        )
    }
}

/// Whether a change can be read back: it has an author and a commit, and
/// each of its commits has a hash of at least seven characters.
pub open spec fn readable(change: ChangeView) -> bool {
    &&& change.authors.len() >= 1
    &&& change.commits.len() >= 1
    &&& forall|i: int|
        0 <= i < change.commits.len() ==> (#[trigger] change.commits[i]).len() >= MIN_HASH_LEN
}

/// Whether each change of a list can be read back.
pub open spec fn all_readable(changes: Seq<ChangeView>) -> bool {
    forall|i: int| 0 <= i < changes.len() ==> readable(#[trigger] changes[i])
}

/// A change that can be read back comes back from its encoding as it was.
pub proof fn lemma_change_round_trip(change: ChangeView, value: Value)
    requires
        readable(change),
        encodes_change(change, value),
    ensures
        decoded_change(value) == Ok::<ChangeView, DecodeFault>(change),
{
    let items = value->List_0@;
    assert forall|i: int| 0 <= i < change.authors.len() implies Author::accepts(
        #[trigger] change.authors[i],
    ) by {}
    assert forall|i: int| 0 <= i < change.commits.len() implies Commit::accepts(
        #[trigger] change.commits[i],
    ) by {}
    lemma_round_trip::<Author>(change.authors, items[2]);
    lemma_round_trip::<Commit>(change.commits, items[3]);
}

/// A list of changes that can be read back comes back from its encoding as
/// it was.
pub proof fn lemma_changes_round_trip(changes: Seq<ChangeView>, value: Value)
    requires
        all_readable(changes),
        encodes_changes(changes, value),
    ensures
        decoded_changes(value) == Ok::<Seq<ChangeView>, DecodeFault>(changes),
{
    let items = value->List_0@;
    assert forall|i: int| 0 <= i < items.len() implies decoded_change(items[i]) == Ok::<
        ChangeView,
        DecodeFault,
    >(changes[i]) by {
        lemma_change_round_trip(changes[i], items[i]);
    }
    assert forall|i: int| 0 <= i < items.len() implies !change_faults(items)[i] by {
        assert(decoded_change(items[i]) is Ok);
    }
    lemma_first_true_none(change_faults(items));
    assert(Seq::new(items.len(), |i: int| decoded_change(items[i])->Ok_0) =~= changes);
}

/// A release whose changes can be read back comes back from its encoding as
/// it was.
pub proof fn lemma_release_round_trip(release: ReleaseView, value: Value)
    requires
        all_readable(release.added),
        all_readable(release.changed),
        all_readable(release.fixed),
        all_readable(release.removed),
        encodes_release(release, value),
    ensures
        decoded_release(value) == Ok::<ReleaseView, DecodeFault>(release),
{
    reveal_strlit("repo_url");
    reveal_strlit("added");
    reveal_strlit("changed");
    reveal_strlit("fixed");
    reveal_strlit("removed");
    let entries = value->Record_0@;
    lemma_changes_round_trip(release.added, entries[1].1);
    lemma_changes_round_trip(release.changed, entries[2].1);
    lemma_changes_round_trip(release.fixed, entries[3].1);
    lemma_changes_round_trip(release.removed, entries[4].1);
    let e0 = entries.take(0);
    let e1 = entries.take(1);
    let e2 = entries.take(2);
    let e3 = entries.take(3);
    let e4 = entries.take(4);
    assert(e1.drop_last() =~= e0 && e1.last() == entries[0]);
    assert(e2.drop_last() =~= e1 && e2.last() == entries[1]);
    assert(e3.drop_last() =~= e2 && e3.last() == entries[2]);
    assert(e4.drop_last() =~= e3 && e4.last() == entries[3]);
    assert(entries.drop_last() =~= e4 && entries.last() == entries[4]);
    let f0 = no_fields();
    let f1 = Fields { repo_url: Some(release.repo_url), ..f0 };
    let f2 = Fields { added: Some(release.added), ..f1 };
    let f3 = Fields { changed: Some(release.changed), ..f2 };
    let f4 = Fields { fixed: Some(release.fixed), ..f3 };
    let f5 = Fields { removed: Some(release.removed), ..f4 };
    assert("repo_url"@.len() == 8 && "added"@.len() == 5 && "changed"@.len() == 7);
    assert("fixed"@.len() == 5 && "removed"@.len() == 7);
    assert("added"@[0] == 'a' && "fixed"@[0] == 'f');
    assert("changed"@[0] == 'c' && "removed"@[0] == 'r');
    assert(read_fields(e0) == Ok::<Fields, DecodeFault>(f0));
    assert(read_fields(e1) == Ok::<Fields, DecodeFault>(f1));
    assert(read_fields(e2) == Ok::<Fields, DecodeFault>(f2));
    assert(read_fields(e3) == Ok::<Fields, DecodeFault>(f3));
    assert(read_fields(e4) == Ok::<Fields, DecodeFault>(f4));
    assert(read_fields(entries) == Ok::<Fields, DecodeFault>(f5));
}

} // verus!
