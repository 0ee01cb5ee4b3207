//! The codec of a field that holds one item or more: a single item is
//! written as a bare string, several as a list of strings.

use crate::release::{OneOrMore, Scalar};
use crate::scan::{first_true, lemma_first_true_is, lemma_first_true_none};
use crate::value::{DecodeError, DecodeFault, Expected, Value};
use vstd::prelude::*;

verus! {

/// For each value of the list, whether no item can be made of it: it is no
/// string, or a string that the kind of item does not accept.
pub open spec fn item_faults<T: Scalar>(items: Seq<Value>) -> Seq<bool> {
    Seq::new(items.len(), |i: int| !(items[i] is Text && T::accepts(items[i]->Text_0@)))
}

/// The strings that the values of the list hold, in order.
pub open spec fn item_texts(items: Seq<Value>) -> Seq<Seq<char>> {
    Seq::new(items.len(), |i: int| items[i]->Text_0@)
}

/// Whether each value of the list is a string.
pub open spec fn all_text(items: Seq<Value>) -> bool {
    forall|i: int| 0 <= i < items.len() ==> (#[trigger] items[i]) is Text
}

/// What decoding a value as a field of items of kind `T` gives. A string is
/// a field of one item, a list of strings a field of as many, in order. The
/// first value of which no item can be made decides the error; a list
/// without values is refused, and so is a value of any other kind.
pub open spec fn decoded<T: Scalar>(value: Value) -> Result<Seq<Seq<char>>, DecodeFault> {
    match value {
        Value::Text(text) => if T::accepts(text@) {
            Ok(seq![text@])
        } else {
            Err(DecodeFault::Unparsable(text@))
        },
        Value::List(items) => {
            let at = first_true(item_faults::<T>(items@));
            if at < items@.len() {
                match items@[at] {
                    Value::Text(text) => Err(DecodeFault::Unparsable(text@)),
                    _ => Err(DecodeFault::WrongKind(Expected::Text)),
                }
            } else if items@.len() == 0 {
                Err(DecodeFault::Empty)
            } else {
                Ok(item_texts(items@))
            }
        },
        _ => Err(DecodeFault::WrongKind(Expected::TextOrList)),
    }
}

/// Whether a value is the encoding of a field with these items: the bare
/// string where there is one item, else the list of the strings, in order.
pub open spec fn encodes(texts: Seq<Seq<char>>, value: Value) -> bool {
    if texts.len() == 1 {
        value is Text && value->Text_0@ == texts[0]
    } else {
        value is List && all_text(value->List_0@) && item_texts(value->List_0@) == texts
    }
}

impl<T: Scalar> OneOrMore<T> {
    /// Encodes the field: one item as a bare string, any other number of
    /// items as a list of strings in the same order.
    pub fn encode(&self) -> (value: Value)
        ensures
            encodes(self.texts(), value),
    {
        if self.0.len() == 1 {
            Value::Text(self.0[0].to_text())
        } else {
            let mut items: Vec<Value> = Vec::new();
            let mut i: usize = 0;
            while i < self.0.len()
                invariant
                    i <= self.0.len(),
                    items.len() == i,
                    all_text(items@),
                    forall|k: int| 0 <= k < i ==> item_texts(items@)[k] == self.texts()[k],
                decreases self.0.len() - i,
            {
                items.push(Value::Text(self.0[i].to_text()));
                i += 1;
            }
            assert(item_texts(items@) =~= self.texts());
            Value::List(items)
        }
    }

    /// Decodes a field: a bare string gives a field of one item, a list of
    /// strings a field of as many. A field is never empty.
    pub fn decode(value: &Value) -> (r: Result<OneOrMore<T>, DecodeError>)
        ensures
            match r {
                Ok(list) => decoded::<T>(*value) == Ok::<Seq<Seq<char>>, DecodeFault>(list.texts())
                    && list.well_formed(),
                Err(e) => decoded::<T>(*value) == Err::<Seq<Seq<char>>, DecodeFault>(e@),
            },
    {
        match value {
            Value::Text(text) => {
                match T::from_text(text.clone()) {
                    Ok(item) => {
                        let list = OneOrMore(vec![item]);
                        assert(list.texts() =~= seq![text@]);
                        Ok(list)
                    },
                    Err(rejected) => Err(DecodeError::Unparsable(rejected)),
                }
            },
            Value::List(items) => {
                let ghost faults = item_faults::<T>(items@);
                let mut list: Vec<T> = Vec::new();
                let mut i: usize = 0;
                while i < items.len()
                    invariant
                        i <= items.len(),
                        list.len() == i,
                        *value is List,
                        value->List_0 == *items,
                        faults == item_faults::<T>(items@),
                        forall|k: int| 0 <= k < i ==> !faults[k],
                        forall|k: int|
                            0 <= k < i ==> (#[trigger] list[k]).text() == item_texts(items@)[k],
                    decreases items.len() - i,
                {
                    match &items[i] {
                        Value::Text(text) => {
                            match T::from_text(text.clone()) {
                                Ok(item) => {
                                    list.push(item);
                                },
                                Err(rejected) => {
                                    proof {
                                        lemma_first_true_is(faults, i as int);
                                    }
                                    return Err(DecodeError::Unparsable(rejected));
                                },
                            }
                        },
                        _ => {
                            proof {
                                lemma_first_true_is(faults, i as int);
                            }
                            return Err(DecodeError::WrongKind(Expected::Text));
                        },
                    }
                    i += 1;
                }
                proof {
                    lemma_first_true_none(faults);
                }
                if list.len() == 0 {
                    return Err(DecodeError::Empty);
                }
                let list = OneOrMore(list);
                assert(list.texts() =~= item_texts(items@));
                Ok(list)
            },
            _ => Err(DecodeError::WrongKind(Expected::TextOrList)),
        }
    }
}

/// A field of one item or more, each of which its kind accepts, comes back
/// from its encoding as it was: from the bare string where it holds one
/// item, from the list of as many strings where it holds several.
pub proof fn lemma_round_trip<T: Scalar>(texts: Seq<Seq<char>>, value: Value)
    requires
        texts.len() >= 1,
        forall|i: int| 0 <= i < texts.len() ==> T::accepts(#[trigger] texts[i]),
        encodes(texts, value),
    ensures
        decoded::<T>(value) == Ok::<Seq<Seq<char>>, DecodeFault>(texts),
        texts.len() >= 2 ==> value is List && value->List_0@.len() == texts.len(),
{
    if texts.len() == 1 {
        assert(texts =~= seq![texts[0]]);
    } else {
        let items = value->List_0@;
        assert forall|i: int| 0 <= i < items.len() implies !item_faults::<T>(items)[i] by {
            assert(items[i] is Text);
            assert(item_texts(items)[i] == texts[i]);
        }
        lemma_first_true_none(item_faults::<T>(items));
    }
}

/// Decoding never gives a field without items: an empty list is refused,
/// and what is accepted holds at least one item.
pub proof fn lemma_never_empty<T: Scalar>(value: Value)
    ensures
        value is List && value->List_0@.len() == 0 ==> decoded::<T>(value) == Err::<
            Seq<Seq<char>>,
            DecodeFault,
        >(DecodeFault::Empty),
        decoded::<T>(value) is Ok ==> decoded::<T>(value)->Ok_0.len() >= 1,
{
    if value is List && value->List_0@.len() == 0 {
        lemma_first_true_none(item_faults::<T>(value->List_0@));
    }
}

} // verus!
