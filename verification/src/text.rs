//! Views of owned strings as sequences of characters.

use vstd::prelude::*;

verus! {

/// The character sequences of a list of strings, in order.
pub open spec fn texts(items: Seq<String>) -> Seq<Seq<char>> {
    Seq::new(items.len(), |i: int| items[i]@)
}

/// The character sequence of an optional string.
pub open spec fn optional_text(item: Option<String>) -> Option<Seq<char>> {
    match item {
        Some(s) => Some(s@),
        None => None,
    }
}

/// The character sequences of a list of optional strings, in order.
pub open spec fn optional_texts(items: Seq<Option<String>>) -> Seq<Option<Seq<char>>> {
    Seq::new(items.len(), |i: int| optional_text(items[i]))
}

/// Appending one string to a list appends its characters to the list's view.
pub proof fn lemma_texts_push(items: Seq<String>, item: String)
    ensures
        texts(items.push(item)) == texts(items).push(item@),
{
    assert(texts(items.push(item)) =~= texts(items).push(item@));
}

/// Appending one optional string to a list appends its view to the list's view.
pub proof fn lemma_optional_texts_push(items: Seq<Option<String>>, item: Option<String>)
    ensures
        optional_texts(items.push(item)) == optional_texts(items).push(optional_text(item)),
{
    assert(optional_texts(items.push(item)) =~= optional_texts(items).push(optional_text(item)));
}

/// The values that are present in a list of optional values, in order.
pub open spec fn present(items: Seq<Option<Seq<char>>>) -> Seq<Seq<char>>
    decreases items.len(),
{
    if items.len() == 0 {
        Seq::empty()
    } else {
        match items.last() {
            Some(value) => present(items.drop_last()).push(value),
            None => present(items.drop_last()),
        }
    }
}

/// The first value that is present in a list of optional values.
pub open spec fn first_present_of(items: Seq<Option<Seq<char>>>) -> Option<Seq<char>> {
    if present(items).len() == 0 {
        None
    } else {
        Some(present(items)[0])
    }
}

/// Keeps the values that are present, in order, and drops the absent ones.
pub fn present_values(items: &Vec<Option<String>>) -> (values: Vec<String>)
    ensures
        texts(values@) == present(optional_texts(items@)),
{
    let mut values: Vec<String> = Vec::new();
    let mut i: usize = 0;
    assert(optional_texts(items@).take(0) =~= Seq::<Option<Seq<char>>>::empty());
    assert(texts(values@) =~= Seq::<Seq<char>>::empty());
    while i < items.len()
        invariant
            i <= items.len(),
            texts(values@) == present(optional_texts(items@).take(i as int)),
        decreases items.len() - i,
    {
        proof {
            let next = optional_texts(items@).take(i + 1);
            assert(next.drop_last() =~= optional_texts(items@).take(i as int));
            assert(next.last() == optional_text(items@[i as int]));
        }
        match &items[i] {
            Some(value) => {
                proof {
                    lemma_texts_push(values@, *value);
                }
                values.push(value.clone());
            },
            None => {},
        }
        i = i + 1;
    }
    assert(optional_texts(items@).take(items.len() as int) =~= optional_texts(items@));
    values
}

/// The first value that is present, if any is.
pub fn first_present(items: &Vec<Option<String>>) -> (value: Option<String>)
    ensures
        optional_text(value) == first_present_of(optional_texts(items@)),
{
    let values = present_values(items);
    if values.len() == 0 {
        None
    } else {
        Some(values[0].clone())
    }
}

} // verus!
