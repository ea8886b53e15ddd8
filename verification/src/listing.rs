//! Enumeration over a directory listing.
//!
//! A collection's directory may hold entries that the codec never produced
//! (foreign or corrupt names). Enumeration is robust against them: an entry
//! whose name does not decode is skipped, and — one policy for keys and
//! values alike — its content is skipped with it.

use vstd::prelude::*;

use crate::codec;
use crate::codec::spec_decode;
use crate::codec::spec_encode;

verus! {

/// The keys read off a listing of encoded file names: each name that
/// decodes contributes the decoded string, in listing order.
pub open spec fn decoded_keys(names: Seq<Seq<char>>) -> Seq<Seq<char>>
    decreases names.len(),
{
    if names.len() == 0 {
        Seq::<Seq<char>>::empty()
    } else {
        let rest = decoded_keys(names.drop_last());
        match spec_decode(names.last()) {
            Some(key) => rest.push(key),
            None => rest,
        }
    }
}

/// The values read off a listing: the content of each file whose name
/// decodes, in listing order.
pub open spec fn selected_values(names: Seq<Seq<char>>, contents: Seq<Seq<char>>) -> Seq<Seq<char>>
    recommends
        names.len() == contents.len(),
    decreases names.len(),
{
    if names.len() == 0 {
        Seq::<Seq<char>>::empty()
    } else {
        let rest = selected_values(names.drop_last(), contents.drop_last());
        match spec_decode(names.last()) {
            Some(key) => rest.push(contents.last()),
            None => rest,
        }
    }
}

/// Decode the file names found in a collection's directory into keys,
/// skipping names the codec could not have produced.
pub fn decode_keys(names: &Vec<String>) -> (keys: Vec<String>)
    ensures
        keys.deep_view() == decoded_keys(names.deep_view()),
{
    let mut keys: Vec<String> = Vec::new();
    let mut i: usize = 0;
    while i < names.len()
        invariant
            i <= names@.len(),
            keys.deep_view() == decoded_keys(names.deep_view().take(i as int)),
        decreases names@.len() - i,
    {
        match codec::decode(names[i].as_str()) {
            Some(key) => keys.push(key),
            None => {},
        }
        proof {
            let t = names.deep_view().take(i + 1);
            assert(t.drop_last() =~= names.deep_view().take(i as int));
            assert(t.last() == names.deep_view()[i as int]);
            assert(keys.deep_view() =~= decoded_keys(t));
        }
        i = i + 1;
    }
    proof {
        assert(names.deep_view().take(names.deep_view().len() as int) =~= names.deep_view());
    }
    keys
}

/// Keep the contents of the files whose names decode, pairing each listed
/// name with the content read from it.
pub fn select_values(names: &Vec<String>, contents: &Vec<String>) -> (values: Vec<String>)
    requires
        names@.len() == contents@.len(),
    ensures
        values.deep_view() == selected_values(names.deep_view(), contents.deep_view()),
{
    let mut values: Vec<String> = Vec::new();
    let mut i: usize = 0;
    while i < names.len()
        invariant
            i <= names@.len(),
            names@.len() == contents@.len(),
            values.deep_view() == selected_values(
                names.deep_view().take(i as int),
                contents.deep_view().take(i as int),
            ),
        decreases names@.len() - i,
    {
        match codec::decode(names[i].as_str()) {
            Some(_) => values.push(contents[i].clone()),
            None => {},
        }
        proof {
            let tn = names.deep_view().take(i + 1);
            let tc = contents.deep_view().take(i + 1);
            assert(tn.drop_last() =~= names.deep_view().take(i as int));
            assert(tc.drop_last() =~= contents.deep_view().take(i as int));
            assert(tn.last() == names.deep_view()[i as int]);
            assert(tc.last() == contents.deep_view()[i as int]);
            assert(values.deep_view() =~= selected_values(tn, tc));
        }
        i = i + 1;
    }
    proof {
        let n = names.deep_view().len() as int;
        assert(names.deep_view().take(n) =~= names.deep_view());
        assert(contents.deep_view().take(n) =~= contents.deep_view());
    }
    values
}

/// Enumeration is correct on a directory the store wrote itself: a listing
/// that is exactly the encodings of some keys decodes back to those keys,
/// and the values kept beside them are all the listed contents.
pub proof fn lemma_enumeration_of_encoded(keys: Seq<Seq<char>>, contents: Seq<Seq<char>>)
    requires
        keys.len() == contents.len(),
    ensures
        decoded_keys(keys.map_values(|k: Seq<char>| spec_encode(k))) == keys,
        selected_values(keys.map_values(|k: Seq<char>| spec_encode(k)), contents) == contents,
    decreases keys.len(),
{
    let names = keys.map_values(|k: Seq<char>| spec_encode(k));
    if keys.len() == 0 {
        assert(decoded_keys(names) =~= keys);
        assert(selected_values(names, contents) =~= contents);
    } else {
        lemma_enumeration_of_encoded(keys.drop_last(), contents.drop_last());
        codec::lemma_round_trip(keys.last());
        assert(names.drop_last() =~= keys.drop_last().map_values(|k: Seq<char>| spec_encode(k)));
        assert(names.last() == spec_encode(keys.last()));
        assert(decoded_keys(names) =~= keys);
        assert(selected_values(names, contents) =~= contents);
    }
}

} // verus!
