//! The set of favourite station ids and the text of the file that keeps it:
//! a JSON array of the ids.

use crate::text::decimal_text;
use std::collections::HashSet;
use vstd::std_specs::iter::IteratorSpec;
use vstd::prelude::*;

verus! {

broadcast use vstd::std_specs::hash::group_hash_axioms;

/// Where the favourites are kept, below the user's configuration directory.
pub const FAVORITES_FILE: &'static str = "hydro/favorites.json";

/// The ids written one after the other, a comma between any two.
pub open spec fn joined_ids(ids: Seq<u16>) -> Seq<char>
    decreases ids.len(),
{
    if ids.len() == 0 {
        Seq::<char>::empty()
    } else if ids.len() == 1 {
        decimal_text(ids[0] as nat)
    } else {
        joined_ids(ids.drop_last()) + seq![','] + decimal_text(ids.last() as nat)
    }
}

/// The JSON array of `ids` in its shortest form: no blanks.
pub open spec fn id_list_text(ids: Seq<u16>) -> Seq<char> {
    seq!['['] + joined_ids(ids) + seq![']']
}

/// The list of ids that `text` holds when read as JSON, if it is a JSON array
/// of integers that each fit 16 bits.
pub uninterp spec fn parsed_id_list(text: Seq<char>) -> Option<Seq<u16>>;

/// `serde_json::to_string` on a list of `u16`. Neither of its documented
/// causes of failure applies to such a list. It writes the shortest form of
/// the array, and that text reads back as the same list.
#[verifier::external_body]
fn id_list_to_json(ids: &Vec<u16>) -> (text: String)
    ensures
        text@ == id_list_text(ids@),
        parsed_id_list(text@) == Some(ids@),
{
    serde_json::to_string(ids).unwrap_or_default()
}

/// `serde_json::from_str` for a list of `u16`: the list that the text holds,
/// or nothing where the text is not such a list.
#[verifier::external_body]
fn id_list_from_json(text: &str) -> (ids: Option<Vec<u16>>)
    ensures
        ids is Some <==> parsed_id_list(text@) is Some,
        ids matches Some(list) ==> parsed_id_list(text@) == Some(list@),
{
    serde_json::from_str::<Vec<u16>>(text).ok()
}

/// The set that a parsed file yields: the ids of the list, each once; the
/// empty set where the file held no list.
pub open spec fn ids_of(parsed: Option<Seq<u16>>) -> Set<u16> {
    match parsed {
        Some(ids) => ids.to_set(),
        None => Set::<u16>::empty(),
    }
}

/// The favourites that a file stands for: none where there is no file or its
/// contents are no list of ids, else the ids of the list.
pub open spec fn stored_ids(contents: Option<Seq<char>>) -> Set<u16> {
    match contents {
        Some(text) => ids_of(parsed_id_list(text)),
        None => Set::<u16>::empty(),
    }
}

/// The set of the ids in `ids`.
pub fn from_list(ids: &Vec<u16>) -> (favs: HashSet<u16>)
    ensures
        favs@ == ids@.to_set(),
{
    let mut favs: HashSet<u16> = HashSet::new();
    add_ids(&mut favs, ids);
    favs
}

/// The favourites that a parsed file yields, for each outcome of parsing.
pub fn from_parsed(parsed: &Option<Vec<u16>>) -> (favs: HashSet<u16>)
    ensures
        favs@ == ids_of(
            match *parsed {
                Some(list) => Some(list@),
                None => None,
            },
        ),
{
    match parsed {
        Some(list) => from_list(list),
        None => HashSet::new(),
    }
}

/// Reads the favourites from the contents of their file; `None` stands for a
/// file that does not exist. Contents that are no list of ids give the empty
/// set, as a missing file does.
pub fn load(contents: Option<&str>) -> (favs: HashSet<u16>)
    ensures
        favs@ == stored_ids(
            match contents {
                Some(text) => Some(text@),
                None => None,
            },
        ),
{
    match contents {
        Some(text) => {
            let parsed = id_list_from_json(text);
            from_parsed(&parsed)
        },
        None => HashSet::new(),
    }
}

/// Adds every id of `ids` to the favourites.
pub fn add_ids(favs: &mut HashSet<u16>, ids: &Vec<u16>)
    ensures
        final(favs)@ == old(favs)@.union(ids@.to_set()),
{
    let mut i: usize = 0;
    while i < ids.len()
        invariant
            i <= ids.len(),
            favs@ == old(favs)@.union(ids@.take(i as int).to_set()),
        decreases ids.len() - i,
    {
        favs.insert(ids[i]);
        assert(ids@.take(i + 1) == ids@.take(i as int).push(ids@[i as int]));
        assert(ids@.take(i + 1).to_set() =~= ids@.take(i as int).to_set().insert(ids@[i as int])) by {
            ids@.take(i as int).lemma_push_to_set_commute(ids@[i as int]);
        }
        i = i + 1;
    }
    assert(ids@.take(ids@.len() as int) == ids@);
}

/// Takes every id of `ids` out of the favourites.
pub fn remove_ids(favs: &mut HashSet<u16>, ids: &Vec<u16>)
    ensures
        final(favs)@ == old(favs)@.difference(ids@.to_set()),
{
    let mut i: usize = 0;
    while i < ids.len()
        invariant
            i <= ids.len(),
            favs@ == old(favs)@.difference(ids@.take(i as int).to_set()),
        decreases ids.len() - i,
    {
        favs.remove(&ids[i]);
        assert(ids@.take(i + 1) == ids@.take(i as int).push(ids@[i as int]));
        assert(ids@.take(i + 1).to_set() =~= ids@.take(i as int).to_set().insert(ids@[i as int])) by {
            ids@.take(i as int).lemma_push_to_set_commute(ids@[i as int]);
        }
        i = i + 1;
    }
    assert(ids@.take(ids@.len() as int) == ids@);
}

/// The favourites as a list: each id once, in no particular order.
pub fn to_list(favs: &HashSet<u16>) -> (ids: Vec<u16>)
    ensures
        ids@.no_duplicates(),
        ids@.to_set() == favs@,
{
    let mut ids: Vec<u16> = Vec::new();
    for id in it: favs.iter()
        invariant
            ids@.len() == it.index(),
            forall|j: int| 0 <= j < it.index() ==> ids@[j] == *it.seq()[j],
    {
        ids.push(*id);
    }
    assert(ids@ =~= favs.iter().remaining().unref());
    ids
}

/// Writes the favourites as the contents of their file: a JSON array of the
/// ids, each once, in no particular order. Read back, the text gives the
/// same set.
pub fn save(favs: &HashSet<u16>) -> (text: String)
    ensures
        stored_ids(Some(text@)) == favs@,
        exists|ids: Seq<u16>|
            ids.no_duplicates() && ids.to_set() == favs@ && text@ == #[trigger] id_list_text(ids),
{
    let ids = to_list(favs);
    id_list_to_json(&ids)
}

/// Reading is tolerant: a missing file stands for no favourites, and so do
/// contents that hold no list of ids.
pub proof fn lemma_tolerant_read(text: Seq<char>)
    ensures
        stored_ids(None) == Set::<u16>::empty(),
        parsed_id_list(text) is None ==> stored_ids(Some(text)) == Set::<u16>::empty(),
{
}

} // verus!
