//! Helpers for texts and for views, shared by the loaders.

use vstd::prelude::*;
use vstd::string::*;
use vstd::utf8::*;

verus! {

/// The characters of an optional string.
pub open spec fn text_of(text: Option<String>) -> Option<Seq<char>> {
    match text {
        Some(text) => Some(text@),
        None => None,
    }
}

/// `new` where there is one, else `old`.
pub open spec fn or_keep(new: Option<Seq<char>>, old: Seq<char>) -> Seq<char> {
    match new {
        Some(text) => text,
        None => old,
    }
}

/// The views of the items of a sequence, in order.
pub open spec fn views<T: View>(items: Seq<T>) -> Seq<T::V> {
    items.map_values(|item: T| item@)
}

/// The views of a sequence with one more item are the views of the sequence with
/// one more view.
pub proof fn lemma_views_push<T: View>(items: Seq<T>, item: T)
    ensures
        views(items.push(item)) == views(items).push(item@),
{
    assert(views(items.push(item)) =~= views(items).push(item@));
}

/// The empty sequence has no views.
pub proof fn lemma_views_empty<T: View>()
    ensures
        views(Seq::<T>::empty()) == Seq::<T::V>::empty(),
{
    assert(views(Seq::<T>::empty()) =~= Seq::<T::V>::empty());
}

/// The views of the values of a map, under the same keys.
pub open spec fn map_views<T: View>(items: Map<Seq<char>, T>) -> Map<Seq<char>, T::V> {
    items.map_values(|item: T| item@)
}

/// The views of a map with one more entry are the views of the map with the
/// entry's view under its key.
pub proof fn lemma_map_views_insert<T: View>(items: Map<Seq<char>, T>, key: Seq<char>, item: T)
    ensures
        map_views(items.insert(key, item)) == map_views(items).insert(key, item@),
{
    assert(map_views(items.insert(key, item)) =~= map_views(items).insert(key, item@));
}

/// The empty map has no views.
pub proof fn lemma_map_views_empty<T: View>()
    ensures
        map_views(Map::<Seq<char>, T>::empty()) == Map::<Seq<char>, T::V>::empty(),
{
    assert(map_views(Map::<Seq<char>, T>::empty()) =~= Map::<Seq<char>, T::V>::empty());
}

/// Whether two string slices hold the same characters.
pub fn same_text(a: &str, b: &str) -> (same: bool)
    ensures
        same == (a@ == b@),
{
    let x = a.as_bytes();
    let y = b.as_bytes();
    proof {
        encode_utf8_decode_utf8(a@);
        encode_utf8_decode_utf8(b@);
    }
    if x.len() != y.len() {
        return false;
    }
    let mut i: usize = 0;
    while i < x.len()
        invariant
            x@ == a.spec_bytes(),
            y@ == b.spec_bytes(),
            x.len() == y.len(),
            i <= x.len(),
            forall|k: int| 0 <= k < i ==> x@[k] == y@[k],
        decreases x.len() - i,
    {
        if x[i] != y[i] {
            return false;
        }
        i += 1;
    }
    assert(x@ =~= y@);
    true
}

} // verus!
