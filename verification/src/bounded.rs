//! The fixed-capacity collections of the `heapless` crate that hold the game
//! state, with what the crate's source shows of the few methods the game
//! uses. Contents are named per capacity; every wrapper speaks of them.

use vstd::prelude::*;
use vstd::string::StringSliceAdditionalSpecFns;

use crate::game::Player;

verus! {

#[verifier::external_type_specification]
#[verifier::external_body]
#[verifier::reject_recursive_types(T)]
pub struct ExHeaplessVec<T, const N: usize>(heapless::Vec<T, N>);

#[verifier::external_type_specification]
#[verifier::external_body]
pub struct ExHeaplessString<const N: usize>(heapless::String<N>);

/// The players held by a roster of capacity 15, in order.
pub uninterp spec fn roster_items(v: heapless::Vec<Player, 15>) -> Seq<Player>;

/// The gesture codes held by a history of capacity 30, in order.
pub uninterp spec fn history_items(v: heapless::Vec<u8, 30>) -> Seq<u8>;

/// The UTF-8 bytes held by a name string of capacity 32.
pub uninterp spec fn name_bytes(s: heapless::String<32>) -> Seq<u8>;

/// The UTF-8 bytes held by a label string of capacity 16.
pub uninterp spec fn label_bytes(s: heapless::String<16>) -> Seq<u8>;

/// `heapless::Vec::new` for the roster: an empty vector.
#[verifier::external_body]
pub(crate) fn roster_new() -> (v: heapless::Vec<Player, 15>)
    ensures
        roster_items(v) == Seq::<Player>::empty(),
{
    heapless::Vec::new()
}

/// The roster's length, `<[T]>::len` through `Deref`: the number of players held.
#[verifier::external_body]
pub(crate) fn roster_len(v: &heapless::Vec<Player, 15>) -> (n: usize)
    ensures
        n == roster_items(*v).len(),
{
    v.len()
}

/// `heapless::Vec::push` on the roster: below capacity the player is
/// appended and `Ok` returned; at capacity the roster is left as it was and
/// the player handed back in `Err`.
#[verifier::external_body]
pub(crate) fn roster_push(v: &mut heapless::Vec<Player, 15>, p: Player) -> (r: Result<(), Player>)
    ensures
        roster_items(*old(v)).len() < 15 ==> r is Ok && roster_items(*final(v)) == roster_items(
            *old(v),
        ).push(p),
        roster_items(*old(v)).len() >= 15 ==> (r matches Err(q) && q == p),
        roster_items(*old(v)).len() >= 15 ==> roster_items(*final(v)) == roster_items(*old(v)),
{
    v.push(p)
}

/// Indexing the roster through `Deref` to a slice: the player at `i`.
#[verifier::external_body]
pub(crate) fn roster_get(v: &heapless::Vec<Player, 15>, i: usize) -> (p: &Player)
    requires
        i < roster_items(*v).len(),
    ensures
        *p == roster_items(*v)[i as int],
{
    &v[i]
}

/// Mutable indexing of the roster through `DerefMut` to a slice: the player
/// at `i`, whose final value becomes the roster's entry at `i`.
#[verifier::external_body]
pub(crate) fn roster_get_mut(v: &mut heapless::Vec<Player, 15>, i: usize) -> (p: &mut Player)
    requires
        i < roster_items(*old(v)).len(),
    ensures
        *p == roster_items(*old(v))[i as int],
        roster_items(*final(v)) == roster_items(*old(v)).update(i as int, *final(p)),
{
    &mut v[i]
}

/// `heapless::Vec::new` for a history: an empty vector.
#[verifier::external_body]
pub(crate) fn history_new() -> (v: heapless::Vec<u8, 30>)
    ensures
        history_items(v) == Seq::<u8>::empty(),
{
    heapless::Vec::new()
}

/// `heapless::Vec::push` on a history: below capacity the code is appended
/// and `Ok` returned; at capacity the history is left as it was and the code
/// handed back in `Err`.
#[verifier::external_body]
pub(crate) fn history_push(v: &mut heapless::Vec<u8, 30>, code: u8) -> (r: Result<(), u8>)
    ensures
        history_items(*old(v)).len() < 30 ==> r is Ok && history_items(*final(v)) == history_items(
            *old(v),
        ).push(code),
        history_items(*old(v)).len() >= 30 ==> (r matches Err(c) && c == code),
        history_items(*old(v)).len() >= 30 ==> history_items(*final(v)) == history_items(*old(v)),
{
    v.push(code)
}

/// `heapless::Vec::as_slice` on a history: the codes it holds.
#[verifier::external_body]
pub(crate) fn history_as_slice(v: &heapless::Vec<u8, 30>) -> (s: &[u8])
    ensures
        s@ == history_items(*v),
{
    v.as_slice()
}

/// `heapless::String::new` for a name: the empty string.
#[verifier::external_body]
pub(crate) fn name_new() -> (s: heapless::String<32>)
    ensures
        name_bytes(s) == Seq::<u8>::empty(),
{
    heapless::String::new()
}

/// `heapless::String::push_str` on a name: when the bytes of `t` fit in the
/// remaining capacity they are appended and `Ok` returned; otherwise nothing
/// changes and `Err(())` is returned.
#[verifier::external_body]
pub(crate) fn name_push_str(s: &mut heapless::String<32>, t: &str) -> (r: Result<(), ()>)
    ensures
        name_bytes(*old(s)).len() + t.spec_bytes().len() <= 32 ==> r is Ok && name_bytes(*final(s))
            == name_bytes(*old(s)) + t.spec_bytes(),
        name_bytes(*old(s)).len() + t.spec_bytes().len() > 32 ==> r is Err && name_bytes(*final(s))
            == name_bytes(*old(s)),
{
    s.push_str(t)
}

/// `heapless::String::as_str` on a name: a text of the same bytes.
#[verifier::external_body]
pub(crate) fn name_as_str(s: &heapless::String<32>) -> (t: &str)
    ensures
        t.spec_bytes() == name_bytes(*s),
{
    s.as_str()
}

/// `heapless::String::new` for a label: the empty string.
#[verifier::external_body]
pub(crate) fn label_new() -> (s: heapless::String<16>)
    ensures
        label_bytes(s) == Seq::<u8>::empty(),
{
    heapless::String::new()
}

/// `heapless::String::push_str` on a label: when the bytes of `t` fit in the
/// remaining capacity they are appended and `Ok` returned; otherwise nothing
/// changes and `Err(())` is returned.
#[verifier::external_body]
pub(crate) fn label_push_str(s: &mut heapless::String<16>, t: &str) -> (r: Result<(), ()>)
    ensures
        label_bytes(*old(s)).len() + t.spec_bytes().len() <= 16 ==> r is Ok && label_bytes(
            *final(s),
        ) == label_bytes(*old(s)) + t.spec_bytes(),
        label_bytes(*old(s)).len() + t.spec_bytes().len() > 16 ==> r is Err && label_bytes(
            *final(s),
        ) == label_bytes(*old(s)),
{
    s.push_str(t)
}

/// `heapless::String::as_str` on a label: a text of the same bytes.
#[verifier::external_body]
pub(crate) fn label_as_str(s: &heapless::String<16>) -> (t: &str)
    ensures
        t.spec_bytes() == label_bytes(*s),
{
    s.as_str()
}

} // verus!
