//! The one source of chance in the library.

use rand::seq::SliceRandom;
use vstd::prelude::*;

verus! {

/// Picks one element of `items` at random.
///
/// This is `rand::seq::SliceRandom::choose` with the generator of
/// `rand::thread_rng`. Believed of it: it gives nothing exactly when the
/// slice is empty, and otherwise a reference to one of its elements. Which
/// one is not said: it changes from call to call.
#[verifier::external_body]
pub(crate) fn pick_one<T>(items: &Vec<T>) -> (r: Option<&T>)
    ensures
        r is None <==> items@.len() == 0,
        r matches Some(item) ==> exists|i: int| 0 <= i < items@.len() && items@[i] == *item,
{
    items.choose(&mut rand::thread_rng())
}

} // verus!
