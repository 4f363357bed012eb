//! The two places where chance enters: a pick from a list and a weighted coin.

use rand::seq::SliceRandom;
use rand::Rng;
use vstd::prelude::*;

verus! {

/// `SliceRandom::choose` on the thread's generator: a reference to one element
/// of the slice, whichever the generator picks, or nothing for an empty slice.
#[verifier::external_body]
pub(crate) fn pick_one<T>(items: &Vec<T>) -> (picked: Option<&T>)
    ensures
        items@.len() == 0 <==> picked is None,
        picked matches Some(item) ==> items@.contains(*item),
{
    items.choose(&mut rand::thread_rng())
}

/// `Rng::gen_ratio` on the thread's generator: true with probability
/// `numerator / denominator`; always true where the two are equal, never where
/// `numerator` is zero. It panics on a zero denominator and on a numerator
/// above the denominator.
#[verifier::external_body]
pub(crate) fn weighted_coin(numerator: u32, denominator: u32) -> (heads: bool)
    requires
        denominator > 0,
        numerator <= denominator,
    ensures
        numerator == denominator ==> heads,
        numerator == 0 ==> !heads,
{
    rand::thread_rng().gen_ratio(numerator, denominator)
}

} // verus!
