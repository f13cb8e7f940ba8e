//! Cache key of aniskip's crowd-sourced opening/ending intervals.

use vstd::prelude::*;

use crate::text::{concat3, decimal, decimal_string, push_str};

verus! {

broadcast use vstd::string::group_string_axioms;

/// The cache key of aniskip intervals: `aniskip:v1:<mal id>:<episode>`.
pub fn cache_key(mal_id: u32, episode: &str) -> (r: String)
    ensures
        r@ == "aniskip:v1:"@ + decimal(mal_id as nat) + ":"@ + episode@,
{
    let d = decimal_string(mal_id as u64);
    let mut r = concat3("aniskip:v1:", d.as_str(), ":");
    push_str(&mut r, episode);
    r
}

} // verus!
