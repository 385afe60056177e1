//! From a visitor's token to a slot of the grid.
//!
//! A visitor may carry a token from an earlier visit: the decimal numeral of
//! the slot to use this time. Identity is advisory, so a token that is
//! absent, malformed or out of range is no error: the visitor is given a
//! slot drawn at random.

use vstd::prelude::*;
use crate::cookie::{cookie_lookup, is_plain, lemma_pair_is_found, pair_text};
use crate::decimal::{
    decimal_text, decimal_value, lemma_decimal_round_trip, lemma_decimal_text_chars,
    parse_decimal,
};
use crate::random::random_below;

verus! {

/// The slot that a token names on a grid of `grid_size` slots, or `None`
/// where there is no token, the token is no decimal numeral, or the number
/// lies outside the grid.
pub open spec fn token_slot(token: Option<Seq<char>>, grid_size: u32) -> Option<u32> {
    match token {
        Some(text) => match decimal_value(text) {
            Some(v) => if 0 <= v < grid_size {
                Some(v as u32)
            } else {
                None
            },
            None => None,
        },
        None => None,
    }
}

/// The slot given to a visitor: the one that the token names, or `fallback`
/// where it names none.
pub open spec fn resolved_slot(token: Option<Seq<char>>, grid_size: u32, fallback: u32) -> u32 {
    match token_slot(token, grid_size) {
        Some(slot) => slot,
        None => fallback,
    }
}

/// Derives the slot of the current visitor.
pub struct IdentityResolver;

impl IdentityResolver {
    /// The slot that `raw_token` names on a grid of `grid_size` slots, if it
    /// names one.
    pub fn claimed_slot(raw_token: Option<&str>, grid_size: u32) -> (claimed: Option<u32>)
        ensures
            claimed == token_slot(raw_token.deep_view(), grid_size),
    {
        match raw_token {
            Some(text) => match parse_decimal(text) {
                Some(v) => if 0 <= v && v < grid_size as i64 {
                    Some(v as u32)
                } else {
                    None
                },
                None => None,
            },
            None => None,
        }
    }

    /// The slot for a visitor, given the slot to fall back on: the slot that
    /// the token names, and `fallback` where it names none.
    pub fn resolve_with(raw_token: Option<&str>, grid_size: u32, fallback: u32) -> (slot: u32)
        ensures
            slot == resolved_slot(raw_token.deep_view(), grid_size, fallback),
            fallback < grid_size ==> slot < grid_size,
    {
        match Self::claimed_slot(raw_token, grid_size) {
            Some(slot) => slot,
            None => fallback,
        }
    }

    /// The slot for a visitor: the slot that the token names, and a slot
    /// drawn at random where it names none. The slot always lies on the
    /// grid.
    pub fn resolve(raw_token: Option<&str>, grid_size: u32) -> (slot: u32)
        requires
            grid_size > 0,
        ensures
            slot < grid_size,
            token_slot(raw_token.deep_view(), grid_size) matches Some(named) ==> slot == named,
    {
        match Self::claimed_slot(raw_token, grid_size) {
            Some(slot) => slot,
            None => random_below(grid_size as u64) as u32,
        }
    }
}

/// The canonical numeral of a slot on the grid is a token that names that
/// slot.
pub proof fn lemma_valid_token_names_its_slot(slot: u32, grid_size: u32)
    requires
        slot < grid_size,
    ensures
        token_slot(Some(decimal_text(slot as int)), grid_size) == Some(slot),
        forall|fallback: u32|
            resolved_slot(Some(decimal_text(slot as int)), grid_size, fallback) == slot,
{
    lemma_decimal_round_trip(slot as int);
}

/// A token handed out in a cookie comes back as the slot it was written
/// for: the numeral of a slot, written under a name, is found under that
/// name and names the slot.
pub proof fn lemma_token_survives_cookie(name: Seq<char>, slot: u32, grid_size: u32)
    requires
        is_plain(name),
        slot < grid_size,
    ensures
        token_slot(cookie_lookup(pair_text(name, decimal_text(slot as int)), name), grid_size)
            == Some(slot),
{
    lemma_decimal_text_chars(slot as int);
    lemma_pair_is_found(name, decimal_text(slot as int));
    lemma_decimal_round_trip(slot as int);
}

/// Whatever the token, the slot given to a visitor lies on the grid as long
/// as the fallback does.
pub proof fn lemma_resolved_slot_on_grid(token: Option<Seq<char>>, grid_size: u32, fallback: u32)
    requires
        fallback < grid_size,
    ensures
        resolved_slot(token, grid_size, fallback) < grid_size,
{
}

} // verus!
