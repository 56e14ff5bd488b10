//! Fifteen-minute market slots.

use vstd::prelude::*;
use vstd::string::*;
use crate::text::{
    law_numeral, law_numeral_reads_back, law_numerals_differ, numeral, numeral_text, unsigned_of_text,
};

verus! {

/// The length of a slot in seconds.
pub const SLOT_SECONDS: u64 = 900;

/// The start of the slot that holds the Unix time `now`, in seconds.
pub open spec fn slot_start(now: int) -> int {
    (now / 900) * 900
}

/// The start of the slot that holds the Unix time `now`, in seconds.
pub fn current_15m_start_epoch(now: u64) -> (result: u64)
    ensures
        result == slot_start(now as int),
        result as int % 900 == 0,
        result <= now < result + 900,
{
    (now / SLOT_SECONDS) * SLOT_SECONDS
}

/// Whether a new slot has begun since the last look at the clock.
pub fn slot_changed(last_slot: u64, now: u64) -> (result: Option<u64>)
    ensures
        result == (if slot_start(now as int) == last_slot {
            None::<u64>
        } else {
            Some(slot_start(now as int) as u64)
        }),
{
    let slot = current_15m_start_epoch(now);
    if slot == last_slot {
        None
    } else {
        Some(slot)
    }
}

/// The slug of the market of a series that starts at `start`.
pub open spec fn slug_of(prefix: Seq<char>, start: int) -> Seq<char> {
    prefix + numeral(start as nat)
}

/// The slug of the market of a series that starts at `start`.
pub fn market_slug(prefix: &str, start: u64) -> (result: String)
    ensures
        result@ == slug_of(prefix@, start as int),
{
    let mut slug = prefix.to_owned();
    slug.append(numeral_text(start).as_str());
    slug
}

/// All times of a slot have the same start, and the next slot starts where it ends.
pub proof fn law_slots(start: int, now: int)
    requires
        start == slot_start(start),
        start <= now < start + 900,
    ensures
        slot_start(now) == start,
        slot_start(start + 900) == start + 900,
{
}

/// The markets of a series have different slugs in different slots.
pub proof fn law_slugs_differ(prefix: Seq<char>, a: nat, b: nat)
    requires
        a != b,
    ensures
        slug_of(prefix, a as int) != slug_of(prefix, b as int),
{
    law_numerals_differ(a, b);
    let n = prefix.len() as int;
    assert(slug_of(prefix, a as int).skip(n) == numeral(a));
    assert(slug_of(prefix, b as int).skip(n) == numeral(b));
}

/// A slot starts at a multiple of nine hundred seconds, and holds the time.
pub proof fn law_slot_start(now: int)
    ensures
        slot_start(now) % 900 == 0,
        slot_start(now) <= now < slot_start(now) + 900,
{
}

/// A slug is the prefix of the series, followed by digits that read back as the start, without zeros
/// before them.
pub proof fn law_slug(prefix: Seq<char>, start: nat)
    ensures
        ({
            let slug = slug_of(prefix, start as int);
            let n = prefix.len() as int;
            &&& slug.take(n) == prefix
            &&& unsigned_of_text(slug.skip(n), start as int) == Some(start as int)
            &&& slug.len() > n
            &&& slug[n] != '+'
            &&& slug[n] == '0' ==> slug.len() == n + 1
        }),
{
    let n = prefix.len() as int;
    let slug = slug_of(prefix, start as int);
    assert(slug.skip(n) == numeral(start));
    assert(slug.take(n) == prefix);
    law_numeral_reads_back(start, start as int);
    law_numeral(start);
    assert(slug[n] == numeral(start)[0]);
}

} // verus!
