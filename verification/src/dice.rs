//! The twenty-sided die.

use crate::decimal::{lemma_decimal_len, lemma_decimal_round_trip, parse_decimal};
use crate::response::{dice_response, Response, Status};
use rand::Rng;
use vstd::prelude::*;

verus! {

/// The number of sides of the die.
pub const DIE_SIDES: u32 = 20;

/// `roll` is a face of the die.
pub open spec fn is_face(roll: int) -> bool {
    1 <= roll <= DIE_SIDES
}

/// Draws an integer from `low` up to, not including, `high`.
///
/// This is `rand::Rng::gen_range` on the generator that `rand::thread_rng`
/// hands out. Its documentation promises a value of the half-open range
/// and a panic where the range is empty, which `requires` rules out. Which
/// value comes is left open: the generator is seeded by the system, and two
/// calls need not agree. The generator itself panics where the system
/// gives it no entropy to start from.
#[verifier::external_body]
fn gen_range(low: i32, high: i32) -> (value: i32)
    requires
        low < high,
    ensures
        low <= value < high,
{
    rand::thread_rng().gen_range(low, high)
}

/// Rolls the die: some face from 1 to 20.
pub fn roll_d20() -> (roll: u32)
    ensures
        is_face(roll as int),
{
    let value: i32 = gen_range(1, DIE_SIDES as i32 + 1);
    value as u32
}

/// Answers a request for a die roll: rolls the die and shows the face.
/// The answer is `200 OK` with a body of one or two decimal digits that
/// read back as a number from 1 to 20.
pub fn roll_response() -> (response: Response)
    ensures
        exists|roll: nat| #[trigger] is_face(roll as int) && response@ == dice_response(roll),
        response@.status == Status::Success,
        1 <= response@.body.len() <= 2,
        parse_decimal(response@.body) matches Some(face) && is_face(face as int),
{
    let roll = roll_d20();
    proof {
        assert(is_face(roll as nat as int));
        lemma_decimal_round_trip(roll as nat);
        lemma_decimal_len(roll as nat);
    }
    Response::dice(roll)
}

} // verus!
