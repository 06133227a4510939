//! Reading the receiver's answer to a two-phase transfer.
//!
//! A transfer with notification is settled in a second step, once the
//! receiver has answered.  The answer says how much of the amount the
//! receiver did not use.  An answer that is missing, too long or unreadable
//! counts as "nothing was used".

use vstd::prelude::*;

verus! {

/// The longest answer that is read, in bytes: the largest amount with a
/// sign, in quotes.
pub const MAX_RESULT_LENGTH: usize = 42;

/// How the call into the receiver ended.
#[derive(Debug, PartialEq, Eq)]
pub enum PromiseResult {
    /// The call returned these bytes.
    Successful(Vec<u8>),
    /// The call failed.
    Failed,
}

/// The amount that a JSON text stands for, where it is a string of decimal
/// digits that fits 128 bits, as `serde_json` reads it.
pub uninterp spec fn decoded_amount(bytes: Seq<u8>) -> Option<u128>;

/// `near_sdk::serde_json::from_slice`, at the type `near_sdk::json_types::U128`:
/// reads the bytes as a JSON string that holds an amount in decimal digits.
/// The result depends on the bytes alone; nothing else is claimed of it.
#[verifier::external_body]
fn decode_amount(bytes: &Vec<u8>) -> (amount: Option<u128>)
    ensures
        amount == decoded_amount(bytes@),
{
    match near_sdk::serde_json::from_slice::<near_sdk::json_types::U128>(bytes.as_slice()) {
        Ok(amount) => Some(amount.0),
        Err(_) => None,
    }
}

impl PromiseResult {
    /// The unused amount that the receiver reports, where the call returned
    /// an answer that is short enough and can be read.
    pub open spec fn reported(&self) -> Option<u128> {
        match self {
            PromiseResult::Successful(bytes) => if bytes@.len() <= MAX_RESULT_LENGTH {
                decoded_amount(bytes@)
            } else {
                None
            },
            PromiseResult::Failed => None,
        }
    }
}

/// The unused part of `amount`, given what the receiver reports: the amount
/// reported, but no more than `amount`; and all of `amount` where nothing is
/// reported.
pub open spec fn unused_of(amount: u128, reported: Option<u128>) -> u128 {
    match reported {
        Some(unused) => if unused < amount {
            unused
        } else {
            amount
        },
        None => amount,
    }
}

/// The unused part of `amount`, given what the receiver reports.
pub fn settle_unused(amount: u128, reported: Option<u128>) -> (unused: u128)
    ensures
        unused == unused_of(amount, reported),
{
    match reported {
        Some(unused) => if unused < amount {
            unused
        } else {
            amount
        },
        None => amount,
    }
}

/// The unused part of `amount`, given how the call into the receiver ended.
pub fn unused_amount(amount: u128, result: &PromiseResult) -> (unused: u128)
    ensures
        unused == unused_of(amount, result.reported()),
{
    let reported: Option<u128> = match result {
        PromiseResult::Successful(bytes) => if bytes.len() <= MAX_RESULT_LENGTH {
            decode_amount(bytes)
        } else {
            None
        },
        PromiseResult::Failed => None,
    };
    settle_unused(amount, reported)
}

} // verus!
