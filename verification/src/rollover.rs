//! The store of rollover snapshots: one row of contract data per CFD, with
//! the revoked commit transactions and the open CETs that belong to it.
//!
//! Amounts are unsigned; the tables keep them as signed 64-bit numbers.

pub mod insert;
pub mod laws;
pub mod load;
pub mod store;

use crate::model::Amount;
use vstd::prelude::*;

verus! {

/// Why a snapshot was not written or not read.
#[derive(Clone, Copy, Debug, PartialEq, Eq, Structural)]
pub enum Error {
    /// The event is not the completion of a rollover.
    InvalidEvent,
    /// An amount to be written does not fit the signed column.
    AmountOutOfRange,
    /// Writing the row of contract data did not affect exactly one row.
    FailedToInsertEventData,
    /// Writing a revoked commit transaction did not affect exactly one row.
    FailedToInsertRevokedCommit,
    /// Writing a CET did not affect exactly one row.
    FailedToInsertCet,
    /// A stored amount is negative.
    NegativeAmount,
    /// A stored refund timelock does not fit 32 bits.
    TimelockOutOfRange,
    /// A stored address does not parse.
    InvalidAddress,
    /// A stored descriptor does not parse.
    InvalidDescriptor,
    /// A stored signature does not parse.
    InvalidSignature,
    /// A stored script is not hexadecimal text.
    InvalidScript,
}

/// The table that a write went to.
#[derive(Clone, Copy, Debug, PartialEq, Eq, Structural)]
pub enum Table {
    RolloverCompletedEventData,
    RevokedCommitTransactions,
    OpenCets,
}

/// The error of a write to a table that did not affect exactly one row.
pub open spec fn insert_failure(table: Table) -> Error {
    match table {
        Table::RolloverCompletedEventData => Error::FailedToInsertEventData,
        Table::RevokedCommitTransactions => Error::FailedToInsertRevokedCommit,
        Table::OpenCets => Error::FailedToInsertCet,
    }
}

/// Holds a write to having affected exactly one row.
pub fn check_rows_affected(table: Table, rows_affected: u64) -> (checked: Result<(), Error>)
    ensures
        rows_affected == 1 ==> checked is Ok,
        rows_affected != 1 ==> checked == Err::<(), Error>(insert_failure(table)),
{
    if rows_affected != 1 {
        match table {
            Table::RolloverCompletedEventData => Err(Error::FailedToInsertEventData),
            Table::RevokedCommitTransactions => Err(Error::FailedToInsertRevokedCommit),
            Table::OpenCets => Err(Error::FailedToInsertCet),
        }
    } else {
        Ok(())
    }
}

/// Whether an amount fits the signed column.
pub open spec fn fits_signed(amount: Amount) -> bool {
    amount.sat <= i64::MAX
}

/// The signed number with the bits of an unsigned one.
pub open spec fn signed_bits(v: u64) -> i64 {
    if v <= i64::MAX {
        v as i64
    } else {
        (v - 0x1_0000_0000_0000_0000) as i64
    }
}

/// The unsigned number with the bits of a signed one.
pub open spec fn unsigned_bits(v: i64) -> u64 {
    if v >= 0 {
        v as u64
    } else {
        (v + 0x1_0000_0000_0000_0000) as u64
    }
}

/// An amount as the column keeps it; refused where it is 2^63 satoshis or more.
pub fn amount_to_sql(amount: Amount) -> (stored: Result<i64, Error>)
    ensures
        fits_signed(amount) ==> stored == Ok::<i64, Error>(amount.sat as i64),
        !fits_signed(amount) ==> stored == Err::<i64, Error>(Error::AmountOutOfRange),
{
    if amount.sat <= 0x7fff_ffff_ffff_ffff {
        Ok(amount.sat as i64)
    } else {
        Err(Error::AmountOutOfRange)
    }
}

/// The amount that a column holds; a negative number is none.
pub fn amount_from_sql(stored: i64) -> (amount: Result<Amount, Error>)
    ensures
        stored >= 0 ==> amount == Ok::<Amount, Error>(Amount { sat: stored as u64 }),
        stored < 0 ==> amount == Err::<Amount, Error>(Error::NegativeAmount),
{
    if stored >= 0 {
        Ok(Amount { sat: stored as u64 })
    } else {
        Err(Error::NegativeAmount)
    }
}

/// An unsigned number as a signed column keeps it: bit for bit.
pub fn u64_to_sql(v: u64) -> (stored: i64)
    ensures
        stored == signed_bits(v),
{
    if v <= 0x7fff_ffff_ffff_ffff {
        v as i64
    } else {
        let low: u64 = v - 0x8000_0000_0000_0000;
        (low as i64) + i64::MIN
    }
}

/// The unsigned number that a signed column holds: bit for bit.
pub fn u64_from_sql(stored: i64) -> (v: u64)
    ensures
        v == unsigned_bits(stored),
{
    if stored >= 0 {
        stored as u64
    } else {
        let low: i64 = stored - i64::MIN;
        (low as u64) + 0x8000_0000_0000_0000
    }
}

/// The refund timelock that a column holds, where it fits 32 bits.
pub fn timelock_from_sql(stored: i64) -> (timelock: Result<u32, Error>)
    ensures
        0 <= stored <= u32::MAX ==> timelock == Ok::<u32, Error>(stored as u32),
        !(0 <= stored <= u32::MAX) ==> timelock == Err::<u32, Error>(Error::TimelockOutOfRange),
{
    if 0 <= stored && stored <= 0xffff_ffff {
        Ok(stored as u32)
    } else {
        Err(Error::TimelockOutOfRange)
    }
}

/// What `u64_to_sql` writes, `u64_from_sql` reads back.
pub proof fn lemma_bits_round_trip(v: u64)
    ensures
        unsigned_bits(signed_bits(v)) == v,
{}

} // verus!
