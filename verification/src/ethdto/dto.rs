//! Stored and new NFT ownership records.

use vstd::prelude::*;

verus! {

/// A point in time: seconds since the Unix epoch and the nanoseconds within that
/// second (up to 1_999_999_999 during a leap second), ordered as a date-time is.
#[derive(Debug, Clone, Copy, PartialEq, Eq, Structural)]
pub struct Timestamp {
    pub secs: i64,
    pub nanos: u32,
}

/// `a` is strictly later than `b`.
pub open spec fn later_than(a: Timestamp, b: Timestamp) -> bool {
    a.secs > b.secs || (a.secs == b.secs && a.nanos > b.nanos)
}

impl Timestamp {
    /// Whether this time is strictly later than `other`.
    pub fn is_after(&self, other: &Timestamp) -> (r: bool)
        ensures
            r == later_than(*self, *other),
            self.secs > other.secs ==> r,
            self.secs < other.secs ==> !r,
            self.secs == other.secs ==> (r <==> self.nanos > other.nanos),
    {
        self.secs > other.secs || (self.secs == other.secs && self.nanos > other.nanos)
    }
}

/// `later_than` is the order of date-times: more seconds is later, by any amount;
/// equal seconds are ordered by nanoseconds.
pub proof fn lemma_later_than_is_date_time_order(a: Timestamp, b: Timestamp)
    ensures
        a.secs > b.secs ==> later_than(a, b),
        a.secs < b.secs ==> !later_than(a, b),
        a.secs == b.secs ==> (later_than(a, b) <==> a.nanos > b.nanos),
{
}

/// `later_than` is a strict total order: of two distinct times exactly one is later,
/// no time is later than itself, and it is transitive.
pub proof fn lemma_later_than_strict_total(a: Timestamp, b: Timestamp, c: Timestamp)
    ensures
        !later_than(a, a),
        a != b ==> (later_than(a, b) != later_than(b, a)),
        later_than(a, b) && later_than(b, c) ==> later_than(a, c),
{
}

/// A stored ownership record.
#[derive(Debug)]
pub struct EthDto {
    pub id: i32,
    pub contract: String,
    pub chain_id: i64,
    pub contract_type: String,
    pub token_id: String,
    pub owner: String,
    pub uri: Option<String>,
    pub name: Option<String>,
    pub symbol: Option<String>,
    pub updated_at: Timestamp,
}

/// An ownership record to store.
#[derive(Debug)]
pub struct NewEthDto {
    pub contract: String,
    pub chain_id: i64,
    pub contract_type: String,
    pub token_id: String,
    pub owner: String,
    pub uri: Option<String>,
    pub name: Option<String>,
    pub symbol: Option<String>,
    pub updated_at: Timestamp,
}

} // verus!
