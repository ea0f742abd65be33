//! The decision of ENSIP-25 verification: what an ENS text-record lookup of
//! the record key means for the link between a registry entry and an ENS
//! name. The lookup itself is network I/O and happens outside the library.
use vstd::prelude::*;

use crate::error::Error;

verus! {

/// The result of an ENSIP-25 verification check.
#[derive(Debug, Clone, Copy, PartialEq, Eq, Hash, Structural)]
pub enum VerificationStatus {
    /// The ENS name has the `agent-registration[…][…]` text record set to a
    /// non-empty value: the association is confirmed.
    Verified,
    /// The ENS text record does not exist or is empty: the ENS name owner has
    /// not confirmed the relationship.
    EnsRecordMissing,
}

impl VerificationStatus {
    /// Returns `true` if the verification succeeded.
    pub fn is_verified(self) -> (b: bool)
        ensures
            b == (self == VerificationStatus::Verified),
    {
        match self {
            VerificationStatus::Verified => true,
            VerificationStatus::EnsRecordMissing => false,
        }
    }

    /// The display form: `verified` or `ENS record missing`.
    pub fn to_string(self) -> (text: String)
        ensures
            text@ == (match self {
                VerificationStatus::Verified => "verified"@,
                VerificationStatus::EnsRecordMissing => "ENS record missing"@,
            }),
    {
        match self {
            VerificationStatus::Verified => String::from_str("verified"),
            VerificationStatus::EnsRecordMissing => String::from_str("ENS record missing"),
        }
    }
}

/// What an ENS text-record lookup came back with.
#[derive(Debug, PartialEq, Eq)]
pub enum TxtLookup {
    /// The record's value, possibly empty.
    Value(String),
    /// The resolver call for the text record reverted: the record could not
    /// be resolved for the name.
    Unresolved,
    /// The lookup failed for another reason (an RPC or transport error, say);
    /// its message.
    Failed(String),
}

/// The verification status that a lookup of the record key gives: verified
/// exactly when the record holds a non-empty value; missing when it is empty
/// or could not be resolved; any other lookup failure is an error.
pub fn status_from_lookup(lookup: TxtLookup) -> (res: Result<VerificationStatus, Error>)
    ensures
        match lookup {
            TxtLookup::Value(v) => res == Ok::<VerificationStatus, Error>(
                if v@.len() > 0 {
                    VerificationStatus::Verified
                } else {
                    VerificationStatus::EnsRecordMissing
                },
            ),
            TxtLookup::Unresolved => res == Ok::<VerificationStatus, Error>(
                VerificationStatus::EnsRecordMissing,
            ),
            TxtLookup::Failed(msg) => res matches Err(Error::Ens(m)) && m@ == msg@,
        },
{
    match lookup {
        TxtLookup::Value(v) => {
            if v.as_str().is_empty() {
                Ok(VerificationStatus::EnsRecordMissing)
            } else {
                Ok(VerificationStatus::Verified)
            }
        },
        TxtLookup::Unresolved => Ok(VerificationStatus::EnsRecordMissing),
        TxtLookup::Failed(msg) => Err(Error::Ens(msg)),
    }
}

} // verus!
