//! The failures that a registry reports.

use vstd::prelude::*;
use vstd::string::StringExecFns;

verus! {

/// Why a registry operation did not go through.
#[derive(Debug)]
pub enum ShadowOracleError {
    /// No feed is retained under the address; the payload is its text.
    PriceFeedNotFound(String),
    /// The price data handed in is malformed.
    InvalidPriceData(String),
    /// An account could not be written out.
    SerializationError(String),
    /// The provider cannot work in its surroundings.
    ProviderNotAvailable(String),
}

/// Payload of the failure that reports a write which the sandbox refused.
pub const WRITE_REFUSED: &'static str = "Failed to set account";

/// Payload of the failure that reports a sandbox without a clock to read.
pub const CLOCK_MISSING: &'static str = "clock sysvar";

/// `prefix` followed by `detail`.
fn joined(prefix: &str, detail: &String) -> (text: String)
    ensures
        text@ == prefix@ + detail@,
{
    prefix.to_owned().concat(detail.as_str())
}

impl ShadowOracleError {
    /// What the failure says: a heading for its kind, then its payload.
    pub open spec fn text(self) -> Seq<char> {
        match self {
            ShadowOracleError::PriceFeedNotFound(detail) => "Price feed not found: "@ + detail@,
            ShadowOracleError::InvalidPriceData(detail) => "Invalid price data: "@ + detail@,
            ShadowOracleError::SerializationError(detail) => "Failed to serialize account: "@
                + detail@,
            ShadowOracleError::ProviderNotAvailable(detail) => "Provider not available: "@
                + detail@,
        }
    }

    /// The failure as text.
    pub fn message(&self) -> (text: String)
        ensures
            text@ == self.text(),
    {
        match self {
            ShadowOracleError::PriceFeedNotFound(detail) => joined("Price feed not found: ", detail),
            ShadowOracleError::InvalidPriceData(detail) => joined("Invalid price data: ", detail),
            ShadowOracleError::SerializationError(detail) => joined(
                "Failed to serialize account: ",
                detail,
            ),
            ShadowOracleError::ProviderNotAvailable(detail) => joined(
                "Provider not available: ",
                detail,
            ),
        }
    }

    /// Whether the failure reports that no feed is retained under `address`,
    /// whose text is the payload.
    pub open spec fn is_not_found(self, address: Seq<u8>) -> bool {
        self matches ShadowOracleError::PriceFeedNotFound(detail) && detail@
            == crate::substrate::base58_text(address)
    }

    /// Whether the failure reports a write that the sandbox refused.
    pub open spec fn is_write_refused(self) -> bool {
        self matches ShadowOracleError::SerializationError(detail) && detail@ == WRITE_REFUSED@
    }

    /// Whether the failure reports a sandbox without a clock to read.
    pub open spec fn is_clock_missing(self) -> bool {
        self matches ShadowOracleError::ProviderNotAvailable(detail) && detail@ == CLOCK_MISSING@
    }

    /// The failure for an address under which no feed is retained.
    pub fn not_found(address: &crate::address::Address) -> (e: Self)
        ensures
            e.is_not_found(address@),
    {
        ShadowOracleError::PriceFeedNotFound(crate::substrate::address_text(address))
    }

    /// The failure for a write that the sandbox refused.
    pub fn write_refused() -> (e: Self)
        ensures
            e.is_write_refused(),
    {
        ShadowOracleError::SerializationError(WRITE_REFUSED.to_owned())
    }

    /// The failure for a sandbox without a clock to read.
    pub fn clock_missing() -> (e: Self)
        ensures
            e.is_clock_missing(),
    {
        ShadowOracleError::ProviderNotAvailable(CLOCK_MISSING.to_owned())
    }
}

} // verus!
