//! The descriptive record of the token: set once, read ever after.

use vstd::prelude::*;
use vstd::string::*;

verus! {

/// The version of the metadata standard that a record has to name.
pub const FT_METADATA_SPEC: &'static str = "ft-1.0.0";

/// The length of a reference hash, in bytes.
pub const REFERENCE_HASH_LENGTH: usize = 32;

/// Name, symbol and presentation of the token.
#[derive(Debug, PartialEq, Eq)]
pub struct FungibleTokenMetadata {
    pub spec: String,
    pub name: String,
    pub symbol: String,
    pub icon: Option<String>,
    pub reference: Option<String>,
    pub reference_hash: Option<Vec<u8>>,
    pub decimals: u8,
}

impl FungibleTokenMetadata {
    /// A record is valid if it names the standard's version, and carries a
    /// reference and a reference hash of 32 bytes together or not at all.
    pub open spec fn valid(&self) -> bool {
        &&& self.spec@ == FT_METADATA_SPEC@
        &&& self.reference.is_some() == self.reference_hash.is_some()
        &&& match self.reference_hash {
            Some(hash) => hash@.len() == REFERENCE_HASH_LENGTH,
            None => true,
        }
    }

    /// Whether the record is valid.
    pub fn is_valid(&self) -> (valid: bool)
        ensures
            valid == self.valid(),
    {
        let version = String::from_str(FT_METADATA_SPEC);
        if !(self.spec == version) {
            return false;
        }
        if self.reference.is_some() != self.reference_hash.is_some() {
            return false;
        }
        match &self.reference_hash {
            Some(hash) => hash.len() == REFERENCE_HASH_LENGTH,
            None => true,
        }
    }
}

} // verus!
