//! Contract-level metadata of the pet NFT collection (NEP-177).

use vstd::prelude::*;

verus! {

/// The icon of the pet collection, an SVG data URL.
pub const DATA_IMAGE_SVG_NEAR_ICON: &'static str = "data:image/svg+xml,%3Csvg xmlns='http://www.w3.org/2000/svg' viewBox='0 0 288 288'%3E%3Cg id='l' data-name='l'%3E%3Cpath d='M187.58,79.81l-30.1,1.86,103a1.2,1.2,0,0,1,2,.91v80.46a1.2,1.2,0,0,1-2.12.77L102.18,77.93A15.35,15.35,0,0,0,90.47,72.5H87.34A15.34,15.34,0,0,0,72,87.84V201.16A15.34,15.34,0,0,0,87.34,216.5h0a15.35,15.35,0,0,0,13.08-7.31l30.1-44.69a3.2,3.2,0,0,0-4.75-4.2L96.14,186a1.2,1.2,0,0,1-2-.91V104.61a1.2,1.2,0,0,1,2.12-.77l89.55,107.23a15.35,15.35,0,0,0,11.71,5.43h3.13A15.34,15.34,0,0,0,216,201.16V8715.34,0,0,0,200.66,72.5h0A15.35,15.35,0,1Z'/%3E%3C/g%3E%3C/svg%3E";

/// Contract-level NFT metadata, as plain values.
#[derive(Debug)]
pub struct NftContractMetadata {
    /// the version of the metadata standard, such as "nft-1.0.0"
    pub spec: String,
    pub name: String,
    pub symbol: String,
    /// a data URL
    pub icon: Option<String>,
    pub base_uri: Option<String>,
    /// URL of a JSON file with more information
    pub reference: Option<String>,
    /// sha256 hash of the JSON file at `reference`
    pub reference_hash: Option<Vec<u8>>,
}

/// What the metadata states.
pub struct NftContractMetadataView {
    pub spec: Seq<char>,
    pub name: Seq<char>,
    pub symbol: Seq<char>,
    pub icon: Option<Seq<char>>,
    pub base_uri: Option<Seq<char>>,
    pub reference: Option<Seq<char>>,
    pub reference_hash: Option<Seq<u8>>,
}

pub open spec fn option_text(o: Option<String>) -> Option<Seq<char>> {
    match o {
        Some(s) => Some(s@),
        None => None,
    }
}

impl View for NftContractMetadata {
    type V = NftContractMetadataView;

    open spec fn view(&self) -> NftContractMetadataView {
        NftContractMetadataView {
            spec: self.spec@,
            name: self.name@,
            symbol: self.symbol@,
            icon: option_text(self.icon),
            base_uri: option_text(self.base_uri),
            reference: option_text(self.reference),
            reference_hash: match self.reference_hash {
                Some(h) => Some(h@),
                None => None,
            },
        }
    }
}

/// The version of the NFT metadata standard that the contract follows.
pub open spec fn nft_metadata_spec() -> Seq<char> {
    "nft-1.0.0"@
}

/// The NFT standard's rule for contract metadata (what
/// `NFTContractMetadata::assert_valid` of near-contract-standards checks): the
/// spec is the standard's version, a reference comes with a reference hash and
/// the other way round, and a reference hash is 32 bytes long.
pub open spec fn valid_nft_contract_metadata(m: NftContractMetadataView) -> bool {
    &&& m.spec == nft_metadata_spec()
    &&& (m.reference is Some) == (m.reference_hash is Some)
    &&& m.reference_hash matches Some(h) ==> h.len() == 32
}

/// Reads `near_contract_standards::non_fungible_token::metadata::NFT_METADATA_SPEC`,
/// the standard's version text, which near-contract-standards defines as
/// "nft-1.0.0"; the claim is that the copy holds that text.
#[verifier::external_body]
fn standard_metadata_spec() -> (spec: String)
    ensures
        spec@ == nft_metadata_spec(),
{
    near_contract_standards::non_fungible_token::metadata::NFT_METADATA_SPEC.to_string()
}

/// Why contract metadata breaks the NFT standard's rule, in the order in
/// which the rule is checked.
#[derive(Debug, PartialEq, Eq)]
pub enum MetadataError {
    /// "Spec is not NFT metadata"
    SpecIsNotNftMetadata,
    /// "Reference and reference hash must be present"
    ReferenceWithoutHash,
    /// "Hash has to be 32 bytes"
    HashNot32Bytes,
}

impl MetadataError {
    /// The message of the standard's check for this error.
    pub fn message(&self) -> (m: &'static str)
        ensures
            m@ == match self {
                MetadataError::SpecIsNotNftMetadata => "Spec is not NFT metadata"@,
                MetadataError::ReferenceWithoutHash => "Reference and reference hash must be present"@,
                MetadataError::HashNot32Bytes => "Hash has to be 32 bytes"@,
            },
    {
        match self {
            MetadataError::SpecIsNotNftMetadata => "Spec is not NFT metadata",
            MetadataError::ReferenceWithoutHash => "Reference and reference hash must be present",
            MetadataError::HashNot32Bytes => "Hash has to be 32 bytes",
        }
    }
}

impl NftContractMetadata {
    /// Checks the NFT standard's rule: first the spec, then that a reference
    /// and its hash come together, then the hash's length.
    pub fn validate(&self) -> (r: Result<(), MetadataError>)
        ensures
            r is Ok <==> valid_nft_contract_metadata(self@),
            r == Err::<(), MetadataError>(MetadataError::SpecIsNotNftMetadata)
                <==> self@.spec != nft_metadata_spec(),
            r == Err::<(), MetadataError>(MetadataError::ReferenceWithoutHash) <==> (self@.spec
                == nft_metadata_spec() && (self@.reference is Some) != (self@.reference_hash is Some)),
            r == Err::<(), MetadataError>(MetadataError::HashNot32Bytes) <==> (self@.spec
                == nft_metadata_spec() && (self@.reference is Some) == (self@.reference_hash is Some)
                && (self@.reference_hash matches Some(h) && h.len() != 32)),
            r is Ok <==> (self@.spec == "nft-1.0.0"@ && (self@.reference is Some) == (
            self@.reference_hash is Some) && (self@.reference_hash matches Some(h) ==> h.len() == 32)),
    {
        let spec = standard_metadata_spec();
        if self.spec != spec {
            return Err(MetadataError::SpecIsNotNftMetadata);
        }
        if self.reference.is_some() != self.reference_hash.is_some() {
            return Err(MetadataError::ReferenceWithoutHash);
        }
        match &self.reference_hash {
            Some(hash) => {
                if hash.len() != 32 {
                    return Err(MetadataError::HashNot32Bytes);
                }
            },
            None => {},
        }
        Ok(())
    }

    /// Whether the metadata follows the NFT standard's rule.
    pub fn is_valid(&self) -> (ok: bool)
        ensures
            ok == valid_nft_contract_metadata(self@),
    {
        self.validate().is_ok()
    }

    /// The metadata of the example pet collection: standard version, name
    /// "Example NEAR non-fungible token", symbol "EXAMPLE" and the NEAR icon,
    /// with no base URI and no reference.
    pub fn new_default_meta() -> (m: NftContractMetadata)
        ensures
            m@ == (NftContractMetadataView {
                spec: nft_metadata_spec(),
                name: "Example NEAR non-fungible token"@,
                symbol: "EXAMPLE"@,
                icon: Some(DATA_IMAGE_SVG_NEAR_ICON@),
                base_uri: None,
                reference: None,
                reference_hash: None,
            }),
            valid_nft_contract_metadata(m@),
    {
        NftContractMetadata {
            spec: standard_metadata_spec(),
            name: "Example NEAR non-fungible token".to_owned(),
            symbol: "EXAMPLE".to_owned(),
            icon: Some(DATA_IMAGE_SVG_NEAR_ICON.to_owned()),
            base_uri: None,
            reference: None,
            reference_hash: None,
        }
    }
}

} // verus!
