use fight::nft_metadata::{MetadataError, NftContractMetadata, DATA_IMAGE_SVG_NEAR_ICON};

#[test]
fn default_metadata_describes_the_example_collection() {
    let m = NftContractMetadata::new_default_meta();
    assert_eq!(m.spec, "nft-1.0.0");
    assert_eq!(m.name, "Example NEAR non-fungible token");
    assert_eq!(m.symbol, "EXAMPLE");
    assert_eq!(m.icon.as_deref(), Some(DATA_IMAGE_SVG_NEAR_ICON));
    assert!(DATA_IMAGE_SVG_NEAR_ICON.starts_with("data:image/svg+xml,"));
    assert_eq!(m.base_uri, None);
    assert_eq!(m.reference, None);
    assert_eq!(m.reference_hash, None);
}

fn metadata() -> NftContractMetadata {
    NftContractMetadata::new_default_meta()
}

#[test]
fn default_metadata_is_valid() {
    assert!(metadata().is_valid());
    assert_eq!(metadata().validate(), Ok(()));
}

#[test]
fn invalid_metadata_is_refused_with_the_standard_message() {
    let mut m = metadata();
    m.spec = "nft-2.0.0".to_string();
    assert_eq!(m.validate(), Err(MetadataError::SpecIsNotNftMetadata));
    assert_eq!(m.validate().unwrap_err().message(), "Spec is not NFT metadata");
    assert!(!m.is_valid());

    let mut m = metadata();
    m.reference = Some("https://example.org/meta.json".to_string());
    assert_eq!(m.validate(), Err(MetadataError::ReferenceWithoutHash));
    assert_eq!(
        m.validate().unwrap_err().message(),
        "Reference and reference hash must be present"
    );

    let mut m = metadata();
    m.reference = Some("https://example.org/meta.json".to_string());
    m.reference_hash = Some(vec![0u8; 31]);
    assert_eq!(m.validate(), Err(MetadataError::HashNot32Bytes));
    assert_eq!(m.validate().unwrap_err().message(), "Hash has to be 32 bytes");

    m.reference_hash = Some(vec![7u8; 32]);
    assert!(m.is_valid());

    // the spec is checked first
    let mut m = metadata();
    m.spec = String::new();
    m.reference_hash = Some(vec![0u8; 3]);
    assert_eq!(m.validate(), Err(MetadataError::SpecIsNotNftMetadata));
}
