use shadow_oracle::{Address, ShadowOracleError};

#[test]
fn messages_name_the_kind_and_the_payload() {
    assert_eq!(
        ShadowOracleError::PriceFeedNotFound("abc".to_string()).message(),
        "Price feed not found: abc"
    );
    assert_eq!(
        ShadowOracleError::InvalidPriceData("negative".to_string()).message(),
        "Invalid price data: negative"
    );
    assert_eq!(
        ShadowOracleError::SerializationError("too long".to_string()).message(),
        "Failed to serialize account: too long"
    );
    assert_eq!(
        ShadowOracleError::ProviderNotAvailable("pyth".to_string()).message(),
        "Provider not available: pyth"
    );
    assert_eq!(ShadowOracleError::InvalidPriceData(String::new()).message(), "Invalid price data: ");
}

#[test]
fn failures_of_the_registries() {
    let zero = Address::new([0u8; 32]);
    match ShadowOracleError::not_found(&zero) {
        ShadowOracleError::PriceFeedNotFound(text) => {
            assert_eq!(text, "11111111111111111111111111111111")
        }
        other => panic!("{:?}", other),
    }
    assert_eq!(
        ShadowOracleError::not_found(&Address::new([255u8; 32])).message(),
        "Price feed not found: JEKNVnkbo3jma5nREBBJCDoXFVeKkD56V3xKrvRmWxFG"
    );
    assert_eq!(
        ShadowOracleError::write_refused().message(),
        "Failed to serialize account: Failed to set account"
    );
    assert_eq!(
        ShadowOracleError::clock_missing().message(),
        "Provider not available: clock sysvar"
    );
}
