use xmss_batch::error::WrapperError;

#[test]
fn test_wrapper_error_variants_can_be_constructed() {
    // Test HashSigError variant
    let hash_sig_err = WrapperError::HashSigError("test error".to_string());
    assert!(hash_sig_err.message().contains("Hash-sig error"));
    assert!(hash_sig_err.message().contains("test error"));

    // Test EpochOutOfRange variant with all fields
    let epoch_err = WrapperError::EpochOutOfRange {
        epoch: 100,
        activation_epoch: 0,
        end_epoch: 50,
        lifetime: 1024,
    };
    let err_msg = epoch_err.message();
    assert!(err_msg.contains("100"));
    assert!(err_msg.contains("[0, 50)"));
    assert!(err_msg.contains("1024"));

    // Test ConversionError variant
    let conv_err = WrapperError::ConversionError {
        reason: "field mismatch".to_string(),
    };
    assert!(conv_err.message().contains("Type conversion failed"));
    assert!(conv_err.message().contains("field mismatch"));

    // Test MessageHashingError variant
    let msg_err = WrapperError::MessageHashingError("hash failed".to_string());
    assert!(msg_err.message().contains("Message hashing failed"));
    assert!(msg_err.message().contains("hash failed"));

    // Test SerializationError variant
    let ser_err = WrapperError::SerializationError("bincode error".to_string());
    assert!(ser_err.message().contains("Serialization error"));
    assert!(ser_err.message().contains("bincode error"));

    // Test ParameterError variant
    let param_err = WrapperError::ParameterError("invalid height".to_string());
    assert!(param_err.message().contains("Invalid parameter configuration"));
    assert!(param_err.message().contains("invalid height"));
}

#[test]
fn test_epoch_out_of_range_includes_all_fields() {
    let err = WrapperError::EpochOutOfRange {
        epoch: 500,
        activation_epoch: 10,
        end_epoch: 100,
        lifetime: 1024,
    };

    let msg = err.message();

    // Verify all required fields are present in error message
    assert!(msg.contains("500"), "Should contain epoch value");
    assert!(msg.contains("10"), "Should contain activation_epoch");
    assert!(msg.contains("100"), "Should contain end_epoch");
    assert!(msg.contains("1024"), "Should contain lifetime");

    // Verify format includes range notation
    assert!(msg.contains("[10, 100)"), "Should show range in correct format");
}

#[test]
fn test_error_display_human_readable() {
    // Test that all error variants produce human-readable messages
    let errors = vec![
        WrapperError::HashSigError("encoding attempts exceeded".to_string()),
        WrapperError::EpochOutOfRange {
            epoch: 200,
            activation_epoch: 0,
            end_epoch: 100,
            lifetime: 1024,
        },
        WrapperError::ConversionError {
            reason: "signature field missing".to_string(),
        },
        WrapperError::MessageHashingError("unexpected hash failure".to_string()),
        WrapperError::SerializationError("failed to serialize".to_string()),
        WrapperError::ParameterError("tree height too large".to_string()),
    ];

    for err in errors {
        let msg = err.message();
        // All messages should be non-empty and contain useful information
        assert!(!msg.is_empty(), "Error message should not be empty");
        assert!(msg.len() > 10, "Error message should be descriptive");
    }
}

#[test]
fn test_error_debug_format() {
    let err = WrapperError::EpochOutOfRange {
        epoch: 42,
        activation_epoch: 0,
        end_epoch: 10,
        lifetime: 1024,
    };

    let debug_str = format!("{:?}", err);
    assert!(debug_str.contains("EpochOutOfRange"));
    assert!(debug_str.contains("42"));
}

#[test]
fn messages_are_spelled_out_exactly() {
    let err = WrapperError::EpochOutOfRange {
        epoch: 4294967295,
        activation_epoch: 0,
        end_epoch: 10,
        lifetime: 1000000,
    };
    assert_eq!(
        err.message(),
        "Epoch 4294967295 outside valid range [0, 10) for LIFETIME 1000000"
    );
    assert_eq!(WrapperError::HashSigError("x".to_string()).message(), "Hash-sig error: x");
    assert_eq!(
        WrapperError::ConversionError { reason: "y".to_string() }.message(),
        "Type conversion failed: y"
    );
    assert_eq!(
        WrapperError::MessageHashingError(String::new()).message(),
        "Message hashing failed: "
    );
    assert_eq!(
        WrapperError::SerializationError("z".to_string()).message(),
        "Serialization error: z"
    );
    assert_eq!(
        WrapperError::ParameterError("w".to_string()).message(),
        "Invalid parameter configuration: w"
    );
}
