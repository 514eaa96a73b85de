use sha2::Digest;
use xmss_batch::config::ParameterSet;
use xmss_batch::error::WrapperError;
use xmss_batch::wrapper::XmssWrapper;

#[test]
fn test_wrapper_creation_increments_epoch() {
    let params = ParameterSet::SHA256_H18_W4;

    let result = XmssWrapper::key_gen(params, 0, 10);
    assert!(result.is_ok(), "Key generation should succeed");

    let sk = result.unwrap();
    assert_eq!(sk.activation_epoch, 0);
    assert_eq!(sk.num_active_epochs, 10);
    assert_eq!(sk.params.tree_height, 18);
}

#[test]
fn test_wrapper_validates_epoch_range() {
    let params = ParameterSet::SHA256_H18_W4;
    let lifetime = params.metadata().lifetime;

    // Test invalid epoch range (exceeds lifetime)
    let result = XmssWrapper::key_gen(params, 0, lifetime + 1);
    assert!(result.is_err(), "Should reject epoch range exceeding lifetime");

    match result {
        Err(WrapperError::EpochOutOfRange { .. }) => {
            // Expected error
        }
        _ => panic!("Expected EpochOutOfRange error"),
    }
}

#[test]
fn test_sign_validates_epoch() {
    let params = ParameterSet::SHA256_H18_W4;

    let sk = XmssWrapper::key_gen(params, 10, 20).unwrap();

    // Test signing with epoch outside range
    let message = b"test message";
    let result = XmssWrapper::sign(&sk, 5, message); // Epoch 5 < activation 10
    assert!(result.is_err(), "Should reject epoch below activation");

    let result = XmssWrapper::sign(&sk, 30, message); // Epoch 30 >= end 30
    assert!(result.is_err(), "Should reject epoch at or above end");
}

#[test]
fn signing_input_holds_epoch_and_digest() {
    let sk = XmssWrapper::key_gen(ParameterSet::SHA256_H20_W4, 10, 20).unwrap();
    assert_eq!(sk.params, ParameterSet::SHA256_H20_W4.metadata());
    let message = b"test message with arbitrary length";
    let expected: [u8; 32] = sha2::Sha256::digest(message).into();
    let input = XmssWrapper::sign(&sk, 29, message).unwrap();
    assert_eq!(input.epoch, 29);
    assert_eq!(input.digest, expected);
    let input = XmssWrapper::sign(&sk, 10, message).unwrap();
    assert_eq!(input.epoch, 10);
    let input = XmssWrapper::verify(29, message);
    assert_eq!(input.epoch, 29);
    assert_eq!(input.digest, expected);
    assert_ne!(XmssWrapper::verify(29, b"different message").digest, expected);
    assert_eq!(
        XmssWrapper::metadata(ParameterSet::SHA256_H18_W8),
        ParameterSet::SHA256_H18_W8.metadata()
    );
    match XmssWrapper::key_gen(ParameterSet::SHA256_H18_W4, 262144, 1) {
        Err(WrapperError::EpochOutOfRange { epoch, activation_epoch, end_epoch, lifetime }) => {
            assert_eq!((epoch, activation_epoch, end_epoch, lifetime), (262145, 262144, 262145, 262144));
        }
        _ => panic!("Expected EpochOutOfRange error"),
    }
    assert!(XmssWrapper::key_gen(ParameterSet::SHA256_H18_W4, 262143, 1).is_ok());
}
