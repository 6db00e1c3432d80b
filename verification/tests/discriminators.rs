use token_acl::error::GatewayError;
use token_acl::tags::{freeze_tag, parse_operation, thaw_tag, Operation};

#[test]
fn test_discriminators() {
    assert_eq!(thaw_tag(), [8, 175, 169, 129, 137, 74, 61, 241]);
    assert_eq!(freeze_tag(), [214, 141, 109, 75, 248, 1, 45, 29]);
}

#[test]
fn lib_test_discriminators() {
    assert_eq!(thaw_tag(), [8, 175, 169, 129, 137, 74, 61, 241]);
    assert_eq!(freeze_tag(), [214, 141, 109, 75, 248, 1, 45, 29]);
}

#[test]
fn integration_tests_test_discriminator_validation() {
    let expected_thaw: [u8; 8] = [8, 175, 169, 129, 137, 74, 61, 241];
    let expected_freeze: [u8; 8] = [214, 141, 109, 75, 248, 1, 45, 29];
    assert_eq!(thaw_tag(), expected_thaw);
    assert_eq!(freeze_tag(), expected_freeze);
    assert_ne!(expected_thaw, expected_freeze);
    assert_eq!(expected_thaw.len(), 8);
    assert_eq!(expected_freeze.len(), 8);
    let thaw_sum: u32 = expected_thaw.iter().map(|&b| b as u32).sum();
    let freeze_sum: u32 = expected_freeze.iter().map(|&b| b as u32).sum();
    assert!(thaw_sum != 0);
    assert!(freeze_sum != 0);
}

#[test]
fn test_parse_operation_dispatch() {
    // Administrative single-byte tags.
    assert_eq!(parse_operation(&vec![0]), Ok(Operation::Initialize));
    assert_eq!(parse_operation(&vec![1, 99]), Ok(Operation::AddSubject));
    assert_eq!(parse_operation(&vec![2]), Ok(Operation::RemoveSubject));
    assert_eq!(parse_operation(&vec![3]), Ok(Operation::TransferAuthority));
    // Interface 8-byte tags.
    assert_eq!(
        parse_operation(&vec![8, 175, 169, 129, 137, 74, 61, 241]),
        Ok(Operation::CanThaw)
    );
    assert_eq!(
        parse_operation(&vec![214, 141, 109, 75, 248, 1, 45, 29]),
        Ok(Operation::CanFreeze)
    );
    // A trailing payload after the tag still dispatches.
    assert_eq!(
        parse_operation(&vec![8, 175, 169, 129, 137, 74, 61, 241, 0, 0]),
        Ok(Operation::CanThaw)
    );
}

#[test]
fn test_parse_operation_rejections() {
    // The empty payload is malformed, not unknown.
    assert_eq!(
        parse_operation(&Vec::new()),
        Err(GatewayError::MalformedRequest)
    );
    // A short administrative payload is never misread as a malformed
    // interface call.
    assert_eq!(parse_operation(&vec![2]), Ok(Operation::RemoveSubject));
    // A short non-administrative payload is unknown.
    assert_eq!(parse_operation(&vec![8]), Err(GatewayError::UnknownOperation));
    assert_eq!(
        parse_operation(&vec![8, 175, 169, 129, 137, 74, 61]),
        Err(GatewayError::UnknownOperation)
    );
    // A full-length payload with an unknown tag is unknown.
    assert_eq!(
        parse_operation(&vec![9, 9, 9, 9, 9, 9, 9, 9]),
        Err(GatewayError::UnknownOperation)
    );
    // The reserved all-zero tag is not an interface operation; its first
    // byte dispatches to the administrative namespace instead.
    assert_eq!(
        parse_operation(&vec![0, 0, 0, 0, 0, 0, 0, 0]),
        Ok(Operation::Initialize)
    );
}

#[test]
fn integration_test_discriminator_validation() {
    let expected_thaw: [u8; 8] = [8, 175, 169, 129, 137, 74, 61, 241];
    let expected_freeze: [u8; 8] = [214, 141, 109, 75, 248, 1, 45, 29];
    assert_eq!(thaw_tag(), expected_thaw);
    assert_eq!(freeze_tag(), expected_freeze);
    assert_ne!(expected_thaw, expected_freeze);
    let thaw_sum: u32 = expected_thaw.iter().map(|&b| b as u32).sum();
    let freeze_sum: u32 = expected_freeze.iter().map(|&b| b as u32).sum();
    assert!(thaw_sum != 0 && freeze_sum != 0);
}
