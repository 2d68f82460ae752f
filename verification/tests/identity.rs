use ckbtc_lottery::error::LotteryError;
use ckbtc_lottery::identity::{clone_bytes, Account, Identity, MAX_IDENTITY_BYTES};

#[test]
fn management_principal_has_no_bytes() {
    let id = Identity::from_text("aaaaa-aa").unwrap();
    assert_eq!(id.bytes, Vec::<u8>::new());
    assert_eq!(id.to_text(), Some("aaaaa-aa".to_string()));
}

#[test]
fn anonymous_principal_is_byte_four() {
    let id = Identity::anonymous();
    assert_eq!(id.bytes, vec![4u8]);
    assert_eq!(id.to_text(), Some("2vxsx-fae".to_string()));
    assert_eq!(Identity::from_text("2vxsx-fae"), Ok(id));
}

#[test]
fn text_is_read_in_either_case_and_printed_in_lower_case() {
    let id = Identity::from_text("2VXSX-FAE").unwrap();
    assert_eq!(id.bytes, vec![4u8]);
    assert_eq!(id.to_text(), Some("2vxsx-fae".to_string()));
}

#[test]
fn a_principal_is_read_back_from_its_text() {
    let id = Identity { bytes: vec![0xef, 0xcd, 0xab, 0, 0, 0, 0, 0, 1] };
    let text = id.to_text().unwrap();
    assert_eq!(text, "2chl6-4hpzw-vqaaa-aaaaa-c");
    assert_eq!(Identity::from_text(&text), Ok(id));
}

#[test]
fn malformed_text_is_a_validation_error() {
    assert_eq!(Identity::from_text("not a principal"), Err(LotteryError::ValidationError));
    assert_eq!(Identity::from_text(""), Err(LotteryError::ValidationError));
    // A wrong check sum.
    assert_eq!(Identity::from_text("aaaaa-ab"), Err(LotteryError::ValidationError));
    // Dashes in the wrong places.
    assert_eq!(Identity::from_text("2vxsxfae"), Err(LotteryError::ValidationError));
}

#[test]
fn over_long_identity_has_no_text() {
    assert_eq!(MAX_IDENTITY_BYTES, 29);
    let id = Identity { bytes: vec![1u8; 30] };
    assert_eq!(id.to_text(), None);
    let id = Identity { bytes: vec![1u8; 29] };
    assert!(id.to_text().is_some());
    assert_eq!(Identity::from_text(&id.to_text().unwrap()), Ok(id));
}

#[test]
fn identities_compare_by_their_bytes() {
    let a = Identity { bytes: vec![1, 2] };
    assert!(a.same_as(&Identity { bytes: vec![1, 2] }));
    assert!(!a.same_as(&Identity { bytes: vec![1, 3] }));
    assert!(!a.same_as(&Identity { bytes: vec![1] }));
    assert!(!a.same_as(&Identity { bytes: vec![1, 2, 0] }));
    assert_eq!(a.clone(), a);
}

#[test]
fn accounts_of_an_identity() {
    let a = Identity { bytes: vec![1, 2] };
    assert_eq!(Account::main_of(&a), Account { owner: a.clone(), subaccount: None });
    assert_eq!(Account::deposit_of(&a), Account { owner: a.clone(), subaccount: Some(vec![1, 2]) });
    assert_eq!(Account::default(), Account { owner: Identity::anonymous(), subaccount: None });
    assert_eq!(Account::deposit_of(&a).clone(), Account::deposit_of(&a));
    assert_eq!(clone_bytes(&Some(vec![7, 8])), Some(vec![7, 8]));
    assert_eq!(clone_bytes(&None), None);
}
