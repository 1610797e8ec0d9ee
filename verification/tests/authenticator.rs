use boatctl::authenticator::{
    decimal_text, judge_decoded, judge_pair, Credentials, CredentialsError, CredentialsJson,
};

const SECRET: &str = "lhs_tvq3dhpp7vngbouejl2jf3bmyrcetrljpmzgsglqhowaghfop5qa";
const ACCESS: &str = "lha_25njqamcweflpvkl73j4szahhihoc4xt3ktcgjnpaingr5yhkena";

fn keys(access_key: &str, secret_key: &str) -> CredentialsJson {
    CredentialsJson { access_key: access_key.to_string(), secret_key: secret_key.to_string() }
}

fn refused(access_key: &str, secret_key: &str) -> CredentialsError {
    match Credentials::init(&keys(access_key, secret_key)) {
        Ok(_) => panic!("the keys were accepted"),
        Err(e) => e,
    }
}

#[test]
fn a_matching_pair_of_keys_is_accepted() {
    assert!(Credentials::init(&keys(ACCESS, SECRET)).is_ok());
}

#[test]
fn each_way_to_get_the_keys_wrong_has_its_error() {
    assert_eq!(refused("25njqamc", SECRET), CredentialsError::InvalidAccessKeyFormat);
    assert_eq!(refused("lha_", SECRET), CredentialsError::InvalidAccessKeyFormat);
    assert_eq!(refused("lha_ABC", SECRET), CredentialsError::InvalidAccessKeyFormat);
    assert_eq!(refused(ACCESS, "lha_abc"), CredentialsError::InvalidSecretKeyFormat);
    assert_eq!(refused(ACCESS, ""), CredentialsError::InvalidSecretKeyFormat);
    assert_eq!(refused("lha_0189", SECRET), CredentialsError::UndecodableAccessKey);
    assert_eq!(refused(ACCESS, "lhs_0189"), CredentialsError::UndecodableSecretKey);
    assert_eq!(
        refused("lha_25njqamcweflpvkl73j4szahhihoc4xt3ktcgjnpaingr5yh", SECRET),
        CredentialsError::InvalidAccessKeyLength
    );
    assert_eq!(
        refused(ACCESS, "lhs_tvq3dhpp7vngbouejl2jf3bmyrcetrljpmzgsglqhowaghfo"),
        CredentialsError::InvalidSecretKeyLength
    );
    assert_eq!(
        refused("lha_tvq3dhpp7vngbouejl2jf3bmyrcetrljpmzgsglqhowaghfop5qa", SECRET),
        CredentialsError::KeyMismatch
    );
}

#[test]
fn the_access_key_is_checked_before_the_secret_key() {
    assert_eq!(refused("nope", "nope"), CredentialsError::InvalidAccessKeyFormat);
    assert_eq!(refused("lha_0189", "lhs_0189"), CredentialsError::UndecodableAccessKey);
    assert_eq!(
        refused(
            "lha_25njqamcweflpvkl73j4szahhihoc4xt3ktcgjnpaingr5yh",
            "lhs_tvq3dhpp7vngbouejl2jf3bmyrcetrljpmzgsglqhowaghfo"
        ),
        CredentialsError::InvalidAccessKeyLength
    );
}

#[test]
fn every_error_says_what_is_wrong() {
    assert_eq!(CredentialsError::InvalidAccessKeyFormat.message(), "invalid access key format");
    assert_eq!(CredentialsError::InvalidSecretKeyFormat.message(), "invalid secret key format");
    assert_eq!(CredentialsError::UndecodableAccessKey.message(), "invalid access key encoding");
    assert_eq!(CredentialsError::UndecodableSecretKey.message(), "invalid secret key encoding");
    assert_eq!(CredentialsError::InvalidAccessKeyLength.message(), "invalid access key length");
    assert_eq!(CredentialsError::InvalidSecretKeyLength.message(), "invalid secret key length");
    assert_eq!(CredentialsError::KeyMismatch.message(), "secret key does not match access key");
}

#[test]
fn a_request_time_is_signed_with_the_secret_key() {
    let creds = Credentials::init(&keys(ACCESS, SECRET)).ok().unwrap();
    assert_eq!(
        creds.sign(1700000000),
        "jmhpNJKc84Ur/KyEh5aZOeiOCL4dH3s1KuGWbzDvGeBVAaQ09Xg0hpNOfgw9oAnymx2PRMVIeXnzN/uLVjd2Dg=="
    );
    assert_eq!(
        creds.sign(0),
        "NU0QAcOMssyhrs1Is+I5NqYL4DBAE5qBmNm65F7tk34w/8gvtMGCUmCthYogCOw/Td0U+1apHRTe1iY7Su5SCg=="
    );
}

#[test]
fn a_signature_verifies_under_the_public_key() {
    let creds = Credentials::init(&keys(ACCESS, SECRET)).ok().unwrap();
    let signature = data_encoding::BASE64.decode(creds.sign(42).as_bytes()).unwrap();
    let public = data_encoding::BASE32_NOPAD.decode(ACCESS[4..].to_uppercase().as_bytes()).unwrap();
    let public = ed25519_dalek::PublicKey::from_bytes(&public).unwrap();
    let signature = ed25519_dalek::Signature::from_bytes(&signature).unwrap();
    assert!(ed25519_dalek::Verifier::verify(&public, b"request:42", &signature).is_ok());
    assert!(ed25519_dalek::Verifier::verify(&public, b"request:43", &signature).is_err());
}

#[test]
fn a_request_gets_the_key_the_time_and_the_signature() {
    let creds = Credentials::init(&keys(ACCESS, SECRET)).ok().unwrap();
    let headers = creds.annotate_request(1700000000);
    assert_eq!(
        headers,
        vec![
            ("x-lighthouse-access-key".to_string(), ACCESS.to_string()),
            ("x-lighthouse-request-time".to_string(), "1700000000".to_string()),
            (
                "x-lighthouse-request-signature".to_string(),
                "jmhpNJKc84Ur/KyEh5aZOeiOCL4dH3s1KuGWbzDvGeBVAaQ09Xg0hpNOfgw9oAnymx2PRMVIeXnzN/uLVjd2Dg=="
                    .to_string()
            ),
        ]
    );
}

#[test]
fn numbers_are_written_in_decimal() {
    assert_eq!(decimal_text(0), "0");
    assert_eq!(decimal_text(7), "7");
    assert_eq!(decimal_text(10), "10");
    assert_eq!(decimal_text(1234567890), "1234567890");
    assert_eq!(decimal_text(u64::MAX), "18446744073709551615");
}

#[test]
fn decoded_keys_are_judged_by_presence_and_then_by_length() {
    let full = || Some(vec![7u8; 32]);
    let short = || Some(vec![7u8; 31]);
    let long = || Some(vec![7u8; 33]);
    assert_eq!(judge_decoded(full(), Some(vec![8u8; 32])), Ok((vec![7u8; 32], vec![8u8; 32])));
    assert_eq!(judge_decoded(None, None), Err(CredentialsError::UndecodableAccessKey));
    assert_eq!(judge_decoded(None, full()), Err(CredentialsError::UndecodableAccessKey));
    assert_eq!(judge_decoded(short(), None), Err(CredentialsError::UndecodableSecretKey));
    assert_eq!(judge_decoded(short(), long()), Err(CredentialsError::InvalidAccessKeyLength));
    assert_eq!(judge_decoded(long(), full()), Err(CredentialsError::InvalidAccessKeyLength));
    assert_eq!(judge_decoded(full(), short()), Err(CredentialsError::InvalidSecretKeyLength));
    assert_eq!(judge_decoded(full(), long()), Err(CredentialsError::InvalidSecretKeyLength));
    assert_eq!(judge_pair(&vec![1, 2, 3], &vec![1, 2, 3]), Ok(()));
    assert_eq!(judge_pair(&vec![1, 2, 3], &vec![1, 2, 4]), Err(CredentialsError::KeyMismatch));
    assert_eq!(judge_pair(&vec![1, 2, 3], &vec![1, 2]), Err(CredentialsError::KeyMismatch));
    assert_eq!(judge_pair(&vec![], &vec![]), Ok(()));
}
