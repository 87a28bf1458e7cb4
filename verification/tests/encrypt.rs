use rummy::encrypt::{
    generate_aes_key, generate_random_nonce, generate_rsa_key_pair, AuthBody, AuthType,
};

#[test]
fn auth_type_bytes_round_trip() {
    for (t, b) in [
        (AuthType::ClientHello, 0u8),
        (AuthType::ServerHello, 1),
        (AuthType::ClientAck, 2),
        (AuthType::ServerAck, 3),
    ] {
        assert_eq!(t.to_u8(), b);
        assert_eq!(AuthType::from_u8(b), Some(t));
    }
    assert_eq!(AuthType::from_u8(4), None);
    assert_eq!(AuthType::from_u8(200), None);
}

#[test]
fn auth_body_encodes_role_then_data() {
    let body = AuthBody::new(AuthType::ServerHello, vec![9, 8, 7]);
    assert_eq!(body.to_u8(), vec![1, 9, 8, 7]);
}

#[test]
fn auth_body_bytes_round_trip() {
    let encoded = vec![2u8, 5, 6];
    let body = AuthBody::from_u8(&encoded).expect("valid body must decode");
    assert_eq!(body.to_u8(), encoded);
}

#[test]
fn auth_body_rejects_empty_and_unknown_role() {
    assert!(AuthBody::from_u8(&[]).is_none());
    assert!(AuthBody::from_u8(&[4, 1, 2]).is_none());
}

#[test]
fn auth_body_with_no_data_round_trips() {
    let body = AuthBody::from_u8(&[3]).expect("bare role byte must decode");
    assert_eq!(body.to_u8(), vec![3]);
}

#[test]
fn generated_material_has_documented_lengths() {
    assert_eq!(generate_random_nonce().len(), 12);
    let (secret, public) = generate_rsa_key_pair();
    assert_eq!(secret.len(), 256);
    assert_eq!(public.len(), 256);
    assert_eq!(generate_aes_key().len(), 32);
}

#[test]
fn generated_material_is_not_constant() {
    // 256 random bytes colliding twice is beyond chance; a stuck generator
    // is not.
    let (secret1, _) = generate_rsa_key_pair();
    let (secret2, _) = generate_rsa_key_pair();
    assert_ne!(secret1, secret2);
}
