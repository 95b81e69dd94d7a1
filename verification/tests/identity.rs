use screenshare::identity::{
    cert_fingerprint, certificate_chain, certificate_names, check_fingerprint, client_config,
    fingerprint_text, self_signed_cert, server_config, server_config_from, server_config_with,
    FingerprintVerifier, IdentityError,
};
use screenshare::transport::SenderEndpoint;

#[test]
fn fingerprint_is_sha256_in_hexadecimal() {
    assert_eq!(
        cert_fingerprint(b"abc"),
        "ba7816bf8f01cfea414140de5dae2223b00361a396177a9cb410ff61f20015ad"
    );
    assert_eq!(
        cert_fingerprint(b""),
        "e3b0c44298fc1c149afbf4c8996fb92427ae41e4649b934ca495991b7852b855"
    );
}

#[test]
fn digests_are_written_high_half_first() {
    assert_eq!(fingerprint_text(&[0x00, 0x0f, 0xf0, 0xa1, 0xff]), "000ff0a1ff");
    assert_eq!(fingerprint_text(&[]), "");
}

#[test]
fn host_certificates_are_made_for_localhost() {
    assert_eq!(certificate_names(), vec!["localhost".to_string()]);
    let (certs, key) = self_signed_cert().unwrap();
    assert_eq!(certs.len(), 1);
    assert!(certs[0].windows(11).any(|part| part == b"\x82\x09localhost"));
    let public_key = &key[key.len() - 65..];
    assert!(certs[0].windows(65).any(|part| part == public_key));
    let (others, _) = self_signed_cert().unwrap();
    assert_ne!(certs, others);
}

#[test]
fn generated_certificate_is_the_whole_chain() {
    let made = certificate_chain(Ok((b"cert".to_vec(), b"key".to_vec())));
    assert_eq!(made, Ok((vec![b"cert".to_vec()], b"key".to_vec())));
}

#[test]
fn missing_certificate_stops_the_endpoint() {
    let chain = certificate_chain(Err(rcgen::Error::KeyGenerationUnavailable));
    assert_eq!(chain, Err(IdentityError::Certificate));
    let made = server_config_from(chain);
    assert!(matches!(made, Err(IdentityError::Certificate)));
    assert!(matches!(SenderEndpoint::from_config(made), Err(IdentityError::Certificate)));
}

#[test]
fn endpoint_keeps_its_configuration() {
    let made = server_config_from(Ok((vec![b"abc".to_vec()], b"key".to_vec())));
    let endpoint = SenderEndpoint::from_config(made).ok().unwrap();
    assert_eq!(endpoint.config.certs, vec![b"abc".to_vec()]);
    assert_eq!(endpoint.config.key, b"key".to_vec());
    assert_eq!(endpoint.config.alpn_protocols, vec![b"screenshare".to_vec()]);
    assert_eq!(endpoint.fingerprint, cert_fingerprint(b"abc"));
}

#[test]
fn host_announces_the_certificate_it_presents() {
    let (config, announced) = server_config().unwrap();
    assert_eq!(announced, cert_fingerprint(&config.certs[0]));
    assert_eq!(config.alpn_protocols, vec![b"screenshare".to_vec()]);
    let endpoint = SenderEndpoint::bind().unwrap();
    assert_eq!(endpoint.fingerprint, cert_fingerprint(&endpoint.config.certs[0]));
    assert_eq!(endpoint.fingerprint.len(), 64);
}

#[test]
fn given_certificates_are_used_as_they_are() {
    let (config, announced) = server_config_with(vec![b"abc".to_vec(), b"x".to_vec()], b"key".to_vec());
    assert_eq!(config.certs, vec![b"abc".to_vec(), b"x".to_vec()]);
    assert_eq!(config.key, b"key".to_vec());
    assert_eq!(announced, cert_fingerprint(b"abc"));
}

#[test]
fn viewer_accepts_the_announced_host_only() {
    let host = SenderEndpoint::bind().unwrap();
    let other = SenderEndpoint::bind().unwrap();
    let config = client_config(host.fingerprint.clone());
    assert_eq!(config.alpn_protocols, host.config.alpn_protocols);
    assert_eq!(config.verifier.verify_server_cert(&host.config.certs[0]), Ok(()));
    assert!(config.verifier.verify_server_cert(&other.config.certs[0]).is_err());
}

#[test]
fn refusal_names_both_fingerprints() {
    let verifier = FingerprintVerifier { expected_fingerprint: "00ff".to_string() };
    assert_eq!(
        verifier.verify_server_cert(b"abc"),
        Err("fingerprint do certificado nao confere: esperado 00ff, recebido \
             ba7816bf8f01cfea414140de5dae2223b00361a396177a9cb410ff61f20015ad"
            .to_string())
    );
}

#[test]
fn fingerprints_are_compared_as_text() {
    let upper = "AB".to_string();
    let lower = "ab".to_string();
    assert_eq!(check_fingerprint(&lower, &lower), Ok(()));
    assert_eq!(
        check_fingerprint(&upper, &lower),
        Err("fingerprint do certificado nao confere: esperado AB, recebido ab".to_string())
    );
}

#[test]
fn identity_error_has_its_text() {
    assert_eq!(IdentityError::Certificate.message(), "gerar certificado self-signed");
}
