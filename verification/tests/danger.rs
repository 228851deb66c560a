use chat_hub::danger::NoCertificateVerification;

#[test]
fn every_certificate_is_accepted() {
    let judge = NoCertificateVerification;
    assert!(judge.verify_server_cert(&[], &vec![], "localhost", &[]));
    assert!(judge.verify_server_cert(&[0x30, 0x82], &vec![vec![1, 2, 3]], "example.org", &[9]));
    assert!(judge.verify_server_cert(&[0xff; 16], &vec![], "", &[]));
}
