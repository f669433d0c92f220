use sshwarden::request_parser::{
    operation_kind_from_namespace, parse_request, OperationKind, RequestError,
    SshAgentSignRequest,
};

#[test]
fn empty_payload_is_plain_sign_request() {
    assert!(matches!(
        parse_request(&[]).expect("empty payload should not error"),
        SshAgentSignRequest::SignRequest(_)
    ));
}

#[test]
fn short_payloads_below_magic_len_never_panic() {
    for len in 0.."SSHSIG".len() {
        let data = vec![b'S'; len];
        assert!(matches!(
            parse_request(&data).expect("short payload should not error"),
            SshAgentSignRequest::SignRequest(_)
        ));
    }
}

#[test]
fn sshsig_magic_without_version_returns_err_not_panic() {
    for trailing in 0..4usize {
        let mut data = b"SSHSIG".to_vec();
        data.extend(std::iter::repeat_n(0u8, trailing));
        assert!(
            parse_request(&data).is_err(),
            "truncated SSHSIG (trailing={trailing}) should error, not panic"
        );
    }
}

#[test]
fn well_formed_sshsig_parses_namespace() {
    let mut data = b"SSHSIG".to_vec();
    data.extend_from_slice(&1u32.to_be_bytes());
    data.extend_from_slice(b"git\0rest");
    match parse_request(&data).expect("well-formed SSHSIG should parse") {
        SshAgentSignRequest::SshSigRequest(req) => assert_eq!(req.namespace, "git"),
        other => panic!("expected SshSigRequest, got {other:?}"),
    }
}

#[test]
fn non_sshsig_payload_is_plain_sign_request() {
    assert!(matches!(
        parse_request(b"not-a-sshsig-blob-just-raw-bytes")
            .expect("non-SSHSIG payload should not error"),
        SshAgentSignRequest::SignRequest(_)
    ));
}

#[test]
fn namespaces_select_operation_kinds() {
    assert_eq!(operation_kind_from_namespace("git"), OperationKind::GitSigning);
    assert_eq!(operation_kind_from_namespace("other"), OperationKind::SshSignature);
    assert_eq!(OperationKind::GitSigning.as_str(), "git_signing");
    let mut data = b"SSHSIG".to_vec();
    data.extend_from_slice(&1u32.to_be_bytes());
    data.extend_from_slice(&[0xff, 0xfe, 0]);
    assert!(matches!(parse_request(&data), Err(RequestError::InvalidNamespace)));
    assert_eq!(RequestError::TruncatedVersion.message(), "Truncated SSHSIG request: missing version");
}
