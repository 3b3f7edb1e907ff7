use tinycd::digest::{decode_hex32, fill, hmac_sha256, pad};
use tinycd::webhook::{
    answer, authorized, bearer_token, convinces, receive, signature_bytes, Evidence, Headers,
    Receipt,
};

const TOKEN: &str = "0123456789abcdef0123456789abcdef";

fn bare() -> Headers {
    Headers {
        authorization: None,
        gitlab_token: None,
        hub_signature: None,
    }
}

fn hex(bytes: &[u8]) -> String {
    bytes.iter().map(|byte| format!("{byte:02x}")).collect()
}

#[test]
fn bearer_header_lets_a_request_through() {
    for scheme in ["Bearer", "bearer", "BEARER", "bEaReR"] {
        let mut headers = bare();
        headers.authorization = Some(format!("{scheme} {TOKEN}"));
        assert!(authorized(&headers, b"", Some(TOKEN)));
        assert!(!authorized(&headers, b"", Some("another token of enough length!!")));
        assert!(!authorized(&headers, b"", None));
    }
    for value in [
        "Basic 0123456789abcdef0123456789abcdef",
        "0123456789abcdef0123456789abcdef",
        "Bearer  0123456789abcdef0123456789abcdef",
        "Bearer",
    ] {
        let mut headers = bare();
        headers.authorization = Some(value.to_owned());
        assert!(!authorized(&headers, b"", Some(TOKEN)));
    }
}

#[test]
fn what_a_bearer_header_presents() {
    assert_eq!(bearer_token("Bearer a b").as_deref(), Some("a b"));
    assert_eq!(bearer_token("Bearer ").as_deref(), Some(""));
    assert_eq!(bearer_token("Token a"), None);
}

#[test]
fn gitlab_header_lets_a_request_through() {
    let mut headers = bare();
    headers.gitlab_token = Some(TOKEN.to_owned());
    assert!(authorized(&headers, b"{}", Some(TOKEN)));
    headers.gitlab_token = Some(format!("{TOKEN} "));
    assert!(!authorized(&headers, b"{}", Some(TOKEN)));
}

#[test]
fn github_signature_lets_a_request_through() {
    let body = b"{\"ref\":\"refs/heads/main\"}";
    let signature = hex(&hmac_sha256(TOKEN.as_bytes(), body));
    let mut headers = bare();
    headers.hub_signature = Some(format!("sha256={signature}"));
    assert!(authorized(&headers, body, Some(TOKEN)));
    assert!(!authorized(&headers, b"{}", Some(TOKEN)));
    headers.hub_signature = Some(format!("sha256={}", signature.to_uppercase()));
    assert!(authorized(&headers, body, Some(TOKEN)));
    headers.hub_signature = Some(format!("sha1={signature}"));
    assert!(!authorized(&headers, body, Some(TOKEN)));
    headers.hub_signature = Some(signature);
    assert!(!authorized(&headers, body, Some(TOKEN)));
}

#[test]
fn the_signature_in_a_header() {
    assert_eq!(
        signature_bytes(&format!("sha256={}", "0f".repeat(32))),
        Some([0x0f; 32])
    );
    assert_eq!(signature_bytes(&"0f".repeat(32)), None);
    assert_eq!(signature_bytes("sha256=0f"), None);
}

#[test]
fn known_answer_of_the_hmac() {
    assert_eq!(
        hex(&hmac_sha256(&[0x0b; 20], b"Hi There")),
        "b0344c61d8db38535ca8afceaf0bf12b881dc200c9833da726e9376c2e32cff7"
    );
    assert_eq!(
        hex(&hmac_sha256(b"Jefe", b"what do ya want for nothing?")),
        "5bdcc146bf60754e6a042426089575c75a003f089d2739839dec58b964ec3843"
    );
    assert_eq!(
        hex(&hmac_sha256(
            &[0xaa; 131],
            b"Test Using Larger Than Block-Size Key - Hash Key First"
        )),
        "60e431591ee0b67f0d8a26aacbf5b77f8e0bc6213728c5140546040f0ee37f54"
    );
}

#[test]
fn a_key_is_filled_and_padded() {
    let block = fill(&[1, 2, 3]);
    assert_eq!(block.len(), 64);
    assert_eq!(block[..4], [1, 2, 3, 0]);
    assert_eq!(pad(&block, 0x36)[..4], [0x37, 0x34, 0x35, 0x36]);
}

#[test]
fn digests_in_hexadecimal() {
    assert_eq!(decode_hex32(&"00".repeat(32)), Some([0; 32]));
    assert_eq!(decode_hex32(&"Ff".repeat(32)), Some([255; 32]));
    assert_eq!(decode_hex32(&"0".repeat(63)), None);
    assert_eq!(decode_hex32(&"0g".repeat(32)), None);
    assert_eq!(decode_hex32(&"0\u{e9}".repeat(16)), None);
    let bytes = hmac_sha256(b"k", b"m");
    assert_eq!(decode_hex32(&hex(&bytes)), Some(bytes));
}

#[test]
fn evidence_is_compared() {
    let mut evidence = Evidence {
        expected: [1; 32],
        bearer: None,
        gitlab: None,
        signature: None,
    };
    assert!(!convinces(&evidence));
    evidence.bearer = Some([2; 32]);
    assert!(!convinces(&evidence));
    evidence.gitlab = Some([1; 32]);
    assert!(convinces(&evidence));
    evidence.gitlab = None;
    evidence.signature = Some(([3; 32], [3; 32]));
    assert!(convinces(&evidence));
    let mut other = [3; 32];
    other[31] = 4;
    evidence.signature = Some(([3; 32], other));
    assert!(!convinces(&evidence));
    evidence.bearer = Some([1; 32]);
    assert!(convinces(&evidence));
}

#[test]
fn a_refused_request_is_told_how_to_ask() {
    match receive(&bare(), b"", Some(TOKEN)) {
        Receipt::Deploys => panic!("let through"),
        Receipt::Refused(reply) => {
            assert_eq!(reply.status, 401);
            assert_eq!(reply.challenge.as_deref(), Some("Bearer"));
            assert_eq!(reply.body, "unauthorized");
        }
    }
    let mut headers = bare();
    headers.gitlab_token = Some(TOKEN.to_owned());
    assert!(matches!(
        receive(&headers, b"", Some(TOKEN)),
        Receipt::Deploys
    ));
}

#[test]
fn an_accepted_request_is_answered_with_the_outcome() {
    let reply = answer(Ok(()));
    assert_eq!((reply.status, reply.body.as_str()), (200, "deployed"));
    assert_eq!(reply.challenge, None);
    let reply = answer(Err("sync command exited with 1".to_owned()));
    assert_eq!(
        (reply.status, reply.body.as_str()),
        (500, "sync command exited with 1")
    );
}
