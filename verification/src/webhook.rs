//! Webhook requests: who may trigger a deployment, and what is answered.

use vstd::prelude::*;
use vstd::utf8::encode_utf8;

use crate::digest::{
    decode_hex32, digests_match, hex_decoded, hex_of, hmac_of, hmac_sha256, law_hex_reads_back,
    sha256, sha256_of,
};
use crate::text::{
    begins, chars_of, law_split, law_split_undoes_joining, lemma_position, optional, position, split_at, split_once, strip_prefix,
};

verus! {

/// The headers that can carry the token, each absent when the request does
/// not have it or when it is not text.
pub struct Headers {
    /// `Authorization`
    pub authorization: Option<String>,
    /// `X-Gitlab-Token`
    pub gitlab_token: Option<String>,
    /// `X-Hub-Signature-256`
    pub hub_signature: Option<String>,
}

/// An ASCII capital as its small letter; any other character as it is.
pub open spec fn small(c: char) -> char {
    if 65 <= c as u32 <= 90 {
        (c as u32 + 32) as char
    } else {
        c
    }
}

/// Whether two texts are equal up to the case of ASCII letters.
pub open spec fn same_letters(a: Seq<char>, b: Seq<char>) -> bool {
    a.len() == b.len() && forall|i: int| 0 <= i < a.len() ==> small(#[trigger] a[i]) == small(b[i])
}

fn to_small(c: char) -> (r: char)
    ensures
        r == small(c),
{
    let u: u32 = c as u32;
    if 65 <= u && u <= 90 {
        let byte: u8 = (u as u8) + 32;
        byte as char
    } else {
        c
    }
}

/// `str::eq_ignore_ascii_case`.
fn equal_letters(a: &str, b: &str) -> (r: bool)
    ensures
        r == same_letters(a@, b@),
{
    let x: Vec<char> = chars_of(a);
    let y: Vec<char> = chars_of(b);
    if x.len() != y.len() {
        return false;
    }
    let mut i: usize = 0;
    while i < x.len()
        invariant
            x@ == a@,
            y@ == b@,
            i <= x.len(),
            x.len() == y.len(),
            forall|j: int| 0 <= j < i ==> small(#[trigger] x@[j]) == small(y@[j]),
        decreases x.len() - i,
    {
        if to_small(x[i]) != to_small(y[i]) {
            assert(small(a@[i as int]) != small(b@[i as int]));
            return false;
        }
        i = i + 1;
    }
    true
}

/// Whether what was presented has the digest of the token.
pub open spec fn presents(presented: Seq<char>, token: Seq<char>) -> bool {
    sha256_of(encode_utf8(presented))@ == sha256_of(encode_utf8(token))@
}

/// What an `Authorization` header presents: the rest behind the first space,
/// when the scheme before it is `bearer` in any case.
pub open spec fn bearer_of(value: Seq<char>) -> Option<Seq<char>> {
    match split_at(value, ' ') {
        Some((scheme, presented)) => if same_letters(scheme, "bearer"@) {
            Some(presented)
        } else {
            None
        },
        None => None,
    }
}

/// What an `Authorization` header presents as a bearer token.
pub fn bearer_token(value: &str) -> (r: Option<String>)
    ensures
        r is Some <==> bearer_of(value@) is Some,
        r matches Some(presented) ==> bearer_of(value@) == Some(presented@),
{
    if let Some(parts) = split_once(value, ' ') {
        if equal_letters(parts.0.as_str(), "bearer") {
            return Some(parts.1);
        }
    }
    None
}

/// The signature in an `X-Hub-Signature-256` header: sixty-four hexadecimal
/// digits behind `sha256=`.
pub open spec fn signature_of(value: Seq<char>) -> Option<Seq<u8>> {
    if begins(value, "sha256="@) {
        hex_decoded(encode_utf8(value.skip("sha256="@.len() as int)))
    } else {
        None
    }
}

/// The signature in an `X-Hub-Signature-256` header.
pub fn signature_bytes(value: &str) -> (r: Option<[u8; 32]>)
    ensures
        r is Some <==> signature_of(value@) is Some,
        r matches Some(bytes) ==> signature_of(value@) == Some(bytes@),
{
    match strip_prefix(value, "sha256=") {
        Some(hex) => decode_hex32(hex.as_str()),
        None => None,
    }
}

/// Whether an `Authorization` header bears the token.
pub open spec fn bears(value: Seq<char>, token: Seq<char>) -> bool {
    bearer_of(value) matches Some(presented) && presents(presented, token)
}

/// Whether a signature header holds the HMAC of the body under the token.
pub open spec fn signs(value: Seq<char>, body: Seq<u8>, token: Seq<char>) -> bool {
    signature_of(value) == Some(hmac_of(encode_utf8(token), body))
}

/// What a request presents beside what is expected of it.
pub struct Evidence {
    /// The digest of the configured token.
    pub expected: [u8; 32],
    /// The digest of the bearer token, if there is one.
    pub bearer: Option<[u8; 32]>,
    /// The digest of GitLab's token, if there is one.
    pub gitlab: Option<[u8; 32]>,
    /// GitHub's signature and the one that the body has under the token.
    pub signature: Option<([u8; 32], [u8; 32])>,
}

/// Whether any of the evidence matches what is expected.
pub fn convinces(evidence: &Evidence) -> (r: bool)
    ensures
        r == {
            ||| (evidence.bearer matches Some(digest) && digest@ == evidence.expected@)
            ||| (evidence.gitlab matches Some(digest) && digest@ == evidence.expected@)
            ||| (evidence.signature matches Some(pair) && pair.0@ == pair.1@)
        },
{
    if let Some(digest) = &evidence.bearer {
        if digests_match(digest, &evidence.expected) {
            return true;
        }
    }
    if let Some(digest) = &evidence.gitlab {
        if digests_match(digest, &evidence.expected) {
            return true;
        }
    }
    if let Some(pair) = &evidence.signature {
        if digests_match(&pair.0, &pair.1) {
            return true;
        }
    }
    false
}

/// Whether a request is let through: a token is configured, and one of the
/// three headers delivers it.
pub open spec fn accepted(headers: Headers, body: Seq<u8>, token: Option<Seq<char>>) -> bool {
    match token {
        Some(token) => {
            ||| (headers.authorization matches Some(value) && bears(value@, token))
            ||| (headers.gitlab_token matches Some(value) && presents(value@, token))
            ||| (headers.hub_signature matches Some(value) && signs(value@, body, token))
        },
        None => false,
    }
}

/// Whether a request may deploy. The token may come as a bearer header, as
/// GitLab's `X-Gitlab-Token`, or as GitHub's HMAC signature of the body.
/// Digests are compared rather than the texts themselves.
pub fn authorized(headers: &Headers, body: &[u8], token: Option<&str>) -> (r: bool)
    ensures
        r == accepted(*headers, body@, optional(token)),
{
    let token: &str = match token {
        Some(token) => token,
        None => {
            return false;
        },
    };
    let bearer: Option<[u8; 32]> = match &headers.authorization {
        Some(value) => match bearer_token(value.as_str()) {
            Some(presented) => Some(sha256(presented.as_str().as_bytes())),
            None => None,
        },
        None => None,
    };
    let gitlab: Option<[u8; 32]> = match &headers.gitlab_token {
        Some(value) => Some(sha256(value.as_str().as_bytes())),
        None => None,
    };
    let signature: Option<([u8; 32], [u8; 32])> = match &headers.hub_signature {
        Some(value) => match signature_bytes(value.as_str()) {
            Some(bytes) => Some((bytes, hmac_sha256(token.as_bytes(), body))),
            None => None,
        },
        None => None,
    };
    convinces(&Evidence { expected: sha256(token.as_bytes()), bearer, gitlab, signature })
}

/// What is sent back for a request.
pub struct Reply {
    /// The HTTP status.
    pub status: u16,
    /// The scheme that a `WWW-Authenticate` header asks for, if one is sent.
    pub challenge: Option<String>,
    /// The text of the body.
    pub body: String,
}

/// What becomes of a request.
pub enum Receipt {
    /// It is answered at once, and nothing is deployed.
    Refused(Reply),
    /// A deployment runs, and its outcome is answered.
    Deploys,
}

/// Decide on a request for a deployment.
pub fn receive(headers: &Headers, body: &[u8], token: Option<&str>) -> (r: Receipt)
    ensures
        r is Deploys <==> accepted(*headers, body@, optional(token)),
        r matches Receipt::Refused(reply) ==> {
            &&& reply.status == 401
            &&& reply.challenge matches Some(scheme) && scheme@ == "Bearer"@
            &&& reply.body@ == "unauthorized"@
        },
{
    if authorized(headers, body, token) {
        Receipt::Deploys
    } else {
        Receipt::Refused(
            Reply {
                status: 401,
                challenge: Some("Bearer".to_owned()),
                body: "unauthorized".to_owned(),
            },
        )
    }
}

/// Answer an accepted request with the outcome of its deployment.
pub fn answer(outcome: Result<(), String>) -> (r: Reply)
    ensures
        r.challenge is None,
        outcome is Ok ==> r.status == 200 && r.body@ == "deployed"@,
        outcome matches Err(error) ==> r.status == 500 && r.body == error,
{
    match outcome {
        Ok(()) => Reply { status: 200, challenge: None, body: "deployed".to_owned() },
        Err(error) => Reply { status: 500, challenge: None, body: error },
    }
}

/// Without a configured token every request is refused.
pub proof fn law_no_token_no_deployment(headers: Headers, body: Seq<u8>)
    ensures
        !accepted(headers, body, None),
{
}

/// A request without any of the three headers is refused.
pub proof fn law_bare_request_refused(headers: Headers, body: Seq<u8>, token: Option<Seq<char>>)
    requires
        headers.authorization is None,
        headers.gitlab_token is None,
        headers.hub_signature is None,
    ensures
        !accepted(headers, body, token),
{
}

/// A bearer header with the token in it is accepted, whatever the body and the
/// other headers are, and in whatever case the scheme is written.
pub proof fn law_bearer_token_accepted(
    headers: Headers,
    scheme: Seq<char>,
    body: Seq<u8>,
    token: Seq<char>,
)
    requires
        same_letters(scheme, "bearer"@),
        headers.authorization matches Some(value) && value@ == scheme + " "@ + token,
    ensures
        accepted(headers, body, Some(token)),
{
    reveal_strlit("bearer");
    reveal_strlit(" ");
    let value = scheme + " "@ + token;
    assert(value[scheme.len() as int] == ' ');
    assert(!scheme.contains(' ')) by {
        if scheme.contains(' ') {
            let i = choose|i: int| 0 <= i < scheme.len() && scheme[i] == ' ';
            assert(small(scheme[i]) == small("bearer"@[i]));
        }
    }
    lemma_position(value, ' ');
    let p = position(value, ' ');
    assert(value.contains(' '));
    if p < scheme.len() {
        assert(scheme[p] == ' ');
    }
    assert(p == scheme.len());
    assert(value.take(p) =~= scheme);
    assert(value.skip(p + 1) =~= token);
}

/// GitLab's header with the token in it is accepted.
pub proof fn law_gitlab_token_accepted(headers: Headers, body: Seq<u8>, token: Seq<char>)
    requires
        headers.gitlab_token matches Some(value) && value@ == token,
    ensures
        accepted(headers, body, Some(token)),
{
}

/// GitHub's signature header is accepted when it holds the HMAC of the body
/// under the token in hexadecimal.
pub proof fn law_signed_body_accepted(headers: Headers, body: Seq<u8>, token: Seq<char>)
    requires
        headers.hub_signature matches Some(value) && value@ == "sha256="@ + hex_of(
            hmac_of(encode_utf8(token), body),
        ),
    ensures
        accepted(headers, body, Some(token)),
{
    let mac = hmac_of(encode_utf8(token), body);
    let value = "sha256="@ + hex_of(mac);
    law_hex_reads_back(mac);
    assert(value.take("sha256="@.len() as int) =~= "sha256="@);
    assert(value.skip("sha256="@.len() as int) =~= hex_of(mac));
}

/// The scheme of a bearer header is the word `bearer`, each letter of it small or
/// capital.
pub proof fn law_bearer_scheme(scheme: Seq<char>)
    ensures
        same_letters(scheme, "bearer"@) <==> {
            &&& scheme.len() == 6
            &&& scheme[0] == 'b' || scheme[0] == 'B'
            &&& scheme[1] == 'e' || scheme[1] == 'E'
            &&& scheme[2] == 'a' || scheme[2] == 'A'
            &&& scheme[3] == 'r' || scheme[3] == 'R'
            &&& scheme[4] == 'e' || scheme[4] == 'E'
            &&& scheme[5] == 'r' || scheme[5] == 'R'
        },
{
    reveal_strlit("bearer");
    let word = "bearer"@;
    if scheme.len() == 6 {
        lemma_small(scheme[0], 'b', 'B');
        lemma_small(scheme[1], 'e', 'E');
        lemma_small(scheme[2], 'a', 'A');
        lemma_small(scheme[3], 'r', 'R');
        lemma_small(scheme[4], 'e', 'E');
        lemma_small(scheme[5], 'r', 'R');
        assert(word[0] == 'b' && word[1] == 'e' && word[2] == 'a');
        assert(word[3] == 'r' && word[4] == 'e' && word[5] == 'r');
    }
    if same_letters(scheme, word) {
        assert(small(scheme[0]) == small(word[0]));
        assert(small(scheme[1]) == small(word[1]));
        assert(small(scheme[2]) == small(word[2]));
        assert(small(scheme[3]) == small(word[3]));
        assert(small(scheme[4]) == small(word[4]));
        assert(small(scheme[5]) == small(word[5]));
    }
}

proof fn lemma_small(c: char, letter: char, capital: char)
    requires
        97 <= letter as u32 <= 122,
        capital as u32 + 32 == letter as u32,
    ensures
        small(c) == small(letter) <==> c == letter || c == capital,
{
}

/// A request is let through exactly when the token is configured and delivered:
/// behind a bearer scheme and the first space, or in GitLab's header, by its
/// digest; or in GitHub's header, by the hexadecimal text of the HMAC of the body
/// under it. The headers are looked at each for itself.
pub proof fn law_what_is_let_through(headers: Headers, body: Seq<u8>, token: Seq<char>)
    ensures
        accepted(headers, body, Some(token)) <==> {
            ||| headers.authorization is Some && exists|scheme: Seq<char>, presented: Seq<char>|
                {
                    &&& headers.authorization->0@ == #[trigger] (scheme + seq![' '] + presented)
                    &&& !scheme.contains(' ')
                    &&& same_letters(scheme, "bearer"@)
                    &&& sha256_of(encode_utf8(presented))@ == sha256_of(encode_utf8(token))@
                }
            ||| headers.gitlab_token is Some && sha256_of(
                encode_utf8(headers.gitlab_token->0@),
            )@ == sha256_of(encode_utf8(token))@
            ||| headers.hub_signature is Some && exists|hex: Seq<char>|
                {
                    &&& headers.hub_signature->0@ == #[trigger] ("sha256="@ + hex)
                    &&& hex_decoded(encode_utf8(hex)) == Some(hmac_of(encode_utf8(token), body))
                }
        },
{
    if let Some(header) = headers.authorization {
        let value = header@;
        law_split(value, ' ');
        if bears(value, token) {
            let (scheme, presented) = split_at(value, ' ')->0;
            assert(value == scheme + seq![' '] + presented);
        }
        assert forall|scheme: Seq<char>, presented: Seq<char>|
            {
                &&& value == #[trigger] (scheme + seq![' '] + presented)
                &&& !scheme.contains(' ')
                &&& same_letters(scheme, "bearer"@)
                &&& sha256_of(encode_utf8(presented))@ == sha256_of(encode_utf8(token))@
            } implies bears(value, token) by {
            law_split_undoes_joining(scheme, ' ', presented);
        }
    }
    if let Some(header) = headers.hub_signature {
        let value = header@;
        let n = "sha256="@.len() as int;
        if signs(value, body, token) {
            assert(value =~= "sha256="@ + value.skip(n));
        }
        assert forall|hex: Seq<char>|
            {
                &&& value == #[trigger] ("sha256="@ + hex)
                &&& hex_decoded(encode_utf8(hex)) == Some(hmac_of(encode_utf8(token), body))
            } implies signs(value, body, token) by {
            assert(value.take(n) =~= "sha256="@);
            assert(value.skip(n) =~= hex);
        }
    }
}

/// A request that is not let through is answered as unauthorized and deploys
/// nothing; one that is let through deploys.
pub proof fn law_refusal_is_unauthorized(
    headers: &Headers,
    body: &[u8],
    token: Option<&str>,
    receipt: Receipt,
)
    requires
        call_ensures(receive, (headers, body, token), receipt),
    ensures
        receipt is Deploys <==> accepted(*headers, body@, optional(token)),
        token is None ==> receipt is Refused,
        receipt matches Receipt::Refused(reply) ==> reply.status == 401 && reply.challenge is Some,
{
}

/// The answer tells the outcome: success with 200, and a failure with 500 and the
/// error.
pub proof fn law_answer_tells_the_outcome(outcome: Result<(), String>, reply: Reply)
    requires
        call_ensures(answer, (outcome,), reply),
    ensures
        reply.status == 200 <==> outcome is Ok,
        reply.status == 500 <==> outcome is Err,
        outcome matches Err(error) ==> reply.body@ == error@,
        reply.challenge is None,
{
}

/// A capital of ASCII is taken for its small letter, thirty-two places behind it,
/// and every other character for itself.
pub proof fn law_small(c: char)
    ensures
        0x41 <= c as u32 <= 0x5a ==> small(c) as u32 == c as u32 + 0x20,
        (c as u32) < 0x41 || c as u32 > 0x5a ==> small(c) == c,
{
}

/// One match is enough: evidence convinces exactly when the bearer token, GitLab's
/// token or GitHub's signature matches.
pub proof fn law_what_convinces(evidence: &Evidence, convinced: bool)
    requires
        call_ensures(convinces, (evidence,), convinced),
    ensures
        evidence.bearer is Some && evidence.bearer->0@ == evidence.expected@ ==> convinced,
        evidence.gitlab is Some && evidence.gitlab->0@ == evidence.expected@ ==> convinced,
        evidence.signature matches Some(pair) ==> (pair.0@ == pair.1@ ==> convinced),
        convinced ==> evidence.bearer is Some || evidence.gitlab is Some || evidence.signature
            is Some,
        convinced && evidence.gitlab is None && evidence.signature is None ==> evidence.bearer->0@
            == evidence.expected@,
        convinced && evidence.bearer is None && evidence.signature is None ==> evidence.gitlab->0@
            == evidence.expected@,
        convinced && evidence.bearer is None && evidence.gitlab is None ==> (
        evidence.signature matches Some(pair) && pair.0@ == pair.1@),
{
}

} // verus!
