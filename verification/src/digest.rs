//! HTTP-digest (MD5) authentication for REGISTER and INVITE challenges,
//! per RFC 2617 as SIP reuses it: no `qop`, no `opaque`, algorithm MD5.

use vstd::prelude::*;
use md5::Digest;
use crate::ascii::{ascii_bytes, bytes_eq, slice_range, str_bytes, subvec};
use crate::config::Config;
use crate::errors::SipError;
use crate::message::{
    get_cseq, headers_of, hdr, method_name, spec_cseq, with_headers, HeaderView, Method,
    SipMessage,
};

verus! {

/// The MD5 digest of a byte string. The algorithm itself is not spelled
/// out here; the name stands for whatever the real implementation
/// computes, which depends on the input alone.
pub uninterp spec fn md5_of(data: Seq<u8>) -> Seq<u8>;

/// Relies on `md5::Md5` (RustCrypto): the digest is a function of the
/// input bytes alone and is sixteen bytes long.
#[verifier::external_body]
fn md5_raw(data: &[u8]) -> (r: Vec<u8>)
    ensures
        r@ == md5_of(data@),
        r@.len() == 16,
{
    let mut hasher = md5::Md5::new();
    hasher.update(data);
    hasher.finalize().to_vec()
}

/// The lowercase hex digit for `n`.
pub open spec fn hex_digit(n: int) -> u8 {
    if n < 10 {
        (48 + n) as u8
    } else {
        (87 + n) as u8
    }
}

/// Lowercase hex expansion of a byte string, two digits per byte.
pub open spec fn hex_of(s: Seq<u8>) -> Seq<u8>
    decreases s.len(),
{
    if s.len() == 0 {
        Seq::empty()
    } else {
        hex_of(s.drop_last()) + seq![
            hex_digit(s.last() as int / 16),
            hex_digit(s.last() as int % 16),
        ]
    }
}

fn hex_digit_exec(n: u8) -> (r: u8)
    requires
        n < 16,
    ensures
        r == hex_digit(n as int),
{
    if n < 10 {
        48 + n
    } else {
        87 + n
    }
}

/// Formats a byte string in lowercase hex.
pub fn to_hex(s: &[u8]) -> (r: Vec<u8>)
    ensures
        r@ == hex_of(s@),
{
    let n = s.len();
    let mut out: Vec<u8> = Vec::new();
    let mut i: usize = 0;
    while i < n
        invariant
            n == s@.len(),
            0 <= i <= n,
            out@ == hex_of(s@.take(i as int)),
        decreases n - i,
    {
        let b = s[i];
        out.push(hex_digit_exec(b / 16));
        out.push(hex_digit_exec(b % 16));
        proof {
            assert(s@.take(i + 1).drop_last() =~= s@.take(i as int));
            assert(s@.take(i + 1).last() == s@[i as int]);
            assert(out@ =~= hex_of(s@.take(i + 1)));
        }
        i += 1;
    }
    proof {
        assert(s@.take(n as int) =~= s@);
    }
    out
}

/// The lowercase hex MD5 of a byte string, as SIP digest auth uses it.
pub open spec fn md5_hex_of(data: Seq<u8>) -> Seq<u8> {
    hex_of(md5_of(data))
}

/// Computes the lowercase hex MD5 of a byte string.
pub fn md5_hex(data: &[u8]) -> (r: Vec<u8>)
    ensures
        r@ == md5_hex_of(data@),
{
    let raw = md5_raw(data);
    to_hex(raw.as_slice())
}

/// A single colon, the separator of every digest input.
pub open spec fn colon() -> Seq<u8> {
    seq![58u8]
}

/// The digest response:
/// `MD5( MD5(user:realm:password) : nonce : MD5(method:uri) )`,
/// every digest in lowercase hex.
pub open spec fn digest_response_of(
    username: Seq<u8>,
    realm: Seq<u8>,
    password: Seq<u8>,
    nonce: Seq<u8>,
    method: Seq<u8>,
    uri: Seq<u8>,
) -> Seq<u8> {
    md5_hex_of(
        md5_hex_of(username + colon() + realm + colon() + password) + colon() + nonce + colon()
            + md5_hex_of(method + colon() + uri),
    )
}

/// Computes the digest response for a challenge.
pub fn digest_response(
    username: &[u8],
    realm: &[u8],
    password: &[u8],
    nonce: &[u8],
    method: &[u8],
    uri: &[u8],
) -> (r: Vec<u8>)
    ensures
        r@ == digest_response_of(username@, realm@, password@, nonce@, method@, uri@),
{
    let mut a1: Vec<u8> = Vec::new();
    a1.extend_from_slice(username);
    a1.push(58);
    a1.extend_from_slice(realm);
    a1.push(58);
    a1.extend_from_slice(password);
    assert(a1@ =~= username@ + colon() + realm@ + colon() + password@);
    let ha1 = md5_hex(a1.as_slice());

    let mut a2: Vec<u8> = Vec::new();
    a2.extend_from_slice(method);
    a2.push(58);
    a2.extend_from_slice(uri);
    assert(a2@ =~= method@ + colon() + uri@);
    let ha2 = md5_hex(a2.as_slice());

    let mut whole: Vec<u8> = Vec::new();
    whole.extend_from_slice(ha1.as_slice());
    whole.push(58);
    whole.extend_from_slice(nonce);
    whole.push(58);
    whole.extend_from_slice(ha2.as_slice());
    assert(whole@ =~= md5_hex_of(username@ + colon() + realm@ + colon() + password@) + colon()
        + nonce@ + colon() + md5_hex_of(method@ + colon() + uri@));
    md5_hex(whole.as_slice())
}

// ------------------------------------------------------------------
// Challenge parameters.
// ------------------------------------------------------------------

/// The position of the first occurrence of `pat` inside `s`.
pub open spec fn spec_find_sub(s: Seq<u8>, pat: Seq<u8>) -> Option<int>
    decreases s.len(),
{
    if pat.len() == 0 {
        Some(0)
    } else if s.len() < pat.len() {
        None
    } else if s.subrange(0, pat.len() as int) == pat {
        Some(0)
    } else {
        match spec_find_sub(s.drop_first(), pat) {
            Some(i) => Some(i + 1),
            None => None,
        }
    }
}

/// Whether `pat` occurs at position `i` of `s`.
pub open spec fn sub_at(s: Seq<u8>, pat: Seq<u8>, i: int) -> bool {
    0 <= i && i + pat.len() <= s.len() && s.subrange(i, i + pat.len()) == pat
}

pub proof fn lemma_find_sub_char(s: Seq<u8>, pat: Seq<u8>)
    requires
        pat.len() > 0,
    ensures
        match spec_find_sub(s, pat) {
            Some(i) => sub_at(s, pat, i) && forall|j: int| 0 <= j < i ==> !sub_at(s, pat, j),
            None => forall|j: int| !sub_at(s, pat, j),
        },
    decreases s.len(),
{
    if s.len() < pat.len() {
        assert forall|j: int| !sub_at(s, pat, j) by {}
    } else if s.subrange(0, pat.len() as int) == pat {
    } else if s.len() == pat.len() {
        assert forall|j: int| !sub_at(s, pat, j) by {
            if sub_at(s, pat, j) {
                assert(j == 0 && s.subrange(0, pat.len() as int) == pat);
            }
        }
        assert(spec_find_sub(s.drop_first(), pat) is None);
    } else {
        let t = s.drop_first();
        lemma_find_sub_char(t, pat);
        assert forall|j: int| 1 <= j && sub_at(s, pat, j) implies sub_at(t, pat, j - 1) by {
            assert(t.subrange(j - 1, j - 1 + pat.len()) =~= s.subrange(j, j + pat.len()));
        }
        assert(!sub_at(s, pat, 0));
        match spec_find_sub(t, pat) {
            Some(i) => {
                assert(s.subrange(i + 1, i + 1 + pat.len()) =~= t.subrange(i, i + pat.len()));
                assert(sub_at(s, pat, i + 1));
            }
            None => {}
        }
    }
}

/// Finds the first occurrence of `pat` inside `s`.
pub fn find_sub(s: &[u8], pat: &[u8]) -> (r: Option<usize>)
    requires
        pat@.len() > 0,
    ensures
        match r {
            Some(i) => spec_find_sub(s@, pat@) == Some(i as int),
            None => spec_find_sub(s@, pat@) is None,
        },
{
    proof {
        lemma_find_sub_char(s@, pat@);
    }
    let n = s.len();
    let p = pat.len();
    if n < p {
        return None;
    }
    let mut i: usize = 0;
    while i <= n - p
        invariant
            n == s@.len(),
            p == pat@.len(),
            0 < p <= n,
            0 <= i <= n - p + 1,
            forall|j: int| 0 <= j < i ==> !sub_at(s@, pat@, j),
        decreases n - i,
    {
        if bytes_eq(slice_range(s, i, i + p), pat) {
            proof {
                lemma_find_sub_char(s@, pat@);
                assert(sub_at(s@, pat@, i as int));
                match spec_find_sub(s@, pat@) {
                    Some(k) => {
                        if k < i as int {
                            assert(!sub_at(s@, pat@, k));
                            assert(false);
                        }
                        if k > i as int {
                            assert(!sub_at(s@, pat@, i as int));
                            assert(false);
                        }
                    }
                    None => {
                        assert(!sub_at(s@, pat@, i as int));
                        assert(false);
                    }
                }
            }
            return Some(i);
        }
        i += 1;
    }
    proof {
        assert forall|j: int| !sub_at(s@, pat@, j) by {
            if j + p <= n {
            }
        }
        match spec_find_sub(s@, pat@) {
            Some(k) => {
                assert(!sub_at(s@, pat@, k));
                assert(false);
            }
            None => {}
        }
    }
    None
}

/// The value of a quoted challenge parameter: the text between
/// `<key>` (which ends with a double quote) and the next double quote.
pub open spec fn spec_auth_param(v: Seq<u8>, key: Seq<u8>) -> Option<Seq<u8>> {
    match spec_find_sub(v, key) {
        None => None,
        Some(i) => {
            let rest = v.subrange(i + key.len(), v.len() as int);
            match crate::message::spec_find_byte(rest, 34) {
                None => None,
                Some(e) => Some(rest.subrange(0, e)),
            }
        },
    }
}

/// Extracts a quoted challenge parameter such as `realm="..."`.
pub fn get_auth_param(v: &[u8], key: &[u8]) -> (r: Option<Vec<u8>>)
    requires
        key@.len() > 0,
    ensures
        match r {
            Some(val) => spec_auth_param(v@, key@) == Some(val@),
            None => spec_auth_param(v@, key@) is None,
        },
{
    let vl = v.len();
    let kl = key.len();
    let i = match find_sub(v, key) {
        None => {
            return None;
        }
        Some(i) => i,
    };
    proof {
        lemma_find_sub_char(v@, key@);
    }
    let rest = slice_range(v, i + kl, vl);
    proof {
        crate::message::lemma_find_byte_char(rest@, 34);
    }
    let e = match crate::ascii::find_byte(rest, 34) {
        None => {
            return None;
        }
        Some(e) => e,
    };
    Some(subvec(rest, 0, e))
}

// ------------------------------------------------------------------
// The Authorization header.
// ------------------------------------------------------------------

/// A challenge to answer: the configuration plus the `realm` and
/// `nonce` the server sent.
pub struct ConfigAuth<'a> {
    pub config: &'a Config,
    pub realm: Vec<u8>,
    pub nonce: Vec<u8>,
}

/// The digest URI this agent authenticates for:
/// `sip:<server_host>;transport=TCP`.
pub open spec fn digest_uri_of(server_host: Seq<u8>) -> Seq<u8> {
    ascii_bytes("sip:"@) + server_host + ascii_bytes(";transport=TCP"@)
}

/// Builds the digest URI.
pub fn digest_uri(server_host: &[u8]) -> (r: Vec<u8>)
    ensures
        r@ == digest_uri_of(server_host@),
{
    proof {
        reveal_strlit("sip:");
        reveal_strlit(";transport=TCP");
    }
    let mut out = str_bytes("sip:");
    out.extend_from_slice(server_host);
    let t = str_bytes(";transport=TCP");
    out.extend_from_slice(t.as_slice());
    assert(out@ =~= digest_uri_of(server_host@));
    out
}

/// The value of the `Authorization` header this library sends.
pub open spec fn auth_value_of(
    username: Seq<u8>,
    realm: Seq<u8>,
    nonce: Seq<u8>,
    uri: Seq<u8>,
    response: Seq<u8>,
) -> Seq<u8> {
    ascii_bytes("Digest username=\""@) + username + ascii_bytes("\", realm=\""@) + realm
        + ascii_bytes("\", nonce=\""@) + nonce + ascii_bytes("\", uri=\""@) + uri + ascii_bytes(
        "\", response=\""@,
    ) + response + ascii_bytes("\", algorithm=MD5"@)
}

/// The `Authorization` header answering `payload` for a request whose
/// `CSeq` names `method`.
pub open spec fn auth_header_for(c: crate::config::ConfigView, realm: Seq<u8>, nonce: Seq<u8>, method: Method) -> HeaderView {
    HeaderView {
        name: ascii_bytes("Authorization"@),
        value: auth_value_of(
            c.username,
            realm,
            nonce,
            digest_uri_of(c.server_host),
            digest_response_of(
                c.username,
                realm,
                c.password,
                nonce,
                method_name(method),
                digest_uri_of(c.server_host),
            ),
        ),
    }
}

/// Appends an `Authorization` header answering the challenge in
/// `payload`, computing the digest from the message's own `CSeq`
/// method. Fails only when the message has no readable `CSeq`.
pub fn add_auth_header(message: SipMessage, payload: &ConfigAuth<'_>) -> (r: Result<
    SipMessage,
    SipError,
>)
    ensures
        r is Ok <==> spec_cseq(message@) is Some,
        r matches Ok(m2) ==> m2@ == with_headers(
            message@,
            headers_of(message@).push(
                auth_header_for(
                    payload.config@,
                    payload.realm@,
                    payload.nonce@,
                    spec_cseq(message@).unwrap().1,
                ),
            ),
        ),
        r matches Err(e) ==> e == SipError::MissingHeader,
{
    let (_seq, method) = match get_cseq(&message) {
        None => {
            return Err(SipError::MissingHeader);
        }
        Some(p) => p,
    };
    let uri = digest_uri(payload.config.server_host.as_slice());
    let mb = crate::message::method_bytes(method);
    let response = digest_response(
        payload.config.username.as_slice(),
        payload.realm.as_slice(),
        payload.config.password.as_slice(),
        payload.nonce.as_slice(),
        mb.as_slice(),
        uri.as_slice(),
    );
    proof {
        reveal_strlit("Digest username=\"");
        reveal_strlit("\", realm=\"");
        reveal_strlit("\", nonce=\"");
        reveal_strlit("\", uri=\"");
        reveal_strlit("\", response=\"");
        reveal_strlit("\", algorithm=MD5");
        reveal_strlit("Authorization");
    }
    let mut value = str_bytes("Digest username=\"");
    value.extend_from_slice(payload.config.username.as_slice());
    let s1 = str_bytes("\", realm=\"");
    value.extend_from_slice(s1.as_slice());
    value.extend_from_slice(payload.realm.as_slice());
    let s2 = str_bytes("\", nonce=\"");
    value.extend_from_slice(s2.as_slice());
    value.extend_from_slice(payload.nonce.as_slice());
    let s3 = str_bytes("\", uri=\"");
    value.extend_from_slice(s3.as_slice());
    value.extend_from_slice(uri.as_slice());
    let s4 = str_bytes("\", response=\"");
    value.extend_from_slice(s4.as_slice());
    value.extend_from_slice(response.as_slice());
    let s5 = str_bytes("\", algorithm=MD5");
    value.extend_from_slice(s5.as_slice());
    assert(value@ =~= auth_value_of(
        payload.config@.username,
        payload.realm@,
        payload.nonce@,
        digest_uri_of(payload.config@.server_host),
        digest_response_of(
            payload.config@.username,
            payload.realm@,
            payload.config@.password,
            payload.nonce@,
            method_name(method),
            digest_uri_of(payload.config@.server_host),
        ),
    ));
    let mut message = message;
    message.push_header(hdr("Authorization", value));
    Ok(message)
}

} // verus!
