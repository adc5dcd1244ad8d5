//! The credential verifier: one canonical HTTP Basic token, precomputed at
//! construction from the configured username and password, compared
//! byte-exact against each presented `Authorization` header value.

use vstd::prelude::*;
use vstd::string::StrSliceExecFns;
use vstd::string::StringSliceAdditionalSpecFns;

verus! {

/// What `base64::Engine::encode` with the `STANDARD` engine returns for the
/// given bytes: the standard-alphabet, padded base64 encoding, a function of
/// the input bytes alone.
pub uninterp spec fn base64_of(bytes: Seq<u8>) -> Seq<u8>;

/// Visible ASCII bytes only: what every base64-encoded value consists of,
/// and a fortiori readable header text.
pub open spec fn visible_ascii(s: Seq<u8>) -> bool {
    forall|i: int| 0 <= i < s.len() ==> 33 <= #[trigger] s[i] < 127
}

/// Relies on base64's `Engine::encode` with the `STANDARD` engine: the
/// result is the standard-alphabet, padded base64 encoding of the input,
/// depending on the input bytes alone, and every output byte is a visible
/// ASCII character — a standard-alphabet digit, `+`, `/` or the `=` pad.
/// The length bound keeps clear of the one input `encode` refuses, an
/// input whose encoded length overflows `usize`.
#[verifier::external_body]
fn encode_base64(bytes: &Vec<u8>) -> (r: Vec<u8>)
    requires
        bytes@.len() <= usize::MAX / 4,
    ensures
        r@ == base64_of(bytes@),
        visible_ascii(r@),
{
    base64::Engine::encode(&base64::engine::general_purpose::STANDARD, bytes).into_bytes()
}

/// The scheme prefix every Basic credential carries: the bytes of
/// `"Basic "`.
pub open spec fn basic_prefix() -> Seq<u8> {
    seq![66u8, 97u8, 115u8, 105u8, 99u8, 32u8]
}

/// The payload the Basic scheme encodes: `username`, one colon, `password`.
pub open spec fn basic_credentials(username: Seq<u8>, password: Seq<u8>) -> Seq<u8> {
    username + seq![58u8] + password
}

/// Whether a header value carries the Basic scheme prefix at all; when it
/// does not, no credential was supplied.
pub open spec fn has_basic_prefix(h: Seq<u8>) -> bool {
    h.len() >= 6 && h.subrange(0, 6) == basic_prefix()
}

/// Whether a header value is a well-formed Basic credential whose encoded
/// part equals `token` byte-exact: the one success condition of `verify`.
pub open spec fn credential_matches(token: Seq<u8>, h: Seq<u8>) -> bool {
    has_basic_prefix(h) && h.subrange(6, h.len() as int) == token
}

/// Holds the canonical credential token, immutable for the process
/// lifetime: the base64 encoding of `"username:password"`, computed once.
#[derive(Clone, Debug)]
pub struct Auth {
    auth_encoded: Vec<u8>,
}

impl Auth {
    /// The canonical token this verifier compares against.
    pub closed spec fn token(&self) -> Seq<u8> {
        self.auth_encoded@
    }

    /// Precompute the canonical token from the configured username and
    /// password. The token consists of visible ASCII alone, so the header
    /// that carries it correctly is always readable header text. The length
    /// bound is what the machine forces: the joined credential bytes must
    /// stay within what base64 encoding can size.
    pub fn new(username: &str, password: &str) -> (a: Auth)
        requires
            username.spec_bytes().len() + password.spec_bytes().len() + 1 <= usize::MAX / 4,
        ensures
            a.token() == base64_of(
                basic_credentials(username.spec_bytes(), password.spec_bytes()),
            ),
            visible_ascii(a.token()),
    {
        let mut joined: Vec<u8> = username.as_bytes_vec();
        joined.push(58u8);
        let mut rest: Vec<u8> = password.as_bytes_vec();
        joined.append(&mut rest);
        proof {
            assert(joined@ =~= basic_credentials(username.spec_bytes(), password.spec_bytes()));
        }
        Auth { auth_encoded: encode_base64(&joined) }
    }

    /// Compare a presented header value against the canonical token. A
    /// value without the `"Basic "` prefix is "no credential supplied" and
    /// never matches; with the prefix, byte-exact equality of the remainder
    /// with the canonical token is the only success condition.
    pub fn verify(&self, header: &Vec<u8>) -> (ok: bool)
        ensures
            ok == credential_matches(self.token(), header@),
    {
        if !credential_supplied(header) {
            return false;
        }
        let n = header.len();
        let tn = self.auth_encoded.len();
        if n - 6 != tn {
            proof {
                assert(header@.subrange(6, header@.len() as int).len() != self.auth_encoded@.len());
            }
            return false;
        }
        let mut i: usize = 0;
        while i < tn
            invariant
                i <= tn,
                n == header@.len(),
                tn == self.auth_encoded@.len(),
                n - 6 == tn,
                forall|j: int|
                    0 <= j < i ==> #[trigger] self.auth_encoded@[j] == header@[6 + j],
            decreases tn - i,
        {
            if header[6 + i] != self.auth_encoded[i] {
                proof {
                    assert(header@.subrange(6, header@.len() as int)[i as int] == header@[6 + (
                    i as int)]);
                }
                return false;
            }
            i = i + 1;
        }
        proof {
            assert(header@.subrange(6, header@.len() as int) =~= self.auth_encoded@);
        }
        true
    }
}

/// Whether the presented header value carries the `"Basic "` scheme prefix.
pub fn credential_supplied(header: &Vec<u8>) -> (b: bool)
    ensures
        b == has_basic_prefix(header@),
{
    if header.len() < 6 {
        return false;
    }
    let b = header[0] == 66u8 && header[1] == 97u8 && header[2] == 115u8 && header[3] == 105u8
        && header[4] == 99u8 && header[5] == 32u8;
    proof {
        if b {
            assert(header@.subrange(0, 6) =~= basic_prefix());
        } else {
            assert(header@.subrange(0, 6)[0] == header@[0]);
            assert(header@.subrange(0, 6)[1] == header@[1]);
            assert(header@.subrange(0, 6)[2] == header@[2]);
            assert(header@.subrange(0, 6)[3] == header@[3]);
            assert(header@.subrange(0, 6)[4] == header@[4]);
            assert(header@.subrange(0, 6)[5] == header@[5]);
        }
    }
    b
}

} // verus!
