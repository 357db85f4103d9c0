//! Basic-authentication credentials for an HTTP header: user name and
//! password joined by a colon and base64-encoded.

use base64::Engine;
use vstd::prelude::*;
use vstd::string::*;
use vstd::utf8::{encode_scalar, encode_utf8};

verus! {

/// The standard-alphabet base64 encoding, with padding, of a byte
/// sequence, as characters.
pub uninterp spec fn base64_of(bytes: Seq<u8>) -> Seq<char>;

/// Relies on base64's `Engine::encode` with the `STANDARD` engine:
/// the result is a function of the input bytes alone, and with
/// padding it holds four characters for every started group of three
/// input bytes.
#[verifier::external_body]
fn base64_encode(bytes: &[u8]) -> (r: String)
    requires
        bytes@.len() / 3 * 4 + 4 <= usize::MAX,
    ensures
        r@ == base64_of(bytes@),
        r@.len() == bytes@.len() / 3 * 4 + (if bytes@.len() % 3 == 0 {
            0int
        } else {
            4int
        }),
{
    base64::prelude::BASE64_STANDARD.encode(bytes)
}

proof fn lemma_encode_utf8_len(chars: Seq<char>)
    ensures
        encode_utf8(chars).len() <= 4 * chars.len(),
    decreases chars.len(),
{
    if chars.len() > 0 {
        lemma_encode_utf8_len(chars.drop_first());
        assert(encode_scalar(chars[0] as u32).len() <= 4);
    }
}

/// The basic-authentication token for a user name and password:
/// `name:password`, base64-encoded with the standard alphabet.  The
/// token carries no scheme word: a caller that needs the full header
/// value prepends `Basic ` itself.
pub fn base64(username: &str, password: &str) -> (r: String)
    requires
        8 * (username@.len() + password@.len() + 1) + 4 <= usize::MAX,
    ensures
        r@ == base64_of(encode_utf8(username@ + ":"@ + password@)),
{
    let mut auth = username.to_owned();
    auth.append(":");
    auth.append(password);
    proof {
        reveal_strlit(":");
        assert(auth@ =~= username@ + ":"@ + password@);
        lemma_encode_utf8_len(auth@);
        let n = encode_utf8(auth@).len() as int;
        assert(n / 3 * 4 + 4 <= 2 * n + 4) by (nonlinear_arith)
            requires
                n >= 0,
        ;
    }
    let bytes = auth.as_str().as_bytes();
    proof {
        let n = bytes@.len() as int;
        assert(n <= 4 * auth@.len());
        assert(n / 3 * 4 + 4 <= 2 * n + 4) by (nonlinear_arith)
            requires
                n >= 0,
        ;
        assert(2 * n + 4 <= usize::MAX as int);
    }
    base64_encode(bytes)
}

} // verus!
