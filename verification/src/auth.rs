//! Credentials: an identity/secret pair, hashed with PBKDF2 (HMAC-SHA-256,
//! 100000 iterations, the identity as salt) and stored base64-encoded.  The
//! handshake verifies a claimed secret against such a stored hash; the HTTP
//! layer builds the same pairs from a Basic authorization header.
use vstd::prelude::*;
use vstd::string::StrSliceExecFns;

verus! {

/// Character count above which a credential is refused outright, so that the
/// underlying digest (whose input must stay below its own astronomical bound)
/// can never be overfed.
pub const CRED_LIMIT: u64 = 0x0400_0000_0000_0000;

/// The longest derived key PBKDF2 defines: `u32::MAX` blocks of the 32-byte
/// digest output.
pub const KEY_LEN_LIMIT: u64 = 0xffff_ffff * 32;

/// What PBKDF2 with HMAC-SHA-256 and 100000 iterations derives from a
/// user/secret pair: `n` bytes of key, with the user as salt.  Depends on its
/// arguments alone.
pub uninterp spec fn pbkdf2_key(user: Seq<char>, pass: Seq<char>, n: nat) -> Seq<u8>;

/// What base64 encoding (standard alphabet, with padding) makes of bytes.
pub uninterp spec fn base64_of(b: Seq<u8>) -> Seq<char>;

/// What base64 decoding makes of text: the encoded bytes, or `None` when the
/// text is not valid base64.
pub uninterp spec fn debase64_of(s: Seq<char>) -> Option<Seq<u8>>;

/// What UTF-8 decoding makes of bytes: the characters they encode, or `None`
/// when they are not valid UTF-8.
pub uninterp spec fn chars_of_utf8(b: Seq<u8>) -> Option<Seq<char>>;

/// Relies on base64::Engine::encode with the standard engine: the base64
/// text of the bytes, which base64::Engine::decode maps back to them.
#[verifier::external_body]
fn base64_encode(b: &Vec<u8>) -> (r: String)
    ensures
        r@ == base64_of(b@),
        debase64_of(r@) == Some(b@),
{
    base64::Engine::encode(&base64::engine::general_purpose::STANDARD, b.as_slice())
}

/// Relies on base64::Engine::decode with the standard engine: the bytes the
/// text encodes, or an error when it is not valid base64.
#[verifier::external_body]
fn base64_decode(s: &str) -> (r: Option<Vec<u8>>)
    ensures
        match r {
            Some(b) => debase64_of(s@) == Some(b@),
            None => debase64_of(s@) is None,
        },
{
    base64::Engine::decode(&base64::engine::general_purpose::STANDARD, s).ok()
}

/// Relies on ring::pbkdf2::derive with PBKDF2_HMAC_SHA256 and 100000
/// iterations filling a 32-byte buffer.
#[verifier::external_body]
fn pbkdf2_derive(user: &str, pass: &str) -> (r: Vec<u8>)
    requires
        user@.len() <= CRED_LIMIT,
        pass@.len() <= CRED_LIMIT,
    ensures
        r@ == pbkdf2_key(user@, pass@, 32),
        r@.len() == 32,
{
    let mut out = [0u8; 32];
    ring::pbkdf2::derive(
        ring::pbkdf2::PBKDF2_HMAC_SHA256,
        core::num::NonZeroU32::new(100000).unwrap(),
        user.as_bytes(),
        pass.as_bytes(),
        &mut out,
    );
    out.to_vec()
}

/// Relies on ring::pbkdf2::verify with PBKDF2_HMAC_SHA256 and 100000
/// iterations: Ok exactly when the previously derived key is non-empty, no
/// longer than the greatest key PBKDF2 defines (`u32::MAX` blocks of 32
/// bytes), and equals what derive would produce at its length.
#[verifier::external_body]
fn pbkdf2_check(user: &str, pass: &str, key: &Vec<u8>) -> (r: bool)
    requires
        user@.len() <= CRED_LIMIT,
        pass@.len() <= CRED_LIMIT,
    ensures
        r == (0 < key@.len() <= KEY_LEN_LIMIT && key@ == pbkdf2_key(user@, pass@, key@.len())),
{
    ring::pbkdf2::verify(
        ring::pbkdf2::PBKDF2_HMAC_SHA256,
        core::num::NonZeroU32::new(100000).unwrap(),
        user.as_bytes(),
        pass.as_bytes(),
        key.as_slice(),
    ).is_ok()
}

/// Relies on String::from_utf8: Some exactly on valid UTF-8, carrying the
/// decoded characters.
#[verifier::external_body]
fn bytes_to_string(b: Vec<u8>) -> (r: Option<String>)
    ensures
        match r {
            Some(s) => chars_of_utf8(b@) == Some(s@),
            None => chars_of_utf8(b@) is None,
        },
{
    String::from_utf8(b).ok()
}

/// An identity with the secret it claims.
#[derive(Debug)]
pub struct BasicAuth {
    pub user: String,
    pub pass: String,
}

/// Whether a claimed credential matches a stored hash: the hash must be
/// valid base64 of a non-empty key that PBKDF2 derives from the pair.
/// Oversized credentials never match.
pub open spec fn verify_spec(user: Seq<char>, pass: Seq<char>, hash: Seq<char>) -> bool {
    &&& user.len() <= CRED_LIMIT
    &&& pass.len() <= CRED_LIMIT
    &&& match debase64_of(hash) {
        Some(k) => 0 < k.len() <= KEY_LEN_LIMIT && k == pbkdf2_key(user, pass, k.len()),
        None => false,
    }
}

/// The index of the first colon, if any.
pub open spec fn find_colon(s: Seq<char>, i: int) -> Option<int>
    decreases s.len() - i,
{
    if !(0 <= i < s.len()) {
        None
    } else if s[i] == ':' {
        Some(i)
    } else {
        find_colon(s, i + 1)
    }
}

/// A credential pair split at the first colon of the decoded text.
pub open spec fn split_colon(s: Seq<char>) -> Option<(Seq<char>, Seq<char>)> {
    match find_colon(s, 0) {
        Some(i) => Some((s.take(i), s.skip(i + 1))),
        None => None,
    }
}

/// What a Basic authorization header yields: the text after the `Basic `
/// prefix is base64 of UTF-8 text holding user and secret around the first
/// colon.
pub open spec fn from_header_spec(h: Seq<char>) -> Option<(Seq<char>, Seq<char>)> {
    if h.len() < 7 || h.subrange(0, 6) != "Basic "@ {
        None
    } else {
        match debase64_of(h.skip(6)) {
            None => None,
            Some(bytes) => match chars_of_utf8(bytes) {
                None => None,
                Some(creds) => split_colon(creds),
            },
        }
    }
}

impl BasicAuth {
    /// Reads a credential pair out of a Basic authorization header.
    #[verifier::loop_isolation(false)]
    pub fn from_header(header: &str) -> (r: Option<Self>)
        ensures
            match r {
                Some(a) => from_header_spec(header@) == Some((a.user@, a.pass@)),
                None => from_header_spec(header@) is None,
            },
    {
        proof {
            reveal_strlit("Basic ");
        }
        let n = header.unicode_len();
        if n < 7 {
            return None;
        }
        if header.get_char(0) != 'B' || header.get_char(1) != 'a' || header.get_char(2) != 's'
            || header.get_char(3) != 'i' || header.get_char(4) != 'c' || header.get_char(5)
            != ' ' {
            proof {
                assert(header@.subrange(0, 6) != "Basic "@) by {
                    if header@.subrange(0, 6) == "Basic "@ {
                        assert(header@[0] == "Basic "@[0]);
                        assert(header@[1] == "Basic "@[1]);
                        assert(header@[2] == "Basic "@[2]);
                        assert(header@[3] == "Basic "@[3]);
                        assert(header@[4] == "Basic "@[4]);
                        assert(header@[5] == "Basic "@[5]);
                    }
                };
            }
            return None;
        }
        proof {
            assert(header@.subrange(0, 6) =~= "Basic "@);
        }
        let rest = header.substring_char(6, n);
        proof {
            assert(rest@ =~= header@.skip(6));
        }
        let decoded = match base64_decode(rest) {
            Some(b) => b,
            None => {
                return None;
            },
        };
        let creds = match bytes_to_string(decoded) {
            Some(s) => s,
            None => {
                return None;
            },
        };
        let m = creds.as_str().unicode_len();
        let mut i: usize = 0;
        while i < m
            invariant
                m == creds@.len(),
                i <= m,
                find_colon(creds@, 0) == find_colon(creds@, i as int),
            decreases m - i,
        {
            if creds.as_str().get_char(i) == ':' {
                let user = creds.as_str().substring_char(0, i).to_owned();
                let pass = creds.as_str().substring_char(i + 1, m).to_owned();
                proof {
                    assert(user@ =~= creds@.take(i as int));
                    assert(pass@ =~= creds@.skip(i + 1));
                    assert(find_colon(creds@, i as int) == Some(i as int));
                    assert(split_colon(creds@) == Some((creds@.take(i as int), creds@.skip(i + 1))));
                }
                return Some(BasicAuth { user, pass });
            }
            i = i + 1;
        }
        None
    }

    /// Builds the pair as given.
    pub fn from_parts(user: &str, pass: &str) -> (r: Self)
        ensures
            r.user@ == user@,
            r.pass@ == pass@,
    {
        BasicAuth { user: user.to_owned(), pass: pass.to_owned() }
    }

    /// The stored form of this credential: base64 of the 32-byte key PBKDF2
    /// derives from it.  The result verifies against the pair it came from.
    pub fn hash(&self) -> (r: String)
        requires
            self.user@.len() <= CRED_LIMIT,
            self.pass@.len() <= CRED_LIMIT,
        ensures
            r@ == base64_of(pbkdf2_key(self.user@, self.pass@, 32)),
            verify_spec(self.user@, self.pass@, r@),
    {
        let key = pbkdf2_derive(self.user.as_str(), self.pass.as_str());
        base64_encode(&key)
    }

    /// Whether a request carrying this credential may act on a station: the
    /// station's own stored hash matches, or the stored hash of the user
    /// that owns the station does.
    pub fn allows_station(&self, station_token: &str, owner_pass: Option<&String>) -> (r: bool)
        ensures
            r == (verify_spec(self.user@, self.pass@, station_token@) || (match owner_pass {
                Some(p) => verify_spec(self.user@, self.pass@, p@),
                None => false,
            })),
    {
        if self.verify(station_token) {
            return true;
        }
        match owner_pass {
            Some(p) => self.verify(p.as_str()),
            None => false,
        }
    }

    /// Whether this credential matches a stored hash.
    pub fn verify(&self, hash: &str) -> (r: bool)
        ensures
            r == verify_spec(self.user@, self.pass@, hash@),
    {
        if self.user.as_str().unicode_len() as u64 > CRED_LIMIT
            || self.pass.as_str().unicode_len() as u64 > CRED_LIMIT {
            return false;
        }
        match base64_decode(hash) {
            None => false,
            Some(k) => pbkdf2_check(self.user.as_str(), self.pass.as_str(), &k),
        }
    }
}

} // verus!
