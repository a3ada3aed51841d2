//! Password hashing for MD5 authentication and the client side of SCRAM-SHA-256.
use vstd::prelude::*;
use vstd::slice::{slice_subrange, slice_to_vec};
use vstd::utf8::encode_utf8;
use base64::Engine;
use hmac::Mac;
use sha2::Digest;
use crate::error::{Error, auth_error};

verus! {

/// The lowercase hexadecimal digit for a value below 16.
pub open spec fn hex_digit(n: u8) -> char {
    if n < 10 {
        ((48 + n) as u8) as char
    } else {
        ((87 + n) as u8) as char
    }
}

/// Two lowercase hexadecimal digits per byte, high nibble first.
pub open spec fn hex_chars(b: Seq<u8>) -> Seq<char> {
    Seq::new(
        2 * b.len(),
        |i: int| if i % 2 == 0 { hex_digit(b[i / 2] / 16) } else { hex_digit(b[i / 2] % 16) },
    )
}

/// What MD5 gives for a byte string.
pub uninterp spec fn md5_of(data: Seq<u8>) -> Seq<u8>;

/// What SHA-256 gives for a byte string.
pub uninterp spec fn sha256_of(data: Seq<u8>) -> Seq<u8>;

/// What HMAC-SHA-256 gives for a key and a message.
pub uninterp spec fn hmac_sha256_of(key: Seq<u8>, data: Seq<u8>) -> Seq<u8>;

/// What PBKDF2 with HMAC-SHA-256 derives as a 32-byte key from a password, a
/// salt and an iteration count.
pub uninterp spec fn pbkdf2_sha256_of(password: Seq<u8>, salt: Seq<u8>, rounds: u32) -> Seq<u8>;

/// The standard, padded base64 text of a byte string.
pub uninterp spec fn base64_text(data: Seq<u8>) -> Seq<char>;

/// The bytes that standard, padded base64 text decodes to, if it is valid.
pub uninterp spec fn base64_bytes(text: Seq<u8>) -> Option<Seq<u8>>;

/// Relies on `md5::Md5::digest` (md-5): the 16-byte digest of the input.
#[verifier::external_body]
fn md5_digest(data: &[u8]) -> (r: Vec<u8>)
    ensures
        r@ == md5_of(data@),
        r@.len() == 16,
{
    md5::Md5::digest(data).to_vec()
}

/// Relies on `hex::encode`: two lowercase digits per byte.
#[verifier::external_body]
fn hex_encode(data: &[u8]) -> (r: String)
    ensures
        r@ == hex_chars(data@),
{
    hex::encode(data)
}

/// Relies on `sha2::Sha256::digest`: the 32-byte digest of the input.
#[verifier::external_body]
fn sha256_digest(data: &[u8]) -> (r: [u8; 32])
    ensures
        r@ == sha256_of(data@),
{
    sha2::Sha256::digest(data).into()
}

/// Relies on `hmac::Hmac<Sha256>`: a MAC keyed with `key` over `data`. HMAC
/// takes keys of any length, so `new_from_slice` does not fail.
#[verifier::external_body]
fn hmac_sha256(key: &[u8], data: &[u8]) -> (r: [u8; 32])
    ensures
        r@ == hmac_sha256_of(key@, data@),
{
    let mut mac = hmac::Hmac::<sha2::Sha256>::new_from_slice(key).expect("any key length");
    mac.update(data);
    mac.finalize().into_bytes().into()
}

/// Relies on `pbkdf2::pbkdf2::<Hmac<Sha256>>`: fills 32 bytes with the derived
/// key. It fails only where the MAC rejects the key length, which HMAC never does.
#[verifier::external_body]
fn pbkdf2_sha256(password: &[u8], salt: &[u8], rounds: u32) -> (r: [u8; 32])
    ensures
        r@ == pbkdf2_sha256_of(password@, salt@, rounds),
{
    let mut out = [0u8; 32];
    pbkdf2::pbkdf2::<hmac::Hmac<sha2::Sha256>>(password, salt, rounds, &mut out).expect("any key length");
    out
}

/// Relies on base64's `STANDARD` engine `encode`: padded base64 text.
#[verifier::external_body]
fn base64_encode(data: &[u8]) -> (r: String)
    ensures
        r@ == base64_text(data@),
{
    base64::engine::general_purpose::STANDARD.encode(data)
}

/// Relies on base64's `STANDARD` engine `decode`: the decoded bytes, or an error
/// for text that is not valid padded base64.
#[verifier::external_body]
fn base64_decode(text: &[u8]) -> (r: Option<Vec<u8>>)
    ensures
        match base64_bytes(text@) {
            Some(b) => r matches Some(v) && v@ == b,
            None => r is None,
        },
{
    base64::engine::general_purpose::STANDARD.decode(text).ok()
}

/// Relies on subtle's `ConstantTimeEq` for slices: true exactly when both have
/// the same length and the same bytes, compared in time independent of the contents.
#[verifier::external_body]
fn constant_time_eq(a: &[u8], b: &[u8]) -> (r: bool)
    ensures
        r == (a@ == b@),
{
    bool::from(subtle::ConstantTimeEq::ct_eq(a, b))
}

/// Relies on `rand::random`: 16 bytes from the thread-local generator.
#[verifier::external_body]
fn random_nonce_bytes() -> (r: Vec<u8>)
    ensures
        r@.len() == 16,
{
    rand::random::<[u8; 16]>().to_vec()
}

/// The response to an MD5 password request:
/// `"md5" + hex(md5(hex(md5(password ++ user)) ++ salt))`.
pub open spec fn md5_response(user: Seq<u8>, password: Seq<u8>, salt: Seq<u8>) -> Seq<char> {
    seq!['m', 'd', '5'] + hex_chars(md5_of(encode_utf8(hex_chars(md5_of(password + user))) + salt))
}

/// Computes the salted MD5 password response.
pub fn md5_encrypt(user: &str, password: &str, salt: &[u8]) -> (r: String)
    ensures
        r@ == md5_response(encode_utf8(user@), encode_utf8(password@), salt@),
        r@.len() == 35,
{
    let mut first = slice_to_vec(password.as_bytes());
    first.extend_from_slice(user.as_bytes());
    let inner = hex_encode(md5_digest(first.as_slice()).as_slice());
    let mut second = slice_to_vec(inner.as_str().as_bytes());
    second.extend_from_slice(salt);
    let outer = hex_encode(md5_digest(second.as_slice()).as_slice());
    let prefix = "md5";
    proof {
        reveal_strlit("md5");
    }
    assert(prefix@ =~= seq!['m', 'd', '5']);
    assert(first@ =~= encode_utf8(password@) + encode_utf8(user@));
    assert(second@ =~= encode_utf8(inner@) + salt@);
    let mut r = prefix.to_owned();
    r.append(outer.as_str());
    r
}

/// A user name inside a SCRAM attribute: `=` becomes `=3D` and `,` becomes `=2C`.
pub open spec fn escape_user(u: Seq<char>) -> Seq<char>
    decreases u.len(),
{
    if u.len() == 0 {
        Seq::empty()
    } else {
        escape_user(u.drop_last()) + if u.last() == '=' {
            seq!['=', '3', 'D']
        } else if u.last() == ',' {
            seq!['=', '2', 'C']
        } else {
            seq![u.last()]
        }
    }
}

/// The client-first message without its `n,,` header: `n=<user>,r=<nonce>`.
pub open spec fn first_bare(user: Seq<char>, nonce: Seq<char>) -> Seq<char> {
    seq!['n', '='] + escape_user(user) + seq![',', 'r', '='] + nonce
}

/// The pieces of `s` between commas, as `str::split(',')` yields them.
pub open spec fn split_commas(s: Seq<char>) -> Seq<Seq<char>>
    decreases s.len(),
{
    if s.len() == 0 {
        seq![Seq::empty()]
    } else {
        let rest = split_commas(s.drop_last());
        if s.last() == ',' {
            rest.push(Seq::empty())
        } else {
            rest.update(rest.len() - 1, rest.last().push(s.last()))
        }
    }
}

pub open spec fn has_key(part: Seq<char>, key: char) -> bool {
    part.len() >= 2 && part[0] == key && part[1] == '='
}

/// The value of the last `key=value` piece, if any piece has that key.
pub open spec fn last_attr(parts: Seq<Seq<char>>, key: char) -> Option<Seq<char>>
    decreases parts.len(),
{
    if parts.len() == 0 {
        None
    } else if has_key(parts.last(), key) {
        Some(parts.last().subrange(2, parts.last().len() as int))
    } else {
        last_attr(parts.drop_last(), key)
    }
}

pub open spec fn is_digit(c: char) -> bool {
    '0' <= c <= '9'
}

pub open spec fn digits_value(d: Seq<char>) -> int
    decreases d.len(),
{
    if d.len() == 0 {
        0
    } else {
        digits_value(d.drop_last()) * 10 + (d.last() as int - 48)
    }
}

/// The text after an optional leading `+`.
pub open spec fn digits_part(s: Seq<char>) -> Seq<char> {
    if s.len() > 0 && s[0] == '+' { s.subrange(1, s.len() as int) } else { s }
}

pub open spec fn all_digits(d: Seq<char>) -> bool {
    forall|j: int| 0 <= j < d.len() ==> is_digit(#[trigger] d[j])
}

/// Decimal text as `u32::from_str` reads it: an optional `+`, then at least one
/// digit, with a value that fits.
pub open spec fn parse_u32_spec(s: Seq<char>) -> Option<u32> {
    let d = digits_part(s);
    if d.len() > 0 && all_digits(d) && digits_value(d) <= 0xffff_ffff {
        Some(digits_value(d) as u32)
    } else {
        None
    }
}

pub open spec fn xor32(a: Seq<u8>, b: Seq<u8>) -> Seq<u8> {
    Seq::new(32, |j: int| a[j] ^ b[j])
}

pub open spec fn client_key_label() -> Seq<u8> {
    seq![0x43u8, 0x6c, 0x69, 0x65, 0x6e, 0x74, 0x20, 0x4b, 0x65, 0x79]
}

pub open spec fn server_key_label() -> Seq<u8> {
    seq![0x53u8, 0x65, 0x72, 0x76, 0x65, 0x72, 0x20, 0x4b, 0x65, 0x79]
}

/// `c=biws,r=<nonce>`: the client-final message without its proof.
pub open spec fn final_without_proof(nonce: Seq<char>) -> Seq<char> {
    seq!['c', '=', 'b', 'i', 'w', 's', ',', 'r', '='] + nonce
}

/// The transcript that both signatures cover.
pub open spec fn auth_message(bare: Seq<char>, server_first: Seq<char>, nonce: Seq<char>) -> Seq<char> {
    bare + seq![','] + server_first + seq![','] + final_without_proof(nonce)
}

pub open spec fn client_proof(salted: Seq<u8>, auth: Seq<char>) -> Seq<u8> {
    let client_key = hmac_sha256_of(salted, client_key_label());
    xor32(client_key, hmac_sha256_of(sha256_of(client_key), encode_utf8(auth)))
}

pub open spec fn server_signature(salted: Seq<u8>, auth: Seq<char>) -> Seq<u8> {
    hmac_sha256_of(hmac_sha256_of(salted, server_key_label()), encode_utf8(auth))
}

/// The client-final message and the expected server signature for a
/// server-first message, or `None` where it lacks `r=`, `s=` or `i=`, where
/// the iteration count is not a number, or the salt is not base64.
pub open spec fn scram_reply(bare: Seq<char>, password: Seq<char>, server_first: Seq<char>) -> Option<
    (Seq<char>, Seq<u8>),
> {
    let parts = split_commas(server_first);
    match (last_attr(parts, 'r'), last_attr(parts, 's'), last_attr(parts, 'i')) {
        (Some(nonce), Some(salt_text), Some(iter_text)) => match parse_u32_spec(iter_text) {
            Some(rounds) => match base64_bytes(encode_utf8(salt_text)) {
                Some(salt) => {
                    let salted = pbkdf2_sha256_of(encode_utf8(password), salt, rounds);
                    let auth = auth_message(bare, server_first, nonce);
                    Some(
                        (
                            final_without_proof(nonce) + seq![',', 'p', '='] + base64_text(
                                client_proof(salted, auth),
                            ),
                            server_signature(salted, auth),
                        ),
                    )
                },
                None => None,
            },
            None => None,
        },
        _ => None,
    }
}

/// Escapes a user name for the `n=` attribute.
fn escape_user_name(user: &str) -> (r: String)
    ensures
        r@ == escape_user(user@),
{
    let n = user.unicode_len();
    let mut out = String::new();
    let mut i: usize = 0;
    proof {
        reveal_strlit("=3D");
        reveal_strlit("=2C");
        assert(user@.subrange(0, 0) =~= Seq::<char>::empty());
    }
    while i < n
        invariant
            i <= n,
            n == user@.len(),
            out@ == escape_user(user@.subrange(0, i as int)),
        decreases n - i,
    {
        let c = user.get_char(i);
        proof {
            assert(user@.subrange(0, i + 1).drop_last() =~= user@.subrange(0, i as int));
            assert(user@.subrange(0, i + 1).last() == c);
            assert(user@.subrange(i as int, i + 1) =~= seq![c]);
        }
        if c == '=' {
            proof {
                reveal_strlit("=3D");
            }
            out.append("=3D");
            assert(out@ =~= escape_user(user@.subrange(0, i + 1)));
        } else if c == ',' {
            proof {
                reveal_strlit("=2C");
            }
            out.append("=2C");
            assert(out@ =~= escape_user(user@.subrange(0, i + 1)));
        } else {
            out.append(user.substring_char(i, i + 1));
        }
        i = i + 1;
    }
    proof {
        assert(user@.subrange(0, n as int) =~= user@);
    }
    out
}

pub open spec fn strings_view(v: Seq<String>) -> Seq<Seq<char>> {
    v.map_values(|s: String| s@)
}

/// Splits `s` at every comma.
fn split_at_commas(s: &str) -> (r: Vec<String>)
    ensures
        strings_view(r@) == split_commas(s@),
{
    let n = s.unicode_len();
    let mut parts: Vec<String> = Vec::new();
    let mut start: usize = 0;
    let mut i: usize = 0;
    proof {
        assert(s@.subrange(0, 0) =~= Seq::<char>::empty());
        assert(strings_view(parts@).push(s@.subrange(0, 0)) =~= seq![Seq::<char>::empty()]);
    }
    while i < n
        invariant
            start <= i <= n,
            n == s@.len(),
            split_commas(s@.subrange(0, i as int)) == strings_view(parts@).push(
                s@.subrange(start as int, i as int),
            ),
        decreases n - i,
    {
        let c = s.get_char(i);
        let ghost pre = s@.subrange(0, i + 1);
        proof {
            assert(pre.drop_last() =~= s@.subrange(0, i as int));
        }
        if c == ',' {
            let part = s.substring_char(start, i).to_owned();
            let ghost old_parts = parts@;
            parts.push(part);
            proof {
                assert(strings_view(parts@) =~= strings_view(old_parts).push(s@.subrange(start as int, i as int)));
                assert(s@.subrange(i + 1, i + 1) =~= Seq::<char>::empty());
            }
            start = i + 1;
        } else {
            proof {
                assert(s@.subrange(start as int, i as int).push(c) =~= s@.subrange(start as int, i + 1));
                assert(strings_view(parts@).push(s@.subrange(start as int, i as int)).update(
                    parts@.len() as int, s@.subrange(start as int, i + 1)) =~= strings_view(parts@).push(
                    s@.subrange(start as int, i + 1)));
            }
        }
        i = i + 1;
    }
    let last = s.substring_char(start, n).to_owned();
    let ghost before = parts@;
    parts.push(last);
    proof {
        assert(s@.subrange(0, n as int) =~= s@);
        assert(strings_view(parts@) =~= strings_view(before).push(s@.subrange(start as int, n as int)));
    }
    parts
}

/// The value of the last piece that starts with `key=`.
fn find_attr(parts: &Vec<String>, key: char) -> (r: Option<String>)
    ensures
        match last_attr(strings_view(parts@), key) {
            Some(v) => r matches Some(x) && x@ == v,
            None => r is None,
        },
{
    let mut j: usize = parts.len();
    proof {
        assert(parts@.subrange(0, j as int) =~= parts@);
    }
    while j > 0
        invariant
            j <= parts@.len(),
            last_attr(strings_view(parts@), key) == last_attr(strings_view(parts@.subrange(0, j as int)), key),
        decreases j,
    {
        let part = parts[j - 1].as_str();
        let ghost sub = strings_view(parts@.subrange(0, j as int));
        proof {
            assert(sub.last() == part@);
            assert(sub.drop_last() =~= strings_view(parts@.subrange(0, j - 1)));
        }
        let len = part.unicode_len();
        if len >= 2 && part.get_char(0) == key && part.get_char(1) == '=' {
            return Some(part.substring_char(2, len).to_owned());
        }
        j = j - 1;
    }
    proof {
        assert(strings_view(parts@.subrange(0, 0)) =~= Seq::<Seq<char>>::empty());
    }
    None
}

proof fn lemma_digits_value_grows(d: Seq<char>, k: int)
    requires
        0 <= k <= d.len(),
        forall|j: int| 0 <= j < d.len() ==> is_digit(#[trigger] d[j]),
    ensures
        digits_value(d.subrange(0, k)) <= digits_value(d),
        0 <= digits_value(d.subrange(0, k)),
    decreases d.len() - k,
{
    if k < d.len() {
        lemma_digits_value_grows(d, k + 1);
        assert(d.subrange(0, k + 1).drop_last() =~= d.subrange(0, k));
        lemma_digits_value_nonneg(d.subrange(0, k));
    } else {
        assert(d.subrange(0, k) =~= d);
        lemma_digits_value_nonneg(d);
    }
}

proof fn lemma_digits_value_nonneg(d: Seq<char>)
    requires
        forall|j: int| 0 <= j < d.len() ==> is_digit(#[trigger] d[j]),
    ensures
        0 <= digits_value(d),
    decreases d.len(),
{
    if d.len() > 0 {
        lemma_digits_value_nonneg(d.drop_last());
    }
}

/// Reads decimal text as `u32::from_str` does.
pub fn parse_u32(s: &str) -> (r: Option<u32>)
    ensures
        r == parse_u32_spec(s@),
{
    let n = s.unicode_len();
    let mut i: usize = 0;
    if n > 0 && s.get_char(0) == '+' {
        i = 1;
    }
    let ghost d = digits_part(s@);
    if i == n {
        return None;
    }
    let first = i;
    let mut acc: u64 = 0;
    proof {
        assert(d =~= s@.subrange(first as int, n as int));
        assert(s@.subrange(first as int, first as int) =~= Seq::<char>::empty());
    }
    while i < n
        invariant
            first <= i <= n,
            d == digits_part(s@),
            n == s@.len(),
            d == s@.subrange(first as int, n as int),
            forall|j: int| first <= j < i ==> is_digit(#[trigger] s@[j]),
            acc as int == digits_value(s@.subrange(first as int, i as int)),
            acc <= 0xffff_ffff,
        decreases n - i,
    {
        let c = s.get_char(i);
        if !('0' <= c && c <= '9') {
            proof {
                assert(d[i - first] == c);
                assert(!is_digit(d[i - first]));
                assert(!all_digits(d));
            }
            return None;
        }
        let ghost pre = s@.subrange(first as int, i + 1);
        proof {
            assert(pre.drop_last() =~= s@.subrange(first as int, i as int));
        }
        let next: u64 = acc * 10 + (c as u64 - 48);
        if next > 0xffff_ffff {
            proof {
                assert(pre =~= d.subrange(0, i + 1 - first));
                if all_digits(d) {
                    lemma_digits_value_grows(d, i + 1 - first);
                    assert(digits_value(d) > 0xffff_ffff);
                }
            }
            return None;
        }
        acc = next;
        i = i + 1;
    }
    proof {
        assert(d =~= s@.subrange(first as int, i as int));
    }
    Some(acc as u32)
}

/// The state of one SCRAM-SHA-256 exchange on the client side: the password,
/// and the client-first message without its header, which the transcript repeats.
pub struct ScramClient {
    password: String,
    client_first_message_bare: String,
}

impl ScramClient {
    pub closed spec fn bare(&self) -> Seq<char> {
        self.client_first_message_bare@
    }

    pub closed spec fn password(&self) -> Seq<char> {
        self.password@
    }

    /// Starts an exchange with the given nonce text.
    pub fn with_nonce(user: &str, password: &str, nonce: &str) -> (r: ScramClient)
        ensures
            r.bare() == first_bare(user@, nonce@),
            r.password() == password@,
    {
        proof {
            reveal_strlit("n=");
            reveal_strlit(",r=");
        }
        let mut bare = "n=".to_owned();
        let escaped = escape_user_name(user);
        bare.append(escaped.as_str());
        bare.append(",r=");
        bare.append(nonce);
        assert(bare@ =~= first_bare(user@, nonce@));
        ScramClient { password: password.to_owned(), client_first_message_bare: bare }
    }

    /// Starts an exchange with a fresh nonce: 16 random bytes, hex encoded.
    pub fn new(user: &str, password: &str) -> (r: ScramClient)
        ensures
            exists|n: Seq<u8>| n.len() == 16 && r.bare() == first_bare(user@, #[trigger] hex_chars(n)),
            r.password() == password@,
    {
        let bytes = random_nonce_bytes();
        let nonce = hex_encode(bytes.as_slice());
        let r = ScramClient::with_nonce(user, password, nonce.as_str());
        assert(r.bare() == first_bare(user@, hex_chars(bytes@)));
        r
    }

    /// The client-first message: the `n,,` header (no channel binding) and the bare part.
    pub fn client_first_message(&self) -> (r: String)
        ensures
            r@ == seq!['n', ',', ','] + self.bare(),
    {
        proof {
            reveal_strlit("n,,");
        }
        let mut r = "n,,".to_owned();
        r.append(self.client_first_message_bare.as_str());
        r
    }

    /// Answers the server-first message: the client-final message with its
    /// proof, and the server signature that the server-final message must carry.
    pub fn handle_server_first_message(&self, server_first: &str) -> (r: Result<(String, [u8; 32]), Error>)
        ensures
            match scram_reply(self.bare(), self.password(), server_first@) {
                Some((msg, sig)) => r matches Ok(x) && x.0@ == msg && x.1@ == sig,
                None => r matches Err(Error::Authentication(_)),
            },
    {
        let parts = split_at_commas(server_first);
        let nonce = match find_attr(&parts, 'r') {
            Some(v) => v,
            None => return Err(auth_error("missing r in server-first message")),
        };
        let salt_text = match find_attr(&parts, 's') {
            Some(v) => v,
            None => return Err(auth_error("missing s in server-first message")),
        };
        let iter_text = match find_attr(&parts, 'i') {
            Some(v) => v,
            None => return Err(auth_error("missing i in server-first message")),
        };
        let rounds = match parse_u32(iter_text.as_str()) {
            Some(n) => n,
            None => return Err(auth_error("invalid iteration count")),
        };
        let salt = match base64_decode(salt_text.as_str().as_bytes()) {
            Some(v) => v,
            None => return Err(auth_error("invalid salt")),
        };
        let salted = pbkdf2_sha256(self.password.as_str().as_bytes(), salt.as_slice(), rounds);
        let client_label: Vec<u8> = vec![0x43u8, 0x6c, 0x69, 0x65, 0x6e, 0x74, 0x20, 0x4b, 0x65, 0x79];
        let server_label: Vec<u8> = vec![0x53u8, 0x65, 0x72, 0x76, 0x65, 0x72, 0x20, 0x4b, 0x65, 0x79];
        assert(client_label@ =~= client_key_label());
        assert(server_label@ =~= server_key_label());
        let client_key = hmac_sha256(salted.as_slice(), client_label.as_slice());
        let stored_key = sha256_digest(client_key.as_slice());
        proof {
            reveal_strlit("c=biws,r=");
            reveal_strlit(",");
            reveal_strlit(",p=");
        }
        let mut without_proof = "c=biws,r=".to_owned();
        without_proof.append(nonce.as_str());
        assert(without_proof@ =~= final_without_proof(nonce@));
        let mut auth = self.client_first_message_bare.clone();
        auth.append(",");
        auth.append(server_first);
        auth.append(",");
        auth.append(without_proof.as_str());
        let ghost auth_spec = auth_message(self.bare(), server_first@, nonce@);
        assert(auth@ =~= auth_spec);
        let client_signature = hmac_sha256(stored_key.as_slice(), auth.as_str().as_bytes());
        let mut proof_bytes: Vec<u8> = Vec::new();
        let mut j: usize = 0;
        while j < 32
            invariant
                j <= 32,
                proof_bytes@.len() == j,
                forall|k: int| 0 <= k < j ==> proof_bytes@[k] == client_key@[k] ^ client_signature@[k],
            decreases 32 - j,
        {
            proof_bytes.push(client_key[j] ^ client_signature[j]);
            j = j + 1;
        }
        let ghost salted_spec = pbkdf2_sha256_of(encode_utf8(self.password()), salt@, rounds);
        assert(proof_bytes@ =~= client_proof(salted_spec, auth_spec));
        let proof_text = base64_encode(proof_bytes.as_slice());
        let server_key = hmac_sha256(salted.as_slice(), server_label.as_slice());
        let server_sig = hmac_sha256(server_key.as_slice(), auth.as_str().as_bytes());
        let mut msg = without_proof;
        msg.append(",p=");
        msg.append(proof_text.as_str());
        Ok((msg, server_sig))
    }
}

/// The server-final message `v=<base64 signature>` carries exactly the expected signature.
pub open spec fn server_final_accepted(data: Seq<u8>, expected: Seq<u8>) -> bool {
    &&& data.len() >= 2
    &&& data[0] == 0x76 /* 'v' */
    &&& data[1] == 0x3d /* '=' */
    &&& base64_bytes(data.subrange(2, data.len() as int)) == Some(expected)
}

/// A server-final message vouches for one signature only: one that differs from
/// the expected signature in any byte is rejected.
pub proof fn lemma_other_signature_rejected(data: Seq<u8>, expected: Seq<u8>, other: Seq<u8>)
    requires
        server_final_accepted(data, expected),
        other != expected,
    ensures
        !server_final_accepted(data, other),
{
}

/// Checks the server-final message against the signature computed from the
/// transcript; the comparison takes constant time.
pub fn verify_server_final(data: &[u8], expected: &[u8; 32]) -> (r: Result<(), Error>)
    ensures
        r is Ok <==> server_final_accepted(data@, expected@),
        r is Err ==> r matches Err(Error::Authentication(_)),
{
    if data.len() < 2 || data[0] != 0x76 || data[1] != 0x3d {
        return Err(auth_error("missing v in server-final message"));
    }
    let v = match base64_decode(slice_subrange(data, 2, data.len())) {
        Some(v) => v,
        None => return Err(auth_error("invalid server signature encoding")),
    };
    if !constant_time_eq(v.as_slice(), expected.as_slice()) {
        return Err(auth_error("server signature mismatch"));
    }
    Ok(())
}

} // verus!
