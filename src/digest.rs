use crate::text::{chars_of, push_char, same_chars, to_uppercase, upper_of};
use vstd::prelude::*;

verus! {

/// The hash algorithms a password can be derived with.
#[derive(Clone, Copy, Debug, PartialEq, Eq, Structural)]
pub enum HashMethod {
    Md5,
    Sha1,
    Sha256,
    Sha512,
}

/// The MD5 digest of the UTF-8 encoding of a string.
pub uninterp spec fn md5_of(s: Seq<char>) -> Seq<u8>;

/// The SHA-1 digest of the UTF-8 encoding of a string.
pub uninterp spec fn sha1_of(s: Seq<char>) -> Seq<u8>;

/// The SHA-256 digest of the UTF-8 encoding of a string.
pub uninterp spec fn sha256_of(s: Seq<char>) -> Seq<u8>;

/// The SHA-512 digest of the UTF-8 encoding of a string.
pub uninterp spec fn sha512_of(s: Seq<char>) -> Seq<u8>;

/// Relies on `md5::compute`: the 16-byte MD5 digest of the given bytes.
#[verifier::external_body]
fn md5_digest(s: &str) -> (r: Vec<u8>)
    ensures
        r@ == md5_of(s@),
        r@.len() == 16,
{
    md5::compute(s.as_bytes()).0.to_vec()
}

/// Relies on `sha1::Sha1`'s `Digest::digest`: the 20-byte SHA-1 digest of the given bytes.
#[verifier::external_body]
fn sha1_digest(s: &str) -> (r: Vec<u8>)
    ensures
        r@ == sha1_of(s@),
        r@.len() == 20,
{
    <sha1::Sha1 as sha1::Digest>::digest(s.as_bytes()).to_vec()
}

/// Relies on `sha2::Sha256`'s `Digest::digest`: the 32-byte SHA-256 digest of the given bytes.
#[verifier::external_body]
fn sha256_digest(s: &str) -> (r: Vec<u8>)
    ensures
        r@ == sha256_of(s@),
        r@.len() == 32,
{
    <sha2::Sha256 as sha2::Digest>::digest(s.as_bytes()).to_vec()
}

/// Relies on `sha2::Sha512`'s `Digest::digest`: the 64-byte SHA-512 digest of the given bytes.
#[verifier::external_body]
fn sha512_digest(s: &str) -> (r: Vec<u8>)
    ensures
        r@ == sha512_of(s@),
        r@.len() == 64,
{
    <sha2::Sha512 as sha2::Digest>::digest(s.as_bytes()).to_vec()
}

/// The digest of `s` under `m`.
pub open spec fn digest_of(m: HashMethod, s: Seq<char>) -> Seq<u8> {
    match m {
        HashMethod::Md5 => md5_of(s),
        HashMethod::Sha1 => sha1_of(s),
        HashMethod::Sha256 => sha256_of(s),
        HashMethod::Sha512 => sha512_of(s),
    }
}

/// Number of hex characters in a digest of `m`.
pub open spec fn hex_len(m: HashMethod) -> nat {
    match m {
        HashMethod::Md5 => 32,
        HashMethod::Sha1 => 40,
        HashMethod::Sha256 => 64,
        HashMethod::Sha512 => 128,
    }
}

/// The algorithm that an upper-case name stands for.
pub open spec fn method_of_upper(u: Seq<char>) -> Option<HashMethod> {
    if u == "MD5"@ {
        Some(HashMethod::Md5)
    } else if u == "SHA1"@ {
        Some(HashMethod::Sha1)
    } else if u == "SHA256"@ {
        Some(HashMethod::Sha256)
    } else if u == "SHA512"@ {
        Some(HashMethod::Sha512)
    } else {
        None
    }
}

/// The algorithm a name stands for, compared after upper-casing it.
pub open spec fn method_of(name: Seq<char>) -> Option<HashMethod> {
    method_of_upper(upper_of(name))
}

/// The lowercase hex digit of a value below 16.
pub open spec fn hex_digit(n: u8) -> char {
    if n < 10 {
        (48 + n) as u8 as char
    } else {
        (87 + n) as u8 as char
    }
}

/// Two lowercase hex digits per byte, high nibble first.
pub open spec fn hex(b: Seq<u8>) -> Seq<char>
    decreases b.len(),
{
    if b.len() == 0 {
        Seq::empty()
    } else {
        hex(b.drop_last()) + seq![hex_digit(b.last() / 16), hex_digit(b.last() % 16)]
    }
}

pub proof fn lemma_hex_len(b: Seq<u8>)
    ensures
        hex(b).len() == 2 * b.len(),
    decreases b.len(),
{
    if b.len() > 0 {
        lemma_hex_len(b.drop_last());
    }
}

fn hex_char(n: u8) -> (r: char)
    requires
        n < 16,
    ensures
        r == hex_digit(n),
{
    if n < 10 {
        (48 + n) as char
    } else {
        (87 + n) as char
    }
}

/// Lowercase hex encoding of `b`.
pub fn to_hex(b: &Vec<u8>) -> (r: String)
    ensures
        r@ == hex(b@),
        r@.len() == 2 * b@.len(),
{
    let mut r = String::new();
    let mut i: usize = 0;
    while i < b.len()
        invariant
            i <= b.len(),
            r@ == hex(b@.take(i as int)),
        decreases b.len() - i,
    {
        let x = b[i];
        push_char(&mut r, hex_char(x / 16));
        push_char(&mut r, hex_char(x % 16));
        i += 1;
        assert(b@.take(i as int).drop_last() =~= b@.take(i - 1));
        assert(r@ =~= hex(b@.take(i as int)));
    }
    assert(b@.take(b.len() as int) =~= b@);
    proof {
        lemma_hex_len(b@);
    }
    r
}

impl HashMethod {
    /// The algorithm that `name` stands for, compared after upper-casing it.
    pub fn from_name(name: &str) -> (r: Option<HashMethod>)
        ensures
            r == method_of(name@),
    {
        Self::from_upper(to_uppercase(name).as_str())
    }

    /// The algorithm that the upper-case name `upper` stands for.
    pub fn from_upper(upper: &str) -> (r: Option<HashMethod>)
        ensures
            r == method_of_upper(upper@),
    {
        let u = chars_of(upper);
        if same_chars(&u, "MD5") {
            Some(HashMethod::Md5)
        } else if same_chars(&u, "SHA1") {
            Some(HashMethod::Sha1)
        } else if same_chars(&u, "SHA256") {
            Some(HashMethod::Sha256)
        } else if same_chars(&u, "SHA512") {
            Some(HashMethod::Sha512)
        } else {
            None
        }
    }

    /// The raw digest of `s` under this algorithm.
    pub fn digest(&self, s: &str) -> (r: Vec<u8>)
        ensures
            r@ == digest_of(*self, s@),
            2 * r@.len() == hex_len(*self),
    {
        match self {
            HashMethod::Md5 => md5_digest(s),
            HashMethod::Sha1 => sha1_digest(s),
            HashMethod::Sha256 => sha256_digest(s),
            HashMethod::Sha512 => sha512_digest(s),
        }
    }
}

/// The lowercase hex digest of `string` under the algorithm named `hash_name`.
pub fn get_string_hash(string: &str, hash_name: &str) -> (r: String)
    requires
        method_of(hash_name@) is Some,
    ensures
        r@ == hex(digest_of(method_of(hash_name@)->0, string@)),
        r@.len() == hex_len(method_of(hash_name@)->0),
{
    let m = HashMethod::from_name(hash_name);
    match m {
        Some(m) => to_hex(&m.digest(string)),
        None => String::new(),
    }
}

} // verus!
