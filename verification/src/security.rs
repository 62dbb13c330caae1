//! Field validation and password hashing.
//!
//! Every free-form field that reaches the store (usernames, titles,
//! descriptions) is drawn from one allow-listed character set with a
//! minimum length of three and a per-field maximum. Passwords are never
//! stored: only the lowercase hex encoding of their SHA-512 digest is.

use vstd::prelude::*;
use vstd::string::*;

verus! {

/// The allow-listed character set for free-form fields: ASCII letters,
/// digits, space, and the punctuation `! @ # $ % & * _ - + . , < > ; / ?`.
pub open spec fn is_allowed_char(c: char) -> bool {
    ('a' <= c && c <= 'z') || ('A' <= c && c <= 'Z') || ('0' <= c && c <= '9') || c == '!'
        || c == '@' || c == '#' || c == '$' || c == '%' || c == '&' || c == '*' || c == '_'
        || c == '-' || c == '+' || c == '.' || c == ',' || c == '<' || c == '>' || c == ';'
        || c == '/' || c == '?' || c == ' '
}

/// A field is valid when it has between 3 and `max_length` characters,
/// all drawn from the allow-listed set.
pub open spec fn valid_field(s: Seq<char>, max_length: nat) -> bool {
    3 <= s.len() <= max_length && (forall|i: int| 0 <= i < s.len() ==> is_allowed_char(#[trigger] s[i]))
}

fn is_allowed_char_exec(c: char) -> (r: bool)
    ensures
        r == is_allowed_char(c),
{
    ('a' <= c && c <= 'z') || ('A' <= c && c <= 'Z') || ('0' <= c && c <= '9') || c == '!'
        || c == '@' || c == '#' || c == '$' || c == '%' || c == '&' || c == '*' || c == '_'
        || c == '-' || c == '+' || c == '.' || c == ',' || c == '<' || c == '>' || c == ';'
        || c == '/' || c == '?' || c == ' '
}

/// Lowercase folding keeps a field valid, and is idempotent.
pub proof fn lemma_lower_field(s: Seq<char>, max: nat)
    ensures
        valid_field(s, max) ==> valid_field(crate::text::lower_seq(s), max),
        crate::text::lower_seq(crate::text::lower_seq(s)) == crate::text::lower_seq(s),
{
    let l = crate::text::lower_seq(s);
    assert(l.len() == s.len());
    if valid_field(s, max) {
        assert forall|i: int| 0 <= i < l.len() implies is_allowed_char(#[trigger] l[i]) by {
            assert(l[i] == crate::text::lower_char(s[i]));
            assert(is_allowed_char(s[i]));
        }
    }
    assert forall|i: int| 0 <= i < l.len() implies #[trigger] crate::text::lower_seq(l)[i]
        == l[i] by {
        assert(crate::text::lower_seq(l)[i] == crate::text::lower_char(l[i]));
        assert(l[i] == crate::text::lower_char(s[i]));
    }
    assert(crate::text::lower_seq(l) =~= l);
}

/// One lowercase hexadecimal digit.
pub open spec fn hex_digit(n: int) -> char {
    if n == 0 {
        '0'
    } else if n == 1 {
        '1'
    } else if n == 2 {
        '2'
    } else if n == 3 {
        '3'
    } else if n == 4 {
        '4'
    } else if n == 5 {
        '5'
    } else if n == 6 {
        '6'
    } else if n == 7 {
        '7'
    } else if n == 8 {
        '8'
    } else if n == 9 {
        '9'
    } else if n == 10 {
        'a'
    } else if n == 11 {
        'b'
    } else if n == 12 {
        'c'
    } else if n == 13 {
        'd'
    } else if n == 14 {
        'e'
    } else {
        'f'
    }
}

/// Lowercase hex encoding of a byte sequence, high nibble first.
pub open spec fn hex_of(data: Seq<u8>) -> Seq<char> {
    Seq::new(
        2 * data.len(),
        |i: int|
            if i % 2 == 0 {
                hex_digit((data[i / 2] >> 4) as int)
            } else {
                hex_digit((data[i / 2] & 0x0f) as int)
            },
    )
}

/// The SHA-512 digest of a byte sequence; it depends on the bytes alone.
pub uninterp spec fn sha512_of(data: Seq<u8>) -> Seq<u8>;

/// The stored form of a password: the lowercase hex encoding of its
/// SHA-512 digest, 128 characters long.
pub open spec fn sha512_hex(data: Seq<u8>) -> Seq<char> {
    hex_of(sha512_of(data))
}

/// Relies on ring::digest::digest with the SHA512 algorithm: a 64-byte
/// digest that is a function of the input bytes alone.
#[verifier::external_body]
fn sha512(data: &[u8]) -> (r: Vec<u8>)
    ensures
        r@ == sha512_of(data@),
        r@.len() == 64,
{
    ring::digest::digest(&ring::digest::SHA512, data).as_ref().to_vec()
}

/// Relies on hex::encode: each input byte becomes two lowercase hex
/// digits, high nibble first.
#[verifier::external_body]
fn to_hex(data: &[u8]) -> (r: String)
    ensures
        r@ == hex_of(data@),
{
    hex::encode(data)
}

/// The stored form of a password with the given characters.
pub open spec fn password_hash(password: Seq<char>) -> Seq<char> {
    sha512_hex(vstd::utf8::encode_utf8(password))
}

/// A lowercase hexadecimal digit character.
pub open spec fn is_hex_char(c: char) -> bool {
    ('0' <= c && c <= '9') || ('a' <= c && c <= 'f')
}

/// Hex encodings consist of lowercase hex digits alone.
pub proof fn lemma_hex_of_chars(data: Seq<u8>)
    ensures
        forall|i: int| 0 <= i < hex_of(data).len() ==> is_hex_char(#[trigger] hex_of(data)[i]),
{
    assert(forall|b: u8| (b >> 4) < 16 && (b & 0x0f) < 16) by (bit_vector);
    assert forall|i: int| 0 <= i < hex_of(data).len() implies is_hex_char(
        #[trigger] hex_of(data)[i],
    ) by {
        if i % 2 == 0 {
            assert(hex_of(data)[i] == hex_digit((data[i / 2] >> 4) as int));
        } else {
            assert(hex_of(data)[i] == hex_digit((data[i / 2] & 0x0f) as int));
        }
    }
}

/// Shape of a stored password hash: 128 lowercase hex digits.
pub open spec fn valid_password_hash(s: Seq<char>) -> bool {
    s.len() == 128 && (forall|i: int| 0 <= i < s.len() ==> is_hex_char(#[trigger] s[i]))
}

/// A method to check that a string has the shape of a stored password
/// hash.
pub fn is_valid_password_hash(s: &str) -> (r: bool)
    ensures
        r == valid_password_hash(s@),
{
    let len = s.unicode_len();
    if len != 128 {
        return false;
    }
    let mut i: usize = 0;
    while i < len
        invariant
            i <= len,
            len == s@.len(),
            len == 128,
            forall|j: int| 0 <= j < i ==> is_hex_char(#[trigger] s@[j]),
        decreases len - i,
    {
        let c = s.get_char(i);
        if !(('0' <= c && c <= '9') || ('a' <= c && c <= 'f')) {
            return false;
        }
        i = i + 1;
    }
    true
}

/// A method to get the SHA512 from some data, as a lowercase hex string.
pub fn get_sha512(data: &[u8]) -> (r: String)
    ensures
        r@ == sha512_hex(data@),
        r@.len() == 128,
        valid_password_hash(r@),
{
    let digest = sha512(data);
    let r = to_hex(digest.as_slice());
    proof {
        lemma_hex_of_chars(digest@);
    }
    r
}

/// A method to check if some field is valid.
pub fn is_valid_field(field: &str, max_length: u8) -> (r: bool)
    ensures
        r == valid_field(field@, max_length as nat),
{
    let len = field.unicode_len();
    if len < 3 || len > max_length as usize {
        return false;
    }
    let mut i: usize = 0;
    while i < len
        invariant
            i <= len,
            len == field@.len(),
            3 <= len <= max_length as nat,
            forall|j: int| 0 <= j < i ==> is_allowed_char(#[trigger] field@[j]),
        decreases len - i,
    {
        if !is_allowed_char_exec(field.get_char(i)) {
            return false;
        }
        i = i + 1;
    }
    true
}

/// A method to check if the field is valid: between 3 and 20
/// characters from the allow-listed set.
pub fn is_field_valid(field: &str) -> (r: bool)
    ensures
        r == valid_field(field@, 20),
{
    is_valid_field(field, 20)
}

} // verus!
