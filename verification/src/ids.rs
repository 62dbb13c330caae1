//! Record identifiers.
//!
//! Every record is keyed by a 13-character identifier: the record's
//! sequence number written in base 32 (digits `0`..`9` then `a`..`v`),
//! most significant digit first. The width is fixed, so the
//! lexicographic order of identifiers is the order in which they were
//! assigned, and distinct sequence numbers always yield distinct
//! identifiers.

use vstd::prelude::*;
use vstd::string::*;

use crate::text::push_char;

verus! {

/// Number of characters in a record identifier.
pub const KEY_LEN: usize = 13;

/// The character for one base-32 digit.
pub open spec fn key_digit(d: int) -> char {
    if d < 10 {
        ('0' as u8 + d as u8) as char
    } else {
        ('a' as u8 + (d - 10) as u8) as char
    }
}

/// Characters that may appear in an identifier.
pub open spec fn is_key_char(c: char) -> bool {
    ('0' <= c && c <= '9') || ('a' <= c && c <= 'v')
}

/// The digit value of an identifier character.
pub open spec fn digit_val(c: char) -> int {
    if '0' <= c && c <= '9' {
        c as int - '0' as int
    } else {
        c as int - 'a' as int + 10
    }
}

/// `n` written in base 32 over `width` digits, most significant first.
pub open spec fn key_seq_rec(n: int, width: nat) -> Seq<char>
    decreases width,
{
    if width == 0 {
        Seq::empty()
    } else {
        key_seq_rec(n / 32, (width - 1) as nat).push(key_digit(n % 32))
    }
}

/// The identifier assigned to sequence number `n`.
pub open spec fn key_seq(n: u64) -> Seq<char> {
    key_seq_rec(n as int, KEY_LEN as nat)
}

/// The sequence number an identifier stands for.
pub open spec fn decode_key(s: Seq<char>) -> int
    decreases s.len(),
{
    if s.len() == 0 {
        0
    } else {
        decode_key(s.drop_last()) * 32 + digit_val(s.last())
    }
}

/// Shape of a well-formed identifier.
pub open spec fn is_key(s: Seq<char>) -> bool {
    s.len() == KEY_LEN && (forall|i: int| 0 <= i < s.len() ==> is_key_char(#[trigger] s[i]))
}

spec fn pow32(w: nat) -> int
    decreases w,
{
    if w == 0 {
        1
    } else {
        32 * pow32((w - 1) as nat)
    }
}

proof fn lemma_pow32_pos(w: nat)
    ensures
        pow32(w) >= 1,
    decreases w,
{
    if w > 0 {
        lemma_pow32_pos((w - 1) as nat);
    }
}

proof fn lemma_pow32_mono(a: nat, b: nat)
    requires
        a <= b,
    ensures
        pow32(a) <= pow32(b),
    decreases b,
{
    lemma_pow32_pos(a);
    if a < b {
        lemma_pow32_mono(a, (b - 1) as nat);
    }
}

proof fn lemma_pow32_full()
    ensures
        pow32(KEY_LEN as nat) == 36893488147419103232,
{
    reveal_with_fuel(pow32, 14);
}

proof fn lemma_decode_bound(s: Seq<char>)
    requires
        forall|i: int| 0 <= i < s.len() ==> is_key_char(#[trigger] s[i]),
    ensures
        0 <= decode_key(s) < pow32(s.len()),
    decreases s.len(),
{
    if s.len() == 0 {
    } else {
        assert(forall|i: int|
            0 <= i < s.drop_last().len() ==> is_key_char(#[trigger] s.drop_last()[i]));
        lemma_decode_bound(s.drop_last());
        assert(is_key_char(s.last()));
        assert(0 <= digit_val(s.last()) < 32);
        assert(decode_key(s.drop_last()) * 32 + 32 <= pow32((s.len() - 1) as nat) * 32)
            by (nonlinear_arith)
            requires
                decode_key(s.drop_last()) < pow32((s.len() - 1) as nat),
        ;
    }
}

proof fn lemma_key_rec_props(n: int, width: nat)
    requires
        0 <= n < pow32(width),
    ensures
        key_seq_rec(n, width).len() == width,
        forall|i: int| 0 <= i < width ==> is_key_char(#[trigger] key_seq_rec(n, width)[i]),
        decode_key(key_seq_rec(n, width)) == n,
    decreases width,
{
    if width > 0 {
        assert(n / 32 < pow32((width - 1) as nat) && 0 <= n / 32 && n / 32 * 32 + n % 32 == n
            && 0 <= n % 32 < 32) by (nonlinear_arith)
            requires
                0 <= n,
                n < pow32(width),
                pow32(width) == 32 * pow32((width - 1) as nat),
        ;
        lemma_key_rec_props(n / 32, (width - 1) as nat);
        let prefix = key_seq_rec(n / 32, (width - 1) as nat);
        let s = key_seq_rec(n, width);
        assert(s.drop_last() =~= prefix);
        assert(digit_val(key_digit(n % 32)) == n % 32);
    }
}

/// Every `u64` sequence number yields a well-formed identifier that
/// decodes back to it: identifier assignment never reuses a value.
pub proof fn lemma_key_roundtrip(n: u64)
    ensures
        is_key(key_seq(n)),
        decode_key(key_seq(n)) == n as int,
{
    lemma_pow32_full();
    lemma_key_rec_props(n as int, KEY_LEN as nat);
}

/// Strict lexicographic order on equal-length character sequences:
/// at the first differing position, `a` holds the smaller character.
pub open spec fn lex_less(a: Seq<char>, b: Seq<char>) -> bool {
    exists|i: int|
        {
            &&& 0 <= i < a.len()
            &&& i < b.len()
            &&& a[i] < b[i]
            &&& forall|j: int| 0 <= j < i ==> a[j] == b[j]
        }
}

proof fn lemma_key_digit_monotone(d1: int, d2: int)
    requires
        0 <= d1 < d2 < 32,
    ensures
        key_digit(d1) < key_digit(d2),
{
}

proof fn lemma_key_rec_lex(x: int, y: int, width: nat)
    requires
        0 <= x < y,
        y < pow32(width),
    ensures
        lex_less(key_seq_rec(x, width), key_seq_rec(y, width)),
    decreases width,
{
    lemma_key_rec_props(x, width);
    lemma_key_rec_props(y, width);
    let a = key_seq_rec(x, width);
    let b = key_seq_rec(y, width);
    assert(width > 0);
    assert(x / 32 * 32 + x % 32 == x && 0 <= x % 32 < 32 && x / 32 <= x) by (nonlinear_arith)
        requires
            0 <= x,
    ;
    assert(y / 32 * 32 + y % 32 == y && 0 <= y % 32 < 32 && y / 32 <= y) by (nonlinear_arith)
        requires
            0 <= y,
    ;
    assert(x / 32 <= y / 32) by (nonlinear_arith)
        requires
            0 <= x < y,
    ;
    let pa = key_seq_rec(x / 32, (width - 1) as nat);
    let pb = key_seq_rec(y / 32, (width - 1) as nat);
    assert(y / 32 < pow32((width - 1) as nat)) by (nonlinear_arith)
        requires
            0 <= y,
            y < pow32(width),
            pow32(width) == 32 * pow32((width - 1) as nat),
    ;
    if x / 32 == y / 32 {
        assert(x % 32 < y % 32);
        lemma_key_digit_monotone(x % 32, y % 32);
        let w = width - 1;
        assert(a[w] == key_digit(x % 32) && b[w] == key_digit(y % 32));
        assert(forall|j: int| 0 <= j < w ==> a[j] == pa[j] && b[j] == pb[j]);
        assert(a[w] < b[w] && (forall|j: int| 0 <= j < w ==> a[j] == b[j]));
    } else {
        lemma_key_rec_props(x / 32, (width - 1) as nat);
        lemma_key_rec_props(y / 32, (width - 1) as nat);
        lemma_key_rec_lex(x / 32, y / 32, (width - 1) as nat);
        let i = choose|i: int|
            {
                &&& 0 <= i < pa.len()
                &&& i < pb.len()
                &&& pa[i] < pb[i]
                &&& forall|j: int| 0 <= j < i ==> pa[j] == pb[j]
            };
        assert(a[i] == pa[i] && b[i] == pb[i]);
        assert forall|j: int| 0 <= j < i implies a[j] == b[j] by {
            assert(a[j] == pa[j] && b[j] == pb[j]);
        }
        assert({
            &&& 0 <= i < a.len()
            &&& i < b.len()
            &&& a[i] < b[i]
            &&& forall|j: int| 0 <= j < i ==> a[j] == b[j]
        });
    }
}

/// Identifiers sort in the order their sequence numbers were used:
/// the fixed width makes the lexicographic order of identifiers the
/// numeric order of generation.
pub proof fn lemma_key_order(a: u64, b: u64)
    requires
        a < b,
    ensures
        lex_less(key_seq(a), key_seq(b)),
{
    lemma_pow32_full();
    lemma_key_rec_lex(a as int, b as int, KEY_LEN as nat);
}

fn key_digit_exec(d: u8) -> (c: char)
    requires
        d < 32,
    ensures
        c == key_digit(d as int),
{
    if d < 10 {
        (('0' as u8) + d) as char
    } else {
        (('a' as u8) + (d - 10)) as char
    }
}

fn push_key_digits(s: &mut String, n: u64, width: u8)
    ensures
        final(s)@ == old(s)@ + key_seq_rec(n as int, width as nat),
    decreases width,
{
    if width == 0 {
        proof {
            assert(old(s)@ + Seq::<char>::empty() =~= old(s)@);
        }
    } else {
        push_key_digits(s, n / 32, width - 1);
        let c = key_digit_exec((n % 32) as u8);
        push_char(s, c);
        proof {
            assert((old(s)@ + key_seq_rec(n as int / 32, (width - 1) as nat)).push(
                key_digit(n as int % 32),
            ) =~= old(s)@ + key_seq_rec(n as int, width as nat));
        }
    }
}

/// The identifier for sequence number `n`.
pub fn encode_key(n: u64) -> (s: String)
    ensures
        s@ == key_seq(n),
{
    let mut s = String::new();
    push_key_digits(&mut s, n, 13);
    proof {
        assert(Seq::<char>::empty() + key_seq(n) =~= key_seq(n));
    }
    s
}

fn digit_val_exec(c: char) -> (d: u8)
    requires
        is_key_char(c),
    ensures
        d as int == digit_val(c),
        d < 32,
{
    if c <= '9' {
        (c as u32 - '0' as u32) as u8
    } else {
        (c as u32 - 'a' as u32 + 10) as u8
    }
}

/// Reads an identifier back into its sequence number; `None` when the
/// string is not a well-formed identifier.
pub fn decode_key_checked(s: &str) -> (r: Option<u128>)
    ensures
        match r {
            Some(v) => is_key(s@) && v as int == decode_key(s@),
            None => !is_key(s@),
        },
{
    let len = s.unicode_len();
    if len != KEY_LEN {
        return None;
    }
    let mut acc: u128 = 0;
    let mut i: usize = 0;
    while i < len
        invariant
            i <= len,
            len == KEY_LEN,
            len == s@.len(),
            forall|j: int| 0 <= j < i ==> is_key_char(#[trigger] s@[j]),
            acc as int == decode_key(s@.take(i as int)),
        decreases len - i,
    {
        let c = s.get_char(i);
        let lo = c <= '9' && '0' <= c;
        let hi = 'a' <= c && c <= 'v';
        if !lo && !hi {
            return None;
        }
        let d = digit_val_exec(c);
        proof {
            assert(s@.take(i + 1).drop_last() =~= s@.take(i as int));
            assert(s@.take(i + 1).last() == s@[i as int]);
            lemma_decode_bound(s@.take(i + 1));
            lemma_pow32_mono((i + 1) as nat, KEY_LEN as nat);
            lemma_pow32_full();
        }
        acc = acc * 32 + d as u128;
        i = i + 1;
    }
    proof {
        assert(s@.take(len as int) =~= s@);
    }
    Some(acc)
}

} // verus!
