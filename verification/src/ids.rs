//! Textual form of UUIDs, which the library carries as plain 128-bit
//! integers.

use vstd::prelude::*;

use crate::text::{digit, digit_char, push_char};

verus! {

/// The lowercase hexadecimal digit for `d < 16`.
pub open spec fn hex_char(d: int) -> char {
    if d < 10 {
        digit_char(d)
    } else if d == 10 {
        'a'
    } else if d == 11 {
        'b'
    } else if d == 12 {
        'c'
    } else if d == 13 {
        'd'
    } else if d == 14 {
        'e'
    } else {
        'f'
    }
}

/// Every hexadecimal digit is `0`-`9` or `a`-`f`.
pub proof fn lemma_hex_char_lower(d: int)
    requires
        0 <= d < 16,
    ensures
        ('0' <= hex_char(d) <= '9') || ('a' <= hex_char(d) <= 'f'),
{
}

/// `v` shifted right by `k` hexadecimal digits.
pub open spec fn shr_hex(v: nat, k: nat) -> nat
    decreases k,
{
    if k == 0 {
        v
    } else {
        shr_hex(v, (k - 1) as nat) / 16
    }
}

/// The 32 hexadecimal digits of a 128-bit value, most significant first.
pub open spec fn hex32(v: u128) -> Seq<char> {
    Seq::new(32, |i: int| hex_char((shr_hex(v as nat, (31 - i) as nat) % 16) as int))
}

/// The hyphenated lowercase form of a UUID: 8-4-4-4-12 hexadecimal digits.
pub open spec fn uuid_text(v: u128) -> Seq<char> {
    let h = hex32(v);
    h.subrange(0, 8) + seq!['-'] + h.subrange(8, 12) + seq!['-'] + h.subrange(12, 16) + seq!['-']
        + h.subrange(16, 20) + seq!['-'] + h.subrange(20, 32)
}

pub fn hex_digit(d: u8) -> (c: char)
    requires
        d < 16,
    ensures
        c == hex_char(d as int),
{
    if d < 10 {
        digit(d as u64)
    } else if d == 10 {
        'a'
    } else if d == 11 {
        'b'
    } else if d == 12 {
        'c'
    } else if d == 13 {
        'd'
    } else if d == 14 {
        'e'
    } else {
        'f'
    }
}

/// The 32 hexadecimal digit values of `v`, most significant first.
fn nibbles(v: u128) -> (r: Vec<u8>)
    ensures
        r@.len() == 32,
        forall|i: int| 0 <= i < 32 ==> #[trigger] r@[i] as int == shr_hex(v as nat, (31 - i) as nat) % 16,
{
    let mut r: Vec<u8> = Vec::new();
    let mut k: usize = 0;
    while k < 32
        invariant
            k <= 32,
            r@.len() == k,
        decreases 32 - k,
    {
        r.push(0);
        k = k + 1;
    }
    let mut cur: u128 = v;
    let mut j: usize = 0;
    while j < 32
        invariant
            j <= 32,
            r@.len() == 32,
            cur as nat == shr_hex(v as nat, j as nat),
            forall|i: int| 32 - j <= i < 32 ==> #[trigger] r@[i] as int == shr_hex(v as nat, (31 - i) as nat) % 16,
        decreases 32 - j,
    {
        let d = (cur % 16) as u8;
        r.set(31 - j, d);
        cur = cur / 16;
        j = j + 1;
    }
    r
}

/// Appends the hyphenated lowercase form of a UUID.
pub fn push_uuid(s: &mut String, v: u128)
    ensures
        final(s)@ == old(s)@ + uuid_text(v),
{
    let ns = nibbles(v);
    let ghost start = s@;
    let ghost h = hex32(v);
    let mut i: usize = 0;
    while i < 32
        invariant
            i <= 32,
            ns@.len() == 32,
            forall|k: int| 0 <= k < 32 ==> #[trigger] ns@[k] as int == shr_hex(v as nat, (31 - k) as nat) % 16,
            h == hex32(v),
            s@ == start + with_hyphens(h.subrange(0, i as int)),
        decreases 32 - i,
    {
        let ghost before = s@;
        if i == 8 || i == 12 || i == 16 || i == 20 {
            push_char(s, '-');
        }
        let c = hex_digit(ns[i]);
        push_char(s, c);
        proof {
            let t = h.subrange(0, i + 1);
            assert(t.drop_last() =~= h.subrange(0, i as int));
            assert(h[i as int] == c);
            lemma_with_hyphens_step(h.subrange(0, i + 1));
            assert(s@ =~= start + with_hyphens(t));
        }
        i = i + 1;
    }
    proof {
        assert(h.subrange(0, 32) =~= h);
        lemma_with_hyphens_full(h);
    }
}

/// Inserts a hyphen before digits 8, 12, 16 and 20 of a digit prefix.
pub open spec fn with_hyphens(p: Seq<char>) -> Seq<char>
    decreases p.len(),
{
    if p.len() == 0 {
        p
    } else {
        let i = p.len() - 1;
        if i == 8 || i == 12 || i == 16 || i == 20 {
            with_hyphens(p.drop_last()) + seq!['-', p.last()]
        } else {
            with_hyphens(p.drop_last()).push(p.last())
        }
    }
}

proof fn lemma_with_hyphens_step(p: Seq<char>)
    requires
        p.len() > 0,
    ensures
        with_hyphens(p) == if p.len() - 1 == 8 || p.len() - 1 == 12 || p.len() - 1 == 16 || p.len()
            - 1 == 20 {
            with_hyphens(p.drop_last()) + seq!['-', p.last()]
        } else {
            with_hyphens(p.drop_last()).push(p.last())
        },
{
}

proof fn lemma_with_hyphens_full(h: Seq<char>)
    requires
        h.len() == 32,
    ensures
        with_hyphens(h) == h.subrange(0, 8) + seq!['-'] + h.subrange(8, 12) + seq!['-'] + h.subrange(
            12,
            16,
        ) + seq!['-'] + h.subrange(16, 20) + seq!['-'] + h.subrange(20, 32),
{
    assert forall|k: int| 0 <= k <= 32 implies #[trigger] with_hyphens(h.subrange(0, k))
        == hyphenated_prefix(h, k) by {
        lemma_with_hyphens_prefix(h, k);
    }
    assert(h.subrange(0, 32) =~= h);
    assert(hyphenated_prefix(h, 32) =~= h.subrange(0, 8) + seq!['-'] + h.subrange(8, 12) + seq!['-']
        + h.subrange(12, 16) + seq!['-'] + h.subrange(16, 20) + seq!['-'] + h.subrange(20, 32));
}

/// The hyphenated form of the first `k` digits, written piecewise.
spec fn hyphenated_prefix(h: Seq<char>, k: int) -> Seq<char> {
    if k <= 8 {
        h.subrange(0, k)
    } else if k <= 12 {
        h.subrange(0, 8) + seq!['-'] + h.subrange(8, k)
    } else if k <= 16 {
        h.subrange(0, 8) + seq!['-'] + h.subrange(8, 12) + seq!['-'] + h.subrange(12, k)
    } else if k <= 20 {
        h.subrange(0, 8) + seq!['-'] + h.subrange(8, 12) + seq!['-'] + h.subrange(12, 16) + seq!['-']
            + h.subrange(16, k)
    } else {
        h.subrange(0, 8) + seq!['-'] + h.subrange(8, 12) + seq!['-'] + h.subrange(12, 16) + seq!['-']
            + h.subrange(16, 20) + seq!['-'] + h.subrange(20, k)
    }
}

proof fn lemma_with_hyphens_prefix(h: Seq<char>, k: int)
    requires
        h.len() == 32,
        0 <= k <= 32,
    ensures
        with_hyphens(h.subrange(0, k)) == hyphenated_prefix(h, k),
    decreases k,
{
    let p = h.subrange(0, k);
    if k == 0 {
        assert(p =~= hyphenated_prefix(h, k));
    } else {
        lemma_with_hyphens_prefix(h, k - 1);
        assert(p.drop_last() =~= h.subrange(0, k - 1));
        assert(p.last() == h[k - 1]);
        assert(with_hyphens(p) =~= hyphenated_prefix(h, k));
    }
}

/// The hyphenated lowercase form of a UUID.
pub fn uuid_string(v: u128) -> (r: String)
    ensures
        r@ == uuid_text(v),
{
    let mut s = String::new();
    push_uuid(&mut s, v);
    assert(s@ =~= uuid_text(v));
    s
}

/// The UUID that `uuid::Uuid::parse_str` reads from a text, as an integer.
pub uninterp spec fn uuid_parsed(text: Seq<char>) -> Option<u128>;

/// Calls `uuid::Uuid::parse_str`; the UUID it reads is named `uuid_parsed`.
#[verifier::external_body]
pub(crate) fn parse_uuid(text: &str) -> (r: Option<u128>)
    ensures
        r == uuid_parsed(text@),
{
    match uuid::Uuid::parse_str(text) {
        Ok(u) => Some(u.as_u128()),
        Err(_) => None,
    }
}

/// Reads a UUID given on the command line, such as a game id.
pub fn parse_uuid_text(text: &str) -> (r: Option<u128>)
    ensures
        r == uuid_parsed(text@),
{
    parse_uuid(text)
}

} // verus!
