//! Code addresses embedded in device output, written `0x` and eight
//! hexadecimal digits.

use vstd::prelude::*;

verus! {

pub open spec fn is_hex_digit(b: u8) -> bool {
    (0x30 <= b && b <= 0x39) || (0x41 <= b && b <= 0x46) || (0x61 <= b && b <= 0x66)
}

pub open spec fn hex_digit_value(b: u8) -> nat {
    if b <= 0x39 {
        (b - 0x30) as nat
    } else if b <= 0x46 {
        (b - 0x41 + 10) as nat
    } else {
        (b - 0x61 + 10) as nat
    }
}

/// The number that a string of hexadecimal digits writes.
pub open spec fn hex_value(s: Seq<u8>) -> nat
    decreases s.len(),
{
    if s.len() == 0 {
        0
    } else {
        hex_value(s.drop_last()) * 16 + hex_digit_value(s.last())
    }
}

pub open spec fn pow16(k: nat) -> nat
    decreases k,
{
    if k == 0 {
        1
    } else {
        16 * pow16((k - 1) as nat)
    }
}

/// An address marker starts at `i`: `0x` and eight hexadecimal digits.
pub open spec fn marker_at(s: Seq<u8>, i: int) -> bool {
    &&& 0 <= i
    &&& i + 10 <= s.len()
    &&& s[i] == 0x30
    &&& s[i + 1] == 0x78
    &&& forall|k: int| i + 2 <= k < i + 10 ==> is_hex_digit(s[k])
}

/// The addresses of the markers in `s` from index `i` on, left to right;
/// a marker's characters belong to no other marker.
pub open spec fn addresses_from(s: Seq<u8>, i: int) -> Seq<u32>
    decreases s.len() - i,
{
    if i < 0 || i >= s.len() {
        Seq::empty()
    } else if marker_at(s, i) {
        seq![hex_value(s.subrange(i + 2, i + 10)) as u32] + addresses_from(s, i + 10)
    } else {
        addresses_from(s, i + 1)
    }
}

proof fn lemma_pow16_8()
    ensures
        pow16(8) == 0x1_0000_0000,
{
    reveal_with_fuel(pow16, 9);
}

/// The address of a marker at `i`, if one starts there.
fn marker_value(s: &[u8], i: usize) -> (r: Option<u32>)
    requires
        i + 10 <= s@.len(),
    ensures
        r.is_some() <==> marker_at(s@, i as int),
        r.is_some() ==> r.unwrap() == hex_value(s@.subrange(i + 2, i + 10)),
{
    if s[i] != 0x30 || s[i + 1] != 0x78 {
        return None;
    }
    let n = s.len();
    let mut acc: u64 = 0;
    let mut k: usize = 0;
    while k < 8
        invariant
            n == s@.len(),
            i + 10 <= s@.len(),
            s@[i as int] == 0x30,
            s@[i + 1] == 0x78,
            k <= 8,
            acc == hex_value(s@.subrange(i + 2, i + 2 + k)),
            acc < pow16(k as nat),
            forall|m: int| i + 2 <= m < i + 2 + k ==> is_hex_digit(s@[m]),
        decreases 8 - k,
    {
        let b = s[i + 2 + k];
        if !((0x30 <= b && b <= 0x39) || (0x41 <= b && b <= 0x46) || (0x61 <= b && b <= 0x66)) {
            return None;
        }
        let d: u64 = if b <= 0x39 {
            (b - 0x30) as u64
        } else if b <= 0x46 {
            (b - 0x41 + 10) as u64
        } else {
            (b - 0x61 + 10) as u64
        };
        let ghost p = pow16(k as nat);
        assert(pow16((k + 1) as nat) == 16 * p);
        assert(acc * 16 + d < 16 * p) by (nonlinear_arith)
            requires
                acc < p,
                d < 16,
        ;
        proof {
            lemma_pow16_8();
            lemma_pow16_monotone((k + 1) as nat, 8);
        }
        let ghost sub = s@.subrange(i + 2, i + 3 + k);
        assert(sub.drop_last() =~= s@.subrange(i + 2, i + 2 + k));
        assert(sub.last() == b);
        acc = acc * 16 + d;
        k = k + 1;
    }
    proof {
        lemma_pow16_8();
    }
    Some(acc as u32)
}

proof fn lemma_pow16_monotone(a: nat, b: nat)
    requires
        a <= b,
    ensures
        pow16(a) <= pow16(b),
    decreases b,
{
    if a < b {
        lemma_pow16_monotone(a, (b - 1) as nat);
    }
}

/// The addresses of all markers in a line, left to right.
pub fn addresses_in(line: &[u8]) -> (r: Vec<u32>)
    ensures
        r@ == addresses_from(line@, 0),
{
    let n = line.len();
    let mut found: Vec<u32> = Vec::new();
    let mut i: usize = 0;
    while i < n
        invariant
            n == line@.len(),
            i <= n + 9,
            found@ + addresses_from(line@, i as int) == addresses_from(line@, 0),
        decreases n - i,
    {
        let m = if n - i >= 10 {
            marker_value(line, i)
        } else {
            None
        };
        match m {
            Some(a) => {
                assert(found@.push(a) + addresses_from(line@, i + 10) =~= found@
                    + addresses_from(line@, i as int));
                found.push(a);
                i = i + 10;
            },
            None => {
                i = i + 1;
            },
        }
    }
    assert(addresses_from(line@, i as int) =~= Seq::<u32>::empty());
    assert(found@ =~= found@ + Seq::<u32>::empty());
    found
}

} // verus!
