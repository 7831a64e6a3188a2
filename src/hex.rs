//! Unsigned hexadecimal numbers, as `u64::from_str_radix(_, 16)` reads them:
//! an optional `+`, then one or more digits of either case, with a value that
//! fits in 64 bits.
use vstd::prelude::*;

verus! {

pub open spec fn is_hex_digit(b: u8) -> bool {
    (0x30 <= b <= 0x39) || (0x41 <= b <= 0x46) || (0x61 <= b <= 0x66)
}

pub open spec fn hex_digit_value(b: u8) -> int {
    if b <= 0x39 {
        b - 0x30
    } else if b <= 0x46 {
        b - 0x41 + 10
    } else {
        b - 0x61 + 10
    }
}

pub open spec fn all_hex(s: Seq<u8>) -> bool {
    forall|i: int| 0 <= i < s.len() ==> is_hex_digit(#[trigger] s[i])
}

/// The value of a string of hex digits, most significant first.
pub open spec fn hex_value(s: Seq<u8>) -> int
    decreases s.len(),
{
    if s.len() == 0 {
        0
    } else {
        hex_value(s.drop_last()) * 16 + hex_digit_value(s.last())
    }
}

/// The digits of `s`, once an optional leading `+` is removed.
pub open spec fn hex_digits_of(s: Seq<u8>) -> Seq<u8> {
    if s.len() > 0 && s[0] == 0x2B {
        s.subrange(1, s.len() as int)
    } else {
        s
    }
}

pub open spec fn parse_hex_spec(s: Seq<u8>) -> Option<u64> {
    let d = hex_digits_of(s);
    if d.len() > 0 && all_hex(d) && hex_value(d) <= u64::MAX {
        Some(hex_value(d) as u64)
    } else {
        None
    }
}

proof fn lemma_hex_value_nonneg(s: Seq<u8>)
    requires
        all_hex(s),
    ensures
        hex_value(s) >= 0,
    decreases s.len(),
{
    if s.len() > 0 {
        assert(all_hex(s.drop_last()));
        lemma_hex_value_nonneg(s.drop_last());
    }
}

/// A prefix of a digit string is worth no more than the whole string.
proof fn lemma_hex_prefix_le(s: Seq<u8>, k: int)
    requires
        all_hex(s),
        0 <= k <= s.len(),
    ensures
        hex_value(s.subrange(0, k)) <= hex_value(s),
    decreases s.len(),
{
    if k == s.len() {
        assert(s.subrange(0, k) =~= s);
    } else {
        let t = s.drop_last();
        assert(all_hex(t));
        lemma_hex_prefix_le(t, k);
        assert(t.subrange(0, k) =~= s.subrange(0, k));
        lemma_hex_value_nonneg(t);
        assert(is_hex_digit(s.last()));
    }
}

pub fn hex_digit(b: u8) -> (r: Option<u64>)
    ensures
        r is Some <==> is_hex_digit(b),
        r matches Some(v) ==> v as int == hex_digit_value(b) && v < 16,
{
    if 0x30 <= b && b <= 0x39 {
        Some((b - 0x30) as u64)
    } else if 0x41 <= b && b <= 0x46 {
        Some((b - 0x41 + 10) as u64)
    } else if 0x61 <= b && b <= 0x66 {
        Some((b - 0x61 + 10) as u64)
    } else {
        None
    }
}

/// Reads an unsigned hexadecimal number.
pub fn parse_hex(s: &[u8]) -> (r: Option<u64>)
    ensures
        r == parse_hex_spec(s@),
{
    let n = s.len();
    let start: usize = if n > 0 && s[0] == 0x2B { 1 } else { 0 };
    let ghost d = s@.subrange(start as int, n as int);
    proof {
        assert(d =~= hex_digits_of(s@));
    }
    if start == n {
        return None;
    }
    let mut acc: u64 = 0;
    let mut i: usize = start;
    proof {
        assert(s@.subrange(start as int, i as int) =~= Seq::<u8>::empty());
    }
    while i < n
        invariant
            n == s@.len(),
            start <= i <= n,
            d == s@.subrange(start as int, n as int),
            d == hex_digits_of(s@),
            all_hex(s@.subrange(start as int, i as int)),
            acc as int == hex_value(s@.subrange(start as int, i as int)),
        decreases n - i,
    {
        let ghost pre = s@.subrange(start as int, i as int);
        let ghost next = s@.subrange(start as int, i + 1);
        proof {
            assert(next.drop_last() =~= pre);
            assert(next =~= d.subrange(0, i + 1 - start));
        }
        let v = match hex_digit(s[i]) {
            Some(v) => v,
            None => {
                proof {
                    assert(d[i - start] == s@[i as int]);
                }
                return None;
            },
        };
        if acc >= 0x1000_0000_0000_0000 {
            proof {
                assert(all_hex(next));
                assert(hex_value(next) > u64::MAX);
                if all_hex(d) {
                    lemma_hex_prefix_le(d, i + 1 - start);
                }
            }
            return None;
        }
        proof {
            assert(all_hex(next));
        }
        acc = acc * 16 + v;
        i = i + 1;
    }
    proof {
        assert(s@.subrange(start as int, i as int) =~= d);
    }
    Some(acc)
}

} // verus!
