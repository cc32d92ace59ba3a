//! Opaque entity identifiers.
//!
//! Every entity (game, user, player) is named by a 12-byte identifier with a
//! canonical 24-digit lowercase hexadecimal string encoding. The core only
//! needs equality on identifiers and the canonical string round trip; drawing
//! a fresh identifier is left to the object-id generator of the storage
//! driver's document format.

use vstd::prelude::*;
use vstd::string::StrSliceExecFns;

verus! {

/// An opaque 96-bit entity identifier, split into the 8 high bytes and the
/// 4 low bytes of its big-endian representation.
#[derive(Clone, Copy, PartialEq, Eq, Structural, Debug, Hash)]
pub struct Id {
    pub hi: u64,
    pub lo: u32,
}

/// Sixteen to the power `k`.
pub open spec fn pow16(k: nat) -> int
    decreases k,
{
    if k == 0 {
        1
    } else {
        16 * pow16((k - 1) as nat)
    }
}

/// The value of one hexadecimal digit, upper or lower case; anything else
/// is mapped outside the digit range.
pub open spec fn hex_char_val(c: char) -> int {
    if c == '0' { 0 }
    else if c == '1' { 1 }
    else if c == '2' { 2 }
    else if c == '3' { 3 }
    else if c == '4' { 4 }
    else if c == '5' { 5 }
    else if c == '6' { 6 }
    else if c == '7' { 7 }
    else if c == '8' { 8 }
    else if c == '9' { 9 }
    else if c == 'a' || c == 'A' { 10 }
    else if c == 'b' || c == 'B' { 11 }
    else if c == 'c' || c == 'C' { 12 }
    else if c == 'd' || c == 'D' { 13 }
    else if c == 'e' || c == 'E' { 14 }
    else if c == 'f' || c == 'F' { 15 }
    else { 16 }
}

/// The canonical (lowercase) digit for a value below sixteen.
pub open spec fn lower_hex_char(d: int) -> char {
    if d == 0 { '0' }
    else if d == 1 { '1' }
    else if d == 2 { '2' }
    else if d == 3 { '3' }
    else if d == 4 { '4' }
    else if d == 5 { '5' }
    else if d == 6 { '6' }
    else if d == 7 { '7' }
    else if d == 8 { '8' }
    else if d == 9 { '9' }
    else if d == 10 { 'a' }
    else if d == 11 { 'b' }
    else if d == 12 { 'c' }
    else if d == 13 { 'd' }
    else if d == 14 { 'e' }
    else { 'f' }
}

/// True when `c` is a canonical (lowercase) hexadecimal digit.
pub open spec fn is_lower_hex_digit(c: char) -> bool {
    0 <= hex_char_val(c) < 16 && c == lower_hex_char(hex_char_val(c))
}

/// True when every character of `s` is a hexadecimal digit.
pub open spec fn all_hex(s: Seq<char>) -> bool {
    forall|i: int| 0 <= i < s.len() ==> 0 <= #[trigger] hex_char_val(s[i]) < 16
}

/// The value of a sequence of hexadecimal digits, most significant first.
pub open spec fn hex_seq_val(s: Seq<char>) -> int
    decreases s.len(),
{
    if s.len() == 0 {
        0
    } else {
        hex_seq_val(s.drop_last()) * 16 + hex_char_val(s.last())
    }
}

/// The canonical digit for a value below sixteen.
fn hex_digit_char(d: u8) -> (c: char)
    requires
        d < 16,
    ensures
        c == lower_hex_char(d as int),
        hex_char_val(c) == d as int,
{
    match d {
        0 => '0',
        1 => '1',
        2 => '2',
        3 => '3',
        4 => '4',
        5 => '5',
        6 => '6',
        7 => '7',
        8 => '8',
        9 => '9',
        10 => 'a',
        11 => 'b',
        12 => 'c',
        13 => 'd',
        14 => 'e',
        _ => 'f',
    }
}

/// The value of a hexadecimal digit, either case, or nothing.
fn hex_digit_value(c: char) -> (v: Option<u8>)
    ensures
        match v {
            Some(d) => d < 16 && d as int == hex_char_val(c),
            None => !(0 <= hex_char_val(c) < 16),
        },
{
    match c {
        '0' => Some(0),
        '1' => Some(1),
        '2' => Some(2),
        '3' => Some(3),
        '4' => Some(4),
        '5' => Some(5),
        '6' => Some(6),
        '7' => Some(7),
        '8' => Some(8),
        '9' => Some(9),
        'a' | 'A' => Some(10),
        'b' | 'B' => Some(11),
        'c' | 'C' => Some(12),
        'd' | 'D' => Some(13),
        'e' | 'E' => Some(14),
        'f' | 'F' => Some(15),
        _ => None,
    }
}

/// Appends the `n`-digit canonical hexadecimal rendering of `v` to `out`,
/// most significant digit first.
fn push_hex(out: &mut Vec<char>, v: u64, n: usize)
    requires
        n <= 16,
        (v as int) < pow16(n as nat),
        old(out)@.len() + n <= usize::MAX,
    ensures
        final(out)@.len() == old(out)@.len() + n,
        final(out)@.take(old(out)@.len() as int) == old(out)@,
        forall|j: int|
            old(out)@.len() <= j < final(out)@.len() ==> is_lower_hex_digit(final(out)@[j]),
        hex_seq_val(final(out)@.skip(old(out)@.len() as int)) == v as int,
    decreases n,
{
    if n == 0 {
        proof {
            assert(out@.take(old(out)@.len() as int) =~= old(out)@);
            assert(out@.skip(old(out)@.len() as int) =~= Seq::<char>::empty());
        }
        return ;
    }
    proof {
        assert(pow16(n as nat) == 16 * pow16((n - 1) as nat));
        assert(((v / 16) as int) < pow16((n - 1) as nat));
    }
    push_hex(out, v / 16, n - 1);
    let d = (v % 16) as u8;
    let ghost mid = out@;
    out.push(hex_digit_char(d));
    proof {
        let base = old(out)@.len() as int;
        assert(out@.take(base) =~= old(out)@);
        let suffix = out@.skip(base);
        assert(suffix.drop_last() =~= mid.skip(base));
        assert(suffix.last() == lower_hex_char(d as int));
        assert(hex_seq_val(suffix) == (v / 16) as int * 16 + (v % 16) as int);
        assert(v as int == (v / 16) as int * 16 + (v % 16) as int);
    }
}

/// Parses digits `from .. to` of `v` as one hexadecimal number, most
/// significant digit first. Nothing if any of them is not a digit.
fn parse_hex_part(v: &Vec<char>, from: usize, to: usize) -> (r: Option<u64>)
    requires
        from <= to <= v@.len(),
        to - from <= 16,
    ensures
        match r {
            Some(x) => all_hex(v@.subrange(from as int, to as int)) && x as int == hex_seq_val(
                v@.subrange(from as int, to as int),
            ) && (x as int) < pow16((to - from) as nat),
            None => !all_hex(v@.subrange(from as int, to as int)),
        },
{
    let mut acc: u64 = 0;
    let mut k: usize = from;
    while k < to
        invariant
            from <= k <= to,
            to <= v@.len(),
            to - from <= 16,
            acc as int == hex_seq_val(v@.subrange(from as int, k as int)),
            (acc as int) < pow16((k - from) as nat),
            all_hex(v@.subrange(from as int, k as int)),
        decreases to - k,
    {
        let d = match hex_digit_value(v[k]) {
            Some(d) => d,
            None => {
                proof {
                    let s = v@.subrange(from as int, to as int);
                    assert(s[k - from] == v@[k as int]);
                    assert(!(0 <= hex_char_val(s[k - from]) < 16));
                }
                return None;
            },
        };
        proof {
            assert(pow16(((k + 1) - from) as nat) == 16 * pow16((k - from) as nat));
            assert(pow16((k - from) as nat) <= pow16(15)) by {
                lemma_pow16_increases((k - from) as nat, 15);
            }
            assert(pow16(16) == 16 * pow16(15));
            lemma_pow16_16();
        }
        acc = acc * 16 + (d as u64);
        proof {
            let prev = v@.subrange(from as int, k as int);
            let cur = v@.subrange(from as int, (k + 1) as int);
            assert(cur.drop_last() =~= prev);
            assert(cur.last() == v@[k as int]);
        }
        k = k + 1;
    }
    proof {
        assert(v@.subrange(from as int, k as int) =~= v@.subrange(from as int, to as int));
    }
    Some(acc)
}

/// `pow16` is positive.
proof fn lemma_pow16_pos(k: nat)
    ensures
        pow16(k) >= 1,
    decreases k,
{
    if k > 0 {
        lemma_pow16_pos((k - 1) as nat);
    }
}

/// `pow16` grows with its exponent.
proof fn lemma_pow16_increases(a: nat, b: nat)
    requires
        a <= b,
    ensures
        pow16(a) <= pow16(b),
    decreases b,
{
    if a < b {
        lemma_pow16_increases(a, (b - 1) as nat);
        lemma_pow16_pos((b - 1) as nat);
        assert(pow16(b) == 16 * pow16((b - 1) as nat));
    }
}

/// The numeric reach of the two encoded halves.
proof fn lemma_pow16_16()
    ensures
        pow16(16) == 0x10000000000000000,
        pow16(8) == 0x100000000,
{
    reveal_with_fuel(pow16, 17);
}

/// Collects the characters of a string, in order.
pub(crate) fn str_chars(s: &str) -> (v: Vec<char>)
    ensures
        v@ == s@,
{
    let n = s.unicode_len();
    let mut v: Vec<char> = Vec::new();
    let mut i: usize = 0;
    while i < n
        invariant
            i <= n,
            n == s@.len(),
            v@ == s@.take(i as int),
        decreases n - i,
    {
        let c = s.get_char(i);
        v.push(c);
        proof {
            assert(v@ =~= s@.take(i + 1 as int));
        }
        i = i + 1;
    }
    proof {
        assert(v@ =~= s@);
    }
    v
}

/// Turns a character sequence into a string.
///
/// Relies on `String`'s `FromIterator<char>` implementation in std: the
/// resulting string holds exactly the characters of `v`, in order.
#[verifier::external_body]
fn string_from_chars(v: Vec<char>) -> (s: String)
    ensures
        s@ == v@,
{
    String::from_iter(v)
}

/// Twelve bytes of a freshly generated object identifier.
///
/// Relies on `bson::oid::ObjectId::new` and `ObjectId::bytes`: a 12-byte
/// identifier drawn from the clock, a process-wide random value and a
/// counter, so nothing is promised of the bytes beyond their number.
#[verifier::external_body]
fn fresh_id_bytes() -> (b: Vec<u8>)
    ensures
        b@.len() == 12,
{
    bson::oid::ObjectId::new().bytes().to_vec()
}

impl Id {
    /// Draws a fresh identifier. The value is as unpredictable as the
    /// underlying object-id generator makes it; nothing is promised of it.
    pub fn fresh() -> Id {
        let b = fresh_id_bytes();
        let mut hi: u64 = 0;
        let mut i: usize = 0;
        while i < 8
            invariant
                i <= 8,
                b@.len() == 12,
                hi < pow16((2 * i) as nat),
            decreases 8 - i,
        {
            proof {
                assert(pow16((2 * (i + 1)) as nat) == 16 * pow16((2 * i + 1) as nat));
                assert(pow16((2 * i + 1) as nat) == 16 * pow16((2 * i) as nat));
                lemma_pow16_increases((2 * i + 2) as nat, 16);
                lemma_pow16_16();
            }
            hi = hi * 256 + (b[i] as u64);
            i = i + 1;
        }
        let mut lo: u32 = 0;
        let mut j: usize = 8;
        while j < 12
            invariant
                8 <= j <= 12,
                b@.len() == 12,
                lo < pow16((2 * (j - 8)) as nat),
            decreases 12 - j,
        {
            proof {
                assert(pow16((2 * (j - 7)) as nat) == 16 * pow16((2 * (j - 8) + 1) as nat));
                assert(pow16((2 * (j - 8) + 1) as nat) == 16 * pow16((2 * (j - 8)) as nat));
                lemma_pow16_increases((2 * (j - 7)) as nat, 8);
                lemma_pow16_16();
            }
            lo = lo * 256 + (b[j] as u32);
            j = j + 1;
        }
        Id { hi, lo }
    }

    /// The canonical encoding: 24 lowercase hexadecimal digits, the high
    /// half first, each half most significant digit first.
    pub fn to_hex(&self) -> (r: String)
        ensures
            r@.len() == 24,
            forall|j: int| 0 <= j < 24 ==> is_lower_hex_digit(r@[j]),
            hex_seq_val(r@.take(16)) == self.hi as int,
            hex_seq_val(r@.skip(16)) == self.lo as int,
    {
        proof {
            lemma_pow16_16();
        }
        let mut digits: Vec<char> = Vec::new();
        push_hex(&mut digits, self.hi, 16);
        let ghost half = digits@;
        push_hex(&mut digits, self.lo as u64, 8);
        proof {
            assert(half.skip(0) =~= half);
            assert(digits@.take(16) == half);
            assert forall|j: int| 0 <= j < 24 implies is_lower_hex_digit(digits@[j]) by {
                if j < 16 {
                    assert(digits@.take(16)[j] == digits@[j]);
                } else {
                    assert(digits@.skip(16)[j - 16] == digits@[j]);
                }
            }
        }
        let s = string_from_chars(digits);
        s
    }

    /// Parses the canonical encoding: exactly 24 hexadecimal digits, either
    /// case. Anything else is rejected.
    pub fn from_hex(s: &str) -> (r: Option<Id>)
        ensures
            match r {
                Some(id) => s@.len() == 24 && all_hex(s@) && id.hi as int == hex_seq_val(
                    s@.take(16),
                ) && id.lo as int == hex_seq_val(s@.skip(16)),
                None => !(s@.len() == 24 && all_hex(s@)),
            },
    {
        let chars = str_chars(s);
        if chars.len() != 24 {
            return None;
        }
        let hi = match parse_hex_part(&chars, 0, 16) {
            Some(x) => x,
            None => {
                proof {
                    if all_hex(s@) {
                        lemma_sub_all_hex(s@, 0, 16);
                    }
                }
                return None;
            },
        };
        let lo64 = match parse_hex_part(&chars, 16, 24) {
            Some(x) => x,
            None => {
                proof {
                    if all_hex(s@) {
                        lemma_sub_all_hex(s@, 16, 24);
                    }
                }
                return None;
            },
        };
        proof {
            lemma_pow16_16();
            assert(s@.subrange(0, 16) =~= s@.take(16));
            assert(s@.subrange(16, 24) =~= s@.skip(16));
            assert(all_hex(s@)) by {
                assert forall|i: int| 0 <= i < 24 implies 0 <= #[trigger] hex_char_val(s@[i])
                    < 16 by {
                    if i < 16 {
                        assert(s@.subrange(0, 16)[i] == s@[i]);
                    } else {
                        assert(s@.subrange(16, 24)[i - 16] == s@[i]);
                    }
                }
            }
        }
        Some(Id { hi, lo: lo64 as u32 })
    }

    /// The canonical encoding round-trips: parsing an identifier's encoding
    /// yields the identifier back.
    pub fn hex_round_trip(&self) -> (r: Option<Id>)
        ensures
            r == Some(*self),
    {
        let s = self.to_hex();
        Id::from_hex(s.as_str())
    }
}

/// If the whole sequence is hexadecimal, so is any of its subranges.
proof fn lemma_sub_all_hex(s: Seq<char>, from: int, to: int)
    requires
        0 <= from <= to <= s.len(),
        all_hex(s),
    ensures
        all_hex(s.subrange(from, to)),
{
    assert forall|i: int| 0 <= i < to - from implies 0 <= #[trigger] hex_char_val(
        s.subrange(from, to)[i],
    ) < 16 by {
        assert(s.subrange(from, to)[i] == s[from + i]);
    }
}

} // verus!
