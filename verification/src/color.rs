//! Parsing of `#RRGGBB` colour strings.

use vstd::prelude::*;
use vstd::string::*;
use vstd::utf8::*;

verus! {

/// The text left once every leading `#` has been removed.
pub open spec fn strip_hashes(s: Seq<char>) -> Seq<char>
    decreases s.len(),
{
    if s.len() > 0 && s[0] == '#' {
        strip_hashes(s.drop_first())
    } else {
        s
    }
}

/// The value of a hexadecimal digit, if `c` is one (either case).
pub open spec fn hex_digit_value(c: char) -> Option<nat> {
    let u = c as u32;
    if 0x30 <= u <= 0x39 {
        Some((u - 0x30) as nat)
    } else if 0x61 <= u <= 0x66 {
        Some((u - 0x61 + 10) as nat)
    } else if 0x41 <= u <= 0x46 {
        Some((u - 0x41 + 10) as nat)
    } else {
        None
    }
}

pub open spec fn all_hex_digits(d: Seq<char>) -> bool {
    forall|i: int| 0 <= i < d.len() ==> (#[trigger] hex_digit_value(d[i])) is Some
}

/// Big-endian base-16 value of a digit sequence.
pub open spec fn hex_value(d: Seq<char>) -> nat
    decreases d.len(),
{
    if d.len() == 0 {
        0
    } else {
        hex_value(d.drop_last()) * 16 + hex_digit_value(d.last()).unwrap_or(0)
    }
}

/// The digits of an unsigned radix-16 literal: an optional `+` sign is skipped.
pub open spec fn unsigned_digits(s: Seq<char>) -> Seq<char> {
    if s.len() > 0 && s[0] == '+' {
        s.drop_first()
    } else {
        s
    }
}

/// Whether `s` is an optional `+` followed by at least one hexadecimal digit
/// (for texts of at most eight digits this is exactly the acceptance rule of
/// `u32::from_str_radix(s, 16)`).
pub open spec fn is_unsigned_hex(s: Seq<char>) -> bool {
    let d = unsigned_digits(s);
    d.len() > 0 && all_hex_digits(d)
}

pub open spec fn color_length_message(t: Seq<char>) -> Seq<char> {
    "颜色格式应为 #RRGGBB，当前为："@ + t
}

pub open spec fn color_digits_message(t: Seq<char>) -> Seq<char> {
    "颜色格式错误："@ + t
}

/// What parsing the colour text `hex` yields: the three channel bytes, or
/// the error message.  The text, stripped of leading `#`, must be six bytes
/// of UTF-8 that read as an unsigned hexadecimal number.
pub open spec fn hex_color_spec(hex: Seq<char>) -> Result<(u8, u8, u8), Seq<char>> {
    let t = strip_hashes(hex);
    if encode_utf8(t).len() != 6 {
        Err(color_length_message(t))
    } else if !is_unsigned_hex(t) {
        Err(color_digits_message(t))
    } else {
        let v = hex_value(unsigned_digits(t));
        Ok(((v / 65536) as u8, ((v / 256) % 256) as u8, (v % 256) as u8))
    }
}

pub open spec fn pow16(n: nat) -> nat
    decreases n,
{
    if n == 0 {
        1
    } else {
        16 * pow16((n - 1) as nat)
    }
}

proof fn lemma_hex_value_bound(d: Seq<char>)
    ensures
        hex_value(d) < pow16(d.len()),
    decreases d.len(),
{
    if d.len() > 0 {
        lemma_hex_value_bound(d.drop_last());
        let c = d.last();
        assert(hex_digit_value(c).unwrap_or(0) < 16);
    }
}

fn strip_leading_hashes(s: &str) -> (r: &str)
    ensures
        r@ == strip_hashes(s@),
{
    let n = s.unicode_len();
    let mut i: usize = 0;
    assert(s@.skip(0) =~= s@);
    while i < n && s.get_char(i) == '#'
        invariant
            n == s@.len(),
            i <= n,
            strip_hashes(s@) == strip_hashes(s@.skip(i as int)),
        decreases n - i,
    {
        assert(s@.skip(i as int).drop_first() =~= s@.skip(i + 1));
        i = i + 1;
    }
    assert(strip_hashes(s@.skip(i as int)) == s@.skip(i as int));
    assert(s@.subrange(i as int, n as int) =~= s@.skip(i as int));
    s.substring_char(i, n)
}

fn hex_digit(c: char) -> (r: Option<u32>)
    ensures
        match r {
            Some(v) => hex_digit_value(c) == Some(v as nat),
            None => hex_digit_value(c) is None,
        },
{
    let u = c as u32;
    if 0x30 <= u && u <= 0x39 {
        Some(u - 0x30)
    } else if 0x61 <= u && u <= 0x66 {
        Some(u - 0x61 + 10)
    } else if 0x41 <= u && u <= 0x46 {
        Some(u - 0x41 + 10)
    } else {
        None
    }
}

/// Parses a colour written as `#RRGGBB` (any number of leading `#`, digits
/// of either case) into its red, green and blue bytes.
pub fn parse_hex_color(hex: &str) -> (r: Result<[u8; 3], String>)
    ensures
        match r {
            Ok(rgb) => hex_color_spec(hex@) == Ok::<(u8, u8, u8), Seq<char>>((rgb[0], rgb[1], rgb[2])),
            Err(msg) => hex_color_spec(hex@) == Err::<(u8, u8, u8), Seq<char>>(msg@),
        },
{
    let t = strip_leading_hashes(hex);
    if t.as_bytes().len() != 6 {
        let mut msg = String::from_str("颜色格式应为 #RRGGBB，当前为：");
        msg.append(t);
        return Err(msg);
    }
    proof {
        lemma_encode_utf8_len(t@);
    }
    let n = t.unicode_len();
    let start: usize = if n > 0 && t.get_char(0) == '+' { 1 } else { 0 };
    let ghost d = unsigned_digits(t@);
    assert(d =~= t@.skip(start as int));
    let mut v: u32 = 0;
    let mut i: usize = start;
    while i < n
        invariant
            n == t@.len(),
            n <= 6,
            start <= i <= n,
            d == t@.skip(start as int),
            d == unsigned_digits(t@),
            t@ == strip_hashes(hex@),
            encode_utf8(t@).len() == 6,
            all_hex_digits(d.take(i - start)),
            v == hex_value(d.take(i - start)),
        decreases n - i,
    {
        match hex_digit(t.get_char(i)) {
            Some(dv) => {
                let ghost k = i - start;
                proof {
                    lemma_hex_value_bound(d.take(k));
                    reveal_with_fuel(pow16, 6);
                    assert(pow16(5) == 1048576);
                    assert(d.take(k + 1).drop_last() =~= d.take(k));
                    assert(d.take(k + 1).last() == t@[i as int]);
                    if k < 6 {
                        lemma_pow16_mono(k as nat, 5);
                    }
                }
                v = v * 16 + dv;
                i = i + 1;
            },
            None => {
                proof {
                    assert(d[i - start] == t@[i as int]);
                    assert(hex_digit_value(d[i - start]) is None);
                }
                let mut msg = String::from_str("颜色格式错误：");
                msg.append(t);
                return Err(msg);
            },
        }
    }
    if start == n {
        let mut msg = String::from_str("颜色格式错误：");
        msg.append(t);
        return Err(msg);
    }
    assert(d.take(n - start) =~= d);
    proof {
        lemma_hex_value_bound(d);
        lemma_pow16_mono(d.len(), 6);
        reveal_with_fuel(pow16, 7);
        assert(pow16(6) == 16777216);
    }
    Ok([(v / 65536) as u8, ((v / 256) % 256) as u8, (v % 256) as u8])
}

/// Every character takes at least one byte of UTF-8.
proof fn lemma_encode_utf8_len(chars: Seq<char>)
    ensures
        chars.len() <= encode_utf8(chars).len(),
    decreases chars.len(),
{
    if chars.len() > 0 {
        lemma_encode_utf8_len(chars.drop_first());
    }
}

/// Characters below U+0080 take one byte each.
proof fn lemma_encode_utf8_ascii_len(chars: Seq<char>)
    requires
        forall|i: int| 0 <= i < chars.len() ==> (#[trigger] chars[i] as u32) < 0x80,
    ensures
        encode_utf8(chars).len() == chars.len(),
    decreases chars.len(),
{
    if chars.len() > 0 {
        assert((chars[0] as u32) < 0x80);
        let rest = chars.drop_first();
        assert forall|i: int| 0 <= i < rest.len() implies (#[trigger] rest[i] as u32) < 0x80 by {
            assert(rest[i] == chars[i + 1]);
        }
        lemma_encode_utf8_ascii_len(rest);
    }
}

/// Leading `#` signs make no difference to how a colour text reads.
pub proof fn law_leading_hash_ignored(s: Seq<char>)
    ensures
        hex_color_spec(seq!['#'] + s) == hex_color_spec(s),
{
    assert((seq!['#'] + s).drop_first() =~= s);
}

/// Six hexadecimal digits `RRGGBB` (no sign, no `#`) read as the three
/// channel bytes `0xRR`, `0xGG`, `0xBB`.
pub proof fn law_rrggbb_channels(s: Seq<char>)
    requires
        s.len() == 6,
        all_hex_digits(s),
    ensures
        ({
            let d = |i: int| hex_digit_value(s[i]).unwrap();
            hex_color_spec(s) == Ok::<(u8, u8, u8), Seq<char>>(
                (
                    (d(0) * 16 + d(1)) as u8,
                    (d(2) * 16 + d(3)) as u8,
                    (d(4) * 16 + d(5)) as u8,
                ),
            )
        }),
{
    let d = |i: int| hex_digit_value(s[i]).unwrap();
    assert forall|i: int| 0 <= i < s.len() implies (#[trigger] s[i] as u32) < 0x80 by {
        assert(hex_digit_value(s[i]) is Some);
    }
    assert(hex_digit_value(s[0]) is Some);
    assert(strip_hashes(s) == s);
    assert(unsigned_digits(s) == s);
    lemma_encode_utf8_ascii_len(s);
    assert forall|i: int| 0 <= i < 6 implies #[trigger] d(i) < 16 by {
        assert(hex_digit_value(s[i]) is Some);
    }
    let s5 = s.drop_last();
    let s4 = s5.drop_last();
    let s3 = s4.drop_last();
    let s2 = s3.drop_last();
    let s1 = s2.drop_last();
    let s0 = s1.drop_last();
    assert(s0.len() == 0);
    assert(s1.last() == s[0] && s2.last() == s[1] && s3.last() == s[2]);
    assert(s4.last() == s[3] && s5.last() == s[4] && s.last() == s[5]);
    assert(hex_value(s0) == 0);
    assert forall|i: int| 0 <= i < 6 implies (#[trigger] hex_digit_value(s[i])).unwrap_or(0) == d(i) by {
        assert(hex_digit_value(s[i]) is Some);
    }
    assert(hex_value(s1) == d(0));
    assert(hex_value(s2) == d(0) * 16 + d(1));
    assert(hex_value(s3) == hex_value(s2) * 16 + d(2));
    assert(hex_value(s4) == hex_value(s3) * 16 + d(3));
    assert(hex_value(s5) == hex_value(s4) * 16 + d(4));
    assert(hex_value(s) == hex_value(s5) * 16 + d(5));
    let (a, b, c) = (d(0) * 16 + d(1), d(2) * 16 + d(3), d(4) * 16 + d(5));
    assert(hex_value(s) == a * 65536 + b * 256 + c);
    assert(0 <= a < 256 && 0 <= b < 256 && 0 <= c < 256);
    let v = hex_value(s);
    assert(v / 65536 == a && (v / 256) % 256 == b && v % 256 == c) by (nonlinear_arith)
        requires
            v == a * 65536 + b * 256 + c,
            0 <= a < 256,
            0 <= b < 256,
            0 <= c < 256,
    ;
}

pub open spec fn lower_hex_digits() -> Seq<char> {
    seq!['0', '1', '2', '3', '4', '5', '6', '7', '8', '9', 'a', 'b', 'c', 'd', 'e', 'f']
}

pub open spec fn upper_hex_digits() -> Seq<char> {
    seq!['0', '1', '2', '3', '4', '5', '6', '7', '8', '9', 'A', 'B', 'C', 'D', 'E', 'F']
}

/// A byte as two hexadecimal digits (`{:02x}`, or `{:02X}` with `upper`).
pub open spec fn byte_hex(b: u8, upper: bool) -> Seq<char> {
    let t = if upper {
        upper_hex_digits()
    } else {
        lower_hex_digits()
    };
    seq![t[(b / 16) as int], t[(b % 16) as int]]
}

/// Three bytes written as `RRGGBB`.
pub open spec fn rgb_hex(r: u8, g: u8, b: u8, upper: bool) -> Seq<char> {
    byte_hex(r, upper) + byte_hex(g, upper) + byte_hex(b, upper)
}

proof fn lemma_digit_tables(v: int)
    requires
        0 <= v < 16,
    ensures
        hex_digit_value(lower_hex_digits()[v]) == Some(v as nat),
        hex_digit_value(upper_hex_digits()[v]) == Some(v as nat),
{
    let (l, u) = (lower_hex_digits(), upper_hex_digits());
    if v == 0 {
        assert(l[v] == '0' && u[v] == '0');
    } else if v == 1 {
        assert(l[v] == '1' && u[v] == '1');
    } else if v == 2 {
        assert(l[v] == '2' && u[v] == '2');
    } else if v == 3 {
        assert(l[v] == '3' && u[v] == '3');
    } else if v == 4 {
        assert(l[v] == '4' && u[v] == '4');
    } else if v == 5 {
        assert(l[v] == '5' && u[v] == '5');
    } else if v == 6 {
        assert(l[v] == '6' && u[v] == '6');
    } else if v == 7 {
        assert(l[v] == '7' && u[v] == '7');
    } else if v == 8 {
        assert(l[v] == '8' && u[v] == '8');
    } else if v == 9 {
        assert(l[v] == '9' && u[v] == '9');
    } else if v == 10 {
        assert(l[v] == 'a' && u[v] == 'A');
    } else if v == 11 {
        assert(l[v] == 'b' && u[v] == 'B');
    } else if v == 12 {
        assert(l[v] == 'c' && u[v] == 'C');
    } else if v == 13 {
        assert(l[v] == 'd' && u[v] == 'D');
    } else if v == 14 {
        assert(l[v] == 'e' && u[v] == 'E');
    } else {
        assert(l[v] == 'f' && u[v] == 'F');
    }
}

/// Three bytes written as `#rrggbb` (lower case) or `RRGGBB` (upper case)
/// read back as those bytes.
pub proof fn law_formatted_color_reads_back(r: u8, g: u8, b: u8)
    ensures
        hex_color_spec(seq!['#'] + rgb_hex(r, g, b, false)) == Ok::<(u8, u8, u8), Seq<char>>(
            (r, g, b),
        ),
        hex_color_spec(rgb_hex(r, g, b, true)) == Ok::<(u8, u8, u8), Seq<char>>((r, g, b)),
{
    lemma_formatted_reads_back(r, g, b, false);
    lemma_formatted_reads_back(r, g, b, true);
    law_leading_hash_ignored(rgb_hex(r, g, b, false));
}

proof fn lemma_formatted_reads_back(r: u8, g: u8, b: u8, upper: bool)
    ensures
        hex_color_spec(rgb_hex(r, g, b, upper)) == Ok::<(u8, u8, u8), Seq<char>>((r, g, b)),
{
    let s = rgb_hex(r, g, b, upper);
    let t = if upper {
        upper_hex_digits()
    } else {
        lower_hex_digits()
    };
    let vals = seq![r / 16, r % 16, g / 16, g % 16, b / 16, b % 16];
    assert(s.len() == 6);
    assert forall|i: int| 0 <= i < 6 implies s[i] == t[vals[i] as int] && hex_digit_value(s[i])
        == Some(vals[i] as nat) by {
        lemma_digit_tables(vals[i] as int);
    }
    assert forall|i: int| 0 <= i < s.len() implies (#[trigger] hex_digit_value(s[i])) is Some by {
        lemma_digit_tables(vals[i] as int);
    }
    law_rrggbb_channels(s);
    assert(hex_digit_value(s[0]).unwrap() == r / 16);
    assert(hex_digit_value(s[1]).unwrap() == r % 16);
    assert(hex_digit_value(s[2]).unwrap() == g / 16);
    assert(hex_digit_value(s[3]).unwrap() == g % 16);
    assert(hex_digit_value(s[4]).unwrap() == b / 16);
    assert(hex_digit_value(s[5]).unwrap() == b % 16);
}

proof fn lemma_pow16_mono(a: nat, b: nat)
    requires
        a <= b,
    ensures
        pow16(a) <= pow16(b),
    decreases b - a,
{
    if a < b {
        lemma_pow16_mono(a, (b - 1) as nat);
    }
}

} // verus!
