//! Hexadecimal digits and numbers as they appear in ALF lines.
use vstd::prelude::*;
use vstd::string::*;

verus! {

/// The value of `c` as a hexadecimal digit (`0-9`, `a-f`, `A-F`), if it is one.
pub open spec fn hex_value(c: char) -> Option<u32> {
    let n = c as u32;
    if 0x30 <= n <= 0x39 {
        Some((n - 0x30) as u32)
    } else if 0x41 <= n <= 0x46 {
        Some((n - 0x37) as u32)
    } else if 0x61 <= n <= 0x66 {
        Some((n - 0x57) as u32)
    } else {
        None
    }
}

pub open spec fn is_hex(c: char) -> bool {
    hex_value(c) is Some
}

/// The value of a hexadecimal digit (meaningful only when `is_hex(c)`).
pub open spec fn digit(c: char) -> nat {
    hex_value(c).unwrap() as nat
}

pub open spec fn all_hex(s: Seq<char>) -> bool {
    forall|i: int| 0 <= i < s.len() ==> #[trigger] is_hex(s[i])
}

/// The number that the hexadecimal digits `s` spell, most significant first.
pub open spec fn hex_number(s: Seq<char>) -> nat
    decreases s.len(),
{
    if s.len() == 0 {
        0
    } else {
        hex_number(s.drop_last()) * 16 + digit(s.last())
    }
}

/// The sum of the values of the hexadecimal digits `s`.
pub open spec fn digit_sum(s: Seq<char>) -> nat
    decreases s.len(),
{
    if s.len() == 0 {
        0
    } else {
        digit_sum(s.drop_last()) + digit(s.last())
    }
}

/// `16` to the power `n`.
pub open spec fn pow16(n: nat) -> nat
    decreases n,
{
    if n == 0 {
        1
    } else {
        16 * pow16((n - 1) as nat)
    }
}

/// The `u16` that `u16::from_str_radix(s, 16)` gives for `s`: an optional
/// `+` followed by at least one hexadecimal digit, with a value that fits.
pub open spec fn radix16_u16(s: Seq<char>) -> Option<u16> {
    let digits = if s.len() > 0 && s[0] == '+' {
        s.skip(1)
    } else {
        s
    };
    if digits.len() > 0 && all_hex(digits) && hex_number(digits) <= 0xffff {
        Some(hex_number(digits) as u16)
    } else {
        None
    }
}

/// The value of `c` as a hexadecimal digit.
pub fn hex_digit(c: char) -> (r: Option<u32>)
    ensures
        r == hex_value(c),
{
    let n = c as u32;
    if 0x30 <= n && n <= 0x39 {
        Some(n - 0x30)
    } else if 0x41 <= n && n <= 0x46 {
        Some(n - 0x37)
    } else if 0x61 <= n && n <= 0x66 {
        Some(n - 0x57)
    } else {
        None
    }
}

/// The characters of `s`, in order.
pub fn chars_of(s: &str) -> (v: Vec<char>)
    ensures
        v@ == s@,
{
    let n = s.unicode_len();
    let mut v: Vec<char> = Vec::new();
    let mut i: usize = 0;
    while i < n
        invariant
            n == s@.len(),
            i <= n,
            v@ == s@.take(i as int),
        decreases n - i,
    {
        v.push(s.get_char(i));
        i += 1;
        assert(v@ =~= s@.take(i as int));
    }
    assert(s@.take(n as int) =~= s@);
    v
}

pub proof fn lemma_hex_number_bound(s: Seq<char>)
    requires
        all_hex(s),
    ensures
        hex_number(s) < pow16(s.len()),
    decreases s.len(),
{
    if s.len() > 0 {
        assert(all_hex(s.drop_last()));
        lemma_hex_number_bound(s.drop_last());
        assert(is_hex(s[s.len() - 1]));
    }
}

/// A number only grows as more digits follow.
pub proof fn lemma_hex_number_prefix(s: Seq<char>, k: int)
    requires
        all_hex(s),
        0 <= k <= s.len(),
    ensures
        hex_number(s.take(k)) <= hex_number(s),
    decreases s.len(),
{
    if k < s.len() {
        assert(all_hex(s.drop_last()));
        lemma_hex_number_prefix(s.drop_last(), k);
        assert(s.drop_last().take(k) =~= s.take(k));
    } else {
        assert(s.take(k) =~= s);
    }
}

pub proof fn lemma_hex_number_step(s: Seq<char>, start: int, i: int)
    requires
        0 <= start <= i < s.len(),
    ensures
        hex_number(s.subrange(start, i + 1)) == hex_number(s.subrange(start, i)) * 16 + digit(s[i]),
{
    assert(s.subrange(start, i + 1).drop_last() =~= s.subrange(start, i));
}

/// The number that the hexadecimal digits `s[start..end]` spell.
pub fn parse_hex(s: &Vec<char>, start: usize, end: usize) -> (r: u32)
    requires
        start <= end <= s@.len(),
        end - start <= 4,
        all_hex(s@.subrange(start as int, end as int)),
    ensures
        r == hex_number(s@.subrange(start as int, end as int)),
        r < pow16((end - start) as nat),
{
    let mut acc: u32 = 0;
    let mut i: usize = start;
    proof {
        reveal_with_fuel(pow16, 5);
    }
    while i < end
        invariant
            start <= i <= end <= s@.len(),
            end - start <= 4,
            all_hex(s@.subrange(start as int, end as int)),
            acc == hex_number(s@.subrange(start as int, i as int)),
            acc < pow16((i - start) as nat),
            pow16(4) == 65536,
            forall|n: nat| n <= 3 ==> #[trigger] pow16(n + 1) == 16 * pow16(n),
        decreases end - i,
    {
        assert(is_hex(s@.subrange(start as int, end as int)[i - start]));
        let d = hex_digit(s[i]).unwrap();
        proof {
            lemma_hex_number_step(s@, start as int, i as int);
            assert(pow16((i - start + 1) as nat) == 16 * pow16((i - start) as nat));
            assert(pow16((i - start) as nat) <= 4096) by {
                reveal_with_fuel(pow16, 5);
            }
        }
        acc = acc * 16 + d;
        i += 1;
    }
    acc
}

/// `u16::from_str_radix(&s[start..end], 16)`, with the error left out.
pub fn parse_u16_radix16(s: &Vec<char>, start: usize, end: usize) -> (r: Option<u16>)
    requires
        start <= end <= s@.len(),
    ensures
        r == radix16_u16(s@.subrange(start as int, end as int)),
{
    let ghost t = s@.subrange(start as int, end as int);
    let n = end;
    let mut i = start;
    if i < n && s[i] == '+' {
        i += 1;
    }
    let ghost digits = s@.subrange(i as int, n as int);
    assert(digits =~= (if t.len() > 0 && t[0] == '+' { t.skip(1) } else { t }));
    if i == n {
        return None;
    }
    let mut acc: u32 = 0;
    let begin = i;
    while i < n
        invariant
            begin <= i <= n <= s@.len(),
            begin < n,
            digits == s@.subrange(begin as int, n as int),
            t == s@.subrange(start as int, end as int),
            n == end,
            digits == (if t.len() > 0 && t[0] == '+' { t.skip(1) } else { t }),
            all_hex(s@.subrange(begin as int, i as int)),
            acc == hex_number(s@.subrange(begin as int, i as int)),
            acc <= 0xffff,
        decreases n - i,
    {
        let d = match hex_digit(s[i]) {
            Some(d) => d,
            None => {
                assert(!is_hex(digits[i - begin]));
                return None;
            },
        };
        proof {
            lemma_hex_number_step(s@, begin as int, i as int);
            assert(all_hex(s@.subrange(begin as int, i + 1)));
        }
        if acc > 0xfff {
            proof {
                let p = s@.subrange(begin as int, i + 1);
                assert(hex_number(p) > 0xffff);
                if all_hex(digits) {
                    assert(digits.take(i + 1 - begin) =~= p);
                    lemma_hex_number_prefix(digits, i + 1 - begin);
                }
            }
            return None;
        }
        acc = acc * 16 + d;
        i += 1;
    }
    if acc <= 0xffff {
        Some(acc as u16)
    } else {
        None
    }
}

/// Hexadecimal digits, up to four of them, read the same by
/// `from_str_radix` as by their plain value.
pub proof fn lemma_radix16_of_digits(d: Seq<char>)
    requires
        0 < d.len() <= 4,
        all_hex(d),
    ensures
        radix16_u16(d) == Some(hex_number(d) as u16),
        hex_number(d) < pow16(d.len()),
{
    lemma_hex_number_bound(d);
    assert(is_hex(d[0]));
    assert(pow16(d.len()) <= 65536) by {
        reveal_with_fuel(pow16, 5);
    }
}

/// Every hexadecimal digit has its value, in either case: `0`-`9` are 0 to
/// 9, `a`-`f` and `A`-`F` are 10 to 15, and no other character is a digit.
pub proof fn lemma_hex_digit_values(c: char)
    ensures
        ('0' as u32) <= (c as u32) <= ('9' as u32) ==> hex_value(c) == Some(
            (c as u32 - '0' as u32) as u32,
        ),
        ('a' as u32) <= (c as u32) <= ('f' as u32) ==> hex_value(c) == Some(
            (c as u32 - 'a' as u32 + 10) as u32,
        ),
        ('A' as u32) <= (c as u32) <= ('F' as u32) ==> hex_value(c) == Some(
            (c as u32 - 'A' as u32 + 10) as u32,
        ),
        !(('0' as u32) <= (c as u32) <= ('9' as u32) || ('a' as u32) <= (c as u32) <= ('f' as u32)
            || ('A' as u32) <= (c as u32) <= ('F' as u32)) ==> hex_value(c) is None,
{
}

/// A letter digit has the same value in lower and upper case.
pub proof fn lemma_hex_digit_case(lower: char, upper: char)
    requires
        ('a' as u32) <= (lower as u32) <= ('f' as u32),
        upper as u32 == lower as u32 - 32,
    ensures
        hex_value(lower) is Some,
        hex_value(lower) == hex_value(upper),
{
}

} // verus!
