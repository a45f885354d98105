//! Hexadecimal text: parsing and formatting of unsigned 64-bit values.

use vstd::prelude::*;

verus! {

/// True for the characters `0`-`9`, `a`-`f`, `A`-`F`.
pub open spec fn spec_is_hex_digit(c: char) -> bool {
    ('0' <= c && c <= '9') || ('a' <= c && c <= 'f') || ('A' <= c && c <= 'F')
}

/// Numeric value of one hexadecimal digit character.
pub open spec fn spec_hex_digit_val(c: char) -> int {
    if '0' <= c && c <= '9' {
        c as u32 - '0' as u32
    } else if 'a' <= c && c <= 'f' {
        c as u32 - 'a' as u32 + 10
    } else {
        c as u32 - 'A' as u32 + 10
    }
}

/// Every character of `s` is a hexadecimal digit.
pub open spec fn spec_all_hex(s: Seq<char>) -> bool {
    forall|i: int| 0 <= i < s.len() ==> spec_is_hex_digit(#[trigger] s[i])
}

/// The value denoted by the digit string `s`, most significant digit first.
pub open spec fn spec_hex_val(s: Seq<char>) -> int
    decreases s.len(),
{
    if s.len() == 0 {
        0
    } else {
        spec_hex_val(s.drop_last()) * 16 + spec_hex_digit_val(s.last())
    }
}

/// Sixteen to the power `n`.
pub open spec fn spec_pow16(n: nat) -> int
    decreases n,
{
    if n == 0 {
        1
    } else {
        16 * spec_pow16((n - 1) as nat)
    }
}

/// A hexadecimal digit string of length `n` denotes a value below
/// sixteen to the `n`th.
pub proof fn lemma_hex_val_bound(s: Seq<char>)
    requires
        spec_all_hex(s),
    ensures
        0 <= spec_hex_val(s) < spec_pow16(s.len()),
    decreases s.len(),
{
    if s.len() > 0 {
        assert forall|i: int| 0 <= i < s.drop_last().len() implies spec_is_hex_digit(
            #[trigger] s.drop_last()[i],
        ) by {
            assert(s.drop_last()[i] == s[i]);
        }
        lemma_hex_val_bound(s.drop_last());
        assert(0 <= spec_hex_digit_val(s.last()) < 16);
        assert(spec_hex_val(s.drop_last()) * 16 <= (spec_pow16((s.len() - 1) as nat) - 1) * 16)
            by (nonlinear_arith)
            requires
                spec_hex_val(s.drop_last()) <= spec_pow16((s.len() - 1) as nat) - 1,
        ;
    }
}

/// Why a digit string does not denote a 64-bit value.
#[derive(Clone, Copy, Debug, PartialEq, Eq, Structural)]
pub enum HexParseError {
    /// The string is empty.
    Empty,
    /// A character is not a hexadecimal digit.
    InvalidDigit,
    /// The denoted value does not fit in 64 bits.
    Overflow,
}

/// One step of the left-to-right fold that defines hexadecimal parsing:
/// the result of parsing `s` from position `i` onward with the value of
/// the digits before `i` accumulated in `acc`.
pub open spec fn spec_parse_hex_from(s: Seq<char>, i: int, acc: u64) -> Result<u64, HexParseError>
    decreases s.len() - i,
{
    if i < 0 || i >= s.len() {
        Ok(acc)
    } else if !spec_is_hex_digit(s[i]) {
        Err(HexParseError::InvalidDigit)
    } else if 16 * acc + spec_hex_digit_val(s[i]) > u64::MAX {
        Err(HexParseError::Overflow)
    } else {
        spec_parse_hex_from(s, i + 1, (16 * acc + spec_hex_digit_val(s[i])) as u64)
    }
}

/// What parsing the digit string `s` yields: its value, or the first
/// failure met reading left to right.
pub open spec fn spec_parse_hex(s: Seq<char>) -> Result<u64, HexParseError> {
    if s.len() == 0 {
        Err(HexParseError::Empty)
    } else {
        spec_parse_hex_from(s, 0, 0)
    }
}

/// Parsing from `i` succeeds exactly when the remaining characters are
/// digits and the denoted value fits; the value is the fold of the digits.
proof fn lemma_parse_hex_from(s: Seq<char>, i: int, acc: u64)
    requires
        0 <= i <= s.len(),
        acc == spec_hex_val(s.subrange(0, i)),
    ensures
        spec_parse_hex_from(s, i, acc) matches Ok(v) ==>
            spec_all_hex(s.subrange(i, s.len() as int)) && v == spec_hex_val(s)
            && spec_hex_val(s) <= u64::MAX,
        spec_all_hex(s.subrange(i, s.len() as int)) && spec_hex_val(s) <= u64::MAX
            ==> (spec_parse_hex_from(s, i, acc) matches Ok(v) && v == spec_hex_val(s)),
        spec_parse_hex_from(s, i, acc) matches Err(e) ==> e != HexParseError::Empty,
        spec_parse_hex_from(s, i, acc) == Err::<u64, HexParseError>(HexParseError::InvalidDigit)
            ==> !spec_all_hex(s.subrange(i, s.len() as int)),
        spec_all_hex(s.subrange(i, s.len() as int))
            ==> (spec_parse_hex_from(s, i, acc) matches Err(e)
                ==> e == HexParseError::Overflow && spec_hex_val(s) > u64::MAX),
    decreases s.len() - i,
{
    let rest = s.subrange(i, s.len() as int);
    if i == s.len() {
        assert(s.subrange(0, i) =~= s);
        assert(rest =~= Seq::<char>::empty());
    } else {
        assert(rest[0] == s[i]);
        if spec_is_hex_digit(s[i]) {
            let d = spec_hex_digit_val(s[i]);
            assert(0 <= d < 16);
            let next = 16 * acc + d;
            assert(s.subrange(0, i + 1).drop_last() =~= s.subrange(0, i));
            assert(s.subrange(0, i + 1).last() == s[i]);
            assert(spec_hex_val(s.subrange(0, i + 1)) == acc * 16 + d);
            if next <= u64::MAX {
                lemma_parse_hex_from(s, i + 1, next as u64);
                assert(s.subrange(i + 1, s.len() as int) =~= rest.subrange(1, rest.len() as int));
                assert forall|j: int| 0 <= j < rest.len() && spec_all_hex(
                    s.subrange(i + 1, s.len() as int),
                ) && spec_is_hex_digit(s[i]) implies spec_is_hex_digit(rest[j]) by {
                    if j > 0 {
                        assert(rest[j] == s.subrange(i + 1, s.len() as int)[j - 1]);
                    }
                }
            } else {
                // The value of the whole string is at least the value of this
                // prefix, so it cannot fit either.
                if spec_all_hex(rest) {
                    assert forall|j: int| i + 1 <= j < s.len() implies spec_hex_digit_val(
                        #[trigger] s[j],
                    ) >= 0 by {
                        assert(s[j] == rest[j - i]);
                        assert(spec_is_hex_digit(rest[j - i]));
                    }
                    assert(spec_hex_val(s.subrange(0, i + 1)) == next);
                    lemma_hex_val_prefix_le(s, i + 1);
                    assert(spec_hex_val(s) >= next);
                }
            }
        }
    }
}

/// The value of a whole digit string is at least the value of a prefix
/// whose own value is nonnegative, when the remaining digits are valid.
proof fn lemma_hex_val_prefix_le(s: Seq<char>, i: int)
    requires
        0 <= i <= s.len(),
        spec_hex_val(s.subrange(0, i)) >= 0,
        forall|j: int| i <= j < s.len() ==> spec_hex_digit_val(#[trigger] s[j]) >= 0,
    ensures
        spec_hex_val(s) >= spec_hex_val(s.subrange(0, i)),
    decreases s.len() - i,
{
    if i == s.len() {
        assert(s.subrange(0, i) =~= s);
    } else {
        assert(s.subrange(0, i + 1).drop_last() =~= s.subrange(0, i));
        assert(s.subrange(0, i + 1).last() == s[i]);
        assert(spec_hex_val(s.subrange(0, i + 1))
            == spec_hex_val(s.subrange(0, i)) * 16 + spec_hex_digit_val(s[i]));
        lemma_hex_val_prefix_le(s, i + 1);
    }
}

/// The numeric value of the character `c`, or `None` when it is not a
/// hexadecimal digit.
fn hex_digit_val(c: char) -> (r: Option<u32>)
    ensures
        r is Some <==> spec_is_hex_digit(c),
        r matches Some(d) ==> d == spec_hex_digit_val(c) && d < 16,
{
    if '0' <= c && c <= '9' {
        Some(c as u32 - '0' as u32)
    } else if 'a' <= c && c <= 'f' {
        Some(c as u32 - 'a' as u32 + 10)
    } else if 'A' <= c && c <= 'F' {
        Some(c as u32 - 'A' as u32 + 10)
    } else {
        None
    }
}

/// Decide whether `c` is a hexadecimal digit.
pub fn is_hex_digit_char(c: char) -> (r: bool)
    ensures
        r == spec_is_hex_digit(c),
{
    ('0' <= c && c <= '9') || ('a' <= c && c <= 'f') || ('A' <= c && c <= 'F')
}

/// Parse the characters of `s` between `from` (inclusive) and `to`
/// (exclusive) as an unsigned hexadecimal number.
pub fn parse_hex_range(s: &str, from: usize, to: usize) -> (r: Result<u64, HexParseError>)
    requires
        from <= to <= s@.len(),
    ensures
        r == spec_parse_hex(s@.subrange(from as int, to as int)),
        r matches Ok(v) ==> spec_all_hex(s@.subrange(from as int, to as int))
            && v == spec_hex_val(s@.subrange(from as int, to as int)),
        from < to && spec_all_hex(s@.subrange(from as int, to as int))
            && spec_hex_val(s@.subrange(from as int, to as int)) <= u64::MAX
            ==> (r matches Ok(v) && v == spec_hex_val(s@.subrange(from as int, to as int))),
{
    let ghost sub = s@.subrange(from as int, to as int);
    if from == to {
        return Err(HexParseError::Empty);
    }
    let mut acc: u64 = 0;
    let mut i: usize = from;
    while i < to
        invariant
            from <= i <= to <= s@.len(),
            from < to,
            sub == s@.subrange(from as int, to as int),
            acc == spec_hex_val(sub.subrange(0, i - from)),
            spec_parse_hex_from(sub, 0, 0) == spec_parse_hex_from(sub, i - from, acc),
        decreases to - i,
    {
        let c = s.get_char(i);
        assert(c == sub[i - from]);
        match hex_digit_val(c) {
            None => {
                proof {
                    assert(sub.subrange(0, sub.len() as int) =~= sub);
                    lemma_parse_hex_from(sub, 0, 0);
                }
                return Err(HexParseError::InvalidDigit);
            },
            Some(d) => {
                if acc >= 0x1000_0000_0000_0000 {
                    assert(16 * acc + spec_hex_digit_val(c) > u64::MAX);
                    proof {
                        assert(sub.subrange(0, sub.len() as int) =~= sub);
                        lemma_parse_hex_from(sub, 0, 0);
                    }
                    return Err(HexParseError::Overflow);
                }
                assert(16 * acc + spec_hex_digit_val(c) <= u64::MAX);
                proof {
                    let k = i - from;
                    assert(sub.subrange(0, k + 1).drop_last() =~= sub.subrange(0, k));
                    assert(sub.subrange(0, k + 1).last() == sub[k]);
                }
                acc = 16 * acc + (d as u64);
            },
        }
        i = i + 1;
    }
    proof {
        assert(sub.subrange(0, to - from) =~= sub);
        assert(sub.subrange(0, sub.len() as int) =~= sub);
        lemma_parse_hex_from(sub, 0, 0);
    }
    Ok(acc)
}

/// The uppercase hexadecimal digit character for the value `d`.
pub open spec fn spec_hex_digit_char(d: int) -> char {
    if d == 0 { '0' }
    else if d == 1 { '1' }
    else if d == 2 { '2' }
    else if d == 3 { '3' }
    else if d == 4 { '4' }
    else if d == 5 { '5' }
    else if d == 6 { '6' }
    else if d == 7 { '7' }
    else if d == 8 { '8' }
    else if d == 9 { '9' }
    else if d == 10 { 'A' }
    else if d == 11 { 'B' }
    else if d == 12 { 'C' }
    else if d == 13 { 'D' }
    else if d == 14 { 'E' }
    else { 'F' }
}

/// The uppercase hexadecimal form of `v`, left-padded with `0` to at
/// least `width` digits (as the format `{:0width$X}` writes it).
pub open spec fn spec_hex_upper(v: nat, width: nat) -> Seq<char>
    decreases v, width,
{
    if width <= 1 && v < 16 {
        seq![spec_hex_digit_char(v as int)]
    } else {
        spec_hex_upper(v / 16, if width == 0 { 0 } else { (width - 1) as nat }).push(
            spec_hex_digit_char(v as int % 16),
        )
    }
}

/// The one-character string for the hexadecimal digit `d`.
fn hex_digit_str(d: u64) -> (r: &'static str)
    requires
        d < 16,
    ensures
        r@ == seq![spec_hex_digit_char(d as int)],
{
    proof {
        reveal_strlit("0");
        reveal_strlit("1");
        reveal_strlit("2");
        reveal_strlit("3");
        reveal_strlit("4");
        reveal_strlit("5");
        reveal_strlit("6");
        reveal_strlit("7");
        reveal_strlit("8");
        reveal_strlit("9");
        reveal_strlit("A");
        reveal_strlit("B");
        reveal_strlit("C");
        reveal_strlit("D");
        reveal_strlit("E");
        reveal_strlit("F");
    }
    let r = if d == 0 { "0" }
    else if d == 1 { "1" }
    else if d == 2 { "2" }
    else if d == 3 { "3" }
    else if d == 4 { "4" }
    else if d == 5 { "5" }
    else if d == 6 { "6" }
    else if d == 7 { "7" }
    else if d == 8 { "8" }
    else if d == 9 { "9" }
    else if d == 10 { "A" }
    else if d == 11 { "B" }
    else if d == 12 { "C" }
    else if d == 13 { "D" }
    else if d == 14 { "E" }
    else { "F" };
    assert(r@ =~= seq![spec_hex_digit_char(d as int)]);
    r
}

/// The index of the first occurrence of `c` in `s` at or after `from`,
/// or the length of `s` when there is none.
pub open spec fn spec_find_char(s: Seq<char>, c: char, from: int) -> int
    decreases s.len() - from,
{
    if from < 0 || from >= s.len() {
        s.len() as int
    } else if s[from] == c {
        from
    } else {
        spec_find_char(s, c, from + 1)
    }
}

/// Find the first occurrence of `c` in `s` at or after `from`; the
/// length of `s` means that there is none.
pub fn find_char(s: &str, c: char, from: usize) -> (r: usize)
    requires
        from <= s@.len(),
    ensures
        r == spec_find_char(s@, c, from as int),
        from <= r <= s@.len(),
        r < s@.len() ==> s@[r as int] == c,
{
    let n = s.unicode_len();
    let mut i = from;
    while i < n
        invariant
            from <= i <= n == s@.len(),
            spec_find_char(s@, c, from as int) == spec_find_char(s@, c, i as int),
        decreases n - i,
    {
        let ch = s.get_char(i);
        if ch == c {
            return i;
        }
        i = i + 1;
    }
    i
}

/// The index of the last occurrence of `c` in `s`, or `-1` when there
/// is none.
pub open spec fn spec_rfind_char(s: Seq<char>, c: char) -> int
    decreases s.len(),
{
    if s.len() == 0 {
        -1
    } else if s.last() == c {
        s.len() - 1
    } else {
        spec_rfind_char(s.drop_last(), c)
    }
}

/// Find the last occurrence of `c` in `s`, if any.
pub fn rfind_char(s: &str, c: char) -> (r: Option<usize>)
    ensures
        r matches Some(k) ==> k == spec_rfind_char(s@, c) && k < s@.len(),
        r is None ==> spec_rfind_char(s@, c) == -1,
{
    let n = s.unicode_len();
    let mut i = n;
    proof {
        assert(s@.subrange(0, n as int) =~= s@);
    }
    while i > 0
        invariant
            i <= n == s@.len(),
            spec_rfind_char(s@, c) == spec_rfind_char(s@.subrange(0, i as int), c),
        decreases i,
    {
        let ch = s.get_char(i - 1);
        proof {
            assert(s@.subrange(0, i as int).last() == s@[i - 1]);
            assert(s@.subrange(0, i as int).drop_last() =~= s@.subrange(0, i - 1));
        }
        if ch == c {
            return Some(i - 1);
        }
        i = i - 1;
    }
    proof {
        assert(s@.subrange(0, 0) =~= Seq::<char>::empty());
    }
    None
}

/// The message text that belongs to each parse failure.
pub open spec fn spec_hex_err_text(e: HexParseError) -> Seq<char> {
    match e {
        HexParseError::Empty => "cannot parse integer from empty string"@,
        HexParseError::InvalidDigit => "invalid digit found in string"@,
        HexParseError::Overflow => "number too large to fit in target type"@,
    }
}

/// The message text that belongs to each parse failure.
pub fn hex_err_string(e: HexParseError) -> (r: String)
    ensures
        r@ == spec_hex_err_text(e),
{
    match e {
        HexParseError::Empty => String::from_str("cannot parse integer from empty string"),
        HexParseError::InvalidDigit => String::from_str("invalid digit found in string"),
        HexParseError::Overflow => String::from_str("number too large to fit in target type"),
    }
}

/// The uppercase hexadecimal form of `v`, left-padded with `0` to at
/// least `width` digits.
pub fn hex_upper_string(v: u64, width: usize) -> (r: String)
    ensures
        r@ == spec_hex_upper(v as nat, width as nat),
    decreases v, width,
{
    let d = v % 16;
    if width <= 1 && v < 16 {
        let mut r = String::new();
        r.append(hex_digit_str(v));
        assert(r@ =~= spec_hex_upper(v as nat, width as nat));
        r
    } else {
        let w2: usize = if width == 0 { 0 } else { width - 1 };
        let mut r = hex_upper_string(v / 16, w2);
        r.append(hex_digit_str(d));
        assert(r@ =~= spec_hex_upper(v as nat, width as nat));
        r
    }
}

} // verus!
