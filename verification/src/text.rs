//! Characters and strings: the conversions between `str` and sequences of
//! characters on which the rest of the crate works, white space, and decimal
//! numbers as text.

use vstd::prelude::*;

verus! {

/// The characters of `s`, in order.
pub fn chars_of(s: &str) -> (out: Vec<char>)
    ensures
        out@ == s@,
{
    let mut out: Vec<char> = Vec::new();
    for c in it: s.chars()
        invariant
            out@ == it.seq().take(it.index()),
            it.seq() == s@,
    {
        out.push(c);
    }
    out
}

/// `String::push` of std: the string grows by exactly the character `c`, at
/// its end.
#[verifier::external_body]
pub(crate) fn push_char(s: &mut String, c: char)
    ensures
        final(s)@ == old(s)@.push(c),
{
    s.push(c);
}

/// Appends the characters `chars[from..to]` to `out`.
pub(crate) fn push_chars(out: &mut String, chars: &Vec<char>, from: usize, to: usize)
    requires
        from <= to <= chars.len(),
    ensures
        final(out)@ == old(out)@ + chars@.subrange(from as int, to as int),
{
    let mut i: usize = from;
    while i < to
        invariant
            from <= i <= to <= chars.len(),
            out@ == old(out)@ + chars@.subrange(from as int, i as int),
        decreases to - i,
    {
        push_char(out, chars[i]);
        i += 1;
        assert(chars@.subrange(from as int, i as int) == chars@.subrange(
            from as int,
            i - 1,
        ).push(chars@[i - 1]));
    }
}

/// Appends the characters of `s` to `out`.
pub(crate) fn push_text(out: &mut String, s: &str)
    ensures
        final(out)@ == old(out)@ + s@,
{
    let chars = chars_of(s);
    assert(chars@.subrange(0, chars@.len() as int) == chars@);
    push_chars(out, &chars, 0, chars.len());
}

/// The string made of the characters `chars[from..to]`.
pub(crate) fn string_of(chars: &Vec<char>, from: usize, to: usize) -> (out: String)
    requires
        from <= to <= chars.len(),
    ensures
        out@ == chars@.subrange(from as int, to as int),
{
    let mut out = String::new();
    push_chars(&mut out, chars, from, to);
    out
}

/// A copy of `s`.
pub fn copy_of(s: &str) -> (out: String)
    ensures
        out@ == s@,
{
    let chars = chars_of(s);
    let out = string_of(&chars, 0, chars.len());
    assert(chars@.subrange(0, chars@.len() as int) == chars@);
    out
}

/// Whether two strings hold the same characters.
pub fn same_text(a: &str, b: &str) -> (same: bool)
    ensures
        same == (a@ == b@),
{
    let x = chars_of(a);
    let y = chars_of(b);
    if x.len() != y.len() {
        return false;
    }
    let mut i: usize = 0;
    while i < x.len()
        invariant
            i <= x.len(),
            x.len() == y.len(),
            x@ == a@,
            y@ == b@,
            forall|k: int| 0 <= k < i ==> x@[k] == y@[k],
        decreases x.len() - i,
    {
        if x[i] != y[i] {
            assert(x@[i as int] != y@[i as int]);
            return false;
        }
        i += 1;
    }
    assert(x@ =~= y@);
    true
}

/// White space: the characters with the Unicode property `White_Space`.
pub open spec fn is_space(c: char) -> bool {
    let u = c as u32;
    ||| 0x09 <= u <= 0x0d
    ||| u == 0x20
    ||| u == 0x85
    ||| u == 0xa0
    ||| u == 0x1680
    ||| 0x2000 <= u <= 0x200a
    ||| u == 0x2028
    ||| u == 0x2029
    ||| u == 0x202f
    ||| u == 0x205f
    ||| u == 0x3000
}

/// Tells white space from other characters.
pub fn check_space(c: char) -> (space: bool)
    ensures
        space == is_space(c),
{
    let u: u32 = c as u32;
    (0x09 <= u && u <= 0x0d) || u == 0x20 || u == 0x85 || u == 0xa0 || u == 0x1680 || (0x2000 <= u
        && u <= 0x200a) || u == 0x2028 || u == 0x2029 || u == 0x202f || u == 0x205f || u == 0x3000
}

/// The first index at or after `from` that holds no white space, or the length
/// of `s` where only white space follows.
pub open spec fn skip_spaces(s: Seq<char>, from: int) -> int
    decreases s.len() - from,
{
    if 0 <= from < s.len() && is_space(s[from]) {
        skip_spaces(s, from + 1)
    } else {
        from
    }
}

/// Computes `skip_spaces`.
pub(crate) fn past_spaces(chars: &Vec<char>, from: usize) -> (at: usize)
    requires
        from <= chars.len(),
    ensures
        at == skip_spaces(chars@, from as int),
        from <= at <= chars.len(),
{
    let mut i: usize = from;
    while i < chars.len() && check_space(chars[i])
        invariant
            from <= i <= chars.len(),
            skip_spaces(chars@, from as int) == skip_spaces(chars@, i as int),
        decreases chars.len() - i,
    {
        i += 1;
    }
    i
}

/// A decimal digit.
pub open spec fn is_digit(c: char) -> bool {
    '0' <= c <= '9'
}

/// One or more decimal digits and nothing else.
pub open spec fn digits_only(s: Seq<char>) -> bool {
    s.len() > 0 && forall|i: int| 0 <= i < s.len() ==> is_digit(#[trigger] s[i])
}

/// The number that a run of decimal digits writes.
pub open spec fn digits_value(s: Seq<char>) -> nat
    decreases s.len(),
{
    if s.len() == 0 {
        0
    } else {
        (digits_value(s.drop_last()) * 10 + (s.last() as u32 - 0x30)) as nat
    }
}

/// The number that `s` writes without a sign or behind a `+`; `None` where `s`
/// is anything else.
pub open spec fn unsigned_value(s: Seq<char>) -> Option<nat> {
    let body = if s.len() > 0 && s[0] == '+' {
        s.subrange(1, s.len() as int)
    } else {
        s
    };
    if digits_only(body) {
        Some(digits_value(body))
    } else {
        None
    }
}

/// The number that `s` writes with an optional sign, `+` or `-`; `None` where
/// `s` is anything else.
pub open spec fn signed_value(s: Seq<char>) -> Option<int> {
    if s.len() > 0 && s[0] == '-' {
        let body = s.subrange(1, s.len() as int);
        if digits_only(body) {
            Some(-(digits_value(body) as int))
        } else {
            None
        }
    } else {
        match unsigned_value(s) {
            Some(n) => Some(n as int),
            None => None,
        }
    }
}

/// The number that `s` writes, where it lies within the range of `i32`.
pub open spec fn i32_value(s: Seq<char>) -> Option<i32> {
    match signed_value(s) {
        Some(n) => if i32::MIN <= n <= i32::MAX {
            Some(n as i32)
        } else {
            None
        },
        None => None,
    }
}

/// The number that `s` writes, where it is unsigned and no greater than
/// `usize::MAX`.
pub open spec fn index_value(s: Seq<char>) -> Option<usize> {
    match unsigned_value(s) {
        Some(n) => if n <= usize::MAX {
            Some(n as usize)
        } else {
            None
        },
        None => None,
    }
}

/// A longer run of digits writes no smaller number than its beginning.
pub proof fn digits_value_grows(s: Seq<char>, k: int)
    requires
        0 <= k <= s.len(),
        forall|i: int| 0 <= i < s.len() ==> is_digit(#[trigger] s[i]),
    ensures
        digits_value(s.take(k)) <= digits_value(s),
    decreases s.len() - k,
{
    if k == s.len() {
        assert(s.take(k) == s);
    } else {
        digits_value_grows(s, k + 1);
        let longer = s.take(k + 1);
        assert(longer.drop_last() == s.take(k));
        assert(is_digit(s[k]));
        assert(longer.last() == s[k]);
    }
}

/// Reads the digits `chars[from..to]` as a number no greater than `limit`.
pub(crate) fn read_digits(chars: &Vec<char>, from: usize, to: usize, limit: u64) -> (out: Option<
    u64,
>)
    requires
        from <= to <= chars.len(),
    ensures
        out == (if digits_only(chars@.subrange(from as int, to as int)) && digits_value(
            chars@.subrange(from as int, to as int),
        ) <= limit {
            Some(digits_value(chars@.subrange(from as int, to as int)) as u64)
        } else {
            None::<u64>
        }),
{
    let ghost run = chars@.subrange(from as int, to as int);
    if from == to {
        return None;
    }
    let mut i: usize = from;
    while i < to
        invariant
            from <= i <= to <= chars.len(),
            run == chars@.subrange(from as int, to as int),
            forall|k: int| 0 <= k < i - from ==> is_digit(#[trigger] run[k]),
        decreases to - i,
    {
        let c: char = chars[i];
        if !('0' <= c && c <= '9') {
            assert(!is_digit(run[i - from]));
            return None;
        }
        i += 1;
    }
    assert(digits_only(run));
    let mut acc: u64 = 0;
    let mut j: usize = from;
    while j < to
        invariant
            from <= j <= to <= chars.len(),
            run == chars@.subrange(from as int, to as int),
            digits_only(run),
            acc == digits_value(run.take(j - from)),
            acc <= limit,
        decreases to - j,
    {
        let c: char = chars[j];
        assert(is_digit(run[j - from]));
        let d: u64 = (c as u32 - 0x30) as u64;
        proof {
            let longer = run.take(j - from + 1);
            assert(longer.drop_last() == run.take(j - from));
            assert(longer.last() == c);
            digits_value_grows(run, j - from + 1);
        }
        if d > limit || acc > (limit - d) / 10 {
            return None;
        }
        acc = acc * 10 + d;
        j += 1;
    }
    assert(run.take(to - from) == run);
    Some(acc)
}

/// Reads `chars[from..to]` as an index: digits behind an optional `+`, no
/// greater than `usize::MAX`.
pub(crate) fn read_index(chars: &Vec<char>, from: usize, to: usize) -> (out: Option<usize>)
    requires
        from <= to <= chars.len(),
    ensures
        out == index_value(chars@.subrange(from as int, to as int)),
{
    let ghost s = chars@.subrange(from as int, to as int);
    let start: usize = if from < to && chars[from] == '+' {
        from + 1
    } else {
        from
    };
    assert(chars@.subrange(start as int, to as int) == if s.len() > 0 && s[0] == '+' {
        s.subrange(1, s.len() as int)
    } else {
        s
    });
    match read_digits(chars, start, to, usize::MAX as u64) {
        Some(n) => Some(n as usize),
        None => None,
    }
}

/// Reads `chars[from..to]` as a signed number: digits behind an optional `+`
/// or `-`, within the range of `i32`.
pub(crate) fn read_i32(chars: &Vec<char>, from: usize, to: usize) -> (out: Option<i32>)
    requires
        from <= to <= chars.len(),
    ensures
        out == i32_value(chars@.subrange(from as int, to as int)),
{
    let ghost s = chars@.subrange(from as int, to as int);
    if from < to && chars[from] == '-' {
        assert(chars@.subrange(from + 1, to as int) == s.subrange(1, s.len() as int));
        match read_digits(chars, from + 1, to, 0x8000_0000) {
            Some(n) => {
                let v: i64 = 0 - (n as i64);
                Some(v as i32)
            },
            None => None,
        }
    } else {
        let start: usize = if from < to && chars[from] == '+' {
            from + 1
        } else {
            from
        };
        assert(chars@.subrange(start as int, to as int) == if s.len() > 0 && s[0] == '+' {
            s.subrange(1, s.len() as int)
        } else {
            s
        });
        match read_digits(chars, start, to, 0x7fff_ffff) {
            Some(n) => Some(n as i32),
            None => None,
        }
    }
}

/// Reads a whole string as a signed number within the range of `i32`.
pub fn parse_i32(s: &str) -> (out: Option<i32>)
    ensures
        out == i32_value(s@),
{
    let chars = chars_of(s);
    assert(chars@.subrange(0, chars@.len() as int) == chars@);
    read_i32(&chars, 0, chars.len())
}

/// The character that writes the digit `d`.
pub open spec fn digit_char(d: int) -> char
    recommends
        0 <= d <= 9,
{
    ((0x30 + d) as u8) as char
}

/// A natural number in decimal, without leading zeros.
pub open spec fn nat_digits(n: nat) -> Seq<char>
    decreases n,
{
    if n < 10 {
        seq![digit_char(n as int)]
    } else {
        nat_digits(n / 10).push(digit_char((n % 10) as int))
    }
}

/// An integer in decimal: a `-` before the digits of a negative one.
pub open spec fn decimal(v: int) -> Seq<char> {
    if v < 0 {
        seq!['-'] + nat_digits((-v) as nat)
    } else {
        nat_digits(v as nat)
    }
}

/// Appends `n` in decimal.
pub(crate) fn push_nat(out: &mut String, n: u64)
    ensures
        final(out)@ == old(out)@ + nat_digits(n as nat),
    decreases n,
{
    if n >= 10 {
        push_nat(out, n / 10);
    }
    let d: u8 = (n % 10) as u8;
    push_char(out, (0x30 + d) as char);
    assert(out@ == old(out)@ + nat_digits(n as nat));
}

/// The number of digits of `n` in decimal.
fn count_digits(n: u64) -> (count: usize)
    ensures
        count == nat_digits(n as nat).len(),
        1 <= count <= 20,
    decreases n,
{
    if n >= 10 {
        assert(n / 10 < 1_844_674_407_370_955_162) by {
            assert(n <= 0xffff_ffff_ffff_ffff);
        }
        let below = count_digits(n / 10);
        proof {
            digits_are_few((n / 10) as nat);
        }
        below + 1
    } else {
        1
    }
}

/// A number below a power of ten has no more digits than that power has
/// zeros.
proof fn digits_are_few(n: nat)
    requires
        n < 1_844_674_407_370_955_162,
    ensures
        nat_digits(n).len() <= 19,
{
    reveal_with_fuel(nat_digits, 20);
}

/// Appends `n` in decimal, with zeros before it where it has fewer than
/// `width` digits.
pub(crate) fn push_padded(out: &mut String, n: u64, width: usize)
    ensures
        final(out)@ == old(out)@ + padded(n as nat, width as nat),
{
    let digits = count_digits(n);
    let mut k: usize = digits;
    while k < width
        invariant
            digits <= k,
            k == digits || k <= width,
            out@ == old(out)@ + zeros((k - digits) as nat),
        decreases width - k,
    {
        push_char(out, '0');
        k += 1;
        assert(zeros((k - digits) as nat) == zeros((k - 1 - digits) as nat).push('0'));
    }
    let ghost filled = out@;
    push_nat(out, n);
    assert(out@ == old(out)@ + padded(n as nat, width as nat)) by {
        if digits < width {
            assert(filled + nat_digits(n as nat) == old(out)@ + (zeros((width - digits) as nat)
                + nat_digits(n as nat)));
        } else {
            assert(zeros(0) == Seq::<char>::empty());
            assert(filled == old(out)@);
        }
    }
}

/// A run of `n` zeros.
pub open spec fn zeros(n: nat) -> Seq<char> {
    Seq::new(n, |i: int| '0')
}

/// `n` in decimal, filled up with zeros in front to `width` digits.
pub open spec fn padded(n: nat, width: nat) -> Seq<char> {
    let digits = nat_digits(n);
    if digits.len() < width {
        zeros((width - digits.len()) as nat) + digits
    } else {
        digits
    }
}

/// An integer as decimal text.
pub fn int_text(v: i64) -> (out: String)
    ensures
        out@ == decimal(v as int),
{
    let mut out = String::new();
    if v < 0 {
        push_char(&mut out, '-');
        let m: u64 = (-(v + 1)) as u64 + 1;
        push_nat(&mut out, m);
    } else {
        push_nat(&mut out, v as u64);
    }
    out
}

/// What `nat_digits` writes is a run of digits that writes the same number.
pub proof fn digits_read_back(n: nat)
    ensures
        digits_only(nat_digits(n)),
        digits_value(nat_digits(n)) == n,
    decreases n,
{
    let digits = nat_digits(n);
    if n < 10 {
        assert(digits.len() == 1);
        assert(digits.drop_last().len() == 0);
        assert(digits.last() == digit_char(n as int));
        assert(digits_value(digits.drop_last()) == 0);
    } else {
        digits_read_back(n / 10);
        let shorter = nat_digits(n / 10);
        assert(digits.drop_last() == shorter);
        assert(digits.last() == digit_char((n % 10) as int));
        assert forall|i: int| 0 <= i < digits.len() implies is_digit(#[trigger] digits[i]) by {
            if i < shorter.len() {
                assert(digits[i] == shorter[i]);
            }
        }
    }
}

/// A number written in decimal is read back as itself.
pub proof fn decimal_reads_back(v: int)
    ensures
        signed_value(decimal(v)) == Some(v),
{
    if v < 0 {
        let digits = nat_digits((-v) as nat);
        digits_read_back((-v) as nat);
        let text = decimal(v);
        assert(text[0] == '-');
        assert(text.subrange(1, text.len() as int) == digits);
    } else {
        let digits = nat_digits(v as nat);
        digits_read_back(v as nat);
        assert(is_digit(digits[0]));
    }
}

} // verus!
