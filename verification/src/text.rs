//! Texts of numbers: what the scalar types share when they read and write
//! decimal digits.

use vstd::prelude::*;
use vstd::string::*;

verus! {

/// Whether two texts hold the same characters.
pub fn str_equals(a: &str, b: &str) -> (r: bool)
    ensures
        r == (a@ == b@),
{
    a.to_owned() == b.to_owned()
}

/// The characters of a text, one by one.
pub fn chars_of(s: &str) -> (r: Vec<char>)
    ensures
        r@ == s@,
{
    let mut r: Vec<char> = Vec::new();
    for c in it: s.chars()
        invariant
            it.seq() == s@,
            r@ == s@.take(it.index() as int),
    {
        r.push(c);
    }
    r
}

/// How `a` stands to `b` in the order of a dictionary whose alphabet is
/// all characters, by their numbers: -1 where `a` comes first, 1 where `b`
/// does, 0 where they are one text.
pub open spec fn text_order(a: Seq<char>, b: Seq<char>) -> int
    decreases a.len(),
{
    if a.len() == 0 {
        if b.len() == 0 {
            0
        } else {
            -1
        }
    } else if b.len() == 0 {
        1
    } else if a[0] < b[0] {
        -1
    } else if a[0] > b[0] {
        1
    } else {
        text_order(a.skip(1), b.skip(1))
    }
}

/// Finds how `a` stands to `b` in the order of the dictionary.
pub fn compare_texts(a: &str, b: &str) -> (r: i8)
    ensures
        r == text_order(a@, b@),
{
    let x = chars_of(a);
    let y = chars_of(b);
    let mut i: usize = 0;
    assert(x@.skip(0) =~= x@ && y@.skip(0) =~= y@);
    while i < x.len() && i < y.len()
        invariant
            i <= x@.len(),
            i <= y@.len(),
            x@ == a@,
            y@ == b@,
            text_order(a@, b@) == text_order(x@.skip(i as int), y@.skip(i as int)),
        decreases x@.len() - i,
    {
        if x[i] < y[i] {
            return -1;
        }
        if x[i] > y[i] {
            return 1;
        }
        assert(x@.skip(i as int).skip(1) =~= x@.skip(i + 1));
        assert(y@.skip(i as int).skip(1) =~= y@.skip(i + 1));
        i = i + 1;
    }
    if i < y.len() {
        -1
    } else if i < x.len() {
        1
    } else {
        0
    }
}

/// Whether `c` is one of the ten decimal digits.
pub open spec fn is_digit(c: char) -> bool {
    '0' <= c && c <= '9'
}

/// The digit that stands for `d`, for `d` from 0 to 9.
pub open spec fn digit_char(d: int) -> char {
    (d + 48) as char
}

/// The number that the digit `c` stands for.
pub open spec fn digit_value(c: char) -> int {
    c as int - 48
}

/// Whether every character of `s` is a digit.
pub open spec fn all_digits(s: Seq<char>) -> bool {
    forall|i: int| 0 <= i < s.len() ==> is_digit(#[trigger] s[i])
}

/// The number that the digits `s` write, the first digit counting most.
pub open spec fn digits_value(s: Seq<char>) -> nat
    decreases s.len(),
{
    if s.len() == 0 {
        0
    } else {
        (digits_value(s.drop_last()) * 10 + digit_value(s.last())) as nat
    }
}

/// The digits of `n` without leading zeros; `0` for zero.
pub open spec fn natural_text(n: nat) -> Seq<char>
    decreases n,
{
    if n < 10 {
        seq![digit_char(n as int)]
    } else {
        natural_text(n / 10).push(digit_char((n % 10) as int))
    }
}

/// The digits of `n`, behind a minus sign where `n` is negative.
pub open spec fn integer_text(n: int) -> Seq<char> {
    if n < 0 {
        seq!['-'] + natural_text((-n) as nat)
    } else {
        natural_text(n as nat)
    }
}

/// The integer that `s` writes, if it writes one: digits, at least one,
/// behind at most one sign. Leading zeros are read and count for nothing.
pub open spec fn parse_integer(s: Seq<char>) -> Option<int> {
    if s.len() > 0 && (s[0] == '-' || s[0] == '+') {
        if s.len() > 1 && all_digits(s.skip(1)) {
            if s[0] == '-' {
                Some(-(digits_value(s.skip(1)) as int))
            } else {
                Some(digits_value(s.skip(1)) as int)
            }
        } else {
            None
        }
    } else if s.len() > 0 && all_digits(s) {
        Some(digits_value(s) as int)
    } else {
        None
    }
}

/// Whether `s` writes an integer in the one way in which integers are
/// written out: without a plus sign, without a leading zero before
/// another digit, and without a minus sign before zero.
pub open spec fn is_canonical_integer(s: Seq<char>) -> bool {
    let digits = if s.len() > 0 && s[0] == '-' {
        s.skip(1)
    } else {
        s
    };
    &&& digits.len() > 0
    &&& all_digits(digits)
    &&& digits[0] == '0' ==> digits.len() == 1 && s.len() == 1
}

/// `n` zeros.
pub open spec fn zeros(n: nat) -> Seq<char> {
    Seq::new(n, |i: int| '0')
}

/// `n` written with exactly `width` digits, zeros first. It is meant for
/// numbers that have no more digits than `width`.
pub open spec fn padded_text(n: nat, width: nat) -> Seq<char>
    decreases width,
{
    if width == 0 {
        Seq::empty()
    } else {
        padded_text(n / 10, (width - 1) as nat).push(digit_char((n % 10) as int))
    }
}

/// Ten to the power of `n`.
pub open spec fn pow10(n: nat) -> nat
    decreases n,
{
    if n == 0 {
        1
    } else {
        10 * pow10((n - 1) as nat)
    }
}

/// A number written with as many digits as it needs at most is written in
/// digits, as many as were asked for, and they write the number.
pub proof fn lemma_padded_text(n: nat, width: nat)
    requires
        n < pow10(width),
    ensures
        padded_text(n, width).len() == width,
        all_digits(padded_text(n, width)),
        digits_value(padded_text(n, width)) == n,
    decreases width,
{
    if width > 0 {
        lemma_padded_text(n / 10, (width - 1) as nat);
        lemma_digit_char((n % 10) as int);
        let front = padded_text(n / 10, (width - 1) as nat);
        assert(padded_text(n, width).drop_last() =~= front);
    }
}

/// Digits are the padded text of the number that they write.
pub proof fn lemma_digits_are_padded_text(s: Seq<char>)
    requires
        all_digits(s),
    ensures
        padded_text(digits_value(s), s.len()) == s,
        digits_value(s) < pow10(s.len()),
    decreases s.len(),
{
    if s.len() > 0 {
        let front = s.drop_last();
        lemma_digits_are_padded_text(front);
        lemma_digit_value(s.last());
        let n = digits_value(s);
        assert(n / 10 == digits_value(front));
        assert(n % 10 == digit_value(s.last()));
        assert(padded_text(n, s.len()) =~= s);
    } else {
        assert(padded_text(digits_value(s), s.len()) =~= s);
    }
}

pub proof fn lemma_digit_char(d: int)
    requires
        0 <= d <= 9,
    ensures
        is_digit(digit_char(d)),
        digit_value(digit_char(d)) == d,
        digit_char(d) != '-',
        digit_char(d) != '+',
        d != 0 ==> digit_char(d) != '0',
        digit_char(0) == '0',
{
}

pub proof fn lemma_digit_value(c: char)
    requires
        is_digit(c),
    ensures
        0 <= digit_value(c) <= 9,
        digit_char(digit_value(c)) == c,
{
}

/// The digits of a number are digits, at least one, and write the number.
pub proof fn lemma_natural_text(n: nat)
    ensures
        natural_text(n).len() > 0,
        all_digits(natural_text(n)),
        digits_value(natural_text(n)) == n,
        n > 0 ==> natural_text(n)[0] != '0',
        n < 10 ==> natural_text(n).len() == 1,
    decreases n,
{
    if n < 10 {
        lemma_digit_char(n as int);
        let s = natural_text(n);
        assert(s.drop_last() =~= Seq::<char>::empty());
        assert(digits_value(s.drop_last()) == 0);
    } else {
        lemma_natural_text(n / 10);
        lemma_digit_char((n % 10) as int);
        let front = natural_text(n / 10);
        let s = natural_text(n);
        assert(s.drop_last() =~= front);
        assert(s[0] == front[0]);
    }
}

/// Digits that do not start with a zero, or are the one digit zero, are the
/// text of the number that they write.
pub proof fn lemma_digits_are_natural_text(s: Seq<char>)
    requires
        s.len() > 0,
        all_digits(s),
        s[0] == '0' ==> s.len() == 1,
    ensures
        natural_text(digits_value(s)) == s,
        s[0] != '0' ==> digits_value(s) > 0,
    decreases s.len(),
{
    let front = s.drop_last();
    lemma_digit_value(s.last());
    if s.len() == 1 {
        assert(front =~= Seq::<char>::empty());
        assert(digits_value(front) == 0);
        assert(natural_text(digits_value(s)) =~= s);
    } else {
        assert(front[0] == s[0]);
        lemma_digits_are_natural_text(front);
        let n = digits_value(s);
        assert(n == digits_value(front) * 10 + digit_value(s.last()));
        assert(n / 10 == digits_value(front));
        assert(n % 10 == digit_value(s.last()));
        assert(natural_text(n) =~= s);
    }
}

/// Reading the text of an integer gives the integer back, and writing the
/// integer that a canonical text was read as gives the text back.
pub proof fn lemma_integer_round_trip(n: int, s: Seq<char>)
    ensures
        parse_integer(integer_text(n)) == Some(n),
        is_canonical_integer(integer_text(n)),
        is_canonical_integer(s) ==> parse_integer(s) is Some && integer_text(
            parse_integer(s).unwrap(),
        ) == s,
{
    if n < 0 {
        let m = (-n) as nat;
        lemma_natural_text(m);
        let t = integer_text(n);
        assert(t.skip(1) =~= natural_text(m));
    } else {
        lemma_natural_text(n as nat);
    }
    if is_canonical_integer(s) {
        if s[0] == '-' {
            let digits = s.skip(1);
            lemma_digits_are_natural_text(digits);
            assert(seq!['-'] + digits =~= s);
        } else {
            lemma_digits_are_natural_text(s);
            assert(s[0] != '+');
        }
    }
}

/// More digits write no smaller a number.
pub proof fn lemma_digits_value_grows(s: Seq<char>, k: int)
    requires
        all_digits(s),
        0 <= k <= s.len(),
    ensures
        digits_value(s.take(k)) <= digits_value(s),
    decreases s.len() - k,
{
    if k < s.len() {
        lemma_digits_value_grows(s, k + 1);
        assert(s.take(k + 1).drop_last() =~= s.take(k));
        lemma_digit_value(s[k]);
        assert(s.take(k + 1).last() == s[k]);
    } else {
        assert(s.take(k) =~= s);
    }
}

/// The text of one character of a number: a digit or a minus sign.
pub fn numeral_str(c: char) -> (r: &'static str)
    requires
        is_digit(c) || c == '-',
    ensures
        r@ == seq![c],
{
    proof {
        reveal_strlit("0");
        reveal_strlit("1");
        reveal_strlit("2");
        reveal_strlit("3");
        reveal_strlit("4");
        reveal_strlit("5");
        reveal_strlit("6");
        reveal_strlit("7");
        reveal_strlit("8");
        reveal_strlit("9");
        reveal_strlit("-");
    }
    let r = match c {
        '0' => "0",
        '1' => "1",
        '2' => "2",
        '3' => "3",
        '4' => "4",
        '5' => "5",
        '6' => "6",
        '7' => "7",
        '8' => "8",
        '9' => "9",
        _ => "-",
    };
    assert(r@ =~= seq![c]);
    r
}

/// Whether every character of `s` is a digit or a minus sign.
pub open spec fn all_numerals(s: Seq<char>) -> bool {
    forall|i: int| 0 <= i < s.len() ==> is_digit(#[trigger] s[i]) || s[i] == '-'
}

/// The text of an integer is made of digits and minus signs.
pub proof fn lemma_integer_text_numerals(n: int)
    ensures
        all_numerals(integer_text(n)),
{
    if n < 0 {
        lemma_natural_text((-n) as nat);
        let digits = natural_text((-n) as nat);
        assert forall|i: int| 0 <= i < integer_text(n).len() implies is_digit(
            #[trigger] integer_text(n)[i],
        ) || integer_text(n)[i] == '-' by {
            if i > 0 {
                assert(integer_text(n)[i] == digits[i - 1]);
            }
        }
    } else {
        lemma_natural_text(n as nat);
    }
}

/// Appends the characters `chars[from..to]` of a number to `out`.
pub fn append_numerals(out: &mut String, chars: &Vec<char>, from: usize, to: usize)
    requires
        from <= to <= chars@.len(),
        all_numerals(chars@),
    ensures
        final(out)@ == old(out)@ + chars@.subrange(from as int, to as int),
{
    let mut i: usize = from;
    assert(out@ =~= old(out)@ + chars@.subrange(from as int, i as int));
    while i < to
        invariant
            from <= i <= to <= chars@.len(),
            all_numerals(chars@),
            out@ == old(out)@ + chars@.subrange(from as int, i as int),
        decreases to - i,
    {
        out.append(numeral_str(chars[i]));
        assert(chars@.subrange(from as int, i + 1) =~= chars@.subrange(from as int, i as int).push(
            chars@[i as int],
        ));
        i = i + 1;
        assert(out@ =~= old(out)@ + chars@.subrange(from as int, i as int));
    }
}

/// Appends the digits of `n` to `out`.
pub fn append_natural(out: &mut String, n: u64)
    ensures
        final(out)@ == old(out)@ + natural_text(n as nat),
    decreases n,
{
    if n >= 10 {
        append_natural(out, n / 10);
    }
    let d: u8 = (n % 10) as u8;
    proof {
        lemma_digit_char(d as int);
    }
    let c: char = (d + 48) as char;
    out.append(numeral_str(c));
    assert(out@ =~= old(out)@ + natural_text(n as nat));
}

/// Appends the text of `n` to `out`.
pub fn append_integer(out: &mut String, n: i64)
    ensures
        final(out)@ == old(out)@ + integer_text(n as int),
{
    if n < 0 {
        out.append(numeral_str('-'));
        let m: u64 = if n == i64::MIN {
            9223372036854775808u64
        } else {
            (-n) as u64
        };
        append_natural(out, m);
        assert(out@ =~= old(out)@ + integer_text(n as int));
    } else {
        append_natural(out, n as u64);
    }
}

/// Appends `n` with exactly `width` digits to `out`, zeros first.
pub fn append_padded(out: &mut String, n: u32, width: u8)
    ensures
        final(out)@ == old(out)@ + padded_text(n as nat, width as nat),
    decreases width,
{
    if width > 0 {
        append_padded(out, n / 10, width - 1);
        let d: u8 = (n % 10) as u8;
        proof {
            lemma_digit_char(d as int);
        }
        let c: char = (d + 48) as char;
        out.append(numeral_str(c));
        assert(out@ =~= old(out)@ + padded_text(n as nat, width as nat));
    } else {
        assert(out@ =~= old(out)@ + padded_text(n as nat, width as nat));
    }
}

/// Reads the digits `chars[from..to]`. The number comes back unless it is
/// greater than `limit`; then nothing comes back, and so it does where a
/// character is no digit.
pub fn read_digits(chars: &Vec<char>, from: usize, to: usize, limit: u64) -> (r: Option<u64>)
    requires
        from <= to <= chars@.len(),
        limit <= 0xffff_ffff_ffff,
    ensures
        match r {
            Some(n) => all_digits(chars@.subrange(from as int, to as int)) && n == digits_value(
                chars@.subrange(from as int, to as int),
            ) && n <= limit,
            None => !all_digits(chars@.subrange(from as int, to as int)) || digits_value(
                chars@.subrange(from as int, to as int),
            ) > limit,
        },
{
    let ghost whole = chars@.subrange(from as int, to as int);
    let mut n: u64 = 0;
    let mut i: usize = from;
    while i < to
        invariant
            from <= i <= to <= chars@.len(),
            whole == chars@.subrange(from as int, to as int),
            all_digits(chars@.subrange(from as int, i as int)),
            n == digits_value(chars@.subrange(from as int, i as int)),
            n <= limit <= 0xffff_ffff_ffff,
        decreases to - i,
    {
        let c = chars[i];
        let ghost read = chars@.subrange(from as int, i as int);
        let ghost next = chars@.subrange(from as int, i + 1);
        proof {
            assert(next.drop_last() =~= read);
            assert(next.last() == c);
        }
        if !('0' <= c && c <= '9') {
            proof {
                assert(whole[i - from] == c);
            }
            return None;
        }
        let d: u64 = (c as u32 - 48) as u64;
        let m: u64 = n * 10 + d;
        proof {
            assert(m == digits_value(next));
            assert forall|j: int| 0 <= j < next.len() implies is_digit(#[trigger] next[j]) by {
                if j < read.len() {
                    assert(next[j] == read[j]);
                }
            }
        }
        if m > limit {
            proof {
                if all_digits(whole) {
                    assert(whole.take(i + 1 - from) =~= next);
                    lemma_digits_value_grows(whole, i + 1 - from);
                }
            }
            return None;
        }
        n = m;
        i = i + 1;
    }
    proof {
        assert(chars@.subrange(from as int, i as int) =~= whole);
    }
    Some(n)
}

} // verus!
