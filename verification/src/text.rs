//! Text: decimal numbers written and read, strings compared and trimmed.

use vstd::prelude::*;

verus! {

/// The character of the decimal digit `d`.
pub open spec fn digit(d: nat) -> char {
    (48 + d) as char
}

/// `n` written in decimal, without leading zeros.
pub open spec fn decimal(n: nat) -> Seq<char>
    decreases n,
{
    if n < 10 {
        seq![digit(n)]
    } else {
        decimal(n / 10).push(digit(n % 10))
    }
}

/// Whether `c` is one of `0` to `9`.
pub open spec fn is_digit(c: char) -> bool {
    '0' <= c <= '9'
}

/// The value of the digit `c`.
pub open spec fn digit_value(c: char) -> nat {
    (c as int - 48) as nat
}

/// Why a text is not a number.
#[derive(Clone, Copy, Debug, PartialEq, Eq, Structural)]
pub enum NumberError {
    /// There is no text at all.
    Empty,
    /// A character is not a digit, or the sign stands alone.
    InvalidDigit,
    /// The number is too large for its type.
    PosOverflow,
}

impl NumberError {
    /// The error in words.
    pub open spec fn in_words(self) -> Seq<char> {
        match self {
            NumberError::Empty => "cannot parse integer from empty string"@,
            NumberError::InvalidDigit => "invalid digit found in string"@,
            NumberError::PosOverflow => "number too large to fit in target type"@,
        }
    }

    /// The error in words.
    pub fn message(&self) -> (s: &'static str)
        ensures
            s@ == self.in_words(),
    {
        match self {
            NumberError::Empty => "cannot parse integer from empty string",
            NumberError::InvalidDigit => "invalid digit found in string",
            NumberError::PosOverflow => "number too large to fit in target type",
        }
    }
}

/// The number that `digits`, read from left to right, make of `acc`: the first
/// character that is no digit, or that takes the number beyond `max`, decides.
pub open spec fn read_digits(acc: nat, digits: Seq<char>, max: nat) -> Result<nat, NumberError>
    decreases digits.len(),
{
    if digits.len() == 0 {
        Ok(acc)
    } else if !is_digit(digits[0]) {
        Err(NumberError::InvalidDigit)
    } else if acc * 10 + digit_value(digits[0]) > max {
        Err(NumberError::PosOverflow)
    } else {
        read_digits(acc * 10 + digit_value(digits[0]), digits.drop_first(), max)
    }
}

/// The unsigned number that a text stands for: an optional `+`, then at least
/// one digit, the value at most `max`.
pub open spec fn read_number(s: Seq<char>, max: nat) -> Result<nat, NumberError> {
    if s.len() == 0 {
        Err(NumberError::Empty)
    } else if s[0] == '+' {
        if s.len() == 1 {
            Err(NumberError::InvalidDigit)
        } else {
            read_digits(0, s.drop_first(), max)
        }
    } else {
        read_digits(0, s, max)
    }
}

/// The characters that Unicode calls white space.
pub open spec fn is_white_space(c: char) -> bool {
    let u = c as u32;
    ||| 0x09 <= u <= 0x0d
    ||| u == 0x20
    ||| u == 0x85
    ||| u == 0xa0
    ||| u == 0x1680
    ||| 0x2000 <= u <= 0x200a
    ||| u == 0x2028
    ||| u == 0x2029
    ||| u == 0x202f
    ||| u == 0x205f
    ||| u == 0x3000
}

/// `s` without the characters at its front that are white space.
pub open spec fn trimmed_start(s: Seq<char>) -> Seq<char>
    decreases s.len(),
{
    if s.len() > 0 && is_white_space(s[0]) {
        trimmed_start(s.drop_first())
    } else {
        s
    }
}

/// `s` without the characters at its end that are white space.
pub open spec fn trimmed_end(s: Seq<char>) -> Seq<char>
    decreases s.len(),
{
    if s.len() > 0 && is_white_space(s.last()) {
        trimmed_end(s.drop_last())
    } else {
        s
    }
}

/// `s` without the white space at its two ends.
pub open spec fn trimmed(s: Seq<char>) -> Seq<char> {
    trimmed_end(trimmed_start(s))
}

/// `s` without the slashes at its end.
pub open spec fn without_trailing_slashes(s: Seq<char>) -> Seq<char>
    decreases s.len(),
{
    if s.len() > 0 && s.last() == '/' {
        without_trailing_slashes(s.drop_last())
    } else {
        s
    }
}

/// The characters of `s`, in order.
fn characters(s: &str) -> (v: Vec<char>)
    ensures
        v@ == s@,
{
    let mut v: Vec<char> = Vec::new();
    for c in it: s.chars()
        invariant
            v@ == it.seq().take(it.index()),
            it.seq() == s@,
    {
        v.push(c);
    }
    v
}

/// Whether `a` and `b` are the same text.
pub fn same_text(a: &str, b: &str) -> (r: bool)
    ensures
        r == (a@ == b@),
{
    let x = characters(a);
    let y = characters(b);
    if x.len() != y.len() {
        return false;
    }
    let mut i: usize = 0;
    while i < x.len()
        invariant
            i <= x.len(),
            x.len() == y.len(),
            x@ == a@,
            y@ == b@,
            forall|j: int| 0 <= j < i ==> x@[j] == y@[j],
        decreases x.len() - i,
    {
        if x[i] != y[i] {
            assert(a@[i as int] != b@[i as int]);
            return false;
        }
        i += 1;
    }
    assert(a@ =~= b@);
    true
}

/// The text of one digit.
fn digit_text(d: u64) -> (s: &'static str)
    requires
        d < 10,
    ensures
        s@ == seq![digit(d as nat)],
{
    proof {
        reveal_strlit("0");
        reveal_strlit("1");
        reveal_strlit("2");
        reveal_strlit("3");
        reveal_strlit("4");
        reveal_strlit("5");
        reveal_strlit("6");
        reveal_strlit("7");
        reveal_strlit("8");
        reveal_strlit("9");
    }
    match d {
        0 => "0",
        1 => "1",
        2 => "2",
        3 => "3",
        4 => "4",
        5 => "5",
        6 => "6",
        7 => "7",
        8 => "8",
        _ => "9",
    }
}

/// Writes `n` in decimal at the end of `s`.
pub fn push_decimal(s: &mut String, n: u128)
    ensures
        final(s)@ == old(s)@ + decimal(n as nat),
    decreases n,
{
    if n >= 10 {
        push_decimal(s, n / 10);
    }
    s.append(digit_text((n % 10) as u64));
    assert(s@ =~= old(s)@ + decimal(n as nat));
}

/// Reads the digits of `s` from position `from` on as a number of at most `max`.
fn parse_digits(s: &Vec<char>, from: usize, max: u64) -> (r: Result<u64, NumberError>)
    requires
        from <= s.len(),
    ensures
        r matches Ok(n) ==> read_digits(0, s@.skip(from as int), max as nat) == Ok::<nat, NumberError>(n as nat),
        r matches Err(e) ==> read_digits(0, s@.skip(from as int), max as nat) == Err::<nat, NumberError>(e),
{
    let mut acc: u64 = 0;
    let mut i: usize = from;
    while i < s.len()
        invariant
            from <= i <= s.len(),
            acc <= max,
            read_digits(0, s@.skip(from as int), max as nat) == read_digits(
                acc as nat,
                s@.skip(i as int),
                max as nat,
            ),
        decreases s.len() - i,
    {
        let c = s[i];
        assert(s@.skip(i as int)[0] == c);
        assert(s@.skip(i as int).drop_first() =~= s@.skip(i + 1));
        if !('0' <= c && c <= '9') {
            return Err(NumberError::InvalidDigit);
        }
        let next: u128 = (acc as u128) * 10 + (c as u32 - 48) as u128;
        if next > max as u128 {
            return Err(NumberError::PosOverflow);
        }
        acc = next as u64;
        i += 1;
    }
    Ok(acc)
}

/// Reads `s` as an unsigned number of at most `max`.
fn parse_number(s: &str, max: u64) -> (r: Result<u64, NumberError>)
    ensures
        r matches Ok(n) ==> read_number(s@, max as nat) == Ok::<nat, NumberError>(n as nat),
        r matches Err(e) ==> read_number(s@, max as nat) == Err::<nat, NumberError>(e),
{
    let v = characters(s);
    if v.len() == 0 {
        return Err(NumberError::Empty);
    }
    if v[0] == '+' {
        if v.len() == 1 {
            return Err(NumberError::InvalidDigit);
        }
        assert(v@.skip(1) =~= s@.drop_first());
        parse_digits(&v, 1, max)
    } else {
        assert(v@.skip(0) =~= s@);
        parse_digits(&v, 0, max)
    }
}

/// Reads `s` as a `u32`.
pub fn parse_u32(s: &str) -> (r: Result<u32, NumberError>)
    ensures
        r matches Ok(n) ==> read_number(s@, u32::MAX as nat) == Ok::<nat, NumberError>(n as nat),
        r matches Err(e) ==> read_number(s@, u32::MAX as nat) == Err::<nat, NumberError>(e),
{
    match parse_number(s, u32::MAX as u64) {
        Ok(n) => {
            proof {
                lemma_read_digits_bounded(0, s@, u32::MAX as nat);
                lemma_read_digits_bounded(0, s@.drop_first(), u32::MAX as nat);
            }
            Ok(n as u32)
        },
        Err(e) => Err(e),
    }
}

/// Reads `s` as a `usize`.
pub fn parse_usize(s: &str) -> (r: Result<usize, NumberError>)
    ensures
        r matches Ok(n) ==> read_number(s@, usize::MAX as nat) == Ok::<nat, NumberError>(n as nat),
        r matches Err(e) ==> read_number(s@, usize::MAX as nat) == Err::<nat, NumberError>(e),
{
    match parse_number(s, usize::MAX as u64) {
        Ok(n) => {
            proof {
                lemma_read_digits_bounded(0, s@, usize::MAX as nat);
                lemma_read_digits_bounded(0, s@.drop_first(), usize::MAX as nat);
            }
            Ok(n as usize)
        },
        Err(e) => Err(e),
    }
}

proof fn lemma_read_digits_bounded(acc: nat, digits: Seq<char>, max: nat)
    requires
        acc <= max,
    ensures
        read_digits(acc, digits, max) matches Ok(n) ==> n <= max,
    decreases digits.len(),
{
    if digits.len() > 0 && is_digit(digits[0]) && acc * 10 + digit_value(digits[0]) <= max {
        lemma_read_digits_bounded(acc * 10 + digit_value(digits[0]), digits.drop_first(), max);
    }
}

/// Whether `c` is white space.
fn white_space(c: char) -> (r: bool)
    ensures
        r == is_white_space(c),
{
    let u: u32 = c as u32;
    (0x09 <= u && u <= 0x0d) || u == 0x20 || u == 0x85 || u == 0xa0 || u == 0x1680 || (0x2000 <= u
        && u <= 0x200a) || u == 0x2028 || u == 0x2029 || u == 0x202f || u == 0x205f || u == 0x3000
}

/// `s` without the white space at its two ends.
pub fn trim<'a>(s: &'a str) -> (r: &'a str)
    ensures
        r@ == trimmed(s@),
{
    let v = characters(s);
    let mut from: usize = 0;
    assert(s@.skip(0) =~= s@);
    while from < v.len() && white_space(v[from])
        invariant
            from <= v.len(),
            v@ == s@,
            trimmed_start(s@) == trimmed_start(s@.skip(from as int)),
        decreases v.len() - from,
    {
        assert(s@.skip(from as int).drop_first() =~= s@.skip(from + 1));
        from += 1;
    }
    assert(trimmed_start(s@) == s@.skip(from as int));
    let mut to: usize = v.len();
    assert(s@.subrange(from as int, to as int) =~= s@.skip(from as int));
    while to > from && white_space(v[to - 1])
        invariant
            from <= to <= v.len(),
            v@ == s@,
            trimmed(s@) == trimmed_end(s@.subrange(from as int, to as int)),
        decreases to,
    {
        assert(s@.subrange(from as int, to as int).drop_last() =~= s@.subrange(
            from as int,
            to - 1,
        ));
        to -= 1;
    }
    s.substring_char(from, to)
}

/// `s` without the slashes at its end.
pub fn trim_end_slashes<'a>(s: &'a str) -> (r: &'a str)
    ensures
        r@ == without_trailing_slashes(s@),
{
    let v = characters(s);
    let mut to: usize = v.len();
    assert(s@.take(to as int) =~= s@);
    while to > 0 && v[to - 1] == '/'
        invariant
            to <= v.len(),
            v@ == s@,
            without_trailing_slashes(s@) == without_trailing_slashes(s@.take(to as int)),
        decreases to,
    {
        assert(s@.take(to as int).drop_last() =~= s@.take(to - 1));
        to -= 1;
    }
    assert(s@.take(to as int) =~= s@.subrange(0, to as int));
    s.substring_char(0, to)
}

proof fn lemma_read_one_more(acc: nat, digits: Seq<char>, c: char, m: nat, max: nat)
    requires
        read_digits(acc, digits, max) == Ok::<nat, NumberError>(m),
        is_digit(c),
        m * 10 + digit_value(c) <= max,
    ensures
        read_digits(acc, digits.push(c), max) == Ok::<nat, NumberError>(m * 10 + digit_value(c)),
    decreases digits.len(),
{
    if digits.len() == 0 {
        assert(digits.push(c).drop_first() =~= Seq::<char>::empty());
        assert(read_digits(m * 10 + digit_value(c), Seq::<char>::empty(), max) == Ok::<
            nat,
            NumberError,
        >(m * 10 + digit_value(c)));
    } else {
        assert(digits.push(c).drop_first() =~= digits.drop_first().push(c));
        lemma_read_one_more(
            acc * 10 + digit_value(digits[0]),
            digits.drop_first(),
            c,
            m,
            max,
        );
    }
}

proof fn lemma_decimal_digits(n: nat, max: nat)
    requires
        n <= max,
    ensures
        decimal(n).len() > 0,
        is_digit(decimal(n)[0]),
        read_digits(0, decimal(n), max) == Ok::<nat, NumberError>(n),
    decreases n,
{
    if n < 10 {
        assert(decimal(n).drop_first() =~= Seq::<char>::empty());
        assert(read_digits(n, Seq::<char>::empty(), max) == Ok::<nat, NumberError>(n));
    } else {
        lemma_decimal_digits(n / 10, max);
        lemma_read_one_more(0, decimal(n / 10), digit(n % 10), n / 10, max);
    }
}

/// A number written in decimal is read back as that number, whatever type it
/// fits in.
pub proof fn decimal_is_read_back(n: nat, max: nat)
    requires
        n <= max,
    ensures
        read_number(decimal(n), max) == Ok::<nat, NumberError>(n),
{
    lemma_decimal_digits(n, max);
}

/// No two numbers are written alike.
pub proof fn decimal_tells_numbers_apart(m: nat, n: nat)
    requires
        decimal(m) == decimal(n),
    ensures
        m == n,
{
    decimal_is_read_back(m, m + n);
    decimal_is_read_back(n, m + n);
}

/// Texts are the same just when their characters are.
pub proof fn texts_are_compared_by_character(a: &str, b: &str, r: bool)
    requires
        call_ensures(same_text, (a, b), r),
    ensures
        r <==> a@.len() == b@.len() && forall|i: int| 0 <= i < a@.len() ==> a@[i] == b@[i],
{
    if a@.len() == b@.len() && (forall|i: int| 0 <= i < a@.len() ==> a@[i] == b@[i]) {
        assert(a@ =~= b@);
    }
}

/// What is left without the slashes at the end is the front of the text, up to
/// its last character that is no slash.
pub proof fn slashes_are_cut_off(s: Seq<char>)
    ensures
        ({
            let n = without_trailing_slashes(s).len() as int;
            &&& n <= s.len()
            &&& without_trailing_slashes(s) == s.take(n)
            &&& forall|i: int| n <= i < s.len() ==> s[i] == '/'
            &&& n > 0 ==> s[n - 1] != '/'
        }),
    decreases s.len(),
{
    if s.len() > 0 && s.last() == '/' {
        slashes_are_cut_off(s.drop_last());
        let n = without_trailing_slashes(s).len() as int;
        let t = s.drop_last();
        assert(t.take(n) =~= s.take(n));
        assert forall|i: int| n <= i < s.len() implies s[i] == '/' by {
            if i < t.len() {
                assert(t[i] == s[i]);
            }
        }
    } else {
        assert(s.take(s.len() as int) =~= s);
    }
}

/// The white space of Unicode, character by character.
pub proof fn white_space_is_that_of_unicode(c: char)
    ensures
        is_white_space(c) <==> seq![
            '\u{9}', '\u{a}', '\u{b}', '\u{c}', '\u{d}', ' ', '\u{85}', '\u{a0}', '\u{1680}',
            '\u{2000}', '\u{2001}', '\u{2002}', '\u{2003}', '\u{2004}', '\u{2005}', '\u{2006}',
            '\u{2007}', '\u{2008}', '\u{2009}', '\u{200a}', '\u{2028}', '\u{2029}', '\u{202f}',
            '\u{205f}', '\u{3000}',
        ].contains(c),
{
    let all = seq![
        '\u{9}', '\u{a}', '\u{b}', '\u{c}', '\u{d}', ' ', '\u{85}', '\u{a0}', '\u{1680}',
        '\u{2000}', '\u{2001}', '\u{2002}', '\u{2003}', '\u{2004}', '\u{2005}', '\u{2006}',
        '\u{2007}', '\u{2008}', '\u{2009}', '\u{200a}', '\u{2028}', '\u{2029}', '\u{202f}',
        '\u{205f}', '\u{3000}',
    ];
    if is_white_space(c) {
        let u = c as int;
        if u <= 0x0d {
            assert(all[u - 9] == c);
        } else if 0x2000 <= u <= 0x200a {
            assert(all[u - 0x2000 + 9] == c);
        } else {
            assert(all[5] == c || all[6] == c || all[7] == c || all[8] == c || all[20] == c
                || all[21] == c || all[22] == c || all[23] == c || all[24] == c);
        }
    }
}

proof fn lemma_trimmed_start(s: Seq<char>) -> (i: int)
    ensures
        0 <= i <= s.len(),
        trimmed_start(s) == s.skip(i),
        forall|k: int| 0 <= k < i ==> is_white_space(s[k]),
        i < s.len() ==> !is_white_space(s[i]),
    decreases s.len(),
{
    if s.len() > 0 && is_white_space(s[0]) {
        let t = s.drop_first();
        let i = lemma_trimmed_start(t);
        assert(t.skip(i) =~= s.skip(i + 1));
        assert forall|k: int| 0 <= k < i + 1 implies is_white_space(s[k]) by {
            if k > 0 {
                assert(t[k - 1] == s[k]);
            }
        }
        i + 1
    } else {
        assert(s.skip(0) =~= s);
        0
    }
}

proof fn lemma_trimmed_end(s: Seq<char>) -> (j: int)
    ensures
        0 <= j <= s.len(),
        trimmed_end(s) == s.take(j),
        forall|k: int| j <= k < s.len() ==> is_white_space(s[k]),
        j > 0 ==> !is_white_space(s[j - 1]),
    decreases s.len(),
{
    if s.len() > 0 && is_white_space(s.last()) {
        let t = s.drop_last();
        let j = lemma_trimmed_end(t);
        assert(t.take(j) =~= s.take(j));
        assert forall|k: int| j <= k < s.len() implies is_white_space(s[k]) by {
            if k < t.len() {
                assert(t[k] == s[k]);
            }
        }
        j
    } else {
        assert(s.take(s.len() as int) =~= s);
        s.len() as int
    }
}

/// What trimming leaves is one piece of the text: it neither begins nor ends
/// with white space, and nothing but white space stands around it.
pub proof fn white_space_is_cut_off(s: Seq<char>)
    ensures
        exists|i: int, j: int|
            {
                &&& 0 <= i <= j <= s.len()
                &&& trimmed(s) == #[trigger] s.subrange(i, j)
                &&& forall|k: int| 0 <= k < i || j <= k < s.len() ==> is_white_space(s[k])
                &&& i < j ==> !is_white_space(s[i]) && !is_white_space(s[j - 1])
            },
{
    let i = lemma_trimmed_start(s);
    let t = s.skip(i);
    let j = i + lemma_trimmed_end(t);
    assert(trimmed(s) =~= s.subrange(i, j));
    assert forall|k: int| 0 <= k < i || j <= k < s.len() implies is_white_space(s[k]) by {
        if j <= k {
            assert(t[k - i] == s[k]);
        }
    }
    if i < j {
        assert(t[j - i - 1] == s[j - 1]);
    }
}

/// Trimming gives one piece of the text, free of white space at its ends, and
/// cuts off nothing else.
pub proof fn trimming_cuts_off_white_space(s: &str, r: &str, slashed: &str)
    requires
        call_ensures(trim, (s,), r),
        call_ensures(trim_end_slashes, (s,), slashed),
    ensures
        exists|i: int, j: int|
            {
                &&& 0 <= i <= j <= s@.len()
                &&& r@ == #[trigger] s@.subrange(i, j)
                &&& forall|k: int| 0 <= k < i || j <= k < s@.len() ==> is_white_space(s@[k])
                &&& i < j ==> !is_white_space(s@[i]) && !is_white_space(s@[j - 1])
            },
        slashed@ == s@.take(slashed@.len() as int),
        forall|i: int| slashed@.len() <= i < s@.len() ==> s@[i] == '/',
        slashed@.len() > 0 ==> slashed@.last() != '/',
{
    white_space_is_cut_off(s@);
    slashes_are_cut_off(s@);
}

/// The number that the digits `s` stand for, each ten times the weight of the
/// next.
pub open spec fn number_of(s: Seq<char>) -> int {
    s.fold_left(0int, |n: int, c: char| 10 * n + (c as int - '0' as int))
}

proof fn lemma_number_of_one_more(s: Seq<char>, c: char)
    ensures
        number_of(s.push(c)) == 10 * number_of(s) + (c as int - '0' as int),
        number_of(Seq::empty()) == 0,
{
    reveal_with_fuel(Seq::fold_left, 2);
    assert(s.push(c).drop_last() =~= s);
}

/// A number is written with decimal digits only, at least one and no zero before
/// others, which stand for that number.
pub proof fn decimal_digits_stand_for_the_number(n: nat)
    ensures
        decimal(n).len() > 0,
        forall|i: int| 0 <= i < decimal(n).len() ==> '0' <= #[trigger] decimal(n)[i] <= '9',
        decimal(n).len() > 1 ==> decimal(n)[0] != '0',
        number_of(decimal(n)) == n,
    decreases n,
{
    if n < 10 {
        lemma_number_of_one_more(Seq::empty(), digit(n));
        assert(decimal(n) =~= Seq::empty().push(digit(n)));
    } else {
        decimal_digits_stand_for_the_number(n / 10);
        lemma_number_of_one_more(decimal(n / 10), digit(n % 10));
        if decimal(n / 10).len() == 1 {
            lemma_number_of_one_more(Seq::empty(), decimal(n / 10)[0]);
            assert(decimal(n / 10) =~= Seq::empty().push(decimal(n / 10)[0]));
        }
    }
}

/// A number is written at the end of the text that is there.
pub proof fn numbers_are_written_at_the_end(s: &mut String, n: u128)
    requires
        call_ensures(push_decimal, (s, n), ()),
    ensures
        old(s)@.len() < final(s)@.len(),
        final(s)@.take(old(s)@.len() as int) == old(s)@,
        ({
            let written = final(s)@.skip(old(s)@.len() as int);
            &&& forall|i: int| 0 <= i < written.len() ==> '0' <= #[trigger] written[i] <= '9'
            &&& written.len() > 1 ==> written[0] != '0'
            &&& number_of(written) == n
        }),
{
    decimal_digits_stand_for_the_number(n as nat);
    assert(final(s)@.skip(old(s)@.len() as int) =~= decimal(n as nat));
    assert(final(s)@.take(old(s)@.len() as int) =~= old(s)@);
}

proof fn lemma_number_rises(s: Seq<char>, k: int)
    requires
        0 <= k <= s.len(),
        forall|i: int| 0 <= i < s.len() ==> '0' <= #[trigger] s[i] <= '9',
    ensures
        0 <= number_of(s.take(k)) <= number_of(s),
    decreases s.len(),
{
    lemma_number_of_one_more(s, '0');
    if s.len() > 0 {
        let t = s.drop_last();
        assert(s =~= t.push(s.last()));
        lemma_number_of_one_more(t, s.last());
        lemma_number_rises(t, t.len() as int);
        assert(t.take(t.len() as int) =~= t);
        if k < s.len() {
            lemma_number_rises(t, k);
            assert(t.take(k) =~= s.take(k));
        } else {
            assert(s.take(k) =~= s);
        }
    } else {
        assert(s.take(k) =~= Seq::empty());
    }
}

/// Whether `digits` are all digits, of a number of at most `max`.
pub open spec fn fits(digits: Seq<char>, max: nat) -> bool {
    &&& forall|i: int| 0 <= i < digits.len() ==> '0' <= #[trigger] digits[i] <= '9'
    &&& number_of(digits) <= max
}

proof fn lemma_read_digits(acc: nat, before: Seq<char>, digits: Seq<char>, max: nat)
    requires
        fits(before, max),
        number_of(before) == acc,
    ensures
        match read_digits(acc, digits, max) {
            Ok(n) => fits(before + digits, max) && number_of(before + digits) == n,
            Err(e) => exists|k: int|
                {
                    &&& 0 <= k < digits.len()
                    &&& fits(#[trigger] (before + digits).take(before.len() + k), max)
                    &&& e == NumberError::InvalidDigit ==> !('0' <= digits[k] <= '9')
                    &&& e != NumberError::InvalidDigit ==> {
                        &&& e == NumberError::PosOverflow
                        &&& '0' <= digits[k] <= '9'
                        &&& number_of((before + digits).take(before.len() + k + 1)) > max
                    }
                },
        },
    decreases digits.len(),
{
    let all = before + digits;
    if digits.len() == 0 {
        assert(all =~= before);
    } else {
        let c = digits[0];
        assert(all.take(before.len() + 0int) =~= before);
        assert(all.take(before.len() + 1int) =~= before.push(c));
        lemma_number_of_one_more(before, c);
        if is_digit(c) && acc * 10 + digit_value(c) <= max {
            let rest = digits.drop_first();
            assert(before.push(c) + rest =~= all);
            lemma_read_digits(acc * 10 + digit_value(c), before.push(c), rest, max);
            if read_digits(acc, digits, max) is Err {
                let j = choose|j: int|
                    {
                        &&& 0 <= j < rest.len()
                        &&& fits(
                            #[trigger] (before.push(c) + rest).take(before.push(c).len() + j),
                            max,
                        )
                        &&& read_digits(acc, digits, max)->Err_0 == NumberError::InvalidDigit ==> !(
                        '0' <= rest[j] <= '9')
                        &&& read_digits(acc, digits, max)->Err_0 != NumberError::InvalidDigit ==> {
                            &&& read_digits(acc, digits, max)->Err_0 == NumberError::PosOverflow
                            &&& '0' <= rest[j] <= '9'
                            &&& number_of(
                                (before.push(c) + rest).take(before.push(c).len() + j + 1),
                            ) > max
                        }
                    };
                assert(rest[j] == digits[j + 1]);
                assert(fits(all.take(before.len() + (j + 1)), max));
            }
        } else {
            assert(fits(all.take(before.len() + 0int), max));
        }
    }
}

/// What is left of a text when a plus sign at its front is taken away.
pub open spec fn unsigned(s: Seq<char>) -> Seq<char> {
    if s.len() > 0 && s[0] == '+' {
        s.skip(1)
    } else {
        s
    }
}

/// A text is read as a number just when it is at least one digit, after a plus
/// sign or without one, and the number that the digits stand for is not too
/// large. Otherwise the first character that spoils it tells why: one that is no
/// digit, or the digit that makes the number too large.
pub proof fn numbers_are_read_from_their_digits(s: Seq<char>, max: nat)
    ensures
        read_number(s, max) is Ok <==> unsigned(s).len() > 0 && fits(unsigned(s), max),
        read_number(s, max) matches Ok(n) ==> n == number_of(unsigned(s)),
        read_number(s, max) matches Err(e) ==> match e {
            NumberError::Empty => s.len() == 0,
            NumberError::InvalidDigit => s.len() > 0 && (unsigned(s).len() == 0 || exists|k: int|
                {
                    &&& 0 <= k < unsigned(s).len()
                    &&& fits(#[trigger] unsigned(s).take(k), max)
                    &&& !('0' <= unsigned(s)[k] <= '9')
                }),
            NumberError::PosOverflow => exists|k: int|
                {
                    &&& 0 <= k < unsigned(s).len()
                    &&& fits(#[trigger] unsigned(s).take(k), max)
                    &&& '0' <= unsigned(s)[k] <= '9'
                    &&& number_of(unsigned(s).take(k + 1)) > max
                },
        },
        s.len() == 0 ==> read_number(s, max) == Err::<nat, NumberError>(NumberError::Empty),
{
    let d = unsigned(s);
    let none = Seq::<char>::empty();
    lemma_number_of_one_more(none, '0');
    assert(none + d =~= d);
    lemma_read_digits(0, none, d, max);
    if s.len() > 0 && s[0] == '+' {
        assert(s.drop_first() =~= d);
    }
    if d.len() > 0 {
        let r = read_digits(0, d, max);
        assert(read_number(s, max) == r);
        if let Err(e) = r {
            let k = choose|k: int|
                {
                    &&& 0 <= k < d.len()
                    &&& fits(#[trigger] (none + d).take(none.len() + k), max)
                    &&& e == NumberError::InvalidDigit ==> !('0' <= d[k] <= '9')
                    &&& e != NumberError::InvalidDigit ==> {
                        &&& e == NumberError::PosOverflow
                        &&& '0' <= d[k] <= '9'
                        &&& number_of((none + d).take(none.len() + k + 1)) > max
                    }
                };
            assert(fits(d.take(k), max));
            if e == NumberError::PosOverflow && fits(d, max) {
                lemma_number_rises(d, k + 1);
            }
        }
    }
}

/// The numbers of the command line are read from their digits, and each type
/// takes those that it can hold.
pub proof fn numbers_are_parsed_from_their_digits(
    s: &str,
    r: Result<u32, NumberError>,
    t: Result<usize, NumberError>,
)
    requires
        call_ensures(parse_u32, (s,), r),
        call_ensures(parse_usize, (s,), t),
    ensures
        r is Ok <==> unsigned(s@).len() > 0 && fits(unsigned(s@), u32::MAX as nat),
        r matches Ok(n) ==> n == number_of(unsigned(s@)),
        t is Ok <==> unsigned(s@).len() > 0 && fits(unsigned(s@), usize::MAX as nat),
        t matches Ok(n) ==> n == number_of(unsigned(s@)),
        s@.len() == 0 <==> r == Err::<u32, NumberError>(NumberError::Empty),
        s@.len() == 0 <==> t == Err::<usize, NumberError>(NumberError::Empty),
        unsigned(s@).len() > 0 && (forall|i: int|
            0 <= i < unsigned(s@).len() ==> '0' <= #[trigger] unsigned(s@)[i] <= '9') ==> {
            &&& r is Err <==> number_of(unsigned(s@)) > u32::MAX
            &&& r is Err ==> r == Err::<u32, NumberError>(NumberError::PosOverflow)
            &&& t is Err <==> number_of(unsigned(s@)) > usize::MAX
            &&& t is Err ==> t == Err::<usize, NumberError>(NumberError::PosOverflow)
        },
{
    numbers_are_read_from_their_digits(s@, u32::MAX as nat);
    numbers_are_read_from_their_digits(s@, usize::MAX as nat);
}

/// What the user is told of a text that is no number.
pub proof fn number_errors_are_told_apart(e: NumberError, s: &'static str)
    requires
        call_ensures(NumberError::message, (&e,), s),
    ensures
        e is Empty ==> s@ == "cannot parse integer from empty string"@,
        e is InvalidDigit ==> s@ == "invalid digit found in string"@,
        e is PosOverflow ==> s@ == "number too large to fit in target type"@,
{
}

/// A plus sign before a number makes no difference, nor does a zero.
pub proof fn signs_and_zeros_are_no_matter(s: Seq<char>, max: nat)
    requires
        s.len() > 0,
        s[0] != '+',
    ensures
        read_number(seq!['+'] + s, max) == read_number(s, max),
        read_number(seq!['0'] + s, max) == read_number(s, max),
        read_number(seq!['+', '+'] + s, max) == Err::<nat, NumberError>(NumberError::InvalidDigit),
        read_number(seq!['-'] + s, max) == Err::<nat, NumberError>(NumberError::InvalidDigit),
{
    assert((seq!['+'] + s).drop_first() =~= s);
    assert((seq!['0'] + s).drop_first() =~= s);
    assert((seq!['+', '+'] + s).drop_first()[0] == '+');
    assert((seq!['-'] + s)[0] == '-');
}

/// A number is written as its digits but the last, then the last; a number below
/// ten is one digit.
pub proof fn one_digit_more(n: nat, d: nat)
    requires
        d < 10,
    ensures
        decimal(d) == seq![(48 + d) as char],
        n > 0 ==> decimal(10 * n + d) == decimal(n) + decimal(d),
{
    assert((10 * n + d) / 10 == n && (10 * n + d) % 10 == d);
    if n > 0 {
        assert(decimal(10 * n + d) =~= decimal(n) + decimal(d));
    }
}

} // verus!
