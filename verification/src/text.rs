//! Text: decimal integers, byte order, substrings and the casing of command kinds.

use vstd::prelude::*;

verus! {

broadcast use vstd::string::group_string_axioms;

/// Why a text is not a decimal integer of the wanted type.
#[derive(Clone, Copy, Debug, PartialEq, Eq, Structural)]
pub enum ParseIntError {
    /// The text is empty.
    Empty,
    /// A character that is neither a digit nor a leading sign, or a sign alone.
    InvalidDigit,
    /// The number is above the type's largest value.
    PosOverflow,
    /// The number is below the type's smallest value.
    NegOverflow,
}

/// Whether `c` is one of the ten ASCII digits.
pub open spec fn is_digit(c: char) -> bool {
    '0' <= c <= '9'
}

/// The number that a digit stands for.
pub open spec fn digit_value(c: char) -> nat {
    (c as int - '0' as int) as nat
}

/// The digit that stands for `d`.
pub open spec fn digit_char(d: nat) -> char {
    ('0' as int + d) as char
}

/// The number that a sequence of digits stands for, most significant digit first.
pub open spec fn digits_value(digits: Seq<char>) -> nat
    decreases digits.len(),
{
    if digits.len() == 0 {
        0
    } else {
        10 * digits_value(digits.drop_last()) + digit_value(digits.last())
    }
}

/// How many digits `s` begins with.
pub open spec fn digit_run(s: Seq<char>) -> nat
    decreases s.len(),
{
    if s.len() > 0 && is_digit(s[0]) {
        1 + digit_run(s.drop_first())
    } else {
        0
    }
}

/// The decimal digits of `n`, without leading zeros.
pub open spec fn decimal(n: nat) -> Seq<char>
    decreases n,
{
    if n < 10 {
        seq![digit_char(n)]
    } else {
        decimal(n / 10).push(digit_char(n % 10))
    }
}

/// The decimal digits of `n`, behind a minus sign if it is negative.
pub open spec fn decimal_int(n: int) -> Seq<char> {
    if n < 0 {
        seq!['-'] + decimal((-n) as nat)
    } else {
        decimal(n as nat)
    }
}

/// The number that `body` spells, if it is all digits and at most `max`.
///
/// Reading goes from left to right: when the leading digits alone are above `max`, the number is
/// out of range, whatever follows them.
pub open spec fn parsed_magnitude(body: Seq<char>, max: nat, overflow: ParseIntError) -> Result<
    nat,
    ParseIntError,
> {
    let run = digit_run(body);
    if digits_value(body.take(run as int)) > max {
        Err(overflow)
    } else if run < body.len() {
        Err(ParseIntError::InvalidDigit)
    } else {
        Ok(digits_value(body))
    }
}

/// Whether `s` is a lone sign.
pub open spec fn lone_sign(s: Seq<char>) -> bool {
    s.len() == 1 && (s[0] == '+' || s[0] == '-')
}

/// What `s` spells as a `u64`: an optional plus sign and at least one digit.
pub open spec fn parsed_u64(s: Seq<char>) -> Result<nat, ParseIntError> {
    if s.len() == 0 {
        Err(ParseIntError::Empty)
    } else if lone_sign(s) {
        Err(ParseIntError::InvalidDigit)
    } else if s[0] == '+' {
        parsed_magnitude(s.skip(1), u64::MAX as nat, ParseIntError::PosOverflow)
    } else {
        parsed_magnitude(s, u64::MAX as nat, ParseIntError::PosOverflow)
    }
}

/// What `s` spells as an `i64`: an optional sign and at least one digit.
pub open spec fn parsed_i64(s: Seq<char>) -> Result<int, ParseIntError> {
    if s.len() == 0 {
        Err(ParseIntError::Empty)
    } else if lone_sign(s) {
        Err(ParseIntError::InvalidDigit)
    } else if s[0] == '-' {
        match parsed_magnitude(s.skip(1), 0x8000_0000_0000_0000, ParseIntError::NegOverflow) {
            Ok(m) => Ok(-m),
            Err(e) => Err(e),
        }
    } else {
        let body = if s[0] == '+' {
            s.skip(1)
        } else {
            s
        };
        match parsed_magnitude(body, i64::MAX as nat, ParseIntError::PosOverflow) {
            Ok(m) => Ok(m as int),
            Err(e) => Err(e),
        }
    }
}

/// What `s` spells as a `u64`, or zero if it spells none.
pub open spec fn u64_or_zero(s: Seq<char>) -> nat {
    match parsed_u64(s) {
        Ok(n) => n,
        Err(_) => 0,
    }
}

/// What `s` spells as an `i64`, or zero if it spells none.
pub open spec fn i64_or_zero(s: Seq<char>) -> int {
    match parsed_i64(s) {
        Ok(n) => n,
        Err(_) => 0,
    }
}

proof fn lemma_digit_run(s: Seq<char>, k: int)
    requires
        0 <= k <= s.len(),
        forall|i: int| 0 <= i < k ==> is_digit(#[trigger] s[i]),
        k < s.len() ==> !is_digit(s[k]),
    ensures
        digit_run(s) == k,
    decreases k,
{
    if k > 0 {
        let t = s.drop_first();
        assert(is_digit(s[0]));
        assert forall|i: int| 0 <= i < k - 1 implies is_digit(#[trigger] t[i]) by {
            assert(t[i] == s[i + 1]);
        }
        lemma_digit_run(t, k - 1);
    }
}

proof fn lemma_digit_run_at_least(s: Seq<char>, k: int)
    requires
        0 <= k <= s.len(),
        forall|i: int| 0 <= i < k ==> is_digit(#[trigger] s[i]),
    ensures
        k <= digit_run(s) <= s.len(),
    decreases s.len(),
{
    if s.len() > 0 && is_digit(s[0]) {
        let t = s.drop_first();
        let j = if k > 0 {
            k - 1
        } else {
            0
        };
        assert forall|i: int| 0 <= i < j implies is_digit(#[trigger] t[i]) by {
            assert(t[i] == s[i + 1]);
        }
        lemma_digit_run_at_least(t, j);
    } else if k > 0 {
        assert(is_digit(s[0]));
    }
}

proof fn lemma_digits_value_prefix(s: Seq<char>, i: int, j: int)
    requires
        0 <= i <= j <= s.len(),
    ensures
        digits_value(s.take(i)) <= digits_value(s.take(j)),
    decreases j - i,
{
    if i < j {
        lemma_digits_value_prefix(s, i, j - 1);
        assert(s.take(j).drop_last() =~= s.take(j - 1));
    }
}

proof fn lemma_decimal(n: nat)
    ensures
        decimal(n).len() > 0,
        digits_value(decimal(n)) == n,
        forall|i: int| 0 <= i < decimal(n).len() ==> is_digit(#[trigger] decimal(n)[i]),
    decreases n,
{
    if n < 10 {
        let s = seq![digit_char(n)];
        assert(s.drop_last() =~= Seq::<char>::empty());
        assert(digits_value(s.drop_last()) == 0);
        assert(is_digit(digit_char(n)));
    } else {
        lemma_decimal(n / 10);
        let s = decimal(n);
        assert(s.drop_last() =~= decimal(n / 10));
        assert(is_digit(digit_char(n % 10)));
    }
}

/// What a text spells as a `u64` is one.
pub proof fn parsed_u64_bound(s: Seq<char>)
    ensures
        u64_or_zero(s) <= u64::MAX,
{
    let body = if s.len() > 0 && s[0] == '+' {
        s.skip(1)
    } else {
        s
    };
    lemma_digit_run_at_least(body, 0);
    if digit_run(body) == body.len() {
        assert(body.take(body.len() as int) =~= body);
    }
}

/// Reading a `u64` back from its decimal digits gives that number.
pub proof fn decimal_round_trip(n: u64)
    ensures
        parsed_u64(decimal(n as nat)) == Ok::<nat, ParseIntError>(n as nat),
{
    let s = decimal(n as nat);
    lemma_decimal(n as nat);
    assert(is_digit(s[0]));
    lemma_digit_run(s, s.len() as int);
    assert(s.take(s.len() as int) =~= s);
}

/// Reading an `i64` back from its decimal digits gives that number.
pub proof fn decimal_int_round_trip(n: i64)
    ensures
        parsed_i64(decimal_int(n as int)) == Ok::<int, ParseIntError>(n as int),
{
    let m = if n < 0 {
        (-(n as int)) as nat
    } else {
        n as nat
    };
    let s = decimal(m);
    lemma_decimal(m);
    assert(is_digit(s[0]));
    lemma_digit_run(s, s.len() as int);
    assert(s.take(s.len() as int) =~= s);
    if n < 0 {
        assert((seq!['-'] + s).skip(1) =~= s);
    }
}

/// The characters of `s`.
pub fn chars_of(s: &str) -> (chars: Vec<char>)
    ensures
        chars@ == s@,
{
    let mut chars: Vec<char> = Vec::new();
    for c in it: s.chars()
        invariant
            it.seq() == s@,
            chars@ == s@.take(it.index() as int),
    {
        proof {
            assert(s@.take(it.index() + 1) =~= s@.take(it.index() as int).push(c));
        }
        chars.push(c);
    }
    proof {
        assert(s@.take(s@.len() as int) =~= s@);
    }
    chars
}

fn parse_magnitude(chars: &Vec<char>, start: usize, max: u64, overflow: ParseIntError) -> (r: Result<
    u64,
    ParseIntError,
>)
    requires
        start <= chars.len(),
    ensures
        match parsed_magnitude(chars@.skip(start as int), max as nat, overflow) {
            Ok(m) => r == Ok::<u64, ParseIntError>(m as u64) && m <= max,
            Err(e) => r == Err::<u64, ParseIntError>(e),
        },
{
    let ghost body = chars@.skip(start as int);
    let mut acc: u64 = 0;
    let mut i: usize = start;
    while i < chars.len()
        invariant
            start <= i <= chars.len(),
            body == chars@.skip(start as int),
            forall|k: int| 0 <= k < i - start ==> is_digit(#[trigger] body[k]),
            acc == digits_value(body.take(i - start)),
            acc <= max,
        decreases chars.len() - i,
    {
        let c = chars[i];
        let ghost k = (i - start) as int;
        assert(body[k] == c);
        if c < '0' || c > '9' {
            proof {
                lemma_digit_run(body, k);
            }
            return Err(ParseIntError::InvalidDigit);
        }
        let digit: u64 = (c as u32 - '0' as u32) as u64;
        proof {
            assert(body.take(k + 1).drop_last() =~= body.take(k));
            assert(body.take(k + 1).last() == c);
            assert forall|j: int| 0 <= j < k + 1 implies is_digit(#[trigger] body[j]) by {}
        }
        let next: u128 = (acc as u128) * 10 + (digit as u128);
        if next > max as u128 {
            proof {
                lemma_digit_run_at_least(body, k + 1);
                lemma_digits_value_prefix(body, k + 1, digit_run(body) as int);
            }
            return Err(overflow);
        }
        acc = next as u64;
        i = i + 1;
    }
    proof {
        lemma_digit_run(body, body.len() as int);
        assert(body.take(body.len() as int) =~= body);
    }
    Ok(acc)
}

/// Reads a `u64` in decimal: an optional plus sign and digits, nothing else.
pub fn parse_u64(s: &str) -> (r: Result<u64, ParseIntError>)
    ensures
        match parsed_u64(s@) {
            Ok(n) => r == Ok::<u64, ParseIntError>(n as u64) && n <= u64::MAX,
            Err(e) => r == Err::<u64, ParseIntError>(e),
        },
{
    let chars = chars_of(s);
    if chars.len() == 0 {
        return Err(ParseIntError::Empty);
    }
    let first = chars[0];
    if chars.len() == 1 && (first == '+' || first == '-') {
        return Err(ParseIntError::InvalidDigit);
    }
    proof {
        assert(chars@.skip(0) =~= chars@);
    }
    let start: usize = if first == '+' {
        1
    } else {
        0
    };
    parse_magnitude(&chars, start, u64::MAX, ParseIntError::PosOverflow)
}

/// Reads an `i64` in decimal: an optional sign and digits, nothing else.
pub fn parse_i64(s: &str) -> (r: Result<i64, ParseIntError>)
    ensures
        match parsed_i64(s@) {
            Ok(n) => r == Ok::<i64, ParseIntError>(n as i64) && i64::MIN <= n <= i64::MAX,
            Err(e) => r == Err::<i64, ParseIntError>(e),
        },
{
    let chars = chars_of(s);
    if chars.len() == 0 {
        return Err(ParseIntError::Empty);
    }
    let first = chars[0];
    if chars.len() == 1 && (first == '+' || first == '-') {
        return Err(ParseIntError::InvalidDigit);
    }
    proof {
        assert(chars@.skip(0) =~= chars@);
    }
    if first == '-' {
        match parse_magnitude(&chars, 1, 0x8000_0000_0000_0000, ParseIntError::NegOverflow) {
            Ok(m) => {
                let wide: i128 = -(m as i128);
                Ok(wide as i64)
            },
            Err(e) => Err(e),
        }
    } else {
        let start: usize = if first == '+' {
            1
        } else {
            0
        };
        match parse_magnitude(&chars, start, 0x7fff_ffff_ffff_ffff, ParseIntError::PosOverflow) {
            Ok(m) => Ok(m as i64),
            Err(e) => Err(e),
        }
    }
}

/// Reads a `u64` in decimal, or gives zero where the text is none.
pub fn parse_u64_or_zero(s: &str) -> (n: u64)
    ensures
        n == u64_or_zero(s@),
{
    match parse_u64(s) {
        Ok(n) => n,
        Err(_) => 0,
    }
}

/// Reads an `i64` in decimal, or gives zero where the text is none.
pub fn parse_i64_or_zero(s: &str) -> (n: i64)
    ensures
        n == i64_or_zero(s@),
{
    match parse_i64(s) {
        Ok(n) => n,
        Err(_) => 0,
    }
}

fn digit_text(d: u64) -> (s: &'static str)
    requires
        d < 10,
    ensures
        s@ == seq![digit_char(d as nat)],
{
    proof {
        reveal_strlit("0");
        reveal_strlit("1");
        reveal_strlit("2");
        reveal_strlit("3");
        reveal_strlit("4");
        reveal_strlit("5");
        reveal_strlit("6");
        reveal_strlit("7");
        reveal_strlit("8");
        reveal_strlit("9");
    }
    match d {
        0 => "0",
        1 => "1",
        2 => "2",
        3 => "3",
        4 => "4",
        5 => "5",
        6 => "6",
        7 => "7",
        8 => "8",
        _ => "9",
    }
}

/// Writes a `u64` in decimal.
pub fn decimal_u64(n: u64) -> (s: String)
    ensures
        s@ == decimal(n as nat),
    decreases n,
{
    let mut s = if n < 10 {
        String::new()
    } else {
        decimal_u64(n / 10)
    };
    s.append(digit_text(n % 10));
    s
}

/// Writes an `i64` in decimal.
pub fn decimal_i64(n: i64) -> (s: String)
    ensures
        s@ == decimal_int(n as int),
{
    if n < 0 {
        let magnitude: i128 = -(n as i128);
        let mut s = "-".to_owned();
        proof {
            reveal_strlit("-");
        }
        s.append(decimal_u64(magnitude as u64).as_str());
        s
    } else {
        decimal_u64(n as u64)
    }
}

/// Lexicographic order on bytes.
pub open spec fn bytes_less(a: Seq<u8>, b: Seq<u8>) -> bool
    decreases a.len(),
{
    if b.len() == 0 {
        false
    } else if a.len() == 0 {
        true
    } else {
        a[0] < b[0] || (a[0] == b[0] && bytes_less(a.drop_first(), b.drop_first()))
    }
}

/// The order of texts: lexicographic on their UTF-8 bytes.
pub open spec fn text_less(a: Seq<char>, b: Seq<char>) -> bool {
    bytes_less(vstd::utf8::encode_utf8(a), vstd::utf8::encode_utf8(b))
}

proof fn lemma_bytes_less_total(a: Seq<u8>, b: Seq<u8>)
    ensures
        !(bytes_less(a, b) && bytes_less(b, a)),
        a != b ==> bytes_less(a, b) || bytes_less(b, a),
        a == b ==> !bytes_less(a, b),
    decreases a.len(),
{
    if a.len() > 0 && b.len() > 0 {
        lemma_bytes_less_total(a.drop_first(), b.drop_first());
        if a != b && a[0] == b[0] {
            if a.drop_first() == b.drop_first() {
                assert(a =~= seq![a[0]] + a.drop_first());
                assert(b =~= seq![b[0]] + b.drop_first());
            }
        }
    } else if a.len() == b.len() {
        assert(a =~= b);
    }
}

proof fn lemma_bytes_less_transitive(a: Seq<u8>, b: Seq<u8>, c: Seq<u8>)
    requires
        bytes_less(a, b),
        bytes_less(b, c),
    ensures
        bytes_less(a, c),
    decreases a.len(),
{
    if a.len() > 0 && a[0] == b[0] && b[0] == c[0] {
        lemma_bytes_less_transitive(a.drop_first(), b.drop_first(), c.drop_first());
    }
}

/// Of two different texts exactly one comes before the other, and no text before itself.
pub proof fn text_less_total(a: Seq<char>, b: Seq<char>)
    ensures
        !(text_less(a, b) && text_less(b, a)),
        a != b <==> text_less(a, b) || text_less(b, a),
{
    lemma_bytes_less_total(vstd::utf8::encode_utf8(a), vstd::utf8::encode_utf8(b));
    vstd::utf8::encode_utf8_decode_utf8(a);
    vstd::utf8::encode_utf8_decode_utf8(b);
}

/// The order of texts is transitive.
pub proof fn text_less_transitive(a: Seq<char>, b: Seq<char>, c: Seq<char>)
    requires
        text_less(a, b),
        text_less(b, c),
    ensures
        text_less(a, c),
{
    lemma_bytes_less_transitive(
        vstd::utf8::encode_utf8(a),
        vstd::utf8::encode_utf8(b),
        vstd::utf8::encode_utf8(c),
    );
}

/// Whether `a` comes before `b` in the order of texts.
pub fn is_text_less(a: &str, b: &str) -> (r: bool)
    ensures
        r == text_less(a@, b@),
{
    let x = a.as_bytes();
    let y = b.as_bytes();
    let mut i: usize = 0;
    proof {
        assert(x@.skip(0) =~= x@);
        assert(y@.skip(0) =~= y@);
    }
    while i < x.len() && i < y.len()
        invariant
            i <= x.len(),
            i <= y.len(),
            bytes_less(x@, y@) == bytes_less(x@.skip(i as int), y@.skip(i as int)),
            bytes_less(x@, y@) == text_less(a@, b@),
        decreases x.len() - i,
    {
        proof {
            assert(x@.skip(i as int).drop_first() =~= x@.skip(i + 1));
            assert(y@.skip(i as int).drop_first() =~= y@.skip(i + 1));
        }
        if x[i] < y[i] {
            return true;
        }
        if x[i] > y[i] {
            return false;
        }
        i = i + 1;
    }
    i < y.len()
}

/// `s` without the slashes at its end.
pub open spec fn without_trailing_slashes(s: Seq<char>) -> Seq<char>
    decreases s.len(),
{
    if s.len() > 0 && s.last() == '/' {
        without_trailing_slashes(s.drop_last())
    } else {
        s
    }
}

/// A text without its trailing slashes ends in none, and one slash more at the end makes no
/// difference to it.
pub proof fn trailing_slashes_are_gone(s: Seq<char>)
    ensures
        without_trailing_slashes(s).len() > 0 ==> without_trailing_slashes(s).last() != '/',
        without_trailing_slashes(s.push('/')) == without_trailing_slashes(s),
    decreases s.len(),
{
    if s.len() > 0 && s.last() == '/' {
        trailing_slashes_are_gone(s.drop_last());
    }
    assert(s.push('/').drop_last() =~= s);
}

/// Removes the slashes at the end of `s`.
pub fn trim_trailing_slashes(s: &str) -> (r: String)
    ensures
        r@ == without_trailing_slashes(s@),
{
    let chars = chars_of(s);
    let mut n: usize = chars.len();
    proof {
        assert(s@.take(n as int) =~= s@);
    }
    while n > 0 && chars[n - 1] == '/'
        invariant
            n <= chars.len(),
            chars@ == s@,
            without_trailing_slashes(s@) == without_trailing_slashes(s@.take(n as int)),
        decreases n,
    {
        proof {
            assert(s@.take(n as int).drop_last() =~= s@.take(n - 1));
        }
        n = n - 1;
    }
    s.substring_char(0, n).to_owned()
}

/// Whether `part` occurs in `s`.
pub open spec fn contains_text(s: Seq<char>, part: Seq<char>) -> bool {
    exists|i: int| 0 <= i <= s.len() - part.len() && #[trigger] s.subrange(i, i + part.len()) == part
}

fn occurs_at(chars: &Vec<char>, part: &Vec<char>, at: usize) -> (r: bool)
    requires
        at + part.len() <= chars.len(),
    ensures
        r == (chars@.subrange(at as int, at + part.len()) == part@),
{
    let mut k: usize = 0;
    while k < part.len()
        invariant
            k <= part.len(),
            at + part.len() <= chars.len(),
            forall|j: int| 0 <= j < k ==> chars@[at + j] == #[trigger] part@[j],
        decreases part.len() - k,
    {
        if chars[at + k] != part[k] {
            proof {
                assert(chars@.subrange(at as int, at + part.len())[k as int] != part@[k as int]);
            }
            return false;
        }
        k = k + 1;
    }
    proof {
        assert(chars@.subrange(at as int, at + part.len()) =~= part@);
    }
    true
}

/// Looks for `part` in `s`.
pub fn has_text(s: &str, part: &str) -> (r: bool)
    ensures
        r == contains_text(s@, part@),
{
    let chars = chars_of(s);
    let wanted = chars_of(part);
    if wanted.len() > chars.len() {
        return false;
    }
    let last: usize = chars.len() - wanted.len();
    let mut i: usize = 0;
    loop
        invariant
            chars@ == s@,
            wanted@ == part@,
            last == chars.len() - wanted.len(),
            i <= last,
            forall|j: int| 0 <= j < i ==> #[trigger] s@.subrange(j, j + part@.len()) != part@,
        decreases last - i,
    {
        if occurs_at(&chars, &wanted, i) {
            return true;
        }
        if i == last {
            return false;
        }
        i = i + 1;
    }
}

/// The upper-case equivalent of a text, as `str::to_uppercase` defines it.
pub uninterp spec fn uppercase(s: Seq<char>) -> Seq<char>;

/// Calls `str::to_uppercase`. Claims that what it returns depends on the text alone; what the
/// Unicode casing tables make of it is the name `uppercase`.
#[verifier::external_body]
pub(crate) fn to_uppercase(s: &str) -> (r: String)
    ensures
        r@ == uppercase(s@),
{
    s.to_uppercase()
}

/// A text in quotes and with escapes, as `Debug` formats a `str`.
pub uninterp spec fn quoted(s: Seq<char>) -> Seq<char>;

/// Formats a `str` with `Debug`. Claims that what it returns depends on the text alone; the
/// quotes and escapes are the name `quoted`.
#[verifier::external_body]
pub(crate) fn to_quoted(s: &str) -> (r: String)
    ensures
        r@ == quoted(s@),
{
    format!("{:?}", s)
}

proof fn lemma_digit_run_push(s: Seq<char>, c: char)
    ensures
        digit_run(s) <= s.len(),
        digit_run(s) < s.len() ==> digit_run(s.push(c)) == digit_run(s),
        digit_run(s) == s.len() ==> digit_run(s.push(c)) == s.len() + if is_digit(c) {
            1int
        } else {
            0
        },
    decreases s.len(),
{
    if s.len() == 0 {
        let t = s.push(c);
        assert(t.drop_first() =~= Seq::empty());
        assert(digit_run(t.drop_first()) == 0);
    } else if is_digit(s[0]) {
        lemma_digit_run_push(s.drop_first(), c);
        assert(s.push(c).drop_first() =~= s.drop_first().push(c));
    }
}

proof fn lemma_magnitude_push(body: Seq<char>, c: char, max: nat, overflow: ParseIntError)
    ensures
        parsed_magnitude(body.push(c), max, overflow) == match parsed_magnitude(
            body,
            max,
            overflow,
        ) {
            Err(e) => Err::<nat, ParseIntError>(e),
            Ok(n) => if '0' <= c <= '9' {
                let next = 10 * n + (c as int - 48);
                if next <= max {
                    Ok(next as nat)
                } else {
                    Err(overflow)
                }
            } else {
                Err(ParseIntError::InvalidDigit)
            },
        },
{
    let longer = body.push(c);
    let run = digit_run(body) as int;
    let longer_run = digit_run(longer) as int;
    lemma_digit_run_push(body, c);
    if run < body.len() {
        assert(longer.take(run) =~= body.take(run));
    } else {
        assert(body.take(run) =~= body);
        assert(longer.take(body.len() as int) =~= body);
        assert(longer.take(longer.len() as int) =~= longer);
        assert(longer.drop_last() =~= body);
        lemma_digits_value_prefix(longer, body.len() as int, longer_run);
    }
}

/// A `u64` is read from left to right. A text that spells no number spells none however it goes
/// on; behind a number, a digit makes ten times that number and the digit, if that is not above
/// the greatest `u64`, and anything else makes no number.
pub proof fn u64_is_read_from_left_to_right(s: Seq<char>, c: char)
    requires
        s.len() > 0,
        s != seq!['+'],
        s != seq!['-'],
    ensures
        parsed_u64(s.push(c)) == match parsed_u64(s) {
            Err(e) => Err::<nat, ParseIntError>(e),
            Ok(n) => if '0' <= c <= '9' {
                let next = 10 * n + (c as int - 48);
                if next <= 0xffff_ffff_ffff_ffff {
                    Ok(next as nat)
                } else {
                    Err(ParseIntError::PosOverflow)
                }
            } else {
                Err(ParseIntError::InvalidDigit)
            },
        },
{
    if s.len() == 1 {
        assert(s =~= seq![s[0]]);
    }
    assert(s.push(c).skip(1) =~= s.skip(1).push(c));
    lemma_magnitude_push(s, c, u64::MAX as nat, ParseIntError::PosOverflow);
    lemma_magnitude_push(s.skip(1), c, u64::MAX as nat, ParseIntError::PosOverflow);
}

proof fn lemma_magnitude_of_one(c: char, max: nat, overflow: ParseIntError)
    requires
        max >= 9,
    ensures
        parsed_magnitude(seq![c], max, overflow) == if '0' <= c <= '9' {
            Ok::<nat, ParseIntError>((c as int - 48) as nat)
        } else {
            Err(ParseIntError::InvalidDigit)
        },
{
    let none = Seq::<char>::empty();
    lemma_magnitude_push(none, c, max, overflow);
    assert(none.take(0) =~= none);
    assert(none.push(c) =~= seq![c]);
}

/// How a `u64` can begin: with a digit, or with a plus sign and a digit, which mean the same. No
/// other character, and no minus sign, begins one.
pub proof fn u64_begins_with_a_digit_or_a_plus(c: char)
    ensures
        parsed_u64(Seq::empty()) == Err::<nat, ParseIntError>(ParseIntError::Empty),
        parsed_u64(seq![c]) == if '0' <= c <= '9' {
            Ok::<nat, ParseIntError>((c as int - 48) as nat)
        } else {
            Err(ParseIntError::InvalidDigit)
        },
        parsed_u64(seq!['+', c]) == parsed_u64(seq![c]),
        parsed_u64(seq!['-', c]) == Err::<nat, ParseIntError>(ParseIntError::InvalidDigit),
{
    lemma_magnitude_of_one(c, u64::MAX as nat, ParseIntError::PosOverflow);
    lemma_magnitude_of_one('-', u64::MAX as nat, ParseIntError::PosOverflow);
    lemma_magnitude_push(seq!['-'], c, u64::MAX as nat, ParseIntError::PosOverflow);
    assert(seq!['+', c].skip(1) =~= seq![c]);
    assert(seq!['-'].push(c) =~= seq!['-', c]);
}

/// An `i64` is read from left to right. A text that spells no number spells none however it goes
/// on; behind a number, a digit makes ten times that number and the digit, away from zero, if that
/// is an `i64`, and anything else makes no number.
pub proof fn i64_is_read_from_left_to_right(s: Seq<char>, c: char)
    requires
        s.len() > 0,
        s != seq!['+'],
        s != seq!['-'],
    ensures
        parsed_i64(s.push(c)) == match parsed_i64(s) {
            Err(e) => Err::<int, ParseIntError>(e),
            Ok(n) => if '0' <= c <= '9' {
                if s[0] == '-' {
                    let next = 10 * n - (c as int - 48);
                    if next >= -0x8000_0000_0000_0000 {
                        Ok(next)
                    } else {
                        Err(ParseIntError::NegOverflow)
                    }
                } else {
                    let next = 10 * n + (c as int - 48);
                    if next <= 0x7fff_ffff_ffff_ffff {
                        Ok(next)
                    } else {
                        Err(ParseIntError::PosOverflow)
                    }
                }
            } else {
                Err(ParseIntError::InvalidDigit)
            },
        },
{
    if s.len() == 1 {
        assert(s =~= seq![s[0]]);
    }
    assert(s.push(c).skip(1) =~= s.skip(1).push(c));
    lemma_magnitude_push(s, c, i64::MAX as nat, ParseIntError::PosOverflow);
    lemma_magnitude_push(s.skip(1), c, i64::MAX as nat, ParseIntError::PosOverflow);
    lemma_magnitude_push(s.skip(1), c, 0x8000_0000_0000_0000, ParseIntError::NegOverflow);
}

/// How an `i64` can begin: with a digit, or with a sign and a digit. Behind a minus sign the number
/// is negated.
pub proof fn i64_begins_with_a_digit_or_a_sign(c: char)
    ensures
        parsed_i64(Seq::empty()) == Err::<int, ParseIntError>(ParseIntError::Empty),
        parsed_i64(seq![c]) == if '0' <= c <= '9' {
            Ok::<int, ParseIntError>(c as int - 48)
        } else {
            Err(ParseIntError::InvalidDigit)
        },
        parsed_i64(seq!['+', c]) == parsed_i64(seq![c]),
        parsed_i64(seq!['-', c]) == if '0' <= c <= '9' {
            Ok::<int, ParseIntError>(48 - c as int)
        } else {
            Err(ParseIntError::InvalidDigit)
        },
{
    lemma_magnitude_of_one(c, i64::MAX as nat, ParseIntError::PosOverflow);
    lemma_magnitude_of_one(c, 0x8000_0000_0000_0000, ParseIntError::NegOverflow);
    assert(seq!['+', c].skip(1) =~= seq![c]);
    assert(seq!['-', c].skip(1) =~= seq![c]);
}

/// Where a text spells no number, zero stands in for it, and nowhere else.
pub proof fn zero_stands_in_for_no_number(s: Seq<char>)
    ensures
        parsed_u64(s) matches Ok(n) ==> u64_or_zero(s) == n,
        parsed_u64(s) is Err ==> u64_or_zero(s) == 0,
        parsed_i64(s) matches Ok(n) ==> i64_or_zero(s) == n,
        parsed_i64(s) is Err ==> i64_or_zero(s) == 0,
{
}

proof fn lemma_no_leading_zero(n: nat)
    ensures
        n > 0 ==> decimal(n)[0] != '0',
    decreases n,
{
    lemma_decimal(n);
    if n >= 10 {
        lemma_decimal(n / 10);
        lemma_no_leading_zero(n / 10);
    }
}

/// A number is written with digits alone, behind a minus sign if it is negative, and without
/// leading zeros. With the number that reading gives back, this leaves one text for each number.
pub proof fn decimals_are_plain(n: int)
    ensures
        n == 0 ==> decimal_int(n) == seq!['0'],
        n > 0 ==> decimal_int(n) == decimal(n as nat) && decimal(n as nat)[0] != '0',
        n < 0 ==> decimal_int(n) == seq!['-'] + decimal((-n) as nat),
        n >= 0 ==> forall|i: int|
            0 <= i < decimal(n as nat).len() ==> '0' <= #[trigger] decimal(n as nat)[i] <= '9',
{
    if n >= 0 {
        lemma_decimal(n as nat);
        lemma_no_leading_zero(n as nat);
    }
}

/// Two texts stand in the order of the first byte in which they differ.
pub proof fn first_difference_decides(
    a: Seq<char>,
    b: Seq<char>,
    common: Seq<u8>,
    x: u8,
    y: u8,
    rest_of_a: Seq<u8>,
    rest_of_b: Seq<u8>,
)
    requires
        vstd::utf8::encode_utf8(a) == common.push(x) + rest_of_a,
        vstd::utf8::encode_utf8(b) == common.push(y) + rest_of_b,
        x < y,
    ensures
        text_less(a, b),
        !text_less(b, a),
{
    lemma_first_difference(common, x, y, rest_of_a, rest_of_b);
}

proof fn lemma_first_difference(common: Seq<u8>, x: u8, y: u8, u: Seq<u8>, v: Seq<u8>)
    requires
        x < y,
    ensures
        bytes_less(common.push(x) + u, common.push(y) + v),
        !bytes_less(common.push(y) + v, common.push(x) + u),
    decreases common.len(),
{
    let a = common.push(x) + u;
    let b = common.push(y) + v;
    if common.len() > 0 {
        let shorter = common.drop_first();
        lemma_first_difference(shorter, x, y, u, v);
        assert(a.drop_first() =~= shorter.push(x) + u);
        assert(b.drop_first() =~= shorter.push(y) + v);
        assert(a[0] == common[0] && b[0] == common[0]);
    } else {
        assert(a[0] == x && b[0] == y);
    }
}

/// A text stands before every text that begins with it and goes on.
pub proof fn beginning_comes_first(a: Seq<char>, b: Seq<char>, y: u8, rest_of_b: Seq<u8>)
    requires
        vstd::utf8::encode_utf8(b) == vstd::utf8::encode_utf8(a).push(y) + rest_of_b,
    ensures
        text_less(a, b),
        !text_less(b, a),
{
    lemma_beginning(vstd::utf8::encode_utf8(a), y, rest_of_b);
}

proof fn lemma_beginning(a: Seq<u8>, y: u8, v: Seq<u8>)
    ensures
        bytes_less(a, a.push(y) + v),
        !bytes_less(a.push(y) + v, a),
    decreases a.len(),
{
    let b = a.push(y) + v;
    if a.len() > 0 {
        lemma_beginning(a.drop_first(), y, v);
        assert(b.drop_first() =~= a.drop_first().push(y) + v);
        assert(a[0] == b[0]);
    }
}

/// Only slashes are removed, and only those at the end: what stands before them is kept.
pub proof fn only_trailing_slashes_go(kept: Seq<char>, slashes: Seq<char>)
    requires
        kept.len() > 0 ==> kept.last() != '/',
        forall|i: int| 0 <= i < slashes.len() ==> #[trigger] slashes[i] == '/',
    ensures
        without_trailing_slashes(kept + slashes) == kept,
    decreases slashes.len(),
{
    let whole = kept + slashes;
    if slashes.len() > 0 {
        let fewer = slashes.drop_last();
        assert forall|i: int| 0 <= i < fewer.len() implies #[trigger] fewer[i] == '/' by {
            assert(fewer[i] == slashes[i]);
        }
        only_trailing_slashes_go(kept, fewer);
        assert(whole.last() == slashes[slashes.len() - 1]);
        assert(whole.drop_last() =~= kept + fewer);
    } else {
        assert(whole =~= kept);
    }
}

/// A text contains every part that it is joined from.
pub proof fn joined_text_contains_its_parts(before: Seq<char>, part: Seq<char>, after: Seq<char>)
    ensures
        contains_text(before + part + after, part),
{
    let s = before + part + after;
    let i = before.len() as int;
    assert(s.subrange(i, i + part.len()) =~= part);
}

/// A text that contains a part is joined from it and what stands around it.
pub proof fn contained_text_splits_the_whole(s: Seq<char>, part: Seq<char>) -> (around: (
    Seq<char>,
    Seq<char>,
))
    requires
        contains_text(s, part),
    ensures
        s == around.0 + part + around.1,
{
    let i = choose|i: int|
        0 <= i <= s.len() - part.len() && #[trigger] s.subrange(i, i + part.len()) == part;
    let around = (s.take(i), s.skip(i + part.len()));
    assert(s =~= around.0 + s.subrange(i, i + part.len()) + around.1);
    around
}

} // verus!
