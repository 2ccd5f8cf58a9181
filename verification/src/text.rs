//! Character-level text operations with their specifications: building
//! strings, comparing them in the order Rust's `str` uses, decimal and hex
//! rendering, number parsing, trimming and substring search.
use vstd::prelude::*;
use vstd::string::*;

verus! {

// ---------------------------------------------------------------------------
// Building strings
// ---------------------------------------------------------------------------

/// The characters of `s`, in order.
pub fn chars_of(s: &str) -> (out: Vec<char>)
    ensures
        out@ == s@,
{
    let mut out: Vec<char> = Vec::new();
    for c in it: s.chars()
        invariant
            out@ == it.seq().take(it.index() as int),
            it.seq() == s@,
    {
        out.push(c);
    }
    out
}

/// Calls `String::push`, which appends one character to the string.
#[verifier::external_body]
fn push_char(s: &mut String, c: char)
    ensures
        final(s)@ == old(s)@.push(c),
{
    s.push(c);
}

/// The string whose characters are `chars`.
pub fn string_of(chars: &Vec<char>) -> (out: String)
    ensures
        out@ == chars@,
{
    let mut out = String::new();
    let mut i: usize = 0;
    while i < chars.len()
        invariant
            i <= chars.len(),
            out@ == chars@.take(i as int),
        decreases chars.len() - i,
    {
        push_char(&mut out, chars[i]);
        assert(chars@.take(i as int).push(chars@[i as int]) =~= chars@.take(i + 1));
        i = i + 1;
    }
    assert(chars@.take(chars.len() as int) =~= chars@);
    out
}

/// A fresh copy of `s`.
pub fn owned(s: &str) -> (out: String)
    ensures
        out@ == s@,
{
    s.to_owned()
}

/// `a` followed by `b`.
pub fn join2(a: &str, b: &str) -> (out: String)
    ensures
        out@ == a@ + b@,
{
    let mut out = a.to_owned();
    out.append(b);
    out
}

/// `a`, `b` and `c` one after the other.
pub fn join3(a: &str, b: &str, c: &str) -> (out: String)
    ensures
        out@ == a@ + b@ + c@,
{
    let mut out = a.to_owned();
    out.append(b);
    out.append(c);
    out
}

/// A copy of every string in `v`.
pub fn clone_strings(v: &Vec<String>) -> (out: Vec<String>)
    ensures
        out.len() == v.len(),
        forall|i: int| 0 <= i < v.len() ==> #[trigger] out@[i]@ == v@[i]@,
{
    let mut out: Vec<String> = Vec::new();
    let mut i: usize = 0;
    while i < v.len()
        invariant
            i <= v.len(),
            out.len() == i,
            forall|j: int| 0 <= j < i ==> #[trigger] out@[j]@ == v@[j]@,
        decreases v.len() - i,
    {
        out.push(v[i].clone());
        i = i + 1;
    }
    out
}

/// The views of a sequence of strings.
pub open spec fn views(v: Seq<String>) -> Seq<Seq<char>> {
    v.map_values(|s: String| s@)
}

/// The views of a sequence of string pairs.
pub open spec fn pair_views(v: Seq<(String, String)>) -> Seq<(Seq<char>, Seq<char>)> {
    v.map_values(|e: (String, String)| (e.0@, e.1@))
}

// ---------------------------------------------------------------------------
// Order and equality
// ---------------------------------------------------------------------------

/// `a` comes strictly before `b` when characters are compared by code point,
/// the first difference deciding and a proper prefix coming first. This is
/// the order of Rust's `str` and `String` (UTF-8 byte order equals code point
/// order).
pub open spec fn lex_lt(a: Seq<char>, b: Seq<char>) -> bool
    decreases a.len(),
{
    if a.len() == 0 {
        b.len() > 0
    } else if b.len() == 0 {
        false
    } else if a[0] != b[0] {
        a[0] < b[0]
    } else {
        lex_lt(a.drop_first(), b.drop_first())
    }
}

pub proof fn lemma_lex_irreflexive(a: Seq<char>)
    ensures
        !lex_lt(a, a),
    decreases a.len(),
{
    if a.len() > 0 {
        lemma_lex_irreflexive(a.drop_first());
    }
}

pub proof fn lemma_lex_asymmetric(a: Seq<char>, b: Seq<char>)
    ensures
        lex_lt(a, b) ==> !lex_lt(b, a),
    decreases a.len(),
{
    if a.len() > 0 && b.len() > 0 && a[0] == b[0] {
        lemma_lex_asymmetric(a.drop_first(), b.drop_first());
    }
}

pub proof fn lemma_lex_transitive(a: Seq<char>, b: Seq<char>, c: Seq<char>)
    requires
        lex_lt(a, b),
        lex_lt(b, c),
    ensures
        lex_lt(a, c),
    decreases a.len(),
{
    if a.len() > 0 && b.len() > 0 && c.len() > 0 && a[0] == b[0] && b[0] == c[0] {
        lemma_lex_transitive(a.drop_first(), b.drop_first(), c.drop_first());
    }
}

pub proof fn lemma_lex_total(a: Seq<char>, b: Seq<char>)
    ensures
        a != b ==> lex_lt(a, b) || lex_lt(b, a),
    decreases a.len(),
{
    if a.len() == 0 && b.len() == 0 {
        assert(a =~= b);
    } else if a.len() > 0 && b.len() > 0 && a[0] == b[0] {
        lemma_lex_total(a.drop_first(), b.drop_first());
        if a.drop_first() == b.drop_first() {
            assert(a =~= seq![a[0]] + a.drop_first());
            assert(b =~= seq![b[0]] + b.drop_first());
        }
    }
}

/// Outcome of comparing two strings.
#[derive(Clone, Copy, Debug, PartialEq, Eq, Structural)]
pub enum Order {
    Less,
    Equal,
    Greater,
}

proof fn lemma_lex_step(a: Seq<char>, b: Seq<char>, i: int)
    requires
        0 <= i < a.len(),
        i < b.len(),
        a[i] == b[i],
    ensures
        lex_lt(a.skip(i), b.skip(i)) == lex_lt(a.skip(i + 1), b.skip(i + 1)),
{
    assert(a.skip(i).drop_first() =~= a.skip(i + 1));
    assert(b.skip(i).drop_first() =~= b.skip(i + 1));
}

/// Compares `a` with `b` in the order of `lex_lt`.
pub fn compare_text(a: &str, b: &str) -> (r: Order)
    ensures
        (r == Order::Less) == lex_lt(a@, b@),
        (r == Order::Equal) == (a@ == b@),
        (r == Order::Greater) == lex_lt(b@, a@),
{
    let x = chars_of(a);
    let y = chars_of(b);
    let mut i: usize = 0;
    proof {
        assert(x@.skip(0) =~= x@);
        assert(y@.skip(0) =~= y@);
        lemma_lex_irreflexive(a@);
        lemma_lex_asymmetric(a@, b@);
        lemma_lex_total(a@, b@);
    }
    while i < x.len() && i < y.len()
        invariant
            x@ == a@,
            y@ == b@,
            i <= x.len(),
            i <= y.len(),
            x@.take(i as int) == y@.take(i as int),
            lex_lt(a@, b@) == lex_lt(x@.skip(i as int), y@.skip(i as int)),
            lex_lt(b@, a@) == lex_lt(y@.skip(i as int), x@.skip(i as int)),
        decreases x.len() - i,
    {
        let c = x[i];
        let d = y[i];
        if c != d {
            proof {
                assert(x@.skip(i as int)[0] == c);
                assert(y@.skip(i as int)[0] == d);
                assert(x@[i as int] != y@[i as int]);
            }
            if c < d {
                return Order::Less;
            } else {
                return Order::Greater;
            }
        }
        proof {
            lemma_lex_step(x@, y@, i as int);
            lemma_lex_step(y@, x@, i as int);
            assert(x@.take(i + 1) =~= x@.take(i as int).push(c));
            assert(y@.take(i + 1) =~= y@.take(i as int).push(d));
        }
        i = i + 1;
    }
    if x.len() == y.len() {
        proof {
            assert(x@ =~= x@.take(i as int));
            assert(y@ =~= y@.take(i as int));
        }
        Order::Equal
    } else if x.len() < y.len() {
        proof {
            assert(x@ =~= x@.take(i as int));
            assert(x@ != y@) by {
                assert(x@.len() != y@.len());
            }
        }
        Order::Less
    } else {
        proof {
            assert(y@ =~= y@.take(i as int));
            assert(x@.len() != y@.len());
        }
        Order::Greater
    }
}

/// Whether `a` and `b` hold the same characters.
pub fn same_text(a: &str, b: &str) -> (r: bool)
    ensures
        r == (a@ == b@),
{
    compare_text(a, b) == Order::Equal
}

// ---------------------------------------------------------------------------
// Decimal and hexadecimal rendering
// ---------------------------------------------------------------------------

/// The character of a decimal digit.
pub open spec fn digit_char(d: nat) -> char
    recommends
        d < 10,
{
    ((d + 48) as u32) as char
}

/// The decimal digits of `n`, most significant first, without leading zeros
/// (zero is "0").
pub open spec fn decimal(n: nat) -> Seq<char>
    decreases n,
{
    if n < 10 {
        seq![digit_char(n)]
    } else {
        decimal(n / 10).push(digit_char(n % 10))
    }
}

fn digit_of(d: u64) -> (c: char)
    requires
        d < 10,
    ensures
        c == digit_char(d as nat),
{
    let digits: [char; 10] = ['0', '1', '2', '3', '4', '5', '6', '7', '8', '9'];
    let c = digits[d as usize];
    assert(c == digit_char(d as nat)) by {
        assert(digits@[d as int] == c);
    }
    c
}

/// `n` written in decimal, as `format!("{n}")` writes it.
pub fn u64_decimal(n: u64) -> (out: String)
    ensures
        out@ == decimal(n as nat),
{
    // Collect the digits least significant first, then reverse them.
    let mut rev: Vec<char> = Vec::new();
    let mut m: u64 = n;
    let ghost mut done: nat = 0;
    loop
        invariant_except_break
            decimal(n as nat) == decimal(m as nat) + rev@.reverse(),
        ensures
            decimal(n as nat) == rev@.reverse(),
        decreases m,
    {
        let d = m % 10;
        rev.push(digit_of(d));
        proof {
            assert(rev@.reverse() =~= seq![digit_char(d as nat)] + rev@.drop_last().reverse());
        }
        if m < 10 {
            assert(decimal(m as nat) == seq![digit_char(m as nat)]);
            assert(decimal(n as nat) =~= rev@.reverse());
            break ;
        }
        proof {
            assert(decimal(m as nat) == decimal((m / 10) as nat).push(digit_char((m % 10) as nat)));
            assert(decimal((m / 10) as nat).push(digit_char(d as nat)) =~= decimal((m / 10) as nat) + seq![digit_char(d as nat)]);
            assert(decimal((m / 10) as nat) + rev@.reverse() =~= decimal((m / 10) as nat) + seq![
                digit_char(d as nat),
            ] + rev@.drop_last().reverse());
        }
        m = m / 10;
    }
    let mut fwd: Vec<char> = Vec::new();
    let mut i: usize = rev.len();
    while i > 0
        invariant
            i <= rev.len(),
            fwd@ == rev@.subrange(i as int, rev.len() as int).reverse(),
        decreases i,
    {
        i = i - 1;
        fwd.push(rev[i]);
        assert(rev@.subrange(i as int, rev.len() as int).reverse() =~= rev@.subrange(
            i + 1,
            rev.len() as int,
        ).reverse().push(rev@[i as int]));
    }
    assert(rev@.subrange(0, rev.len() as int) =~= rev@);
    string_of(&fwd)
}

/// `n` written in decimal, with a leading minus sign when negative.
pub open spec fn signed_decimal(n: int) -> Seq<char> {
    if n < 0 {
        seq!['-'] + decimal((-n) as nat)
    } else {
        decimal(n as nat)
    }
}

/// `n` written as `format!("{n}")` writes an `i64`.
pub fn i64_decimal(n: i64) -> (out: String)
    ensures
        out@ == signed_decimal(n as int),
{
    if n < 0 {
        let mag: u64 = ((-(n + 1)) as u64) + 1;
        let digits = u64_decimal(mag);
        let mut out = owned("-");
        out.append(digits.as_str());
        proof {
            reveal_strlit("-");
            assert(out@ =~= seq!['-'] + decimal(mag as nat));
        }
        out
    } else {
        u64_decimal(n as u64)
    }
}

/// The lowercase hexadecimal digit for `d`.
pub open spec fn hex_char(d: nat) -> char
    recommends
        d < 16,
{
    if d < 10 {
        ((d + 48) as u32) as char
    } else {
        ((d + 87) as u32) as char
    }
}

/// The low `count` hexadecimal digits of `v`, most significant first, zeros
/// included.
pub open spec fn hex_digits(v: nat, count: nat) -> Seq<char>
    decreases count,
{
    if count == 0 {
        seq![]
    } else {
        hex_digits(v / 16, (count - 1) as nat).push(hex_char(v % 16))
    }
}

fn hex_digit_of(d: u64) -> (c: char)
    requires
        d < 16,
    ensures
        c == hex_char(d as nat),
{
    let digits: [char; 16] = [
        '0', '1', '2', '3', '4', '5', '6', '7', '8', '9', 'a', 'b', 'c', 'd', 'e', 'f',
    ];
    let c = digits[d as usize];
    assert(c == hex_char(d as nat)) by {
        assert(digits@[d as int] == c);
    }
    c
}

/// The low 32 bits of `v` as eight lowercase hexadecimal digits, as
/// `format!("{:08x}", v & 0xFFFF_FFFF)` writes them.
pub fn hex8(v: u64) -> (out: String)
    ensures
        out@ == hex_digits(v as nat, 8),
        out@.len() == 8,
{
    // Collect the digits least significant first, then reverse them.
    let mut rev: Vec<char> = Vec::new();
    let mut m: u64 = v;
    let mut k: u64 = 0;
    while k < 8
        invariant
            k <= 8,
            rev.len() == k,
            hex_digits(v as nat, 8) == hex_digits(m as nat, (8 - k) as nat) + rev@.reverse(),
        decreases 8 - k,
    {
        let d = m % 16;
        rev.push(hex_digit_of(d));
        proof {
            let c = hex_char(d as nat);
            assert(rev@.reverse() =~= seq![c] + rev@.drop_last().reverse());
            assert(hex_digits(m as nat, (8 - k) as nat) == hex_digits((m / 16) as nat, (8 - k - 1) as nat).push(c));
            assert(hex_digits((m / 16) as nat, (8 - k - 1) as nat).push(c) =~= hex_digits((m / 16) as nat, (8 - k - 1) as nat) + seq![c]);
            assert(hex_digits((m / 16) as nat, (8 - k - 1) as nat) + rev@.reverse() =~= hex_digits((m / 16) as nat, (8 - k - 1) as nat) + seq![c] + rev@.drop_last().reverse());
        }
        m = m / 16;
        k = k + 1;
    }
    assert(hex_digits(m as nat, 0) =~= Seq::<char>::empty());
    assert(hex_digits(v as nat, 8) =~= rev@.reverse());
    let mut fwd: Vec<char> = Vec::new();
    let mut i: usize = rev.len();
    while i > 0
        invariant
            i <= rev.len(),
            fwd@ == rev@.subrange(i as int, rev.len() as int).reverse(),
        decreases i,
    {
        i = i - 1;
        fwd.push(rev[i]);
        assert(rev@.subrange(i as int, rev.len() as int).reverse() =~= rev@.subrange(
            i + 1,
            rev.len() as int,
        ).reverse().push(rev@[i as int]));
    }
    assert(rev@.subrange(0, rev.len() as int) =~= rev@);
    string_of(&fwd)
}

// ---------------------------------------------------------------------------
// Parsing
// ---------------------------------------------------------------------------

/// Whether `c` is an ASCII decimal digit.
pub open spec fn is_digit(c: char) -> bool {
    '0' <= c && c <= '9'
}

/// The number that the decimal digits `s` denote.
pub open spec fn digits_value(s: Seq<char>) -> nat
    decreases s.len(),
{
    if s.len() == 0 {
        0
    } else {
        digits_value(s.drop_last()) * 10 + ((s.last() as u32) - 48) as nat
    }
}

/// `s` without one leading `+`, if it has one.
pub open spec fn unsigned_body(s: Seq<char>) -> Seq<char> {
    if s.len() > 0 && s[0] == '+' {
        s.drop_first()
    } else {
        s
    }
}

/// What `str::parse::<u16>` gives for `s`: an optional `+` sign, then one or
/// more decimal digits whose value fits in 16 bits.
pub open spec fn parse_u16_spec(s: Seq<char>) -> Option<u16> {
    let body = unsigned_body(s);
    if body.len() > 0 && (forall|i: int| 0 <= i < body.len() ==> is_digit(#[trigger] body[i]))
        && digits_value(body) <= 65535 {
        Some(digits_value(body) as u16)
    } else {
        None
    }
}

proof fn lemma_digits_value_monotone(s: Seq<char>, i: int)
    requires
        0 <= i <= s.len(),
        forall|k: int| 0 <= k < s.len() ==> is_digit(#[trigger] s[k]),
    ensures
        digits_value(s.take(i)) <= digits_value(s),
    decreases s.len() - i,
{
    if i < s.len() {
        lemma_digits_value_monotone(s, i + 1);
        assert(s.take(i + 1).drop_last() =~= s.take(i));
    } else {
        assert(s.take(i) =~= s);
    }
}

/// Parses `s` as `str::parse::<u16>` does; `None` where that gives an error.
pub fn parse_u16(s: &str) -> (r: Option<u16>)
    ensures
        r == parse_u16_spec(s@),
{
    let chars = chars_of(s);
    let start: usize = if chars.len() > 0 && chars[0] == '+' {
        1
    } else {
        0
    };
    let ghost body = unsigned_body(s@);
    assert(body =~= chars@.skip(start as int));
    if start >= chars.len() {
        return None;
    }
    let mut i: usize = start;
    while i < chars.len()
        invariant
            start <= i <= chars.len(),
            chars@ == s@,
            body == chars@.skip(start as int),
            body == unsigned_body(s@),
            forall|k: int| start <= k < i ==> is_digit(#[trigger] chars@[k]),
        decreases chars.len() - i,
    {
        let c = chars[i];
        if !('0' <= c && c <= '9') {
            assert(body[i - start] == c);
            assert(!is_digit(body[i - start]));
            return None;
        }
        i = i + 1;
    }
    assert forall|k: int| 0 <= k < body.len() implies is_digit(#[trigger] body[k]) by {
        assert(body[k] == chars@[k + start]);
    }
    let mut value: u32 = 0;
    let mut i: usize = start;
    while i < chars.len()
        invariant
            start <= i <= chars.len(),
            chars@ == s@,
            body == chars@.skip(start as int),
            body == unsigned_body(s@),
            forall|k: int| 0 <= k < body.len() ==> is_digit(#[trigger] body[k]),
            value as nat == digits_value(body.take(i - start)),
            value <= 65535,
        decreases chars.len() - i,
    {
        let c = chars[i];
        proof {
            assert(body[i - start] == c);
            assert(is_digit(body[i - start]));
            assert(body.take(i + 1 - start).drop_last() =~= body.take(i - start));
            assert(body.take(i + 1 - start).last() == c);
        }
        let d: u32 = (c as u32) - 48;
        let next: u32 = value * 10 + d;
        assert(digits_value(body.take(i + 1 - start)) == next);
        if next > 65535 {
            proof {
                lemma_digits_value_monotone(body, i + 1 - start);
            }
            return None;
        }
        value = next;
        i = i + 1;
    }
    assert(body.take(i - start) =~= body);
    Some(value as u16)
}

/// The part of `s` before the first `sep`, or all of `s` when `sep` does not
/// occur: the first item of `s.split(sep)`.
pub open spec fn before_first(s: Seq<char>, sep: char) -> Seq<char>
    decreases s.len(),
{
    if s.len() == 0 {
        s
    } else if s[0] == sep {
        seq![]
    } else {
        seq![s[0]] + before_first(s.drop_first(), sep)
    }
}

/// The first item of `s.split(sep)`.
pub fn split_first(s: &str, sep: char) -> (out: String)
    ensures
        out@ == before_first(s@, sep),
{
    let chars = chars_of(s);
    let mut i: usize = 0;
    assert(chars@.take(0) =~= Seq::<char>::empty());
    assert(chars@.skip(0) =~= chars@);
    while i < chars.len() && chars[i] != sep
        invariant
            i <= chars.len(),
            chars@ == s@,
            before_first(s@, sep) == chars@.take(i as int) + before_first(chars@.skip(i as int), sep),
        decreases chars.len() - i,
    {
        proof {
            let t = chars@.skip(i as int);
            assert(t[0] == chars@[i as int]);
            assert(t.drop_first() =~= chars@.skip(i + 1));
            assert(chars@.take(i + 1) =~= chars@.take(i as int) + seq![chars@[i as int]]);
        }
        i = i + 1;
    }
    proof {
        if i < chars.len() {
            assert(chars@.skip(i as int)[0] == sep);
        } else {
            assert(chars@.skip(i as int) =~= Seq::<char>::empty());
        }
        assert(before_first(s@, sep) =~= chars@.take(i as int));
    }
    owned(s.substring_char(0, i))
}

/// `s` without the leading characters equal to `c`: `s.trim_start_matches(c)`.
pub open spec fn trim_start_char(s: Seq<char>, c: char) -> Seq<char>
    decreases s.len(),
{
    if s.len() > 0 && s[0] == c {
        trim_start_char(s.drop_first(), c)
    } else {
        s
    }
}

proof fn lemma_trim_start_char_skip(s: Seq<char>, c: char, i: int)
    requires
        0 <= i < s.len(),
        s[i] == c,
    ensures
        trim_start_char(s.skip(i), c) == trim_start_char(s.skip(i + 1), c),
{
    assert(s.skip(i).drop_first() =~= s.skip(i + 1));
}

/// `s.trim_start_matches(c)`.
pub fn trim_start_matches(s: &str, c: char) -> (out: String)
    ensures
        out@ == trim_start_char(s@, c),
{
    let chars = chars_of(s);
    let mut i: usize = 0;
    assert(chars@.skip(0) =~= chars@);
    while i < chars.len() && chars[i] == c
        invariant
            i <= chars.len(),
            chars@ == s@,
            trim_start_char(s@, c) == trim_start_char(chars@.skip(i as int), c),
        decreases chars.len() - i,
    {
        proof {
            lemma_trim_start_char_skip(chars@, c, i as int);
        }
        i = i + 1;
    }
    proof {
        if i < chars.len() {
            assert(chars@.skip(i as int)[0] == chars@[i as int]);
        }
        assert(chars@.skip(i as int) =~= chars@.subrange(i as int, chars.len() as int));
    }
    owned(s.substring_char(i, chars.len()))
}

/// Whether `c` has the Unicode `White_Space` property, which is what
/// `char::is_whitespace` tests.
pub open spec fn is_white_space(c: char) -> bool {
    let u = c as u32;
    ||| 0x09 <= u <= 0x0D
    ||| u == 0x20
    ||| u == 0x85
    ||| u == 0xA0
    ||| u == 0x1680
    ||| 0x2000 <= u <= 0x200A
    ||| u == 0x2028
    ||| u == 0x2029
    ||| u == 0x202F
    ||| u == 0x205F
    ||| u == 0x3000
}

/// `char::is_whitespace`.
pub fn white_space(c: char) -> (r: bool)
    ensures
        r == is_white_space(c),
{
    let u = c as u32;
    (0x09 <= u && u <= 0x0D) || u == 0x20 || u == 0x85 || u == 0xA0 || u == 0x1680 || (0x2000
        <= u && u <= 0x200A) || u == 0x2028 || u == 0x2029 || u == 0x202F || u == 0x205F || u
        == 0x3000
}

/// `s` without leading white space.
pub open spec fn trim_start_ws(s: Seq<char>) -> Seq<char>
    decreases s.len(),
{
    if s.len() > 0 && is_white_space(s[0]) {
        trim_start_ws(s.drop_first())
    } else {
        s
    }
}

/// `s` without trailing white space.
pub open spec fn trim_end_ws(s: Seq<char>) -> Seq<char>
    decreases s.len(),
{
    if s.len() > 0 && is_white_space(s.last()) {
        trim_end_ws(s.drop_last())
    } else {
        s
    }
}

/// `s` without leading and trailing white space: `str::trim`.
pub open spec fn trim_ws(s: Seq<char>) -> Seq<char> {
    trim_end_ws(trim_start_ws(s))
}

/// `s.trim()`.
pub fn trim(s: &str) -> (out: String)
    ensures
        out@ == trim_ws(s@),
{
    let chars = chars_of(s);
    let mut i: usize = 0;
    assert(chars@.skip(0) =~= chars@);
    while i < chars.len() && white_space(chars[i])
        invariant
            i <= chars.len(),
            chars@ == s@,
            trim_start_ws(s@) == trim_start_ws(chars@.skip(i as int)),
        decreases chars.len() - i,
    {
        proof {
            assert(chars@.skip(i as int).drop_first() =~= chars@.skip(i + 1));
        }
        i = i + 1;
    }
    proof {
        if i < chars.len() {
            assert(chars@.skip(i as int)[0] == chars@[i as int]);
        }
    }
    let mut j: usize = chars.len();
    assert(chars@.subrange(i as int, j as int) =~= chars@.skip(i as int));
    while j > i && white_space(chars[j - 1])
        invariant
            i <= j <= chars.len(),
            chars@ == s@,
            trim_ws(s@) == trim_end_ws(chars@.subrange(i as int, j as int)),
        decreases j,
    {
        proof {
            assert(chars@.subrange(i as int, j as int).drop_last() =~= chars@.subrange(
                i as int,
                j - 1,
            ));
        }
        j = j - 1;
    }
    proof {
        if j > i {
            assert(chars@.subrange(i as int, j as int).last() == chars@[j - 1]);
        }
    }
    owned(s.substring_char(i, j))
}

/// `p` occurs in `s` starting at position `i`.
pub open spec fn occurs_at(s: Seq<char>, p: Seq<char>, i: int) -> bool {
    0 <= i && i + p.len() <= s.len() && s.subrange(i, i + p.len()) == p
}

/// `p` occurs somewhere in `s`: `s.contains(p)`.
pub open spec fn has_substring(s: Seq<char>, p: Seq<char>) -> bool {
    exists|i: int| occurs_at(s, p, i)
}

/// `s.contains(p)`.
pub fn contains_text(s: &str, p: &str) -> (r: bool)
    ensures
        r == has_substring(s@, p@),
{
    let x = chars_of(s);
    let y = chars_of(p);
    if y.len() > x.len() {
        return false;
    }
    let mut i: usize = 0;
    while i <= x.len() - y.len()
        invariant
            x@ == s@,
            y@ == p@,
            y.len() <= x.len(),
            i <= x.len() - y.len() + 1,
            forall|k: int| 0 <= k < i ==> !occurs_at(s@, p@, k),
        decreases x.len() - i,
    {
        let mut j: usize = 0;
        while j < y.len() && x[i + j] == y[j]
            invariant
                i + y.len() <= x.len(),
                j <= y.len(),
                x@ == s@,
                y@ == p@,
                forall|k: int| 0 <= k < j ==> x@[i + k] == y@[k],
            decreases y.len() - j,
        {
            j = j + 1;
        }
        if j == y.len() {
            assert(x@.subrange(i as int, i + y.len()) =~= y@);
            assert(occurs_at(s@, p@, i as int));
            return true;
        }
        assert(!occurs_at(s@, p@, i as int)) by {
            if occurs_at(s@, p@, i as int) {
                assert(x@.subrange(i as int, i + y.len())[j as int] == x@[i + j]);
            }
        }
        i = i + 1;
    }
    assert forall|k: int| !occurs_at(s@, p@, k) by {
        if 0 <= k && k < i {
        }
    }
    false
}

/// `s` followed by spaces up to `width` characters, as `format!("{:<width$}", s)`
/// lays it out; a longer `s` is left as it is.
pub open spec fn pad_right(s: Seq<char>, width: nat) -> Seq<char> {
    if s.len() >= width {
        s
    } else {
        s + Seq::new((width - s.len()) as nat, |i: int| ' ')
    }
}

/// `format!("{:<width$}", s)`.
pub fn padded(s: &str, width: usize) -> (out: String)
    ensures
        out@ == pad_right(s@, width as nat),
{
    let mut chars = chars_of(s);
    let n = chars.len();
    while chars.len() < width
        invariant
            n == s@.len(),
            n <= chars.len(),
            chars@.subrange(0, n as int) == s@,
            forall|k: int| n <= k < chars.len() ==> chars@[k] == ' ',
            chars.len() <= n || chars.len() <= width,
        decreases width - chars.len(),
    {
        chars.push(' ');
    }
    assert(chars@ =~= pad_right(s@, width as nat));
    string_of(&chars)
}

} // verus!
