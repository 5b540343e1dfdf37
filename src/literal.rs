use vstd::prelude::*;
use vstd::string::StringExecFns;

verus! {

pub open spec fn digit_char(d: int) -> char {
    if d == 0 {
        '0'
    } else if d == 1 {
        '1'
    } else if d == 2 {
        '2'
    } else if d == 3 {
        '3'
    } else if d == 4 {
        '4'
    } else if d == 5 {
        '5'
    } else if d == 6 {
        '6'
    } else if d == 7 {
        '7'
    } else if d == 8 {
        '8'
    } else {
        '9'
    }
}

/// The value of a decimal digit character; -1 for any other character.
pub open spec fn digit_value(c: char) -> int {
    if c == '0' {
        0
    } else if c == '1' {
        1
    } else if c == '2' {
        2
    } else if c == '3' {
        3
    } else if c == '4' {
        4
    } else if c == '5' {
        5
    } else if c == '6' {
        6
    } else if c == '7' {
        7
    } else if c == '8' {
        8
    } else if c == '9' {
        9
    } else {
        -1
    }
}

/// The decimal digits of `n`, most significant first, without leading zeros.
pub open spec fn digits_of(n: nat) -> Seq<char>
    decreases n,
{
    if n < 10 {
        seq![digit_char(n as int)]
    } else {
        digits_of(n / 10).push(digit_char((n % 10) as int))
    }
}

/// The decimal text of an integer, with a leading `-` when it is negative.
pub open spec fn int_text(i: int) -> Seq<char> {
    if i < 0 {
        seq!['-'] + digits_of((-i) as nat)
    } else {
        digits_of(i as nat)
    }
}

/// Reads a run of decimal digits.
pub open spec fn parse_digits(s: Seq<char>) -> int
    decreases s.len(),
{
    if s.len() == 0 {
        0
    } else {
        parse_digits(s.drop_last()) * 10 + digit_value(s.last())
    }
}

/// Reads a decimal integer literal, with an optional leading `-`.
pub open spec fn parse_int(s: Seq<char>) -> int {
    if s.len() > 0 && s[0] == '-' {
        -parse_digits(s.drop_first())
    } else {
        parse_digits(s)
    }
}

/// The body of a quoted literal: each quote and each backslash doubled.
pub open spec fn double_specials(s: Seq<char>) -> Seq<char>
    decreases s.len(),
{
    if s.len() == 0 {
        Seq::empty()
    } else if s[0] == '\'' || s[0] == '\\' {
        seq![s[0], s[0]] + double_specials(s.drop_first())
    } else {
        seq![s[0]] + double_specials(s.drop_first())
    }
}

/// A quoted SQL string literal of `s`. Where `s` holds a backslash the
/// literal is written in the escape-string form (` E'...'`), so that it reads
/// the same whatever the server's `standard_conforming_strings` is.
pub open spec fn quoted_text(s: Seq<char>) -> Seq<char> {
    (if s.contains('\\') {
        seq![' ', 'E']
    } else {
        Seq::empty()
    }) + seq!['\''] + double_specials(s) + seq!['\'']
}

/// Undoes `double_specials`: a quote or a backslash stands for the pair it
/// starts.
pub open spec fn undouble(t: Seq<char>) -> Seq<char>
    decreases t.len(),
{
    if t.len() == 0 {
        Seq::empty()
    } else if (t[0] == '\'' || t[0] == '\\') && t.len() >= 2 {
        seq![t[0]] + undouble(t.subrange(2, t.len() as int))
    } else {
        seq![t[0]] + undouble(t.drop_first())
    }
}

/// Reads a quoted SQL string literal back into the text it stands for.
pub open spec fn unquote_text(t: Seq<char>) -> Seq<char> {
    let u = if t.len() >= 2 && t[0] == ' ' && t[1] == 'E' {
        t.subrange(2, t.len() as int)
    } else {
        t
    };
    undouble(u.subrange(1, u.len() - 1))
}

pub open spec fn hex_digit(d: int) -> char {
    if d < 10 {
        digit_char(d)
    } else if d == 10 {
        'a'
    } else if d == 11 {
        'b'
    } else if d == 12 {
        'c'
    } else if d == 13 {
        'd'
    } else if d == 14 {
        'e'
    } else {
        'f'
    }
}

/// Two lower-case hex digits for each byte.
pub open spec fn hex_of(b: Seq<u8>) -> Seq<char>
    decreases b.len(),
{
    if b.len() == 0 {
        Seq::empty()
    } else {
        hex_of(b.drop_last()) + seq![hex_digit(b.last() as int / 16), hex_digit(b.last() as int % 16)]
    }
}

/// The canonical text of a 16-byte UUID: lower-case hex in groups of
/// 8, 4, 4, 4 and 12 digits joined by `-`.
pub open spec fn hyphenated_hex(b: Seq<u8>) -> Seq<char> {
    hex_of(b.subrange(0, 4)) + seq!['-'] + hex_of(b.subrange(4, 6)) + seq!['-'] + hex_of(
        b.subrange(6, 8),
    ) + seq!['-'] + hex_of(b.subrange(8, 10)) + seq!['-'] + hex_of(b.subrange(10, 16))
}

/// The value of a lower-case hex digit; -1 for any other character.
pub open spec fn hex_value(c: char) -> int {
    if c == 'a' {
        10
    } else if c == 'b' {
        11
    } else if c == 'c' {
        12
    } else if c == 'd' {
        13
    } else if c == 'e' {
        14
    } else if c == 'f' {
        15
    } else {
        digit_value(c)
    }
}

/// Reads pairs of hex digits as bytes.
pub open spec fn unhex(t: Seq<char>) -> Seq<u8>
    decreases t.len(),
{
    if t.len() < 2 {
        Seq::empty()
    } else {
        unhex(t.subrange(0, t.len() - 2)).push(
            (hex_value(t[t.len() - 2]) * 16 + hex_value(t[t.len() - 1])) as u8,
        )
    }
}

/// Reads the 16 bytes of a UUID from its hyphenated text.
pub open spec fn parse_uuid(t: Seq<char>) -> Seq<u8> {
    unhex(t.subrange(0, 8)) + unhex(t.subrange(9, 13)) + unhex(t.subrange(14, 18)) + unhex(
        t.subrange(19, 23),
    ) + unhex(t.subrange(24, 36))
}

proof fn lemma_hex_digit(d: int)
    requires
        0 <= d < 16,
    ensures
        hex_value(hex_digit(d)) == d,
{
}

proof fn lemma_unhex_hex(b: Seq<u8>)
    ensures
        hex_of(b).len() == 2 * b.len(),
        unhex(hex_of(b)) == b,
    decreases b.len(),
{
    if b.len() > 0 {
        lemma_unhex_hex(b.drop_last());
        let t = hex_of(b);
        let x = b.last() as int;
        lemma_hex_digit(x / 16);
        lemma_hex_digit(x % 16);
        assert(t.subrange(0, t.len() - 2) =~= hex_of(b.drop_last()));
        assert(x / 16 * 16 + x % 16 == x);
        assert(unhex(t) =~= b);
    }
}

/// The hyphenated text of a UUID reads back as its 16 bytes.
pub proof fn uuid_text_round_trip(b: Seq<u8>)
    requires
        b.len() == 16,
    ensures
        parse_uuid(hyphenated_hex(b)) == b,
{
    let p0 = b.subrange(0, 4);
    let p1 = b.subrange(4, 6);
    let p2 = b.subrange(6, 8);
    let p3 = b.subrange(8, 10);
    let p4 = b.subrange(10, 16);
    lemma_unhex_hex(p0);
    lemma_unhex_hex(p1);
    lemma_unhex_hex(p2);
    lemma_unhex_hex(p3);
    lemma_unhex_hex(p4);
    let t = hyphenated_hex(b);
    assert(t.subrange(0, 8) =~= hex_of(p0));
    assert(t.subrange(9, 13) =~= hex_of(p1));
    assert(t.subrange(14, 18) =~= hex_of(p2));
    assert(t.subrange(19, 23) =~= hex_of(p3));
    assert(t.subrange(24, 36) =~= hex_of(p4));
    assert(p0 + p1 + p2 + p3 + p4 =~= b);
}

/// `s` between single quotes, unchanged.
pub open spec fn single_quoted(s: Seq<char>) -> Seq<char> {
    seq!['\''] + s + seq!['\'']
}

proof fn lemma_digit_value(d: int)
    requires
        0 <= d < 10,
    ensures
        digit_value(digit_char(d)) == d,
        digit_char(d) != '-',
{
}

proof fn lemma_digits_round_trip(n: nat)
    ensures
        parse_digits(digits_of(n)) == n,
        digits_of(n).len() >= 1,
        digits_of(n)[0] != '-',
    decreases n,
{
    if n < 10 {
        lemma_digit_value(n as int);
        assert(digits_of(n).drop_last() =~= Seq::<char>::empty());
        assert(parse_digits(digits_of(n).drop_last()) == 0);
    } else {
        lemma_digits_round_trip(n / 10);
        lemma_digit_value((n % 10) as int);
        assert(digits_of(n).drop_last() =~= digits_of(n / 10));
        assert(digits_of(n).last() == digit_char((n % 10) as int));
        assert(n == (n / 10) * 10 + n % 10);
    }
}

/// The decimal text of an integer reads back as that integer.
pub proof fn int_text_round_trip(i: int)
    ensures
        parse_int(int_text(i)) == i,
{
    if i < 0 {
        lemma_digits_round_trip((-i) as nat);
        assert((seq!['-'] + digits_of((-i) as nat)).drop_first() =~= digits_of((-i) as nat));
    } else {
        lemma_digits_round_trip(i as nat);
    }
}

proof fn lemma_undouble_double(s: Seq<char>)
    ensures
        undouble(double_specials(s)) == s,
    decreases s.len(),
{
    if s.len() > 0 {
        let t = double_specials(s);
        lemma_undouble_double(s.drop_first());
        if s[0] == '\'' || s[0] == '\\' {
            assert(t.subrange(2, t.len() as int) =~= double_specials(s.drop_first()));
        } else {
            assert(t.drop_first() =~= double_specials(s.drop_first()));
        }
        assert(undouble(t) =~= s);
    } else {
        assert(undouble(double_specials(s)) =~= s);
    }
}

/// A quoted string literal reads back as exactly the text it was made from,
/// quotes and backslashes included.
pub proof fn quoted_text_round_trip(s: Seq<char>)
    ensures
        unquote_text(quoted_text(s)) == s,
{
    lemma_undouble_double(s);
    let body = seq!['\''] + double_specials(s) + seq!['\''];
    assert(body.subrange(1, body.len() - 1) =~= double_specials(s));
    if s.contains('\\') {
        assert(quoted_text(s).subrange(2, quoted_text(s).len() as int) =~= body);
    } else {
        assert(quoted_text(s) =~= body);
    }
}

/// Relies on `String::push`: appends one character.
#[verifier::external_body]
pub(crate) fn push_char(s: &mut String, c: char)
    ensures
        final(s)@ == old(s)@.push(c),
{
    s.push(c)
}

/// Relies on `postgres_protocol::escape::escape_literal`: it surrounds the
/// text with quotes, doubles each quote and each backslash, and puts ` E` in
/// front where the text holds a backslash.
#[verifier::external_body]
fn escape_literal(s: &str) -> (r: String)
    ensures
        r@ == quoted_text(s@),
{
    postgres_protocol::escape::escape_literal(s)
}

/// Relies on `uuid::Uuid::from_slice`, which takes exactly 16 bytes, and on
/// the `Display` of `uuid::adapter::Hyphenated`: lower-case hex in 8-4-4-4-12
/// groups.
#[verifier::external_body]
fn uuid_hyphenated(b: &[u8]) -> (r: String)
    requires
        b@.len() == 16,
    ensures
        r@ == hyphenated_hex(b@),
{
    match uuid::Uuid::from_slice(b) {
        Ok(u) => u.to_hyphenated().to_string(),
        Err(_) => String::new(),
    }
}

fn digit(d: u64) -> (c: char)
    requires
        d < 10,
    ensures
        c == digit_char(d as int),
{
    if d == 0 {
        '0'
    } else if d == 1 {
        '1'
    } else if d == 2 {
        '2'
    } else if d == 3 {
        '3'
    } else if d == 4 {
        '4'
    } else if d == 5 {
        '5'
    } else if d == 6 {
        '6'
    } else if d == 7 {
        '7'
    } else if d == 8 {
        '8'
    } else {
        '9'
    }
}

fn push_digits(s: &mut String, n: u64)
    ensures
        final(s)@ == old(s)@ + digits_of(n as nat),
    decreases n,
{
    if n >= 10 {
        push_digits(s, n / 10);
    }
    push_char(s, digit(n % 10));
    proof {
        if n >= 10 {
            assert(final(s)@ =~= old(s)@ + digits_of(n as nat));
        } else {
            assert(final(s)@ =~= old(s)@ + digits_of(n as nat));
        }
    }
}

/// The decimal text of an integer.
pub fn int_literal(v: i64) -> (r: String)
    ensures
        r@ == int_text(v as int),
{
    let mut s = String::new();
    if v < 0 {
        push_char(&mut s, '-');
        let m: u64 = (-(v as i128)) as u64;
        push_digits(&mut s, m);
    } else {
        push_digits(&mut s, v as u64);
    }
    proof {
        assert(s@ =~= int_text(v as int));
    }
    s
}

/// `true` or `false`, unquoted.
pub fn bool_literal(v: bool) -> (r: String)
    ensures
        r@ == (if v {
            "true"@
        } else {
            "false"@
        }),
{
    if v {
        String::from_str("true")
    } else {
        String::from_str("false")
    }
}

/// The SQL `NULL` literal.
pub fn null_literal() -> (r: String)
    ensures
        r@ == "NULL"@,
{
    String::from_str("NULL")
}

/// A quoted string literal of `s`, escaped so that the server reads `s` back.
pub fn text_literal(s: &str) -> (r: String)
    ensures
        r@ == quoted_text(s@),
{
    escape_literal(s)
}

/// The quoted canonical text of a 16-byte UUID.
pub fn uuid_literal(b: &[u8]) -> (r: String)
    requires
        b@.len() == 16,
    ensures
        r@ == single_quoted(hyphenated_hex(b@)),
{
    let mut s = String::new();
    push_char(&mut s, '\'');
    let h = uuid_hyphenated(b);
    s.append(h.as_str());
    push_char(&mut s, '\'');
    proof {
        assert(s@ =~= single_quoted(hyphenated_hex(b@)));
    }
    s
}

/// `s` between single quotes, for text that holds no quote of its own.
pub fn quote_plain(s: &str) -> (r: String)
    ensures
        r@ == single_quoted(s@),
{
    let mut q = String::new();
    push_char(&mut q, '\'');
    q.append(s);
    push_char(&mut q, '\'');
    proof {
        assert(q@ =~= single_quoted(s@));
    }
    q
}

} // verus!
