//! Verified building blocks of the wire form: decimal rendering and parsing
//! of 64-bit integers, and string escaping and unescaping. The record codec
//! is assembled from these.

use vstd::prelude::*;
use vstd::arithmetic::div_mod::{lemma_fundamental_div_mod, lemma_fundamental_div_mod_converse};
use vstd::string::StrSliceExecFns;

verus! {

// ------------------------------------------------------------------
// Decimal digits
// ------------------------------------------------------------------

pub open spec fn is_dec_digit(c: char) -> bool {
    '0' <= c && c <= '9'
}

pub open spec fn digit_char(d: int) -> char {
    if d == 0 {
        '0'
    } else if d == 1 {
        '1'
    } else if d == 2 {
        '2'
    } else if d == 3 {
        '3'
    } else if d == 4 {
        '4'
    } else if d == 5 {
        '5'
    } else if d == 6 {
        '6'
    } else if d == 7 {
        '7'
    } else if d == 8 {
        '8'
    } else {
        '9'
    }
}

pub open spec fn digit_val(c: char) -> int {
    c as int - '0' as int
}

/// The decimal digits of `n`, most significant first, no sign, no leading
/// zero (except for the single digit of zero itself).
pub open spec fn dec_digits(n: nat) -> Seq<char>
    decreases n,
{
    if n < 10 {
        seq![digit_char(n as int)]
    } else {
        dec_digits(n / 10).push(digit_char((n % 10) as int))
    }
}

/// The decimal rendering of a signed integer.
pub open spec fn int_dec(v: int) -> Seq<char> {
    if v < 0 {
        seq!['-'] + dec_digits((-v) as nat)
    } else {
        dec_digits(v as nat)
    }
}

/// The value of a run of decimal digits, most significant first.
pub open spec fn digits_val(s: Seq<char>) -> int
    decreases s.len(),
{
    if s.len() == 0 {
        0
    } else {
        digits_val(s.drop_last()) * 10 + digit_val(s.last())
    }
}

pub open spec fn all_digits(s: Seq<char>) -> bool {
    forall|j: int| 0 <= j < s.len() ==> is_dec_digit(#[trigger] s[j])
}

pub open spec fn pow10(e: nat) -> int
    decreases e,
{
    if e == 0 {
        1
    } else {
        10 * pow10((e - 1) as nat)
    }
}

pub proof fn lemma_pow10_pos(e: nat)
    ensures
        pow10(e) >= 1,
    decreases e,
{
    if e > 0 {
        lemma_pow10_pos((e - 1) as nat);
    }
}

pub proof fn lemma_pow10_mono(a: nat, b: nat)
    requires
        a <= b,
    ensures
        1 <= pow10(a) <= pow10(b),
    decreases b,
{
    lemma_pow10_pos(a);
    if a < b {
        lemma_pow10_mono(a, (b - 1) as nat);
    }
}

/// The digits of `n` are digits, at least one of them, and they evaluate
/// back to `n`.
pub proof fn lemma_dec_digits_shape(n: nat)
    ensures
        dec_digits(n).len() >= 1,
        all_digits(dec_digits(n)),
        digits_val(dec_digits(n)) == n,
    decreases n,
{
    if n < 10 {
        let s = seq![digit_char(n as int)];
        assert(s.drop_last() =~= Seq::<char>::empty());
        assert(digits_val(Seq::<char>::empty()) == 0);
        assert(s.last() == digit_char(n as int));
        assert(digits_val(s) == digit_val(digit_char(n as int)));
        assert(digit_val(digit_char(n as int)) == n);
    } else {
        lemma_dec_digits_shape(n / 10);
        let s = dec_digits(n / 10);
        let d = digit_char((n % 10) as int);
        assert(s.push(d).drop_last() =~= s);
        assert(s.push(d).last() == d);
        lemma_fundamental_div_mod(n as int, 10);
        assert(digits_val(s.push(d)) == digits_val(s) * 10 + digit_val(d));
        assert(all_digits(s.push(d))) by {
            assert(forall|j: int|
                0 <= j < s.len() ==> #[trigger] s.push(d)[j] == s[j]);
        }
    }
}

/// `n < 10^e` has at most `e` digits.
pub proof fn lemma_dec_digits_len(n: nat, e: nat)
    requires
        n < pow10(e),
        e >= 1,
    ensures
        dec_digits(n).len() <= e,
    decreases n,
{
    if n < 10 {
    } else {
        assert(e >= 2) by {
            if e == 1 {
                assert(pow10(1) == 10);
            }
        }
        let m = pow10((e - 1) as nat);
        lemma_pow10_mono(0, (e - 1) as nat);
        assert(pow10(e) == 10 * m);
        assert(n / 10 < m) by {
            assert(n <= 10 * m - 1);
            vstd::arithmetic::div_mod::lemma_div_is_ordered(n as int, 10 * m - 1, 10);
            assert(10 * m - 1 == (m - 1) * 10 + 9) by (nonlinear_arith);
            lemma_fundamental_div_mod_converse(10 * m - 1, 10, m - 1, 9);
        }
        lemma_dec_digits_len(n / 10, (e - 1) as nat);
    }
}

// ------------------------------------------------------------------
// Escaping
// ------------------------------------------------------------------

/// How one character is written inside a JSON string: the quote, the
/// backslash and the three named control characters get a two-character
/// escape; everything else stands for itself.
pub open spec fn esc_char(c: char) -> Seq<char> {
    if c == '"' {
        seq!['\\', '"']
    } else if c == '\\' {
        seq!['\\', '\\']
    } else if c == '\n' {
        seq!['\\', 'n']
    } else if c == '\r' {
        seq!['\\', 'r']
    } else if c == '\t' {
        seq!['\\', 't']
    } else {
        seq![c]
    }
}

pub open spec fn esc_str(s: Seq<char>) -> Seq<char>
    decreases s.len(),
{
    if s.len() == 0 {
        Seq::empty()
    } else {
        esc_char(s[0]) + esc_str(s.drop_first())
    }
}

/// What a two-character escape stands for.
pub open spec fn unesc_char(c: char) -> Option<char> {
    if c == '"' {
        Some('"')
    } else if c == '\\' {
        Some('\\')
    } else if c == 'n' {
        Some('\n')
    } else if c == 'r' {
        Some('\r')
    } else if c == 't' {
        Some('\t')
    } else {
        None
    }
}

pub proof fn lemma_esc_str_push(s: Seq<char>, c: char)
    ensures
        esc_str(s.push(c)) == esc_str(s) + esc_char(c),
    decreases s.len(),
{
    if s.len() == 0 {
        assert(s.push(c) =~= seq![c]);
        assert(seq![c].drop_first() =~= Seq::<char>::empty());
        assert(esc_str(Seq::<char>::empty()) =~= Seq::<char>::empty());
        assert(esc_str(seq![c]) =~= esc_char(c) + esc_str(Seq::<char>::empty()));
        assert(esc_char(c) + Seq::<char>::empty() =~= esc_char(c));
        assert(esc_str(s) + esc_char(c) =~= esc_char(c));
    } else {
        assert(s.push(c).drop_first() =~= s.drop_first().push(c));
        lemma_esc_str_push(s.drop_first(), c);
        assert(s.push(c)[0] == s[0]);
        assert(esc_str(s.push(c)) == esc_char(s[0]) + (esc_str(s.drop_first()) + esc_char(c)));
        assert(esc_char(s[0]) + (esc_str(s.drop_first()) + esc_char(c)) =~= (esc_char(s[0])
            + esc_str(s.drop_first())) + esc_char(c));
    }
}

// ------------------------------------------------------------------
// Executable builders
// ------------------------------------------------------------------

/// The characters of a string, in order.
pub fn str_chars(s: &str) -> (v: Vec<char>)
    ensures
        v@ == s@,
{
    let n = s.unicode_len();
    let mut v: Vec<char> = Vec::new();
    let mut i: usize = 0;
    while i < n
        invariant
            i <= n,
            n as nat == s@.len(),
            v@ == s@.take(i as int),
        decreases n - i,
    {
        v.push(s.get_char(i));
        proof {
            assert(s@.take(i + 1) =~= s@.take(i as int).push(s@[i as int]));
        }
        i = i + 1;
    }
    proof {
        assert(s@.take(n as int) =~= s@);
    }
    v
}

/// Relies on `String: FromIterator<char>` (`collect`): building a string
/// of exactly the given characters, in order.
#[verifier::external_body]
pub fn chars_to_string(v: &Vec<char>) -> (s: String)
    ensures
        s@ == v@,
{
    v.iter().collect()
}

/// Append the characters of a literal.
pub fn push_str_chars(out: &mut Vec<char>, lit: &str)
    ensures
        final(out)@ == old(out)@ + lit@,
{
    let n = lit.unicode_len();
    let mut j: usize = 0;
    while j < n
        invariant
            j <= n,
            n as nat == lit@.len(),
            out@ == old(out)@ + lit@.take(j as int),
        decreases n - j,
    {
        let c = lit.get_char(j);
        out.push(c);
        proof {
            assert(lit@.take(j + 1) =~= lit@.take(j as int).push(lit@[j as int]));
            assert(old(out)@ + lit@.take(j as int) + seq![c] =~= old(out)@ + lit@.take(j + 1));
        }
        j = j + 1;
    }
    proof {
        assert(lit@.take(n as int) =~= lit@);
    }
}

/// Append the escaped form of the characters.
pub fn push_escaped(out: &mut Vec<char>, s: &Vec<char>)
    ensures
        final(out)@ == old(out)@ + esc_str(s@),
{
    let mut i: usize = 0;
    while i < s.len()
        invariant
            i <= s.len(),
            out@ == old(out)@ + esc_str(s@.take(i as int)),
        decreases s.len() - i,
    {
        let c = s[i];
        if c == '"' {
            out.push('\\');
            out.push('"');
        } else if c == '\\' {
            out.push('\\');
            out.push('\\');
        } else if c == '\n' {
            out.push('\\');
            out.push('n');
        } else if c == '\r' {
            out.push('\\');
            out.push('r');
        } else if c == '\t' {
            out.push('\\');
            out.push('t');
        } else {
            out.push(c);
        }
        proof {
            assert(s@.take(i + 1) =~= s@.take(i as int).push(c));
            lemma_esc_str_push(s@.take(i as int), c);
            assert(out@ =~= old(out)@ + esc_str(s@.take(i + 1)));
        }
        i = i + 1;
    }
    proof {
        assert(s@.take(s.len() as int) =~= s@);
    }
}

fn digit_to_char(d: u64) -> (c: char)
    requires
        d <= 9,
    ensures
        c == digit_char(d as int),
{
    if d == 0 {
        '0'
    } else if d == 1 {
        '1'
    } else if d == 2 {
        '2'
    } else if d == 3 {
        '3'
    } else if d == 4 {
        '4'
    } else if d == 5 {
        '5'
    } else if d == 6 {
        '6'
    } else if d == 7 {
        '7'
    } else if d == 8 {
        '8'
    } else {
        '9'
    }
}

/// Append the decimal digits of an unsigned value.
pub fn push_dec_u64(out: &mut Vec<char>, n: u64)
    ensures
        final(out)@ == old(out)@ + dec_digits(n as nat),
    decreases n,
{
    if n < 10 {
        let c = digit_to_char(n);
        out.push(c);
        proof {
            assert(old(out)@ + dec_digits(n as nat) =~= old(out)@.push(c));
        }
    } else {
        push_dec_u64(out, n / 10);
        let c = digit_to_char(n % 10);
        out.push(c);
        proof {
            assert(old(out)@ + dec_digits((n / 10) as nat) + seq![c] =~= old(out)@ + dec_digits(
                n as nat,
            ));
        }
    }
}

/// Append the decimal rendering of a signed value.
pub fn push_dec_i64(out: &mut Vec<char>, v: i64)
    ensures
        final(out)@ == old(out)@ + int_dec(v as int),
{
    if v >= 0 {
        push_dec_u64(out, v as u64);
    } else {
        out.push('-');
        let m: u64 = if v == i64::MIN {
            9223372036854775808u64
        } else {
            (-v) as u64
        };
        assert(m as nat == (-(v as int)) as nat);
        push_dec_u64(out, m);
        proof {
            assert(old(out)@ + seq!['-'] + dec_digits(m as nat) =~= old(out)@ + int_dec(v as int));
        }
    }
}

// ------------------------------------------------------------------
// Parsing
// ------------------------------------------------------------------

/// First position at or after `i` that does not hold a decimal digit.
pub open spec fn digits_end(s: Seq<char>, i: int) -> int
    decreases s.len() - i,
{
    if 0 <= i < s.len() && is_dec_digit(s[i]) {
        digits_end(s, i + 1)
    } else {
        i
    }
}

/// Recognise the exact literal at position `i`.
pub open spec fn parse_lit(s: Seq<char>, i: int, lit: Seq<char>) -> Option<int> {
    if 0 <= i && i + lit.len() <= s.len() && s.subrange(i, i + lit.len()) == lit {
        Some(i + lit.len())
    } else {
        None
    }
}

/// Parse a JSON string body from just after the opening quote through the
/// closing quote: the unescaped characters and the position after the
/// quote. Only the five escapes the encoder emits are accepted.
pub open spec fn parse_string_body(s: Seq<char>, i: int) -> Option<(Seq<char>, int)>
    decreases s.len() - i,
{
    if !(0 <= i < s.len()) {
        None
    } else if s[i] == '"' {
        Some((Seq::empty(), i + 1))
    } else if s[i] == '\\' {
        if i + 1 < s.len() {
            match unesc_char(s[i + 1]) {
                Some(d) => match parse_string_body(s, i + 2) {
                    Some(r) => Some((seq![d] + r.0, r.1)),
                    None => None,
                },
                None => None,
            }
        } else {
            None
        }
    } else {
        match parse_string_body(s, i + 1) {
            Some(r) => Some((seq![s[i]] + r.0, r.1)),
            None => None,
        }
    }
}

/// Parse a decimal 64-bit signed integer at position `i`: an optional
/// minus sign, then one to nineteen digits, with a value in range.
pub open spec fn parse_i64_at(s: Seq<char>, i: int) -> Option<(int, int)> {
    let neg = 0 <= i < s.len() && s[i] == '-';
    let j = if neg {
        i + 1
    } else {
        i
    };
    let e = digits_end(s, j);
    if !(0 <= i) || e == j || e - j > 19 {
        None
    } else {
        let mag = digits_val(s.subrange(j, e));
        let v = if neg {
            -mag
        } else {
            mag
        };
        if i64::MIN <= v <= i64::MAX {
            Some((v, e))
        } else {
            None
        }
    }
}

/// Parse `null` or a quoted string at position `i`.
pub open spec fn parse_opt_quoted(s: Seq<char>, i: int) -> Option<(Option<Seq<char>>, int)> {
    if parse_lit(s, i, "null"@) is Some {
        Some((None, i + 4))
    } else if 0 <= i < s.len() && s[i] == '"' {
        match parse_string_body(s, i + 1) {
            Some(r) => Some((Some(r.0), r.1)),
            None => None,
        }
    } else {
        None
    }
}

/// Scanning a run of `m` digits bounded by a non-digit (or the end) stops
/// exactly after the run.
pub proof fn lemma_digits_end_scan(s: Seq<char>, i: int, m: int)
    requires
        0 <= i,
        0 <= m,
        i + m <= s.len(),
        forall|j: int| i <= j < i + m ==> is_dec_digit(#[trigger] s[j]),
        i + m == s.len() || !is_dec_digit(s[i + m]),
    ensures
        digits_end(s, i) == i + m,
    decreases m,
{
    if m > 0 {
        lemma_digits_end_scan(s, i + 1, m - 1);
    }
}

/// Round trip for integers: the decimal rendering of `v`, followed by a
/// non-digit, parses back to exactly `v`.
pub proof fn lemma_parse_int_dec(s: Seq<char>, i: int, v: int)
    requires
        i64::MIN <= v <= i64::MAX,
        0 <= i,
        i + int_dec(v).len() <= s.len(),
        s.subrange(i, i + int_dec(v).len() as int) == int_dec(v),
        i + int_dec(v).len() == s.len() || !is_dec_digit(s[i + int_dec(v).len()]),
    ensures
        parse_i64_at(s, i) == Some((v, i + int_dec(v).len() as int)),
{
    let mag: nat = if v < 0 {
        (-v) as nat
    } else {
        v as nat
    };
    lemma_dec_digits_shape(mag);
    assert(pow10(19) == 10_000_000_000_000_000_000) by {
        reveal_with_fuel(pow10, 20);
    }
    lemma_dec_digits_len(mag, 19);
    let d = dec_digits(mag);
    assert(!is_dec_digit('-'));
    if v < 0 {
        assert(int_dec(v) == seq!['-'] + d);
        let n = int_dec(v).len() as int;
        assert(forall|j: int| i <= j < i + n ==> #[trigger] s[j] == int_dec(v)[j - i]) by {
            assert(forall|j: int|
                i <= j < i + n ==> #[trigger] s[j] == s.subrange(i, i + n)[j - i]);
        }
        assert(s[i] == '-');
        assert(forall|j: int| i + 1 <= j < i + n ==> is_dec_digit(#[trigger] s[j])) by {
            assert(forall|j: int|
                i + 1 <= j < i + n ==> #[trigger] int_dec(v)[j - i] == d[j - i - 1]);
        }
        lemma_digits_end_scan(s, i + 1, n - 1);
        assert(s.subrange(i + 1, i + n) =~= d);
        assert(digits_end(s, i + 1) == i + n);
        assert(parse_i64_at(s, i) == Some((v, i + n)));
    } else {
        assert(int_dec(v) == d);
        let n = d.len() as int;
        assert(forall|j: int| i <= j < i + n ==> #[trigger] s[j] == d[j - i]) by {
            assert(forall|j: int|
                i <= j < i + n ==> #[trigger] s[j] == s.subrange(i, i + n)[j - i]);
        }
        assert(s.subrange(i, i + n) =~= d);
        assert(forall|j: int| i <= j < i + n ==> is_dec_digit(#[trigger] s[j]));
        assert(is_dec_digit(s[i]));
        assert(s[i] != '-');
        lemma_digits_end_scan(s, i, n);
        assert(parse_i64_at(s, i) == Some((v, i + n)));
    }
}

/// Round trip for strings: the escaped form of `v` followed by the closing
/// quote parses back to exactly `v`.
pub proof fn lemma_parse_esc(s: Seq<char>, i: int, v: Seq<char>)
    requires
        0 <= i,
        i + esc_str(v).len() + 1 <= s.len(),
        s.subrange(i, i + esc_str(v).len() + 1) == esc_str(v) + seq!['"'],
    ensures
        parse_string_body(s, i) == Some((v, i + esc_str(v).len() + 1)),
    decreases v.len(),
{
    if v.len() == 0 {
        assert(esc_str(v) =~= Seq::<char>::empty());
        assert(s[i] == (esc_str(v) + seq!['"'])[0]);
        assert(s[i] == '"');
        assert(v =~= Seq::<char>::empty());
    } else {
        let c = v[0];
        let rest = v.drop_first();
        let ec = esc_char(c);
        let er = esc_str(rest);
        assert(esc_str(v) == ec + er);
        let el = ec.len() as int;
        let total = esc_str(v).len() as int;
        assert(esc_str(v) + seq!['"'] =~= ec + (er + seq!['"']));
        assert(forall|j: int|
            i <= j < i + total + 1 ==> #[trigger] s[j] == (ec + (er + seq!['"']))[j - i]) by {
            assert(forall|j: int|
                i <= j < i + total + 1 ==> #[trigger] s[j] == s.subrange(i, i + total + 1)[j - i]);
        }
        assert(s.subrange(i + el, i + el + er.len() + 1) =~= er + seq!['"']);
        lemma_parse_esc(s, i + el, rest);
        assert(seq![c] + rest =~= v);
        if el == 1 {
            assert(ec == seq![c]);
            assert(s[i] == c);
            assert(c != '"' && c != '\\');
            assert(parse_string_body(s, i) == Some((v, i + esc_str(v).len() + 1)));
        } else {
            assert(ec[0] == '\\' && s[i] == '\\');
            assert(s[i + 1] == ec[1]);
            assert(unesc_char(ec[1]) == Some(c));
            assert(parse_string_body(s, i) == Some((v, i + esc_str(v).len() + 1)));
        }
    }
}

// ------------------------------------------------------------------
// Executable parsers
// ------------------------------------------------------------------

fn is_digit_exec(c: char) -> (r: bool)
    ensures
        r == is_dec_digit(c),
{
    c >= '0' && c <= '9'
}

fn char_digit_val(c: char) -> (d: u64)
    requires
        is_dec_digit(c),
    ensures
        d as int == digit_val(c),
        d <= 9,
{
    ((c as u32) - ('0' as u32)) as u64
}

/// Recognise the exact literal at the given position.
pub fn expect_lit(s: &Vec<char>, from: usize, lit: &str) -> (r: Option<usize>)
    requires
        from <= s@.len(),
    ensures
        match r {
            Some(e) => parse_lit(s@, from as int, lit@) == Some(e as int) && e <= s@.len(),
            None => parse_lit(s@, from as int, lit@) is None,
        },
{
    let n = lit.unicode_len();
    let sl = s.len();
    if n > sl - from {
        return None;
    }
    let mut j: usize = 0;
    while j < n
        invariant
            j <= n,
            n as nat == lit@.len(),
            from + n <= sl,
            sl as nat == s@.len(),
            forall|t: int| 0 <= t < j ==> s@[from + t] == lit@[t],
        decreases n - j,
    {
        let c = lit.get_char(j);
        if s[from + j] != c {
            proof {
                assert(s@.subrange(from as int, from + lit@.len()) != lit@) by {
                    let sub = s@.subrange(from as int, from + lit@.len());
                    if sub == lit@ {
                        assert(sub[j as int] == lit@[j as int]);
                    }
                }
            }
            return None;
        }
        j = j + 1;
    }
    proof {
        assert(s@.subrange(from as int, from + lit@.len()) =~= lit@);
    }
    Some(from + n)
}

/// Parse a string body from just after the opening quote, exactly as
/// `parse_string_body` says.
pub fn parse_string_exec(s: &Vec<char>, from: usize) -> (r: Option<(String, usize)>)
    requires
        from <= s@.len(),
    ensures
        match r {
            Some(p) => parse_string_body(s@, from as int) == Some((p.0@, p.1 as int)) && p.1
                <= s@.len(),
            None => parse_string_body(s@, from as int) is None,
        },
{
    let mut i = from;
    let mut out: Vec<char> = Vec::new();
    while i < s.len()
        invariant
            from <= i <= s@.len(),
            parse_string_body(s@, from as int) == (match parse_string_body(s@, i as int) {
                Some(q) => Some((out@ + q.0, q.1)),
                None => None::<(Seq<char>, int)>,
            }),
        decreases s@.len() - i,
    {
        let c = s[i];
        if c == '"' {
            proof {
                assert(parse_string_body(s@, i as int) == Some((Seq::<char>::empty(), i + 1)));
                assert(out@ + Seq::<char>::empty() =~= out@);
            }
            let text = chars_to_string(&out);
            return Some((text, i + 1));
        } else if c == '\\' {
            if i + 1 >= s.len() {
                return None;
            }
            let x = s[i + 1];
            let d: char;
            if x == '"' {
                d = '"';
            } else if x == '\\' {
                d = '\\';
            } else if x == 'n' {
                d = '\n';
            } else if x == 'r' {
                d = '\r';
            } else if x == 't' {
                d = '\t';
            } else {
                return None;
            }
            proof {
                assert(unesc_char(x) == Some(d));
                match parse_string_body(s@, i + 2) {
                    Some(q) => {
                        assert(out@ + (seq![d] + q.0) =~= out@.push(d) + q.0);
                    },
                    None => {},
                }
            }
            out.push(d);
            i = i + 2;
        } else {
            proof {
                match parse_string_body(s@, i + 1) {
                    Some(q) => {
                        assert(out@ + (seq![c] + q.0) =~= out@.push(c) + q.0);
                    },
                    None => {},
                }
            }
            out.push(c);
            i = i + 1;
        }
    }
    None
}

/// Parse a decimal 64-bit signed integer, exactly as `parse_i64_at` says.
pub fn parse_i64_exec(s: &Vec<char>, from: usize) -> (r: Option<(i64, usize)>)
    requires
        from <= s@.len(),
    ensures
        match r {
            Some(p) => parse_i64_at(s@, from as int) == Some((p.0 as int, p.1 as int)) && p.1
                <= s@.len(),
            None => parse_i64_at(s@, from as int) is None,
        },
{
    let neg = from < s.len() && s[from] == '-';
    let j = if neg {
        from + 1
    } else {
        from
    };
    let mut e = j;
    while e < s.len() && is_digit_exec(s[e])
        invariant
            j <= e <= s@.len(),
            digits_end(s@, j as int) == digits_end(s@, e as int),
            forall|t: int| j <= t < e ==> is_dec_digit(#[trigger] s@[t]),
        decreases s@.len() - e,
    {
        proof {
            assert(digits_end(s@, e as int) == digits_end(s@, e + 1));
        }
        e = e + 1;
    }
    proof {
        assert(digits_end(s@, e as int) == e as int);
    }
    if e == j {
        return None;
    }
    if e - j > 19 {
        return None;
    }
    let mut mag: u64 = 0;
    let mut p = j;
    proof {
        assert(s@.subrange(j as int, j as int) =~= Seq::<char>::empty());
    }
    while p < e
        invariant
            j <= p <= e,
            e <= s@.len(),
            e - j <= 19,
            forall|t: int| j <= t < e ==> is_dec_digit(#[trigger] s@[t]),
            mag as int == digits_val(s@.subrange(j as int, p as int)),
            mag < pow10((p - j) as nat),
        decreases e - p,
    {
        let c = s[p];
        let d = char_digit_val(c);
        proof {
            lemma_pow10_mono((p - j) as nat, 18);
            assert(pow10(18) == 1_000_000_000_000_000_000) by {
                reveal_with_fuel(pow10, 19);
            }
            assert(s@.subrange(j as int, p + 1).drop_last() =~= s@.subrange(j as int, p as int));
            assert(s@.subrange(j as int, p + 1).last() == s@[p as int]);
            assert(pow10((p + 1 - j) as nat) == 10 * pow10((p - j) as nat));
        }
        mag = mag * 10 + d;
        p = p + 1;
    }
    proof {
        assert(s@.subrange(j as int, e as int) == s@.subrange(j as int, p as int));
    }
    if neg {
        if mag > 9223372036854775808u64 {
            return None;
        }
        let v: i64 = if mag == 9223372036854775808u64 {
            i64::MIN
        } else {
            -(mag as i64)
        };
        Some((v, e))
    } else {
        if mag > 9223372036854775807u64 {
            return None;
        }
        Some((mag as i64, e))
    }
}

} // verus!
