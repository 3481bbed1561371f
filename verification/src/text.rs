//! Small text utilities shared by the library.
use vstd::prelude::*;

verus! {

/// Append one character to a string.
/// Trusted: std's `String::push`, which appends the character at the end.
#[verifier::external_body]
pub(crate) fn push_char(s: &mut String, c: char)
    ensures
        final(s)@ == old(s)@.push(c),
{
    s.push(c);
}

/// Equality of two string slices.
/// Trusted: std's `==` on `str`, which compares the characters.
#[verifier::external_body]
pub(crate) fn str_eq(a: &str, b: &str) -> (r: bool)
    ensures
        r == (a@ == b@),
{
    a == b
}

/// The characters of a string slice, in order.
pub fn chars_of(s: &str) -> (v: Vec<char>)
    ensures
        v@ == s@,
{
    let mut v: Vec<char> = Vec::new();
    for c in it: s.chars()
        invariant
            v@ == it.seq().take(it.index() as int),
    {
        v.push(c);
    }
    v
}

/// The text of a character sequence as a string.
pub fn string_of(v: &[char]) -> (s: String)
    ensures
        s@ == v@,
{
    let mut s = String::new();
    let mut i: usize = 0;
    while i < v.len()
        invariant
            i <= v@.len(),
            s@ == v@.take(i as int),
        decreases v@.len() - i,
    {
        push_char(&mut s, v[i]);
        assert(v@.take(i as int + 1) =~= v@.take(i as int).push(v@[i as int]));
        i = i + 1;
    }
    assert(v@.take(v@.len() as int) =~= v@);
    s
}

/// Append the characters `v[lo..hi]` to a string.
pub fn push_range(mut result: String, v: &Vec<char>, lo: usize, hi: usize) -> (r: String)
    requires
        lo <= hi <= v@.len(),
    ensures
        r@ == result@ + v@.subrange(lo as int, hi as int),
{
    let ghost start = result@;
    let mut i = lo;
    while i < hi
        invariant
            lo <= i <= hi <= v@.len(),
            result@ == start + v@.subrange(lo as int, i as int),
        decreases hi - i,
    {
        push_char(&mut result, v[i]);
        assert(v@.subrange(lo as int, i as int + 1) =~= v@.subrange(lo as int, i as int).push(v@[i as int]));
        i = i + 1;
    }
    result
}

/// The html encoding of one character inside a quoted attribute.
pub open spec fn quoted_attribute_char(c: char) -> Seq<char> {
    if c == '&' {
        seq!['&', 'a', 'm', 'p', ';']
    } else if c == '<' {
        seq!['&', 'l', 't', ';']
    } else if c == '>' {
        seq!['&', 'g', 't', ';']
    } else if c == '"' {
        seq!['&', 'q', 'u', 'o', 't', ';']
    } else if c == '\'' {
        seq!['&', '#', 'x', '2', '7', ';']
    } else {
        seq![c]
    }
}

/// Text encoded for a quoted html attribute: `& < > " '` become entities.
pub open spec fn spec_encode_quoted_attribute(s: Seq<char>) -> Seq<char>
    decreases s.len(),
{
    if s.len() == 0 {
        seq![]
    } else {
        spec_encode_quoted_attribute(s.drop_last()) + quoted_attribute_char(s.last())
    }
}

/// Encode text for use inside a quoted html attribute.
/// Trusted: `html_escape::encode_quoted_attribute`, which replaces `&`, `<`, `>`, `"` and `'`
/// by `&amp;`, `&lt;`, `&gt;`, `&quot;` and `&#x27;` and keeps every other character.
#[verifier::external_body]
pub(crate) fn encode_quoted_attribute(s: &str) -> (r: String)
    ensures
        r@ == spec_encode_quoted_attribute(s@),
{
    html_escape::encode_quoted_attribute(s).into_owned()
}

} // verus!

verus! {

/// The character of a decimal digit.
pub open spec fn digit_char(d: int) -> char {
    ((d + 48) as u8) as char
}

/// The decimal digits of a natural number (no leading zeros; `0` for zero).
pub open spec fn decimal_digits(n: nat) -> Seq<char>
    decreases n,
{
    if n < 10 {
        seq![digit_char(n as int)]
    } else {
        decimal_digits(n / 10) + seq![digit_char((n % 10) as int)]
    }
}

/// The decimal text of an integer, with a leading `-` when negative (as `{}` formats it).
pub open spec fn decimal_text(n: int) -> Seq<char> {
    if n < 0 {
        seq!['-'] + decimal_digits((-n) as nat)
    } else {
        decimal_digits(n as nat)
    }
}

fn digit_exec(d: u64) -> (c: char)
    requires
        d < 10,
    ensures
        c == digit_char(d as int),
{
    ((d as u8) + 48u8) as char
}

/// Append the decimal digits of `u`.
pub fn push_decimal_digits(mut result: String, u: u64) -> (r: String)
    ensures
        r@ == result@ + decimal_digits(u as nat),
{
    let ghost start = result@;
    let mut m = u;
    let mut rev: Vec<char> = Vec::new();
    while m >= 10
        invariant
            decimal_digits(u as nat) == decimal_digits(m as nat) + rev@.reverse(),
        decreases m,
    {
        let d = digit_exec(m % 10);
        let ghost old_rev = rev@;
        rev.push(d);
        assert(rev@.reverse() =~= seq![d] + old_rev.reverse());
        assert(decimal_digits(m as nat) == decimal_digits((m / 10) as nat) + seq![d]);
        assert(decimal_digits(u as nat) =~= decimal_digits((m / 10) as nat) + rev@.reverse());
        m = m / 10;
    }
    push_char(&mut result, digit_exec(m));
    let mut i = rev.len();
    while i > 0
        invariant
            i <= rev@.len(),
            result@ == start + seq![digit_char(m as int)] + rev@.reverse().take((rev@.len() - i) as int),
        decreases i,
    {
        i = i - 1;
        push_char(&mut result, rev[i]);
        assert(rev@.reverse().take((rev@.len() - i) as int) =~= rev@.reverse().take((rev@.len() - i - 1) as int).push(rev@[i as int]));
    }
    assert(rev@.reverse().take(rev@.len() as int) =~= rev@.reverse());
    assert(result@ =~= start + decimal_digits(u as nat));
    result
}

/// Append the decimal text of `n`.
pub fn push_decimal(result: String, n: i64) -> (r: String)
    ensures
        r@ == result@ + decimal_text(n as int),
{
    if n < 0 {
        let mut result = result;
        let ghost start = result@;
        push_char(&mut result, '-');
        let u: u64 = ((-(n + 1)) as u64) + 1;
        let r = push_decimal_digits(result, u);
        assert(r@ =~= start + decimal_text(n as int));
        r
    } else {
        push_decimal_digits(result, n as u64)
    }
}

/// The decimal text of `n`, as `{}` formats it.
pub fn decimal_string(n: i64) -> (r: String)
    ensures
        r@ == decimal_text(n as int),
{
    let r = push_decimal(String::new(), n);
    assert(r@ =~= decimal_text(n as int));
    r
}


proof fn lemma_digit_char(d: int)
    requires
        0 <= d < 10,
    ensures
        digit_char(d) as u32 == d + 48,
{
    let b: u8 = (d + 48) as u8;
    assert(b as int == d + 48);
    assert((b as char) as u32 == b as u32);
}

proof fn lemma_decimal_digits_shape(n: nat)
    ensures
        decimal_digits(n).len() >= 1,
        n >= 10 ==> decimal_digits(n).len() >= 2,
        forall|i: int| 0 <= i < decimal_digits(n).len() ==> 48 <= (#[trigger] decimal_digits(n)[i]) as u32 <= 57,
    decreases n,
{
    if n < 10 {
        lemma_digit_char(n as int);
    } else {
        lemma_decimal_digits_shape(n / 10);
        lemma_digit_char((n % 10) as int);
        let a = decimal_digits(n / 10);
        let b = seq![digit_char((n % 10) as int)];
        assert forall|i: int| 0 <= i < decimal_digits(n).len() implies 48 <= (#[trigger] decimal_digits(n)[i]) as u32 <= 57 by {
            if i < a.len() {
                assert(decimal_digits(n)[i] == a[i]);
            } else {
                assert(decimal_digits(n)[i] == b[i - a.len()]);
            }
        }
    }
}

/// Different natural numbers have different decimal digits.
pub proof fn lemma_decimal_digits_injective(a: nat, b: nat)
    requires
        decimal_digits(a) == decimal_digits(b),
    ensures
        a == b,
    decreases a,
{
    lemma_decimal_digits_shape(a);
    lemma_decimal_digits_shape(b);
    if a < 10 && b < 10 {
        lemma_digit_char(a as int);
        lemma_digit_char(b as int);
        assert(decimal_digits(a)[0] == digit_char(a as int));
        assert(decimal_digits(b)[0] == digit_char(b as int));
    } else if a >= 10 && b >= 10 {
        let da = decimal_digits(a);
        let db = decimal_digits(b);
        assert(da.drop_last() =~= decimal_digits(a / 10));
        assert(db.drop_last() =~= decimal_digits(b / 10));
        lemma_decimal_digits_injective(a / 10, b / 10);
        lemma_digit_char((a % 10) as int);
        lemma_digit_char((b % 10) as int);
        assert(da.last() == digit_char((a % 10) as int));
        assert(db.last() == digit_char((b % 10) as int));
    } else {
        assert(decimal_digits(a).len() != decimal_digits(b).len());
    }
}

/// Different integers have different decimal texts.
pub proof fn lemma_decimal_text_injective(a: int, b: int)
    requires
        decimal_text(a) == decimal_text(b),
    ensures
        a == b,
{
    if a < 0 && b < 0 {
        assert(decimal_text(a).drop_first() =~= decimal_digits((-a) as nat));
        assert(decimal_text(b).drop_first() =~= decimal_digits((-b) as nat));
        lemma_decimal_digits_injective((-a) as nat, (-b) as nat);
    } else if a >= 0 && b >= 0 {
        lemma_decimal_digits_injective(a as nat, b as nat);
    } else if a < 0 {
        lemma_decimal_digits_shape(b as nat);
        assert(decimal_text(a)[0] == '-');
        assert(decimal_text(b)[0] == decimal_digits(b as nat)[0]);
    } else {
        lemma_decimal_digits_shape(a as nat);
        assert(decimal_text(b)[0] == '-');
        assert(decimal_text(a)[0] == decimal_digits(a as nat)[0]);
    }
}

} // verus!
