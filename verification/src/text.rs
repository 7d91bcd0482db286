use vstd::prelude::*;

use crate::names::chars_to_string;
use crate::names::lower_char;

verus! {

/// Two runs of tokens side by side: a single space separates them, and an
/// empty run disappears, as in a token stream's rendering.
pub open spec fn join_tok(a: Seq<char>, b: Seq<char>) -> Seq<char> {
    if a.len() == 0 {
        b
    } else if b.len() == 0 {
        a
    } else {
        a + " "@ + b
    }
}

/// A brace group around a run of tokens; an empty group keeps one inner
/// space.
pub open spec fn brace_wrap(inner: Seq<char>) -> Seq<char> {
    if inner.len() == 0 {
        "{ }"@
    } else {
        "{ "@ + inner + " }"@
    }
}

/// Appends a run of tokens to `out`, separating the two runs by one space
/// when both are nonempty.
pub fn append_tok(out: &mut String, piece: &str)
    ensures
        final(out)@ == join_tok(old(out)@, piece@),
{
    if piece.unicode_len() > 0 {
        if out.as_str().unicode_len() > 0 {
            out.append(" ");
        }
        out.append(piece);
    }
}

/// Wraps a run of tokens in braces.
pub fn braced(inner: &str) -> (r: String)
    ensures
        r@ == brace_wrap(inner@),
{
    if inner.unicode_len() == 0 {
        String::from_str("{ }")
    } else {
        let mut out = String::from_str("{ ");
        out.append(inner);
        out.append(" }");
        out
    }
}

/// The escaped form of one character inside a generated string literal.
pub open spec fn esc_char(c: char) -> Seq<char> {
    if c == '"' {
        seq!['\\', '"']
    } else if c == '\\' {
        seq!['\\', '\\']
    } else if c == '\n' {
        seq!['\\', 'n']
    } else if c == '\r' {
        seq!['\\', 'r']
    } else if c == '\t' {
        seq!['\\', 't']
    } else {
        seq![c]
    }
}

/// The body of a generated string literal: every character escaped.
pub open spec fn escape_text(s: Seq<char>) -> Seq<char>
    decreases s.len(),
{
    if s.len() == 0 {
        Seq::empty()
    } else {
        escape_text(s.drop_last()) + esc_char(s.last())
    }
}

/// A generated string literal, quotes and escapes included.
pub open spec fn lit_str_text(s: Seq<char>) -> Seq<char> {
    seq!['"'] + escape_text(s) + seq!['"']
}

fn push_escaped(out: &mut Vec<char>, c: char)
    ensures
        final(out)@ == old(out)@ + esc_char(c),
{
    if c == '"' {
        out.push('\\');
        out.push('"');
    } else if c == '\\' {
        out.push('\\');
        out.push('\\');
    } else if c == '\n' {
        out.push('\\');
        out.push('n');
    } else if c == '\r' {
        out.push('\\');
        out.push('r');
    } else if c == '\t' {
        out.push('\\');
        out.push('t');
    } else {
        out.push(c);
    }
    proof {
        assert(out@ =~= old(out)@ + esc_char(c));
    }
}

/// Renders a generated string literal from its raw text.
pub fn string_literal(s: &str) -> (r: String)
    ensures
        r@ == lit_str_text(s@),
{
    let n = s.unicode_len();
    let mut out: Vec<char> = Vec::new();
    out.push('"');
    let mut i: usize = 0;
    while i < n
        invariant
            n == s@.len(),
            i <= n,
            out@ == seq!['"'] + escape_text(s@.take(i as int)),
        decreases n - i,
    {
        let c = s.get_char(i);
        push_escaped(&mut out, c);
        proof {
            assert(s@.take(i + 1 as int).drop_last() =~= s@.take(i as int));
            assert(s@.take(i + 1 as int).last() == c);
            assert(out@ =~= seq!['"'] + escape_text(s@.take(i + 1 as int)));
        }
        i = i + 1;
    }
    out.push('"');
    proof {
        assert(s@.take(n as int) =~= s@);
        assert(out@ =~= lit_str_text(s@));
    }
    chars_to_string(&out)
}

/// Every character lowercased, one by one.
pub open spec fn lower_text(s: Seq<char>) -> Seq<char>
    decreases s.len(),
{
    if s.len() == 0 {
        Seq::empty()
    } else {
        lower_text(s.drop_last()) + seq![lower_char(s.last())]
    }
}

/// Lowercases a name character by character.
pub fn to_lower_text(s: &str) -> (r: String)
    ensures
        r@ == lower_text(s@),
{
    let n = s.unicode_len();
    let mut out: Vec<char> = Vec::new();
    let mut i: usize = 0;
    while i < n
        invariant
            n == s@.len(),
            i <= n,
            out@ == lower_text(s@.take(i as int)),
        decreases n - i,
    {
        out.push(crate::names::char_to_lower(s.get_char(i)));
        proof {
            assert(s@.take(i + 1 as int).drop_last() =~= s@.take(i as int));
            assert(s@.take(i + 1 as int).last() == s@[i as int]);
            assert(out@ =~= lower_text(s@.take(i + 1 as int)));
        }
        i = i + 1;
    }
    proof {
        assert(s@.take(n as int) =~= s@);
    }
    chars_to_string(&out)
}

/// The digits of a decimal numeral before its point: the whole-number part
/// used when the numeral indexes a collection.
pub open spec fn int_prefix(s: Seq<char>) -> Seq<char>
    decreases s.len(),
{
    if s.len() == 0 {
        Seq::empty()
    } else if s.first() == '.' {
        Seq::empty()
    } else {
        seq![s.first()] + int_prefix(s.drop_first())
    }
}

proof fn lemma_int_prefix_take(s: Seq<char>, i: int)
    requires
        0 <= i <= s.len(),
        forall|k: int| 0 <= k < i ==> s[k] != '.',
        i < s.len() ==> s[i] == '.',
    ensures
        int_prefix(s) == s.take(i),
    decreases i,
{
    if s.len() == 0 {
        assert(s.take(i) =~= Seq::<char>::empty());
    } else if i == 0 {
        assert(s.take(0) =~= Seq::<char>::empty());
    } else {
        lemma_int_prefix_take(s.drop_first(), i - 1);
        assert(s.take(i) =~= seq![s.first()] + s.drop_first().take(i - 1));
    }
}

/// The whole-number part of a decimal numeral's text.
pub fn int_prefix_of(s: &str) -> (r: String)
    ensures
        r@ == int_prefix(s@),
{
    let n = s.unicode_len();
    let mut out: Vec<char> = Vec::new();
    let mut i: usize = 0;
    while i < n
        invariant
            n == s@.len(),
            i <= n,
            forall|k: int| 0 <= k < i ==> s@[k] != '.',
            out@ == s@.take(i as int),
        decreases n - i,
    {
        let c = s.get_char(i);
        if c == '.' {
            proof {
                lemma_int_prefix_take(s@, i as int);
            }
            return chars_to_string(&out);
        }
        out.push(c);
        proof {
            assert(out@ =~= s@.take(i + 1 as int));
        }
        i = i + 1;
    }
    proof {
        lemma_int_prefix_take(s@, n as int);
        assert(s@.take(n as int) =~= s@);
    }
    chars_to_string(&out)
}


/// One decimal digit as text.
pub open spec fn digit_str(d: int) -> Seq<char> {
    if d == 0 {
        "0"@
    } else if d == 1 {
        "1"@
    } else if d == 2 {
        "2"@
    } else if d == 3 {
        "3"@
    } else if d == 4 {
        "4"@
    } else if d == 5 {
        "5"@
    } else if d == 6 {
        "6"@
    } else if d == 7 {
        "7"@
    } else if d == 8 {
        "8"@
    } else {
        "9"@
    }
}

/// The decimal numeral of a nonnegative number.
pub open spec fn udec_text(n: int) -> Seq<char>
    decreases n,
{
    if n < 10 {
        digit_str(n)
    } else {
        udec_text(n / 10) + digit_str(n % 10)
    }
}

fn append_digit(out: &mut String, d: u64)
    requires
        d < 10,
    ensures
        final(out)@ == old(out)@ + digit_str(d as int),
{
    if d == 0 {
        out.append("0");
    } else if d == 1 {
        out.append("1");
    } else if d == 2 {
        out.append("2");
    } else if d == 3 {
        out.append("3");
    } else if d == 4 {
        out.append("4");
    } else if d == 5 {
        out.append("5");
    } else if d == 6 {
        out.append("6");
    } else if d == 7 {
        out.append("7");
    } else if d == 8 {
        out.append("8");
    } else {
        out.append("9");
    }
}

/// Renders a nonnegative number in decimal.
pub fn u64_dec(x: u64) -> (r: String)
    ensures
        r@ == udec_text(x as int),
    decreases x,
{
    if x < 10 {
        let mut out = String::new();
        append_digit(&mut out, x);
        proof {
            assert(out@ =~= udec_text(x as int));
        }
        out
    } else {
        let mut out = u64_dec(x / 10);
        append_digit(&mut out, x % 10);
        out
    }
}

/// The decimal numeral of any number, with a sign for a negative one.
pub open spec fn idec_text(n: int) -> Seq<char> {
    if n < 0 {
        "-"@ + udec_text(-n)
    } else {
        udec_text(n)
    }
}

/// Renders a number in decimal, signed.
pub fn i64_dec(x: i64) -> (r: String)
    ensures
        r@ == idec_text(x as int),
{
    if x < 0 {
        let mut out = String::from_str("-");
        let mag: u64 = if x == i64::MIN {
            9223372036854775808u64
        } else {
            (-x) as u64
        };
        proof {
            assert(mag == -(x as int));
        }
        let d = u64_dec(mag);
        out.append(d.as_str());
        out
    } else {
        u64_dec(x as u64)
    }
}

/// Character-wise string equality, decided without assuming anything of the
/// standard library's comparison.
pub fn str_eq(a: &str, b: &str) -> (r: bool)
    ensures
        r == (a@ == b@),
{
    let n = a.unicode_len();
    let m = b.unicode_len();
    if n != m {
        proof {
            assert(a@ != b@);
        }
        return false;
    }
    let mut i: usize = 0;
    while i < n
        invariant
            n == a@.len(),
            n == b@.len(),
            i <= n,
            forall|k: int| 0 <= k < i ==> a@[k] == b@[k],
        decreases n - i,
    {
        if a.get_char(i) != b.get_char(i) {
            proof {
                assert(a@[i as int] != b@[i as int]);
            }
            return false;
        }
        i = i + 1;
    }
    proof {
        assert(a@ =~= b@);
    }
    true
}

} // verus!
