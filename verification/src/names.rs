use vstd::prelude::*;

verus! {

/// Whether the Unicode `Uppercase` property holds of `c`, as the tables
/// behind `char::is_uppercase` fix it.
pub uninterp spec fn is_upper_char(c: char) -> bool;

/// The first character of the Unicode lowercase mapping of `c`, or `c`
/// itself where that mapping yields nothing new.
pub uninterp spec fn lower_char(c: char) -> char;

/// The first character of the Unicode uppercase mapping of `c`, or `c`
/// itself where that mapping yields nothing new.
pub uninterp spec fn upper_char(c: char) -> char;

/// Relies on char::is_uppercase: the result depends on the character alone,
/// and on the ASCII range the Uppercase property holds exactly of 'A'..='Z'.
#[verifier::external_body]
pub(crate) fn char_is_uppercase(c: char) -> (r: bool)
    ensures
        r == is_upper_char(c),
        r == if (c as u32) < 128 {
            65 <= c as u32 && c as u32 <= 90
        } else {
            is_upper_char(c)
        },
{
    c.is_uppercase()
}

/// Relies on char::to_lowercase, taking the first character it yields (the
/// result depends on the character alone); on the ASCII range it maps
/// 'A'..='Z' down by 32 and leaves every other character unchanged.
#[verifier::external_body]
pub(crate) fn char_to_lower(c: char) -> (r: char)
    ensures
        r == lower_char(c),
        65 <= c as u32 && c as u32 <= 90 ==> r as u32 == c as u32 + 32,
        (c as u32) < 128 && !(65 <= c as u32 && c as u32 <= 90) ==> r == c,
{
    c.to_lowercase().next().unwrap_or(c)
}

/// Relies on char::to_uppercase, taking the first character it yields (the
/// result depends on the character alone); on the ASCII range it maps
/// 'a'..='z' up by 32 and leaves every other character unchanged.
#[verifier::external_body]
fn char_to_upper(c: char) -> (r: char)
    ensures
        r == upper_char(c),
        97 <= c as u32 && c as u32 <= 122 ==> r as u32 == c as u32 - 32,
        (c as u32) < 128 && !(97 <= c as u32 && c as u32 <= 122) ==> r == c,
{
    c.to_uppercase().next().unwrap_or(c)
}

/// Relies on Iterator::collect for String: collecting characters yields the
/// string holding exactly those characters in order.
#[verifier::external_body]
pub(crate) fn chars_to_string(v: &Vec<char>) -> (r: String)
    ensures
        r@ == v@,
{
    v.iter().collect()
}

/// The snake_case form of a name: every uppercase character is lowercased,
/// and, except at the start, preceded by an underscore.
pub open spec fn snake_text(s: Seq<char>) -> Seq<char>
    decreases s.len(),
{
    if s.len() == 0 {
        Seq::empty()
    } else {
        let c = s.last();
        snake_text(s.drop_last()) + (if is_upper_char(c) && s.len() > 1 {
            seq!['_', lower_char(c)]
        } else {
            seq![lower_char(c)]
        })
    }
}

/// Rewrites a camelCase or PascalCase name to snake_case: an uppercase
/// character anywhere but first gains a leading underscore, and every
/// character is lowercased.
pub fn to_snake_case(s: &str) -> (r: String)
    ensures
        r@ == snake_text(s@),
{
    let n = s.unicode_len();
    let mut out: Vec<char> = Vec::new();
    let mut i: usize = 0;
    while i < n
        invariant
            n == s@.len(),
            i <= n,
            out@ == snake_text(s@.take(i as int)),
        decreases n - i,
    {
        let c = s.get_char(i);
        if char_is_uppercase(c) && i > 0 {
            out.push('_');
        }
        out.push(char_to_lower(c));
        proof {
            assert(s@.take(i + 1 as int).drop_last() =~= s@.take(i as int));
            assert(s@.take(i + 1 as int).last() == c);
            assert(out@ =~= snake_text(s@.take(i + 1 as int)));
        }
        i = i + 1;
    }
    proof {
        assert(s@.take(n as int) =~= s@);
    }
    chars_to_string(&out)
}

/// Whether `c` separates words in a name to be pascal-cased.
pub open spec fn is_word_sep(c: char) -> bool {
    c == '_' || c == '-' || c == ' '
}

/// The PascalCase form of a name, read left to right: separators are
/// dropped, the first character after a separator (or at the start) is
/// uppercased, and the rest pass through unchanged. `start` says whether
/// the next character begins a word.
pub open spec fn pascal_text(s: Seq<char>, start: bool) -> Seq<char>
    decreases s.len(),
{
    if s.len() == 0 {
        Seq::empty()
    } else {
        let c = s.first();
        if is_word_sep(c) {
            pascal_text(s.drop_first(), true)
        } else if start {
            seq![upper_char(c)] + pascal_text(s.drop_first(), false)
        } else {
            seq![c] + pascal_text(s.drop_first(), false)
        }
    }
}

/// Rewrites a name to PascalCase: words split at '_', '-' or ' ' are joined
/// with their first character uppercased.
pub fn to_pascal_case(s: &str) -> (r: String)
    ensures
        r@ == pascal_text(s@, true),
{
    let n = s.unicode_len();
    let mut out: Vec<char> = Vec::new();
    let mut start: bool = true;
    let mut i: usize = 0;
    proof {
        assert(s@.skip(0) =~= s@);
        assert(out@ + pascal_text(s@, true) =~= pascal_text(s@, true));
    }
    while i < n
        invariant
            n == s@.len(),
            i <= n,
            out@ + pascal_text(s@.skip(i as int), start) == pascal_text(s@, true),
        decreases n - i,
    {
        let c = s.get_char(i);
        proof {
            assert(s@.skip(i as int).drop_first() =~= s@.skip(i + 1 as int));
            assert(s@.skip(i as int).first() == c);
        }
        if c == '_' || c == '-' || c == ' ' {
            proof {
                assert(out@ + pascal_text(s@.skip(i + 1 as int), true) =~= pascal_text(s@, true));
            }
            start = true;
        } else if start {
            out.push(char_to_upper(c));
            proof {
                assert(out@ + pascal_text(s@.skip(i + 1 as int), false) =~= pascal_text(s@, true));
            }
            start = false;
        } else {
            out.push(c);
            proof {
                assert(out@ + pascal_text(s@.skip(i + 1 as int), false) =~= pascal_text(s@, true));
            }
        }
        i = i + 1;
    }
    proof {
        assert(s@.skip(n as int) =~= Seq::<char>::empty());
        assert(out@ =~= pascal_text(s@, true));
    }
    chars_to_string(&out)
}

} // verus!
