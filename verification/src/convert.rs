//! The conversion itself: drop every `_` and `-`, upper-case the first
//! character of each word, keep everything else exactly as it was.

use vstd::prelude::*;
use vstd::string::StrSliceExecFns;

verus! {

/// The two characters that separate words in the input.
pub open spec fn is_separator(c: char) -> bool {
    c == '_' || c == '-'
}

/// The characters `u8::is_ascii_whitespace` accepts: space, tab, line feed,
/// form feed, carriage return.
pub open spec fn is_ascii_whitespace_char(c: char) -> bool {
    c == ' ' || c == '\t' || c == '\n' || c == '\u{000C}' || c == '\r'
}

/// Whether `s` holds an ASCII whitespace character anywhere.
pub open spec fn contains_whitespace(s: Seq<char>) -> bool {
    exists|i: int| 0 <= i < s.len() && is_ascii_whitespace_char(s[i])
}

/// ASCII lower-case letter.
pub open spec fn is_ascii_lower(c: char) -> bool {
    97 <= c as u32 <= 122
}

/// ASCII upper-case letter.
pub open spec fn is_ascii_upper(c: char) -> bool {
    65 <= c as u32 <= 90
}

/// ASCII letter.
pub open spec fn is_ascii_alpha(c: char) -> bool {
    is_ascii_upper(c) || is_ascii_lower(c)
}

/// ASCII upper-casing of one character: `a`..`z` is mapped to `A`..`Z`,
/// every other character is left as it is.
pub open spec fn to_upper(c: char) -> char {
    if is_ascii_lower(c) {
        (c as u32 - 32) as char
    } else {
        c
    }
}

/// One word capitalized: the first character upper-cased, the rest untouched.
pub open spec fn capitalized(s: Seq<char>) -> Seq<char> {
    Seq::new(s.len(), |i: int| if i == 0 { to_upper(s[i]) } else { s[i] })
}

/// Relies on `String::push`: appends the one character `ch` at the end.
pub assume_specification[ String::push ](s: &mut String, ch: char)
    ensures
        final(s)@ == old(s)@.push(ch),
;

/// Upper-case one character, by the ASCII rule alone.
fn ascii_to_upper(c: char) -> (r: char)
    ensures
        r == to_upper(c),
{
    let x = c as u32;
    if 97 <= x && x <= 122 {
        ((x - 32) as u8) as char
    } else {
        c
    }
}

/// Upper-case the first character of `s`; every later character, whatever it
/// is, comes through unchanged.
pub fn capitalize_first_letter(s: &str) -> (r: String)
    ensures
        r@ == capitalized(s@),
        r@.len() == s@.len(),
        forall|i: int| 1 <= i < s@.len() ==> r@[i] == s@[i],
{
    let n = s.unicode_len();
    let mut out = String::new();
    let mut i: usize = 0;
    while i < n
        invariant
            n == s@.len(),
            i <= n,
            out@ == capitalized(s@).subrange(0, i as int),
        decreases n - i,
    {
        let c = s.get_char(i);
        let d = if i == 0 {
            ascii_to_upper(c)
        } else {
            c
        };
        out.push(d);
        proof {
            assert(out@ =~= capitalized(s@).subrange(0, i as int + 1));
        }
        i = i + 1;
    }
    proof {
        assert(capitalized(s@).subrange(0, n as int) =~= capitalized(s@));
    }
    out
}

/// What remains of the conversion when the walk stands at position `i` of
/// `s`, with `word_start` saying whether a separator (or the start of the
/// input) came just before: a separator is dropped and makes the next
/// character a word start; a word-start character is upper-cased; every
/// other character is kept as it is.
pub open spec fn pascal_from(s: Seq<char>, i: int, word_start: bool) -> Seq<char>
    decreases s.len() - i,
{
    if i < 0 || i >= s.len() {
        Seq::empty()
    } else if is_separator(s[i]) {
        pascal_from(s, i + 1, true)
    } else {
        seq![if word_start { to_upper(s[i]) } else { s[i] }] + pascal_from(s, i + 1, false)
    }
}

/// The whole conversion: `s` split at `_` and `-`, each word capitalized,
/// the capitalized words concatenated with nothing between them.
pub open spec fn pascal_case(s: Seq<char>) -> Seq<char> {
    pascal_from(s, 0, true)
}

/// Convert a word-separated identifier to its capitalized, separator-free
/// form. The caller vouches that the input holds no whitespace: passing text
/// with whitespace is a caller bug, a broken contract, and no result is owed
/// on it.
pub fn to_pascal_case(snake_case: &str) -> (r: String)
    requires
        !contains_whitespace(snake_case@),
    ensures
        r@ == pascal_case(snake_case@),
{
    let ghost s = snake_case@;
    let n = snake_case.unicode_len();
    let mut out = String::new();
    let mut word_start = true;
    let mut i: usize = 0;
    proof {
        assert(Seq::<char>::empty() + pascal_case(s) =~= pascal_case(s));
    }
    while i < n
        invariant
            n == s.len(),
            s == snake_case@,
            i <= n,
            pascal_case(s) == out@ + pascal_from(s, i as int, word_start),
        decreases n - i,
    {
        let c = snake_case.get_char(i);
        if c == '_' || c == '-' {
            word_start = true;
        } else {
            let d = if word_start {
                ascii_to_upper(c)
            } else {
                c
            };
            let ghost out0 = out@;
            let ghost rest = pascal_from(s, i as int + 1, false);
            out.push(d);
            proof {
                assert(out@ =~= out0 + seq![d]);
                assert(out0 + (seq![d] + rest) =~= (out0 + seq![d]) + rest);
            }
            word_start = false;
        }
        i = i + 1;
    }
    proof {
        assert(pascal_case(s) =~= out@);
    }
    out
}

/// How many separator characters stand in `s` from position `i` on.
pub open spec fn separator_count_from(s: Seq<char>, i: int) -> int
    decreases s.len() - i,
{
    if i < 0 || i >= s.len() {
        0
    } else {
        (if is_separator(s[i]) {
            1int
        } else {
            0int
        }) + separator_count_from(s, i + 1)
    }
}

/// How many separator characters stand in `s`.
pub open spec fn separator_count(s: Seq<char>) -> int {
    separator_count_from(s, 0)
}

/// Upper-casing twice is upper-casing once.
proof fn lemma_to_upper_idempotent(c: char)
    ensures
        to_upper(to_upper(c)) == to_upper(c),
{
    if is_ascii_lower(c) {
        assert(to_upper(c) as u32 == c as u32 - 32);
        assert(!is_ascii_lower(to_upper(c)));
    }
}

/// Capitalizing is idempotent: a word that is already capitalized comes back
/// unchanged.
pub proof fn lemma_capitalized_idempotent(s: Seq<char>)
    ensures
        capitalized(capitalized(s)) == capitalized(s),
{
    if s.len() > 0 {
        lemma_to_upper_idempotent(s[0]);
    }
    assert(capitalized(capitalized(s)) =~= capitalized(s));
}

/// No character of `s` is a separator.
pub open spec fn separator_free(s: Seq<char>) -> bool {
    forall|j: int| 0 <= j < s.len() ==> !is_separator(#[trigger] s[j])
}

proof fn lemma_pascal_from_separator_free(s: Seq<char>, i: int, word_start: bool)
    ensures
        separator_free(pascal_from(s, i, word_start)),
    decreases s.len() - i,
{
    if i < 0 || i >= s.len() {
        assert(separator_free(Seq::<char>::empty()));
    } else if is_separator(s[i]) {
        lemma_pascal_from_separator_free(s, i + 1, true);
    } else {
        lemma_pascal_from_separator_free(s, i + 1, false);
        let d = if word_start {
            to_upper(s[i])
        } else {
            s[i]
        };
        let rest = pascal_from(s, i + 1, false);
        if is_ascii_lower(s[i]) {
            assert(to_upper(s[i]) as u32 == s[i] as u32 - 32);
        }
        assert(!is_separator(d));
        assert forall|j: int| 0 <= j < (seq![d] + rest).len() implies !is_separator(
            (seq![d] + rest)[j],
        ) by {
            if j > 0 {
                assert((seq![d] + rest)[j] == rest[j - 1]);
            }
        }
        assert(separator_free(seq![d] + rest));
    }
}

/// The output holds no separator: every `_` and `-` is dropped, and
/// upper-casing never produces one.
pub proof fn lemma_pascal_case_separator_free(s: Seq<char>)
    ensures
        separator_free(pascal_case(s)),
{
    lemma_pascal_from_separator_free(s, 0, true);
}

proof fn lemma_pascal_from_len(s: Seq<char>, i: int, word_start: bool)
    requires
        0 <= i <= s.len(),
    ensures
        pascal_from(s, i, word_start).len() + separator_count_from(s, i) == s.len() - i,
    decreases s.len() - i,
{
    if i < s.len() {
        if is_separator(s[i]) {
            lemma_pascal_from_len(s, i + 1, true);
        } else {
            lemma_pascal_from_len(s, i + 1, false);
        }
    }
}

/// The output is exactly as long as the input minus the separators dropped.
pub proof fn lemma_pascal_case_len(s: Seq<char>)
    ensures
        pascal_case(s).len() + separator_count(s) == s.len(),
{
    lemma_pascal_from_len(s, 0, true);
}

/// The words of `s`: what stands between the separators, in order, the
/// separators themselves dropped. Adjacent separators, and a separator at
/// either end, give an empty word; a separator-free `s` is one single word,
/// so the list is never empty.
pub open spec fn words(s: Seq<char>) -> Seq<Seq<char>>
    decreases s.len(),
{
    if s.len() == 0 {
        seq![Seq::<char>::empty()]
    } else if is_separator(s[0]) {
        seq![Seq::<char>::empty()] + words(s.drop_first())
    } else {
        let rest = words(s.drop_first());
        seq![seq![s[0]] + rest[0]] + rest.drop_first()
    }
}

/// Each word capitalized, and the results concatenated with nothing between
/// them.
pub open spec fn concat_capitalized(ws: Seq<Seq<char>>) -> Seq<char>
    decreases ws.len(),
{
    if ws.len() == 0 {
        Seq::empty()
    } else {
        capitalized(ws[0]) + concat_capitalized(ws.drop_first())
    }
}

proof fn lemma_pascal_from_shift(s: Seq<char>, i: int, word_start: bool)
    requires
        s.len() >= 1,
        0 <= i,
    ensures
        pascal_from(s, i + 1, word_start) == pascal_from(s.drop_first(), i, word_start),
    decreases s.len() - i,
{
    let t = s.drop_first();
    if i + 1 < s.len() {
        assert(t[i] == s[i + 1]);
        if is_separator(s[i + 1]) {
            lemma_pascal_from_shift(s, i + 1, true);
        } else {
            lemma_pascal_from_shift(s, i + 1, false);
        }
    }
}

proof fn lemma_pascal_from_is_words(s: Seq<char>)
    ensures
        pascal_from(s, 0, true) == concat_capitalized(words(s)),
        pascal_from(s, 0, false) == words(s)[0] + concat_capitalized(words(s).drop_first()),
    decreases s.len(),
{
    if s.len() == 0 {
        assert(words(s) == seq![Seq::<char>::empty()]);
        assert(words(s).drop_first() =~= Seq::<Seq<char>>::empty());
        assert(capitalized(Seq::<char>::empty()) =~= Seq::<char>::empty());
        assert(concat_capitalized(Seq::<Seq<char>>::empty()) == Seq::<char>::empty());
        assert(concat_capitalized(words(s)) == capitalized(words(s)[0]) + concat_capitalized(
            words(s).drop_first(),
        ));
        assert(concat_capitalized(words(s)) =~= Seq::<char>::empty());
        assert(words(s)[0] + concat_capitalized(words(s).drop_first()) =~= Seq::<char>::empty());
        assert(pascal_from(s, 0, true) =~= Seq::<char>::empty());
        assert(pascal_from(s, 0, false) =~= Seq::<char>::empty());
    } else {
        let t = s.drop_first();
        lemma_pascal_from_is_words(t);
        lemma_pascal_from_shift(s, 0, true);
        lemma_pascal_from_shift(s, 0, false);
        if is_separator(s[0]) {
            assert(words(s) == seq![Seq::<char>::empty()] + words(t));
            assert(words(s)[0] =~= Seq::<char>::empty());
            assert(words(s).drop_first() =~= words(t));
            assert(pascal_from(s, 0, true) == pascal_from(s, 1, true));
            assert(pascal_from(s, 1, true) == pascal_from(t, 0, true));
            assert(capitalized(Seq::<char>::empty()) =~= Seq::<char>::empty());
            assert(concat_capitalized(words(s)) == capitalized(words(s)[0])
                + concat_capitalized(words(s).drop_first()));
            assert(concat_capitalized(words(s)) =~= concat_capitalized(words(t)));
            assert(words(s)[0] + concat_capitalized(words(s).drop_first()) =~= concat_capitalized(
                words(t),
            ));
        } else {
            let rest = words(t);
            let w0 = seq![s[0]] + rest[0];
            assert(words(s) == seq![w0] + rest.drop_first());
            assert(words(s)[0] == w0);
            assert(words(s).drop_first() =~= rest.drop_first());
            // the `true` side: the first character is a word start
            assert(pascal_from(s, 0, true) == seq![to_upper(s[0])] + pascal_from(s, 1, false));
            assert(pascal_from(s, 1, false) == pascal_from(t, 0, false));
            assert(pascal_from(t, 0, false) == rest[0] + concat_capitalized(rest.drop_first()));
            assert(capitalized(w0) =~= seq![to_upper(s[0])] + rest[0]);
            assert(concat_capitalized(words(s)) == capitalized(w0) + concat_capitalized(
                rest.drop_first(),
            ));
            assert(pascal_from(s, 0, true) =~= (seq![to_upper(s[0])] + rest[0])
                + concat_capitalized(rest.drop_first()));
            assert(pascal_from(s, 0, true) =~= concat_capitalized(words(s)));
            // the `false` side: the first character stands inside a word
            assert(pascal_from(s, 0, false) == seq![s[0]] + pascal_from(s, 1, false));
            assert(pascal_from(s, 0, false) =~= (seq![s[0]] + rest[0]) + concat_capitalized(
                rest.drop_first(),
            ));
            assert(pascal_from(s, 0, false) =~= words(s)[0] + concat_capitalized(
                words(s).drop_first(),
            ));
        }
    }
}

/// The conversion is word-by-word: what `to_pascal_case` returns is exactly
/// the words of the input, each capitalized as `capitalize_first_letter`
/// capitalizes, concatenated in their original order.
pub proof fn lemma_pascal_case_is_capitalized_words(s: Seq<char>)
    ensures
        pascal_case(s) == concat_capitalized(words(s)),
{
    lemma_pascal_from_is_words(s);
}

/// Every character of `s` is an ASCII letter or a separator.
pub open spec fn letters_and_separators(s: Seq<char>) -> bool {
    forall|i: int| 0 <= i < s.len() ==> is_ascii_alpha(#[trigger] s[i]) || is_separator(s[i])
}

/// Every character of `s` is an ASCII letter.
pub open spec fn all_letters(s: Seq<char>) -> bool {
    forall|j: int| 0 <= j < s.len() ==> is_ascii_alpha(#[trigger] s[j])
}

/// An input made of ASCII letters and separators alone holds no whitespace,
/// so it meets `to_pascal_case`'s precondition: on such an input the
/// conversion never aborts.
pub proof fn lemma_letters_and_separators_hold_no_whitespace(s: Seq<char>)
    requires
        letters_and_separators(s),
    ensures
        !contains_whitespace(s),
{
    assert forall|i: int| 0 <= i < s.len() implies !is_ascii_whitespace_char(s[i]) by {
        assert(is_ascii_alpha(s[i]) || is_separator(s[i]));
    }
}

proof fn lemma_pascal_from_letters(s: Seq<char>, i: int, word_start: bool)
    requires
        letters_and_separators(s),
    ensures
        all_letters(pascal_from(s, i, word_start)),
    decreases s.len() - i,
{
    if i < 0 || i >= s.len() {
        assert(all_letters(Seq::<char>::empty()));
    } else if is_separator(s[i]) {
        lemma_pascal_from_letters(s, i + 1, true);
    } else {
        lemma_pascal_from_letters(s, i + 1, false);
        let d = if word_start {
            to_upper(s[i])
        } else {
            s[i]
        };
        let rest = pascal_from(s, i + 1, false);
        if is_ascii_lower(s[i]) {
            assert(to_upper(s[i]) as u32 == s[i] as u32 - 32);
        }
        assert(is_ascii_alpha(d));
        assert forall|j: int| 0 <= j < (seq![d] + rest).len() implies is_ascii_alpha(
            (seq![d] + rest)[j],
        ) by {
            if j > 0 {
                assert((seq![d] + rest)[j] == rest[j - 1]);
            }
        }
        assert(all_letters(seq![d] + rest));
    }
}

/// An input of letters and separators converts to letters alone.
pub proof fn lemma_pascal_case_letters(s: Seq<char>)
    requires
        letters_and_separators(s),
    ensures
        all_letters(pascal_case(s)),
{
    lemma_pascal_from_letters(s, 0, true);
}

proof fn lemma_separator_count_le(s: Seq<char>, i: int)
    requires
        0 <= i <= s.len(),
    ensures
        separator_count_from(s, i) <= s.len() - i,
    decreases s.len() - i,
{
    if i < s.len() {
        lemma_separator_count_le(s, i + 1);
    }
}

proof fn lemma_separator_count_strict(s: Seq<char>, i: int, k: int)
    requires
        0 <= i <= k < s.len(),
        !is_separator(s[k]),
    ensures
        separator_count_from(s, i) < s.len() - i,
    decreases k - i,
{
    if i == k {
        lemma_separator_count_le(s, i + 1);
    } else {
        lemma_separator_count_strict(s, i + 1, k);
    }
}

/// An input with a character `s[k]` that is no separator converts to a
/// nonempty name.
pub proof fn lemma_pascal_case_nonempty(s: Seq<char>, k: int)
    requires
        0 <= k < s.len(),
        !is_separator(s[k]),
    ensures
        pascal_case(s).len() > 0,
{
    lemma_pascal_from_len(s, 0, true);
    lemma_separator_count_strict(s, 0, k);
}

} // verus!
