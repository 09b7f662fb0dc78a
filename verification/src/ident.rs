//! Adapters over the shapes a caller may hold — borrowed text, owned text, a
//! `proc_macro2::Ident` — each rendered to text and then converted; the
//! converted name can also be wrapped, together with a caller-supplied span,
//! as a fresh identifier token.

use vstd::prelude::*;

use crate::convert::contains_whitespace;
use crate::convert::is_ascii_alpha;
use crate::convert::is_separator;
use crate::convert::letters_and_separators;
use crate::convert::lemma_pascal_case_letters;
use crate::convert::lemma_pascal_case_nonempty;
use crate::convert::pascal_case;
use crate::convert::to_pascal_case;

verus! {

/// ASCII decimal digit.
pub open spec fn is_ascii_digit_char(c: char) -> bool {
    48 <= c as u32 <= 57
}

/// A string the identifier constructor is known to take: nonempty, opening
/// with an ASCII letter or `_`, going on with ASCII letters, digits and `_`,
/// and not the lone wildcard `_`. (The constructor takes more — identifiers
/// beyond ASCII — but a converted name never needs that.)
pub open spec fn is_valid_ident(s: Seq<char>) -> bool {
    &&& s.len() > 0
    &&& (is_ascii_alpha(s[0]) || s[0] == '_')
    &&& (forall|i: int|
        0 <= i < s.len() ==> is_ascii_alpha(#[trigger] s[i]) || is_ascii_digit_char(s[i]) || s[i]
            == '_')
    &&& s != seq!['_']
}

#[verifier::external_type_specification]
#[verifier::external_body]
pub struct ExSpan(proc_macro2::Span);

#[verifier::external_type_specification]
#[verifier::external_body]
pub struct ExIdent(proc_macro2::Ident);

/// The text of an identifier token: the characters `Display` prints for it.
pub uninterp spec fn ident_text(i: proc_macro2::Ident) -> Seq<char>;

/// The span an identifier token carries.
pub uninterp spec fn ident_span(i: proc_macro2::Ident) -> proc_macro2::Span;

/// Relies on `proc_macro2::Ident::new`: it builds a token whose text is
/// `string` and whose span is `span`, and panics only when the string is not
/// a legal identifier, which `is_valid_ident` rules out.
#[verifier::external_body]
fn ident_new(string: &str, span: proc_macro2::Span) -> (r: proc_macro2::Ident)
    requires
        is_valid_ident(string@),
    ensures
        ident_text(r) == string@,
        ident_span(r) == span,
{
    proc_macro2::Ident::new(string, span)
}

/// Relies on `Display` for `proc_macro2::Ident` (reached through
/// `ToString::to_string`): it prints the token's text.
#[verifier::external_body]
fn ident_to_string(i: &proc_macro2::Ident) -> (r: String)
    ensures
        r@ == ident_text(*i),
{
    i.to_string()
}

/// Text of ASCII letters and separators alone, with a letter at some
/// position `k`, converts to a name the identifier constructor accepts: on
/// such text `to_type_ident` owes its caller a token.
pub proof fn lemma_pascal_case_of_letters_is_valid_ident(s: Seq<char>, k: int)
    requires
        letters_and_separators(s),
        0 <= k < s.len(),
        is_ascii_alpha(s[k]),
    ensures
        is_valid_ident(pascal_case(s)),
{
    lemma_pascal_case_letters(s);
    assert(!is_separator(s[k]));
    lemma_pascal_case_nonempty(s, k);
    let p = pascal_case(s);
    assert(is_ascii_alpha(p[0]));
    if p == seq!['_'] {
        assert(p[0] == '_');
        assert(false);
    }
}

/// A value that renders as a word-separated identifier, and so can be turned
/// into a capitalized type name. The rendered text must hold no whitespace:
/// on text with whitespace the contract is broken and no result is owed.
pub trait ToTypeName {
    /// The characters this value renders as.
    spec fn text(&self) -> Seq<char>;

    /// The converted name: the words of `text()` capitalized, the separators
    /// dropped.
    fn to_type_name(&self) -> (r: String)
        requires
            !contains_whitespace(self.text()),
        ensures
            r@ == pascal_case(self.text()),
    ;

    /// The converted name wrapped as an identifier token that carries `span`,
    /// untouched, as its location. The caller vouches that the converted name
    /// is a valid identifier: on an empty name, or one opening with a digit,
    /// the token constructor refuses and no token is owed.
    fn to_type_ident(&self, span: proc_macro2::Span) -> (r: proc_macro2::Ident)
        requires
            !contains_whitespace(self.text()),
            is_valid_ident(pascal_case(self.text())),
        ensures
            ident_text(r) == pascal_case(self.text()),
            ident_span(r) == span,
    {
        ident_new(self.to_type_name().as_str(), span)
    }
}

impl ToTypeName for &str {
    open spec fn text(&self) -> Seq<char> {
        self@
    }

    fn to_type_name(&self) -> (r: String) {
        to_pascal_case(self)
    }
}

impl ToTypeName for String {
    open spec fn text(&self) -> Seq<char> {
        self@
    }

    fn to_type_name(&self) -> (r: String) {
        to_pascal_case(self.as_str())
    }
}

impl ToTypeName for &proc_macro2::Ident {
    open spec fn text(&self) -> Seq<char> {
        ident_text(**self)
    }

    fn to_type_name(&self) -> (r: String) {
        let rendered = ident_to_string(*self);
        to_pascal_case(rendered.as_str())
    }
}

} // verus!
