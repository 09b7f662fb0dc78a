use proc_macro2::Ident;
use proc_macro2::Span;

use proc_macro_type_name::capitalize_first_letter;
use proc_macro_type_name::to_pascal_case;
use proc_macro_type_name::ToTypeName;

#[test]
fn capitalize_first_letter_ignores_whitespace() {
    assert_eq!(capitalize_first_letter(" foo"), " foo".to_owned());
}

#[test]
fn capitalize_first_letter_only_modifies_first_character() {
    assert_eq!(capitalize_first_letter("foo"), "Foo".to_owned());
    assert_eq!(capitalize_first_letter("foo-bar"), "Foo-bar".to_owned());
    assert_eq!(capitalize_first_letter("foo_bar"), "Foo_bar".to_owned());
    assert_eq!(capitalize_first_letter("foo bar"), "Foo bar".to_owned());
}

#[test]
fn capitalize_first_letter_is_idempotent() {
    assert_eq!(capitalize_first_letter("Foo"), "Foo".to_owned());
    assert_eq!(capitalize_first_letter(capitalize_first_letter("foo").as_str()), "Foo".to_owned());
}

#[test]
fn capitalize_first_letter_of_empty_word_is_empty() {
    assert_eq!(capitalize_first_letter(""), "".to_owned());
}

#[test]
fn capitalize_first_letter_leaves_non_letters_alone() {
    assert_eq!(capitalize_first_letter("2fast"), "2fast".to_owned());
}

#[test]
fn to_pascal_case_properly_converts_casing() {
    assert_eq!(to_pascal_case("foo_bar-bazBrr"), "FooBarBazBrr".to_owned());
}

#[test]
fn to_pascal_case_converts_a_snake_case_pair() {
    assert_eq!(to_pascal_case("foo_bar"), "FooBar".to_owned());
}

#[test]
fn to_pascal_case_of_empty_input_is_empty() {
    assert_eq!(to_pascal_case(""), "".to_owned());
}

#[test]
fn to_pascal_case_drops_a_leading_separator() {
    assert_eq!(to_pascal_case("_foo"), "Foo".to_owned());
}

#[test]
fn to_pascal_case_collapses_consecutive_separators() {
    assert_eq!(to_pascal_case("foo__bar"), "FooBar".to_owned());
}

#[test]
fn to_pascal_case_accepts_letters_and_both_separators() {
    assert_eq!(to_pascal_case("foo-bar_baz"), "FooBarBaz".to_owned());
}

#[test]
fn to_pascal_case_keeps_digits_inside_words() {
    assert_eq!(to_pascal_case("foo2_bar"), "Foo2Bar".to_owned());
}

#[test]
fn to_type_name_for_ident() {
    let ident = Ident::new("foo_bar", Span::call_site());
    assert_eq!((&ident).to_type_name(), "FooBar".to_owned());
}

#[test]
fn to_type_ident_for_ident() {
    let ident = Ident::new("foo_bar", Span::call_site());
    let type_ident = (&ident).to_type_ident(ident.span());
    assert_eq!(type_ident.to_string(), "FooBar".to_owned());
}

#[test]
fn to_type_ident_for_string() {
    let ident = "foo_bar".to_owned();
    let type_ident = (&ident).to_type_ident(Span::call_site());
    assert_eq!(type_ident.to_string(), "FooBar".to_owned());
}

#[test]
fn to_type_ident_for_str() {
    let ident = "foo_bar";
    let type_ident = (&ident).to_type_ident(Span::call_site());
    assert_eq!(type_ident.to_string(), "FooBar".to_owned());
}
