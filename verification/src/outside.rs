//! The calls this crate makes into `syn` and `std` whose behaviour Verus
//! takes on trust.
use vstd::prelude::*;

verus! {

/// What `syn` says of the text as one complete Rust expression
/// (`syn::Expr`, consuming every token): nothing when it parses, otherwise
/// the message of its error.
pub uninterp spec fn syn_expr_error(text: Seq<char>) -> Option<Seq<char>>;

/// What `syn` says of the text as one complete Rust type (`syn::Type`,
/// consuming every token): nothing when it parses, otherwise the message
/// of its error.
pub uninterp spec fn syn_type_error(text: Seq<char>) -> Option<Seq<char>>;

/// What `syn` says of the text as one identifier (`syn::Ident`, which
/// refuses Rust's keywords): nothing when it parses, otherwise the message
/// of its error.
pub uninterp spec fn syn_ident_error(text: Seq<char>) -> Option<Seq<char>>;

/// Calls `syn::parse_str::<syn::Expr>` on the text and hands back the
/// message of its error, if any (`syn::Error`'s `Display`). Claimed: the
/// answer depends on the text alone (it is `syn_expr_error` of it); what
/// `syn` accepts, and how it words a refusal, is not restated here.
#[verifier::external_body]
pub(crate) fn expr_parse_error(text: &str) -> (e: Option<String>)
    ensures
        match e {
            None => syn_expr_error(text@) is None,
            Some(m) => syn_expr_error(text@) == Some(m@),
        },
{
    syn::parse_str::<syn::Expr>(text).err().map(|err| err.to_string())
}

/// Calls `syn::parse_str::<syn::Type>` on the text and hands back the
/// message of its error, if any (`syn::Error`'s `Display`). Claimed: the
/// answer depends on the text alone (it is `syn_type_error` of it); what
/// `syn` accepts, and how it words a refusal, is not restated here.
#[verifier::external_body]
pub(crate) fn type_parse_error(text: &str) -> (e: Option<String>)
    ensures
        match e {
            None => syn_type_error(text@) is None,
            Some(m) => syn_type_error(text@) == Some(m@),
        },
{
    syn::parse_str::<syn::Type>(text).err().map(|err| err.to_string())
}

/// Calls `syn::parse_str::<syn::Ident>` on the text and hands back the
/// message of its error, if any (`syn::Error`'s `Display`). Claimed: the
/// answer depends on the text alone (it is `syn_ident_error` of it); which
/// words `syn` refuses, and how it words a refusal, is not restated here.
#[verifier::external_body]
pub(crate) fn ident_parse_error(text: &str) -> (e: Option<String>)
    ensures
        match e {
            None => syn_ident_error(text@) is None,
            Some(m) => syn_ident_error(text@) == Some(m@),
        },
{
    syn::parse_str::<syn::Ident>(text).err().map(|err| err.to_string())
}

/// Calls `ToString::to_string` on a `char`. Claimed: the result is the
/// one-character text of that character, as std documents.
#[verifier::external_body]
pub(crate) fn char_text(c: char) -> (s: String)
    ensures
        s@ == seq![c],
{
    c.to_string()
}

} // verus!
