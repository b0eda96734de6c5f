//! Checks on the shape of a derive input that several derives share: that
//! it is a struct, and which `#[repr(..)]` it carries.
use vstd::prelude::*;

use crate::model::{
    attr_is_named, attr_named, field_seq, render_all, render_tokens, Attribute, Data,
    DeriveError, DeriveInput, ErrorSite, Fields, Meta,
};
use crate::text::{contains_text, text_contains};

verus! {

/// The layout a struct declares.
#[derive(Debug, Clone, Copy, PartialEq, Eq, Structural)]
pub enum Repr {
    /// `#[repr(C)]`
    C,
    /// `#[repr(transparent)]`
    Transparent,
}

/// A rejection with a message and a site.
pub open spec fn reject<T>(message: Seq<char>, site: ErrorSite) -> Result<T, (Seq<char>, ErrorSite)> {
    Err((message, site))
}

/// The fields of the input when it is a struct; otherwise the error that
/// the derive called `derive_name` reports at the item's name.
pub open spec fn spec_validate_struct(input: DeriveInput, derive_name: Seq<char>) -> Result<Fields, (Seq<char>, ErrorSite)> {
    match input.data {
        Data::Struct(f) => Ok(f),
        Data::Enum => reject(derive_name + " can only be derived for structs, not enums"@, ErrorSite::Ident),
        Data::Union => reject(derive_name + " can only be derived for structs, not unions"@, ErrorSite::Ident),
    }
}

/// Builds a message: the derive's name followed by `rest`.
pub fn named_message(derive_name: &str, rest: &str) -> (m: String)
    ensures
        m@ == derive_name@ + rest@,
{
    let mut m = String::from_str(derive_name);
    m.append(rest);
    m
}

/// The fields of the input when it is a struct; otherwise an error at the
/// item's name saying that the derive applies to structs only.
pub fn validate_struct<'a>(input: &'a DeriveInput, derive_name: &str) -> (r: Result<&'a Fields, DeriveError>)
    ensures
        match spec_validate_struct(*input, derive_name@) {
            Ok(f) => r matches Ok(g) && *g == f,
            Err(e) => r matches Err(x) && x@ == e,
        },
{
    match &input.data {
        Data::Struct(f) => Ok(f),
        Data::Enum => Err(DeriveError {
            message: named_message(derive_name, " can only be derived for structs, not enums"),
            site: ErrorSite::Ident,
        }),
        Data::Union => Err(DeriveError {
            message: named_message(derive_name, " can only be derived for structs, not unions"),
            site: ErrorSite::Ident,
        }),
    }
}

/// Attribute `a` is `#[repr(..)]` and its printed arguments contain `word`.
pub open spec fn is_repr_with(a: Attribute, word: Seq<char>) -> bool {
    &&& attr_named(a, "repr"@)
    &&& a.meta matches Meta::List(ts) && contains_text(render_tokens(ts@), word)
}

/// Some attribute is a `#[repr(..)]` whose printed arguments contain `word`.
pub open spec fn has_repr_word(attrs: Seq<Attribute>, word: Seq<char>) -> bool {
    exists|k: int| 0 <= k < attrs.len() && #[trigger] is_repr_with(attrs[k], word)
}

/// Whether some attribute is a `#[repr(..)]` whose printed arguments
/// contain `word`.
pub fn has_repr_word_in(attrs: &[Attribute], word: &str) -> (b: bool)
    ensures
        b == has_repr_word(attrs@, word@),
{
    let n = attrs.len();
    let mut k: usize = 0;
    while k < n
        invariant
            n == attrs@.len(),
            0 <= k <= n,
            forall|j: int| 0 <= j < k ==> !is_repr_with(#[trigger] attrs@[j], word@),
        decreases n - k,
    {
        let a = &attrs[k];
        if attr_is_named(a, "repr") {
            match &a.meta {
                Meta::List(ts) => {
                    let text = render_all(ts.as_slice());
                    if text_contains(text.as_str(), word) {
                        assert(is_repr_with(attrs@[k as int], word@));
                        return true;
                    }
                },
                _ => {},
            }
        }
        k = k + 1;
    }
    false
}

/// What `validate_repr` decides: the declared layout, or the error of the
/// derive called `derive_name`.
pub open spec fn spec_validate_repr(input: DeriveInput, fields: Fields, derive_name: Seq<char>) -> Result<Repr, (Seq<char>, ErrorSite)> {
    let c = has_repr_word(input.attrs@, "C"@);
    let t = has_repr_word(input.attrs@, "transparent"@);
    if c && !t {
        if field_seq(fields).len() == 0 {
            reject(derive_name + " requires at least one field"@, ErrorSite::Ident)
        } else {
            Ok(Repr::C)
        }
    } else if !c && t {
        if field_seq(fields).len() != 1 {
            reject(derive_name + " requires exactly one field when #[repr(transparent)] is used"@, ErrorSite::Ident)
        } else {
            Ok(Repr::Transparent)
        }
    } else if c && t {
        reject(derive_name + " cannot be derived for structs with both #[repr(C)] and #[repr(transparent)] attributes"@, ErrorSite::Ident)
    } else {
        reject(derive_name + " requires #[repr(C)] or #[repr(transparent)] attribute"@, ErrorSite::Ident)
    }
}

/// The layout the input declares: `#[repr(C)]` with at least one field, or
/// `#[repr(transparent)]` with exactly one; any other combination is an
/// error at the item's name.
pub fn validate_repr(input: &DeriveInput, fields: &Fields, derive_name: &str) -> (r: Result<Repr, DeriveError>)
    ensures
        match spec_validate_repr(*input, *fields, derive_name@) {
            Ok(v) => r == Ok::<Repr, DeriveError>(v),
            Err(e) => r matches Err(x) && x@ == e,
        },
{
    let c = has_repr_word_in(input.attrs.as_slice(), "C");
    let t = has_repr_word_in(input.attrs.as_slice(), "transparent");
    if c && !t {
        if fields.is_empty() {
            Err(DeriveError { message: named_message(derive_name, " requires at least one field"), site: ErrorSite::Ident })
        } else {
            Ok(Repr::C)
        }
    } else if !c && t {
        if fields.len() != 1 {
            Err(DeriveError {
                message: named_message(derive_name, " requires exactly one field when #[repr(transparent)] is used"),
                site: ErrorSite::Ident,
            })
        } else {
            Ok(Repr::Transparent)
        }
    } else if c && t {
        Err(DeriveError {
            message: named_message(
                derive_name,
                " cannot be derived for structs with both #[repr(C)] and #[repr(transparent)] attributes",
            ),
            site: ErrorSite::Ident,
        })
    } else {
        Err(DeriveError {
            message: named_message(derive_name, " requires #[repr(C)] or #[repr(transparent)] attribute"),
            site: ErrorSite::Ident,
        })
    }
}

} // verus!
