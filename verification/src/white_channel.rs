//! `#[derive(WhiteChannel)]`: a homogeneous pixel's white value is its
//! channel type's maximum.
//!
//! The impl delegates to `<Channel as BoundedChannel>::MAX`. Pixels whose
//! valid range is narrower than their channel type's must implement
//! `WhiteChannel` by hand instead.
use vstd::prelude::*;

use crate::model::{impl_block, impl_parts, outcome_is, Data, DeriveError, DeriveInput, ErrorSite, Fields};
use crate::text::words;

verus! {

/// The body of the generated impl.
pub open spec fn white_body() -> Seq<char> {
    "# [inline (always)] fn white_channel () -> < Self as :: fovea :: pixel :: HomogeneousPixel > :: Channel { < < Self as :: fovea :: pixel :: HomogeneousPixel > :: Channel as :: fovea :: pixel :: BoundedChannel > :: MAX }"@
}

/// What the derive produces for `input`.
pub open spec fn spec_derive(input: DeriveInput) -> Result<Seq<char>, (Seq<char>, ErrorSite)> {
    match input.data {
        Data::Struct(Fields::Unit) => Err(("WhiteChannel cannot be derived for unit structs (no channels)"@, ErrorSite::Ident)),
        Data::Struct(_) => Ok(words(impl_parts(input.generics, ":: fovea :: pixel :: WhiteChannel"@, input.ident@, white_body()))),
        Data::Enum => Err(("WhiteChannel can only be derived for structs, not enums"@, ErrorSite::Ident)),
        Data::Union => Err(("WhiteChannel can only be derived for structs, not unions"@, ErrorSite::Ident)),
    }
}

/// Generates the `WhiteChannel` impl for a struct with named or tuple
/// fields (any number of them), generics carried over; a unit struct, an
/// enum or a union is rejected at its name.
pub fn derive(input: DeriveInput) -> (r: Result<String, DeriveError>)
    ensures
        outcome_is(r, spec_derive(input)),
{
    match &input.data {
        Data::Struct(fields) => match fields {
            Fields::Named(_) | Fields::Unnamed(_) => {},
            Fields::Unit => {
                return Err(DeriveError {
                    message: String::from_str("WhiteChannel cannot be derived for unit structs (no channels)"),
                    site: ErrorSite::Ident,
                });
            },
        },
        Data::Enum => {
            return Err(DeriveError {
                message: String::from_str("WhiteChannel can only be derived for structs, not enums"),
                site: ErrorSite::Ident,
            });
        },
        Data::Union => {
            return Err(DeriveError {
                message: String::from_str("WhiteChannel can only be derived for structs, not unions"),
                site: ErrorSite::Ident,
            });
        },
    }
    Ok(impl_block(
        &input.generics,
        ":: fovea :: pixel :: WhiteChannel",
        input.ident.as_str(),
        "# [inline (always)] fn white_channel () -> < Self as :: fovea :: pixel :: HomogeneousPixel > :: Channel { < < Self as :: fovea :: pixel :: HomogeneousPixel > :: Channel as :: fovea :: pixel :: BoundedChannel > :: MAX }",
    ))
}

} // verus!
