//! `#[derive(HomogeneousPixel)]`: a pixel whose channels all share one type.
//!
//! The struct must declare `#[repr(C)]` (at least one field, all of the
//! same type) or `#[repr(transparent)]` (exactly one field). The derive
//! emits `Channel = T` and `Channels = [T; N]`, `N` being the number of
//! fields, and forces the compile-time size assertion.
use vstd::prelude::*;

use crate::model::{field_seq, outcome_is, Attribute, DeriveError, DeriveInput, ErrorSite, Field, Fields};
pub use crate::shape::Repr;
use crate::shape::{has_repr_word, has_repr_word_in, spec_validate_repr, spec_validate_struct};
use crate::text::{bracketed, braced, decimal, words, bracket, brace, decimal_string, text_eq, Words};

verus! {

/// The name this derive reports in its messages.
pub open spec fn homogeneous_name() -> Seq<char> {
    "HomogeneousPixel"@
}

/// The first field from index `i` on whose type differs from the first
/// field's.
pub open spec fn first_mismatch_from(fs: Seq<Field>, i: int) -> Option<int>
    decreases fs.len() - i,
{
    if i < 1 || i >= fs.len() {
        None
    } else if fs[i].ty@ != fs[0].ty@ {
        Some(i)
    } else {
        first_mismatch_from(fs, i + 1)
    }
}

/// The message for field `i`, whose type differs from the first field's.
pub open spec fn mismatch_message(fs: Seq<Field>, i: int) -> Seq<char> {
    match fs[i].ident {
        Some(id) => "HomogeneousPixel requires all fields to have the same type, but field `"@ + id@
            + "` (index "@ + decimal(i as nat) + ") has type `"@ + fs[i].ty@
            + "` while the first field has type `"@ + fs[0].ty@ + "`"@,
        None => "HomogeneousPixel requires all fields to have the same type, but field at index "@
            + decimal(i as nat) + " has type `"@ + fs[i].ty@ + "` while the first field has type `"@
            + fs[0].ty@ + "`"@,
    }
}

/// The channel type and channel count, or the error at the first field
/// whose type differs from the first field's.
pub open spec fn spec_extract(fields: Fields, repr: Repr) -> Result<(Seq<char>, nat), (Seq<char>, ErrorSite)> {
    let fs = field_seq(fields);
    match repr {
        Repr::C => match first_mismatch_from(fs, 1) {
            Some(i) => Err((mismatch_message(fs, i), ErrorSite::FieldType(i as usize))),
            None => Ok((fs[0].ty@, fs.len())),
        },
        Repr::Transparent => Ok((fs[0].ty@, 1)),
    }
}

/// The words of the generated impl for the struct `name`.
pub open spec fn homogeneous_parts(name: Seq<char>, ty: Seq<char>, count: nat) -> Seq<Seq<char>> {
    seq![
        "unsafe impl :: fovea :: pixel :: HomogeneousPixel for"@,
        name,
        braced(words(seq![
            "type Channel ="@,
            ty,
            "; type Channels ="@,
            bracketed(ty + " ; "@ + decimal(count) + "usize"@),
            ";"@
        ])),
        "const _ : () ="@,
        braced(words(seq!["let _ = <"@, name, "as :: fovea :: pixel :: HomogeneousPixel > :: _SIZE_ASSERT ;"@])),
        ";"@
    ]
}

/// What the derive produces for `input`.
pub open spec fn spec_derive(input: DeriveInput) -> Result<Seq<char>, (Seq<char>, ErrorSite)> {
    match spec_validate_struct(input, homogeneous_name()) {
        Err(e) => Err(e),
        Ok(fields) => match spec_validate_repr(input, fields, homogeneous_name()) {
            Err(e) => Err(e),
            Ok(repr) => match spec_extract(fields, repr) {
                Err(e) => Err(e),
                Ok((ty, count)) => Ok(words(homogeneous_parts(input.ident@, ty, count))),
            },
        },
    }
}

/// Generates the `HomogeneousPixel` impl, or rejects the input: an enum or
/// union, a missing or doubled repr, a wrong field count for the repr, or
/// (for `#[repr(C)]`) a field whose type differs from the first field's.
pub fn derive(input: DeriveInput) -> (r: Result<String, DeriveError>)
    ensures
        outcome_is(r, spec_derive(input)),
{
    let name = input.ident.as_str();
    let fields = match validate_struct(&input) {
        Ok(f) => f,
        Err(e) => return Err(e),
    };
    let repr = match validate_repr(&input, fields) {
        Ok(r) => r,
        Err(e) => return Err(e),
    };
    let (ty, count) = match extract_uniform_channel(fields, &repr) {
        Ok(p) => p,
        Err(e) => return Err(e),
    };
    let mut arr = ty.clone();
    arr.append(" ; ");
    arr.append(decimal_string(count).as_str());
    arr.append("usize");
    let mut body = Words::new();
    body.push("type Channel =");
    body.push(ty.as_str());
    body.push("; type Channels =");
    body.push_string(bracket(arr.as_str()));
    body.push(";");
    let mut check = Words::new();
    check.push("let _ = <");
    check.push(name);
    check.push("as :: fovea :: pixel :: HomogeneousPixel > :: _SIZE_ASSERT ;");
    let mut w = Words::new();
    w.push("unsafe impl :: fovea :: pixel :: HomogeneousPixel for");
    w.push(name);
    w.push_string(brace(body.text.as_str()));
    w.push("const _ : () =");
    w.push_string(brace(check.text.as_str()));
    w.push(";");
    proof {
        assert(body.parts@ =~= seq![
            "type Channel ="@,
            ty@,
            "; type Channels ="@,
            bracketed(ty@ + " ; "@ + decimal(count as nat) + "usize"@),
            ";"@
        ]);
        assert(check.parts@ =~= seq!["let _ = <"@, input.ident@, "as :: fovea :: pixel :: HomogeneousPixel > :: _SIZE_ASSERT ;"@]);
        assert(w.parts@ =~= homogeneous_parts(input.ident@, ty@, count as nat));
    }
    Ok(w.text)
}

/// The message for field `i`, whose type differs from the first field's.
fn mismatch_message_string(fields: &Fields, i: usize) -> (m: String)
    requires
        1 <= i < field_seq(*fields).len(),
    ensures
        m@ == mismatch_message(field_seq(*fields), i as int),
{
    let f = fields.get(i);
    let first = fields.get(0);
    match &f.ident {
        Some(id) => {
            let mut m = String::from_str("HomogeneousPixel requires all fields to have the same type, but field `");
            m.append(id.as_str());
            m.append("` (index ");
            m.append(decimal_string(i).as_str());
            m.append(") has type `");
            m.append(f.ty.as_str());
            m.append("` while the first field has type `");
            m.append(first.ty.as_str());
            m.append("`");
            m
        },
        None => {
            let mut m = String::from_str("HomogeneousPixel requires all fields to have the same type, but field at index ");
            m.append(decimal_string(i).as_str());
            m.append(" has type `");
            m.append(f.ty.as_str());
            m.append("` while the first field has type `");
            m.append(first.ty.as_str());
            m.append("`");
            m
        },
    }
}

/// The shared channel type and the channel count. For `#[repr(C)]` every
/// field must have the first field's type (compared as printed tokens);
/// the first that does not is reported at its type. For
/// `#[repr(transparent)]` the single field is the one channel.
pub fn extract_uniform_channel(fields: &Fields, repr: &Repr) -> (r: Result<(String, usize), DeriveError>)
    requires
        field_seq(*fields).len() >= 1,
    ensures
        match spec_extract(*fields, *repr) {
            Ok((ty, count)) => r matches Ok((t, c)) && t@ == ty && c == count,
            Err(e) => r matches Err(x) && x@ == e,
        },
{
    let ghost fs = field_seq(*fields);
    let first = fields.get(0);
    match repr {
        Repr::C => {
            let n = fields.len();
            let first_ty_str = type_to_string(first.ty.as_str());
            let mut i: usize = 1;
            while i < n
                invariant
                    fs == field_seq(*fields),
                    n == fs.len(),
                    1 <= i <= n,
                    *first == fs[0],
                    first_ty_str@ == fs[0].ty@,
                    *repr == Repr::C,
                    first_mismatch_from(fs, 1) == first_mismatch_from(fs, i as int),
                decreases n - i,
            {
                let f = fields.get(i);
                let ty_str = type_to_string(f.ty.as_str());
                if !text_eq(ty_str.as_str(), first_ty_str.as_str()) {
                    assert(first_mismatch_from(fs, i as int) == Some(i as int));
                    let e = DeriveError { message: mismatch_message_string(fields, i), site: ErrorSite::FieldType(i) };
                    return Err(e);
                }
                i = i + 1;
            }
            Ok((first.ty.clone(), n))
        },
        Repr::Transparent => Ok((first.ty.clone(), 1)),
    }
}

/// The printed tokens of a type; a type is held as that text already.
pub fn type_to_string(ty: &str) -> (s: String)
    ensures
        s@ == ty@,
{
    String::from_str(ty)
}

/// The fields of the input when it is a struct; an enum or union is
/// rejected at its name.
pub fn validate_struct(input: &DeriveInput) -> (r: Result<&Fields, DeriveError>)
    ensures
        match spec_validate_struct(*input, homogeneous_name()) {
            Ok(f) => r matches Ok(g) && *g == f,
            Err(e) => r matches Err(x) && x@ == e,
        },
{
    crate::shape::validate_struct(input, "HomogeneousPixel")
}

/// The declared layout: `#[repr(C)]` with at least one field or
/// `#[repr(transparent)]` with exactly one.
pub fn validate_repr(input: &DeriveInput, fields: &Fields) -> (r: Result<Repr, DeriveError>)
    ensures
        match spec_validate_repr(*input, *fields, homogeneous_name()) {
            Ok(v) => r == Ok::<Repr, DeriveError>(v),
            Err(e) => r matches Err(x) && x@ == e,
        },
{
    crate::shape::validate_repr(input, fields, "HomogeneousPixel")
}

/// Whether some `#[repr(..)]` attribute's arguments contain `C`.
pub fn has_repr_c(attrs: &[Attribute]) -> (b: bool)
    ensures
        b == has_repr_word(attrs@, "C"@),
{
    has_repr_word_in(attrs, "C")
}

/// Whether some `#[repr(..)]` attribute's arguments contain `transparent`.
pub fn has_repr_transparent(attrs: &[Attribute]) -> (b: bool)
    ensures
        b == has_repr_word(attrs@, "transparent"@),
{
    has_repr_word_in(attrs, "transparent")
}

} // verus!
