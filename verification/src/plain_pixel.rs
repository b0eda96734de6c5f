//! `#[derive(PlainPixel)]`: a pixel with a stable byte layout.
//!
//! The struct must declare `#[repr(C)]` (at least one field) or
//! `#[repr(transparent)]` (exactly one field). The derive emits
//! `PlainChannel` and `PlainPixel` impls whose `CHANNELS` constant lists
//! one byte size per channel, and forces the compile-time size assertions.
use vstd::prelude::*;

use crate::model::{field_seq, outcome_is, Attribute, DeriveError, DeriveInput, Field, Fields};
pub use crate::shape::Repr;
use crate::shape::{has_repr_word, has_repr_word_in, spec_validate_repr, spec_validate_struct};
use crate::text::{bracketed, braced, comma_list, words, bracket, brace, join_comma, Words};

verus! {

/// The name this derive reports in its messages.
pub open spec fn plain_name() -> Seq<char> {
    "PlainPixel"@
}

/// The byte size of one field's type, as a `CHANNELS` entry.
pub open spec fn size_entry(f: Field) -> Seq<char> {
    "< "@ + f.ty@ + " as :: fovea :: pixel :: PlainChannel > :: SIZE"@
}

/// The `CHANNELS` value: one size per field for `#[repr(C)]`, the single
/// field's size for `#[repr(transparent)]`.
pub open spec fn spec_channels(fields: Fields, repr: Repr) -> Seq<char> {
    let fs = field_seq(fields);
    match repr {
        Repr::C => "& "@ + bracketed(comma_list(Seq::new(fs.len(), |i: int| size_entry(fs[i])))),
        Repr::Transparent => "& "@ + bracketed(size_entry(fs[0])),
    }
}

/// The words of the generated impls for the struct `name`.
pub open spec fn plain_parts(name: Seq<char>, channels: Seq<char>) -> Seq<Seq<char>> {
    seq![
        "unsafe impl :: fovea :: pixel :: PlainChannel for"@,
        name,
        "{ }"@,
        "unsafe impl :: fovea :: pixel :: PlainPixel for"@,
        name,
        braced(words(seq!["const CHANNELS : & 'static [usize] ="@, channels, ";"@])),
        "const _ : () ="@,
        braced(words(seq!["let _ = <"@, name, "as :: fovea :: pixel :: PlainChannel > :: _ASSERT_SIZE ;"@])),
        ";"@,
        "const _ : () ="@,
        braced(words(seq!["let _ = <"@, name, "as :: fovea :: pixel :: PlainPixel > :: _ASSERT_CHANNELS ;"@])),
        ";"@
    ]
}

/// What the derive produces for `input`.
pub open spec fn spec_derive(input: DeriveInput) -> Result<Seq<char>, (Seq<char>, crate::model::ErrorSite)> {
    match spec_validate_struct(input, plain_name()) {
        Err(e) => Err(e),
        Ok(fields) => match spec_validate_repr(input, fields, plain_name()) {
            Err(e) => Err(e),
            Ok(repr) => Ok(words(plain_parts(input.ident@, spec_channels(fields, repr)))),
        },
    }
}

/// Generates the `PlainChannel` and `PlainPixel` impls for a struct with
/// `#[repr(C)]` or `#[repr(transparent)]`, or rejects the input: an enum or
/// union, a missing or doubled repr, a `repr(C)` struct with no field, a
/// `repr(transparent)` struct without exactly one field.
pub fn derive(input: DeriveInput) -> (r: Result<String, DeriveError>)
    ensures
        outcome_is(r, spec_derive(input)),
{
    let name = input.ident.as_str();
    let fields = match validate_struct(&input) {
        Ok(f) => f,
        Err(e) => return Err(e),
    };
    let repr = match validate_repr(&input, fields) {
        Ok(r) => r,
        Err(e) => return Err(e),
    };
    let channels = match generate_channels_constant(fields, &repr) {
        Ok(c) => c,
        Err(e) => return Err(e),
    };
    let mut w = Words::new();
    w.push("unsafe impl :: fovea :: pixel :: PlainChannel for");
    w.push(name);
    w.push("{ }");
    w.push("unsafe impl :: fovea :: pixel :: PlainPixel for");
    w.push(name);
    let mut inner = Words::new();
    inner.push("const CHANNELS : & 'static [usize] =");
    inner.push(channels.as_str());
    inner.push(";");
    w.push_string(brace(inner.text.as_str()));
    w.push("const _ : () =");
    let mut a1 = Words::new();
    a1.push("let _ = <");
    a1.push(name);
    a1.push("as :: fovea :: pixel :: PlainChannel > :: _ASSERT_SIZE ;");
    w.push_string(brace(a1.text.as_str()));
    w.push(";");
    w.push("const _ : () =");
    let mut a2 = Words::new();
    a2.push("let _ = <");
    a2.push(name);
    a2.push("as :: fovea :: pixel :: PlainPixel > :: _ASSERT_CHANNELS ;");
    w.push_string(brace(a2.text.as_str()));
    w.push(";");
    proof {
        assert(inner.parts@ =~= seq!["const CHANNELS : & 'static [usize] ="@, channels@, ";"@]);
        assert(a1.parts@ =~= seq!["let _ = <"@, input.ident@, "as :: fovea :: pixel :: PlainChannel > :: _ASSERT_SIZE ;"@]);
        assert(a2.parts@ =~= seq!["let _ = <"@, input.ident@, "as :: fovea :: pixel :: PlainPixel > :: _ASSERT_CHANNELS ;"@]);
        assert(w.parts@ =~= plain_parts(input.ident@, channels@));
    }
    Ok(w.text)
}

/// The `CHANNELS` value: for `#[repr(C)]` one `PlainChannel::SIZE` entry per
/// field, in order; for `#[repr(transparent)]` the single field's.
pub fn generate_channels_constant(fields: &Fields, repr: &Repr) -> (r: Result<String, DeriveError>)
    requires
        *repr == Repr::Transparent ==> field_seq(*fields).len() >= 1,
    ensures
        r matches Ok(s) && s@ == spec_channels(*fields, *repr),
{
    let ghost fs = field_seq(*fields);
    match repr {
        Repr::C => {
            let n = fields.len();
            let mut entries: Vec<String> = Vec::new();
            let mut i: usize = 0;
            while i < n
                invariant
                    n == fs.len(),
                    fs == field_seq(*fields),
                    0 <= i <= n,
                    entries@.len() == i,
                    forall|j: int| 0 <= j < i ==> (#[trigger] entries@[j])@ == size_entry(fs[j]),
                decreases n - i,
            {
                entries.push(size_entry_string(fields.get(i)));
                i = i + 1;
            }
            assert(entries.deep_view() =~= Seq::new(fs.len(), |i: int| size_entry(fs[i])));
            let list = join_comma(&entries);
            let mut s = String::from_str("& ");
            s.append(bracket(list.as_str()).as_str());
            Ok(s)
        },
        Repr::Transparent => {
            let e = size_entry_string(fields.get(0));
            let mut s = String::from_str("& ");
            s.append(bracket(e.as_str()).as_str());
            Ok(s)
        },
    }
}

/// One field's `CHANNELS` entry.
fn size_entry_string(f: &Field) -> (s: String)
    ensures
        s@ == size_entry(*f),
{
    let mut s = String::from_str("< ");
    s.append(f.ty.as_str());
    s.append(" as :: fovea :: pixel :: PlainChannel > :: SIZE");
    s
}

/// The fields of the input when it is a struct; an enum or union is
/// rejected at its name.
pub fn validate_struct(input: &DeriveInput) -> (r: Result<&Fields, DeriveError>)
    ensures
        match spec_validate_struct(*input, plain_name()) {
            Ok(f) => r matches Ok(g) && *g == f,
            Err(e) => r matches Err(x) && x@ == e,
        },
{
    crate::shape::validate_struct(input, "PlainPixel")
}

/// The declared layout: `#[repr(C)]` with at least one field or
/// `#[repr(transparent)]` with exactly one.
pub fn validate_repr(input: &DeriveInput, fields: &Fields) -> (r: Result<Repr, DeriveError>)
    ensures
        match spec_validate_repr(*input, *fields, plain_name()) {
            Ok(v) => r == Ok::<Repr, DeriveError>(v),
            Err(e) => r matches Err(x) && x@ == e,
        },
{
    crate::shape::validate_repr(input, fields, "PlainPixel")
}

/// Whether some `#[repr(..)]` attribute's arguments contain `C`.
pub fn has_repr_c(attrs: &[Attribute]) -> (b: bool)
    ensures
        b == has_repr_word(attrs@, "C"@),
{
    has_repr_word_in(attrs, "C")
}

/// Whether some `#[repr(..)]` attribute's arguments contain `transparent`.
pub fn has_repr_transparent(attrs: &[Attribute]) -> (b: bool)
    ensures
        b == has_repr_word(attrs@, "transparent"@),
{
    has_repr_word_in(attrs, "transparent")
}

} // verus!
