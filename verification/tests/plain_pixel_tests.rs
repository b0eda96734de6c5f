#![allow(dead_code)]

use fovea_derive::model::{Attribute, Data, DeriveInput, Field, Fields, Generics, Meta, TokenTree};
use quote::ToTokens;

fn token_trees(ts: proc_macro2::TokenStream) -> Vec<TokenTree> {
    ts.into_iter()
        .map(|tt| match tt {
            proc_macro2::TokenTree::Ident(i) => TokenTree::Ident(i.to_string()),
            proc_macro2::TokenTree::Punct(p) => {
                TokenTree::Punct(p.as_char(), p.spacing() == proc_macro2::Spacing::Joint)
            }
            proc_macro2::TokenTree::Literal(l) => TokenTree::Literal(l.to_string()),
            proc_macro2::TokenTree::Group(g) => TokenTree::Group(g.to_string()),
        })
        .collect()
}

fn attribute(a: &syn::Attribute) -> Attribute {
    Attribute {
        name: a.path().get_ident().map(|i| i.to_string()),
        meta: match &a.meta {
            syn::Meta::Path(_) => Meta::Path,
            syn::Meta::List(l) => Meta::List(token_trees(l.tokens.clone())),
            syn::Meta::NameValue(_) => Meta::NameValue,
        },
    }
}

fn field(f: &syn::Field) -> Field {
    Field {
        ident: f.ident.as_ref().map(|i| i.to_string()),
        ty: f.ty.to_token_stream().to_string(),
        attrs: f.attrs.iter().map(attribute).collect(),
    }
}

fn fields_of(f: &syn::Fields) -> Fields {
    match f {
        syn::Fields::Named(n) => Fields::Named(n.named.iter().map(field).collect()),
        syn::Fields::Unnamed(u) => Fields::Unnamed(u.unnamed.iter().map(field).collect()),
        syn::Fields::Unit => Fields::Unit,
    }
}

/// Parses an item the way the compiler hands it to a derive.
fn input(src: &str) -> DeriveInput {
    let d: syn::DeriveInput = syn::parse_str(src).unwrap();
    let (ig, tg, wc) = d.generics.split_for_impl();
    DeriveInput {
        attrs: d.attrs.iter().map(attribute).collect(),
        ident: d.ident.to_string(),
        generics: Generics {
            impl_generics: ig.to_token_stream().to_string(),
            ty_generics: tg.to_token_stream().to_string(),
            where_clause: wc.map(|w| w.to_token_stream().to_string()).unwrap_or_default(),
        },
        data: match &d.data {
            syn::Data::Struct(s) => Data::Struct(fields_of(&s.fields)),
            syn::Data::Enum(_) => Data::Enum,
            syn::Data::Union(_) => Data::Union,
        },
    }
}

/// The fields of a struct input.
fn struct_fields(input: &DeriveInput) -> &Fields {
    match &input.data {
        Data::Struct(f) => f,
        _ => panic!("expected struct"),
    }
}

/// The tokens of a `#[..]`-free token text, such as a type.
fn tokens_of(src: &str) -> Vec<TokenTree> {
    token_trees(src.parse().unwrap())
}

use fovea_derive::plain_pixel;
use fovea_derive::plain_pixel::{
    generate_channels_constant, has_repr_c, has_repr_transparent, validate_repr,
    validate_struct, Repr,
};

#[test]
fn test_validate_struct_with_named_fields() {
    let input = input("#[repr(C)] struct TestPixel { r: u8, g: u8, b: u8, }");
    assert!(validate_struct(&input).is_ok());
}

#[test]
fn test_validate_struct_with_tuple_fields() {
    let input = input("#[repr(C)] struct TestPixel(u8, u8, u8);");
    assert!(validate_struct(&input).is_ok());
}

#[test]
fn plain_pixel_test_validate_struct_rejects_enum() {
    let input = input("enum BadPixel { Red, }");
    let result = validate_struct(&input);
    assert!(result.is_err());
    assert!(result.err().unwrap().message.contains("not enums"));
}

#[test]
fn plain_pixel_test_validate_struct_rejects_union() {
    let input = input("union BadPixel { a: u8, b: u16, }");
    let result = validate_struct(&input);
    assert!(result.is_err());
    assert!(result.err().unwrap().message.contains("not unions"));
}

#[test]
fn plain_pixel_test_validate_repr_c() {
    let input = input("#[repr(C)] struct TestPixel { r: u8, }");
    let fields = validate_struct(&input).unwrap();
    assert!(matches!(validate_repr(&input, fields), Ok(Repr::C)));
}

#[test]
fn plain_pixel_test_validate_repr_transparent() {
    let input = input("#[repr(transparent)] struct TestPixel { value: u8, }");
    let fields = validate_struct(&input).unwrap();
    assert!(matches!(validate_repr(&input, fields), Ok(Repr::Transparent)));
}

#[test]
fn plain_pixel_test_validate_repr_missing() {
    let input = input("struct TestPixel { r: u8, }");
    let fields = validate_struct(&input).unwrap();
    let result = validate_repr(&input, fields);
    assert!(result.is_err());
    assert!(result.err().unwrap().message.contains("requires #[repr(C)]"));
}

#[test]
fn plain_pixel_test_validate_repr_c_no_fields() {
    let input = input("#[repr(C)] struct TestPixel {}");
    let fields = validate_struct(&input).unwrap();
    let result = validate_repr(&input, fields);
    assert!(result.is_err());
    assert!(result.err().unwrap().message.contains("at least one field"));
}

#[test]
fn plain_pixel_test_validate_repr_both_c_and_transparent() {
    let input = input("#[repr(C)] #[repr(transparent)] struct TestPixel { value: u8, }");
    let fields = validate_struct(&input).unwrap();
    let result = validate_repr(&input, fields);
    assert!(result.is_err());
    assert!(result.err().unwrap().message.contains("both"));
}

#[test]
fn plain_pixel_test_validate_repr_transparent_multiple_fields() {
    let input = input("#[repr(transparent)] struct TestPixel { a: u8, b: u8, }");
    let fields = validate_struct(&input).unwrap();
    let result = validate_repr(&input, fields);
    assert!(result.is_err());
    assert!(result.err().unwrap().message.contains("exactly one field"));
}

#[test]
fn test_generate_channels_repr_c() {
    let input = input("#[repr(C)] struct TestPixel { r: u8, g: u8, b: u8, }");
    let fields = validate_struct(&input).unwrap();
    let output = generate_channels_constant(fields, &Repr::C).unwrap();
    assert!(output.contains("PlainChannel"));
    assert!(output.contains("SIZE"));
}

#[test]
fn test_generate_channels_repr_transparent() {
    let input = input("#[repr(transparent)] struct TestPixel { value: u8, }");
    let fields = validate_struct(&input).unwrap();
    let output = generate_channels_constant(fields, &Repr::Transparent).unwrap();
    assert!(output.contains("PlainChannel"));
    assert!(output.contains("SIZE"));
}

#[test]
fn test_derive_repr_c_full() {
    let input = input("#[repr(C)] struct Rgb8 { r: u8, g: u8, b: u8, }");
    let output = plain_pixel::derive(input).unwrap();
    assert!(output.contains("PlainPixel"));
    assert!(output.contains("CHANNELS"));
    assert!(output.contains("_ASSERT_SIZE"), "must force-evaluate _ASSERT_SIZE");
    assert!(output.contains("_ASSERT_CHANNELS"), "must force-evaluate _ASSERT_CHANNELS");
}

#[test]
fn plain_pixel_test_derive_repr_transparent_full() {
    let input = input("#[repr(transparent)] struct Wrapped { value: u8, }");
    let output = plain_pixel::derive(input).unwrap();
    assert!(output.contains("PlainPixel"));
    assert!(output.contains("CHANNELS"));
    assert!(output.contains("_ASSERT_SIZE"), "must force-evaluate _ASSERT_SIZE");
    assert!(output.contains("_ASSERT_CHANNELS"), "must force-evaluate _ASSERT_CHANNELS");
}

#[test]
fn plain_pixel_test_has_repr_c_true() {
    let input = input("#[repr(C)] struct Foo { x: u8 }");
    assert!(has_repr_c(&input.attrs));
    assert!(!has_repr_transparent(&input.attrs));
}

#[test]
fn plain_pixel_test_has_repr_transparent_true() {
    let input = input("#[repr(transparent)] struct Foo { x: u8 }");
    assert!(!has_repr_c(&input.attrs));
    assert!(has_repr_transparent(&input.attrs));
}

#[test]
fn plain_pixel_test_has_repr_neither() {
    let input = input("struct Foo { x: u8 }");
    assert!(!has_repr_c(&input.attrs));
    assert!(!has_repr_transparent(&input.attrs));
}

#[test]
fn plain_pixel_test_has_repr_with_non_repr_attr() {
    let input = input("#[derive(Clone)] struct Foo { x: u8 }");
    assert!(!has_repr_c(&input.attrs));
    assert!(!has_repr_transparent(&input.attrs));
}

#[test]
fn plain_pixel_test_derive_rejects_enum() {
    let result = plain_pixel::derive(input("enum BadPixel { Red }"));
    assert!(result.is_err());
    assert!(result.err().unwrap().message.contains("not enums"));
}

#[test]
fn plain_pixel_test_derive_rejects_union() {
    let result = plain_pixel::derive(input("union BadPixel { a: u8, b: u16 }"));
    assert!(result.is_err());
    assert!(result.err().unwrap().message.contains("not unions"));
}

#[test]
fn plain_pixel_test_derive_rejects_missing_repr() {
    let result = plain_pixel::derive(input("struct TestPixel { r: u8 }"));
    assert!(result.is_err());
    assert!(result.err().unwrap().message.contains("requires #[repr(C)]"));
}

#[test]
fn plain_pixel_test_derive_rejects_repr_c_no_fields() {
    let result = plain_pixel::derive(input("#[repr(C)] struct Empty {}"));
    assert!(result.is_err());
    assert!(result.err().unwrap().message.contains("at least one field"));
}

/// The compile-fail cases of the derive: each input is rejected.
#[test]
fn plain_pixel_compile_tests() {
    let missing_repr = plain_pixel::derive(input("#[derive(Clone, Copy, PlainPixel)] struct MissingReprC { pub r: u8, pub g: u8, pub b: u8, }"));
    assert!(missing_repr.unwrap_err().message.contains("requires #[repr(C)] or #[repr(transparent)]"));
    let an_enum = plain_pixel::derive(input("#[derive(Clone, Copy, PlainPixel)] #[repr(C)] pub enum BadPixel { Red, Green, Blue, }"));
    assert!(an_enum.unwrap_err().message.contains("not enums"));
    let a_union = plain_pixel::derive(input("#[derive(PlainPixel)] #[repr(C)] union Bad { a: u8, b: u16, }"));
    assert!(a_union.unwrap_err().message.contains("not unions"));
}
