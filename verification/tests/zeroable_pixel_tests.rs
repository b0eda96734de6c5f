#![allow(dead_code)]

use fovea_derive::model::{Attribute, Data, DeriveInput, Field, Fields, Generics, Meta, TokenTree};
use quote::ToTokens;

fn token_trees(ts: proc_macro2::TokenStream) -> Vec<TokenTree> {
    ts.into_iter()
        .map(|tt| match tt {
            proc_macro2::TokenTree::Ident(i) => TokenTree::Ident(i.to_string()),
            proc_macro2::TokenTree::Punct(p) => {
                TokenTree::Punct(p.as_char(), p.spacing() == proc_macro2::Spacing::Joint)
            }
            proc_macro2::TokenTree::Literal(l) => TokenTree::Literal(l.to_string()),
            proc_macro2::TokenTree::Group(g) => TokenTree::Group(g.to_string()),
        })
        .collect()
}

fn attribute(a: &syn::Attribute) -> Attribute {
    Attribute {
        name: a.path().get_ident().map(|i| i.to_string()),
        meta: match &a.meta {
            syn::Meta::Path(_) => Meta::Path,
            syn::Meta::List(l) => Meta::List(token_trees(l.tokens.clone())),
            syn::Meta::NameValue(_) => Meta::NameValue,
        },
    }
}

fn field(f: &syn::Field) -> Field {
    Field {
        ident: f.ident.as_ref().map(|i| i.to_string()),
        ty: f.ty.to_token_stream().to_string(),
        attrs: f.attrs.iter().map(attribute).collect(),
    }
}

fn fields_of(f: &syn::Fields) -> Fields {
    match f {
        syn::Fields::Named(n) => Fields::Named(n.named.iter().map(field).collect()),
        syn::Fields::Unnamed(u) => Fields::Unnamed(u.unnamed.iter().map(field).collect()),
        syn::Fields::Unit => Fields::Unit,
    }
}

/// Parses an item the way the compiler hands it to a derive.
fn input(src: &str) -> DeriveInput {
    let d: syn::DeriveInput = syn::parse_str(src).unwrap();
    let (ig, tg, wc) = d.generics.split_for_impl();
    DeriveInput {
        attrs: d.attrs.iter().map(attribute).collect(),
        ident: d.ident.to_string(),
        generics: Generics {
            impl_generics: ig.to_token_stream().to_string(),
            ty_generics: tg.to_token_stream().to_string(),
            where_clause: wc.map(|w| w.to_token_stream().to_string()).unwrap_or_default(),
        },
        data: match &d.data {
            syn::Data::Struct(s) => Data::Struct(fields_of(&s.fields)),
            syn::Data::Enum(_) => Data::Enum,
            syn::Data::Union(_) => Data::Union,
        },
    }
}

/// The fields of a struct input.
fn struct_fields(input: &DeriveInput) -> &Fields {
    match &input.data {
        Data::Struct(f) => f,
        _ => panic!("expected struct"),
    }
}

/// The tokens of a `#[..]`-free token text, such as a type.
fn tokens_of(src: &str) -> Vec<TokenTree> {
    token_trees(src.parse().unwrap())
}

use fovea_derive::model::DeriveError;
use fovea_derive::zeroable_pixel;
use fovea_derive::zeroable_pixel::{
    generate_zero_body, parse_zero_attr, validate_fields, validate_struct, ZeroStrategy,
};

/// The strategy of the first field of a struct input.
fn parse_strategy_named(input: DeriveInput) -> Result<ZeroStrategy, DeriveError> {
    let fields = validate_struct(&input).unwrap();
    let field = fields.get(0);
    parse_zero_attr(field)
}

#[test]
fn zeroable_pixel_test_validate_struct_named_fields() {
    let input = input("struct TestPixel { r: u8, g: u8, b: u8, }");
    assert!(validate_struct(&input).is_ok());
}

#[test]
fn zeroable_pixel_test_validate_struct_tuple_fields() {
    let input = input("struct TestPixel(u8, u8, u8);");
    assert!(validate_struct(&input).is_ok());
}

#[test]
fn zeroable_pixel_test_validate_struct_rejects_enum() {
    let input = input("enum BadPixel { Red, }");
    let result = validate_struct(&input);
    assert!(result.is_err());
    assert!(result.err().unwrap().message.contains("not enums"));
}

#[test]
fn zeroable_pixel_test_validate_struct_rejects_union() {
    let input = input("union BadPixel { a: u8, b: u16, }");
    let result = validate_struct(&input);
    assert!(result.is_err());
    assert!(result.err().unwrap().message.contains("not unions"));
}

#[test]
fn test_validate_fields_non_empty() {
    let input = input("struct TestPixel { r: u8, }");
    let fields = validate_struct(&input).unwrap();
    assert!(validate_fields(&input, fields).is_ok());
}

#[test]
fn test_validate_fields_empty() {
    let input = input("struct TestPixel {}");
    let fields = validate_struct(&input).unwrap();
    let result = validate_fields(&input, fields);
    assert!(result.is_err());
    assert!(result.err().unwrap().message.contains("at least one field"));
}

#[test]
fn test_validate_fields_unit_struct() {
    let input = input("struct UnitPixel;");
    let fields = validate_struct(&input).unwrap();
    let result = validate_fields(&input, fields);
    assert!(result.is_err());
    assert!(result.err().unwrap().message.contains("at least one field"));
}

#[test]
fn test_validate_fields_empty_tuple_struct() {
    let input = input("struct TestPixel();");
    let fields = validate_struct(&input).unwrap();
    let result = validate_fields(&input, fields);
    assert!(result.is_err());
    assert!(result.err().unwrap().message.contains("at least one field"));
}

#[test]
fn test_parse_no_attribute_yields_trait() {
    let strategy = parse_strategy_named(input("struct P { x: u8 }")).unwrap();
    assert!(matches!(strategy, ZeroStrategy::Trait));
}

#[test]
fn test_parse_zero_default_attribute() {
    let strategy = parse_strategy_named(input("struct P { #[zero(default)] x: u8, }")).unwrap();
    assert!(matches!(strategy, ZeroStrategy::Default));
}

#[test]
fn test_parse_zero_expr_attribute_literal() {
    let strategy = parse_strategy_named(input("struct P { #[zero(42)] x: u8, }")).unwrap();
    assert!(matches!(strategy, ZeroStrategy::Expr(_)));
}

#[test]
fn test_parse_zero_expr_attribute_function_call() {
    let strategy = parse_strategy_named(input("struct P { #[zero(MyType::new(10))] x: MyType, }")).unwrap();
    assert!(matches!(strategy, ZeroStrategy::Expr(_)));
}

#[test]
fn test_parse_zero_expr_attribute_complex_expr() {
    let strategy = parse_strategy_named(input("struct P { #[zero({ let v = 3 + 4; v })] x: u8, }")).unwrap();
    assert!(matches!(strategy, ZeroStrategy::Expr(_)));
}

#[test]
fn test_parse_bare_zero_rejected() {
    let err = parse_strategy_named(input("struct P { #[zero] x: u8, }")).unwrap_err();
    assert!(err.message.contains("bare #[zero]"));
}

#[test]
fn test_parse_empty_zero_parens_rejected() {
    let err = parse_strategy_named(input("struct P { #[zero()] x: u8, }")).unwrap_err();
    assert!(err.message.contains("empty #[zero()]"));
}

#[test]
fn test_parse_name_value_rejected() {
    let err = parse_strategy_named(input("struct P { #[zero = \"default\"] x: u8, }")).unwrap_err();
    assert!(err.message.contains("#[zero = ...] is not supported"));
}

#[test]
fn test_parse_duplicate_zero_rejected() {
    let err = parse_strategy_named(input("struct P { #[zero(default)] #[zero(42)] x: u8, }")).unwrap_err();
    assert!(err.message.contains("duplicate"));
}

#[test]
fn test_parse_tuple_struct_no_attr() {
    let strategy = parse_strategy_named(input("struct P(u8);")).unwrap();
    assert!(matches!(strategy, ZeroStrategy::Trait));
}

#[test]
fn test_parse_tuple_struct_with_default_attr() {
    let strategy = parse_strategy_named(input("struct P(#[zero(default)] u8);")).unwrap();
    assert!(matches!(strategy, ZeroStrategy::Default));
}

#[test]
fn test_parse_tuple_struct_with_expr_attr() {
    let strategy = parse_strategy_named(input("struct P(#[zero(99)] u8);")).unwrap();
    assert!(matches!(strategy, ZeroStrategy::Expr(_)));
}

#[test]
fn test_derive_named_struct() {
    let output = zeroable_pixel::derive(input("struct Rgb8 { r: u8, g: u8, b: u8, }")).unwrap();
    assert!(output.contains("ZeroablePixel"));
    assert!(output.contains("fn zero"));
    assert!(output.contains("r :"));
    assert!(output.contains("g :"));
    assert!(output.contains("b :"));
}

#[test]
fn test_derive_tuple_struct() {
    let output = zeroable_pixel::derive(input("struct Mono8(u8);")).unwrap();
    assert!(output.contains("ZeroablePixel"));
    assert!(output.contains("fn zero"));
    assert!(output.contains("Mono8"));
}

#[test]
fn zeroable_pixel_test_derive_rejects_enum() {
    let result = zeroable_pixel::derive(input("enum BadPixel { Red, Green, }"));
    assert!(result.is_err());
    assert!(result.err().unwrap().message.contains("not enums"));
}

#[test]
fn zeroable_pixel_test_derive_rejects_union() {
    let result = zeroable_pixel::derive(input("union BadPixel { a: u8, b: u16, }"));
    assert!(result.is_err());
    assert!(result.err().unwrap().message.contains("not unions"));
}

#[test]
fn zeroable_pixel_test_derive_rejects_empty_struct() {
    let result = zeroable_pixel::derive(input("struct Empty {}"));
    assert!(result.is_err());
    assert!(result.err().unwrap().message.contains("at least one field"));
}

#[test]
fn test_derive_named_struct_generates_qualified_zero_calls() {
    let output = zeroable_pixel::derive(input("struct TestPixel { x: u16, }")).unwrap();
    assert!(output.contains("ZeroablePixel"));
    assert!(output.contains(":: zero"));
}

#[test]
fn test_derive_tuple_struct_multi_field() {
    let output = zeroable_pixel::derive(input("struct TestPixel(u8, u16, u32);")).unwrap();
    assert!(output.contains("ZeroablePixel"));
    assert!(output.contains("u8"));
    assert!(output.contains("u16"));
    assert!(output.contains("u32"));
}

#[test]
fn test_derive_with_generic_type_field() {
    let output = zeroable_pixel::derive(input("struct TestPixel { value: Saturating<u8>, }")).unwrap();
    assert!(output.contains("Saturating"));
}

#[test]
fn test_generate_zero_body_named() {
    let input = input("struct Pixel { r: u8, g: u8, }");
    let fields = validate_struct(&input).unwrap();
    let output = generate_zero_body(&input.ident, fields).unwrap();
    assert!(output.contains("Pixel"));
    assert!(output.contains("r :"));
    assert!(output.contains("g :"));
}

#[test]
fn test_generate_zero_body_tuple() {
    let input = input("struct Pixel(u8, u16);");
    let fields = validate_struct(&input).unwrap();
    let output = generate_zero_body(&input.ident, fields).unwrap();
    assert!(output.contains("Pixel"));
    assert!(output.contains("u8"));
    assert!(output.contains("u16"));
}

#[test]
fn test_generate_zero_body_unit() {
    let input = input("struct Pixel;");
    let fields = validate_struct(&input).unwrap();
    let output = generate_zero_body(&input.ident, fields).unwrap();
    assert!(output.contains("Pixel"));
}

#[test]
fn test_derive_named_with_default_attr() {
    let src = "struct P { #[zero(default)] x: u8, }";
    let output = zeroable_pixel::derive(input(src)).unwrap();
    assert!(output.contains("Default"));
    assert!(output.contains("ZeroablePixel"));
    let input = input(src);
    let fields = validate_struct(&input).unwrap();
    let zero_body = generate_zero_body(&input.ident, fields).unwrap();
    assert!(!zero_body.contains("ZeroablePixel"));
    assert!(zero_body.contains("Default"));
}

#[test]
fn test_derive_named_with_expr_attr() {
    let output = zeroable_pixel::derive(input("struct P { #[zero(42u8)] x: u8, }")).unwrap();
    assert!(output.contains("42u8"));
}

#[test]
fn test_derive_named_mixed_strategies() {
    let output = zeroable_pixel::derive(input(
        "struct P { r: u8, #[zero(default)] meta: SomeType, #[zero(MyTag::new(5))] tag: MyTag, }",
    ))
    .unwrap();
    assert!(output.contains("ZeroablePixel"));
    assert!(output.contains("Default"));
    assert!(output.contains("MyTag :: new"));
}

#[test]
fn test_derive_tuple_with_default_attr() {
    let output = zeroable_pixel::derive(input("struct P(#[zero(default)] u8);")).unwrap();
    assert!(output.contains("Default"));
}

#[test]
fn test_derive_tuple_with_expr_attr() {
    let output = zeroable_pixel::derive(input("struct P(#[zero(99)] u8);")).unwrap();
    assert!(output.contains("99"));
}

#[test]
fn test_derive_tuple_mixed_strategies() {
    let output = zeroable_pixel::derive(input("struct P(u8, #[zero(default)] u16, #[zero(100u32)] u32);")).unwrap();
    assert!(output.contains("ZeroablePixel"));
    assert!(output.contains("Default"));
    assert!(output.contains("100u32"));
}

#[test]
fn test_derive_bare_zero_attr_rejected() {
    let result = zeroable_pixel::derive(input("struct P { #[zero] x: u8, }"));
    assert!(result.is_err());
    assert!(result.err().unwrap().message.contains("bare #[zero]"));
}

#[test]
fn test_derive_empty_zero_attr_rejected() {
    let result = zeroable_pixel::derive(input("struct P { #[zero()] x: u8, }"));
    assert!(result.is_err());
    assert!(result.err().unwrap().message.contains("empty #[zero()]"));
}

#[test]
fn test_derive_name_value_rejected() {
    let result = zeroable_pixel::derive(input("struct P { #[zero = \"default\"] x: u8, }"));
    assert!(result.is_err());
    assert!(result.err().unwrap().message.contains("#[zero = ...] is not supported"));
}

#[test]
fn test_derive_duplicate_zero_attr_rejected() {
    let result = zeroable_pixel::derive(input("struct P { #[zero(default)] #[zero(42)] x: u8, }"));
    assert!(result.is_err());
    assert!(result.err().unwrap().message.contains("duplicate"));
}

#[test]
fn test_derive_expr_method_call() {
    let output = zeroable_pixel::derive(input("struct P { #[zero(SomeType::with_value(1, 2, 3))] x: SomeType, }")).unwrap();
    assert!(output.contains("SomeType :: with_value"));
}

#[test]
fn test_derive_expr_block() {
    let output = zeroable_pixel::derive(input("struct P { #[zero({ let v = 1 + 2; v })] x: u8, }")).unwrap();
    assert!(output.contains("let v"));
}

#[test]
fn test_non_zero_attrs_ignored() {
    let output = zeroable_pixel::derive(input("struct P { #[allow(unused)] #[cfg(test)] x: u8, }")).unwrap();
    assert!(output.contains("ZeroablePixel"));
}

#[test]
fn test_debug_zero_strategy_trait() {
    let strategy = ZeroStrategy::Trait;
    assert_eq!(strategy.describe(), "ZeroStrategy::Trait");
}

#[test]
fn test_debug_zero_strategy_default() {
    let strategy = ZeroStrategy::Default;
    assert_eq!(strategy.describe(), "ZeroStrategy::Default");
}

#[test]
fn test_debug_zero_strategy_expr() {
    let strategy = ZeroStrategy::Expr("42u8".to_string());
    let dbg = strategy.describe();
    assert!(dbg.starts_with("ZeroStrategy::Expr("));
    assert!(dbg.contains("42"));
}

#[test]
fn test_parse_zero_invalid_expression_rejected() {
    let result = parse_strategy_named(input("struct P { #[zero(in)] x: u8, }"));
    assert!(result.is_err());
}

#[test]
fn test_derive_named_invalid_expression_rejected() {
    let result = zeroable_pixel::derive(input("struct P { #[zero(in)] x: u8, }"));
    assert!(result.is_err());
}

#[test]
fn test_derive_tuple_bare_zero_attr_rejected() {
    let result = zeroable_pixel::derive(input("struct P(#[zero] u8);"));
    assert!(result.is_err());
    assert!(result.err().unwrap().message.contains("bare #[zero]"));
}

#[test]
fn test_derive_tuple_empty_zero_attr_rejected() {
    let result = zeroable_pixel::derive(input("struct P(#[zero()] u8);"));
    assert!(result.is_err());
    assert!(result.err().unwrap().message.contains("empty #[zero()]"));
}

#[test]
fn test_derive_tuple_duplicate_zero_attr_rejected() {
    let result = zeroable_pixel::derive(input("struct P(#[zero(default)] #[zero(42)] u8);"));
    assert!(result.is_err());
    assert!(result.err().unwrap().message.contains("duplicate"));
}

#[test]
fn test_derive_tuple_name_value_rejected() {
    let result = zeroable_pixel::derive(input("struct P(#[zero = \"default\"] u8);"));
    assert!(result.is_err());
    assert!(result.err().unwrap().message.contains("#[zero = ...] is not supported"));
}

#[test]
fn test_derive_tuple_invalid_expression_rejected() {
    let result = zeroable_pixel::derive(input("struct P(#[zero(in)] u8);"));
    assert!(result.is_err());
}

/// The compile-fail cases of the derive: each input is rejected.
#[test]
fn zeroable_pixel_compile_tests() {
    let cases = [
        ("#[derive(Clone, Copy, ZeroablePixel)] pub enum BadPixel { Red, Green, Blue, }", "not enums"),
        ("#[derive(Copy, Clone, ZeroablePixel)] pub union BadPixel { pub a: u8, pub b: u16, }", "not unions"),
        ("#[derive(Clone, Copy, ZeroablePixel)] pub struct Empty {}", "at least one field"),
        ("#[derive(Clone, Copy, ZeroablePixel)] pub struct BadPixel { #[zero] pub x: u8, }", "bare #[zero]"),
        ("#[derive(Clone, Copy, ZeroablePixel)] pub struct BadPixel { #[zero()] pub x: u8, }", "empty #[zero()]"),
        ("#[derive(Clone, Copy, ZeroablePixel)] pub struct BadPixel { #[zero(default)] #[zero(42)] pub x: u8, }", "duplicate"),
        ("#[derive(Clone, Copy, ZeroablePixel)] pub struct BadPixel { #[zero = \"default\"] pub x: u8, }", "#[zero = ...] is not supported"),
    ];
    for (src, expected) in cases {
        let err = zeroable_pixel::derive(input(src)).unwrap_err();
        assert!(err.message.contains(expected), "{src}: {}", err.message);
    }
}
