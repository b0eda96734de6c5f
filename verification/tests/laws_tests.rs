#![allow(dead_code)]

use fovea_derive::model::{Attribute, Data, DeriveInput, Field, Fields, Generics, Meta, TokenTree};
use quote::ToTokens;

fn token_trees(ts: proc_macro2::TokenStream) -> Vec<TokenTree> {
    ts.into_iter()
        .map(|tt| match tt {
            proc_macro2::TokenTree::Ident(i) => TokenTree::Ident(i.to_string()),
            proc_macro2::TokenTree::Punct(p) => {
                TokenTree::Punct(p.as_char(), p.spacing() == proc_macro2::Spacing::Joint)
            }
            proc_macro2::TokenTree::Literal(l) => TokenTree::Literal(l.to_string()),
            proc_macro2::TokenTree::Group(g) => TokenTree::Group(g.to_string()),
        })
        .collect()
}

fn attribute(a: &syn::Attribute) -> Attribute {
    Attribute {
        name: a.path().get_ident().map(|i| i.to_string()),
        meta: match &a.meta {
            syn::Meta::Path(_) => Meta::Path,
            syn::Meta::List(l) => Meta::List(token_trees(l.tokens.clone())),
            syn::Meta::NameValue(_) => Meta::NameValue,
        },
    }
}

fn field(f: &syn::Field) -> Field {
    Field {
        ident: f.ident.as_ref().map(|i| i.to_string()),
        ty: f.ty.to_token_stream().to_string(),
        attrs: f.attrs.iter().map(attribute).collect(),
    }
}

fn fields_of(f: &syn::Fields) -> Fields {
    match f {
        syn::Fields::Named(n) => Fields::Named(n.named.iter().map(field).collect()),
        syn::Fields::Unnamed(u) => Fields::Unnamed(u.unnamed.iter().map(field).collect()),
        syn::Fields::Unit => Fields::Unit,
    }
}

/// Parses an item the way the compiler hands it to a derive.
fn input(src: &str) -> DeriveInput {
    let d: syn::DeriveInput = syn::parse_str(src).unwrap();
    let (ig, tg, wc) = d.generics.split_for_impl();
    DeriveInput {
        attrs: d.attrs.iter().map(attribute).collect(),
        ident: d.ident.to_string(),
        generics: Generics {
            impl_generics: ig.to_token_stream().to_string(),
            ty_generics: tg.to_token_stream().to_string(),
            where_clause: wc.map(|w| w.to_token_stream().to_string()).unwrap_or_default(),
        },
        data: match &d.data {
            syn::Data::Struct(s) => Data::Struct(fields_of(&s.fields)),
            syn::Data::Enum(_) => Data::Enum,
            syn::Data::Union(_) => Data::Union,
        },
    }
}

/// The fields of a struct input.
fn struct_fields(input: &DeriveInput) -> &Fields {
    match &input.data {
        Data::Struct(f) => f,
        _ => panic!("expected struct"),
    }
}

/// The tokens of a `#[..]`-free token text, such as a type.
fn tokens_of(src: &str) -> Vec<TokenTree> {
    token_trees(src.parse().unwrap())
}

use fovea_derive::homogeneous_pixel::extract_uniform_channel;
use fovea_derive::linear_pixel::{field_trait_path, generate_add, generate_mul, parse_linear_attr, LinearAttr};
use fovea_derive::plain_pixel::Repr;

use fovea_derive::zeroable_pixel::{generate_zero_body, strategy_for_zero_meta};
use fovea_derive::model::{DeriveError, ErrorSite};
use fovea_derive::zeroable_pixel::parse_zero_attr;
use fovea_derive::{homogeneous_pixel, linear_pixel, plain_pixel, white_channel, zeroable_pixel};

/// The output re-lexes to exactly itself: it is printed token text.
fn is_canonical(out: &str) -> bool {
    let ts: proc_macro2::TokenStream = out.parse().unwrap();
    ts.to_string() == out
}

fn linear_attr_text(r: &Result<LinearAttr, DeriveError>) -> String {
    match r {
        Ok(a) => format!("Ok({:?}, {})", a.accumulator, a.no_space),
        Err(e) => format!("Err({}, {:?})", e.message, e.site),
    }
}

// HomogeneousPixel accepts what PlainPixel accepts exactly when the fields share one type.

#[test]
fn law_homogeneous_is_plain_with_uniform_fields_mixed() {
    let src = "#[repr(C)] struct P { a: u8, b: u16 }";
    assert!(plain_pixel::derive(input(src)).is_ok());
    let e = homogeneous_pixel::derive(input(src)).unwrap_err();
    assert_eq!(e.site, ErrorSite::FieldType(1));
}

#[test]
fn law_homogeneous_is_plain_with_uniform_fields_uniform() {
    let src = "#[repr(C)] struct P { a: u8, b: u8 }";
    assert!(plain_pixel::derive(input(src)).is_ok());
    assert!(homogeneous_pixel::derive(input(src)).is_ok());
}

#[test]
fn law_homogeneous_is_plain_with_uniform_fields_both_reject() {
    let src = "struct P { a: u8, b: u8 }";
    assert!(plain_pixel::derive(input(src)).is_err());
    assert!(homogeneous_pixel::derive(input(src)).is_err());
}

#[test]
fn law_homogeneous_channels_match_fields_exact_output() {
    let out = homogeneous_pixel::derive(input("#[repr(C)] struct Rgb8 { r: u8, g: u8, b: u8 }")).unwrap();
    assert_eq!(
        out,
        "unsafe impl :: fovea :: pixel :: HomogeneousPixel for Rgb8 { type Channel = u8 ; type Channels = [u8 ; 3usize] ; } \
         const _ : () = { let _ = < Rgb8 as :: fovea :: pixel :: HomogeneousPixel > :: _SIZE_ASSERT ; } ;"
    );
    assert!(is_canonical(&out));
}

#[test]
fn homogeneous_channel_count_is_decimal() {
    let fields: Vec<String> = (0..12).map(|i| format!("c{}: u16", i)).collect();
    let src = format!("#[repr(C)] struct Many {{ {} }}", fields.join(", "));
    let out = homogeneous_pixel::derive(input(&src)).unwrap();
    assert!(out.contains("type Channels = [u16 ; 12usize]"));
}

#[test]
fn homogeneous_mismatch_names_field_and_index() {
    let e = homogeneous_pixel::derive(input("#[repr(C)] struct P { a: u8, b: u8, c: u32 }")).unwrap_err();
    assert_eq!(e.site, ErrorSite::FieldType(2));
    assert!(e.message.contains("`c`"));
    assert!(e.message.contains("index 2"));
}

#[test]
fn law_white_channel_accepts_homogeneous_examples() {
    for src in [
        "#[repr(C)] struct Rgb8 { r: u8, g: u8, b: u8 }",
        "#[repr(transparent)] struct Gray(u16);",
        "#[repr(C)] struct G<T: Copy> where T: Default { a: T, b: T }",
    ] {
        assert!(homogeneous_pixel::derive(input(src)).is_ok(), "{}", src);
        assert!(white_channel::derive(input(src)).is_ok(), "{}", src);
    }
}

#[test]
fn white_channel_exact_output_with_generics() {
    let out = white_channel::derive(input("struct G<T: Copy> where T: Default { a: T }")).unwrap();
    assert_eq!(
        out,
        "impl < T : Copy > :: fovea :: pixel :: WhiteChannel for G < T > where T : Default { # [inline (always)] \
         fn white_channel () -> < Self as :: fovea :: pixel :: HomogeneousPixel > :: Channel { < < Self as :: fovea :: \
         pixel :: HomogeneousPixel > :: Channel as :: fovea :: pixel :: BoundedChannel > :: MAX } }"
    );
    assert!(is_canonical(&out));
}

#[test]
fn white_channel_rejects_unit_enum_union() {
    let e = white_channel::derive(input("struct U;")).unwrap_err();
    assert_eq!(e.message, "WhiteChannel cannot be derived for unit structs (no channels)");
    assert_eq!(e.site, ErrorSite::Ident);
    let e = white_channel::derive(input("enum E { A }")).unwrap_err();
    assert_eq!(e.message, "WhiteChannel can only be derived for structs, not enums");
    let e = white_channel::derive(input("union U { a: u8 }")).unwrap_err();
    assert_eq!(e.message, "WhiteChannel can only be derived for structs, not unions");
}

#[test]
fn law_plain_channels_one_per_field_exact_output() {
    let out = plain_pixel::derive(input("#[repr(C)] struct P { a: u8, b: Saturating<u16> }")).unwrap();
    assert_eq!(
        out,
        "unsafe impl :: fovea :: pixel :: PlainChannel for P { } \
         unsafe impl :: fovea :: pixel :: PlainPixel for P { const CHANNELS : & 'static [usize] = \
         & [< u8 as :: fovea :: pixel :: PlainChannel > :: SIZE , \
         < Saturating < u16 > as :: fovea :: pixel :: PlainChannel > :: SIZE] ; } \
         const _ : () = { let _ = < P as :: fovea :: pixel :: PlainChannel > :: _ASSERT_SIZE ; } ; \
         const _ : () = { let _ = < P as :: fovea :: pixel :: PlainPixel > :: _ASSERT_CHANNELS ; } ;"
    );
    assert!(is_canonical(&out));
}

#[test]
fn law_plain_channels_one_per_field_count() {
    let out = plain_pixel::derive(input("#[repr(C)] struct P(u8, u8, u8, u8, u8);")).unwrap();
    assert_eq!(out.matches("PlainChannel > :: SIZE").count(), 5);
}

#[test]
fn law_zeroable_accepts_examples() {
    assert!(zeroable_pixel::derive(input("struct P { a: u8, #[zero(default)] b: u8, #[zero(1 + 2)] c: u8 }")).is_ok());
    assert!(zeroable_pixel::derive(input("struct P;")).is_err());
    assert!(zeroable_pixel::derive(input("struct P {}")).is_err());
    assert!(zeroable_pixel::derive(input("enum P { A }")).is_err());
    assert!(zeroable_pixel::derive(input("struct P { #[zero] a: u8 }")).is_err());
}

#[test]
fn law_zeroable_accepts_plain_example() {
    let src = "#[repr(C)] struct P { a: u8, b: u16 }";
    assert!(plain_pixel::derive(input(src)).is_ok());
    let out = zeroable_pixel::derive(input(src)).unwrap();
    assert!(out.contains("< u8 as :: fovea :: pixel :: ZeroablePixel > :: zero ()"));
    assert!(out.contains("< u16 as :: fovea :: pixel :: ZeroablePixel > :: zero ()"));
    assert!(is_canonical(&out));
}

#[test]
fn law_linear_accepts_examples() {
    assert!(linear_pixel::derive(input("#[linear(accumulator = f32)] struct P { a: u8 }")).is_ok());
    assert!(linear_pixel::derive(input("#[linear(accumulator = f32)] struct P;")).is_err());
    assert!(linear_pixel::derive(input("struct P { a: u8 }")).is_err());
    assert!(linear_pixel::derive(input("#[linear(accumulator = f32)] struct P { #[linear(flat)] a: u8 }")).is_err());
}

#[test]
fn law_linear_accepts_plain_example() {
    let src = "#[repr(C)] #[linear(accumulator = Self)] struct P { a: u8, b: u8 }";
    assert!(plain_pixel::derive(input(src)).is_ok());
    let out = linear_pixel::derive(input(src)).unwrap();
    assert!(out.contains("< u8 as :: fovea :: pixel :: LinearChannel < f32 > >"));
    assert!(!out.contains("LinearPixel < f32 > >"));
    assert!(is_canonical(&out));
}

#[test]
fn law_zero_strategy_ignores_other_attributes_example() {
    let plain = input("struct P { #[zero(7)] a: u8 }");
    let padded = input("struct P { #[doc = \"x\"] #[allow(unused)] #[zero(7)] a: u8 }");
    let a = parse_zero_attr(struct_fields(&plain).get(0)).unwrap();
    let b = parse_zero_attr(struct_fields(&padded).get(0)).unwrap();
    assert_eq!(a.describe(), b.describe());

    let plain = input("struct P { #[zero] a: u8 }");
    let padded = input("struct P { #[allow(unused)] #[zero] a: u8 }");
    let a = parse_zero_attr(struct_fields(&plain).get(0)).unwrap_err();
    let b = parse_zero_attr(struct_fields(&padded).get(0)).unwrap_err();
    assert_eq!(a.message, b.message);
    assert_eq!(a.site, ErrorSite::Attr(0));
    assert_eq!(b.site, ErrorSite::Attr(1));
}

#[test]
fn law_repr_ignores_other_attributes_example() {
    let a = plain_pixel::derive(input("#[repr(C)] struct P { a: u8 }")).unwrap();
    let b = plain_pixel::derive(input("#[derive(Clone)] #[doc = \"x\"] #[repr(C)] struct P { a: u8 }")).unwrap();
    assert_eq!(a, b);
}

#[test]
fn law_linear_attr_ignores_other_attributes_example() {
    let a = parse_linear_attr(&input("#[linear(accumulator = f32, no_space)] struct P { a: u8 }").attrs);
    let b = parse_linear_attr(&input("#[repr(C)] #[linear(accumulator = f32, no_space)] struct P { a: u8 }").attrs);
    assert_eq!(linear_attr_text(&a), linear_attr_text(&b));

    let a = parse_linear_attr(&input("#[linear(accumulator = f32, bogus)] struct P { a: u8 }").attrs).unwrap_err();
    let b = parse_linear_attr(&input("#[repr(C)] #[doc = \"x\"] #[linear(accumulator = f32, bogus)] struct P { a: u8 }").attrs)
        .unwrap_err();
    assert_eq!(a.message, b.message);
    assert_eq!(a.site, ErrorSite::AttrToken(0, 4));
    assert_eq!(b.site, ErrorSite::AttrToken(2, 4));
}

#[test]
fn zeroable_field_attr_error_moved_to_field() {
    let e = zeroable_pixel::derive(input("struct P { a: u8, #[allow(unused)] #[zero] b: u8 }")).unwrap_err();
    assert_eq!(e.site, ErrorSite::FieldAttr(1, 1));
}

#[test]
fn law_zero_attr_decides_examples() {
    let d = input("struct P { #[doc = \"a\"] a: u8, #[zero(default)] #[allow(unused)] b: u8, #[zero(1)] #[zero(2)] c: u8, #[zero] #[zero(2)] d: u8 }");
    let f = struct_fields(&d);
    assert_eq!(parse_zero_attr(f.get(0)).unwrap().describe(), "ZeroStrategy::Trait");
    assert_eq!(parse_zero_attr(f.get(1)).unwrap().describe(), "ZeroStrategy::Default");
    let e = parse_zero_attr(f.get(2)).unwrap_err();
    assert_eq!(e.message, "duplicate #[zero(...)] attribute; only one is allowed per field");
    assert_eq!(e.site, ErrorSite::Attr(1));
    let e = parse_zero_attr(f.get(3)).unwrap_err();
    assert_eq!(e.message, "bare #[zero] is not allowed; use #[zero(default)] or #[zero(<expr>)]");
    assert_eq!(e.site, ErrorSite::Attr(0));
}

#[test]
fn law_field_trait_path_decides_examples() {
    let d = input("struct P { a: u8, #[doc = \"x\"] #[linear(nested)] b: Rgb, #[linear(nested)] #[linear(bogus)] c: Rgb, #[linear(nested, x)] e: u8 }");
    let f = struct_fields(&d);
    assert_eq!(field_trait_path(f.get(0)).unwrap(), ":: fovea :: pixel :: LinearChannel < f32 >");
    assert_eq!(field_trait_path(f.get(1)).unwrap(), ":: fovea :: pixel :: LinearPixel < f32 >");
    assert_eq!(field_trait_path(f.get(2)).unwrap(), ":: fovea :: pixel :: LinearPixel < f32 >");
    assert!(field_trait_path(f.get(3)).is_err());
}

#[test]
fn law_first_bad_field_reported() {
    let e = linear_pixel::derive(input(
        "#[linear(accumulator = f32)] struct P { a: u8, #[linear(x)] b: u8, #[linear(y)] c: u8 }",
    ))
    .unwrap_err();
    assert!(e.message.contains("`x`"));
    assert_eq!(e.site, ErrorSite::FieldAttrToken(1, 0, 0));
    let e = zeroable_pixel::derive(input("struct P { a: u8, #[zero] b: u8, #[zero = 1] c: u8 }")).unwrap_err();
    assert_eq!(e.site, ErrorSite::FieldAttr(1, 0));
}

#[test]
fn law_plain_and_homogeneous_accept_examples() {
    for (src, plain, homo) in [
        ("#[repr(C)] struct P { a: u8, b: u16 }", true, false),
        ("#[repr(C)] struct P { a: u8, b: u8 }", true, true),
        ("#[repr(transparent)] struct P(u8);", true, true),
        ("#[repr(transparent)] struct P(u8, u8);", false, false),
        ("#[repr(C, transparent)] struct P(u8);", false, false),
        ("#[repr(C)] struct P {}", false, false),
        ("#[repr(C)] enum P { A }", false, false),
    ] {
        assert_eq!(plain_pixel::derive(input(src)).is_ok(), plain, "{}", src);
        assert_eq!(homogeneous_pixel::derive(input(src)).is_ok(), homo, "{}", src);
    }
}

#[test]
fn law_extract_uniform_channel_examples() {
    let d = input("struct P { a: u8, b: u8, c: u8 }");
    let (t, n) = extract_uniform_channel(struct_fields(&d), &Repr::C).unwrap();
    assert_eq!((t.as_str(), n), ("u8", 3));
    let d = input("struct P(u16);");
    let (t, n) = extract_uniform_channel(struct_fields(&d), &Repr::Transparent).unwrap();
    assert_eq!((t.as_str(), n), ("u16", 1));
    let d = input("struct P(u8, u8, u16, u32);");
    let e = extract_uniform_channel(struct_fields(&d), &Repr::C).unwrap_err();
    assert_eq!(e.site, ErrorSite::FieldType(2));
}

#[test]
fn law_zero_body_one_init_per_field_example() {
    let d = input("struct P { a: u8, #[zero(default)] b: u16 }");
    let body = generate_zero_body("P", struct_fields(&d)).unwrap();
    assert_eq!(
        body,
        "P { a : < u8 as :: fovea :: pixel :: ZeroablePixel > :: zero () , b : < u16 as :: core :: default :: Default > :: default () }"
    );
}

#[test]
fn law_linear_pixel_one_call_per_field_example() {
    let out = linear_pixel::derive(input("#[linear(accumulator = Acc)] struct P { a: u8, #[linear(nested)] b: Rgb }")).unwrap();
    for m in ["to_accumulator", "scale", "scale_add", "uniform"] {
        let a = format!("< u8 as :: fovea :: pixel :: LinearChannel < f32 > > :: {} (", m);
        let b = format!("< Rgb as :: fovea :: pixel :: LinearPixel < f32 > > :: {} (", m);
        assert_eq!(out.matches(a.as_str()).count(), 1, "{}", m);
        assert_eq!(out.matches(b.as_str()).count(), 1, "{}", m);
    }
}

#[test]
fn law_operators_share_one_template_example() {
    let d = input("struct P { a: u8, b: u8 }");
    let add = generate_add("P", struct_fields(&d), &d.generics).unwrap();
    let mul = generate_mul("P", struct_fields(&d), &d.generics).unwrap();
    assert_eq!(add.replace("Add", "Mul").replace("fn add", "fn mul").replace(" + ", " * "), mul);
}

#[test]
fn law_linear_derive_impl_order_example() {
    let out = linear_pixel::derive(input("#[linear(accumulator = Acc)] struct P(u8);")).unwrap();
    let pos: Vec<usize> = ["ops :: Add for", "ops :: Sub for", "ops :: Mul for", "LinearPixel < f32 > for", "FromLinear < Acc > for", "LinearSpace for"]
        .iter()
        .map(|s| out.find(s).unwrap())
        .collect();
    assert!(pos.windows(2).all(|w| w[0] < w[1]));
}

#[test]
fn zero_meta_given_syn_verdict() {
    let list = Meta::List(tokens_of("1 + 2"));
    assert_eq!(strategy_for_zero_meta(&list, None).unwrap().describe(), "ZeroStrategy::Expr(1 + 2)");
    assert_eq!(strategy_for_zero_meta(&list, Some(String::from("no"))).unwrap_err(), "no");
    let default = Meta::List(tokens_of("default"));
    assert_eq!(strategy_for_zero_meta(&default, Some(String::from("no"))).unwrap().describe(), "ZeroStrategy::Default");
    assert!(strategy_for_zero_meta(&Meta::List(Vec::new()), None).unwrap_err().starts_with("empty #[zero()]"));
}

#[test]
fn zero_invalid_expression_reports_syn_message() {
    let e = zeroable_pixel::derive(input("struct P { a: u8, #[zero(1 +)] b: u8 }")).unwrap_err();
    let syn_message = syn::parse_str::<syn::Expr>("1 +").err().unwrap().to_string();
    assert_eq!(e.message, syn_message);
    assert_ne!(e.message, "1 +");
    assert_eq!(e.site, ErrorSite::FieldAttr(1, 0));
}
