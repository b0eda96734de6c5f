//! The generated code, written out: for every accepted input, the exact
//! text each derive emits, stated field by field over the field's own
//! name, index, type and trait path, in terms of the text building blocks
//! alone.
use vstd::prelude::*;

use crate::laws::{all_field_paths_ok, input_fields, law_field_paths_per_field, law_zero_inits_per_field, paths_of};
use crate::model::{field_name, field_seq, impl_parts, Data, DeriveInput, ErrorSite, Field, Fields, Generics, TokenTree};
use crate::text::{braced, bracketed, comma_list, decimal, parened, words};
use crate::zeroable_pixel::{spec_parse_zero_attr, ZeroChoice};

verus! {

/// `< T as PATH >`
pub open spec fn seen_as(ty: Seq<char>, path: Seq<char>) -> Seq<char> {
    "< "@ + ty + " as "@ + path + " >"@
}

/// How the generated code reaches field `i`: `self . a` reads its name,
/// or its index in a tuple struct.
pub open spec fn field_ref(f: Field, i: int, named: bool) -> Seq<char> {
    if named {
        field_name(f)
    } else {
        decimal(i as nat)
    }
}

// ---------------------------------------------------------------- WhiteChannel

/// Every struct with fields, named or tuple, gets the same `WhiteChannel`
/// impl: `white_channel()` returns the channel type's
/// `BoundedChannel::MAX`, the generics carried over.
pub proof fn law_white_channel_returns_channel_max(input: DeriveInput)
    requires
        input.data matches Data::Struct(f) && !(f is Unit),
    ensures
        crate::white_channel::spec_derive(input) == Ok::<Seq<char>, (Seq<char>, ErrorSite)>(words(seq![
            "impl"@,
            input.generics.impl_generics@,
            ":: fovea :: pixel :: WhiteChannel"@,
            "for"@,
            input.ident@,
            input.generics.ty_generics@,
            input.generics.where_clause@,
            "{ # [inline (always)] fn white_channel () -> < Self as :: fovea :: pixel :: HomogeneousPixel > :: Channel { < < Self as :: fovea :: pixel :: HomogeneousPixel > :: Channel as :: fovea :: pixel :: BoundedChannel > :: MAX } }"@
        ])),
{
    reveal_strlit("# [inline (always)] fn white_channel () -> < Self as :: fovea :: pixel :: HomogeneousPixel > :: Channel { < < Self as :: fovea :: pixel :: HomogeneousPixel > :: Channel as :: fovea :: pixel :: BoundedChannel > :: MAX }");
    reveal_strlit("{ ");
    reveal_strlit(" }");
    reveal_strlit("{ # [inline (always)] fn white_channel () -> < Self as :: fovea :: pixel :: HomogeneousPixel > :: Channel { < < Self as :: fovea :: pixel :: HomogeneousPixel > :: Channel as :: fovea :: pixel :: BoundedChannel > :: MAX } }");
    assert(braced(crate::white_channel::white_body()) =~= "{ # [inline (always)] fn white_channel () -> < Self as :: fovea :: pixel :: HomogeneousPixel > :: Channel { < < Self as :: fovea :: pixel :: HomogeneousPixel > :: Channel as :: fovea :: pixel :: BoundedChannel > :: MAX } }"@);
}

/// Two structs that differ only in their fields get the same
/// `WhiteChannel` impl, whatever fields they have (named or tuple).
pub proof fn law_white_channel_ignores_fields(a: DeriveInput, b: DeriveInput)
    requires
        a.ident@ == b.ident@,
        a.generics == b.generics,
        a.data matches Data::Struct(f) && !(f is Unit),
        b.data matches Data::Struct(f) && !(f is Unit),
    ensures
        crate::white_channel::spec_derive(a) == crate::white_channel::spec_derive(b),
{
    law_white_channel_returns_channel_max(a);
    law_white_channel_returns_channel_max(b);
}

// ---------------------------------------------------------------- ZeroablePixel

/// The expression a field is zeroed with, by its strategy.
pub open spec fn zero_init_text(f: Field) -> Seq<char> {
    match spec_parse_zero_attr(f)->Ok_0 {
        ZeroChoice::Trait => "< "@ + f.ty@ + " as :: fovea :: pixel :: ZeroablePixel > :: zero ()"@,
        ZeroChoice::Default => "< "@ + f.ty@ + " as :: core :: default :: Default > :: default ()"@,
        ZeroChoice::Expr(e) => e,
    }
}

/// The value `zero()` builds: `Name { f : init , .. }` or `Name (init , ..)`,
/// entry `i` initialising field `i`.
pub open spec fn zero_value_text(name: Seq<char>, fields: Fields) -> Seq<char> {
    match fields {
        Fields::Named(v) => words(seq![name, braced(comma_list(Seq::new(v@.len(), |i: int| field_name(v@[i]) + " : "@ + zero_init_text(v@[i]))))]),
        Fields::Unnamed(v) => words(seq![name, parened(comma_list(Seq::new(v@.len(), |i: int| zero_init_text(v@[i]))))]),
        Fields::Unit => name,
    }
}

/// An accepted ZeroablePixel derive emits `ZeroablePixel` with `zero()`
/// building the struct field by field, each field `i` from its own type and
/// strategy, and a `Default` impl whose `default()` returns `zero()`.
pub proof fn law_zeroable_output(input: DeriveInput)
    requires
        crate::zeroable_pixel::spec_derive(input) is Ok,
    ensures
        ({
            let g = input.generics;
            let name = input.ident@;
            crate::zeroable_pixel::spec_derive(input) == Ok::<Seq<char>, (Seq<char>, ErrorSite)>(words(seq![
                words(impl_parts(
                    g,
                    ":: fovea :: pixel :: ZeroablePixel"@,
                    name,
                    words(seq!["fn zero () -> Self"@, braced(zero_value_text(name, input.data->Struct_0))]),
                )),
                words(impl_parts(
                    g,
                    ":: core :: default :: Default"@,
                    name,
                    "fn default () -> Self { < Self as :: fovea :: pixel :: ZeroablePixel > :: zero () }"@,
                ))
            ]))
        }),
{
    let fields = input.data->Struct_0;
    let name = input.ident@;
    crate::laws::law_zeroable_accepts(input);
    match fields {
        Fields::Named(v) => {
            law_zero_inits_per_field(v@, true);
            assert(crate::zeroable_pixel::zero_inits(v@, true)->Ok_0 =~= Seq::new(v@.len(), |i: int| field_name(v@[i]) + " : "@ + zero_init_text(v@[i])));
        },
        Fields::Unnamed(v) => {
            law_zero_inits_per_field(v@, false);
            assert(crate::zeroable_pixel::zero_inits(v@, false)->Ok_0 =~= Seq::new(v@.len(), |i: int| zero_init_text(v@[i])));
        },
        Fields::Unit => {},
    }
}

// ---------------------------------------------------------------- LinearPixel

/// One field's entry in a channel-wise operation: `self . a OP other . a`
/// (`sym` is the operator with a space on each side), keyed `a :` in a
/// struct with named fields.
pub open spec fn op_entry(f: Field, i: int, named: bool, sym: Seq<char>) -> Seq<char> {
    let a = field_ref(f, i, named);
    if named {
        a + " : self . "@ + a + sym + "other . "@ + a
    } else {
        "self . "@ + a + sym + "other . "@ + a
    }
}

/// The channel-wise operator impl, written out.
pub open spec fn op_text(name: Seq<char>, fields: Fields, g: Generics, tr: Seq<char>, method: Seq<char>, sym: Seq<char>) -> Seq<char> {
    let value = match fields {
        Fields::Named(v) => words(seq![name, braced(comma_list(Seq::new(v@.len(), |i: int| op_entry(v@[i], i, true, sym))))]),
        Fields::Unnamed(v) => words(seq![name, parened(comma_list(Seq::new(v@.len(), |i: int| op_entry(v@[i], i, false, sym))))]),
        Fields::Unit => Seq::empty(),
    };
    words(impl_parts(
        g,
        ":: std :: ops :: "@ + tr,
        name,
        words(seq!["type Output = Self ; # [inline (always)] fn "@ + method + " (self , other : Self) -> Self"@, braced(value)]),
    ))
}

/// `Add`, `Sub` and `Mul` combine each field `i` of `self` with the same
/// field of `other`, in field order, with `+`, `-` and `*`.
pub proof fn law_operators_channel_wise(name: Seq<char>, fields: Fields, g: Generics)
    requires
        !(fields is Unit),
    ensures
        crate::linear_pixel::spec_add(name, fields, g) == Ok::<Seq<char>, (Seq<char>, ErrorSite)>(op_text(name, fields, g, "Add"@, "add"@, " + "@)),
        crate::linear_pixel::spec_sub(name, fields, g) == Ok::<Seq<char>, (Seq<char>, ErrorSite)>(op_text(name, fields, g, "Sub"@, "sub"@, " - "@)),
        crate::linear_pixel::spec_mul(name, fields, g) == Ok::<Seq<char>, (Seq<char>, ErrorSite)>(op_text(name, fields, g, "Mul"@, "mul"@, " * "@)),
{
    reveal_strlit(":: std :: ops :: ");
    reveal_strlit("Add");
    reveal_strlit("Sub");
    reveal_strlit("Mul");
    reveal_strlit(":: std :: ops :: Add");
    reveal_strlit(":: std :: ops :: Sub");
    reveal_strlit(":: std :: ops :: Mul");
    reveal_strlit("type Output = Self ; # [inline (always)] fn ");
    reveal_strlit(" (self , other : Self) -> Self");
    reveal_strlit("add");
    reveal_strlit("sub");
    reveal_strlit("mul");
    reveal_strlit("type Output = Self ; # [inline (always)] fn add (self , other : Self) -> Self");
    reveal_strlit("type Output = Self ; # [inline (always)] fn sub (self , other : Self) -> Self");
    reveal_strlit("type Output = Self ; # [inline (always)] fn mul (self , other : Self) -> Self");
    assert(":: std :: ops :: "@ + "Add"@ =~= ":: std :: ops :: Add"@);
    assert(":: std :: ops :: "@ + "Sub"@ =~= ":: std :: ops :: Sub"@);
    assert(":: std :: ops :: "@ + "Mul"@ =~= ":: std :: ops :: Mul"@);
    assert("type Output = Self ; # [inline (always)] fn "@ + "add"@ + " (self , other : Self) -> Self"@
        =~= crate::linear_pixel::add_sig());
    assert("type Output = Self ; # [inline (always)] fn "@ + "sub"@ + " (self , other : Self) -> Self"@
        =~= crate::linear_pixel::sub_sig());
    assert("type Output = Self ; # [inline (always)] fn "@ + "mul"@ + " (self , other : Self) -> Self"@
        =~= crate::linear_pixel::mul_sig());
    match fields {
        Fields::Named(v) => {
            assert(Seq::new(v@.len(), |i: int| crate::linear_pixel::op_item(v@[i], i, true, " + "@)) =~= Seq::new(v@.len(), |i: int| op_entry(v@[i], i, true, " + "@)));
            assert(Seq::new(v@.len(), |i: int| crate::linear_pixel::op_item(v@[i], i, true, " - "@)) =~= Seq::new(v@.len(), |i: int| op_entry(v@[i], i, true, " - "@)));
            assert(Seq::new(v@.len(), |i: int| crate::linear_pixel::op_item(v@[i], i, true, " * "@)) =~= Seq::new(v@.len(), |i: int| op_entry(v@[i], i, true, " * "@)));
        },
        Fields::Unnamed(v) => {
            assert(Seq::new(v@.len(), |i: int| crate::linear_pixel::op_item(v@[i], i, false, " + "@)) =~= Seq::new(v@.len(), |i: int| op_entry(v@[i], i, false, " + "@)));
            assert(Seq::new(v@.len(), |i: int| crate::linear_pixel::op_item(v@[i], i, false, " - "@)) =~= Seq::new(v@.len(), |i: int| op_entry(v@[i], i, false, " - "@)));
            assert(Seq::new(v@.len(), |i: int| crate::linear_pixel::op_item(v@[i], i, false, " * "@)) =~= Seq::new(v@.len(), |i: int| op_entry(v@[i], i, false, " * "@)));
        },
        Fields::Unit => {},
    }
}

/// Method `m`'s call (0 `to_accumulator`, 1 `scale`, 2 `scale_add`,
/// 3 `uniform`) on a field of type `ty` through trait `path`, reached as
/// `self . a`; in a single-field tuple struct `scale_add` converts the
/// whole addend, otherwise it takes the addend's field `a`.
pub open spec fn call_text(m: int, ty: Seq<char>, path: Seq<char>, a: Seq<char>, single: bool) -> Seq<char> {
    let q = seen_as(ty, path);
    if m == 0 {
        q + " :: to_accumulator (& self . "@ + a + ")"@
    } else if m == 1 {
        q + " :: scale (& self . "@ + a + " , scalar)"@
    } else if m == 2 {
        if single {
            q + " :: scale_add (& self . "@ + a + " , scalar , :: core :: convert :: Into :: into (addend) ,)"@
        } else {
            q + " :: scale_add (& self . "@ + a + " , scalar , addend . "@ + a + " . into () ,)"@
        }
    } else {
        q + " :: uniform (scalar)"@
    }
}

/// Field `i`'s entry in the accumulator that method `m` builds: field
/// `i`'s own call, on `self . <field i>`, keyed by field `i`'s name in a
/// struct with named fields.
pub open spec fn acc_entry(m: int, fs: Seq<Field>, paths: Seq<Seq<char>>, i: int, named: bool) -> Seq<char> {
    let a = field_ref(fs[i], i, named);
    let c = call_text(m, fs[i].ty@, paths[i], a, false) + " . into ()"@;
    if named {
        a + " : "@ + c
    } else {
        c
    }
}

/// The body of method `m`: the accumulator built with one entry per
/// field, entry `i` from field `i`; a single-field tuple struct converts
/// its one field's result into the accumulator.
pub open spec fn method_text(m: int, fields: Fields, paths: Seq<Seq<char>>, acc: Seq<char>) -> Seq<char> {
    match fields {
        Fields::Named(v) => words(seq![acc, braced(comma_list(Seq::new(v@.len(), |i: int| acc_entry(m, v@, paths, i, true))))]),
        Fields::Unnamed(v) => if v@.len() == 1 {
            ":: core :: convert :: Into :: < "@ + acc + " > :: into "@ + parened(call_text(m, v@[0].ty@, paths[0], "0"@, true))
        } else {
            words(seq![acc, parened(comma_list(Seq::new(v@.len(), |i: int| acc_entry(m, v@, paths, i, false))))])
        },
        Fields::Unit => Seq::empty(),
    }
}

proof fn lemma_method_text(m: int, fields: Fields, paths: Seq<Seq<char>>, acc: Seq<char>)
    requires
        0 <= m <= 3,
    ensures
        crate::linear_pixel::method_body(m, fields, paths, acc) == method_text(m, fields, paths, acc),
{
    reveal_strlit("0");
    assert(decimal(0) =~= "0"@);
    match fields {
        Fields::Named(v) => {
            assert forall|i: int| 0 <= i < v@.len() implies crate::linear_pixel::method_item(m, v@[i], paths[i], i, true)
                == acc_entry(m, v@, paths, i, true) by {}
            assert(Seq::new(v@.len(), |i: int| crate::linear_pixel::method_item(m, v@[i], paths[i], i, true)) =~= Seq::new(
                v@.len(),
                |i: int| acc_entry(m, v@, paths, i, true),
            ));
        },
        Fields::Unnamed(v) => {
            assert forall|i: int| 0 <= i < v@.len() implies crate::linear_pixel::method_item(m, v@[i], paths[i], i, false)
                == acc_entry(m, v@, paths, i, false) by {}
            assert(Seq::new(v@.len(), |i: int| crate::linear_pixel::method_item(m, v@[i], paths[i], i, false)) =~= Seq::new(
                v@.len(),
                |i: int| acc_entry(m, v@, paths, i, false),
            ));
        },
        Fields::Unit => {},
    }
}

/// When every field's `#[linear(..)]` is accepted, the `LinearPixel<f32>`
/// impl names the accumulator and builds it in each of `to_accumulator`,
/// `scale`, `scale_add` and `uniform` with one entry per field: entry `i`
/// is field `i`'s call on `self . <field i>` through field `i`'s type and
/// its own trait path, in field order.
pub proof fn law_linear_pixel_output(name: Seq<char>, fields: Fields, acc: Seq<char>, g: Generics)
    requires
        !(fields is Unit),
        all_field_paths_ok(field_seq(fields)),
    ensures
        ({
            let p = paths_of(field_seq(fields));
            crate::linear_pixel::spec_linear_pixel(name, fields, acc, g) == Ok::<Seq<char>, (Seq<char>, ErrorSite)>(words(impl_parts(
                g,
                ":: fovea :: pixel :: LinearPixel < f32 >"@,
                name,
                words(seq![
                    "type Accumulator ="@,
                    acc,
                    "; # [inline (always)] fn to_accumulator (& self) -> Self :: Accumulator"@,
                    braced(method_text(0, fields, p, acc)),
                    "# [inline (always)] fn scale (& self , scalar : f32) -> Self :: Accumulator"@,
                    braced(method_text(1, fields, p, acc)),
                    "# [inline (always)] fn scale_add (& self , scalar : f32 , addend : Self :: Accumulator) -> Self :: Accumulator"@,
                    braced(method_text(2, fields, p, acc)),
                    "# [inline (always)] fn uniform (scalar : f32) -> Self :: Accumulator"@,
                    braced(method_text(3, fields, p, acc))
                ]),
            )))
        }),
{
    let p = paths_of(field_seq(fields));
    law_field_paths_per_field(field_seq(fields));
    assert(crate::linear_pixel::field_paths(field_seq(fields))->Ok_0 =~= p);
    lemma_method_text(0, fields, p, acc);
    lemma_method_text(1, fields, p, acc);
    lemma_method_text(2, fields, p, acc);
    lemma_method_text(3, fields, p, acc);
}

/// The value `from_linear` builds: `Name { a : from_linear (acc . a) , .. }`
/// or `Name (from_linear (acc . i) , ..)`, entry `i` reading the
/// accumulator's field `i` into field `i`; a single-field tuple struct
/// converts the whole accumulator.
pub open spec fn from_value_text(name: Seq<char>, fields: Fields) -> Seq<char> {
    match fields {
        Fields::Named(v) => words(seq![
            name,
            braced(comma_list(Seq::new(v@.len(), |i: int| field_name(v@[i]) + " : :: fovea :: pixel :: FromLinear :: from_linear (acc . "@ + field_name(v@[i]) + ")"@)))
        ]),
        Fields::Unnamed(v) => if v@.len() == 1 {
            words(seq![name, "(:: fovea :: pixel :: FromLinear :: from_linear (acc))"@])
        } else {
            words(seq![
                name,
                parened(comma_list(Seq::new(v@.len(), |i: int| ":: fovea :: pixel :: FromLinear :: from_linear (acc . "@ + decimal(i as nat) + ")"@)))
            ])
        },
        Fields::Unit => Seq::empty(),
    }
}

/// The `FromLinear<Acc>` impl converts the accumulator back field by
/// field: field `i` of the result is read from the accumulator's field
/// `i`, by name or index.
pub proof fn law_from_linear_output(name: Seq<char>, fields: Fields, acc: Seq<char>, g: Generics)
    ensures
        crate::linear_pixel::spec_from_linear(name, fields, acc, g) == words(impl_parts(
            g,
            ":: fovea :: pixel :: FromLinear < "@ + acc + " >"@,
            name,
            words(seq!["# [inline (always)] fn from_linear"@, "(acc : "@ + acc + ")"@, "-> Self"@, braced(from_value_text(name, fields))]),
        )),
{
    reveal_strlit("(");
    reveal_strlit(")");
    reveal_strlit(":: fovea :: pixel :: FromLinear :: from_linear (acc)");
    reveal_strlit("(:: fovea :: pixel :: FromLinear :: from_linear (acc))");
    reveal_strlit("(acc : ");
    reveal_strlit("acc : ");
    assert(parened("acc : "@ + acc) =~= "(acc : "@ + acc + ")"@);
    assert(parened(":: fovea :: pixel :: FromLinear :: from_linear (acc)"@) =~= "(:: fovea :: pixel :: FromLinear :: from_linear (acc))"@);
    match fields {
        Fields::Named(v) => {
            assert(Seq::new(v@.len(), |i: int| crate::linear_pixel::from_item(v@[i], i, true)) =~= Seq::new(
                v@.len(),
                |i: int| field_name(v@[i]) + " : :: fovea :: pixel :: FromLinear :: from_linear (acc . "@ + field_name(v@[i]) + ")"@,
            ));
        },
        Fields::Unnamed(v) => {
            assert(Seq::new(v@.len(), |i: int| crate::linear_pixel::from_item(v@[i], i, false)) =~= Seq::new(
                v@.len(),
                |i: int| ":: fovea :: pixel :: FromLinear :: from_linear (acc . "@ + decimal(i as nat) + ")"@,
            ));
        },
        Fields::Unit => {},
    }
}

/// The accumulator type is written `Self`.
pub open spec fn names_self(acc: Seq<TokenTree>) -> bool {
    acc.len() == 1 && (acc[0] matches TokenTree::Ident(s) && s@ == "Self"@)
}

/// A field is reached through `LinearChannel<f32>` or, nested,
/// `LinearPixel<f32>`.
pub proof fn law_field_trait_paths_named()
    ensures
        crate::linear_pixel::channel_path() == ":: fovea :: pixel :: LinearChannel < f32 >"@,
        crate::linear_pixel::pixel_path() == ":: fovea :: pixel :: LinearPixel < f32 >"@,
{
}

/// An accepted LinearPixel derive emits, in order: `Add`, `Sub`, `Mul`,
/// the `LinearPixel<f32>` impl whose accumulator is the struct itself
/// (with its generics) when `Self` is named and the named type otherwise,
/// `FromLinear` of that accumulator unless it is `Self`, and the empty
/// `LinearSpace` marker unless `no_space` is given.
pub proof fn law_linear_derive_output(input: DeriveInput)
    requires
        crate::linear_pixel::spec_derive(input) is Ok,
    ensures
        ({
            let name = input.ident@;
            let g = input.generics;
            let fields = input.data->Struct_0;
            let (acc, no_space) = crate::linear_pixel::spec_parse_linear_attr(input.attrs@)->Ok_0;
            let c = if names_self(acc) { words(seq![name, g.ty_generics@]) } else { crate::model::render_tokens(acc) };
            crate::linear_pixel::spec_derive(input) == Ok::<Seq<char>, (Seq<char>, ErrorSite)>(words(seq![
                op_text(name, fields, g, "Add"@, "add"@, " + "@),
                op_text(name, fields, g, "Sub"@, "sub"@, " - "@),
                op_text(name, fields, g, "Mul"@, "mul"@, " * "@),
                crate::linear_pixel::spec_linear_pixel(name, fields, c, g)->Ok_0,
                if names_self(acc) { Seq::empty() } else { crate::linear_pixel::spec_from_linear(name, fields, c, g) },
                if no_space { Seq::empty() } else { words(seq!["impl"@, g.impl_generics@, ":: fovea :: pixel :: LinearSpace"@, "for"@, name, g.ty_generics@, g.where_clause@, "{ }"@]) }
            ]))
        }),
{
    let fields = input.data->Struct_0;
    crate::laws::law_linear_derive_impl_order(input);
    law_operators_channel_wise(input.ident@, fields, input.generics);
    reveal_strlit("{ }");
    assert(braced(Seq::empty()) == "{ }"@);
}

/// What one `#[zero..]` attribute asks for, given `syn`'s error on its
/// arguments as an expression: `#[zero(default)]` the `Default` strategy;
/// any other nonempty arguments the expression itself when `syn` accepts
/// it, `syn`'s message otherwise; `#[zero()]`, `#[zero]` and `#[zero = ..]`
/// are refused.
pub proof fn law_zero_meta_decides(meta: crate::model::Meta, parse_error: Option<Seq<char>>)
    ensures
        crate::zeroable_pixel::spec_zero_meta(meta, parse_error) == match meta {
            crate::model::Meta::List(ts) => if ts@.len() == 0 {
                Err("empty #[zero()] is not allowed; use #[zero(default)] or #[zero(<expr>)]"@)
            } else if crate::model::render_tokens(ts@) == "default"@ {
                Ok(ZeroChoice::Default)
            } else {
                match parse_error {
                    None => Ok(ZeroChoice::Expr(crate::model::render_tokens(ts@))),
                    Some(m) => Err(m),
                }
            },
            crate::model::Meta::NameValue => Err("#[zero = ...] is not supported; use #[zero(default)] or #[zero(<expr>)] instead"@),
            crate::model::Meta::Path => Err("bare #[zero] is not allowed; use #[zero(default)] or #[zero(<expr>)]"@),
        },
{
}

// ---------------------------------------------------------------- PlainPixel and HomogeneousPixel

/// An accepted PlainPixel derive emits `PlainChannel` and `PlainPixel`
/// with `CHANNELS` holding one `SIZE` per field, entry `i` the size of
/// field `i`'s type, and forces both compile-time assertions.
pub proof fn law_plain_output(input: DeriveInput)
    requires
        crate::plain_pixel::spec_derive(input) is Ok,
    ensures
        ({
            let name = input.ident@;
            let fs = input_fields(input);
            crate::plain_pixel::spec_derive(input) == Ok::<Seq<char>, (Seq<char>, ErrorSite)>(words(seq![
                "unsafe impl :: fovea :: pixel :: PlainChannel for"@,
                name,
                "{ }"@,
                "unsafe impl :: fovea :: pixel :: PlainPixel for"@,
                name,
                braced(words(seq![
                    "const CHANNELS : & 'static [usize] ="@,
                    "& "@ + bracketed(comma_list(Seq::new(fs.len(), |i: int| "< "@ + fs[i].ty@ + " as :: fovea :: pixel :: PlainChannel > :: SIZE"@))),
                    ";"@
                ])),
                "const _ : () ="@,
                braced(words(seq!["let _ = <"@, name, "as :: fovea :: pixel :: PlainChannel > :: _ASSERT_SIZE ;"@])),
                ";"@,
                "const _ : () ="@,
                braced(words(seq!["let _ = <"@, name, "as :: fovea :: pixel :: PlainPixel > :: _ASSERT_CHANNELS ;"@])),
                ";"@
            ]))
        }),
{
    let fs = input_fields(input);
    crate::laws::law_plain_channels_one_per_field(input);
    assert(Seq::new(fs.len(), |i: int| crate::plain_pixel::size_entry(fs[i])) =~= Seq::new(
        fs.len(),
        |i: int| "< "@ + fs[i].ty@ + " as :: fovea :: pixel :: PlainChannel > :: SIZE"@,
    ));
}

/// An accepted HomogeneousPixel derive names the first field's type as the
/// channel and an array of it, one element per field, as the channels,
/// and forces the size assertion.
pub proof fn law_homogeneous_output(input: DeriveInput)
    requires
        crate::homogeneous_pixel::spec_derive(input) is Ok,
    ensures
        ({
            let name = input.ident@;
            let fs = input_fields(input);
            let t = fs[0].ty@;
            crate::homogeneous_pixel::spec_derive(input) == Ok::<Seq<char>, (Seq<char>, ErrorSite)>(words(seq![
                "unsafe impl :: fovea :: pixel :: HomogeneousPixel for"@,
                name,
                braced(words(seq!["type Channel ="@, t, "; type Channels ="@, bracketed(t + " ; "@ + decimal(fs.len()) + "usize"@), ";"@])),
                "const _ : () ="@,
                braced(words(seq!["let _ = <"@, name, "as :: fovea :: pixel :: HomogeneousPixel > :: _SIZE_ASSERT ;"@])),
                ";"@
            ]))
        }),
{
    crate::laws::law_homogeneous_channels_match_fields(input);
}

/// A struct declares a layout word (`C`, `transparent`) when one of its
/// attributes is `#[repr(..)]` with a list of arguments whose printed
/// tokens contain the word.
pub proof fn law_repr_declared(attrs: Seq<crate::model::Attribute>, word: Seq<char>)
    ensures
        crate::shape::has_repr_word(attrs, word) <==> exists|k: int| #![trigger attrs[k]] 0 <= k < attrs.len() && (attrs[k].name matches Some(n) && n@ == "repr"@)
            && (attrs[k].meta matches crate::model::Meta::List(ts) && exists|i: int| 0 <= i && i + word.len() <= crate::model::render_tokens(ts@).len()
            && #[trigger] crate::model::render_tokens(ts@).subrange(i, i + word.len()) == word),
{
    if crate::shape::has_repr_word(attrs, word) {
        let k = choose|k: int| 0 <= k < attrs.len() && #[trigger] crate::shape::is_repr_with(attrs[k], word);
        assert(crate::shape::is_repr_with(attrs[k], word));
    }
    if exists|k: int| #![trigger attrs[k]] 0 <= k < attrs.len() && (attrs[k].name matches Some(n) && n@ == "repr"@)
        && (attrs[k].meta matches crate::model::Meta::List(ts) && exists|i: int| 0 <= i && i + word.len() <= crate::model::render_tokens(ts@).len()
        && #[trigger] crate::model::render_tokens(ts@).subrange(i, i + word.len()) == word) {
        let k = choose|k: int| #![trigger attrs[k]] 0 <= k < attrs.len() && (attrs[k].name matches Some(n) && n@ == "repr"@)
            && (attrs[k].meta matches crate::model::Meta::List(ts) && exists|i: int| 0 <= i && i + word.len() <= crate::model::render_tokens(ts@).len()
            && #[trigger] crate::model::render_tokens(ts@).subrange(i, i + word.len()) == word);
        assert(crate::shape::is_repr_with(attrs[k], word));
    }
}

} // verus!
