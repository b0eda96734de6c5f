//! `#[derive(ZeroablePixel)]`: a pixel with an all-zero value.
//!
//! The struct must have at least one field. `zero()` builds the struct
//! field by field; each field's value is chosen by its `#[zero(..)]`
//! attribute:
//!
//! - none: `<T as ZeroablePixel>::zero()`;
//! - `#[zero(default)]`: `<T as Default>::default()`;
//! - `#[zero(<expr>)]`: the expression, verbatim.
//!
//! A bare `#[zero]`, an empty `#[zero()]`, `#[zero = ..]`, a second
//! `#[zero(..)]` on one field, and arguments that are not an expression
//! are rejected. A `Default` impl delegating to `zero()` is emitted too.
use vstd::prelude::*;

use crate::model::{
    at_field, attr_is_named, opt_text, attr_named, error_at_field, field_name, field_seq, impl_block, impl_parts, named_fields_have_idents,
    outcome_is, render_all, render_tokens, Attribute, DeriveError, DeriveInput, ErrorSite, Field,
    Fields, Meta,
};
use crate::outside::{expr_parse_error, syn_expr_error};
use crate::shape::spec_validate_struct;
use crate::text::{braced, comma_list, parened, words, brace, join_comma, paren, text_eq, Words};

verus! {

/// How one field's zero value is produced.
#[derive(Debug)]
pub enum ZeroStrategy {
    /// `<T as ZeroablePixel>::zero()`
    Trait,
    /// `<T as Default>::default()`
    Default,
    /// The given expression, as printed tokens.
    Expr(String),
}

/// A strategy with its expression taken as text.
pub enum ZeroChoice {
    Trait,
    Default,
    Expr(Seq<char>),
}

impl View for ZeroStrategy {
    type V = ZeroChoice;

    open spec fn view(&self) -> ZeroChoice {
        match self {
            ZeroStrategy::Trait => ZeroChoice::Trait,
            ZeroStrategy::Default => ZeroChoice::Default,
            ZeroStrategy::Expr(e) => ZeroChoice::Expr(e@),
        }
    }
}

/// The text `describe` gives for a strategy.
pub open spec fn describe_text(c: ZeroChoice) -> Seq<char> {
    match c {
        ZeroChoice::Trait => "ZeroStrategy::Trait"@,
        ZeroChoice::Default => "ZeroStrategy::Default"@,
        ZeroChoice::Expr(e) => "ZeroStrategy::Expr("@ + e + ")"@,
    }
}

impl ZeroStrategy {
    /// A readable description: `ZeroStrategy::Trait`,
    /// `ZeroStrategy::Default` or `ZeroStrategy::Expr(<expr>)`.
    pub fn describe(&self) -> (s: String)
        ensures
            s@ == describe_text(self@),
    {
        match self {
            ZeroStrategy::Trait => String::from_str("ZeroStrategy::Trait"),
            ZeroStrategy::Default => String::from_str("ZeroStrategy::Default"),
            ZeroStrategy::Expr(e) => {
                let mut s = String::from_str("ZeroStrategy::Expr(");
                s.append(e.as_str());
                s.append(")");
                s
            },
        }
    }
}

/// The name this derive reports in its messages.
pub open spec fn zeroable_name() -> Seq<char> {
    "ZeroablePixel"@
}

pub open spec fn duplicate_message() -> Seq<char> {
    "duplicate #[zero(...)] attribute; only one is allowed per field"@
}

pub open spec fn empty_message() -> Seq<char> {
    "empty #[zero()] is not allowed; use #[zero(default)] or #[zero(<expr>)]"@
}

pub open spec fn name_value_message() -> Seq<char> {
    "#[zero = ...] is not supported; use #[zero(default)] or #[zero(<expr>)] instead"@
}

pub open spec fn bare_message() -> Seq<char> {
    "bare #[zero] is not allowed; use #[zero(default)] or #[zero(<expr>)]"@
}

/// The strategy one `#[zero..]` attribute asks for, given `syn`'s error on
/// its arguments as an expression (none when they parse).
pub open spec fn spec_zero_meta(meta: Meta, parse_error: Option<Seq<char>>) -> Result<ZeroChoice, Seq<char>> {
    match meta {
        Meta::List(ts) => if ts@.len() == 0 {
            Err(empty_message())
        } else if render_tokens(ts@) == "default"@ {
            Ok(ZeroChoice::Default)
        } else {
            match parse_error {
                None => Ok(ZeroChoice::Expr(render_tokens(ts@))),
                Some(m) => Err(m),
            }
        },
        Meta::NameValue => Err(name_value_message()),
        Meta::Path => Err(bare_message()),
    }
}

/// `syn`'s error on the arguments of a `#[zero(..)]` as an expression.
pub open spec fn zero_args_error(meta: Meta) -> Option<Seq<char>> {
    match meta {
        Meta::List(ts) => syn_expr_error(render_tokens(ts@)),
        _ => None,
    }
}

/// Scans a field's attributes from index `k`, `found` being the strategy
/// of an earlier `#[zero(..)]`; errors point at `Attr(k)` of the field.
pub open spec fn zero_scan(attrs: Seq<Attribute>, k: int, found: Option<ZeroChoice>) -> Result<ZeroChoice, (Seq<char>, ErrorSite)>
    decreases attrs.len() - k,
{
    if k < 0 || k >= attrs.len() {
        match found {
            Some(c) => Ok(c),
            None => Ok(ZeroChoice::Trait),
        }
    } else if !attr_named(attrs[k], "zero"@) {
        zero_scan(attrs, k + 1, found)
    } else if found is Some {
        Err((duplicate_message(), ErrorSite::Attr(k as usize)))
    } else {
        match spec_zero_meta(attrs[k].meta, zero_args_error(attrs[k].meta)) {
            Err(m) => Err((m, ErrorSite::Attr(k as usize))),
            Ok(c) => zero_scan(attrs, k + 1, Some(c)),
        }
    }
}

/// The strategy a field's attributes ask for; errors point at the
/// offending attribute as `Attr(k)`, `k` counted among the field's
/// attributes.
pub open spec fn spec_parse_zero_attr(f: Field) -> Result<ZeroChoice, (Seq<char>, ErrorSite)> {
    zero_scan(f.attrs@, 0, None)
}

/// The strategy one `#[zero..]` attribute asks for, given `syn`'s error on
/// its arguments as an expression (`None` when they parse): `default` for
/// the `Default` strategy, any other nonempty arguments for the expression
/// itself, or `syn`'s message when they are not one; the bare, empty and
/// `= ..` forms are rejected with messages of their own.
pub fn strategy_for_zero_meta(meta: &Meta, parse_error: Option<String>) -> (r: Result<ZeroStrategy, String>)
    ensures
        match spec_zero_meta(*meta, opt_text(parse_error)) {
            Ok(c) => r matches Ok(s) && s@ == c,
            Err(m) => r matches Err(x) && x@ == m,
        },
{
    match meta {
        Meta::List(ts) => {
            if ts.len() == 0 {
                Err(String::from_str("empty #[zero()] is not allowed; use #[zero(default)] or #[zero(<expr>)]"))
            } else {
                let content = render_all(ts.as_slice());
                if text_eq(content.as_str(), "default") {
                    Ok(ZeroStrategy::Default)
                } else {
                    match parse_error {
                        None => Ok(ZeroStrategy::Expr(content)),
                        Some(m) => Err(m),
                    }
                }
            }
        },
        Meta::NameValue => Err(
            String::from_str("#[zero = ...] is not supported; use #[zero(default)] or #[zero(<expr>)] instead"),
        ),
        Meta::Path => Err(String::from_str("bare #[zero] is not allowed; use #[zero(default)] or #[zero(<expr>)]")),
    }
}

/// What `syn` says of the arguments of a `#[zero(..)]` as an expression
/// (nothing for the other attribute shapes, where it is not asked).
fn zero_args_parse_error(meta: &Meta) -> (e: Option<String>)
    ensures
        opt_text(e) == zero_args_error(*meta),
{
    match meta {
        Meta::List(ts) => {
            let content = render_all(ts.as_slice());
            expr_parse_error(content.as_str())
        },
        _ => None,
    }
}

/// The strategy of a field: the one its single `#[zero(..)]` names, or
/// `Trait` when it has none. Attributes with another name are skipped.
/// Errors point at the offending attribute as `Attr(k)`, `k` counted among
/// the field's attributes.
pub fn parse_zero_attr(field: &Field) -> (r: Result<ZeroStrategy, DeriveError>)
    ensures
        match spec_parse_zero_attr(*field) {
            Ok(c) => r matches Ok(s) && s@ == c,
            Err(e) => r matches Err(x) && x@ == e,
        },
{
    let attrs = &field.attrs;
    let n = attrs.len();
    let mut strategy: Option<ZeroStrategy> = None;
    let mut k: usize = 0;
    while k < n
        invariant
            n == attrs@.len(),
            *attrs == field.attrs,
            0 <= k <= n,
            zero_scan(attrs@, 0, None) == zero_scan(
                attrs@,
                k as int,
                match strategy {
                    Some(s) => Some(s@),
                    None => None,
                },
            ),
        decreases n - k,
    {
        let attr = &attrs[k];
        if !attr_is_named(attr, "zero") {
            k = k + 1;
            continue;
        }
        if strategy.is_some() {
            return Err(DeriveError {
                message: String::from_str("duplicate #[zero(...)] attribute; only one is allowed per field"),
                site: ErrorSite::Attr(k),
            });
        }
        let parse_error = zero_args_parse_error(&attr.meta);
        match strategy_for_zero_meta(&attr.meta, parse_error) {
            Ok(s) => {
                strategy = Some(s);
            },
            Err(m) => {
                return Err(DeriveError { message: m, site: ErrorSite::Attr(k) });
            },
        }
        k = k + 1;
    }
    match strategy {
        Some(s) => Ok(s),
        None => Ok(ZeroStrategy::Trait),
    }
}

/// One field's zero value under a strategy.
pub open spec fn field_init(f: Field, c: ZeroChoice) -> Seq<char> {
    match c {
        ZeroChoice::Trait => "< "@ + f.ty@ + " as :: fovea :: pixel :: ZeroablePixel > :: zero ()"@,
        ZeroChoice::Default => "< "@ + f.ty@ + " as :: core :: default :: Default > :: default ()"@,
        ZeroChoice::Expr(e) => e,
    }
}

/// The expression that initializes `field` under `strategy`.
pub fn generate_field_init(field: &Field, strategy: &ZeroStrategy) -> (s: String)
    ensures
        s@ == field_init(*field, strategy@),
{
    match strategy {
        ZeroStrategy::Trait => {
            let mut s = String::from_str("< ");
            s.append(field.ty.as_str());
            s.append(" as :: fovea :: pixel :: ZeroablePixel > :: zero ()");
            s
        },
        ZeroStrategy::Default => {
            let mut s = String::from_str("< ");
            s.append(field.ty.as_str());
            s.append(" as :: core :: default :: Default > :: default ()");
            s
        },
        ZeroStrategy::Expr(e) => e.clone(),
    }
}

/// One entry of the struct literal: `name : init` for a named field, the
/// init alone for a tuple field.
pub open spec fn init_item(f: Field, c: ZeroChoice, named: bool) -> Seq<char> {
    if named {
        field_name(f) + " : "@ + field_init(f, c)
    } else {
        field_init(f, c)
    }
}

/// The entries for fields `fs` in order, or the first field's error.
pub open spec fn zero_inits(fs: Seq<Field>, named: bool) -> Result<Seq<Seq<char>>, (Seq<char>, ErrorSite)>
    decreases fs.len(),
{
    if fs.len() == 0 {
        Ok(Seq::empty())
    } else {
        match zero_inits(fs.drop_last(), named) {
            Err(e) => Err(e),
            Ok(items) => match spec_parse_zero_attr(fs.last()) {
                Err((m, site)) => Err((m, at_field(site, fs.len() - 1))),
                Ok(c) => Ok(items.push(init_item(fs.last(), c, named))),
            },
        }
    }
}

/// The body of `zero()`: a struct literal `Name { f : init , .. }`, a
/// tuple `Name (init , ..)`, or the bare name for a unit struct.
pub open spec fn spec_zero_body(name: Seq<char>, fields: Fields) -> Result<Seq<char>, (Seq<char>, ErrorSite)> {
    match fields {
        Fields::Named(v) => match zero_inits(v@, true) {
            Err(e) => Err(e),
            Ok(items) => Ok(words(seq![name, braced(comma_list(items))])),
        },
        Fields::Unnamed(v) => match zero_inits(v@, false) {
            Err(e) => Err(e),
            Ok(items) => Ok(words(seq![name, parened(comma_list(items))])),
        },
        Fields::Unit => Ok(name),
    }
}

/// The entries of the struct literal, one per field in order.
fn zero_items(v: &Vec<Field>, named: bool) -> (r: Result<Vec<String>, DeriveError>)
    requires
        named ==> forall|i: int| 0 <= i < v@.len() ==> (#[trigger] v@[i]).ident is Some,
    ensures
        match zero_inits(v@, named) {
            Ok(items) => r matches Ok(x) && x.deep_view() == items,
            Err(e) => r matches Err(x) && x@ == e,
        },
{
    let n = v.len();
    let mut items: Vec<String> = Vec::new();
    let mut i: usize = 0;
    proof {
        assert(v@.take(0).len() == 0);
        assert(items.deep_view() =~= Seq::<Seq<char>>::empty());
    }
    while i < n
        invariant
            n == v@.len(),
            0 <= i <= n,
            named ==> forall|i: int| 0 <= i < v@.len() ==> (#[trigger] v@[i]).ident is Some,
            zero_inits(v@.take(i as int), named) == Ok::<Seq<Seq<char>>, (Seq<char>, ErrorSite)>(items.deep_view()),
        decreases n - i,
    {
        let f = &v[i];
        proof {
            assert(v@.take(i + 1).drop_last() =~= v@.take(i as int));
            assert(v@.take(i + 1).last() == v@[i as int]);
        }
        let strategy = match parse_zero_attr(f) {
            Ok(s) => s,
            Err(e) => {
                let moved = error_at_field(e, i);
                proof {
                    assert(zero_inits(v@.take(i + 1), named) == Err::<Seq<Seq<char>>, (Seq<char>, ErrorSite)>(moved@));
                    lemma_zero_inits_error_persists(v@, named, i + 1);
                }
                return Err(moved);
            },
        };
        let init = generate_field_init(f, &strategy);
        let item = if named {
            let mut s = match &f.ident {
                Some(id) => id.clone(),
                None => String::new(),
            };
            s.append(" : ");
            s.append(init.as_str());
            s
        } else {
            init
        };
        let ghost before = items.deep_view();
        items.push(item);
        proof {
            assert(items.deep_view() =~= before.push(init_item(v@[i as int], strategy@, named)));
        }
        i = i + 1;
    }
    assert(v@.take(n as int) =~= v@);
    Ok(items)
}

/// Once the entries of a prefix fail, so do the entries of every longer
/// prefix, with the same error.
proof fn lemma_zero_inits_error_persists(v: Seq<Field>, named: bool, j: int)
    requires
        1 <= j <= v.len(),
        zero_inits(v.take(j), named) is Err,
    ensures
        zero_inits(v, named) == zero_inits(v.take(j), named),
    decreases v.len() - j,
{
    if j < v.len() {
        assert(v.take(j + 1).drop_last() =~= v.take(j));
        lemma_zero_inits_error_persists(v, named, j + 1);
    } else {
        assert(v.take(j) =~= v);
    }
}

/// The body of `zero()`: `Name { f : init , .. }` for named fields,
/// `Name (init , ..)` for tuple fields, `Name` for a unit struct; each
/// init follows the field's strategy. The first field whose `#[zero..]`
/// attributes are rejected gives the error, at `FieldAttr(field, attr)`.
pub fn generate_zero_body(name: &str, fields: &Fields) -> (r: Result<String, DeriveError>)
    requires
        named_fields_have_idents(*fields),
    ensures
        outcome_is(r, spec_zero_body(name@, *fields)),
{
    match fields {
        Fields::Named(v) => {
            let items = match zero_items(v, true) {
                Ok(x) => x,
                Err(e) => return Err(e),
            };
            let mut w = Words::new();
            w.push(name);
            w.push_string(brace(join_comma(&items).as_str()));
            assert(w.parts@ =~= seq![name@, braced(comma_list(items.deep_view()))]);
            Ok(w.text)
        },
        Fields::Unnamed(v) => {
            let items = match zero_items(v, false) {
                Ok(x) => x,
                Err(e) => return Err(e),
            };
            let mut w = Words::new();
            w.push(name);
            w.push_string(paren(join_comma(&items).as_str()));
            assert(w.parts@ =~= seq![name@, parened(comma_list(items.deep_view()))]);
            Ok(w.text)
        },
        Fields::Unit => Ok(String::from_str(name)),
    }
}

/// The fields of the input when it is a struct; an enum or union is
/// rejected at its name.
pub fn validate_struct(input: &DeriveInput) -> (r: Result<&Fields, DeriveError>)
    ensures
        match spec_validate_struct(*input, zeroable_name()) {
            Ok(f) => r matches Ok(g) && *g == f,
            Err(e) => r matches Err(x) && x@ == e,
        },
{
    crate::shape::validate_struct(input, "ZeroablePixel")
}

/// A struct with no field (braced, tuple or unit) is rejected at its name.
pub fn validate_fields(input: &DeriveInput, fields: &Fields) -> (r: Result<(), DeriveError>)
    ensures
        field_seq(*fields).len() == 0 ==> (r matches Err(x) && x@ == (
            "ZeroablePixel requires at least one field"@,
            ErrorSite::Ident,
        )),
        field_seq(*fields).len() != 0 ==> r is Ok,
{
    if fields.is_empty() {
        Err(DeriveError { message: String::from_str("ZeroablePixel requires at least one field"), site: ErrorSite::Ident })
    } else {
        Ok(())
    }
}

/// The body of the `ZeroablePixel` impl around the `zero()` body.
pub open spec fn zero_fn(body: Seq<char>) -> Seq<char> {
    words(seq!["fn zero () -> Self"@, braced(body)])
}

/// The body of the delegating `Default` impl.
pub open spec fn default_fn() -> Seq<char> {
    "fn default () -> Self { < Self as :: fovea :: pixel :: ZeroablePixel > :: zero () }"@
}

/// What the derive produces for `input`.
pub open spec fn spec_derive(input: DeriveInput) -> Result<Seq<char>, (Seq<char>, ErrorSite)> {
    match spec_validate_struct(input, zeroable_name()) {
        Err(e) => Err(e),
        Ok(fields) => if field_seq(fields).len() == 0 {
            Err(("ZeroablePixel requires at least one field"@, ErrorSite::Ident))
        } else {
            match spec_zero_body(input.ident@, fields) {
                Err(e) => Err(e),
                Ok(body) => Ok(words(seq![
                    words(impl_parts(input.generics, ":: fovea :: pixel :: ZeroablePixel"@, input.ident@, zero_fn(body))),
                    words(impl_parts(input.generics, ":: core :: default :: Default"@, input.ident@, default_fn()))
                ])),
            }
        },
    }
}

/// Generates `ZeroablePixel::zero()` (per-field strategies) and a
/// `Default` impl delegating to it, generics carried over; rejects an enum
/// or union, a struct with no field, or a malformed `#[zero..]`.
pub fn derive(input: DeriveInput) -> (r: Result<String, DeriveError>)
    requires
        input.data matches crate::model::Data::Struct(f) ==> named_fields_have_idents(f),
    ensures
        outcome_is(r, spec_derive(input)),
{
    let fields = match validate_struct(&input) {
        Ok(f) => f,
        Err(e) => return Err(e),
    };
    match validate_fields(&input, fields) {
        Ok(()) => {},
        Err(e) => return Err(e),
    }
    let name = input.ident.as_str();
    let body = match generate_zero_body(name, fields) {
        Ok(b) => b,
        Err(e) => return Err(e),
    };
    let mut zf = Words::new();
    zf.push("fn zero () -> Self");
    zf.push_string(brace(body.as_str()));
    assert(zf.parts@ =~= seq!["fn zero () -> Self"@, braced(body@)]);
    let mut w = Words::new();
    w.push_string(impl_block(&input.generics, ":: fovea :: pixel :: ZeroablePixel", name, zf.text.as_str()));
    w.push_string(
        impl_block(
            &input.generics,
            ":: core :: default :: Default",
            name,
            "fn default () -> Self { < Self as :: fovea :: pixel :: ZeroablePixel > :: zero () }",
        ),
    );
    assert(w.parts@ =~= seq![
        words(impl_parts(input.generics, ":: fovea :: pixel :: ZeroablePixel"@, input.ident@, zero_fn(body@))),
        words(impl_parts(input.generics, ":: core :: default :: Default"@, input.ident@, default_fn()))
    ]);
    Ok(w.text)
}

} // verus!
