//! Properties that relate the derives to each other and hold for every
//! input.
use vstd::prelude::*;

use crate::homogeneous_pixel::{first_mismatch_from, homogeneous_parts, mismatch_message, spec_extract};
use crate::linear_pixel::{
    add_sig, apply_entries, channel_path, concrete_accumulator, linear_impl_body, mul_sig, op_impl, spec_add, spec_from_linear,
    spec_is_self, spec_linear_pixel, spec_linear_space, spec_mul, spec_sub, sub_sig, field_path_scan, field_paths, linear_scan, parse_entries_from, spec_field_trait_path,
    spec_parse_linear_attr, EntryView,
};
use crate::model::{at_field, attr_named, field_seq, impl_parts, Attribute, Data, DeriveInput, ErrorSite, Field, Fields, Generics, Meta, TokenTree};
use crate::shape::{has_repr_word, is_repr_with};
use crate::plain_pixel::{plain_parts, size_entry};
use crate::text::{braced, bracketed, comma_list, parened, word_join, words};
use crate::zeroable_pixel::{init_item, spec_parse_zero_attr, spec_zero_body, zero_inits, zero_scan, ZeroChoice};
use crate::shape::Repr;

verus! {

/// Every field has the first field's type (as printed tokens).
pub open spec fn uniform_types(fs: Seq<Field>) -> bool {
    forall|i: int| 0 <= i < fs.len() ==> (#[trigger] fs[i]).ty@ == fs[0].ty@
}

/// The fields of the input when it is a struct, none otherwise.
pub open spec fn input_fields(input: DeriveInput) -> Seq<Field> {
    match input.data {
        Data::Struct(f) => field_seq(f),
        _ => Seq::empty(),
    }
}

proof fn lemma_no_mismatch_from(fs: Seq<Field>, i: int)
    requires
        1 <= i,
    ensures
        first_mismatch_from(fs, i) is None <==> forall|j: int| i <= j < fs.len() ==> (#[trigger] fs[j]).ty@ == fs[0].ty@,
        first_mismatch_from(fs, i) matches Some(k) ==> i <= k < fs.len() && fs[k].ty@ != fs[0].ty@,
    decreases fs.len() - i,
{
    if i < fs.len() {
        lemma_no_mismatch_from(fs, i + 1);
        if fs[i].ty@ == fs[0].ty@ {
            assert forall|j: int| i <= j < fs.len() && (forall|j: int| i + 1 <= j < fs.len() ==> (#[trigger] fs[j]).ty@ == fs[0].ty@)
                implies (#[trigger] fs[j]).ty@ == fs[0].ty@ by {
                if j > i {
                }
            }
        }
    }
}

/// HomogeneousPixel accepts exactly the inputs that PlainPixel accepts
/// whose fields all have one type: the two derives check the same shape,
/// and HomogeneousPixel adds the one-channel-type rule.
pub proof fn law_homogeneous_is_plain_with_uniform_fields(input: DeriveInput)
    ensures
        crate::homogeneous_pixel::spec_derive(input) is Ok <==> (crate::plain_pixel::spec_derive(input) is Ok
            && uniform_types(input_fields(input))),
{
    let fs = input_fields(input);
    lemma_no_mismatch_from(fs, 1);
    if fs.len() > 0 {
        assert(fs[0].ty@ == fs[0].ty@);
    }
}

/// When HomogeneousPixel accepts a struct, the channel type is the type of
/// every field and the channel array has one entry per field.
pub proof fn law_homogeneous_channels_match_fields(input: DeriveInput)
    requires
        crate::homogeneous_pixel::spec_derive(input) is Ok,
    ensures
        uniform_types(input_fields(input)),
        input_fields(input).len() >= 1,
        crate::homogeneous_pixel::spec_derive(input) == Ok::<Seq<char>, (Seq<char>, crate::model::ErrorSite)>(
            words(homogeneous_parts(input.ident@, input_fields(input)[0].ty@, input_fields(input).len())),
        ),
{
    law_homogeneous_is_plain_with_uniform_fields(input);
}

/// Whenever HomogeneousPixel accepts a struct, WhiteChannel accepts it
/// too, as its documentation requires of the pixels it is derived for.
pub proof fn law_white_channel_accepts_homogeneous(input: DeriveInput)
    requires
        crate::homogeneous_pixel::spec_derive(input) is Ok,
    ensures
        crate::white_channel::spec_derive(input) is Ok,
{
}

/// When PlainPixel accepts a struct, `CHANNELS` lists one
/// `PlainChannel::SIZE` entry per field, in field order, whichever repr
/// the struct declares.
pub proof fn law_plain_channels_one_per_field(input: DeriveInput)
    requires
        crate::plain_pixel::spec_derive(input) is Ok,
    ensures
        crate::plain_pixel::spec_derive(input) == Ok::<Seq<char>, (Seq<char>, crate::model::ErrorSite)>(
            words(plain_parts(
                input.ident@,
                "& "@ + bracketed(comma_list(Seq::new(input_fields(input).len(), |i: int| size_entry(input_fields(input)[i])))),
            )),
        ),
{
    let fs = input_fields(input);
    let items = Seq::new(fs.len(), |i: int| size_entry(fs[i]));
    if fs.len() == 1 {
        assert(comma_list(items) == items[0]);
    }
}

/// Every field's attributes are accepted, in order.
pub open spec fn all_zero_attrs_ok(fs: Seq<Field>) -> bool {
    forall|i: int| 0 <= i < fs.len() ==> (#[trigger] spec_parse_zero_attr(fs[i])) is Ok
}

proof fn lemma_zero_inits_ok(fs: Seq<Field>, named: bool)
    ensures
        zero_inits(fs, named) is Ok <==> all_zero_attrs_ok(fs),
    decreases fs.len(),
{
    if fs.len() > 0 {
        let init = fs.drop_last();
        lemma_zero_inits_ok(init, named);
        if all_zero_attrs_ok(fs) {
            assert forall|i: int| 0 <= i < init.len() implies (#[trigger] spec_parse_zero_attr(init[i])) is Ok by {
                assert(init[i] == fs[i]);
            }
            assert(spec_parse_zero_attr(fs[fs.len() - 1]) is Ok);
        }
        if zero_inits(fs, named) is Ok {
            assert forall|i: int| 0 <= i < fs.len() implies (#[trigger] spec_parse_zero_attr(fs[i])) is Ok by {
                if i < fs.len() - 1 {
                    assert(init[i] == fs[i]);
                }
            }
        }
    }
}

/// ZeroablePixel accepts exactly the structs with at least one field
/// whose every field carries at most one well-formed `#[zero(..)]`.
pub proof fn law_zeroable_accepts(input: DeriveInput)
    ensures
        crate::zeroable_pixel::spec_derive(input) is Ok <==> (input.data is Struct && input_fields(input).len() >= 1
            && all_zero_attrs_ok(input_fields(input))),
{
    match input.data {
        Data::Struct(f) => match f {
            Fields::Named(v) => lemma_zero_inits_ok(v@, true),
            Fields::Unnamed(v) => lemma_zero_inits_ok(v@, false),
            Fields::Unit => {},
        },
        _ => {},
    }
}

/// No attribute of the sequence is named `zero`.
pub open spec fn no_zero_attr(attrs: Seq<Attribute>) -> bool {
    forall|k: int| 0 <= k < attrs.len() ==> !attr_named(#[trigger] attrs[k], "zero"@)
}

proof fn lemma_zero_scan_skips(attrs: Seq<Attribute>, k: int)
    requires
        0 <= k,
        forall|j: int| k <= j < attrs.len() ==> !attr_named(#[trigger] attrs[j], "zero"@),
    ensures
        zero_scan(attrs, k, None) == Ok::<ZeroChoice, (Seq<char>, crate::model::ErrorSite)>(ZeroChoice::Trait),
    decreases attrs.len() - k,
{
    if k < attrs.len() {
        lemma_zero_scan_skips(attrs, k + 1);
    }
}

/// A struct that PlainPixel accepts and whose fields carry no
/// `#[zero(..)]` is accepted by ZeroablePixel as well, every field then
/// being zeroed through its own `ZeroablePixel::zero()`.
pub proof fn law_zeroable_accepts_plain(input: DeriveInput)
    requires
        crate::plain_pixel::spec_derive(input) is Ok,
        forall|i: int| 0 <= i < input_fields(input).len() ==> no_zero_attr((#[trigger] input_fields(input)[i]).attrs@),
    ensures
        crate::zeroable_pixel::spec_derive(input) is Ok,
        forall|i: int| 0 <= i < input_fields(input).len() ==> spec_parse_zero_attr(#[trigger] input_fields(input)[i])
            == Ok::<ZeroChoice, (Seq<char>, crate::model::ErrorSite)>(ZeroChoice::Trait),
{
    let fs = input_fields(input);
    assert forall|i: int| 0 <= i < fs.len() implies spec_parse_zero_attr(#[trigger] fs[i]) == Ok::<
        ZeroChoice,
        (Seq<char>, crate::model::ErrorSite),
    >(ZeroChoice::Trait) by {
        assert(no_zero_attr(fs[i].attrs@));
        lemma_zero_scan_skips(fs[i].attrs@, 0);
    }
    law_zeroable_accepts(input);
}

/// Every field's `#[linear(..)]` attributes are accepted.
pub open spec fn all_field_paths_ok(fs: Seq<Field>) -> bool {
    forall|i: int| 0 <= i < fs.len() ==> (#[trigger] spec_field_trait_path(fs[i])) is Ok
}

proof fn lemma_field_paths_ok(fs: Seq<Field>)
    ensures
        field_paths(fs) is Ok <==> all_field_paths_ok(fs),
    decreases fs.len(),
{
    if fs.len() > 0 {
        let init = fs.drop_last();
        lemma_field_paths_ok(init);
        if all_field_paths_ok(fs) {
            assert forall|i: int| 0 <= i < init.len() implies (#[trigger] spec_field_trait_path(init[i])) is Ok by {
                assert(init[i] == fs[i]);
            }
            assert(spec_field_trait_path(fs[fs.len() - 1]) is Ok);
        }
        if field_paths(fs) is Ok {
            assert forall|i: int| 0 <= i < fs.len() implies (#[trigger] spec_field_trait_path(fs[i])) is Ok by {
                if i < fs.len() - 1 {
                    assert(init[i] == fs[i]);
                }
            }
        }
    }
}

/// LinearPixel accepts exactly the structs with at least one field whose
/// container attributes name one accumulator (and are otherwise well
/// formed) and whose fields' `#[linear(..)]` attributes are well formed.
pub proof fn law_linear_accepts(input: DeriveInput)
    ensures
        crate::linear_pixel::spec_derive(input) is Ok <==> (input.data is Struct && input_fields(input).len() >= 1
            && spec_parse_linear_attr(input.attrs@) is Ok && all_field_paths_ok(input_fields(input))),
{
    lemma_field_paths_ok(input_fields(input));
}

/// No attribute of the sequence is named `linear`.
pub open spec fn no_linear_attr(attrs: Seq<Attribute>) -> bool {
    forall|k: int| 0 <= k < attrs.len() ==> !attr_named(#[trigger] attrs[k], "linear"@)
}

proof fn lemma_field_path_scan_skips(attrs: Seq<Attribute>, k: int)
    requires
        0 <= k,
        forall|j: int| k <= j < attrs.len() ==> !attr_named(#[trigger] attrs[j], "linear"@),
    ensures
        field_path_scan(attrs, k) == Ok::<Seq<char>, (Seq<char>, crate::model::ErrorSite)>(channel_path()),
    decreases attrs.len() - k,
{
    if k < attrs.len() {
        lemma_field_path_scan_skips(attrs, k + 1);
    }
}

/// A struct that PlainPixel accepts, that names its accumulator in a
/// well-formed `#[linear(..)]`, and whose fields carry no `#[linear(..)]`
/// is accepted by LinearPixel, every field being treated as a channel.
pub proof fn law_linear_accepts_plain(input: DeriveInput)
    requires
        crate::plain_pixel::spec_derive(input) is Ok,
        spec_parse_linear_attr(input.attrs@) is Ok,
        forall|i: int| 0 <= i < input_fields(input).len() ==> no_linear_attr((#[trigger] input_fields(input)[i]).attrs@),
    ensures
        crate::linear_pixel::spec_derive(input) is Ok,
        forall|i: int| 0 <= i < input_fields(input).len() ==> spec_field_trait_path(#[trigger] input_fields(input)[i])
            == Ok::<Seq<char>, (Seq<char>, crate::model::ErrorSite)>(channel_path()),
{
    let fs = input_fields(input);
    assert forall|i: int| 0 <= i < fs.len() implies spec_field_trait_path(#[trigger] fs[i]) == Ok::<
        Seq<char>,
        (Seq<char>, crate::model::ErrorSite),
    >(channel_path()) by {
        assert(no_linear_attr(fs[i].attrs@));
        lemma_field_path_scan_skips(fs[i].attrs@, 0);
    }
    law_linear_accepts(input);
}

/// An error site counted among attributes, moved `d` attributes on.
pub open spec fn shifted(site: ErrorSite, d: int) -> ErrorSite {
    match site {
        ErrorSite::Attr(k) => ErrorSite::Attr((k + d) as usize),
        ErrorSite::AttrPath(k) => ErrorSite::AttrPath((k + d) as usize),
        ErrorSite::AttrEq(k) => ErrorSite::AttrEq((k + d) as usize),
        ErrorSite::AttrToken(k, t) => ErrorSite::AttrToken((k + d) as usize, t),
        _ => site,
    }
}

/// The same outcome, with an error's site moved `d` attributes on.
pub open spec fn shifted_outcome<T>(r: Result<T, (Seq<char>, ErrorSite)>, d: int) -> Result<T, (Seq<char>, ErrorSite)> {
    match r {
        Ok(v) => Ok(v),
        Err((m, site)) => Err((m, shifted(site, d))),
    }
}

proof fn lemma_zero_scan_shift(others: Seq<Attribute>, attrs: Seq<Attribute>, k: int, found: Option<ZeroChoice>)
    requires
        0 <= k,
        others.len() + attrs.len() <= usize::MAX,
    ensures
        zero_scan(others + attrs, k + others.len(), found) == shifted_outcome(zero_scan(attrs, k, found), others.len() as int),
    decreases attrs.len() - k,
{
    let all = others + attrs;
    let d = others.len() as int;
    if k < attrs.len() {
        assert(all[k + d] == attrs[k]);
        lemma_zero_scan_shift(others, attrs, k + 1, found);
        if attr_named(attrs[k], "zero"@) && found is None {
            match crate::zeroable_pixel::spec_zero_meta(attrs[k].meta, crate::zeroable_pixel::zero_args_error(attrs[k].meta)) {
                Ok(c) => lemma_zero_scan_shift(others, attrs, k + 1, Some(c)),
                Err(_) => {},
            }
        }
    }
}

proof fn lemma_zero_scan_prefix(all: Seq<Attribute>, d: int, j: int)
    requires
        0 <= j <= d <= all.len(),
        forall|i: int| 0 <= i < d ==> !attr_named(#[trigger] all[i], "zero"@),
    ensures
        zero_scan(all, j, None) == zero_scan(all, d, None),
    decreases d - j,
{
    if j < d {
        lemma_zero_scan_prefix(all, d, j + 1);
    }
}

/// Attributes with another name than `zero` do not change a field's zero
/// strategy: putting any number of them before the field's attributes
/// gives the same strategy, or the same message at the same attribute.
pub proof fn law_zero_strategy_ignores_other_attributes(others: Seq<Attribute>, attrs: Seq<Attribute>)
    requires
        no_zero_attr(others),
        others.len() + attrs.len() <= usize::MAX,
    ensures
        zero_scan(others + attrs, 0, None) == shifted_outcome(zero_scan(attrs, 0, None), others.len() as int),
{
    let all = others + attrs;
    assert forall|i: int| 0 <= i < others.len() implies !attr_named(#[trigger] all[i], "zero"@) by {
        assert(all[i] == others[i]);
    }
    lemma_zero_scan_prefix(all, others.len() as int, 0);
    lemma_zero_scan_shift(others, attrs, 0, None);
}

/// Attributes with another name than `repr` do not change which repr a
/// struct declares.
pub proof fn law_repr_ignores_other_attributes(others: Seq<Attribute>, attrs: Seq<Attribute>, word: Seq<char>)
    requires
        forall|k: int| 0 <= k < others.len() ==> !attr_named(#[trigger] others[k], "repr"@),
    ensures
        has_repr_word(others + attrs, word) == has_repr_word(attrs, word),
{
    let all = others + attrs;
    let d = others.len() as int;
    if has_repr_word(all, word) {
        let k = choose|k: int| 0 <= k < all.len() && #[trigger] is_repr_with(all[k], word);
        if k < d {
            assert(all[k] == others[k]);
        } else {
            assert(all[k] == attrs[k - d]);
            assert(is_repr_with(attrs[k - d], word));
        }
    }
    if has_repr_word(attrs, word) {
        let k = choose|k: int| 0 <= k < attrs.len() && #[trigger] is_repr_with(attrs[k], word);
        assert(all[k + d] == attrs[k]);
        assert(is_repr_with(all[k + d], word));
    }
}

proof fn lemma_linear_scan_shift(
    others: Seq<Attribute>,
    attrs: Seq<Attribute>,
    k: int,
    acc: Option<Seq<TokenTree>>,
    flag: bool,
)
    requires
        0 <= k,
        others.len() + attrs.len() <= usize::MAX,
    ensures
        linear_scan(others + attrs, k + others.len(), acc, flag) == shifted_outcome(
            linear_scan(attrs, k, acc, flag),
            others.len() as int,
        ),
    decreases attrs.len() - k,
{
    let all = others + attrs;
    let d = others.len() as int;
    if k < attrs.len() {
        assert(all[k + d] == attrs[k]);
        lemma_linear_scan_shift(others, attrs, k + 1, acc, flag);
        if attr_named(attrs[k], "linear"@) {
            match attrs[k].meta {
                Meta::List(ts) => match parse_entries_from(ts@, 0) {
                    Ok(es) => {
                        lemma_apply_entries_shift(es, 0, acc, flag, k, d);
                        match apply_entries(es, 0, acc, flag, k) {
                            Ok((acc2, flag2)) => lemma_linear_scan_shift(others, attrs, k + 1, acc2, flag2),
                            Err(_) => {},
                        }
                    },
                    Err(_) => {},
                },
                _ => {},
            }
        }
    }
}

proof fn lemma_apply_entries_shift(
    es: Seq<EntryView>,
    i: int,
    acc: Option<Seq<TokenTree>>,
    flag: bool,
    attr: int,
    d: int,
)
    requires
        0 <= i,
        0 <= attr,
        0 <= d,
        attr + d <= usize::MAX,
    ensures
        apply_entries(es, i, acc, flag, attr + d) == shifted_outcome(apply_entries(es, i, acc, flag, attr), d),
    decreases es.len() - i,
{
    reveal_strlit("accumulator");
    reveal_strlit("no_space");
    if i < es.len() {
        let kv = es[i];
        if kv.key == "accumulator"@ {
            if acc is None {
                match kv.value {
                    Some(v) => lemma_apply_entries_shift(es, i + 1, Some(v), flag, attr, d),
                    None => {},
                }
            }
        } else if kv.key == "no_space"@ {
            if !flag && kv.value is None {
                lemma_apply_entries_shift(es, i + 1, acc, true, attr, d);
            }
        }
    }
}

proof fn lemma_linear_scan_prefix(all: Seq<Attribute>, d: int, j: int, acc: Option<Seq<TokenTree>>, flag: bool)
    requires
        0 <= j <= d <= all.len(),
        forall|i: int| 0 <= i < d ==> !attr_named(#[trigger] all[i], "linear"@),
    ensures
        linear_scan(all, j, acc, flag) == linear_scan(all, d, acc, flag),
    decreases d - j,
{
    if j < d {
        lemma_linear_scan_prefix(all, d, j + 1, acc, flag);
    }
}

/// Attributes with another name than `linear` do not change what the
/// struct's `#[linear(..)]` attributes declare: putting any number of them
/// first gives the same accumulator and flag, or the same message at the
/// same attribute.
pub proof fn law_linear_attr_ignores_other_attributes(others: Seq<Attribute>, attrs: Seq<Attribute>)
    requires
        no_linear_attr(others),
        others.len() + attrs.len() <= usize::MAX,
    ensures
        spec_parse_linear_attr(others + attrs) == shifted_outcome(spec_parse_linear_attr(attrs), others.len() as int),
{
    let all = others + attrs;
    assert forall|i: int| 0 <= i < others.len() implies !attr_named(#[trigger] all[i], "linear"@) by {
        assert(all[i] == others[i]);
    }
    lemma_linear_scan_prefix(all, others.len() as int, 0, None, false);
    lemma_linear_scan_shift(others, attrs, 0, None, false);
}

/// The `no_space` flag removes the `LinearSpace` marker and nothing else:
/// two inputs that differ only in whether their `#[linear(..)]` carries
/// the flag are accepted or rejected alike, with the same message, and on
/// success the output without the flag is the output with it followed by
/// the marker impl.
pub proof fn law_no_space_removes_only_linear_space(with_space: DeriveInput, without: DeriveInput, acc: Seq<TokenTree>)
    requires
        with_space.ident@ == without.ident@,
        with_space.generics == without.generics,
        with_space.data == without.data,
        spec_parse_linear_attr(with_space.attrs@) == Ok::<(Seq<TokenTree>, bool), (Seq<char>, ErrorSite)>((acc, false)),
        spec_parse_linear_attr(without.attrs@) == Ok::<(Seq<TokenTree>, bool), (Seq<char>, ErrorSite)>((acc, true)),
    ensures
        crate::linear_pixel::spec_derive(without) is Err ==> crate::linear_pixel::spec_derive(with_space)
            == crate::linear_pixel::spec_derive(without),
        crate::linear_pixel::spec_derive(without) matches Ok(t) ==> crate::linear_pixel::spec_derive(with_space)
            == Ok::<Seq<char>, (Seq<char>, ErrorSite)>(word_join(t, spec_linear_space(with_space.ident@, with_space.generics))),
{
    let name = with_space.ident@;
    let g = with_space.generics;
    assert(crate::linear_pixel::concrete_accumulator(with_space, acc) == crate::linear_pixel::concrete_accumulator(without, acc));
    if let Ok(t) = crate::linear_pixel::spec_derive(without) {
        let fields = crate::linear_pixel::spec_validate_struct(without)->Ok_0;
        let c = crate::linear_pixel::concrete_accumulator(without, acc);
        let add = crate::linear_pixel::spec_add(name, fields, g)->Ok_0;
        let sub = crate::linear_pixel::spec_sub(name, fields, g)->Ok_0;
        let mul = crate::linear_pixel::spec_mul(name, fields, g)->Ok_0;
        let lin = crate::linear_pixel::spec_linear_pixel(name, fields, c, g)->Ok_0;
        let from = if crate::linear_pixel::spec_is_self(acc) {
            Seq::empty()
        } else {
            crate::linear_pixel::spec_from_linear(name, fields, c, g)
        };
        let five = seq![add, sub, mul, lin, from];
        assert(seq![add, sub, mul, lin, from, Seq::<char>::empty()].drop_last() =~= five);
        assert(seq![add, sub, mul, lin, from, spec_linear_space(name, g)].drop_last() =~= five);
        assert(t == words(five));
    }
}

/// Field `k` is the first of `fs` whose `#[linear(..)]` is rejected.
pub open spec fn first_bad_path(fs: Seq<Field>, k: int) -> bool {
    &&& 0 <= k < fs.len()
    &&& spec_field_trait_path(fs[k]) is Err
    &&& forall|j: int| 0 <= j < k ==> (#[trigger] spec_field_trait_path(fs[j])) is Ok
}

/// The trait paths of the fields are decided field by field: when every
/// field is accepted, entry `i` is field `i`'s own path; otherwise the
/// error is the first rejected field's, moved to that field.
pub proof fn law_field_paths_per_field(fs: Seq<Field>)
    ensures
        field_paths(fs) is Ok <==> all_field_paths_ok(fs),
        field_paths(fs) matches Ok(ps) ==> ps.len() == fs.len() && forall|i: int|
            0 <= i < fs.len() ==> ps[i] == (#[trigger] spec_field_trait_path(fs[i]))->Ok_0,
        forall|k: int| #[trigger] first_bad_path(fs, k) ==> field_paths(fs) == Err::<Seq<Seq<char>>, (Seq<char>, ErrorSite)>(
            (spec_field_trait_path(fs[k])->Err_0.0, at_field(spec_field_trait_path(fs[k])->Err_0.1, k)),
        ),
    decreases fs.len(),
{
    lemma_field_paths_ok(fs);
    if fs.len() > 0 {
        let init = fs.drop_last();
        let n = fs.len() - 1;
        law_field_paths_per_field(init);
        lemma_field_paths_ok(init);
        assert forall|i: int| 0 <= i < init.len() implies init[i] == fs[i] by {}
        assert forall|k: int| #[trigger] first_bad_path(fs, k) implies field_paths(fs) == Err::<Seq<Seq<char>>, (Seq<char>, ErrorSite)>(
            (spec_field_trait_path(fs[k])->Err_0.0, at_field(spec_field_trait_path(fs[k])->Err_0.1, k)),
        ) by {
            if k < n {
                assert(first_bad_path(init, k)) by {
                    assert forall|j: int| 0 <= j < k implies (#[trigger] spec_field_trait_path(init[j])) is Ok by {
                        assert(spec_field_trait_path(fs[j]) is Ok);
                    }
                }
            } else {
                assert(all_field_paths_ok(init)) by {
                    assert forall|j: int| 0 <= j < init.len() implies (#[trigger] spec_field_trait_path(init[j])) is Ok by {
                        assert(spec_field_trait_path(fs[j]) is Ok);
                    }
                }
            }
        }
    }
}

/// Field `k` is the first of `fs` whose `#[zero(..)]` attributes are
/// rejected.
pub open spec fn first_bad_zero(fs: Seq<Field>, k: int) -> bool {
    &&& 0 <= k < fs.len()
    &&& spec_parse_zero_attr(fs[k]) is Err
    &&& forall|j: int| 0 <= j < k ==> (#[trigger] spec_parse_zero_attr(fs[j])) is Ok
}

/// The zero initialisers are decided field by field: when every field is
/// accepted, entry `i` initialises field `i` with its own strategy;
/// otherwise the error is the first rejected field's, moved to that field.
pub proof fn law_zero_inits_per_field(fs: Seq<Field>, named: bool)
    ensures
        zero_inits(fs, named) is Ok <==> all_zero_attrs_ok(fs),
        zero_inits(fs, named) matches Ok(items) ==> items.len() == fs.len() && forall|i: int|
            0 <= i < fs.len() ==> items[i] == init_item(fs[i], (#[trigger] spec_parse_zero_attr(fs[i]))->Ok_0, named),
        forall|k: int| #[trigger] first_bad_zero(fs, k) ==> zero_inits(fs, named) == Err::<Seq<Seq<char>>, (Seq<char>, ErrorSite)>(
            (spec_parse_zero_attr(fs[k])->Err_0.0, at_field(spec_parse_zero_attr(fs[k])->Err_0.1, k)),
        ),
    decreases fs.len(),
{
    lemma_zero_inits_ok(fs, named);
    if fs.len() > 0 {
        let init = fs.drop_last();
        let n = fs.len() - 1;
        law_zero_inits_per_field(init, named);
        lemma_zero_inits_ok(init, named);
        assert forall|i: int| 0 <= i < init.len() implies init[i] == fs[i] by {}
        assert forall|k: int| #[trigger] first_bad_zero(fs, k) implies zero_inits(fs, named) == Err::<Seq<Seq<char>>, (Seq<char>, ErrorSite)>(
            (spec_parse_zero_attr(fs[k])->Err_0.0, at_field(spec_parse_zero_attr(fs[k])->Err_0.1, k)),
        ) by {
            if k < n {
                assert(first_bad_zero(init, k)) by {
                    assert forall|j: int| 0 <= j < k implies (#[trigger] spec_parse_zero_attr(init[j])) is Ok by {
                        assert(spec_parse_zero_attr(fs[j]) is Ok);
                    }
                }
            } else {
                assert(all_zero_attrs_ok(init)) by {
                    assert forall|j: int| 0 <= j < init.len() implies (#[trigger] spec_parse_zero_attr(init[j])) is Ok by {
                        assert(spec_parse_zero_attr(fs[j]) is Ok);
                    }
                }
            }
        }
    }
}

/// The strategy each field of `fs` is zeroed with.
pub open spec fn zero_items(fs: Seq<Field>, named: bool) -> Seq<Seq<char>> {
    Seq::new(fs.len(), |i: int| init_item(fs[i], spec_parse_zero_attr(fs[i])->Ok_0, named))
}

/// When every field's `#[zero(..)]` is accepted, `zero()` builds the
/// struct literal `Name { f : init , .. }` (named fields), the tuple
/// `Name (init , ..)` or the bare name (unit struct), one initialiser per
/// field in field order, each from that field's own strategy.
pub proof fn law_zero_body_one_init_per_field(name: Seq<char>, fields: Fields)
    requires
        all_zero_attrs_ok(field_seq(fields)),
    ensures
        spec_zero_body(name, fields) == Ok::<Seq<char>, (Seq<char>, ErrorSite)>(match fields {
            Fields::Named(v) => words(seq![name, braced(comma_list(zero_items(v@, true)))]),
            Fields::Unnamed(v) => words(seq![name, parened(comma_list(zero_items(v@, false)))]),
            Fields::Unit => name,
        }),
{
    match fields {
        Fields::Named(v) => {
            law_zero_inits_per_field(v@, true);
            assert(zero_inits(v@, true)->Ok_0 =~= zero_items(v@, true));
        },
        Fields::Unnamed(v) => {
            law_zero_inits_per_field(v@, false);
            assert(zero_inits(v@, false)->Ok_0 =~= zero_items(v@, false));
        },
        Fields::Unit => {},
    }
}

/// The trait path of each field of `fs`.
pub open spec fn paths_of(fs: Seq<Field>) -> Seq<Seq<char>> {
    Seq::new(fs.len(), |i: int| spec_field_trait_path(fs[i])->Ok_0)
}

/// When every field's `#[linear(..)]` is accepted, the `LinearPixel<f32>`
/// impl calls each of `to_accumulator`, `scale`, `scale_add` and
/// `uniform` once per field, in field order, through that field's own
/// trait path; otherwise it is the first rejected field's error.
pub proof fn law_linear_pixel_one_call_per_field(name: Seq<char>, fields: Fields, acc: Seq<char>, g: Generics)
    ensures
        all_field_paths_ok(field_seq(fields)) ==> spec_linear_pixel(name, fields, acc, g) == Ok::<Seq<char>, (Seq<char>, ErrorSite)>(
            words(impl_parts(g, ":: fovea :: pixel :: LinearPixel < f32 >"@, name, linear_impl_body(fields, paths_of(field_seq(fields)), acc))),
        ),
        forall|k: int| #[trigger] first_bad_path(field_seq(fields), k) ==> spec_linear_pixel(name, fields, acc, g)
            == Err::<Seq<char>, (Seq<char>, ErrorSite)>((
            spec_field_trait_path(field_seq(fields)[k])->Err_0.0,
            at_field(spec_field_trait_path(field_seq(fields)[k])->Err_0.1, k),
        )),
{
    let fs = field_seq(fields);
    law_field_paths_per_field(fs);
    if all_field_paths_ok(fs) {
        assert(field_paths(fs)->Ok_0 =~= paths_of(fs));
    }
}

/// `Add`, `Sub` and `Mul` are one template: the same impl with the trait,
/// the method's signature and the operator swapped.
pub proof fn law_operators_share_one_template(name: Seq<char>, fields: Fields, g: Generics)
    ensures
        spec_add(name, fields, g) == op_impl(name, fields, g, ":: std :: ops :: Add"@, add_sig(), " + "@),
        spec_sub(name, fields, g) == op_impl(name, fields, g, ":: std :: ops :: Sub"@, sub_sig(), " - "@),
        spec_mul(name, fields, g) == op_impl(name, fields, g, ":: std :: ops :: Mul"@, mul_sig(), " * "@),
{
}

/// What an accepted LinearPixel derive emits, in order: `Add`, `Sub`,
/// `Mul`, the `LinearPixel<f32>` impl with its accumulator, `FromLinear`
/// unless the accumulator is `Self`, and `LinearSpace` unless `no_space`
/// is given; each impl carries the input's generics.
pub proof fn law_linear_derive_impl_order(input: DeriveInput)
    requires
        crate::linear_pixel::spec_derive(input) is Ok,
    ensures
        ({
            let name = input.ident@;
            let g = input.generics;
            let fields = field_seq_fields(input);
            let (acc, no_space) = spec_parse_linear_attr(input.attrs@)->Ok_0;
            let c = concrete_accumulator(input, acc);
            crate::linear_pixel::spec_derive(input) == Ok::<Seq<char>, (Seq<char>, ErrorSite)>(words(seq![
                spec_add(name, fields, g)->Ok_0,
                spec_sub(name, fields, g)->Ok_0,
                spec_mul(name, fields, g)->Ok_0,
                spec_linear_pixel(name, fields, c, g)->Ok_0,
                if spec_is_self(acc) { Seq::empty() } else { spec_from_linear(name, fields, c, g) },
                if no_space { Seq::empty() } else { spec_linear_space(name, g) }
            ]))
        }),
{
}

/// The fields of a struct input (no fields otherwise).
pub open spec fn field_seq_fields(input: DeriveInput) -> Fields {
    match input.data {
        Data::Struct(f) => f,
        _ => Fields::Unit,
    }
}

/// PlainPixel accepts exactly the structs that declare `#[repr(C)]` (not
/// `transparent`) with at least one field, or `#[repr(transparent)]` (not
/// `C`) with exactly one.
pub proof fn law_plain_accepts(input: DeriveInput)
    ensures
        crate::plain_pixel::spec_derive(input) is Ok <==> (input.data is Struct && ({
            let c = has_repr_word(input.attrs@, "C"@);
            let t = has_repr_word(input.attrs@, "transparent"@);
            let n = input_fields(input).len();
            (c && !t && n >= 1) || (t && !c && n == 1)
        })),
{
}

/// HomogeneousPixel accepts exactly the structs that declare `#[repr(C)]`
/// (not `transparent`) with at least one field, all of one type, or
/// `#[repr(transparent)]` (not `C`) with exactly one field.
pub proof fn law_homogeneous_accepts(input: DeriveInput)
    ensures
        crate::homogeneous_pixel::spec_derive(input) is Ok <==> (input.data is Struct && ({
            let c = has_repr_word(input.attrs@, "C"@);
            let t = has_repr_word(input.attrs@, "transparent"@);
            let n = input_fields(input).len();
            (c && !t && n >= 1 && uniform_types(input_fields(input))) || (t && !c && n == 1)
        })),
{
    law_homogeneous_is_plain_with_uniform_fields(input);
    law_plain_accepts(input);
    let fs = input_fields(input);
    if fs.len() == 1 {
        assert(uniform_types(fs));
    }
}

/// Field `i` is the first whose type differs from the first field's.
pub open spec fn first_mismatch(fs: Seq<Field>, i: int) -> bool {
    &&& 1 <= i < fs.len()
    &&& fs[i].ty@ != fs[0].ty@
    &&& forall|j: int| 1 <= j < i ==> (#[trigger] fs[j]).ty@ == fs[0].ty@
}

proof fn lemma_first_mismatch_from(fs: Seq<Field>, i: int, k: int)
    requires
        1 <= k <= i,
        first_mismatch(fs, i),
    ensures
        first_mismatch_from(fs, k) == Some(i),
    decreases i - k,
{
    if k < i {
        assert(fs[k].ty@ == fs[0].ty@);
        lemma_first_mismatch_from(fs, i, k + 1);
    }
}

/// For a struct with at least one field: `#[repr(transparent)]` gives the
/// single field's type and one channel; `#[repr(C)]` gives the first
/// field's type and one channel per field when all fields share it, and
/// otherwise the error at the first field whose type differs.
pub proof fn law_extract_uniform_channel(fields: Fields, repr: Repr)
    requires
        field_seq(fields).len() >= 1,
    ensures
        ({
            let fs = field_seq(fields);
            &&& repr == Repr::Transparent ==> spec_extract(fields, repr) == Ok::<(Seq<char>, nat), (Seq<char>, ErrorSite)>((fs[0].ty@, 1))
            &&& (repr == Repr::C && uniform_types(fs)) ==> spec_extract(fields, repr) == Ok::<(Seq<char>, nat), (Seq<char>, ErrorSite)>((fs[0].ty@, fs.len()))
            &&& forall|i: int| repr == Repr::C && #[trigger] first_mismatch(fs, i) ==> spec_extract(fields, repr)
                == Err::<(Seq<char>, nat), (Seq<char>, ErrorSite)>((mismatch_message(fs, i), ErrorSite::FieldType(i as usize)))
            &&& (spec_extract(fields, repr) is Ok <==> (repr == Repr::Transparent || uniform_types(fs)))
        }),
{
    let fs = field_seq(fields);
    lemma_no_mismatch_from(fs, 1);
    assert forall|i: int| repr == Repr::C && #[trigger] first_mismatch(fs, i) implies spec_extract(fields, repr)
        == Err::<(Seq<char>, nat), (Seq<char>, ErrorSite)>((mismatch_message(fs, i), ErrorSite::FieldType(i as usize))) by {
        lemma_first_mismatch_from(fs, i, 1);
    }
    if uniform_types(fs) {
        assert forall|j: int| 1 <= j < fs.len() implies (#[trigger] fs[j]).ty@ == fs[0].ty@ by {}
    }
    if !uniform_types(fs) {
        let j = choose|j: int| 0 <= j < fs.len() && (#[trigger] fs[j]).ty@ != fs[0].ty@;
        assert(fs[j].ty@ != fs[0].ty@);
    }
}

/// Attribute `k` is the first one named `name`.
pub open spec fn first_named(attrs: Seq<Attribute>, k: int, name: Seq<char>) -> bool {
    &&& 0 <= k < attrs.len()
    &&& attr_named(attrs[k], name)
    &&& forall|j: int| 0 <= j < k ==> !attr_named(#[trigger] attrs[j], name)
}

/// Attribute `j` is the next one named `name` after attribute `k`.
pub open spec fn next_named(attrs: Seq<Attribute>, k: int, j: int, name: Seq<char>) -> bool {
    &&& k < j < attrs.len()
    &&& attr_named(attrs[j], name)
    &&& forall|i: int| k < i < j ==> !attr_named(#[trigger] attrs[i], name)
}

/// No attribute after attribute `k` is named `name`.
pub open spec fn none_named_after(attrs: Seq<Attribute>, k: int, name: Seq<char>) -> bool {
    forall|i: int| k < i < attrs.len() ==> !attr_named(#[trigger] attrs[i], name)
}

/// What one `#[zero..]` attribute asks for, `syn`'s verdict included.
pub open spec fn zero_meta_of(a: Attribute) -> Result<ZeroChoice, Seq<char>> {
    crate::zeroable_pixel::spec_zero_meta(a.meta, crate::zeroable_pixel::zero_args_error(a.meta))
}

proof fn lemma_zero_scan_found(attrs: Seq<Attribute>, i: int, c: ZeroChoice)
    requires
        0 <= i,
    ensures
        (forall|j: int| i <= j < attrs.len() ==> !attr_named(#[trigger] attrs[j], "zero"@)) ==> zero_scan(attrs, i, Some(c))
            == Ok::<ZeroChoice, (Seq<char>, ErrorSite)>(c),
        forall|j: int| i <= j < attrs.len() && attr_named(attrs[j], "zero"@)
            && (forall|l: int| i <= l < j ==> !attr_named(#[trigger] attrs[l], "zero"@)) ==> #[trigger] zero_scan(attrs, i, Some(c))
            == Err::<ZeroChoice, (Seq<char>, ErrorSite)>((crate::zeroable_pixel::duplicate_message(), ErrorSite::Attr(j as usize))),
    decreases attrs.len() - i,
{
    if i < attrs.len() {
        lemma_zero_scan_found(attrs, i + 1, c);
    }
}

/// A field's zero strategy is decided by its first `#[zero..]` attribute
/// alone: none gives `<T as ZeroablePixel>::zero()`; a malformed one is
/// rejected at that attribute; a well-formed one gives its strategy when
/// no other `#[zero..]` follows, and a second one is rejected as a
/// duplicate at the second.
pub proof fn law_zero_attr_decides(f: Field)
    ensures
        no_zero_attr(f.attrs@) ==> spec_parse_zero_attr(f) == Ok::<ZeroChoice, (Seq<char>, ErrorSite)>(ZeroChoice::Trait),
        forall|k: int| #[trigger] first_named(f.attrs@, k, "zero"@) && zero_meta_of(f.attrs@[k]) is Err ==> spec_parse_zero_attr(f)
            == Err::<ZeroChoice, (Seq<char>, ErrorSite)>((zero_meta_of(f.attrs@[k])->Err_0, ErrorSite::Attr(k as usize))),
        forall|k: int| #[trigger] first_named(f.attrs@, k, "zero"@) && zero_meta_of(f.attrs@[k]) is Ok
            && none_named_after(f.attrs@, k, "zero"@) ==> spec_parse_zero_attr(f) == Ok::<ZeroChoice, (Seq<char>, ErrorSite)>(
            zero_meta_of(f.attrs@[k])->Ok_0,
        ),
        forall|k: int, j: int| #[trigger] first_named(f.attrs@, k, "zero"@) && zero_meta_of(f.attrs@[k]) is Ok
            && #[trigger] next_named(f.attrs@, k, j, "zero"@) ==> spec_parse_zero_attr(f) == Err::<ZeroChoice, (Seq<char>, ErrorSite)>(
            (crate::zeroable_pixel::duplicate_message(), ErrorSite::Attr(j as usize)),
        ),
{
    let attrs = f.attrs@;
    if no_zero_attr(attrs) {
        lemma_zero_scan_skips(attrs, 0);
    }
    assert forall|k: int| #[trigger] first_named(attrs, k, "zero"@) implies spec_parse_zero_attr(f) == zero_scan(attrs, k, None) by {
        lemma_zero_scan_prefix(attrs, k, 0);
    }
    assert forall|k: int| #[trigger] first_named(attrs, k, "zero"@) && zero_meta_of(attrs[k]) is Ok implies (none_named_after(
        attrs,
        k,
        "zero"@,
    ) ==> zero_scan(attrs, k, None) == Ok::<ZeroChoice, (Seq<char>, ErrorSite)>(zero_meta_of(attrs[k])->Ok_0)) && (forall|j: int|
        #[trigger] next_named(attrs, k, j, "zero"@) ==> zero_scan(attrs, k, None) == Err::<ZeroChoice, (Seq<char>, ErrorSite)>(
            (crate::zeroable_pixel::duplicate_message(), ErrorSite::Attr(j as usize)),
        )) by {
        let c = zero_meta_of(attrs[k])->Ok_0;
        lemma_zero_scan_found(attrs, k + 1, c);
        assert forall|j: int| #[trigger] next_named(attrs, k, j, "zero"@) implies zero_scan(attrs, k + 1, Some(c))
            == Err::<ZeroChoice, (Seq<char>, ErrorSite)>((crate::zeroable_pixel::duplicate_message(), ErrorSite::Attr(j as usize))) by {
            assert(attr_named(attrs[j], "zero"@));
        }
    }
}

proof fn lemma_field_path_scan_prefix(all: Seq<Attribute>, d: int, j: int)
    requires
        0 <= j <= d <= all.len(),
        forall|i: int| 0 <= i < d ==> !attr_named(#[trigger] all[i], "linear"@),
    ensures
        field_path_scan(all, j) == field_path_scan(all, d),
    decreases d - j,
{
    if j < d {
        lemma_field_path_scan_prefix(all, d, j + 1);
    }
}

/// The attribute is exactly `#[linear(nested)]`.
pub open spec fn is_nested_flag(a: Attribute) -> bool {
    match a.meta {
        Meta::List(ts) => ts@.len() == 1 && (ts@[0] matches TokenTree::Ident(id) && id@ == "nested"@),
        _ => false,
    }
}

/// A field's trait path is decided by its first `#[linear..]` attribute
/// alone: with none the field is a channel (`LinearChannel<f32>`); when
/// the first is exactly `#[linear(nested)]` it is a nested pixel
/// (`LinearPixel<f32>`); any other first `#[linear..]` is rejected.
pub proof fn law_field_trait_path_decides(f: Field)
    ensures
        no_linear_attr(f.attrs@) ==> spec_field_trait_path(f) == Ok::<Seq<char>, (Seq<char>, ErrorSite)>(channel_path()),
        forall|k: int| #[trigger] first_named(f.attrs@, k, "linear"@) ==> (spec_field_trait_path(f) is Ok <==> is_nested_flag(
            f.attrs@[k],
        )),
        forall|k: int| #[trigger] first_named(f.attrs@, k, "linear"@) && is_nested_flag(f.attrs@[k]) ==> spec_field_trait_path(f)
            == Ok::<Seq<char>, (Seq<char>, ErrorSite)>(crate::linear_pixel::pixel_path()),
{
    let attrs = f.attrs@;
    if no_linear_attr(attrs) {
        lemma_field_path_scan_skips(attrs, 0);
    }
    assert forall|k: int| #[trigger] first_named(attrs, k, "linear"@) implies spec_field_trait_path(f) == field_path_scan(attrs, k) by {
        lemma_field_path_scan_prefix(attrs, k, 0);
    }
}

/// The entry keys `#[linear(..)]` on a struct knows.
pub open spec fn known_linear_key(k: Seq<char>) -> bool {
    k == "accumulator"@ || k == "no_space"@
}

/// Entries `i..` each have a known key, `accumulator` with a type and
/// `no_space` bare.
pub open spec fn entries_well_formed_from(es: Seq<EntryView>, i: int) -> bool {
    forall|l: int| i <= l < es.len() ==> {
        &&& known_linear_key((#[trigger] es[l]).key)
        &&& es[l].key == "accumulator"@ ==> es[l].value is Some
        &&& es[l].key == "no_space"@ ==> es[l].value is None
    }
}

/// How many of entries `i..` have the key.
pub open spec fn key_count_from(es: Seq<EntryView>, i: int, key: Seq<char>) -> nat
    decreases es.len() - i,
{
    if i < 0 || i >= es.len() {
        0
    } else {
        (if es[i].key == key { 1nat } else { 0nat }) + key_count_from(es, i + 1, key)
    }
}

/// The value of the first `accumulator` among entries `i..`.
pub open spec fn first_accumulator_from(es: Seq<EntryView>, i: int) -> Option<Seq<TokenTree>>
    decreases es.len() - i,
{
    if i < 0 || i >= es.len() {
        None
    } else if es[i].key == "accumulator"@ {
        es[i].value
    } else {
        first_accumulator_from(es, i + 1)
    }
}

pub open spec fn flag_count(b: bool) -> nat {
    if b { 1 } else { 0 }
}

proof fn lemma_apply_entries(es: Seq<EntryView>, i: int, acc: Option<Seq<TokenTree>>, flag: bool, attr: int)
    requires
        0 <= i <= es.len(),
    ensures
        apply_entries(es, i, acc, flag, attr) is Ok <==> (entries_well_formed_from(es, i) && key_count_from(es, i, "accumulator"@)
            + flag_count(acc is Some) <= 1 && key_count_from(es, i, "no_space"@) + flag_count(flag) <= 1),
        apply_entries(es, i, acc, flag, attr) matches Ok((a, f)) ==> f == (flag || key_count_from(es, i, "no_space"@) > 0) && a == (
        if key_count_from(es, i, "accumulator"@) > 0 {
            first_accumulator_from(es, i)
        } else {
            acc
        }),
    decreases es.len() - i,
{
    reveal_strlit("accumulator");
    reveal_strlit("no_space");
    if i < es.len() {
        let kv = es[i];
        if kv.key == "accumulator"@ {
            lemma_apply_entries(es, i + 1, kv.value, flag, attr);
        } else if kv.key == "no_space"@ {
            lemma_apply_entries(es, i + 1, acc, true, attr);
        }
        if entries_well_formed_from(es, i) {
            assert forall|l: int| i + 1 <= l < es.len() implies {
                &&& known_linear_key((#[trigger] es[l]).key)
                &&& es[l].key == "accumulator"@ ==> es[l].value is Some
                &&& es[l].key == "no_space"@ ==> es[l].value is None
            } by {}
            assert(entries_well_formed_from(es, i + 1));
        }
        if entries_well_formed_from(es, i + 1) && known_linear_key(kv.key) && (kv.key == "accumulator"@ ==> kv.value is Some) && (
        kv.key == "no_space"@ ==> kv.value is None) {
            assert forall|l: int| i <= l < es.len() implies {
                &&& known_linear_key((#[trigger] es[l]).key)
                &&& es[l].key == "accumulator"@ ==> es[l].value is Some
                &&& es[l].key == "no_space"@ ==> es[l].value is None
            } by {
                if l == i {
                }
            }
        }
        if !known_linear_key(kv.key) || (kv.key == "accumulator"@ && kv.value is None) || (kv.key == "no_space"@ && kv.value is Some) {
            assert(!entries_well_formed_from(es, i)) by {
                assert(es[i] == kv);
            }
        }
    }
}

/// The entries of the `#[linear(..)]` attributes from attribute `k` on,
/// in order, when each of them is a list whose arguments parse.
pub open spec fn linear_entries_from(attrs: Seq<Attribute>, k: int) -> Option<Seq<EntryView>>
    decreases attrs.len() - k,
{
    if k < 0 || k >= attrs.len() {
        Some(Seq::empty())
    } else if !attr_named(attrs[k], "linear"@) {
        linear_entries_from(attrs, k + 1)
    } else {
        match attrs[k].meta {
            Meta::List(ts) => match parse_entries_from(ts@, 0) {
                Ok(es) => match linear_entries_from(attrs, k + 1) {
                    Some(rest) => Some(es + rest),
                    None => None,
                },
                Err(_) => None,
            },
            _ => None,
        }
    }
}

proof fn lemma_entries_concat(a: Seq<EntryView>, b: Seq<EntryView>, i: int)
    requires
        0 <= i <= a.len(),
    ensures
        key_count_from(a + b, i, "accumulator"@) == key_count_from(a, i, "accumulator"@) + key_count_from(b, 0, "accumulator"@),
        key_count_from(a + b, i, "no_space"@) == key_count_from(a, i, "no_space"@) + key_count_from(b, 0, "no_space"@),
        first_accumulator_from(a + b, i) == (if key_count_from(a, i, "accumulator"@) > 0 {
            first_accumulator_from(a, i)
        } else {
            first_accumulator_from(b, 0)
        }),
        entries_well_formed_from(a + b, i) <==> (entries_well_formed_from(a, i) && entries_well_formed_from(b, 0)),
    decreases a.len() - i,
{
    let ab = a + b;
    if i < a.len() {
        lemma_entries_concat(a, b, i + 1);
        assert(ab[i] == a[i]);
        if entries_well_formed_from(a, i) && entries_well_formed_from(b, 0) {
            assert forall|l: int| i <= l < ab.len() implies {
                &&& known_linear_key((#[trigger] ab[l]).key)
                &&& ab[l].key == "accumulator"@ ==> ab[l].value is Some
                &&& ab[l].key == "no_space"@ ==> ab[l].value is None
            } by {
                if l < a.len() {
                    assert(ab[l] == a[l]);
                } else {
                    assert(ab[l] == b[l - a.len()]);
                }
            }
        }
        if entries_well_formed_from(ab, i) {
            assert forall|l: int| i <= l < a.len() implies {
                &&& known_linear_key((#[trigger] a[l]).key)
                &&& a[l].key == "accumulator"@ ==> a[l].value is Some
                &&& a[l].key == "no_space"@ ==> a[l].value is None
            } by {
                assert(ab[l] == a[l]);
            }
            assert forall|l: int| 0 <= l < b.len() implies {
                &&& known_linear_key((#[trigger] b[l]).key)
                &&& b[l].key == "accumulator"@ ==> b[l].value is Some
                &&& b[l].key == "no_space"@ ==> b[l].value is None
            } by {
                assert(ab[l + a.len()] == b[l]);
            }
        }
    } else {
        lemma_entries_shift(a, b, 0);
    }
}

proof fn lemma_entries_shift(a: Seq<EntryView>, b: Seq<EntryView>, j: int)
    requires
        0 <= j <= b.len(),
    ensures
        key_count_from(a + b, a.len() + j, "accumulator"@) == key_count_from(b, j, "accumulator"@),
        key_count_from(a + b, a.len() + j, "no_space"@) == key_count_from(b, j, "no_space"@),
        first_accumulator_from(a + b, a.len() + j) == first_accumulator_from(b, j),
        entries_well_formed_from(a + b, a.len() + j) <==> entries_well_formed_from(b, j),
    decreases b.len() - j,
{
    let ab = a + b;
    if j < b.len() {
        lemma_entries_shift(a, b, j + 1);
        assert(ab[a.len() + j] == b[j]);
    }
    assert forall|l: int| a.len() + j <= l < ab.len() implies ab[l] == b[l - a.len()] by {}
    if entries_well_formed_from(b, j) {
        assert forall|l: int| a.len() + j <= l < ab.len() implies {
            &&& known_linear_key((#[trigger] ab[l]).key)
            &&& ab[l].key == "accumulator"@ ==> ab[l].value is Some
            &&& ab[l].key == "no_space"@ ==> ab[l].value is None
        } by {
            assert(ab[l] == b[l - a.len()]);
        }
    }
    if entries_well_formed_from(ab, a.len() + j) {
        assert forall|l: int| j <= l < b.len() implies {
            &&& known_linear_key((#[trigger] b[l]).key)
            &&& b[l].key == "accumulator"@ ==> b[l].value is Some
            &&& b[l].key == "no_space"@ ==> b[l].value is None
        } by {
            assert(ab[l + a.len()] == b[l]);
        }
    }
}

proof fn lemma_first_accumulator_some(es: Seq<EntryView>, i: int)
    requires
        0 <= i,
        entries_well_formed_from(es, i),
        key_count_from(es, i, "accumulator"@) > 0,
    ensures
        first_accumulator_from(es, i) is Some,
    decreases es.len() - i,
{
    if i < es.len() && es[i].key != "accumulator"@ {
        assert forall|l: int| i + 1 <= l < es.len() implies {
            &&& known_linear_key((#[trigger] es[l]).key)
            &&& es[l].key == "accumulator"@ ==> es[l].value is Some
            &&& es[l].key == "no_space"@ ==> es[l].value is None
        } by {}
        lemma_first_accumulator_some(es, i + 1);
    }
}

proof fn lemma_linear_scan_entries(attrs: Seq<Attribute>, k: int, acc: Option<Seq<TokenTree>>, flag: bool, es: Seq<EntryView>)
    requires
        0 <= k,
        linear_entries_from(attrs, k) == Some(es),
    ensures
        linear_scan(attrs, k, acc, flag) is Ok <==> (entries_well_formed_from(es, 0) && key_count_from(es, 0, "accumulator"@)
            + flag_count(acc is Some) == 1 && key_count_from(es, 0, "no_space"@) + flag_count(flag) <= 1),
        linear_scan(attrs, k, acc, flag) matches Ok((a, f)) ==> f == (flag || key_count_from(es, 0, "no_space"@) > 0) && Some(a) == (
        if key_count_from(es, 0, "accumulator"@) > 0 {
            first_accumulator_from(es, 0)
        } else {
            acc
        }),
    decreases attrs.len() - k,
{
    if k >= attrs.len() {
        assert(es == Seq::<EntryView>::empty());
    } else if !attr_named(attrs[k], "linear"@) {
        lemma_linear_scan_entries(attrs, k + 1, acc, flag, es);
    } else {
        let ts = attrs[k].meta->List_0;
        let ek = parse_entries_from(ts@, 0)->Ok_0;
        let rest = linear_entries_from(attrs, k + 1)->Some_0;
        assert(es == ek + rest);
        lemma_apply_entries(ek, 0, acc, flag, k);
        lemma_entries_concat(ek, rest, 0);
        if entries_well_formed_from(ek, 0) && key_count_from(ek, 0, "accumulator"@) > 0 {
            lemma_first_accumulator_some(ek, 0);
        }
        if let Ok((a1, f1)) = apply_entries(ek, 0, acc, flag, k) {
            lemma_linear_scan_entries(attrs, k + 1, a1, f1, rest);
        }
    }
}

/// When every `#[linear(..)]` attribute of the struct is a list whose
/// arguments parse, the entries of all of them are read as one list: the
/// struct's accumulator is accepted exactly when every key is
/// `accumulator` (with a type) or `no_space` (bare), `accumulator` comes
/// exactly once across all the attributes and `no_space` at most once; the
/// accumulator is then that type and the flag says whether `no_space` was
/// given. With no `#[linear(..)]` at all the accumulator is missing.
pub proof fn law_linear_attr_accepts(attrs: Seq<Attribute>, es: Seq<EntryView>)
    requires
        linear_entries_from(attrs, 0) == Some(es),
    ensures
        spec_parse_linear_attr(attrs) is Ok <==> (entries_well_formed_from(es, 0) && key_count_from(es, 0, "accumulator"@) == 1
            && key_count_from(es, 0, "no_space"@) <= 1),
        spec_parse_linear_attr(attrs) is Ok ==> spec_parse_linear_attr(attrs) == Ok::<(Seq<TokenTree>, bool), (Seq<char>, ErrorSite)>(
            (first_accumulator_from(es, 0)->Some_0, key_count_from(es, 0, "no_space"@) == 1),
        ),
{
    lemma_linear_scan_entries(attrs, 0, None, false, es);
}

proof fn lemma_linear_scan_rest(attrs: Seq<Attribute>, k: int, acc: Option<Seq<TokenTree>>, flag: bool)
    requires
        0 <= k,
        forall|j: int| k <= j < attrs.len() ==> !attr_named(#[trigger] attrs[j], "linear"@),
    ensures
        linear_scan(attrs, k, acc, flag) == match acc {
            Some(a) => Ok::<(Seq<TokenTree>, bool), (Seq<char>, ErrorSite)>((a, flag)),
            None => Err((crate::linear_pixel::missing_accumulator_message(), ErrorSite::CallSite)),
        },
    decreases attrs.len() - k,
{
    if k < attrs.len() {
        lemma_linear_scan_rest(attrs, k + 1, acc, flag);
    }
}

/// A struct with no `#[linear(..)]` attribute has no accumulator.
pub proof fn law_linear_attr_missing(attrs: Seq<Attribute>)
    requires
        no_linear_attr(attrs),
    ensures
        spec_parse_linear_attr(attrs) == Err::<(Seq<TokenTree>, bool), (Seq<char>, ErrorSite)>(
            (crate::linear_pixel::missing_accumulator_message(), ErrorSite::CallSite),
        ),
{
    lemma_linear_scan_rest(attrs, 0, None, false);
}

} // verus!
