//! `#[derive(LinearPixel)]`: channel-wise linear arithmetic with an explicit
//! accumulator type.
//!
//! The struct needs at least one field and a container attribute
//! `#[linear(accumulator = Type)]`, optionally with the bare flag
//! `no_space`. The derive emits channel-wise `Add`, `Sub` and `Mul`, a
//! `LinearPixel<f32>` impl delegating to each field, a `FromLinear` impl
//! when the accumulator is not `Self`, and the `LinearSpace` marker unless
//! `no_space` is given. A field tagged `#[linear(nested)]` is treated as a
//! pixel (`LinearPixel<f32>`), any other as a channel (`LinearChannel<f32>`).
use vstd::prelude::*;

use crate::model::{
    at_field, attr_is_named, opt_text, attr_named, copy_tokens, error_at_field, field_name, field_seq, impl_block,
    impl_parts, named_fields_have_idents, outcome_is, render_all, render_range, render_tokens, Attribute,
    Data, DeriveError, DeriveInput, ErrorSite, Field, Fields, Generics, Meta, TokenTree,
};
use crate::outside::{ident_parse_error, syn_ident_error, syn_type_error, type_parse_error};
use crate::text::{
    braced, comma_list, decimal, parened, words, brace, decimal_string, join_comma, paren, text_eq, Words,
};

verus! {

/// One `key` or `key = Type` entry of `#[linear(..)]`.
#[derive(Debug)]
pub struct LinearKV {
    /// The key's text.
    pub key: String,
    /// The key's position among the attribute's tokens.
    pub key_index: usize,
    /// The tokens of the value after `=`, if any.
    pub value: Option<Vec<TokenTree>>,
}

/// An entry with its text taken as sequences.
pub struct EntryView {
    pub key: Seq<char>,
    pub key_index: int,
    pub value: Option<Seq<TokenTree>>,
}

impl View for LinearKV {
    type V = EntryView;

    open spec fn view(&self) -> EntryView {
        EntryView {
            key: self.key@,
            key_index: self.key_index as int,
            value: match self.value {
                Some(v) => Some(v@),
                None => None,
            },
        }
    }
}

/// What `#[linear(..)]` on the struct says.
#[derive(Debug)]
pub struct LinearAttr {
    /// The tokens of the accumulator type.
    pub accumulator: Vec<TokenTree>,
    /// Whether `no_space` was given: no `LinearSpace` marker.
    pub no_space: bool,
}

pub open spec fn is_punct(t: TokenTree, c: char) -> bool {
    t matches TokenTree::Punct(x, _) && x == c
}

/// Position `e` ends an entry's value: the end of the tokens or a comma.
pub open spec fn ends_value(ts: Seq<TokenTree>, e: int) -> bool {
    e == ts.len() || (0 <= e < ts.len() && is_punct(ts[e], ','))
}

/// The verdicts on the candidate values that start at token `v`: entry
/// `i` says whether the tokens `v..v + i` end where a value may end and
/// `syn` parses them as a type.
pub open spec fn type_verdicts(ts: Seq<TokenTree>, v: int) -> Seq<bool> {
    if v > ts.len() {
        Seq::empty()
    } else {
        Seq::new((ts.len() + 1 - v) as nat, |i: int| ends_value(ts, v + i) && syn_type_error(render_tokens(ts.subrange(v, v + i))) is None)
    }
}

/// The first position `e` (from `from` on) ending a value that starts at
/// `v` whose verdict (entry `e - v` of `verdicts`) is an acceptance; a
/// missing verdict counts as a refusal.
pub open spec fn value_end(ts: Seq<TokenTree>, v: int, verdicts: Seq<bool>, from: int) -> Option<int>
    decreases ts.len() + 1 - from,
{
    if from < v || from > ts.len() {
        None
    } else if ends_value(ts, from) && from - v < verdicts.len() && verdicts[from - v] {
        Some(from)
    } else {
        value_end(ts, v, verdicts, from + 1)
    }
}

/// What `syn` says of token `p` as an identifier, when it is one (nothing
/// otherwise).
pub open spec fn key_error_at(ts: Seq<TokenTree>, p: int) -> Option<Seq<char>> {
    if 0 <= p < ts.len() {
        match ts[p] {
            TokenTree::Ident(k) => syn_ident_error(k@),
            _ => None,
        }
    } else {
        None
    }
}

/// What `syn` says of an empty type: the message for a value missing at
/// the end of an argument list.
pub open spec fn empty_type_error() -> Seq<char> {
    match syn_type_error(""@) {
        Some(m) => m,
        None => "expected a type after `=`"@,
    }
}

/// The entry starting at token `p`, with the position just after it, or a
/// message and the token it points at (the number of tokens naming the
/// closing delimiter). Given: `key_error`, what `syn` says of the key as
/// an identifier; `verdicts`, the verdicts on the candidate values that
/// start at `p + 2`; `eof_error`, the message for a value missing at the
/// end.
pub open spec fn parse_kv_given(
    ts: Seq<TokenTree>,
    p: int,
    key_error: Option<Seq<char>>,
    verdicts: Seq<bool>,
    eof_error: Seq<char>,
) -> Result<(EntryView, int), (Seq<char>, int)> {
    if p < 0 || p >= ts.len() {
        Err(("unexpected end of input, expected identifier"@, p))
    } else {
        match ts[p] {
            TokenTree::Ident(k) => match key_error {
                Some(m) => Err((m, p)),
                None => if p + 1 == ts.len() || is_punct(ts[p + 1], ',') {
                    Ok((EntryView { key: k@, key_index: p, value: None }, p + 1))
                } else if is_punct(ts[p + 1], '=') {
                    match value_end(ts, p + 2, verdicts, p + 2) {
                        Some(e) => Ok((EntryView { key: k@, key_index: p, value: Some(ts.subrange(p + 2, e)) }, e)),
                        None => if p + 2 == ts.len() {
                            Err((eof_error, ts.len() as int))
                        } else {
                            Err(("expected a type after `=`"@, p + 1))
                        },
                    }
                } else {
                    Err(("expected `=` or `,`"@, p + 1))
                },
            },
            _ => Err(("expected identifier"@, p)),
        }
    }
}

/// The entry starting at token `p`, with what `syn` says of its key and of
/// its candidate values.
pub open spec fn parse_kv(ts: Seq<TokenTree>, p: int) -> Result<(EntryView, int), (Seq<char>, int)> {
    parse_kv_given(ts, p, key_error_at(ts, p), type_verdicts(ts, p + 2), empty_type_error())
}

pub proof fn lemma_value_end_bounds(ts: Seq<TokenTree>, v: int, verdicts: Seq<bool>, from: int)
    ensures
        value_end(ts, v, verdicts, from) matches Some(e) ==> from <= e <= ts.len() && ends_value(ts, e),
    decreases ts.len() + 1 - from,
{
    if from < v || from > ts.len() {
    } else if ends_value(ts, from) && from - v < verdicts.len() && verdicts[from - v] {
    } else {
        lemma_value_end_bounds(ts, v, verdicts, from + 1);
    }
}

/// An entry ends just before a comma or at the end of the tokens.
pub proof fn lemma_parse_kv_advances(
    ts: Seq<TokenTree>,
    p: int,
    key_error: Option<Seq<char>>,
    verdicts: Seq<bool>,
    eof_error: Seq<char>,
)
    ensures
        parse_kv_given(ts, p, key_error, verdicts, eof_error) matches Ok((kv, next)) ==> p < next <= ts.len() && ends_value(
            ts,
            next,
        ) && kv.key_index == p,
{
    lemma_value_end_bounds(ts, p + 2, verdicts, p + 2);
}

/// The verdicts on the candidate values that start at token `v`, asked of
/// `syn` at each comma and at the end.
fn verdicts_from(tokens: &[TokenTree], v: usize) -> (r: Vec<bool>)
    requires
        v <= tokens@.len(),
    ensures
        r@ == type_verdicts(tokens@, v as int),
{
    let n = tokens.len();
    let mut r: Vec<bool> = Vec::new();
    let mut e: usize = v;
    loop
        invariant_except_break
            v <= e <= n,
            r@.len() == e - v,
        invariant
            n == tokens@.len(),
            forall|i: int| 0 <= i < r@.len() ==> r@[i] == type_verdicts(tokens@, v as int)[i],
        ensures
            r@.len() == n + 1 - v,
            forall|i: int| 0 <= i < r@.len() ==> r@[i] == type_verdicts(tokens@, v as int)[i],
        decreases n - e,
    {
        let ok = if e == n || is_comma(&tokens[e]) {
            let text = render_range(tokens, v, e);
            type_parse_error(text.as_str()).is_none()
        } else {
            false
        };
        r.push(ok);
        if e == n {
            break;
        }
        e = e + 1;
    }
    assert(r@ =~= type_verdicts(tokens@, v as int));
    r
}

impl LinearKV {
    /// Parses the entry starting at token `start`, given what `syn` says
    /// of the key as an identifier (`key_error`), the verdicts on the
    /// candidate values (`verdicts`, entry `i` for the value ending at
    /// token `start + 2 + i`) and the message for a value missing at the
    /// end (`eof_error`): an identifier that `syn` accepts, then either
    /// nothing (a flag) or `=` and a value. The value's tokens run to the
    /// first comma (or the end) whose verdict is an acceptance. Returns the
    /// entry and the position just after it, or a message and the token it
    /// points at (the number of tokens for the closing delimiter).
    pub fn parse_given(
        tokens: &[TokenTree],
        start: usize,
        key_error: Option<String>,
        verdicts: &[bool],
        eof_error: &str,
    ) -> (r: Result<(LinearKV, usize), (String, usize)>)
        ensures
            match parse_kv_given(tokens@, start as int, opt_text(key_error), verdicts@, eof_error@) {
                Ok((kv, next)) => r matches Ok((x, n)) && x@ == kv && n == next,
                Err((m, t)) => r matches Err((x, n)) && x@ == m && n == t,
            },
    {
        let n = tokens.len();
        if start >= n {
            return Err((String::from_str("unexpected end of input, expected identifier"), start));
        }
        let key = match &tokens[start] {
            TokenTree::Ident(k) => k.clone(),
            _ => {
                return Err((String::from_str("expected identifier"), start));
            },
        };
        if let Some(m) = key_error {
            return Err((m, start));
        }
        if start + 1 == n || is_comma(&tokens[start + 1]) {
            return Ok((LinearKV { key, key_index: start, value: None }, start + 1));
        }
        if !is_eq(&tokens[start + 1]) {
            return Err((String::from_str("expected `=` or `,`"), start + 1));
        }
        let v = start + 2;
        let mut e: usize = v;
        loop
            invariant
                n == tokens@.len(),
                start + 2 == v <= e <= n,
                start < n,
                tokens@[start as int] matches TokenTree::Ident(k) && k@ == key@,
                key_error is None,
                !(start + 1 == n || is_punct(tokens@[start + 1], ',')),
                is_punct(tokens@[start + 1], '='),
                value_end(tokens@, v as int, verdicts@, v as int) == value_end(tokens@, v as int, verdicts@, e as int),
            ensures
                value_end(tokens@, v as int, verdicts@, v as int) == None::<int>,
            decreases n - e,
        {
            if (e == n || is_comma(&tokens[e])) && e - v < verdicts.len() && verdicts[e - v] {
                let value = copy_tokens(tokens, v, e);
                assert(value_end(tokens@, v as int, verdicts@, e as int) == Some(e as int));
                return Ok((LinearKV { key, key_index: start, value: Some(value) }, e));
            }
            if e == n {
                assert(value_end(tokens@, v as int, verdicts@, n + 1) == None::<int>);
                assert(value_end(tokens@, v as int, verdicts@, e as int) == None::<int>);
                break;
            }
            e = e + 1;
        }
        if v == n {
            return Err((String::from_str(eof_error), n));
        }
        Err((String::from_str("expected a type after `=`"), start + 1))
    }

    /// Parses the entry starting at token `start`, asking `syn` about the
    /// key and about each candidate value (see `parse_given`).
    pub fn parse(tokens: &[TokenTree], start: usize) -> (r: Result<(LinearKV, usize), (String, usize)>)
        ensures
            match parse_kv(tokens@, start as int) {
                Ok((kv, next)) => r matches Ok((x, n)) && x@ == kv && n == next,
                Err((m, t)) => r matches Err((x, n)) && x@ == m && n == t,
            },
    {
        let n = tokens.len();
        let key_error = if start < n {
            match &tokens[start] {
                TokenTree::Ident(k) => ident_parse_error(k.as_str()),
                _ => None,
            }
        } else {
            None
        };
        let verdicts = if start < n && n - start >= 2 {
            verdicts_from(tokens, start + 2)
        } else {
            Vec::new()
        };
        proof {
            if start + 2 > tokens@.len() {
                assert(type_verdicts(tokens@, start + 2) =~= verdicts@);
            }
        }
        let eof_error = match type_parse_error("") {
            Some(m) => m,
            None => String::from_str("expected a type after `=`"),
        };
        LinearKV::parse_given(tokens, start, key_error, verdicts.as_slice(), eof_error.as_str())
    }
}

/// The entries of an argument list from token `p` on: entries separated
/// by commas, a trailing comma allowed.
pub open spec fn parse_entries_from(ts: Seq<TokenTree>, p: int) -> Result<Seq<EntryView>, (Seq<char>, int)>
    decreases ts.len() - p,
{
    if p < 0 || p >= ts.len() {
        Ok(Seq::empty())
    } else {
        match parse_kv(ts, p) {
            Err(e) => Err(e),
            Ok((kv, next)) => if next >= ts.len() {
                Ok(seq![kv])
            } else {
                proof {
                    lemma_parse_kv_advances(ts, p, key_error_at(ts, p), type_verdicts(ts, p + 2), empty_type_error());
                }
                match parse_entries_from(ts, next + 1) {
                    Err(e) => Err(e),
                    Ok(rest) => Ok(seq![kv] + rest),
                }
            },
        }
    }
}

fn is_comma(t: &TokenTree) -> (b: bool)
    ensures
        b == is_punct(*t, ','),
{
    match t {
        TokenTree::Punct(c, _) => *c == ',',
        _ => false,
    }
}

fn is_eq(t: &TokenTree) -> (b: bool)
    ensures
        b == is_punct(*t, '='),
{
    match t {
        TokenTree::Punct(c, _) => *c == '=',
        _ => false,
    }
}

/// The entries of a `#[linear(..)]` argument list, in order, or a message
/// and the token it points at.
pub fn parse_linear_entries(tokens: &[TokenTree]) -> (r: Result<Vec<LinearKV>, (String, usize)>)
    ensures
        match parse_entries_from(tokens@, 0) {
            Ok(es) => r matches Ok(x) && x@.len() == es.len() && forall|i: int| 0 <= i < es.len() ==> (#[trigger] x@[i])@ == es[i],
            Err((m, t)) => r matches Err((x, n)) && x@ == m && n == t,
        },
{
    let n = tokens.len();
    let mut out: Vec<LinearKV> = Vec::new();
    let ghost mut done: Seq<EntryView> = Seq::empty();
    let mut p: usize = 0;
    while p < n
        invariant
            n == tokens@.len(),
            0 <= p <= n,
            out@.len() == done.len(),
            forall|i: int| 0 <= i < done.len() ==> (#[trigger] out@[i])@ == done[i],
            match parse_entries_from(tokens@, p as int) {
                Ok(rest) => parse_entries_from(tokens@, 0) == Ok::<Seq<EntryView>, (Seq<char>, int)>(done + rest),
                Err(e) => parse_entries_from(tokens@, 0) == Err::<Seq<EntryView>, (Seq<char>, int)>(e),
            },
        decreases n - p,
    {
        proof {
            lemma_parse_kv_advances(tokens@, p as int, key_error_at(tokens@, p as int), type_verdicts(tokens@, p + 2), empty_type_error());
        }
        match LinearKV::parse(tokens, p) {
            Err((m, t)) => {
                return Err((m, t));
            },
            Ok((kv, next)) => {
                proof {
                    let old_done = done;
                    done = done.push(kv@);
                    if next < n {
                        match parse_entries_from(tokens@, next + 1) {
                            Ok(rest) => {
                                assert(old_done + (seq![kv@] + rest) =~= done + rest);
                            },
                            Err(e) => {},
                        }
                    } else {
                        assert(old_done + seq![kv@] =~= done);
                        assert(done + Seq::<EntryView>::empty() =~= done);
                    }
                }
                out.push(kv);
                if next >= n {
                    proof {
                        assert(parse_entries_from(tokens@, next + 1) == Ok::<Seq<EntryView>, (Seq<char>, int)>(Seq::empty()));
                    }
                    p = n;
                } else {
                    p = next + 1;
                }
                proof {
                    assert forall|i: int| 0 <= i < done.len() implies (#[trigger] out@[i])@ == done[i] by {}
                }
            },
        }
    }
    proof {
        assert(done + Seq::<EntryView>::empty() =~= done);
    }
    Ok(out)
}

pub open spec fn missing_accumulator_message() -> Seq<char> {
    "LinearPixel derive requires #[linear(accumulator = Type)] attribute"@
}

pub open spec fn path_form_message() -> Seq<char> {
    "expected attribute arguments in parentheses: #[linear(...)]"@
}

pub open spec fn name_value_form_message() -> Seq<char> {
    "expected parentheses: #[linear(...)]"@
}

/// Applies entries `i..` of the attribute at index `attr` to the
/// accumulator found so far and the `no_space` flag.
pub open spec fn apply_entries(
    es: Seq<EntryView>,
    i: int,
    acc: Option<Seq<TokenTree>>,
    flag: bool,
    attr: int,
) -> Result<(Option<Seq<TokenTree>>, bool), (Seq<char>, ErrorSite)>
    decreases es.len() - i,
{
    if i < 0 || i >= es.len() {
        Ok((acc, flag))
    } else {
        let kv = es[i];
        let site = ErrorSite::AttrToken(attr as usize, kv.key_index as usize);
        if kv.key == "accumulator"@ {
            if acc is Some {
                Err(("duplicate `accumulator` key in #[linear(...)]"@, site))
            } else {
                match kv.value {
                    Some(v) => apply_entries(es, i + 1, Some(v), flag, attr),
                    None => Err(("`accumulator` needs a type: #[linear(accumulator = Type)]"@, site)),
                }
            }
        } else if kv.key == "no_space"@ {
            if flag {
                Err(("duplicate `no_space` key in #[linear(...)]"@, site))
            } else {
                match kv.value {
                    Some(_) => Err(("`no_space` is a flag and takes no value: #[linear(accumulator = Type, no_space)]"@, site)),
                    None => apply_entries(es, i + 1, acc, true, attr),
                }
            }
        } else {
            Err(("unknown key `"@ + kv.key + "` in #[linear(...)]; expected `accumulator` or `no_space`"@, site))
        }
    }
}

/// The settings gathered from container attributes `k..`.
pub open spec fn linear_scan(attrs: Seq<Attribute>, k: int, acc: Option<Seq<TokenTree>>, flag: bool) -> Result<(Seq<TokenTree>, bool), (Seq<char>, ErrorSite)>
    decreases attrs.len() - k,
{
    if k < 0 || k >= attrs.len() {
        match acc {
            Some(a) => Ok((a, flag)),
            None => Err((missing_accumulator_message(), ErrorSite::CallSite)),
        }
    } else if !attr_named(attrs[k], "linear"@) {
        linear_scan(attrs, k + 1, acc, flag)
    } else {
        match attrs[k].meta {
            Meta::Path => Err((path_form_message(), ErrorSite::AttrPath(k as usize))),
            Meta::NameValue => Err((name_value_form_message(), ErrorSite::AttrEq(k as usize))),
            Meta::List(ts) => match parse_entries_from(ts@, 0) {
                Err((m, t)) => Err((m, ErrorSite::AttrToken(k as usize, t as usize))),
                Ok(es) => match apply_entries(es, 0, acc, flag, k) {
                    Err(e) => Err(e),
                    Ok((acc2, flag2)) => linear_scan(attrs, k + 1, acc2, flag2),
                },
            },
        }
    }
}

/// The accumulator tokens and the `no_space` flag that the struct's
/// `#[linear(..)]` attributes declare.
pub open spec fn spec_parse_linear_attr(attrs: Seq<Attribute>) -> Result<(Seq<TokenTree>, bool), (Seq<char>, ErrorSite)> {
    linear_scan(attrs, 0, None, false)
}

/// The accumulator found so far and the `no_space` flag, while the
/// container attributes are read.
pub struct LinearSettings {
    pub accumulator: Option<Vec<TokenTree>>,
    pub no_space: bool,
}

pub open spec fn settings_view(s: LinearSettings) -> (Option<Seq<TokenTree>>, bool) {
    (
        match s.accumulator {
            Some(v) => Some(v@),
            None => None,
        },
        s.no_space,
    )
}

/// The views of a list of entries.
pub open spec fn entry_views(entries: Seq<LinearKV>) -> Seq<EntryView> {
    entries.map_values(|kv: LinearKV| kv@)
}

/// Applies the entries of the attribute at index `attr` to the settings
/// read so far: `accumulator = Type` sets the accumulator (once), the bare
/// flag `no_space` sets the flag (once); a key without its value, a value
/// on `no_space`, a repeated key and any other key are rejected at the
/// key.
pub fn apply_linear_entries(settings: LinearSettings, entries: &[LinearKV], attr: usize) -> (r: Result<LinearSettings, DeriveError>)
    ensures
        match apply_entries(entry_views(entries@), 0, settings_view(settings).0, settings_view(settings).1, attr as int) {
            Ok(v) => r matches Ok(s) && settings_view(s) == v,
            Err(e) => r matches Err(x) && x@ == e,
        },
{
    let ghost es = entry_views(entries@);
    let ghost start = settings_view(settings);
    let mut cur = settings;
    let n = entries.len();
    let mut i: usize = 0;
    while i < n
        invariant
            n == entries@.len(),
            es == entry_views(entries@),
            start == settings_view(settings),
            0 <= i <= n,
            apply_entries(es, 0, start.0, start.1, attr as int) == apply_entries(
                es,
                i as int,
                settings_view(cur).0,
                settings_view(cur).1,
                attr as int,
            ),
        decreases n - i,
    {
        let kv = &entries[i];
        assert(es[i as int] == kv@);
        let site = ErrorSite::AttrToken(attr, kv.key_index);
        if text_eq(kv.key.as_str(), "accumulator") {
            if cur.accumulator.is_some() {
                return Err(DeriveError {
                    message: String::from_str("duplicate `accumulator` key in #[linear(...)]"),
                    site,
                });
            }
            match &kv.value {
                Some(v) => {
                    let copy = copy_tokens(v.as_slice(), 0, v.len());
                    assert(copy@ =~= v@);
                    cur = LinearSettings { accumulator: Some(copy), no_space: cur.no_space };
                },
                None => {
                    return Err(DeriveError {
                        message: String::from_str("`accumulator` needs a type: #[linear(accumulator = Type)]"),
                        site,
                    });
                },
            }
        } else if text_eq(kv.key.as_str(), "no_space") {
            if cur.no_space {
                return Err(DeriveError {
                    message: String::from_str("duplicate `no_space` key in #[linear(...)]"),
                    site,
                });
            }
            match &kv.value {
                Some(_) => {
                    return Err(DeriveError {
                        message: String::from_str(
                            "`no_space` is a flag and takes no value: #[linear(accumulator = Type, no_space)]",
                        ),
                        site,
                    });
                },
                None => {
                    cur = LinearSettings { accumulator: cur.accumulator, no_space: true };
                },
            }
        } else {
            let mut m = String::from_str("unknown key `");
            m.append(kv.key.as_str());
            m.append("` in #[linear(...)]; expected `accumulator` or `no_space`");
            return Err(DeriveError { message: m, site });
        }
        i = i + 1;
    }
    Ok(cur)
}

/// Reads the struct's `#[linear(..)]` attributes in order (others are
/// skipped): each must be a parenthesized list of entries. The result is
/// the one accumulator type and whether `no_space` was given; with no
/// accumulator the derive is rejected as a whole.
pub fn parse_linear_attr(attrs: &[Attribute]) -> (r: Result<LinearAttr, DeriveError>)
    ensures
        match spec_parse_linear_attr(attrs@) {
            Ok((acc, flag)) => r matches Ok(a) && a.accumulator@ == acc && a.no_space == flag,
            Err(e) => r matches Err(x) && x@ == e,
        },
{
    let n = attrs.len();
    let mut settings = LinearSettings { accumulator: None, no_space: false };
    let mut k: usize = 0;
    while k < n
        invariant
            n == attrs@.len(),
            0 <= k <= n,
            spec_parse_linear_attr(attrs@) == linear_scan(
                attrs@,
                k as int,
                settings_view(settings).0,
                settings_view(settings).1,
            ),
        decreases n - k,
    {
        let attr = &attrs[k];
        if attr_is_named(attr, "linear") {
            match &attr.meta {
                Meta::Path => {
                    return Err(DeriveError {
                        message: String::from_str("expected attribute arguments in parentheses: #[linear(...)]"),
                        site: ErrorSite::AttrPath(k),
                    });
                },
                Meta::NameValue => {
                    return Err(DeriveError {
                        message: String::from_str("expected parentheses: #[linear(...)]"),
                        site: ErrorSite::AttrEq(k),
                    });
                },
                Meta::List(ts) => {
                    let entries = match parse_linear_entries(ts.as_slice()) {
                        Ok(es) => es,
                        Err((m, t)) => {
                            return Err(DeriveError { message: m, site: ErrorSite::AttrToken(k, t) });
                        },
                    };
                    proof {
                        let es = parse_entries_from(ts@, 0)->Ok_0;
                        assert(entry_views(entries@) =~= es);
                    }
                    settings = match apply_linear_entries(settings, entries.as_slice(), k) {
                        Ok(s) => s,
                        Err(e) => {
                            return Err(e);
                        },
                    };
                },
            }
        }
        k = k + 1;
    }
    match settings.accumulator {
        Some(acc) => Ok(LinearAttr { accumulator: acc, no_space: settings.no_space }),
        None => Err(DeriveError {
            message: String::from_str("LinearPixel derive requires #[linear(accumulator = Type)] attribute"),
            site: ErrorSite::CallSite,
        }),
    }
}

/// The accumulator is written `Self`: a single identifier token `Self`.
pub open spec fn spec_is_self(ty: Seq<TokenTree>) -> bool {
    &&& ty.len() == 1
    &&& ty[0] matches TokenTree::Ident(s) && s@ == "Self"@
}

/// Whether the accumulator type is `Self`.
pub fn is_self_accumulator(ty: &[TokenTree]) -> (b: bool)
    ensures
        b == spec_is_self(ty@),
{
    if ty.len() != 1 {
        return false;
    }
    match &ty[0] {
        TokenTree::Ident(s) => text_eq(s.as_str(), "Self"),
        _ => false,
    }
}

/// The trait through which a channel field is accessed.
pub open spec fn channel_path() -> Seq<char> {
    ":: fovea :: pixel :: LinearChannel < f32 >"@
}

/// The trait through which a nested pixel field is accessed.
pub open spec fn pixel_path() -> Seq<char> {
    ":: fovea :: pixel :: LinearPixel < f32 >"@
}

/// The argument list is exactly `nested`.
pub open spec fn is_nested_args(ts: Seq<TokenTree>) -> bool {
    ts.len() == 1 && (ts[0] matches TokenTree::Ident(id) && id@ == "nested"@)
}

/// The decision on the argument list of a field's `#[linear(..)]` (its
/// attribute `k`), given what `syn` says of the whole list as one
/// identifier (`whole`) and of its first token (`first`): `nested` names a
/// nested pixel; otherwise `syn`'s refusal, at the first token or, when
/// that token is an identifier `syn` accepts, at the second (the closing
/// delimiter for an empty list); a single identifier other than `nested`
/// is an unknown key.
pub open spec fn field_args_decision(
    ts: Seq<TokenTree>,
    k: int,
    whole: Option<Seq<char>>,
    first: Option<Seq<char>>,
) -> Result<Seq<char>, (Seq<char>, ErrorSite)> {
    if is_nested_args(ts) {
        Ok(pixel_path())
    } else {
        match whole {
            Some(m) => Err((
                m,
                ErrorSite::AttrToken(k as usize, if ts.len() > 1 && ts[0] is Ident && first is None { 1 } else { 0 }),
            )),
            None => Err((
                "unknown key `"@ + render_tokens(ts) + "` in field-level #[linear(...)]; expected `nested`"@,
                ErrorSite::AttrToken(k as usize, 0),
            )),
        }
    }
}

/// The trait path for a field, decided by its first `#[linear(..)]`
/// attribute from index `k` on; errors point into the field's attributes.
pub open spec fn field_path_scan(attrs: Seq<Attribute>, k: int) -> Result<Seq<char>, (Seq<char>, ErrorSite)>
    decreases attrs.len() - k,
{
    if k < 0 || k >= attrs.len() {
        Ok(channel_path())
    } else if !attr_named(attrs[k], "linear"@) {
        field_path_scan(attrs, k + 1)
    } else {
        match attrs[k].meta {
            Meta::Path => Err((path_form_message(), ErrorSite::AttrPath(k as usize))),
            Meta::NameValue => Err((name_value_form_message(), ErrorSite::AttrEq(k as usize))),
            Meta::List(ts) => field_args_decision(ts@, k, syn_ident_error(render_tokens(ts@)), key_error_at(ts@, 0)),
        }
    }
}

/// Decides a field's `#[linear(..)]` argument list (its attribute `k`),
/// given what `syn` says of the whole list as one identifier and of its
/// first token (see `field_args_decision`).
pub fn decide_field_args(ts: &[TokenTree], k: usize, whole: Option<String>, first: Option<String>) -> (r: Result<String, DeriveError>)
    ensures
        outcome_is(r, field_args_decision(ts@, k as int, opt_text(whole), opt_text(first))),
{
    let nested = ts.len() == 1 && match &ts[0] {
        TokenTree::Ident(id) => text_eq(id.as_str(), "nested"),
        _ => false,
    };
    if nested {
        return Ok(String::from_str(":: fovea :: pixel :: LinearPixel < f32 >"));
    }
    match whole {
        Some(m) => {
            let second = ts.len() > 1 && first.is_none() && match &ts[0] {
                TokenTree::Ident(_) => true,
                _ => false,
            };
            let t: usize = if second { 1 } else { 0 };
            Err(DeriveError { message: m, site: ErrorSite::AttrToken(k, t) })
        },
        None => {
            let mut m = String::from_str("unknown key `");
            m.append(render_all(ts).as_str());
            m.append("` in field-level #[linear(...)]; expected `nested`");
            Err(DeriveError { message: m, site: ErrorSite::AttrToken(k, 0) })
        },
    }
}

/// The trait path for a field.
pub open spec fn spec_field_trait_path(f: Field) -> Result<Seq<char>, (Seq<char>, ErrorSite)> {
    field_path_scan(f.attrs@, 0)
}

/// The trait through which the generated code reaches a field's linear
/// arithmetic: `LinearPixel<f32>` when the field's first `#[linear(..)]`
/// attribute is `#[linear(nested)]`, `LinearChannel<f32>` when it has
/// none. The bare and `= ..` forms are rejected at the attribute's path
/// and `=`; any other argument list with `syn`'s message (or as an unknown
/// key) at a token of the list. Sites are counted among the field's
/// attributes (`AttrPath(k)`, `AttrEq(k)`, `AttrToken(k, t)`).
pub fn field_trait_path(field: &Field) -> (r: Result<String, DeriveError>)
    ensures
        outcome_is(r, spec_field_trait_path(*field)),
{
    let attrs = &field.attrs;
    let n = attrs.len();
    let mut k: usize = 0;
    while k < n
        invariant
            n == attrs@.len(),
            *attrs == field.attrs,
            0 <= k <= n,
            spec_field_trait_path(*field) == field_path_scan(attrs@, k as int),
        decreases n - k,
    {
        let attr = &attrs[k];
        if attr_is_named(attr, "linear") {
            match &attr.meta {
                Meta::Path => {
                    return Err(DeriveError {
                        message: String::from_str("expected attribute arguments in parentheses: #[linear(...)]"),
                        site: ErrorSite::AttrPath(k),
                    });
                },
                Meta::NameValue => {
                    return Err(DeriveError {
                        message: String::from_str("expected parentheses: #[linear(...)]"),
                        site: ErrorSite::AttrEq(k),
                    });
                },
                Meta::List(ts) => {
                    let whole_text = render_all(ts.as_slice());
                    let whole = ident_parse_error(whole_text.as_str());
                    let first = if ts.len() > 0 {
                        match &ts[0] {
                            TokenTree::Ident(id) => ident_parse_error(id.as_str()),
                            _ => None,
                        }
                    } else {
                        None
                    };
                    return decide_field_args(ts.as_slice(), k, whole, first);
                },
            }
        }
        k = k + 1;
    }
    Ok(String::from_str(":: fovea :: pixel :: LinearChannel < f32 >"))
}

/// How the generated code names a field: its name, or its index in a
/// tuple struct.
pub open spec fn access(f: Field, i: int, named: bool) -> Seq<char> {
    if named {
        field_name(f)
    } else {
        decimal(i as nat)
    }
}

/// A field's name, or its index in a tuple struct.
fn access_string(f: &Field, i: usize, named: bool) -> (s: String)
    ensures
        s@ == access(*f, i as int, named),
{
    if named {
        match &f.ident {
            Some(id) => id.clone(),
            None => String::new(),
        }
    } else {
        decimal_string(i)
    }
}

/// One entry of a channel-wise operation: `self . a OP other . a`, named
/// `a : ..` in a struct with named fields.
pub open spec fn op_item(f: Field, i: int, named: bool, op: Seq<char>) -> Seq<char> {
    let a = access(f, i, named);
    if named {
        a + " : self . "@ + a + op + "other . "@ + a
    } else {
        "self . "@ + a + op + "other . "@ + a
    }
}

/// The result of a channel-wise operation: `Name { .. }` or `Name (..)`.
pub open spec fn op_body(name: Seq<char>, fields: Fields, op: Seq<char>) -> Result<Seq<char>, (Seq<char>, ErrorSite)> {
    match fields {
        Fields::Named(v) => Ok(words(seq![name, braced(comma_list(Seq::new(v@.len(), |i: int| op_item(v@[i], i, true, op))))])),
        Fields::Unnamed(v) => Ok(words(seq![name, parened(comma_list(Seq::new(v@.len(), |i: int| op_item(v@[i], i, false, op))))])),
        Fields::Unit => Err(("LinearPixel cannot be derived for unit structs"@, ErrorSite::Ident)),
    }
}

/// A channel-wise operator impl.
pub open spec fn op_impl(
    name: Seq<char>,
    fields: Fields,
    g: Generics,
    trait_path: Seq<char>,
    sig: Seq<char>,
    op: Seq<char>,
) -> Result<Seq<char>, (Seq<char>, ErrorSite)> {
    match op_body(name, fields, op) {
        Err(e) => Err(e),
        Ok(b) => Ok(words(impl_parts(g, trait_path, name, words(seq![sig, braced(b)])))),
    }
}

pub open spec fn add_sig() -> Seq<char> {
    "type Output = Self ; # [inline (always)] fn add (self , other : Self) -> Self"@
}

pub open spec fn sub_sig() -> Seq<char> {
    "type Output = Self ; # [inline (always)] fn sub (self , other : Self) -> Self"@
}

pub open spec fn mul_sig() -> Seq<char> {
    "type Output = Self ; # [inline (always)] fn mul (self , other : Self) -> Self"@
}

/// The channel-wise `Add` impl.
pub open spec fn spec_add(name: Seq<char>, fields: Fields, g: Generics) -> Result<Seq<char>, (Seq<char>, ErrorSite)> {
    op_impl(name, fields, g, ":: std :: ops :: Add"@, add_sig(), " + "@)
}

/// The channel-wise `Sub` impl.
pub open spec fn spec_sub(name: Seq<char>, fields: Fields, g: Generics) -> Result<Seq<char>, (Seq<char>, ErrorSite)> {
    op_impl(name, fields, g, ":: std :: ops :: Sub"@, sub_sig(), " - "@)
}

/// The channel-wise `Mul` impl.
pub open spec fn spec_mul(name: Seq<char>, fields: Fields, g: Generics) -> Result<Seq<char>, (Seq<char>, ErrorSite)> {
    op_impl(name, fields, g, ":: std :: ops :: Mul"@, mul_sig(), " * "@)
}

/// The entries of a channel-wise operation, one per field.
fn op_items(v: &Vec<Field>, named: bool, op: &str) -> (items: Vec<String>)
    requires
        named ==> forall|i: int| 0 <= i < v@.len() ==> (#[trigger] v@[i]).ident is Some,
    ensures
        items.deep_view() == Seq::new(v@.len(), |i: int| op_item(v@[i], i, named, op@)),
{
    let n = v.len();
    let mut items: Vec<String> = Vec::new();
    let mut i: usize = 0;
    while i < n
        invariant
            n == v@.len(),
            0 <= i <= n,
            items@.len() == i,
            forall|j: int| 0 <= j < i ==> (#[trigger] items@[j])@ == op_item(v@[j], j, named, op@),
        decreases n - i,
    {
        let f = &v[i];
        let a = access_string(f, i, named);
        let mut s = if named {
            let mut s = a.clone();
            s.append(" : self . ");
            s
        } else {
            String::from_str("self . ")
        };
        s.append(a.as_str());
        s.append(op);
        s.append("other . ");
        s.append(a.as_str());
        items.push(s);
        i = i + 1;
    }
    assert(items.deep_view() =~= Seq::new(v@.len(), |i: int| op_item(v@[i], i, named, op@)));
    items
}

/// A channel-wise operator impl: `impl TRAIT for Name { SIG { Name { .. } } }`.
fn fieldwise_impl(name: &str, fields: &Fields, g: &Generics, trait_path: &str, sig: &str, op: &str) -> (r: Result<String, DeriveError>)
    requires
        named_fields_have_idents(*fields),
    ensures
        outcome_is(r, op_impl(name@, *fields, *g, trait_path@, sig@, op@)),
{
    let body = match fields {
        Fields::Named(v) => {
            let items = op_items(v, true, op);
            let mut w = Words::new();
            w.push(name);
            w.push_string(brace(join_comma(&items).as_str()));
            assert(w.parts@ =~= seq![name@, braced(comma_list(items.deep_view()))]);
            w.text
        },
        Fields::Unnamed(v) => {
            let items = op_items(v, false, op);
            let mut w = Words::new();
            w.push(name);
            w.push_string(paren(join_comma(&items).as_str()));
            assert(w.parts@ =~= seq![name@, parened(comma_list(items.deep_view()))]);
            w.text
        },
        Fields::Unit => {
            return Err(DeriveError {
                message: String::from_str("LinearPixel cannot be derived for unit structs"),
                site: ErrorSite::Ident,
            });
        },
    };
    let mut inner = Words::new();
    inner.push(sig);
    inner.push_string(brace(body.as_str()));
    assert(inner.parts@ =~= seq![sig@, braced(body@)]);
    Ok(impl_block(g, trait_path, name, inner.text.as_str()))
}

/// The channel-wise `Add` impl: `Name { f : self . f + other . f , .. }`,
/// or `Name (self . 0 + other . 0 , ..)` for a tuple struct; a unit struct
/// is rejected at its name.
pub fn generate_add(name: &str, fields: &Fields, generics: &Generics) -> (r: Result<String, DeriveError>)
    requires
        named_fields_have_idents(*fields),
    ensures
        outcome_is(r, spec_add(name@, *fields, *generics)),
{
    fieldwise_impl(
        name,
        fields,
        generics,
        ":: std :: ops :: Add",
        "type Output = Self ; # [inline (always)] fn add (self , other : Self) -> Self",
        " + ",
    )
}

/// The channel-wise `Sub` impl, shaped as `generate_add`'s with `-`.
pub fn generate_sub(name: &str, fields: &Fields, generics: &Generics) -> (r: Result<String, DeriveError>)
    requires
        named_fields_have_idents(*fields),
    ensures
        outcome_is(r, spec_sub(name@, *fields, *generics)),
{
    fieldwise_impl(
        name,
        fields,
        generics,
        ":: std :: ops :: Sub",
        "type Output = Self ; # [inline (always)] fn sub (self , other : Self) -> Self",
        " - ",
    )
}

/// The channel-wise `Mul` impl, shaped as `generate_add`'s with `*`.
pub fn generate_mul(name: &str, fields: &Fields, generics: &Generics) -> (r: Result<String, DeriveError>)
    requires
        named_fields_have_idents(*fields),
    ensures
        outcome_is(r, spec_mul(name@, *fields, *generics)),
{
    fieldwise_impl(
        name,
        fields,
        generics,
        ":: std :: ops :: Mul",
        "type Output = Self ; # [inline (always)] fn mul (self , other : Self) -> Self",
        " * ",
    )
}

/// The trait paths of fields `fs`, in order, or the first field's error
/// (moved to that field).
pub open spec fn field_paths(fs: Seq<Field>) -> Result<Seq<Seq<char>>, (Seq<char>, ErrorSite)>
    decreases fs.len(),
{
    if fs.len() == 0 {
        Ok(Seq::empty())
    } else {
        match field_paths(fs.drop_last()) {
            Err(e) => Err(e),
            Ok(ps) => match spec_field_trait_path(fs.last()) {
                Err((m, site)) => Err((m, at_field(site, fs.len() - 1))),
                Ok(p) => Ok(ps.push(p)),
            },
        }
    }
}

proof fn lemma_field_paths_error_persists(v: Seq<Field>, j: int)
    requires
        1 <= j <= v.len(),
        field_paths(v.take(j)) is Err,
    ensures
        field_paths(v) == field_paths(v.take(j)),
    decreases v.len() - j,
{
    if j < v.len() {
        assert(v.take(j + 1).drop_last() =~= v.take(j));
        lemma_field_paths_error_persists(v, j + 1);
    } else {
        assert(v.take(j) =~= v);
    }
}

/// The trait path of every field, in order.
fn trait_paths(fields: &Fields) -> (r: Result<Vec<String>, DeriveError>)
    ensures
        match field_paths(field_seq(*fields)) {
            Ok(ps) => r matches Ok(x) && x.deep_view() == ps,
            Err(e) => r matches Err(x) && x@ == e,
        },
        r matches Ok(x) ==> x@.len() == field_seq(*fields).len(),
{
    let ghost fs = field_seq(*fields);
    let n = fields.len();
    let mut paths: Vec<String> = Vec::new();
    let mut i: usize = 0;
    proof {
        assert(fs.take(0).len() == 0);
        assert(paths.deep_view() =~= Seq::<Seq<char>>::empty());
    }
    while i < n
        invariant
            fs == field_seq(*fields),
            n == fs.len(),
            0 <= i <= n,
            field_paths(fs.take(i as int)) == Ok::<Seq<Seq<char>>, (Seq<char>, ErrorSite)>(paths.deep_view()),
            paths@.len() == i,
        decreases n - i,
    {
        let f = fields.get(i);
        proof {
            assert(fs.take(i + 1).drop_last() =~= fs.take(i as int));
            assert(fs.take(i + 1).last() == fs[i as int]);
        }
        match field_trait_path(f) {
            Ok(p) => {
                let ghost before = paths.deep_view();
                paths.push(p);
                assert(paths.deep_view() =~= before.push(p@));
            },
            Err(e) => {
                let moved = error_at_field(e, i);
                proof {
                    lemma_field_paths_error_persists(fs, i + 1);
                }
                return Err(moved);
            },
        }
        i = i + 1;
    }
    assert(fs.take(n as int) =~= fs);
    Ok(paths)
}

/// `< T as PATH >`: a field's type seen through its trait.
pub open spec fn qualified(f: Field, path: Seq<char>) -> Seq<char> {
    "< "@ + f.ty@ + " as "@ + path + " >"@
}

/// The call of method `m` (0 `to_accumulator`, 1 `scale`, 2 `scale_add`,
/// 3 `uniform`) on a field reached as `a`; in a single-field tuple struct
/// `scale_add` converts the whole addend.
pub open spec fn method_call(m: int, q: Seq<char>, a: Seq<char>, single: bool) -> Seq<char> {
    if m == 0 {
        q + " :: to_accumulator (& self . "@ + a + ")"@
    } else if m == 1 {
        q + " :: scale (& self . "@ + a + " , scalar)"@
    } else if m == 2 {
        if single {
            q + " :: scale_add (& self . "@ + a + " , scalar , :: core :: convert :: Into :: into (addend) ,)"@
        } else {
            q + " :: scale_add (& self . "@ + a + " , scalar , addend . "@ + a + " . into () ,)"@
        }
    } else {
        q + " :: uniform (scalar)"@
    }
}

/// One field's entry in the accumulator built by method `m`.
pub open spec fn method_item(m: int, f: Field, path: Seq<char>, i: int, named: bool) -> Seq<char> {
    let a = access(f, i, named);
    let call = method_call(m, qualified(f, path), a, false);
    if named {
        a + " : "@ + call + " . into ()"@
    } else {
        call + " . into ()"@
    }
}

/// The body of method `m`: the accumulator built field by field, or, for a
/// single-field tuple struct, the field's result converted into it.
pub open spec fn method_body(m: int, fields: Fields, paths: Seq<Seq<char>>, acc: Seq<char>) -> Seq<char> {
    match fields {
        Fields::Named(v) => words(seq![
            acc,
            braced(comma_list(Seq::new(v@.len(), |i: int| method_item(m, v@[i], paths[i], i, true))))
        ]),
        Fields::Unnamed(v) => if v@.len() == 1 {
            ":: core :: convert :: Into :: < "@ + acc + " > :: into "@ + parened(
                method_call(m, qualified(v@[0], paths[0]), decimal(0), true),
            )
        } else {
            words(seq![
                acc,
                parened(comma_list(Seq::new(v@.len(), |i: int| method_item(m, v@[i], paths[i], i, false))))
            ])
        },
        Fields::Unit => Seq::empty(),
    }
}

/// The body of the `LinearPixel<f32>` impl.
pub open spec fn linear_impl_body(fields: Fields, paths: Seq<Seq<char>>, acc: Seq<char>) -> Seq<char> {
    words(seq![
        "type Accumulator ="@,
        acc,
        "; # [inline (always)] fn to_accumulator (& self) -> Self :: Accumulator"@,
        braced(method_body(0, fields, paths, acc)),
        "# [inline (always)] fn scale (& self , scalar : f32) -> Self :: Accumulator"@,
        braced(method_body(1, fields, paths, acc)),
        "# [inline (always)] fn scale_add (& self , scalar : f32 , addend : Self :: Accumulator) -> Self :: Accumulator"@,
        braced(method_body(2, fields, paths, acc)),
        "# [inline (always)] fn uniform (scalar : f32) -> Self :: Accumulator"@,
        braced(method_body(3, fields, paths, acc))
    ])
}

/// The `LinearPixel<f32>` impl, or the first field whose `#[linear(..)]`
/// is rejected.
pub open spec fn spec_linear_pixel(name: Seq<char>, fields: Fields, acc: Seq<char>, g: Generics) -> Result<Seq<char>, (Seq<char>, ErrorSite)> {
    match field_paths(field_seq(fields)) {
        Err(e) => Err(e),
        Ok(paths) => Ok(words(impl_parts(g, ":: fovea :: pixel :: LinearPixel < f32 >"@, name, linear_impl_body(fields, paths, acc)))),
    }
}

/// The text of method `m`'s call on field `f`.
fn method_call_string(m: usize, f: &Field, path: &str, a: &str, single: bool) -> (s: String)
    ensures
        s@ == method_call(m as int, qualified(*f, path@), a@, single),
{
    let mut s = String::from_str("< ");
    s.append(f.ty.as_str());
    s.append(" as ");
    s.append(path);
    s.append(" >");
    if m == 0 {
        s.append(" :: to_accumulator (& self . ");
        s.append(a);
        s.append(")");
    } else if m == 1 {
        s.append(" :: scale (& self . ");
        s.append(a);
        s.append(" , scalar)");
    } else if m == 2 {
        if single {
            s.append(" :: scale_add (& self . ");
            s.append(a);
            s.append(" , scalar , :: core :: convert :: Into :: into (addend) ,)");
        } else {
            s.append(" :: scale_add (& self . ");
            s.append(a);
            s.append(" , scalar , addend . ");
            s.append(a);
            s.append(" . into () ,)");
        }
    } else {
        s.append(" :: uniform (scalar)");
    }
    s
}

/// The entries of method `m`'s accumulator, one per field.
fn method_items(m: usize, v: &Vec<Field>, paths: &Vec<String>, named: bool) -> (items: Vec<String>)
    requires
        paths@.len() == v@.len(),
        named ==> forall|i: int| 0 <= i < v@.len() ==> (#[trigger] v@[i]).ident is Some,
    ensures
        items.deep_view() == Seq::new(v@.len(), |i: int| method_item(m as int, v@[i], paths.deep_view()[i], i, named)),
{
    let ghost pv = paths.deep_view();
    let n = v.len();
    let mut items: Vec<String> = Vec::new();
    let mut i: usize = 0;
    while i < n
        invariant
            n == v@.len(),
            pv == paths.deep_view(),
            paths@.len() == n,
            0 <= i <= n,
            items@.len() == i,
            forall|j: int| 0 <= j < i ==> (#[trigger] items@[j])@ == method_item(m as int, v@[j], pv[j], j, named),
        decreases n - i,
    {
        let f = &v[i];
        let a = access_string(f, i, named);
        assert(pv[i as int] == paths@[i as int]@);
        let call = method_call_string(m, f, paths[i].as_str(), a.as_str(), false);
        let mut s = if named {
            let mut s = a.clone();
            s.append(" : ");
            s
        } else {
            String::new()
        };
        s.append(call.as_str());
        s.append(" . into ()");
        items.push(s);
        i = i + 1;
    }
    assert(items.deep_view() =~= Seq::new(v@.len(), |i: int| method_item(m as int, v@[i], pv[i], i, named)));
    items
}

/// The body of method `m`.
fn method_body_string(m: usize, fields: &Fields, paths: &Vec<String>, acc: &str) -> (s: String)
    requires
        paths@.len() == field_seq(*fields).len(),
        named_fields_have_idents(*fields),
    ensures
        s@ == method_body(m as int, *fields, paths.deep_view(), acc@),
{
    match fields {
        Fields::Named(v) => {
            let items = method_items(m, v, paths, true);
            let mut w = Words::new();
            w.push(acc);
            w.push_string(brace(join_comma(&items).as_str()));
            assert(w.parts@ =~= seq![acc@, braced(comma_list(items.deep_view()))]);
            w.text
        },
        Fields::Unnamed(v) => {
            if v.len() == 1 {
                let zero = decimal_string(0);
                assert(paths.deep_view()[0] == paths@[0]@);
                let call = method_call_string(m, &v[0], paths[0].as_str(), zero.as_str(), true);
                let mut s = String::from_str(":: core :: convert :: Into :: < ");
                s.append(acc);
                s.append(" > :: into ");
                s.append(paren(call.as_str()).as_str());
                s
            } else {
                let items = method_items(m, v, paths, false);
                let mut w = Words::new();
                w.push(acc);
                w.push_string(paren(join_comma(&items).as_str()));
                assert(w.parts@ =~= seq![acc@, parened(comma_list(items.deep_view()))]);
                w.text
            }
        },
        Fields::Unit => String::new(),
    }
}

/// The `LinearPixel<f32>` impl with accumulator `acc`: `to_accumulator`,
/// `scale`, `scale_add` and `uniform`, each delegating field by field
/// through the field's trait (see `field_trait_path`) and converting with
/// `into`; a single-field tuple struct delegates to its one field. The
/// first field whose `#[linear(..)]` is rejected gives the error.
pub fn generate_linear_pixel(name: &str, fields: &Fields, acc: &str, generics: &Generics) -> (r: Result<String, DeriveError>)
    requires
        !(*fields is Unit),
        named_fields_have_idents(*fields),
    ensures
        outcome_is(r, spec_linear_pixel(name@, *fields, acc@, *generics)),
{
    let paths = match trait_paths(fields) {
        Ok(p) => p,
        Err(e) => return Err(e),
    };
    let b0 = method_body_string(0, fields, &paths, acc);
    let b1 = method_body_string(1, fields, &paths, acc);
    let b2 = method_body_string(2, fields, &paths, acc);
    let b3 = method_body_string(3, fields, &paths, acc);
    let mut w = Words::new();
    w.push("type Accumulator =");
    w.push(acc);
    w.push("; # [inline (always)] fn to_accumulator (& self) -> Self :: Accumulator");
    w.push_string(brace(b0.as_str()));
    w.push("# [inline (always)] fn scale (& self , scalar : f32) -> Self :: Accumulator");
    w.push_string(brace(b1.as_str()));
    w.push("# [inline (always)] fn scale_add (& self , scalar : f32 , addend : Self :: Accumulator) -> Self :: Accumulator");
    w.push_string(brace(b2.as_str()));
    w.push("# [inline (always)] fn uniform (scalar : f32) -> Self :: Accumulator");
    w.push_string(brace(b3.as_str()));
    assert(w.parts@ =~= seq![
        "type Accumulator ="@,
        acc@,
        "; # [inline (always)] fn to_accumulator (& self) -> Self :: Accumulator"@,
        braced(method_body(0, *fields, paths.deep_view(), acc@)),
        "# [inline (always)] fn scale (& self , scalar : f32) -> Self :: Accumulator"@,
        braced(method_body(1, *fields, paths.deep_view(), acc@)),
        "# [inline (always)] fn scale_add (& self , scalar : f32 , addend : Self :: Accumulator) -> Self :: Accumulator"@,
        braced(method_body(2, *fields, paths.deep_view(), acc@)),
        "# [inline (always)] fn uniform (scalar : f32) -> Self :: Accumulator"@,
        braced(method_body(3, *fields, paths.deep_view(), acc@))
    ]);
    Ok(impl_block(generics, ":: fovea :: pixel :: LinearPixel < f32 >", name, w.text.as_str()))
}

/// One field's entry in the struct built back from an accumulator.
pub open spec fn from_item(f: Field, i: int, named: bool) -> Seq<char> {
    let a = access(f, i, named);
    if named {
        a + " : :: fovea :: pixel :: FromLinear :: from_linear (acc . "@ + a + ")"@
    } else {
        ":: fovea :: pixel :: FromLinear :: from_linear (acc . "@ + a + ")"@
    }
}

/// The body of `from_linear`: the struct built field by field from the
/// accumulator's fields; a single-field tuple struct wraps the conversion
/// of the whole accumulator.
pub open spec fn from_body(name: Seq<char>, fields: Fields) -> Seq<char> {
    match fields {
        Fields::Named(v) => words(seq![name, braced(comma_list(Seq::new(v@.len(), |i: int| from_item(v@[i], i, true))))]),
        Fields::Unnamed(v) => if v@.len() == 1 {
            words(seq![name, parened(":: fovea :: pixel :: FromLinear :: from_linear (acc)"@)])
        } else {
            words(seq![name, parened(comma_list(Seq::new(v@.len(), |i: int| from_item(v@[i], i, false))))])
        },
        Fields::Unit => Seq::empty(),
    }
}

/// The `FromLinear<acc>` impl.
pub open spec fn spec_from_linear(name: Seq<char>, fields: Fields, acc: Seq<char>, g: Generics) -> Seq<char> {
    words(impl_parts(
        g,
        ":: fovea :: pixel :: FromLinear < "@ + acc + " >"@,
        name,
        words(seq!["# [inline (always)] fn from_linear"@, parened("acc : "@ + acc), "-> Self"@, braced(from_body(name, fields))]),
    ))
}

/// The entries of `from_linear`'s struct, one per field.
fn from_items(v: &Vec<Field>, named: bool) -> (items: Vec<String>)
    requires
        named ==> forall|i: int| 0 <= i < v@.len() ==> (#[trigger] v@[i]).ident is Some,
    ensures
        items.deep_view() == Seq::new(v@.len(), |i: int| from_item(v@[i], i, named)),
{
    let n = v.len();
    let mut items: Vec<String> = Vec::new();
    let mut i: usize = 0;
    while i < n
        invariant
            n == v@.len(),
            0 <= i <= n,
            items@.len() == i,
            forall|j: int| 0 <= j < i ==> (#[trigger] items@[j])@ == from_item(v@[j], j, named),
        decreases n - i,
    {
        let a = access_string(&v[i], i, named);
        let mut s = if named {
            let mut s = a.clone();
            s.append(" : :: fovea :: pixel :: FromLinear :: from_linear (acc . ");
            s
        } else {
            String::from_str(":: fovea :: pixel :: FromLinear :: from_linear (acc . ")
        };
        s.append(a.as_str());
        s.append(")");
        items.push(s);
        i = i + 1;
    }
    assert(items.deep_view() =~= Seq::new(v@.len(), |i: int| from_item(v@[i], i, named)));
    items
}

/// The `FromLinear<acc>` impl: `from_linear` converts each accumulator
/// field back with `FromLinear::from_linear`; a single-field tuple struct
/// converts the whole accumulator.
pub fn generate_from_linear(name: &str, fields: &Fields, acc: &str, generics: &Generics) -> (r: Result<String, DeriveError>)
    requires
        !(*fields is Unit),
        named_fields_have_idents(*fields),
    ensures
        r matches Ok(s) && s@ == spec_from_linear(name@, *fields, acc@, *generics),
{
    let body = match fields {
        Fields::Named(v) => {
            let items = from_items(v, true);
            let mut w = Words::new();
            w.push(name);
            w.push_string(brace(join_comma(&items).as_str()));
            assert(w.parts@ =~= seq![name@, braced(comma_list(items.deep_view()))]);
            w.text
        },
        Fields::Unnamed(v) => {
            let mut w = Words::new();
            w.push(name);
            if v.len() == 1 {
                w.push_string(paren(":: fovea :: pixel :: FromLinear :: from_linear (acc)"));
                assert(w.parts@ =~= seq![name@, parened(":: fovea :: pixel :: FromLinear :: from_linear (acc)"@)]);
            } else {
                let items = from_items(v, false);
                w.push_string(paren(join_comma(&items).as_str()));
                assert(w.parts@ =~= seq![name@, parened(comma_list(items.deep_view()))]);
            }
            w.text
        },
        Fields::Unit => String::new(),
    };
    let mut arg = String::from_str("acc : ");
    arg.append(acc);
    let mut inner = Words::new();
    inner.push("# [inline (always)] fn from_linear");
    inner.push_string(paren(arg.as_str()));
    inner.push("-> Self");
    inner.push_string(brace(body.as_str()));
    assert(inner.parts@ =~= seq!["# [inline (always)] fn from_linear"@, parened("acc : "@ + acc@), "-> Self"@, braced(body@)]);
    let mut path = String::from_str(":: fovea :: pixel :: FromLinear < ");
    path.append(acc);
    path.append(" >");
    Ok(impl_block(generics, path.as_str(), name, inner.text.as_str()))
}

/// The fields of the input when it is a struct with at least one field.
pub open spec fn spec_validate_struct(input: DeriveInput) -> Result<Fields, (Seq<char>, ErrorSite)> {
    match input.data {
        Data::Struct(f) => if field_seq(f).len() == 0 {
            Err(("LinearPixel cannot be derived for structs with no fields"@, ErrorSite::Ident))
        } else {
            Ok(f)
        },
        Data::Enum => Err(("LinearPixel can only be derived for structs, not enums"@, ErrorSite::Ident)),
        Data::Union => Err(("LinearPixel can only be derived for structs, not unions"@, ErrorSite::Ident)),
    }
}

/// The fields of the input when it is a struct with at least one field;
/// an enum, a union or a struct with no field is rejected at its name.
pub fn validate_struct(input: &DeriveInput) -> (r: Result<&Fields, DeriveError>)
    ensures
        match spec_validate_struct(*input) {
            Ok(f) => r matches Ok(g) && *g == f,
            Err(e) => r matches Err(x) && x@ == e,
        },
{
    match &input.data {
        Data::Struct(fields) => {
            if fields.is_empty() {
                return Err(DeriveError {
                    message: String::from_str("LinearPixel cannot be derived for structs with no fields"),
                    site: ErrorSite::Ident,
                });
            }
            Ok(fields)
        },
        Data::Enum => Err(DeriveError {
            message: String::from_str("LinearPixel can only be derived for structs, not enums"),
            site: ErrorSite::Ident,
        }),
        Data::Union => Err(DeriveError {
            message: String::from_str("LinearPixel can only be derived for structs, not unions"),
            site: ErrorSite::Ident,
        }),
    }
}

/// The accumulator as written in the generated code: the struct's own
/// name and generics for `Self`, the given type otherwise.
pub open spec fn concrete_accumulator(input: DeriveInput, acc: Seq<TokenTree>) -> Seq<char> {
    if spec_is_self(acc) {
        words(seq![input.ident@, input.generics.ty_generics@])
    } else {
        render_tokens(acc)
    }
}

/// The `LinearSpace` marker impl.
pub open spec fn spec_linear_space(name: Seq<char>, g: Generics) -> Seq<char> {
    words(impl_parts(g, ":: fovea :: pixel :: LinearSpace"@, name, Seq::empty()))
}

/// What the derive produces for `input`.
pub open spec fn spec_derive(input: DeriveInput) -> Result<Seq<char>, (Seq<char>, ErrorSite)> {
    let name = input.ident@;
    let g = input.generics;
    match spec_validate_struct(input) {
        Err(e) => Err(e),
        Ok(fields) => match spec_parse_linear_attr(input.attrs@) {
            Err(e) => Err(e),
            Ok((acc, no_space)) => {
                let c = concrete_accumulator(input, acc);
                match spec_add(name, fields, g) {
                    Err(e) => Err(e),
                    Ok(add) => match spec_sub(name, fields, g) {
                        Err(e) => Err(e),
                        Ok(sub) => match spec_mul(name, fields, g) {
                            Err(e) => Err(e),
                            Ok(mul) => match spec_linear_pixel(name, fields, c, g) {
                                Err(e) => Err(e),
                                Ok(lin) => Ok(words(seq![
                                    add,
                                    sub,
                                    mul,
                                    lin,
                                    if spec_is_self(acc) { Seq::empty() } else { spec_from_linear(name, fields, c, g) },
                                    if no_space { Seq::empty() } else { spec_linear_space(name, g) }
                                ])),
                            },
                        },
                    },
                }
            },
        },
    }
}

/// Generates channel-wise `Add`, `Sub` and `Mul`, the `LinearPixel<f32>`
/// impl, `FromLinear<Acc>` unless the accumulator is `Self`, and the
/// `LinearSpace` marker unless `no_space` is given; generics carried over.
/// Rejects an enum or union, a struct with no field, a missing or
/// malformed `#[linear(..)]`, and a malformed field-level `#[linear(..)]`.
pub fn derive(input: DeriveInput) -> (r: Result<String, DeriveError>)
    requires
        input.data matches Data::Struct(f) ==> named_fields_have_idents(f),
    ensures
        outcome_is(r, spec_derive(input)),
{
    let name = input.ident.as_str();
    let fields = match validate_struct(&input) {
        Ok(f) => f,
        Err(e) => return Err(e),
    };
    let linear_attr = match parse_linear_attr(input.attrs.as_slice()) {
        Ok(a) => a,
        Err(e) => return Err(e),
    };
    let g = &input.generics;
    let is_self_acc = is_self_accumulator(linear_attr.accumulator.as_slice());
    let concrete_acc = if is_self_acc {
        let mut w = Words::new();
        w.push(name);
        w.push(g.ty_generics.as_str());
        assert(w.parts@ =~= seq![input.ident@, input.generics.ty_generics@]);
        w.text
    } else {
        render_all(linear_attr.accumulator.as_slice())
    };
    let add_impl = match generate_add(name, fields, g) {
        Ok(t) => t,
        Err(e) => return Err(e),
    };
    let sub_impl = match generate_sub(name, fields, g) {
        Ok(t) => t,
        Err(e) => return Err(e),
    };
    let mul_impl = match generate_mul(name, fields, g) {
        Ok(t) => t,
        Err(e) => return Err(e),
    };
    let linear_impl = match generate_linear_pixel(name, fields, concrete_acc.as_str(), g) {
        Ok(t) => t,
        Err(e) => return Err(e),
    };
    let from_linear_impl = if is_self_acc {
        String::new()
    } else {
        match generate_from_linear(name, fields, concrete_acc.as_str(), g) {
            Ok(t) => t,
            Err(e) => return Err(e),
        }
    };
    let linear_space_impl = if linear_attr.no_space {
        String::new()
    } else {
        let empty = String::new();
        impl_block(g, ":: fovea :: pixel :: LinearSpace", name, empty.as_str())
    };
    let ghost parts = seq![add_impl@, sub_impl@, mul_impl@, linear_impl@, from_linear_impl@, linear_space_impl@];
    let mut w = Words::new();
    w.push_string(add_impl);
    w.push_string(sub_impl);
    w.push_string(mul_impl);
    w.push_string(linear_impl);
    w.push_string(from_linear_impl);
    w.push_string(linear_space_impl);
    assert(w.parts@ =~= parts);
    Ok(w.text)
}

} // verus!
