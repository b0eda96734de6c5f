//! The parsed form of a derive input, held as plain values.
//!
//! A derive macro receives the item it is attached to as a token stream.
//! The derives of this crate read only a small part of it: whether the item
//! is a struct, enum or union; its name and generics; its outer attributes;
//! and, for a struct, each field's name, type and attributes. This module
//! holds exactly that, with every piece of source text kept as the text of
//! its tokens, tokens separated as a token stream prints them.
use vstd::prelude::*;

use crate::outside::char_text;
use crate::text::{brace, braced, text_eq, words, Words};



verus! {

/// One token tree of an attribute's argument list.
///
/// A delimited group is kept whole, as its printed text (delimiters
/// included): the derives never look inside one.
#[derive(Debug)]
pub enum TokenTree {
    /// An identifier or keyword, as written.
    Ident(String),
    /// A punctuation character; the flag is true when the next token
    /// follows it with no space (as in the two halves of `::`).
    Punct(char, bool),
    /// A literal, as written.
    Literal(String),
    /// A delimited group, as printed: `(..)`, `[..]` or `{ .. }`.
    Group(String),
}

/// The shape of an attribute: `#[name]`, `#[name(..)]` or `#[name = ..]`.
#[derive(Debug)]
pub enum Meta {
    /// `#[name]`
    Path,
    /// `#[name(..)]`, with the top-level tokens inside the delimiters.
    List(Vec<TokenTree>),
    /// `#[name = ..]`
    NameValue,
}

/// An outer attribute.
#[derive(Debug)]
pub struct Attribute {
    /// The attribute's path when it is a single identifier (`repr`,
    /// `zero`, `linear`); `None` for a longer path such as `a::b`.
    pub name: Option<String>,
    pub meta: Meta,
}

/// A field of a struct.
#[derive(Debug)]
pub struct Field {
    /// The field's name; `None` in a tuple struct.
    pub ident: Option<String>,
    /// The printed tokens of the field's type, such as `Saturating < u8 >`.
    pub ty: String,
    pub attrs: Vec<Attribute>,
}

/// The fields of a struct.
#[derive(Debug)]
pub enum Fields {
    Named(Vec<Field>),
    Unnamed(Vec<Field>),
    Unit,
}

/// What kind of item the derive is attached to.
#[derive(Debug)]
pub enum Data {
    Struct(Fields),
    Enum,
    Union,
}

/// The item's generics, split for use in an impl block, each as printed
/// tokens (empty when the item has none): `< const BITS : usize >`,
/// `< BITS >` and `where ..`.
#[derive(Debug)]
pub struct Generics {
    pub impl_generics: String,
    pub ty_generics: String,
    pub where_clause: String,
}

/// The item a derive is attached to.
#[derive(Debug)]
pub struct DeriveInput {
    pub attrs: Vec<Attribute>,
    pub ident: String,
    pub generics: Generics,
    pub data: Data,
}

/// Where in the input an error points.
#[derive(Debug, Clone, Copy, PartialEq, Eq)]
pub enum ErrorSite {
    /// The item's name.
    Ident,
    /// The derive invocation as a whole.
    CallSite,
    /// The type of field `i`.
    FieldType(usize),
    /// Attribute `a` of the item.
    Attr(usize),
    /// The path (the name) of attribute `a` of the item.
    AttrPath(usize),
    /// The `=` of attribute `a` of the item, written `#[name = ..]`.
    AttrEq(usize),
    /// Token `t` inside the argument list of attribute `a` of the item; `t`
    /// equal to the number of tokens names the list's closing delimiter.
    AttrToken(usize, usize),
    /// Attribute `a` of field `f`.
    FieldAttr(usize, usize),
    /// The path of attribute `a` of field `f`.
    FieldAttrPath(usize, usize),
    /// The `=` of attribute `a` of field `f`.
    FieldAttrEq(usize, usize),
    /// Token `t` inside the argument list of attribute `a` of field `f`
    /// (the closing delimiter when `t` is the number of tokens).
    FieldAttrToken(usize, usize, usize),
}

/// A rejected derive input: the message the compiler shows, and where.
#[derive(Debug)]
pub struct DeriveError {
    pub message: String,
    pub site: ErrorSite,
}

impl View for DeriveError {
    type V = (Seq<char>, ErrorSite);

    open spec fn view(&self) -> (Seq<char>, ErrorSite) {
        (self.message@, self.site)
    }
}

/// The text of an optional message.
pub open spec fn opt_text(o: Option<String>) -> Option<Seq<char>> {
    match o {
        Some(m) => Some(m@),
        None => None,
    }
}

/// Moves an error site counted among one field's attributes to field `i`.
pub open spec fn at_field(site: ErrorSite, i: int) -> ErrorSite {
    match site {
        ErrorSite::Attr(k) => ErrorSite::FieldAttr(i as usize, k),
        ErrorSite::AttrPath(k) => ErrorSite::FieldAttrPath(i as usize, k),
        ErrorSite::AttrEq(k) => ErrorSite::FieldAttrEq(i as usize, k),
        ErrorSite::AttrToken(k, t) => ErrorSite::FieldAttrToken(i as usize, k, t),
        _ => site,
    }
}

/// An error raised on a field's attributes, moved to field `i`.
pub fn error_at_field(e: DeriveError, i: usize) -> (r: DeriveError)
    ensures
        r@ == (e@.0, at_field(e@.1, i as int)),
{
    let site = match e.site {
        ErrorSite::Attr(k) => ErrorSite::FieldAttr(i, k),
        ErrorSite::AttrPath(k) => ErrorSite::FieldAttrPath(i, k),
        ErrorSite::AttrEq(k) => ErrorSite::FieldAttrEq(i, k),
        ErrorSite::AttrToken(k, t) => ErrorSite::FieldAttrToken(i, k, t),
        other => other,
    };
    DeriveError { message: e.message, site }
}

/// `r` is the executable form of the specified outcome `s`: the same
/// printed output on success, the same message and site on failure.
pub open spec fn outcome_is(r: Result<String, DeriveError>, s: Result<Seq<char>, (Seq<char>, ErrorSite)>) -> bool {
    match s {
        Ok(t) => r matches Ok(out) && out@ == t,
        Err(e) => r matches Err(err) && err@ == e,
    }
}

/// The printed text of one token.
pub open spec fn token_text(t: TokenTree) -> Seq<char> {
    match t {
        TokenTree::Ident(s) => s@,
        TokenTree::Punct(c, _) => seq![c],
        TokenTree::Literal(s) => s@,
        TokenTree::Group(s) => s@,
    }
}

pub open spec fn is_joint(t: TokenTree) -> bool {
    t matches TokenTree::Punct(_, true)
}

/// The printed text of a token sequence: tokens separated by one space,
/// except right after a punctuation character that is joined to the next
/// token.
pub open spec fn render_tokens(ts: Seq<TokenTree>) -> Seq<char>
    decreases ts.len(),
{
    if ts.len() == 0 {
        Seq::empty()
    } else if ts.len() == 1 {
        token_text(ts[0])
    } else {
        render_tokens(ts.drop_last()) + (if is_joint(ts[ts.len() - 2]) {
            Seq::<char>::empty()
        } else {
            " "@
        }) + token_text(ts.last())
    }
}

/// Attribute `a` is named `name` (its path is that single identifier).
pub open spec fn attr_named(a: Attribute, name: Seq<char>) -> bool {
    a.name matches Some(n) && n@ == name
}

/// The fields of a struct as a sequence (none for a unit struct).
pub open spec fn field_seq(fields: Fields) -> Seq<Field> {
    match fields {
        Fields::Named(v) => v@,
        Fields::Unnamed(v) => v@,
        Fields::Unit => Seq::empty(),
    }
}

/// Every field of a struct with named fields has a name.
pub open spec fn named_fields_have_idents(fields: Fields) -> bool {
    fields matches Fields::Named(v) ==> forall|i: int| 0 <= i < v@.len() ==> (#[trigger] v@[i]).ident is Some
}

/// The name of a field known to have one.
pub open spec fn field_name(f: Field) -> Seq<char> {
    match f.ident {
        Some(s) => s@,
        None => Seq::empty(),
    }
}

/// A copy of one token.
pub fn copy_token(t: &TokenTree) -> (r: TokenTree)
    ensures
        r == *t,
{
    match t {
        TokenTree::Ident(x) => TokenTree::Ident(x.clone()),
        TokenTree::Punct(c, j) => TokenTree::Punct(*c, *j),
        TokenTree::Literal(x) => TokenTree::Literal(x.clone()),
        TokenTree::Group(x) => TokenTree::Group(x.clone()),
    }
}

/// A copy of tokens `lo..hi`.
pub fn copy_tokens(ts: &[TokenTree], lo: usize, hi: usize) -> (r: Vec<TokenTree>)
    requires
        lo <= hi <= ts@.len(),
    ensures
        r@ == ts@.subrange(lo as int, hi as int),
{
    let mut r: Vec<TokenTree> = Vec::new();
    let mut i: usize = lo;
    while i < hi
        invariant
            lo <= i <= hi <= ts@.len(),
            r@ =~= ts@.subrange(lo as int, i as int),
        decreases hi - i,
    {
        r.push(copy_token(&ts[i]));
        i = i + 1;
    }
    r
}

/// The printed text of one token.
pub fn token_string(t: &TokenTree) -> (s: String)
    ensures
        s@ == token_text(*t),
{
    match t {
        TokenTree::Ident(x) => x.clone(),
        TokenTree::Punct(c, _) => char_text(*c),
        TokenTree::Literal(x) => x.clone(),
        TokenTree::Group(x) => x.clone(),
    }
}

/// Whether the token is a punctuation character joined to the next token.
pub fn token_is_joint(t: &TokenTree) -> (b: bool)
    ensures
        b == is_joint(*t),
{
    match t {
        TokenTree::Punct(_, j) => *j,
        _ => false,
    }
}

/// The printed text of tokens `lo..hi`.
pub fn render_range(ts: &[TokenTree], lo: usize, hi: usize) -> (s: String)
    requires
        lo <= hi <= ts@.len(),
    ensures
        s@ == render_tokens(ts@.subrange(lo as int, hi as int)),
{
    let mut s = String::new();
    let mut i: usize = lo;
    assert(ts@.subrange(lo as int, lo as int).len() == 0);
    while i < hi
        invariant
            lo <= i <= hi <= ts@.len(),
            s@ == render_tokens(ts@.subrange(lo as int, i as int)),
        decreases hi - i,
    {
        let ghost prev = ts@.subrange(lo as int, i as int);
        let ghost next = ts@.subrange(lo as int, i + 1);
        assert(next.drop_last() =~= prev);
        if i > lo {
            assert(next[next.len() - 2] == ts@[i - 1]);
            if !token_is_joint(&ts[i - 1]) {
                s.append(" ");
            }
        }
        let t = token_string(&ts[i]);
        s.append(t.as_str());
        i = i + 1;
    }
    s
}

/// The printed text of all the tokens.
pub fn render_all(ts: &[TokenTree]) -> (s: String)
    ensures
        s@ == render_tokens(ts@),
{
    let s = render_range(ts, 0, ts.len());
    assert(ts@.subrange(0, ts@.len() as int) =~= ts@);
    s
}

/// Whether attribute `a` is named `name`.
pub fn attr_is_named(a: &Attribute, name: &str) -> (b: bool)
    ensures
        b == attr_named(*a, name@),
{
    match &a.name {
        Some(n) => text_eq(n.as_str(), name),
        None => false,
    }
}

/// The words of `impl<..> TRAIT for NAME<..> where .. { BODY }`.
pub open spec fn impl_parts(g: Generics, trait_path: Seq<char>, name: Seq<char>, body: Seq<char>) -> Seq<Seq<char>> {
    seq![
        "impl"@,
        g.impl_generics@,
        trait_path,
        "for"@,
        name,
        g.ty_generics@,
        g.where_clause@,
        braced(body)
    ]
}

/// `impl<..> TRAIT for NAME<..> where .. { BODY }`, printed.
pub fn impl_block(g: &Generics, trait_path: &str, name: &str, body: &str) -> (s: String)
    ensures
        s@ == words(impl_parts(*g, trait_path@, name@, body@)),
{
    let mut w = Words::new();
    w.push("impl");
    w.push(g.impl_generics.as_str());
    w.push(trait_path);
    w.push("for");
    w.push(name);
    w.push(g.ty_generics.as_str());
    w.push(g.where_clause.as_str());
    w.push_string(brace(body));
    assert(w.parts@ =~= impl_parts(*g, trait_path@, name@, body@));
    w.text
}

impl Fields {
    /// The number of fields.
    pub fn len(&self) -> (n: usize)
        ensures
            n == field_seq(*self).len(),
    {
        match self {
            Fields::Named(v) => v.len(),
            Fields::Unnamed(v) => v.len(),
            Fields::Unit => 0,
        }
    }

    /// Whether the struct has no field.
    pub fn is_empty(&self) -> (b: bool)
        ensures
            b == (field_seq(*self).len() == 0),
    {
        self.len() == 0
    }

    /// Field `i`.
    pub fn get(&self, i: usize) -> (f: &Field)
        requires
            i < field_seq(*self).len(),
        ensures
            *f == field_seq(*self)[i as int],
        decreases 0nat,
    {
        match self {
            Fields::Named(v) => &v[i],
            Fields::Unnamed(v) => &v[i],
            Fields::Unit => self.get(i),
        }
    }
}

} // verus!
