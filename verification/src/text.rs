//! Building printed token text.
//!
//! The derives emit Rust source as the text of a token stream: tokens
//! separated by single spaces, groups printed as `(..)`, `[..]` and
//! `{ .. }`, and comma-separated lists as `a , b , c`.
use vstd::prelude::*;

verus! {

/// `a` followed by `b`, separated by one space when both are nonempty.
pub open spec fn word_join(a: Seq<char>, b: Seq<char>) -> Seq<char> {
    if b.len() == 0 {
        a
    } else if a.len() == 0 {
        b
    } else {
        a + " "@ + b
    }
}

/// The nonempty parts, in order, separated by single spaces.
pub open spec fn words(parts: Seq<Seq<char>>) -> Seq<char>
    decreases parts.len(),
{
    if parts.len() == 0 {
        Seq::empty()
    } else {
        word_join(words(parts.drop_last()), parts.last())
    }
}

/// The items separated by ` , `.
pub open spec fn comma_list(items: Seq<Seq<char>>) -> Seq<char>
    decreases items.len(),
{
    if items.len() == 0 {
        Seq::empty()
    } else if items.len() == 1 {
        items[0]
    } else {
        comma_list(items.drop_last()) + " , "@ + items.last()
    }
}

/// A parenthesized group.
pub open spec fn parened(t: Seq<char>) -> Seq<char> {
    "("@ + t + ")"@
}

/// A bracketed group.
pub open spec fn bracketed(t: Seq<char>) -> Seq<char> {
    "["@ + t + "]"@
}

/// A braced group: `{ }` when empty, `{ t }` otherwise.
pub open spec fn braced(t: Seq<char>) -> Seq<char> {
    if t.len() == 0 {
        "{ }"@
    } else {
        "{ "@ + t + " }"@
    }
}

/// The text of one decimal digit.
pub open spec fn digit_text(d: nat) -> Seq<char> {
    if d == 0 {
        "0"@
    } else if d == 1 {
        "1"@
    } else if d == 2 {
        "2"@
    } else if d == 3 {
        "3"@
    } else if d == 4 {
        "4"@
    } else if d == 5 {
        "5"@
    } else if d == 6 {
        "6"@
    } else if d == 7 {
        "7"@
    } else if d == 8 {
        "8"@
    } else {
        "9"@
    }
}

/// The decimal numeral of `n`, with no leading zero.
pub open spec fn decimal(n: nat) -> Seq<char>
    decreases n,
{
    if n < 10 {
        digit_text(n)
    } else {
        decimal(n / 10) + digit_text(n % 10)
    }
}

/// `needle` occurs in `hay`.
pub open spec fn contains_text(hay: Seq<char>, needle: Seq<char>) -> bool {
    exists|i: int| 0 <= i && i + needle.len() <= hay.len() && #[trigger] hay.subrange(i, i + needle.len()) == needle
}

/// A text built word by word, with the words kept as ghost state.
pub struct Words {
    pub text: String,
    pub parts: Ghost<Seq<Seq<char>>>,
}

impl Words {
    pub open spec fn wf(&self) -> bool {
        self.text@ == words(self.parts@)
    }

    pub fn new() -> (w: Self)
        ensures
            w.wf(),
            w.parts@ == Seq::<Seq<char>>::empty(),
    {
        Words { text: String::new(), parts: Ghost(Seq::empty()) }
    }

    /// Appends one word (nothing when it is empty).
    pub fn push(&mut self, s: &str)
        requires
            old(self).wf(),
        ensures
            final(self).wf(),
            final(self).parts@ == old(self).parts@.push(s@),
    {
        let ghost before = self.text@;
        if !s.is_empty() {
            if !self.text.as_str().is_empty() {
                self.text.append(" ");
            }
            self.text.append(s);
        }
        proof {
            let p = self.parts@.push(s@);
            assert(p.drop_last() =~= self.parts@);
            assert(self.text@ == word_join(before, s@));
        }
        self.parts = Ghost(self.parts@.push(s@));
    }

    /// Appends an owned word.
    pub fn push_string(&mut self, s: String)
        requires
            old(self).wf(),
        ensures
            final(self).wf(),
            final(self).parts@ == old(self).parts@.push(s@),
    {
        self.push(s.as_str());
    }
}

/// `t` in parentheses.
pub fn paren(t: &str) -> (r: String)
    ensures
        r@ == parened(t@),
{
    let mut r = String::from_str("(");
    r.append(t);
    r.append(")");
    r
}

/// `t` in brackets.
pub fn bracket(t: &str) -> (r: String)
    ensures
        r@ == bracketed(t@),
{
    let mut r = String::from_str("[");
    r.append(t);
    r.append("]");
    r
}

/// `t` in braces.
pub fn brace(t: &str) -> (r: String)
    ensures
        r@ == braced(t@),
{
    if t.is_empty() {
        String::from_str("{ }")
    } else {
        let mut r = String::from_str("{ ");
        r.append(t);
        r.append(" }");
        r
    }
}

/// The items separated by ` , `.
pub fn join_comma(items: &Vec<String>) -> (r: String)
    ensures
        r@ == comma_list(items.deep_view()),
{
    let ghost dv = items.deep_view();
    let mut r = String::new();
    let n = items.len();
    let mut i: usize = 0;
    while i < n
        invariant
            n == items@.len(),
            dv == items.deep_view(),
            dv.len() == n,
            0 <= i <= n,
            r@ == comma_list(dv.take(i as int)),
        decreases n - i,
    {
        assert(dv[i as int] == items@[i as int]@);
        let ghost prev = dv.take(i as int);
        if i > 0 {
            r.append(" , ");
        }
        r.append(items[i].as_str());
        proof {
            let next = dv.take(i + 1);
            assert(next.drop_last() =~= prev);
            if i == 0 {
                assert(prev.len() == 0);
            }
        }
        i = i + 1;
    }
    assert(dv.take(n as int) =~= dv);
    r
}

/// The text of one decimal digit.
fn digit_str(d: usize) -> (s: &'static str)
    requires
        d < 10,
    ensures
        s@ == digit_text(d as nat),
{
    if d == 0 {
        "0"
    } else if d == 1 {
        "1"
    } else if d == 2 {
        "2"
    } else if d == 3 {
        "3"
    } else if d == 4 {
        "4"
    } else if d == 5 {
        "5"
    } else if d == 6 {
        "6"
    } else if d == 7 {
        "7"
    } else if d == 8 {
        "8"
    } else {
        "9"
    }
}

/// The decimal numeral of `n`.
pub fn decimal_string(n: usize) -> (s: String)
    ensures
        s@ == decimal(n as nat),
    decreases n,
{
    if n < 10 {
        String::from_str(digit_str(n))
    } else {
        let mut s = decimal_string(n / 10);
        s.append(digit_str(n % 10));
        s
    }
}

/// Whether two texts are equal.
pub fn text_eq(a: &str, b: &str) -> (r: bool)
    ensures
        r == (a@ == b@),
{
    let n = a.unicode_len();
    if n != b.unicode_len() {
        return false;
    }
    let mut i: usize = 0;
    while i < n
        invariant
            n == a@.len(),
            n == b@.len(),
            0 <= i <= n,
            forall|j: int| 0 <= j < i ==> a@[j] == b@[j],
        decreases n - i,
    {
        if a.get_char(i) != b.get_char(i) {
            return false;
        }
        i = i + 1;
    }
    assert(a@ =~= b@);
    true
}

/// Whether `needle` occurs in `hay` at position `at`.
fn occurs_at(hay: &str, needle: &str, at: usize) -> (r: bool)
    requires
        at + needle@.len() <= hay@.len(),
        hay@.len() <= usize::MAX,
    ensures
        r == (hay@.subrange(at as int, at + needle@.len()) == needle@),
{
    let m = needle.unicode_len();
    let mut j: usize = 0;
    while j < m
        invariant
            m == needle@.len(),
            at + m <= hay@.len(),
            hay@.len() <= usize::MAX,
            0 <= j <= m,
            forall|k: int| 0 <= k < j ==> hay@[at + k] == needle@[k],
        decreases m - j,
    {
        if hay.get_char(at + j) != needle.get_char(j) {
            assert(hay@.subrange(at as int, at + m)[j as int] != needle@[j as int]);
            return false;
        }
        j = j + 1;
    }
    assert(hay@.subrange(at as int, at + m) =~= needle@);
    true
}

/// Whether `needle` occurs in `hay`.
pub fn text_contains(hay: &str, needle: &str) -> (r: bool)
    ensures
        r == contains_text(hay@, needle@),
{
    let n = hay.unicode_len();
    let m = needle.unicode_len();
    if m > n {
        return false;
    }
    if m == 0 {
        assert(hay@.subrange(0int, 0int + needle@.len()) =~= needle@);
        return true;
    }
    let mut i: usize = 0;
    while i <= n - m
        invariant
            n == hay@.len(),
            m == needle@.len(),
            1 <= m <= n,
            0 <= i <= n - m + 1,
            forall|k: int| 0 <= k < i ==> #[trigger] hay@.subrange(k, k + m) != needle@,
        decreases n - m + 1 - i,
    {
        if occurs_at(hay, needle, i) {
            return true;
        }
        i = i + 1;
    }
    proof {
        assert forall|k: int| 0 <= k && k + needle@.len() <= hay@.len() implies #[trigger] hay@.subrange(k, k + needle@.len()) != needle@ by {
            assert(k < i);
        }
    }
    false
}

} // verus!
