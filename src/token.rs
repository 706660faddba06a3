//! Flat token model of the attribute contents and field types.
use vstd::prelude::*;
use vstd::string::*;

verus! {

/// The delimiter of a token group.
#[derive(Clone, Copy, Debug, PartialEq, Eq, Structural)]
pub enum Delim {
    Paren,
    Bracket,
    Brace,
    Invisible,
}

/// One token. Groups are flattened: `Open(d)` and `Close(d)` enclose the
/// tokens of a group delimited by `d`.
#[derive(Clone, Debug, PartialEq, Eq)]
pub enum Tok {
    Ident(String),
    /// A punctuation character, and whether it is joined to the next one
    /// (as the `-` of `->`).
    Punct(char, bool),
    Lit(String),
    Open(Delim),
    Close(Delim),
}

impl Tok {
    /// A copy of the token.
    pub fn copy(&self) -> (r: Tok)
        ensures
            r == *self,
    {
        match self {
            Tok::Ident(s) => Tok::Ident(s.clone()),
            Tok::Punct(c, j) => Tok::Punct(*c, *j),
            Tok::Lit(s) => Tok::Lit(s.clone()),
            Tok::Open(d) => Tok::Open(*d),
            Tok::Close(d) => Tok::Close(*d),
        }
    }
}

/// The token is the identifier `w`.
pub open spec fn is_word(t: Tok, w: Seq<char>) -> bool {
    match t {
        Tok::Ident(s) => s@ == w,
        _ => false,
    }
}

/// The token is the punctuation character `c`, joined or not.
pub open spec fn is_punct(t: Tok, c: char) -> bool {
    match t {
        Tok::Punct(p, _) => p == c,
        _ => false,
    }
}

/// Whether `s` holds the text `w`.
pub fn text_is(s: &String, w: &str) -> (r: bool)
    ensures
        r == (s@ == w@),
{
    let t = String::from_str(w);
    *s == t
}

/// Whether the token is the identifier `w`.
pub fn word_is(t: &Tok, w: &str) -> (r: bool)
    ensures
        r == is_word(*t, w@),
{
    match t {
        Tok::Ident(s) => text_is(s, w),
        _ => false,
    }
}

/// Whether the token is the punctuation character `c`.
pub fn punct_is(t: &Tok, c: char) -> (r: bool)
    ensures
        r == is_punct(*t, c),
{
    match t {
        Tok::Punct(p, _) => *p == c,
        _ => false,
    }
}

/// Whether the token is an identifier.
pub fn is_ident_tok(t: &Tok) -> (r: bool)
    ensures
        r == (*t is Ident),
{
    match t {
        Tok::Ident(_) => true,
        _ => false,
    }
}

/// Whether the token is the punctuation character `c` joined to the next one.
pub fn joint_punct_is(t: &Tok, c: char) -> (r: bool)
    ensures
        r == (*t == Tok::Punct(c, true)),
{
    match t {
        Tok::Punct(p, j) => *p == c && *j,
        _ => false,
    }
}

/// A copy of a token sequence.
pub fn copy_toks(v: &Vec<Tok>) -> (r: Vec<Tok>)
    ensures
        r@ == v@,
{
    let mut r: Vec<Tok> = Vec::new();
    let mut i: usize = 0;
    while i < v.len()
        invariant
            i <= v@.len(),
            r@ == v@.subrange(0, i as int),
        decreases v@.len() - i,
    {
        r.push(v[i].copy());
        i = i + 1;
        assert(r@ =~= v@.subrange(0, i as int));
    }
    assert(r@ =~= v@);
    r
}

/// A copy of the tokens `v[lo..hi]`.
pub fn copy_range(v: &Vec<Tok>, lo: usize, hi: usize) -> (r: Vec<Tok>)
    requires
        lo <= hi <= v@.len(),
    ensures
        r@ == v@.subrange(lo as int, hi as int),
{
    let mut r: Vec<Tok> = Vec::new();
    let mut i: usize = lo;
    while i < hi
        invariant
            lo <= i <= hi <= v@.len(),
            r@ == v@.subrange(lo as int, i as int),
        decreases hi - i,
    {
        r.push(v[i].copy());
        i = i + 1;
        assert(r@ =~= v@.subrange(lo as int, i as int));
    }
    r
}

/// The group nesting depth after the tokens `s[0..i]`. A closing token at
/// depth 0 leaves the depth at 0.
pub open spec fn depth_before(s: Seq<Tok>, i: int) -> nat
    decreases i,
{
    if i <= 0 {
        0
    } else {
        let d = depth_before(s, i - 1);
        match s[i - 1] {
            Tok::Open(_) => d + 1,
            Tok::Close(_) => if d > 0 { (d - 1) as nat } else { 0 },
            _ => d,
        }
    }
}

/// The type holds, outside any group, the identifier `PhantomData`: such a
/// field is a zero-sized marker that carries no runtime data.
pub open spec fn marks_phantom(ty: Seq<Tok>) -> bool {
    exists|i: int| 0 <= i < ty.len() && depth_before(ty, i) == 0 && is_word(#[trigger] ty[i], "PhantomData"@)
}

/// Whether the field type is a zero-sized marker (see `marks_phantom`).
pub fn is_phantom_data(ty: &Vec<Tok>) -> (r: bool)
    ensures
        r == marks_phantom(ty@),
{
    let mut depth: usize = 0;
    let mut i: usize = 0;
    while i < ty.len()
        invariant
            i <= ty@.len(),
            depth == depth_before(ty@, i as int),
            depth <= i,
            forall|k: int| 0 <= k < i ==> !(depth_before(ty@, k) == 0 && is_word(#[trigger] ty@[k], "PhantomData"@)),
        decreases ty@.len() - i,
    {
        if depth == 0 && word_is(&ty[i], "PhantomData") {
            return true;
        }
        match &ty[i] {
            Tok::Open(_) => {
                depth = depth + 1;
            },
            Tok::Close(_) => {
                if depth > 0 {
                    depth = depth - 1;
                }
            },
            _ => {},
        }
        i = i + 1;
    }
    false
}

/// The position of the token that closes a group, scanning from `p` with `d`
/// groups open.
pub open spec fn close_from(t: Seq<Tok>, p: int, d: nat) -> Option<int>
    decreases t.len() - p,
{
    if p < 0 || p >= t.len() {
        None
    } else {
        match t[p] {
            Tok::Open(_) => close_from(t, p + 1, d + 1),
            Tok::Close(_) => if d <= 1 { Some(p) } else { close_from(t, p + 1, (d - 1) as nat) },
            _ => close_from(t, p + 1, d),
        }
    }
}

/// The position of the token that closes the group opened at `open`.
pub open spec fn group_close(t: Seq<Tok>, open: int) -> Option<int> {
    close_from(t, open + 1, 1)
}

/// Finds the token that closes the group opened at `open`.
pub fn find_close(t: &Vec<Tok>, open: usize) -> (r: Option<usize>)
    requires
        open < t@.len(),
    ensures
        match r {
            Some(c) => group_close(t@, open as int) == Some(c as int) && open < c < t@.len(),
            None => group_close(t@, open as int) is None,
        },
{
    let n = t.len();
    let mut p: usize = open + 1;
    let mut d: usize = 1;
    while p < t.len()
        invariant
            open < p <= t@.len(),
            1 <= d <= p,
            close_from(t@, p as int, d as nat) == group_close(t@, open as int),
        decreases t@.len() - p,
    {
        match &t[p] {
            Tok::Open(_) => {
                d = d + 1;
            },
            Tok::Close(_) => {
                if d <= 1 {
                    return Some(p);
                }
                d = d - 1;
            },
            _ => {},
        }
        p = p + 1;
    }
    None
}

/// An attribute: its path (`ctor`, `allow`, ...) and, where it has the form
/// `path(...)` (or `path[...]`, `path{...}`), the tokens inside.
#[derive(Clone, Debug, PartialEq, Eq)]
pub struct Attribute {
    pub path: String,
    pub args: Option<Vec<Tok>>,
}

pub open spec fn is_ctor(a: Attribute) -> bool {
    a.path@ == "ctor"@
}

pub open spec fn args_view(a: Attribute) -> Option<Seq<Tok>> {
    match a.args {
        Some(v) => Some(v@),
        None => None,
    }
}

/// The arguments of the first `ctor` attribute: `None` where there is none,
/// `Some(None)` where it has no argument list.
pub open spec fn ctor_args(attrs: Seq<Attribute>) -> Option<Option<Seq<Tok>>>
    decreases attrs.len(),
{
    if attrs.len() == 0 {
        None
    } else if is_ctor(attrs[0]) {
        Some(args_view(attrs[0]))
    } else {
        ctor_args(attrs.drop_first())
    }
}

/// The position of the first `ctor` attribute.
pub fn find_ctor_attr(attrs: &Vec<Attribute>) -> (r: Option<usize>)
    ensures
        match r {
            Some(i) => i < attrs@.len() && ctor_args(attrs@) == Some(args_view(attrs@[i as int])),
            None => ctor_args(attrs@) is None,
        },
{
    let mut i: usize = 0;
    assert(attrs@.skip(0) =~= attrs@);
    while i < attrs.len()
        invariant
            i <= attrs@.len(),
            ctor_args(attrs@) == ctor_args(attrs@.skip(i as int)),
        decreases attrs@.len() - i,
    {
        assert(attrs@.skip(i as int)[0] == attrs@[i as int]);
        if text_is(&attrs[i].path, "ctor") {
            return Some(i);
        }
        assert(attrs@.skip(i as int).drop_first() =~= attrs@.skip(i + 1));
        i = i + 1;
    }
    None
}

} // verus!
