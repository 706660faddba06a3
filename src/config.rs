//! Type-level directives: which constructors to generate, with what name,
//! visibility and modifiers.
use vstd::prelude::*;
use vstd::string::*;
use crate::token::{Tok, Delim, Attribute, text_is, is_word, is_punct, word_is, punct_is, copy_range, group_close, find_close, ctor_args, find_ctor_attr};
use crate::names::{is_plain_ident, parses_as_ident};
use crate::error::{Level, ParseError};
use crate::field::{Ambient, delimited, parse_delimited};

verus! {

/// The visibility of a generated constructor.
#[derive(Clone, Debug, PartialEq, Eq)]
pub enum Visibility {
    /// No visibility token: private to the module.
    Inherited,
    /// `pub`.
    Public,
    /// `pub(...)`, with the tokens inside the parentheses (`crate`, `self`,
    /// `super`, or `in` and a path).
    Restricted(Vec<Tok>),
}

pub enum VisibilityView {
    Inherited,
    Public,
    Restricted(Seq<Tok>),
}

impl View for Visibility {
    type V = VisibilityView;

    open spec fn view(&self) -> VisibilityView {
        match self {
            Visibility::Inherited => VisibilityView::Inherited,
            Visibility::Public => VisibilityView::Public,
            Visibility::Restricted(t) => VisibilityView::Restricted(t@),
        }
    }
}

impl Visibility {
    pub fn copy(&self) -> (r: Visibility)
        ensures
            r@ == self@,
    {
        match self {
            Visibility::Inherited => Visibility::Inherited,
            Visibility::Public => Visibility::Public,
            Visibility::Restricted(t) => Visibility::Restricted(crate::token::copy_toks(t)),
        }
    }
}

/// A visibility starting at `p` (possibly empty), and the position after it.
pub open spec fn visibility_at(t: Seq<Tok>, p: int) -> (VisibilityView, int) {
    if p < t.len() && is_word(t[p], "pub"@) {
        if p + 1 < t.len() && t[p + 1] == Tok::Open(Delim::Paren) {
            match group_close(t, p + 1) {
                Some(c) => {
                    let inner = t.subrange(p + 2, c);
                    if (inner.len() == 1 && (is_word(inner[0], "crate"@) || is_word(inner[0], "self"@) || is_word(inner[0], "super"@)))
                        || (inner.len() >= 2 && is_word(inner[0], "in"@)) {
                        (VisibilityView::Restricted(inner), c + 1)
                    } else {
                        (VisibilityView::Public, p + 1)
                    }
                },
                None => (VisibilityView::Public, p + 1),
            }
        } else {
            (VisibilityView::Public, p + 1)
        }
    } else {
        (VisibilityView::Inherited, p)
    }
}

pub fn parse_visibility(t: &Vec<Tok>, p: usize) -> (r: (Visibility, usize))
    requires
        p <= t@.len(),
    ensures
        (r.0@, r.1 as int) == visibility_at(t@, p as int),
        p <= r.1 <= t@.len(),
{
    let n = t.len();
    if p < n && word_is(&t[p], "pub") {
        if p + 1 < n && matches!(t[p + 1], Tok::Open(Delim::Paren)) {
            match find_close(t, p + 1) {
                Some(c) => {
                    let ghost inner = t@.subrange(p + 2, c as int);
                    let len = c - (p + 2);
                    let restricted = (len == 1 && (word_is(&t[p + 2], "crate") || word_is(&t[p + 2], "self") || word_is(&t[p + 2], "super")))
                        || (len >= 2 && word_is(&t[p + 2], "in"));
                    assert(len >= 1 ==> inner[0] == t@[p + 2]);
                    if restricted {
                        (Visibility::Restricted(copy_range(t, p + 2, c)), c + 1)
                    } else {
                        (Visibility::Public, p + 1)
                    }
                },
                None => (Visibility::Public, p + 1),
            }
        } else {
            (Visibility::Public, p + 1)
        }
    } else {
        (Visibility::Inherited, p)
    }
}

/// One requested constructor.
#[derive(Clone, Debug, PartialEq, Eq)]
pub struct CtorDefinition {
    pub visibility: Visibility,
    pub ident: String,
    pub is_const: bool,
    /// The constructor is the type's `Default::default`.
    pub is_default: bool,
    pub ambient: Ambient,
}

pub struct CtorDefinitionView {
    pub visibility: VisibilityView,
    pub ident: Seq<char>,
    pub is_const: bool,
    pub is_default: bool,
    pub ambient: Ambient,
}

impl View for CtorDefinition {
    type V = CtorDefinitionView;

    open spec fn view(&self) -> CtorDefinitionView {
        CtorDefinitionView {
            visibility: self.visibility@,
            ident: self.ident@,
            is_const: self.is_const,
            is_default: self.is_default,
            ambient: self.ambient,
        }
    }
}

pub open spec fn no_ambient() -> Ambient {
    Ambient { default_all: false, into_all: false }
}

/// The token is an identifier that may stand where a name is expected.
pub open spec fn is_name(t: Tok) -> bool {
    match t {
        Tok::Ident(s) => is_plain_ident(s@),
        _ => false,
    }
}

pub(crate) fn name_tok(t: &Tok) -> (r: bool)
    ensures
        r == is_name(*t),
{
    match t {
        Tok::Ident(s) => parses_as_ident(s.as_str()),
        _ => false,
    }
}

/// The modifier in parentheses after a constructor name: `all` or `default`
/// (every field without a self-generating policy takes its default value) or
/// `into` (every field without a policy is taken as `impl Into<T>`).
pub open spec fn nested_at(t: Seq<Tok>, p: int) -> Result<(Ambient, int), ParseError> {
    if p < t.len() && t[p] is Open {
        match delimited(t, p, Delim::Paren) {
            Err(e) => Err(e),
            Ok(c) => if c != p + 2 {
                Err(ParseError::Syntax { at: (p + 1) as usize })
            } else if is_word(t[p + 1], "all"@) || is_word(t[p + 1], "default"@) {
                Ok((Ambient { default_all: true, into_all: false }, c + 1))
            } else if is_word(t[p + 1], "into"@) {
                Ok((Ambient { default_all: false, into_all: true }, c + 1))
            } else if t[p + 1] is Ident {
                Err(ParseError::InvalidProperty { at: (p + 1) as usize, level: Level::Nested })
            } else {
                Err(ParseError::Syntax { at: (p + 1) as usize })
            },
        }
    } else {
        Ok((no_ambient(), p))
    }
}

fn parse_nested(t: &Vec<Tok>, p: usize) -> (r: Result<(Ambient, usize), ParseError>)
    requires
        p <= t@.len(),
    ensures
        match r {
            Ok((a, q)) => nested_at(t@, p as int) == Ok::<(Ambient, int), ParseError>((a, q as int)) && p <= q <= t@.len(),
            Err(e) => nested_at(t@, p as int) == Err::<(Ambient, int), ParseError>(e),
        },
{
    if p < t.len() && matches!(t[p], Tok::Open(_)) {
        match parse_delimited(t, p, Delim::Paren) {
            Err(e) => Err(e),
            Ok(c) => {
                if c != p + 2 {
                    Err(ParseError::Syntax { at: p + 1 })
                } else if word_is(&t[p + 1], "all") || word_is(&t[p + 1], "default") {
                    Ok((Ambient { default_all: true, into_all: false }, c + 1))
                } else if word_is(&t[p + 1], "into") {
                    Ok((Ambient { default_all: false, into_all: true }, c + 1))
                } else if matches!(t[p + 1], Tok::Ident(_)) {
                    Err(ParseError::InvalidProperty { at: p + 1, level: Level::Nested })
                } else {
                    Err(ParseError::Syntax { at: p + 1 })
                }
            },
        }
    } else {
        Ok((Ambient { default_all: false, into_all: false }, p))
    }
}

/// One constructor entry starting at `p`: `[const] name [(modifier)]` or
/// `[const] visibility [const] name [(modifier)]`. Also returned: the position
/// after it, and whether the name came first (no visibility written).
pub open spec fn entry_at(t: Seq<Tok>, p: int) -> Result<(CtorDefinitionView, int, bool), ParseError> {
    let c1 = p < t.len() && is_word(t[p], "const"@);
    let after_const = if c1 { p + 1 } else { p };
    let bare = after_const < t.len() && is_name(t[after_const]);
    let (visibility, after_vis) = if bare { (VisibilityView::Inherited, after_const) } else { visibility_at(t, after_const) };
    let c2 = !bare && after_vis < t.len() && is_word(t[after_vis], "const"@);
    let name_at = if c2 { after_vis + 1 } else { after_vis };
    if name_at < t.len() && is_name(t[name_at]) {
        let ident = match t[name_at] {
            Tok::Ident(s) => s@,
            _ => Seq::empty(),
        };
        match nested_at(t, name_at + 1) {
            Err(e) => Err(e),
            Ok((ambient, q)) => Ok((
                CtorDefinitionView { visibility, ident, is_const: c1 || c2, is_default: ident == "default"@, ambient },
                q,
                bare,
            )),
        }
    } else {
        Err(ParseError::Syntax { at: name_at as usize })
    }
}

fn parse_entry(t: &Vec<Tok>, p: usize) -> (r: Result<(CtorDefinition, usize, bool), ParseError>)
    requires
        p <= t@.len(),
    ensures
        match r {
            Ok((d, q, bare)) => entry_at(t@, p as int) == Ok::<(CtorDefinitionView, int, bool), ParseError>((d@, q as int, bare)) && p < q <= t@.len(),
            Err(e) => entry_at(t@, p as int) == Err::<(CtorDefinitionView, int, bool), ParseError>(e),
        },
{
    let n = t.len();
    let c1 = p < n && word_is(&t[p], "const");
    let after_const = if c1 { p + 1 } else { p };
    let bare = after_const < n && name_tok(&t[after_const]);
    let (visibility, after_vis) = if bare { (Visibility::Inherited, after_const) } else { parse_visibility(t, after_const) };
    let c2 = !bare && after_vis < n && word_is(&t[after_vis], "const");
    let name_at = if c2 { after_vis + 1 } else { after_vis };
    if name_at < n && name_tok(&t[name_at]) {
        let ident = match &t[name_at] {
            Tok::Ident(s) => s.clone(),
            _ => String::new(),
        };
        let is_default = text_is_default(&ident);
        match parse_nested(t, name_at + 1) {
            Err(e) => Err(e),
            Ok((ambient, q)) => Ok((CtorDefinition { visibility, ident, is_const: c1 || c2, is_default, ambient }, q, bare)),
        }
    } else {
        Err(ParseError::Syntax { at: name_at })
    }
}

fn text_is_default(s: &String) -> (r: bool)
    ensures
        r == (s@ == "default"@),
{
    crate::token::text_is(s, "default")
}

/// The constructors requested for a type, or `none` (no constructor at all).
#[derive(Clone, Debug, PartialEq, Eq)]
pub struct CtorStructConfiguration {
    pub definitions: Vec<CtorDefinition>,
    pub is_none: bool,
}

pub struct ConfigurationView {
    pub definitions: Seq<CtorDefinitionView>,
    pub is_none: bool,
}

pub open spec fn defs_view(v: Seq<CtorDefinition>) -> Seq<CtorDefinitionView> {
    v.map_values(|d: CtorDefinition| d@)
}

impl View for CtorStructConfiguration {
    type V = ConfigurationView;

    open spec fn view(&self) -> ConfigurationView {
        ConfigurationView { definitions: defs_view(self.definitions@), is_none: self.is_none }
    }
}

/// The configuration of a type without a `ctor` attribute: one public
/// constructor named `new`.
pub open spec fn default_configuration() -> ConfigurationView {
    ConfigurationView {
        definitions: seq![CtorDefinitionView {
            visibility: VisibilityView::Public,
            ident: "new"@,
            is_const: false,
            is_default: false,
            ambient: no_ambient(),
        }],
        is_none: false,
    }
}

/// The comma-separated entries from `p` on; `first` where none came before.
pub open spec fn entries_from(t: Seq<Tok>, p: int, first: bool) -> Result<(Seq<CtorDefinitionView>, bool), ParseError>
    decreases t.len() - p,
{
    match entry_at(t, p) {
        Err(e) => Err(e),
        Ok((d, q, bare)) => if q <= p || q > t.len() {
            // an entry holds at least its name
            Err(ParseError::Syntax { at: p as usize })
        } else if first && bare && d.ident == "none"@ {
            if q == t.len() {
                Ok((Seq::empty(), true))
            } else {
                Err(ParseError::Syntax { at: q as usize })
            }
        } else if q == t.len() {
            Ok((seq![d], false))
        } else if is_punct(t[q], ',') {
            match entries_from(t, q + 1, false) {
                Ok((rest, _)) => Ok((seq![d] + rest, false)),
                Err(e) => Err(e),
            }
        } else {
            Err(ParseError::Syntax { at: q as usize })
        },
    }
}

/// The configuration written in the arguments `t` of a type's (or a
/// variant's) `ctor` attribute.
pub open spec fn configuration_at(t: Seq<Tok>) -> Result<ConfigurationView, ParseError> {
    if t.len() == 0 {
        Ok(default_configuration())
    } else {
        match entries_from(t, 0, true) {
            Ok((definitions, is_none)) => Ok(ConfigurationView { definitions, is_none }),
            Err(e) => Err(e),
        }
    }
}

/// The configuration that the attributes give, or `default` where there is no
/// `ctor` attribute.
pub open spec fn configuration_of(attrs: Seq<Attribute>, default: ConfigurationView) -> Result<ConfigurationView, ParseError> {
    match ctor_args(attrs) {
        None => Ok(default),
        Some(None) => Err(ParseError::MissingArguments),
        Some(Some(t)) => configuration_at(t),
    }
}

pub open spec fn prefixed_defs(
    acc: Seq<CtorDefinitionView>,
    r: Result<(Seq<CtorDefinitionView>, bool), ParseError>,
) -> Result<(Seq<CtorDefinitionView>, bool), ParseError> {
    match r {
        Ok((rest, none)) => Ok((acc + rest, none)),
        Err(e) => Err(e),
    }
}

impl CtorStructConfiguration {
    pub fn default() -> (r: CtorStructConfiguration)
        ensures
            r@ == default_configuration(),
    {
        let mut definitions: Vec<CtorDefinition> = Vec::new();
        definitions.push(CtorDefinition {
            visibility: Visibility::Public,
            ident: String::from_str("new"),
            is_const: false,
            is_default: false,
            ambient: Ambient { default_all: false, into_all: false },
        });
        let r = CtorStructConfiguration { definitions, is_none: false };
        assert(r@.definitions =~= default_configuration().definitions);
        r
    }

    /// Parses the arguments of a `ctor` attribute on a type or a variant.
    pub fn parse(t: &Vec<Tok>) -> (r: Result<CtorStructConfiguration, ParseError>)
        ensures
            match r {
                Ok(c) => configuration_at(t@) == Ok::<ConfigurationView, ParseError>(c@),
                Err(e) => configuration_at(t@) == Err::<ConfigurationView, ParseError>(e),
            },
    {
        if t.len() == 0 {
            return Ok(CtorStructConfiguration::default());
        }
        let n = t.len();
        let mut definitions: Vec<CtorDefinition> = Vec::new();
        let mut p: usize = 0;
        let mut first = true;
        assert(defs_view(definitions@) + Seq::<CtorDefinitionView>::empty() =~= Seq::<CtorDefinitionView>::empty());
        loop
            invariant
                n == t@.len(),
                n > 0,
                p <= n,
                first ==> p == 0 && definitions@.len() == 0,
                entries_from(t@, 0, true) == prefixed_defs(defs_view(definitions@), entries_from(t@, p as int, first)),
            decreases n - p,
        {
            let ghost acc = defs_view(definitions@);
            let (d, q, bare) = match parse_entry(t, p) {
                Err(e) => {
                    assert(entries_from(t@, p as int, first) == Err::<(Seq<CtorDefinitionView>, bool), ParseError>(e));
                    return Err(e);
                },
                Ok(dqb) => dqb,
            };
            if first && bare && text_is(&d.ident, "none") {
                if q == n {
                    assert(defs_view(definitions@) =~= Seq::<CtorDefinitionView>::empty());
                    return Ok(CtorStructConfiguration { definitions, is_none: true });
                } else {
                    return Err(ParseError::Syntax { at: q });
                }
            }
            let ghost dv = d@;
            definitions.push(d);
            assert(defs_view(definitions@) =~= acc + seq![dv]);
            if q == n {
                assert(acc + seq![dv] =~= defs_view(definitions@));
                return Ok(CtorStructConfiguration { definitions, is_none: false });
            }
            if !punct_is(&t[q], ',') {
                return Err(ParseError::Syntax { at: q });
            }
            proof {
                match entries_from(t@, q + 1, false) {
                    Ok((rest, _)) => {
                        assert(acc + (seq![dv] + rest) =~= defs_view(definitions@) + rest);
                    },
                    Err(_) => {},
                }
            }
            p = q + 1;
            first = false;
        }
    }

    /// The configuration that a type's (or a variant's) attributes give, or
    /// `default` where there is no `ctor` attribute.
    pub fn from_attributes(attrs: &Vec<Attribute>, default: CtorStructConfiguration) -> (r: Result<CtorStructConfiguration, ParseError>)
        ensures
            match r {
                Ok(c) => configuration_of(attrs@, default@) == Ok::<ConfigurationView, ParseError>(c@),
                Err(e) => configuration_of(attrs@, default@) == Err::<ConfigurationView, ParseError>(e),
            },
    {
        match find_ctor_attr(attrs) {
            None => Ok(default),
            Some(i) => match &attrs[i].args {
                None => Err(ParseError::MissingArguments),
                Some(t) => CtorStructConfiguration::parse(t),
            },
        }
    }
}

} // verus!
