//! Field policies: the field-level directive grammar and the resolution of a
//! field for one constructor.
use vstd::prelude::*;
use crate::token::{Tok, Attribute, ctor_args, find_ctor_attr, Delim, is_word, is_punct, word_is, punct_is, is_ident_tok, joint_punct_is, copy_toks, copy_range, group_close, find_close, marks_phantom, is_phantom_data};
use crate::error::{Level, ParseError};

verus! {

/// What `syn::LitInt` makes of a literal's text: its value as a `usize`, where
/// the text is an integer literal whose value fits.
pub uninterp spec fn int_lit_value(s: Seq<char>) -> Option<usize>;

/// Relies on `syn::parse_str::<syn::LitInt>` and `syn::LitInt::base10_parse`:
/// the text as an integer literal, and its value (suffix dropped) as a `usize`.
#[verifier::external_body]
fn parse_index_literal(s: &str) -> (r: Option<usize>)
    ensures
        r == int_lit_value(s@),
{
    match syn::parse_str::<syn::LitInt>(s) {
        Ok(lit) => lit.base10_parse::<usize>().ok(),
        Err(_) => None,
    }
}

/// How a field gets its value in the constructors its policy applies to.
#[derive(Clone, Debug, PartialEq, Eq)]
pub enum FieldProperty {
    /// From a borrowed value, cloned.
    Cloned,
    /// The type's default value.
    Default,
    /// From any value convertible into the field's type.
    Into,
    /// Collected from any iterable of `iter_type`.
    Iter { iter_type: Vec<Tok> },
    /// Computed by `expression`, which may read a parameter of `input_type`
    /// or, where `self_referencing`, of the field's own type and name.
    Expression { expression: Vec<Tok>, input_type: Option<Vec<Tok>>, self_referencing: bool },
}

pub enum PropertyView {
    Cloned,
    Default,
    Into,
    Iter { iter_type: Seq<Tok> },
    Expression { expression: Seq<Tok>, input_type: Option<Seq<Tok>>, self_referencing: bool },
}

impl View for FieldProperty {
    type V = PropertyView;

    open spec fn view(&self) -> PropertyView {
        match self {
            FieldProperty::Cloned => PropertyView::Cloned,
            FieldProperty::Default => PropertyView::Default,
            FieldProperty::Into => PropertyView::Into,
            FieldProperty::Iter { iter_type } => PropertyView::Iter { iter_type: iter_type@ },
            FieldProperty::Expression { expression, input_type, self_referencing } => PropertyView::Expression {
                expression: expression@,
                input_type: match input_type {
                    Some(t) => Some(t@),
                    None => None,
                },
                self_referencing: *self_referencing,
            },
        }
    }
}

impl FieldProperty {
    pub fn copy(&self) -> (r: FieldProperty)
        ensures
            r@ == self@,
    {
        match self {
            FieldProperty::Cloned => FieldProperty::Cloned,
            FieldProperty::Default => FieldProperty::Default,
            FieldProperty::Into => FieldProperty::Into,
            FieldProperty::Iter { iter_type } => FieldProperty::Iter { iter_type: copy_toks(iter_type) },
            FieldProperty::Expression { expression, input_type, self_referencing } => {
                let it = match input_type {
                    Some(t) => Some(copy_toks(t)),
                    None => None,
                };
                FieldProperty::Expression {
                    expression: copy_toks(expression),
                    input_type: it,
                    self_referencing: *self_referencing,
                }
            },
        }
    }
}

/// The policy of one field: its property, and the indices of the constructors
/// it applies to (none listed: all of them).
#[derive(Clone, Debug, PartialEq, Eq)]
pub struct FieldConfig {
    pub property: FieldProperty,
    pub applications: Vec<usize>,
}

pub struct FieldConfigView {
    pub property: PropertyView,
    pub applications: Seq<usize>,
}

impl View for FieldConfig {
    type V = FieldConfigView;

    open spec fn view(&self) -> FieldConfigView {
        FieldConfigView { property: self.property@, applications: self.applications@ }
    }
}

/// The closing position of a group that must open at `q` with delimiter `d`.
pub open spec fn delimited(t: Seq<Tok>, q: int, d: Delim) -> Result<int, ParseError> {
    if q >= t.len() {
        Err(ParseError::Syntax { at: q as usize })
    } else {
        match t[q] {
            Tok::Open(e) => if e != d {
                Err(ParseError::DelimiterMismatch { at: q as usize, expected: d })
            } else {
                match group_close(t, q) {
                    Some(c) => Ok(c),
                    None => Err(ParseError::Syntax { at: q as usize }),
                }
            },
            _ => Err(ParseError::Syntax { at: q as usize }),
        }
    }
}

pub fn parse_delimited(t: &Vec<Tok>, q: usize, d: Delim) -> (r: Result<usize, ParseError>)
    requires
        q <= t@.len(),
    ensures
        match r {
            Ok(c) => delimited(t@, q as int, d) == Ok::<int, ParseError>(c as int) && q < c < t@.len(),
            Err(e) => delimited(t@, q as int, d) == Err::<int, ParseError>(e),
        },
{
    if q >= t.len() {
        return Err(ParseError::Syntax { at: q });
    }
    match &t[q] {
        Tok::Open(e) => {
            if *e != d {
                Err(ParseError::DelimiterMismatch { at: q, expected: d })
            } else {
                match find_close(t, q) {
                    Some(c) => Ok(c),
                    None => Err(ParseError::Syntax { at: q }),
                }
            }
        },
        _ => Err(ParseError::Syntax { at: q }),
    }
}

/// The body of `expr(...)`: an optional `Type ->` prefix, then the expression.
pub open spec fn expression_of(body: Seq<Tok>, self_referencing: bool) -> PropertyView {
    if body.len() >= 3 && body[0] is Ident && body[1] == Tok::Punct('-', true) && is_punct(body[2], '>') {
        PropertyView::Expression {
            expression: body.skip(3),
            input_type: Some(body.take(1)),
            self_referencing,
        }
    } else {
        PropertyView::Expression { expression: body, input_type: None, self_referencing }
    }
}

/// A field property starting at `p`, and the position after it.
pub open spec fn property_at(t: Seq<Tok>, p: int) -> Result<(PropertyView, int), ParseError> {
    if p >= t.len() {
        Err(ParseError::Syntax { at: p as usize })
    } else if is_word(t[p], "cloned"@) {
        Ok((PropertyView::Cloned, p + 1))
    } else if is_word(t[p], "default"@) {
        Ok((PropertyView::Default, p + 1))
    } else if is_word(t[p], "into"@) {
        Ok((PropertyView::Into, p + 1))
    } else if is_word(t[p], "iter"@) {
        match delimited(t, p + 1, Delim::Paren) {
            Err(e) => Err(e),
            Ok(c) => if c == p + 2 {
                Err(ParseError::Syntax { at: c as usize })
            } else {
                Ok((PropertyView::Iter { iter_type: t.subrange(p + 2, c) }, c + 1))
            },
        }
    } else if is_word(t[p], "expr"@) {
        let self_referencing = p + 1 < t.len() && is_punct(t[p + 1], '!');
        let q = if self_referencing { p + 2 } else { p + 1 };
        match delimited(t, q, Delim::Paren) {
            Err(e) => Err(e),
            Ok(c) => Ok((expression_of(t.subrange(q + 1, c), self_referencing), c + 1)),
        }
    } else if is_word(t[p], "impl"@) {
        Err(ParseError::RenamedProperty { at: p as usize })
    } else if is_word(t[p], "method"@) {
        Err(ParseError::RemovedProperty { at: p as usize })
    } else if t[p] is Ident {
        Err(ParseError::InvalidProperty { at: p as usize, level: Level::Field })
    } else {
        Err(ParseError::Syntax { at: p as usize })
    }
}

fn expression_body(t: &Vec<Tok>, lo: usize, hi: usize, self_referencing: bool) -> (r: FieldProperty)
    requires
        lo <= hi <= t@.len(),
    ensures
        r@ == expression_of(t@.subrange(lo as int, hi as int), self_referencing),
{
    let ghost body = t@.subrange(lo as int, hi as int);
    if hi - lo >= 3 && is_ident_tok(&t[lo]) && joint_punct_is(&t[lo + 1], '-') && punct_is(&t[lo + 2], '>') {
        let r = FieldProperty::Expression {
            expression: copy_range(t, lo + 3, hi),
            input_type: Some(copy_range(t, lo, lo + 1)),
            self_referencing,
        };
        assert(body.skip(3) =~= t@.subrange(lo + 3, hi as int));
        assert(body.take(1) =~= t@.subrange(lo as int, lo + 1));
        r
    } else {
        FieldProperty::Expression { expression: copy_range(t, lo, hi), input_type: None, self_referencing }
    }
}

/// Parses a field property starting at `p`.
pub fn parse_property(t: &Vec<Tok>, p: usize) -> (r: Result<(FieldProperty, usize), ParseError>)
    requires
        p <= t@.len(),
    ensures
        match r {
            Ok((prop, q)) => property_at(t@, p as int) == Ok::<(PropertyView, int), ParseError>((prop@, q as int)) && q <= t@.len(),
            Err(e) => property_at(t@, p as int) == Err::<(PropertyView, int), ParseError>(e),
        },
{
    if p >= t.len() {
        return Err(ParseError::Syntax { at: p });
    }
    let tok = &t[p];
    if word_is(tok, "cloned") {
        Ok((FieldProperty::Cloned, p + 1))
    } else if word_is(tok, "default") {
        Ok((FieldProperty::Default, p + 1))
    } else if word_is(tok, "into") {
        Ok((FieldProperty::Into, p + 1))
    } else if word_is(tok, "iter") {
        match parse_delimited(t, p + 1, Delim::Paren) {
            Err(e) => Err(e),
            Ok(c) => {
                if c == p + 2 {
                    Err(ParseError::Syntax { at: c })
                } else {
                    Ok((FieldProperty::Iter { iter_type: copy_range(t, p + 2, c) }, c + 1))
                }
            },
        }
    } else if word_is(tok, "expr") {
        let self_referencing = p + 1 < t.len() && punct_is(&t[p + 1], '!');
        let q = if self_referencing { p + 2 } else { p + 1 };
        match parse_delimited(t, q, Delim::Paren) {
            Err(e) => Err(e),
            Ok(c) => Ok((expression_body(t, q + 1, c, self_referencing), c + 1)),
        }
    } else if word_is(tok, "impl") {
        Err(ParseError::RenamedProperty { at: p })
    } else if word_is(tok, "method") {
        Err(ParseError::RemovedProperty { at: p })
    } else if is_ident_tok(tok) {
        Err(ParseError::InvalidProperty { at: p, level: Level::Field })
    } else {
        Err(ParseError::Syntax { at: p })
    }
}

/// The value of an index literal token.
pub open spec fn lit_index(t: Tok) -> Option<usize> {
    match t {
        Tok::Lit(s) => int_lit_value(s@),
        _ => None,
    }
}

fn token_index(t: &Tok) -> (r: Option<usize>)
    ensures
        r == lit_index(*t),
{
    match t {
        Tok::Lit(s) => parse_index_literal(s.as_str()),
        _ => None,
    }
}

/// A comma-separated list of index literals filling `t[k..hi]`.
pub open spec fn indices_at(t: Seq<Tok>, k: int, hi: int) -> Result<Seq<usize>, ParseError>
    decreases hi - k,
{
    if k >= hi {
        Err(ParseError::Syntax { at: k as usize })
    } else {
        match lit_index(t[k]) {
            None => Err(ParseError::Syntax { at: k as usize }),
            Some(v) => if k + 1 == hi {
                Ok(seq![v])
            } else if is_punct(t[k + 1], ',') {
                match indices_at(t, k + 2, hi) {
                    Ok(rest) => Ok(seq![v] + rest),
                    Err(e) => Err(e),
                }
            } else {
                Err(ParseError::Syntax { at: (k + 1) as usize })
            },
        }
    }
}

/// `acc` put in front of the list that `r` holds.
pub open spec fn prefixed(acc: Seq<usize>, r: Result<Seq<usize>, ParseError>) -> Result<Seq<usize>, ParseError> {
    match r {
        Ok(rest) => Ok(acc + rest),
        Err(e) => Err(e),
    }
}

pub fn parse_indices(t: &Vec<Tok>, lo: usize, hi: usize) -> (r: Result<Vec<usize>, ParseError>)
    requires
        lo <= hi <= t@.len(),
    ensures
        match r {
            Ok(v) => indices_at(t@, lo as int, hi as int) == Ok::<Seq<usize>, ParseError>(v@),
            Err(e) => indices_at(t@, lo as int, hi as int) == Err::<Seq<usize>, ParseError>(e),
        },
{
    let mut acc: Vec<usize> = Vec::new();
    let mut k: usize = lo;
    assert(acc@ + Seq::<usize>::empty() =~= Seq::<usize>::empty());
    loop
        invariant
            lo <= k <= hi <= t@.len(),
            indices_at(t@, lo as int, hi as int) == prefixed(acc@, indices_at(t@, k as int, hi as int)),
        decreases hi - k,
    {
        if k >= hi {
            return Err(ParseError::Syntax { at: k });
        }
        match token_index(&t[k]) {
            None => {
                return Err(ParseError::Syntax { at: k });
            },
            Some(v) => {
                if k + 1 == hi {
                    let ghost before = acc@;
                    acc.push(v);
                    assert(indices_at(t@, k as int, hi as int) == Ok::<Seq<usize>, ParseError>(seq![v]));
                    assert(before + seq![v] =~= acc@);
                    assert(indices_at(t@, lo as int, hi as int) == Ok::<Seq<usize>, ParseError>(acc@));
                    return Ok(acc);
                } else if punct_is(&t[k + 1], ',') {
                    let ghost before = acc@;
                    acc.push(v);
                    proof {
                        match indices_at(t@, k + 2, hi as int) {
                            Ok(rest) => {
                                assert(before + (seq![v] + rest) =~= acc@ + rest);
                            },
                            Err(e) => {},
                        }
                    }
                    k = k + 2;
                    if k > hi {
                        return Err(ParseError::Syntax { at: hi });
                    }
                } else {
                    return Err(ParseError::Syntax { at: k + 1 });
                }
            },
        }
    }
}

/// The policy written in the arguments `t` of a field's `ctor` attribute:
/// a property, then optionally `= N` or `= [N, M, ...]`.
pub open spec fn field_config_at(t: Seq<Tok>) -> Result<FieldConfigView, ParseError> {
    match property_at(t, 0) {
        Err(e) => Err(e),
        Ok((property, q)) => if q == t.len() {
            Ok(FieldConfigView { property, applications: Seq::empty() })
        } else if !is_punct(t[q], '=') {
            Err(ParseError::Syntax { at: q as usize })
        } else if q + 1 >= t.len() {
            Err(ParseError::Syntax { at: (q + 1) as usize })
        } else if t[q + 1] is Open {
            match delimited(t, q + 1, Delim::Bracket) {
                Err(e) => Err(e),
                Ok(c) => match indices_at(t, q + 2, c) {
                    Err(e) => Err(e),
                    Ok(applications) => if c + 1 == t.len() {
                        Ok(FieldConfigView { property, applications })
                    } else {
                        Err(ParseError::Syntax { at: (c + 1) as usize })
                    },
                },
            }
        } else {
            match lit_index(t[q + 1]) {
                None => Err(ParseError::Syntax { at: (q + 1) as usize }),
                Some(v) => if q + 2 == t.len() {
                    Ok(FieldConfigView { property, applications: seq![v] })
                } else {
                    Err(ParseError::Syntax { at: (q + 2) as usize })
                },
            }
        },
    }
}

impl FieldConfig {
    /// Parses the arguments of a field's `ctor` attribute.
    pub fn parse(t: &Vec<Tok>) -> (r: Result<FieldConfig, ParseError>)
        ensures
            match r {
                Ok(c) => field_config_at(t@) == Ok::<FieldConfigView, ParseError>(c@),
                Err(e) => field_config_at(t@) == Err::<FieldConfigView, ParseError>(e),
            },
    {
        let (property, q) = match parse_property(t, 0) {
            Err(e) => {
                return Err(e);
            },
            Ok(pq) => pq,
        };
        let n = t.len();
        if q == n {
            return Ok(FieldConfig { property, applications: Vec::new() });
        }
        if !punct_is(&t[q], '=') {
            return Err(ParseError::Syntax { at: q });
        }
        if q + 1 >= n {
            return Err(ParseError::Syntax { at: q + 1 });
        }
        if let Tok::Open(_) = &t[q + 1] {
            let c = match parse_delimited(t, q + 1, Delim::Bracket) {
                Err(e) => {
                    return Err(e);
                },
                Ok(c) => c,
            };
            let applications = match parse_indices(t, q + 2, c) {
                Err(e) => {
                    return Err(e);
                },
                Ok(a) => a,
            };
            if c + 1 == n {
                Ok(FieldConfig { property, applications })
            } else {
                Err(ParseError::Syntax { at: c + 1 })
            }
        } else {
            match token_index(&t[q + 1]) {
                None => Err(ParseError::Syntax { at: q + 1 }),
                Some(v) => {
                    if q + 2 == n {
                        let mut applications: Vec<usize> = Vec::new();
                        applications.push(v);
                        assert(applications@ =~= seq![v]);
                        Ok(FieldConfig { property, applications })
                    } else {
                        Err(ParseError::Syntax { at: q + 2 })
                    }
                },
            }
        }
    }
}

/// The policy that a field's attributes give it, if any.
pub open spec fn field_config_of(attrs: Seq<Attribute>) -> Result<Option<FieldConfigView>, ParseError> {
    match ctor_args(attrs) {
        None => Ok(None),
        Some(None) => Err(ParseError::MissingArguments),
        Some(Some(t)) => match field_config_at(t) {
            Ok(c) => Ok(Some(c)),
            Err(e) => Err(e),
        },
    }
}

pub open spec fn opt_config_view(c: Option<FieldConfig>) -> Option<FieldConfigView> {
    match c {
        Some(c) => Some(c@),
        None => None,
    }
}

/// Finds and parses the `ctor` attribute of a field.
pub fn try_parse_field_attributes(attrs: &Vec<Attribute>) -> (r: Result<Option<FieldConfig>, ParseError>)
    ensures
        match r {
            Ok(c) => field_config_of(attrs@) == Ok::<Option<FieldConfigView>, ParseError>(opt_config_view(c)),
            Err(e) => field_config_of(attrs@) == Err::<Option<FieldConfigView>, ParseError>(e),
        },
{
    match find_ctor_attr(attrs) {
        None => Ok(None),
        Some(i) => match &attrs[i].args {
            None => Err(ParseError::MissingArguments),
            Some(t) => match FieldConfig::parse(t) {
                Ok(c) => Ok(Some(c)),
                Err(e) => Err(e),
            },
        },
    }
}

/// The type of a constructor parameter: the field's declared type, or a type
/// derived from it.
#[derive(Clone, Debug, PartialEq, Eq)]
pub enum ParamType {
    /// The type as written.
    Plain(Vec<Tok>),
    /// A reference to the type: `&T`.
    Ref(Vec<Tok>),
    /// Anything convertible into the type: `impl Into<T>`.
    IntoOf(Vec<Tok>),
    /// Anything iterable over the element type: `impl IntoIterator<Item = T>`.
    IterOf(Vec<Tok>),
}

pub enum ParamTypeView {
    Plain(Seq<Tok>),
    Ref(Seq<Tok>),
    IntoOf(Seq<Tok>),
    IterOf(Seq<Tok>),
}

impl View for ParamType {
    type V = ParamTypeView;

    open spec fn view(&self) -> ParamTypeView {
        match self {
            ParamType::Plain(t) => ParamTypeView::Plain(t@),
            ParamType::Ref(t) => ParamTypeView::Ref(t@),
            ParamType::IntoOf(t) => ParamTypeView::IntoOf(t@),
            ParamType::IterOf(t) => ParamTypeView::IterOf(t@),
        }
    }
}

/// A property that produces the field's value with no input of its own.
pub open spec fn is_generated(p: PropertyView) -> bool {
    match p {
        PropertyView::Default => true,
        PropertyView::Expression { self_referencing, .. } => !self_referencing,
        _ => false,
    }
}

impl FieldProperty {
    pub fn is_generated(&self) -> (r: bool)
        ensures
            r == is_generated(self@),
    {
        match self {
            FieldProperty::Default => true,
            FieldProperty::Expression { self_referencing, .. } => !*self_referencing,
            _ => false,
        }
    }
}

/// The parameter that a property asks for, on a field of type `ty`.
pub open spec fn param_for(p: PropertyView, ty: Seq<Tok>) -> Option<ParamTypeView> {
    match p {
        PropertyView::Cloned => Some(ParamTypeView::Ref(ty)),
        PropertyView::Into => Some(ParamTypeView::IntoOf(ty)),
        PropertyView::Iter { iter_type } => Some(ParamTypeView::IterOf(iter_type)),
        PropertyView::Expression { input_type, self_referencing, .. } => match input_type {
            Some(it) => Some(ParamTypeView::Plain(it)),
            None => if self_referencing { Some(ParamTypeView::Plain(ty)) } else { None },
        },
        PropertyView::Default => None,
    }
}

/// Modifiers of one requested constructor that reach its fields.
#[derive(Clone, Copy, Debug, PartialEq, Eq, Structural)]
pub struct Ambient {
    /// Every field without a self-generating policy takes its default value.
    pub default_all: bool,
    /// Every field without a policy is taken as `impl Into<T>`.
    pub into_all: bool,
}

/// How a field of type `ty`, with policy `config`, fills the constructor at
/// `index`: the parameter it asks for, and the initializer that computes it.
/// Neither: never. Only a parameter: the field is the parameter as it is.
pub open spec fn resolve(config: Option<FieldConfigView>, ty: Seq<Tok>, index: usize, ambient: Ambient) -> (Option<ParamTypeView>, Option<PropertyView>) {
    match config {
        None => if ambient.default_all {
            (None, Some(PropertyView::Default))
        } else if ambient.into_all {
            (Some(ParamTypeView::IntoOf(ty)), Some(PropertyView::Into))
        } else if marks_phantom(ty) {
            (None, Some(PropertyView::Default))
        } else {
            (Some(ParamTypeView::Plain(ty)), None)
        },
        Some(c) => if !is_generated(c.property) && ambient.default_all {
            (None, Some(PropertyView::Default))
        } else if c.applications.len() == 0 || c.applications.contains(index) {
            (param_for(c.property, ty), Some(c.property))
        } else if marks_phantom(ty) {
            (None, Some(PropertyView::Default))
        } else {
            (Some(ParamTypeView::Plain(ty)), None)
        },
    }
}

pub open spec fn opt_param_view(p: Option<ParamType>) -> Option<ParamTypeView> {
    match p {
        Some(p) => Some(p@),
        None => None,
    }
}

pub open spec fn opt_property_view(p: Option<FieldProperty>) -> Option<PropertyView> {
    match p {
        Some(p) => Some(p@),
        None => None,
    }
}

fn applies_to(applications: &Vec<usize>, index: usize) -> (r: bool)
    ensures
        r == (applications@.len() == 0 || applications@.contains(index)),
{
    if applications.len() == 0 {
        return true;
    }
    let mut i: usize = 0;
    while i < applications.len()
        invariant
            i <= applications@.len(),
            forall|k: int| 0 <= k < i ==> applications@[k] != index,
        decreases applications@.len() - i,
    {
        if applications[i] == index {
            return true;
        }
        i = i + 1;
    }
    false
}

fn param_of(p: &FieldProperty, ty: &Vec<Tok>) -> (r: Option<ParamType>)
    ensures
        opt_param_view(r) == param_for(p@, ty@),
{
    match p {
        FieldProperty::Cloned => Some(ParamType::Ref(copy_toks(ty))),
        FieldProperty::Into => Some(ParamType::IntoOf(copy_toks(ty))),
        FieldProperty::Iter { iter_type } => Some(ParamType::IterOf(copy_toks(iter_type))),
        FieldProperty::Expression { input_type, self_referencing, .. } => match input_type {
            Some(it) => Some(ParamType::Plain(copy_toks(it))),
            None => if *self_referencing {
                Some(ParamType::Plain(copy_toks(ty)))
            } else {
                None
            },
        },
        FieldProperty::Default => None,
    }
}

/// Resolves one field for the constructor at `index` (see `resolve`).
pub fn resolve_field(config: &Option<FieldConfig>, ty: &Vec<Tok>, index: usize, ambient: Ambient) -> (r: (Option<ParamType>, Option<FieldProperty>))
    ensures
        (opt_param_view(r.0), opt_property_view(r.1)) == resolve(opt_config_view(*config), ty@, index, ambient),
{
    match config {
        None => {
            if ambient.default_all {
                (None, Some(FieldProperty::Default))
            } else if ambient.into_all {
                (Some(ParamType::IntoOf(copy_toks(ty))), Some(FieldProperty::Into))
            } else if is_phantom_data(ty) {
                (None, Some(FieldProperty::Default))
            } else {
                (Some(ParamType::Plain(copy_toks(ty))), None)
            }
        },
        Some(c) => {
            if !c.property.is_generated() && ambient.default_all {
                (None, Some(FieldProperty::Default))
            } else if applies_to(&c.applications, index) {
                (param_of(&c.property, ty), Some(c.property.copy()))
            } else if is_phantom_data(ty) {
                (None, Some(FieldProperty::Default))
            } else {
                (Some(ParamType::Plain(copy_toks(ty))), None)
            }
        },
    }
}

} // verus!
