//! Enums and unions: one set of constructors per variant (per field, in a
//! union), named after it unless its own attribute says otherwise.
use vstd::prelude::*;
use vstd::string::*;
use crate::token::{Tok, Attribute, is_word, is_punct, word_is, punct_is, ctor_args, find_ctor_attr};
use crate::error::{Level, ParseError, CtorError};
use crate::field::Ambient;
use crate::config::{
    CtorDefinition, CtorDefinitionView, CtorStructConfiguration, ConfigurationView, Visibility, VisibilityView,
    configuration_of, is_name, no_ambient, parse_visibility, visibility_at,
};
use crate::plan::{
    ConstructorView, CtorErrorView, Field, Plan, PlanView, Constructor, ctors_view, defs_views, field_configs,
    last_default, find_last_default, parse_field_configs, plan_for, plan_result_view,
};

verus! {

/// The enum-level directives: a prefix for the constructor names and the
/// visibility of the constructors.
#[derive(Clone, Debug, PartialEq, Eq)]
pub struct CtorEnumConfiguration {
    pub prefix: Option<String>,
    pub default_visibility: Visibility,
}

pub struct EnumConfigurationView {
    pub prefix: Option<Seq<char>>,
    pub default_visibility: VisibilityView,
}

impl View for CtorEnumConfiguration {
    type V = EnumConfigurationView;

    open spec fn view(&self) -> EnumConfigurationView {
        EnumConfigurationView {
            prefix: match self.prefix {
                Some(p) => Some(p@),
                None => None,
            },
            default_visibility: self.default_visibility@,
        }
    }
}

/// No prefix, public constructors.
pub open spec fn default_enum_configuration() -> EnumConfigurationView {
    EnumConfigurationView { prefix: None, default_visibility: VisibilityView::Public }
}

pub open spec fn ident_text(t: Tok) -> Seq<char> {
    match t {
        Tok::Ident(s) => s@,
        _ => Seq::empty(),
    }
}

/// The items `name = value` from `p` on, applied in order to `cfg`.
pub open spec fn enum_items_from(t: Seq<Tok>, p: int, cfg: EnumConfigurationView) -> Result<EnumConfigurationView, ParseError>
    decreases t.len() - p,
{
    if p < 0 || p >= t.len() || !is_name(t[p]) {
        Err(ParseError::Syntax { at: p as usize })
    } else if p + 1 >= t.len() || !is_punct(t[p + 1], '=') {
        Err(ParseError::Syntax { at: (p + 1) as usize })
    } else {
        let item: Result<(EnumConfigurationView, int), ParseError> = if is_word(t[p], "vis"@) || is_word(t[p], "visibility"@) {
            let (v, q) = visibility_at(t, p + 2);
            Ok((EnumConfigurationView { prefix: cfg.prefix, default_visibility: v }, q))
        } else if is_word(t[p], "prefix"@) {
            if p + 2 < t.len() && is_name(t[p + 2]) {
                Ok((EnumConfigurationView { prefix: Some(ident_text(t[p + 2])), default_visibility: cfg.default_visibility }, p + 3))
            } else {
                Err(ParseError::Syntax { at: (p + 2) as usize })
            }
        } else {
            Err(ParseError::InvalidProperty { at: p as usize, level: Level::Enum })
        };
        match item {
            Err(e) => Err(e),
            Ok((next, q)) => if q <= p {
                // an item holds at least its name
                Err(ParseError::Syntax { at: p as usize })
            } else if q == t.len() {
                Ok(next)
            } else if q < t.len() && is_punct(t[q], ',') {
                enum_items_from(t, q + 1, next)
            } else {
                Err(ParseError::Syntax { at: q as usize })
            },
        }
    }
}

/// The enum-level configuration that the attributes give.
pub open spec fn enum_configuration_of(attrs: Seq<Attribute>) -> Result<EnumConfigurationView, ParseError> {
    match ctor_args(attrs) {
        None => Ok(default_enum_configuration()),
        Some(None) => Err(ParseError::MissingArguments),
        Some(Some(t)) => enum_items_from(t, 0, default_enum_configuration()),
    }
}

impl CtorEnumConfiguration {
    pub fn default() -> (r: CtorEnumConfiguration)
        ensures
            r@ == default_enum_configuration(),
    {
        CtorEnumConfiguration { prefix: None, default_visibility: Visibility::Public }
    }

    /// Parses the arguments of an enum's (or a union's) `ctor` attribute.
    pub fn parse(t: &Vec<Tok>) -> (r: Result<CtorEnumConfiguration, ParseError>)
        ensures
            match r {
                Ok(c) => enum_items_from(t@, 0, default_enum_configuration()) == Ok::<EnumConfigurationView, ParseError>(c@),
                Err(e) => enum_items_from(t@, 0, default_enum_configuration()) == Err::<EnumConfigurationView, ParseError>(e),
            },
    {
        let n = t.len();
        let mut cfg = CtorEnumConfiguration::default();
        let mut p: usize = 0;
        loop
            invariant
                n == t@.len(),
                p <= n,
                enum_items_from(t@, 0, default_enum_configuration()) == enum_items_from(t@, p as int, cfg@),
            decreases n - p,
        {
            if p >= n || !crate::config::name_tok(&t[p]) {
                return Err(ParseError::Syntax { at: p });
            }
            if p + 1 >= n || !punct_is(&t[p + 1], '=') {
                return Err(ParseError::Syntax { at: p + 1 });
            }
            let q: usize;
            if word_is(&t[p], "vis") || word_is(&t[p], "visibility") {
                let (v, q1) = parse_visibility(t, p + 2);
                cfg = CtorEnumConfiguration { prefix: cfg.prefix, default_visibility: v };
                q = q1;
            } else if word_is(&t[p], "prefix") {
                if p + 2 < n && crate::config::name_tok(&t[p + 2]) {
                    let name = match &t[p + 2] {
                        Tok::Ident(s) => s.clone(),
                        _ => String::new(),
                    };
                    cfg = CtorEnumConfiguration { prefix: Some(name), default_visibility: cfg.default_visibility };
                    q = p + 3;
                } else {
                    return Err(ParseError::Syntax { at: p + 2 });
                }
            } else {
                return Err(ParseError::InvalidProperty { at: p, level: Level::Enum });
            }
            if q == n {
                return Ok(cfg);
            }
            if !punct_is(&t[q], ',') {
                return Err(ParseError::Syntax { at: q });
            }
            p = q + 1;
        }
    }

    /// The enum-level configuration that the attributes give.
    pub fn from_attributes(attrs: &Vec<Attribute>) -> (r: Result<CtorEnumConfiguration, ParseError>)
        ensures
            match r {
                Ok(c) => enum_configuration_of(attrs@) == Ok::<EnumConfigurationView, ParseError>(c@),
                Err(e) => enum_configuration_of(attrs@) == Err::<EnumConfigurationView, ParseError>(e),
            },
    {
        match find_ctor_attr(attrs) {
            None => Ok(CtorEnumConfiguration::default()),
            Some(i) => match &attrs[i].args {
                None => Err(ParseError::MissingArguments),
                Some(t) => CtorEnumConfiguration::parse(t),
            },
        }
    }
}

/// `name`, after `prefix` and `_` where there is a prefix.
pub open spec fn prefixed_name(prefix: Option<Seq<char>>, name: Seq<char>) -> Seq<char> {
    match prefix {
        Some(p) => p + "_"@ + name,
        None => name,
    }
}

/// The configuration of a variant without a `ctor` attribute: one constructor
/// named after the variant (prefixed), with the enum's visibility.
pub open spec fn variant_configuration(cfg: EnumConfigurationView, name: Seq<char>) -> ConfigurationView {
    ConfigurationView {
        definitions: seq![CtorDefinitionView {
            visibility: cfg.default_visibility,
            ident: prefixed_name(cfg.prefix, name),
            is_const: false,
            is_default: false,
            ambient: no_ambient(),
        }],
        is_none: false,
    }
}

impl CtorStructConfiguration {
    /// The configuration of a variant (or union field) named `name` without a
    /// `ctor` attribute of its own.
    pub fn from_variant(cfg: &CtorEnumConfiguration, name: &String) -> (r: CtorStructConfiguration)
        ensures
            r@ == variant_configuration(cfg@, name@),
    {
        let ident = match &cfg.prefix {
            None => name.clone(),
            Some(p) => {
                let s = p.clone().concat("_");
                proof {
                    reveal_strlit("_");
                }
                s.concat(name.as_str())
            },
        };
        let mut definitions: Vec<CtorDefinition> = Vec::new();
        definitions.push(CtorDefinition {
            visibility: cfg.default_visibility.copy(),
            ident,
            is_const: false,
            is_default: false,
            ambient: Ambient { default_all: false, into_all: false },
        });
        let r = CtorStructConfiguration { definitions, is_none: false };
        assert(r@.definitions =~= variant_configuration(cfg@, name@).definitions);
        r
    }
}

/// How the fields of a variant are written.
#[derive(Clone, Copy, Debug, PartialEq, Eq, Structural)]
pub enum Shape {
    /// `V { a: A, b: B }`
    Named,
    /// `V(A, B)`
    Unnamed,
    /// `V`
    Unit,
}

/// A variant of an enum.
#[derive(Clone, Debug, PartialEq, Eq)]
pub struct Variant {
    pub name: String,
    pub shape: Shape,
    pub fields: Vec<Field>,
    pub attrs: Vec<Attribute>,
}

/// The constructors of the first `n` variants, in order.
pub open spec fn enum_constructors(cfg: EnumConfigurationView, variants: Seq<Variant>, n: int) -> Result<Seq<ConstructorView>, CtorErrorView>
    decreases n,
{
    if n <= 0 {
        Ok(Seq::empty())
    } else {
        match enum_constructors(cfg, variants, n - 1) {
            Err(e) => Err(e),
            Ok(before) => {
                let v = variants[n - 1];
                let k = (n - 1) as usize;
                match configuration_of(v.attrs@, variant_configuration(cfg, v.name@)) {
                    Err(error) => Err(CtorErrorView::VariantAttribute { variant: k, error }),
                    Ok(vc) => if vc.is_none {
                        Ok(before)
                    } else {
                        match field_configs(v.fields@, v.fields@.len() as int) {
                            Err((field, error)) => Err(CtorErrorView::FieldAttribute { variant: Some(k), field, error }),
                            Ok(cs) => match plan_for(k, Some(k), vc.definitions, v.fields@, cs) {
                                Err(e) => Err(e),
                                Ok(p) => Ok(before + p.constructors),
                            },
                        }
                    },
                }
            },
        }
    }
}

/// The plan for an enum with attributes `attrs` and variants `variants`.
pub open spec fn enum_plan(attrs: Seq<Attribute>, variants: Seq<Variant>) -> Result<PlanView, CtorErrorView> {
    match enum_configuration_of(attrs) {
        Err(error) => Err(CtorErrorView::TypeAttribute { error }),
        Ok(cfg) => match enum_constructors(cfg, variants, variants.len() as int) {
            Err(e) => Err(e),
            Ok(constructors) => Ok(PlanView { constructors, default_constructor: last_default(constructors) }),
        },
    }
}

proof fn lemma_enum_error_stays(cfg: EnumConfigurationView, variants: Seq<Variant>, m: int, j: int, e: CtorErrorView)
    requires
        0 < m <= j,
        enum_constructors(cfg, variants, m) == Err::<Seq<ConstructorView>, CtorErrorView>(e),
    ensures
        enum_constructors(cfg, variants, j) == Err::<Seq<ConstructorView>, CtorErrorView>(e),
    decreases j - m,
{
    if j > m {
        lemma_enum_error_stays(cfg, variants, m, j - 1, e);
    }
}

/// The constructors of an enum: for each variant, in order, those that its
/// `ctor` attribute requests (by default one, named after the variant in
/// snake case, with the enum's prefix and visibility), none for a variant
/// marked `none`.
pub fn create_enum_plan(attrs: &Vec<Attribute>, variants: &Vec<Variant>) -> (r: Result<Plan, CtorError>)
    ensures
        plan_result_view(r) == enum_plan(attrs@, variants@),
{
    let cfg = match CtorEnumConfiguration::from_attributes(attrs) {
        Err(error) => {
            return Err(CtorError::TypeAttribute { error });
        },
        Ok(c) => c,
    };
    let mut constructors: Vec<Constructor> = Vec::new();
    let mut k: usize = 0;
    assert(ctors_view(constructors@) =~= Seq::<ConstructorView>::empty());
    while k < variants.len()
        invariant
            k <= variants@.len(),
            enum_configuration_of(attrs@) == Ok::<EnumConfigurationView, ParseError>(cfg@),
            enum_constructors(cfg@, variants@, k as int) == Ok::<Seq<ConstructorView>, CtorErrorView>(ctors_view(constructors@)),
        decreases variants@.len() - k,
    {
        let v = &variants[k];
        let vc = match CtorStructConfiguration::from_attributes(&v.attrs, CtorStructConfiguration::from_variant(&cfg, &v.name)) {
            Err(error) => {
                let e = CtorError::VariantAttribute { variant: k, error };
                proof {
                    lemma_enum_error_stays(cfg@, variants@, k + 1, variants@.len() as int, e@);
                }
                return Err(e);
            },
            Ok(c) => c,
        };
        if !vc.is_none {
            let cs = match parse_field_configs(&v.fields) {
                Err((field, error)) => {
                    let e = CtorError::FieldAttribute { variant: Some(k), field, error };
                    proof {
                        lemma_enum_error_stays(cfg@, variants@, k + 1, variants@.len() as int, e@);
                    }
                    return Err(e);
                },
                Ok(cs) => cs,
            };
            proof {
                assert(vc@.definitions == defs_views(vc.definitions@));
            }
            match crate::plan::make_plan(k, Some(k), &vc.definitions, &v.fields, &cs) {
                Err(e) => {
                    proof {
                        lemma_enum_error_stays(cfg@, variants@, k + 1, variants@.len() as int, e@);
                    }
                    return Err(e);
                },
                Ok(p) => {
                    let ghost before = ctors_view(constructors@);
                    let mut more = p.constructors;
                    let ghost added = ctors_view(more@);
                    constructors.append(&mut more);
                    assert(ctors_view(constructors@) =~= before + added);
                },
            }
        }
        k = k + 1;
    }
    let default_constructor = find_last_default(&constructors);
    Ok(Plan { constructors, default_constructor })
}

/// In a union, what a default constructor does: the field it sets takes its
/// default value.
pub open spec fn union_ambient(d: CtorDefinitionView) -> Ambient {
    Ambient { default_all: d.ambient.default_all || d.is_default, into_all: d.ambient.into_all }
}

pub open spec fn field_name(f: Field) -> Seq<char> {
    match f.name {
        Some(n) => n@,
        None => Seq::empty(),
    }
}

/// The constructor that definition `d`, at position `index`, asks for on the
/// union field at `k`: it sets that field alone.
pub open spec fn union_constructor(k: usize, d: CtorDefinitionView, f: Field, index: usize) -> ConstructorView {
    let (param, init) = crate::field::resolve(None, f.ty@, index, union_ambient(d));
    ConstructorView {
        target: k,
        visibility: d.visibility,
        name: crate::names::method_name(d.ident),
        is_const: d.is_const,
        is_default: d.is_default,
        parameters: match param {
            Some(ty) => seq![crate::plan::ParameterView { field: k, ty }],
            None => Seq::empty(),
        },
        generated: match init {
            Some(property) => seq![crate::plan::GeneratedView { field: k, property }],
            None => Seq::empty(),
        },
    }
}

/// The constructors of the first `n` union fields, in order.
pub open spec fn union_constructors(cfg: EnumConfigurationView, fields: Seq<Field>, n: int) -> Result<Seq<ConstructorView>, CtorErrorView>
    decreases n,
{
    if n <= 0 {
        Ok(Seq::empty())
    } else {
        match union_constructors(cfg, fields, n - 1) {
            Err(e) => Err(e),
            Ok(before) => {
                let f = fields[n - 1];
                let k = (n - 1) as usize;
                match configuration_of(f.attrs@, variant_configuration(cfg, field_name(f))) {
                    Err(error) => Err(CtorErrorView::VariantAttribute { variant: k, error }),
                    Ok(fc) => Ok(before + Seq::new(fc.definitions.len(), |i: int| union_constructor(k, fc.definitions[i], f, i as usize))),
                }
            },
        }
    }
}

/// The plan for a union with attributes `attrs` and fields `fields`.
pub open spec fn union_plan(attrs: Seq<Attribute>, fields: Seq<Field>) -> Result<PlanView, CtorErrorView> {
    match enum_configuration_of(attrs) {
        Err(error) => Err(CtorErrorView::TypeAttribute { error }),
        Ok(cfg) => match union_constructors(cfg, fields, fields.len() as int) {
            Err(e) => Err(e),
            Ok(constructors) => Ok(PlanView { constructors, default_constructor: last_default(constructors) }),
        },
    }
}

proof fn lemma_union_error_stays(cfg: EnumConfigurationView, fields: Seq<Field>, m: int, j: int, e: CtorErrorView)
    requires
        0 < m <= j,
        union_constructors(cfg, fields, m) == Err::<Seq<ConstructorView>, CtorErrorView>(e),
    ensures
        union_constructors(cfg, fields, j) == Err::<Seq<ConstructorView>, CtorErrorView>(e),
    decreases j - m,
{
    if j > m {
        lemma_union_error_stays(cfg, fields, m, j - 1, e);
    }
}

fn build_union_constructor(k: usize, d: &CtorDefinition, f: &Field, index: usize) -> (r: Constructor)
    ensures
        r@ == union_constructor(k, d@, *f, index),
{
    let ambient = Ambient { default_all: d.ambient.default_all || d.is_default, into_all: d.ambient.into_all };
    let (param, init) = crate::field::resolve_field(&None, &f.ty, index, ambient);
    let mut parameters: Vec<crate::plan::ParameterField> = Vec::new();
    let mut generated: Vec<crate::plan::GeneratedField> = Vec::new();
    match param {
        Some(ty) => parameters.push(crate::plan::ParameterField { field: k, ty }),
        None => {},
    }
    match init {
        Some(property) => generated.push(crate::plan::GeneratedField { field: k, property }),
        None => {},
    }
    let r = Constructor {
        target: k,
        visibility: d.visibility.copy(),
        name: crate::names::normalize_method_name(&d.ident),
        is_const: d.is_const,
        is_default: d.is_default,
        parameters,
        generated,
    };
    assert(r@.parameters =~= union_constructor(k, d@, *f, index).parameters);
    assert(r@.generated =~= union_constructor(k, d@, *f, index).generated);
    r
}

/// The constructors of a union: for each field, in order, those that its
/// `ctor` attribute requests (by default one, named after the field, with the
/// union's prefix and visibility), each setting that field from a parameter of
/// its type (a default constructor: from the type's default value).
pub fn create_union_plan(attrs: &Vec<Attribute>, fields: &Vec<Field>) -> (r: Result<Plan, CtorError>)
    ensures
        plan_result_view(r) == union_plan(attrs@, fields@),
{
    let cfg = match CtorEnumConfiguration::from_attributes(attrs) {
        Err(error) => {
            return Err(CtorError::TypeAttribute { error });
        },
        Ok(c) => c,
    };
    let mut constructors: Vec<Constructor> = Vec::new();
    let mut k: usize = 0;
    assert(ctors_view(constructors@) =~= Seq::<ConstructorView>::empty());
    while k < fields.len()
        invariant
            k <= fields@.len(),
            enum_configuration_of(attrs@) == Ok::<EnumConfigurationView, ParseError>(cfg@),
            union_constructors(cfg@, fields@, k as int) == Ok::<Seq<ConstructorView>, CtorErrorView>(ctors_view(constructors@)),
        decreases fields@.len() - k,
    {
        let f = &fields[k];
        let name = match &f.name {
            Some(n) => n.clone(),
            None => String::new(),
        };
        proof {
            assert(name@ == field_name(*f));
        }
        let fc = match CtorStructConfiguration::from_attributes(&f.attrs, CtorStructConfiguration::from_variant(&cfg, &name)) {
            Err(error) => {
                let e = CtorError::VariantAttribute { variant: k, error };
                proof {
                    lemma_union_error_stays(cfg@, fields@, k + 1, fields@.len() as int, e@);
                }
                return Err(e);
            },
            Ok(c) => c,
        };
        let ghost before = ctors_view(constructors@);
        let ghost want = Seq::new(fc@.definitions.len(), |i: int| union_constructor(k, fc@.definitions[i], *f, i as usize));
        let mut i: usize = 0;
        while i < fc.definitions.len()
            invariant
                i <= fc.definitions@.len(),
                want == Seq::new(fc@.definitions.len(), |i: int| union_constructor(k, fc@.definitions[i], *f, i as usize)),
                fc@.definitions.len() == fc.definitions@.len(),
                ctors_view(constructors@) == before + want.take(i as int),
            decreases fc.definitions@.len() - i,
        {
            let c = build_union_constructor(k, &fc.definitions[i], f, i);
            assert(fc@.definitions[i as int] == fc.definitions@[i as int]@);
            let ghost prev = ctors_view(constructors@);
            constructors.push(c);
            assert(ctors_view(constructors@) =~= prev.push(constructors@.last()@));
            assert(want.take(i + 1) =~= want.take(i as int).push(want[i as int]));
            assert(ctors_view(constructors@) =~= before + want.take(i + 1));
            i = i + 1;
        }
        assert(want.take(i as int) =~= want);
        k = k + 1;
    }
    let default_constructor = find_last_default(&constructors);
    Ok(Plan { constructors, default_constructor })
}

} // verus!
