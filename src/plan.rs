//! The constructor plan of a type: for every requested constructor, its
//! parameters in field order and the initializers that compute the other
//! fields.
use vstd::prelude::*;
use crate::token::{Tok, Attribute};
use crate::names::{method_name, normalize_method_name};
use crate::error::{ParseError, CtorError};
use crate::field::{
    Ambient, FieldConfig, FieldConfigView, FieldProperty, PropertyView, ParamType, ParamTypeView, field_config_of,
    opt_config_view, resolve, resolve_field, try_parse_field_attributes,
};
use crate::config::{CtorDefinition, CtorDefinitionView, Visibility, VisibilityView};

verus! {

/// A field of a struct, of an enum variant or of a union: its name (`None`
/// for a positional field), its type and its attributes.
#[derive(Clone, Debug, PartialEq, Eq)]
pub struct Field {
    pub name: Option<String>,
    pub ty: Vec<Tok>,
    pub attrs: Vec<Attribute>,
}

/// A constructor parameter, for the field at index `field`.
#[derive(Clone, Debug, PartialEq, Eq)]
pub struct ParameterField {
    pub field: usize,
    pub ty: ParamType,
}

pub struct ParameterView {
    pub field: usize,
    pub ty: ParamTypeView,
}

impl View for ParameterField {
    type V = ParameterView;

    open spec fn view(&self) -> ParameterView {
        ParameterView { field: self.field, ty: self.ty@ }
    }
}

/// An initializer: the field at index `field` gets its value as `property`
/// says, before the value is built.
#[derive(Clone, Debug, PartialEq, Eq)]
pub struct GeneratedField {
    pub field: usize,
    pub property: FieldProperty,
}

pub struct GeneratedView {
    pub field: usize,
    pub property: PropertyView,
}

impl View for GeneratedField {
    type V = GeneratedView;

    open spec fn view(&self) -> GeneratedView {
        GeneratedView { field: self.field, property: self.property@ }
    }
}

/// One generated constructor. `target` is the variant it builds, in an enum,
/// or the field it sets, in a union (0 in a struct). A constructor with
/// `is_default` is the type's `Default::default`.
#[derive(Clone, Debug, PartialEq, Eq)]
pub struct Constructor {
    pub target: usize,
    pub visibility: Visibility,
    pub name: String,
    pub is_const: bool,
    pub is_default: bool,
    pub parameters: Vec<ParameterField>,
    pub generated: Vec<GeneratedField>,
}

pub struct ConstructorView {
    pub target: usize,
    pub visibility: VisibilityView,
    pub name: Seq<char>,
    pub is_const: bool,
    pub is_default: bool,
    pub parameters: Seq<ParameterView>,
    pub generated: Seq<GeneratedView>,
}

pub open spec fn params_view(v: Seq<ParameterField>) -> Seq<ParameterView> {
    v.map_values(|p: ParameterField| p@)
}

pub open spec fn generated_view(v: Seq<GeneratedField>) -> Seq<GeneratedView> {
    v.map_values(|g: GeneratedField| g@)
}

impl View for Constructor {
    type V = ConstructorView;

    open spec fn view(&self) -> ConstructorView {
        ConstructorView {
            target: self.target,
            visibility: self.visibility@,
            name: self.name@,
            is_const: self.is_const,
            is_default: self.is_default,
            parameters: params_view(self.parameters@),
            generated: generated_view(self.generated@),
        }
    }
}

/// The constructors of a type, in the order they were requested, and the
/// position of the one that is the type's `Default::default`, if any.
#[derive(Clone, Debug, PartialEq, Eq)]
pub struct Plan {
    pub constructors: Vec<Constructor>,
    pub default_constructor: Option<usize>,
}

pub struct PlanView {
    pub constructors: Seq<ConstructorView>,
    pub default_constructor: Option<usize>,
}

pub open spec fn ctors_view(v: Seq<Constructor>) -> Seq<ConstructorView> {
    v.map_values(|c: Constructor| c@)
}

impl View for Plan {
    type V = PlanView;

    open spec fn view(&self) -> PlanView {
        PlanView { constructors: ctors_view(self.constructors@), default_constructor: self.default_constructor }
    }
}

pub enum CtorErrorView {
    TypeAttribute { error: ParseError },
    VariantAttribute { variant: usize, error: ParseError },
    FieldAttribute { variant: Option<usize>, field: usize, error: ParseError },
    DefaultConstructorConflict { variant: Option<usize>, fields: Seq<usize> },
}

impl View for CtorError {
    type V = CtorErrorView;

    open spec fn view(&self) -> CtorErrorView {
        match self {
            CtorError::TypeAttribute { error } => CtorErrorView::TypeAttribute { error: *error },
            CtorError::VariantAttribute { variant, error } => CtorErrorView::VariantAttribute { variant: *variant, error: *error },
            CtorError::FieldAttribute { variant, field, error } => CtorErrorView::FieldAttribute {
                variant: *variant,
                field: *field,
                error: *error,
            },
            CtorError::DefaultConstructorConflict { variant, fields } => CtorErrorView::DefaultConstructorConflict {
                variant: *variant,
                fields: fields@,
            },
        }
    }
}

/// The policies of the first `n` fields, or the first field whose attribute
/// is malformed.
pub open spec fn field_configs(fields: Seq<Field>, n: int) -> Result<Seq<Option<FieldConfigView>>, (usize, ParseError)>
    decreases n,
{
    if n <= 0 {
        Ok(Seq::empty())
    } else {
        match field_configs(fields, n - 1) {
            Err(e) => Err(e),
            Ok(cs) => match field_config_of(fields[n - 1].attrs@) {
                Err(e) => Err(((n - 1) as usize, e)),
                Ok(c) => Ok(cs.push(c)),
            },
        }
    }
}

/// The parameters that the first `n` fields give the constructor at `index`.
pub open spec fn params_of(fields: Seq<Field>, cs: Seq<Option<FieldConfigView>>, index: usize, ambient: Ambient, n: int) -> Seq<ParameterView>
    decreases n,
{
    if n <= 0 {
        Seq::empty()
    } else {
        let before = params_of(fields, cs, index, ambient, n - 1);
        match resolve(cs[n - 1], fields[n - 1].ty@, index, ambient).0 {
            Some(ty) => before.push(ParameterView { field: (n - 1) as usize, ty }),
            None => before,
        }
    }
}

/// The initializers that the first `n` fields give the constructor at `index`.
pub open spec fn generated_of(fields: Seq<Field>, cs: Seq<Option<FieldConfigView>>, index: usize, ambient: Ambient, n: int) -> Seq<GeneratedView>
    decreases n,
{
    if n <= 0 {
        Seq::empty()
    } else {
        let before = generated_of(fields, cs, index, ambient, n - 1);
        match resolve(cs[n - 1], fields[n - 1].ty@, index, ambient).1 {
            Some(property) => before.push(GeneratedView { field: (n - 1) as usize, property }),
            None => before,
        }
    }
}

/// The constructor that definition `d`, at position `index`, asks for.
pub open spec fn constructor_view(target: usize, d: CtorDefinitionView, fields: Seq<Field>, cs: Seq<Option<FieldConfigView>>, index: usize) -> ConstructorView {
    ConstructorView {
        target,
        visibility: d.visibility,
        name: method_name(d.ident),
        is_const: d.is_const,
        is_default: d.is_default,
        parameters: params_of(fields, cs, index, d.ambient, fields.len() as int),
        generated: generated_of(fields, cs, index, d.ambient, fields.len() as int),
    }
}

pub open spec fn constructors_of(target: usize, defs: Seq<CtorDefinitionView>, fields: Seq<Field>, cs: Seq<Option<FieldConfigView>>) -> Seq<ConstructorView> {
    Seq::new(defs.len(), |i: int| constructor_view(target, defs[i], fields, cs, i as usize))
}

/// The fields that the first default constructor with parameters would take.
pub open spec fn first_conflict(ctors: Seq<ConstructorView>) -> Option<Seq<usize>>
    decreases ctors.len(),
{
    if ctors.len() == 0 {
        None
    } else if ctors[0].is_default && ctors[0].parameters.len() > 0 {
        Some(ctors[0].parameters.map_values(|p: ParameterView| p.field))
    } else {
        first_conflict(ctors.drop_first())
    }
}

/// The position of the last default constructor.
pub open spec fn last_default(ctors: Seq<ConstructorView>) -> Option<usize>
    decreases ctors.len(),
{
    if ctors.len() == 0 {
        None
    } else if ctors.last().is_default {
        Some((ctors.len() - 1) as usize)
    } else {
        last_default(ctors.drop_last())
    }
}

pub open spec fn opt_configs_view(v: Seq<Option<FieldConfig>>) -> Seq<Option<FieldConfigView>> {
    v.map_values(|c: Option<FieldConfig>| opt_config_view(c))
}

/// Parses the `ctor` attribute of every field.
pub fn parse_field_configs(fields: &Vec<Field>) -> (r: Result<Vec<Option<FieldConfig>>, (usize, ParseError)>)
    ensures
        match r {
            Ok(cs) => field_configs(fields@, fields@.len() as int) == Ok::<Seq<Option<FieldConfigView>>, (usize, ParseError)>(opt_configs_view(cs@)),
            Err(e) => field_configs(fields@, fields@.len() as int) == Err::<Seq<Option<FieldConfigView>>, (usize, ParseError)>(e),
        },
        r matches Ok(cs) ==> cs@.len() == fields@.len(),
{
    let mut cs: Vec<Option<FieldConfig>> = Vec::new();
    let mut k: usize = 0;
    assert(opt_configs_view(cs@) =~= Seq::<Option<FieldConfigView>>::empty());
    while k < fields.len()
        invariant
            k <= fields@.len(),
            cs@.len() == k,
            field_configs(fields@, k as int) == Ok::<Seq<Option<FieldConfigView>>, (usize, ParseError)>(opt_configs_view(cs@)),
        decreases fields@.len() - k,
    {
        match try_parse_field_attributes(&fields[k].attrs) {
            Err(e) => {
                assert(field_configs(fields@, k + 1) == Err::<Seq<Option<FieldConfigView>>, (usize, ParseError)>((k, e)));
                let ghost m = k + 1;
                assert forall|j: int| m <= j <= fields@.len() implies field_configs(fields@, j) == Err::<Seq<Option<FieldConfigView>>, (usize, ParseError)>((k, e)) by {
                    lemma_configs_error_stays(fields@, m, j, (k, e));
                }
                return Err((k, e));
            },
            Ok(c) => {
                let ghost before = opt_configs_view(cs@);
                let ghost cv = opt_config_view(c);
                cs.push(c);
                assert(opt_configs_view(cs@) =~= before.push(cv));
            },
        }
        k = k + 1;
    }
    Ok(cs)
}

proof fn lemma_configs_error_stays(fields: Seq<Field>, m: int, j: int, e: (usize, ParseError))
    requires
        0 < m <= j,
        field_configs(fields, m) == Err::<Seq<Option<FieldConfigView>>, (usize, ParseError)>(e),
    ensures
        field_configs(fields, j) == Err::<Seq<Option<FieldConfigView>>, (usize, ParseError)>(e),
    decreases j - m,
{
    if j > m {
        lemma_configs_error_stays(fields, m, j - 1, e);
    }
}

/// Builds the constructor that definition `d`, at position `index`, asks for.
pub fn build_constructor(
    target: usize,
    d: &CtorDefinition,
    fields: &Vec<Field>,
    cs: &Vec<Option<FieldConfig>>,
    index: usize,
) -> (r: Constructor)
    requires
        cs@.len() == fields@.len(),
    ensures
        r@ == constructor_view(target, d@, fields@, opt_configs_view(cs@), index),
{
    let ghost cv = opt_configs_view(cs@);
    let mut parameters: Vec<ParameterField> = Vec::new();
    let mut generated: Vec<GeneratedField> = Vec::new();
    let mut k: usize = 0;
    assert(params_view(parameters@) =~= Seq::<ParameterView>::empty());
    assert(generated_view(generated@) =~= Seq::<GeneratedView>::empty());
    while k < fields.len()
        invariant
            k <= fields@.len(),
            cs@.len() == fields@.len(),
            cv == opt_configs_view(cs@),
            params_view(parameters@) == params_of(fields@, cv, index, d.ambient, k as int),
            generated_view(generated@) == generated_of(fields@, cv, index, d.ambient, k as int),
        decreases fields@.len() - k,
    {
        let (param, init) = resolve_field(&cs[k], &fields[k].ty, index, d.ambient);
        assert(cv[k as int] == opt_config_view(cs@[k as int]));
        match param {
            Some(ty) => {
                let ghost before = params_view(parameters@);
                parameters.push(ParameterField { field: k, ty });
                assert(params_view(parameters@) =~= before.push(parameters@.last()@));
            },
            None => {},
        }
        match init {
            Some(property) => {
                let ghost before = generated_view(generated@);
                generated.push(GeneratedField { field: k, property });
                assert(generated_view(generated@) =~= before.push(generated@.last()@));
            },
            None => {},
        }
        k = k + 1;
    }
    Constructor {
        target,
        visibility: d.visibility.copy(),
        name: normalize_method_name(&d.ident),
        is_const: d.is_const,
        is_default: d.is_default,
        parameters,
        generated,
    }
}

pub open spec fn defs_views(v: Seq<CtorDefinition>) -> Seq<CtorDefinitionView> {
    v.map_values(|d: CtorDefinition| d@)
}

/// Builds one constructor per definition, in order.
pub fn build_constructors(
    target: usize,
    defs: &Vec<CtorDefinition>,
    fields: &Vec<Field>,
    cs: &Vec<Option<FieldConfig>>,
) -> (r: Vec<Constructor>)
    requires
        cs@.len() == fields@.len(),
    ensures
        ctors_view(r@) == constructors_of(target, defs_views(defs@), fields@, opt_configs_view(cs@)),
{
    let ghost want = constructors_of(target, defs_views(defs@), fields@, opt_configs_view(cs@));
    let mut r: Vec<Constructor> = Vec::new();
    let mut i: usize = 0;
    while i < defs.len()
        invariant
            i <= defs@.len(),
            cs@.len() == fields@.len(),
            want == constructors_of(target, defs_views(defs@), fields@, opt_configs_view(cs@)),
            ctors_view(r@) == want.take(i as int),
        decreases defs@.len() - i,
    {
        let c = build_constructor(target, &defs[i], fields, cs, i);
        let ghost before = ctors_view(r@);
        r.push(c);
        assert(ctors_view(r@) =~= before.push(r@.last()@));
        assert(want.take(i + 1) =~= want.take(i as int).push(want[i as int]));
        i = i + 1;
    }
    assert(want.take(defs@.len() as int) =~= want);
    r
}

fn parameter_fields(c: &Constructor) -> (r: Vec<usize>)
    ensures
        r@ == c@.parameters.map_values(|p: ParameterView| p.field),
{
    let mut r: Vec<usize> = Vec::new();
    let mut i: usize = 0;
    while i < c.parameters.len()
        invariant
            i <= c.parameters@.len(),
            r@ == c@.parameters.map_values(|p: ParameterView| p.field).take(i as int),
        decreases c.parameters@.len() - i,
    {
        r.push(c.parameters[i].field);
        assert(r@ =~= c@.parameters.map_values(|p: ParameterView| p.field).take(i + 1));
        i = i + 1;
    }
    assert(r@ =~= c@.parameters.map_values(|p: ParameterView| p.field));
    r
}

/// The parameters of the first default constructor that has any.
pub fn find_conflict(ctors: &Vec<Constructor>) -> (r: Option<Vec<usize>>)
    ensures
        match r {
            Some(v) => first_conflict(ctors_view(ctors@)) == Some(v@),
            None => first_conflict(ctors_view(ctors@)) is None,
        },
{
    let ghost all = ctors_view(ctors@);
    let mut i: usize = 0;
    assert(all.skip(0) =~= all);
    while i < ctors.len()
        invariant
            i <= ctors@.len(),
            all == ctors_view(ctors@),
            first_conflict(all) == first_conflict(all.skip(i as int)),
        decreases ctors@.len() - i,
    {
        assert(all.skip(i as int)[0] == ctors@[i as int]@);
        if ctors[i].is_default && ctors[i].parameters.len() > 0 {
            return Some(parameter_fields(&ctors[i]));
        }
        assert(all.skip(i as int).drop_first() =~= all.skip(i + 1));
        i = i + 1;
    }
    None
}

/// The position of the last default constructor.
pub fn find_last_default(ctors: &Vec<Constructor>) -> (r: Option<usize>)
    ensures
        r == last_default(ctors_view(ctors@)),
{
    let ghost all = ctors_view(ctors@);
    let mut i: usize = ctors.len();
    assert(all.take(i as int) =~= all);
    while i > 0
        invariant
            i <= ctors@.len(),
            all == ctors_view(ctors@),
            last_default(all) == last_default(all.take(i as int)),
        decreases i,
    {
        assert(all.take(i as int).last() == ctors@[i - 1]@);
        if ctors[i - 1].is_default {
            return Some(i - 1);
        }
        assert(all.take(i as int).drop_last() =~= all.take(i - 1));
        i = i - 1;
    }
    None
}

/// The plan for the constructors that `defs` request, building target
/// `target` from `fields` with policies `cs`: the conflict of a default
/// constructor that needs parameters, else the constructors.
pub open spec fn plan_for(
    target: usize,
    variant: Option<usize>,
    defs: Seq<CtorDefinitionView>,
    fields: Seq<Field>,
    cs: Seq<Option<FieldConfigView>>,
) -> Result<PlanView, CtorErrorView> {
    let ctors = constructors_of(target, defs, fields, cs);
    match first_conflict(ctors) {
        Some(fs) => Err(CtorErrorView::DefaultConstructorConflict { variant, fields: fs }),
        None => Ok(PlanView { constructors: ctors, default_constructor: last_default(ctors) }),
    }
}

/// The plan for a struct with attributes `attrs` and fields `fields`.
pub open spec fn struct_plan(attrs: Seq<Attribute>, fields: Seq<Field>) -> Result<PlanView, CtorErrorView> {
    match crate::config::configuration_of(attrs, crate::config::default_configuration()) {
        Err(error) => Err(CtorErrorView::TypeAttribute { error }),
        Ok(cfg) => match field_configs(fields, fields.len() as int) {
            Err((field, error)) => Err(CtorErrorView::FieldAttribute { variant: None, field, error }),
            Ok(cs) => plan_for(0, None, cfg.definitions, fields, cs),
        },
    }
}

pub open spec fn plan_result_view(r: Result<Plan, CtorError>) -> Result<PlanView, CtorErrorView> {
    match r {
        Ok(p) => Ok(p@),
        Err(e) => Err(e@),
    }
}

pub(crate) fn make_plan(target: usize, variant: Option<usize>, defs: &Vec<CtorDefinition>, fields: &Vec<Field>, cs: &Vec<Option<FieldConfig>>) -> (r: Result<Plan, CtorError>)
    requires
        cs@.len() == fields@.len(),
    ensures
        plan_result_view(r) == plan_for(target, variant, defs_views(defs@), fields@, opt_configs_view(cs@)),
{
    let constructors = build_constructors(target, defs, fields, cs);
    match find_conflict(&constructors) {
        Some(fields) => Err(CtorError::DefaultConstructorConflict { variant, fields }),
        None => {
            let default_constructor = find_last_default(&constructors);
            Ok(Plan { constructors, default_constructor })
        },
    }
}

/// The constructors of a struct: one per entry of its `ctor` attribute (one
/// public `new` where it has none), each taking as parameters, in field
/// order, the fields that its policies do not compute.
pub fn create_struct_plan(attrs: &Vec<Attribute>, fields: &Vec<Field>) -> (r: Result<Plan, CtorError>)
    ensures
        plan_result_view(r) == struct_plan(attrs@, fields@),
{
    let cfg = match crate::config::CtorStructConfiguration::from_attributes(attrs, crate::config::CtorStructConfiguration::default()) {
        Err(error) => {
            return Err(CtorError::TypeAttribute { error });
        },
        Ok(c) => c,
    };
    let cs = match parse_field_configs(fields) {
        Err((field, error)) => {
            return Err(CtorError::FieldAttribute { variant: None, field, error });
        },
        Ok(cs) => cs,
    };
    proof {
        assert(cfg@.definitions == defs_views(cfg.definitions@));
    }
    make_plan(0, None, &cfg.definitions, fields, &cs)
}

} // verus!
