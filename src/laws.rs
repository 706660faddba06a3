//! Laws of constructor generation, proved over the specifications of the
//! parsers and of the plan builders.
use vstd::prelude::*;
use crate::token::{Attribute, ctor_args, marks_phantom};
use crate::names::method_name;
use crate::field::{Ambient, FieldConfigView, PropertyView, ParamTypeView, resolve};
use crate::config::{CtorDefinitionView, VisibilityView, default_configuration};
use crate::plan::{
    ConstructorView, Field, ParameterView, GeneratedView, constructor_view, constructors_of,
    field_configs, first_conflict, generated_of, last_default, params_of, plan_for, struct_plan,
};

verus! {

/// The policy applies to the constructor at `index`.
pub open spec fn applies(c: FieldConfigView, index: usize) -> bool {
    c.applications.len() == 0 || c.applications.contains(index)
}

proof fn lemma_configs_none(fields: Seq<Field>, n: int)
    requires
        0 <= n <= fields.len(),
        forall|k: int| 0 <= k < fields.len() ==> ctor_args(#[trigger] fields[k].attrs@) is None,
    ensures
        field_configs(fields, n) == Ok::<Seq<Option<FieldConfigView>>, (usize, crate::error::ParseError)>(
            Seq::new(n as nat, |k: int| None::<FieldConfigView>),
        ),
    decreases n,
{
    if n > 0 {
        lemma_configs_none(fields, n - 1);
        assert(ctor_args(fields[n - 1].attrs@) is None);
        assert(Seq::new((n - 1) as nat, |k: int| None::<FieldConfigView>).push(None) =~= Seq::new(n as nat, |k: int| None::<FieldConfigView>));
    } else {
        assert(Seq::new(0, |k: int| None::<FieldConfigView>) =~= Seq::<Option<FieldConfigView>>::empty());
    }
}

proof fn lemma_identity_params(fields: Seq<Field>, cs: Seq<Option<FieldConfigView>>, index: usize, ambient: Ambient, n: int)
    requires
        0 <= n <= fields.len(),
        cs.len() == fields.len(),
        !ambient.default_all,
        !ambient.into_all,
        forall|k: int| 0 <= k < fields.len() ==> (#[trigger] cs[k]) is None && !marks_phantom(fields[k].ty@),
    ensures
        params_of(fields, cs, index, ambient, n) == Seq::new(
            n as nat,
            |k: int| ParameterView { field: k as usize, ty: ParamTypeView::Plain(fields[k].ty@) },
        ),
        generated_of(fields, cs, index, ambient, n) == Seq::<GeneratedView>::empty(),
    decreases n,
{
    if n > 0 {
        lemma_identity_params(fields, cs, index, ambient, n - 1);
        assert(cs[n - 1] is None);
        assert(Seq::new((n - 1) as nat, |k: int| ParameterView { field: k as usize, ty: ParamTypeView::Plain(fields[k].ty@) }).push(
            ParameterView { field: (n - 1) as usize, ty: ParamTypeView::Plain(fields[n - 1].ty@) },
        ) =~= Seq::new(n as nat, |k: int| ParameterView { field: k as usize, ty: ParamTypeView::Plain(fields[k].ty@) }));
    } else {
        assert(Seq::new(0, |k: int| ParameterView { field: k as usize, ty: ParamTypeView::Plain(fields[k].ty@) }) =~= Seq::<ParameterView>::empty());
    }
}

/// A field without a policy, in a constructor without the `default` or `into`
/// modifiers, is a parameter of its declared type, and nothing computes it
/// (a zero-sized marker type excepted).
pub proof fn law_unconfigured_field_is_parameter(ty: Seq<crate::token::Tok>, index: usize, ambient: Ambient)
    requires
        !ambient.default_all,
        !ambient.into_all,
        !marks_phantom(ty),
    ensures
        resolve(None, ty, index, ambient) == (Some(ParamTypeView::Plain(ty)), None::<PropertyView>),
{
}

/// The parameters of a constructor whose fields have no policy (none of them a
/// marker type), and that has neither the `default` nor the `into` modifier,
/// are the fields themselves: one per field, in declaration order, each with
/// the field's declared type. Nothing is computed.
pub proof fn law_pass_through(fields: Seq<Field>, d: CtorDefinitionView, index: usize)
    requires
        !d.ambient.default_all,
        !d.ambient.into_all,
        forall|k: int| 0 <= k < fields.len() ==> ctor_args(#[trigger] fields[k].attrs@) is None && !marks_phantom(fields[k].ty@),
    ensures
        field_configs(fields, fields.len() as int) matches Ok(cs) && constructor_view(0, d, fields, cs, index).parameters == Seq::new(
            fields.len(),
            |k: int| ParameterView { field: k as usize, ty: ParamTypeView::Plain(fields[k].ty@) },
        ) && constructor_view(0, d, fields, cs, index).generated.len() == 0,
{
    lemma_configs_none(fields, fields.len() as int);
    let cs = Seq::new(fields.len(), |k: int| None::<FieldConfigView>);
    assert forall|k: int| 0 <= k < fields.len() implies (#[trigger] cs[k]) is None && !marks_phantom(fields[k].ty@) by {
        assert(ctor_args(fields[k].attrs@) is None);
    }
    lemma_identity_params(fields, cs, index, d.ambient, fields.len() as int);
}

/// A struct without any `ctor` attribute and without marker fields gets one
/// public constructor, `new`, that takes its fields as they are.
pub proof fn law_default_struct(attrs: Seq<Attribute>, fields: Seq<Field>)
    requires
        ctor_args(attrs) is None,
        forall|k: int| 0 <= k < fields.len() ==> ctor_args(#[trigger] fields[k].attrs@) is None && !marks_phantom(fields[k].ty@),
    ensures
        struct_plan(attrs, fields) matches Ok(p) && p.constructors.len() == 1 && p.default_constructor is None
            && p.constructors[0].name == method_name("new"@) && p.constructors[0].visibility == VisibilityView::Public
            && p.constructors[0].parameters == Seq::new(
            fields.len(),
            |k: int| ParameterView { field: k as usize, ty: ParamTypeView::Plain(fields[k].ty@) },
        ) && p.constructors[0].generated.len() == 0,
{
    let d = default_configuration().definitions[0];
    law_pass_through(fields, d, 0);
    lemma_configs_none(fields, fields.len() as int);
    let cs = Seq::new(fields.len(), |k: int| None::<FieldConfigView>);
    let ctors = constructors_of(0, default_configuration().definitions, fields, cs);
    assert(ctors.len() == 1);
    assert(ctors[0] == constructor_view(0, d, fields, cs, 0));
    assert(first_conflict(ctors.drop_first()) is None);
    assert(last_default(ctors.drop_last()) is None);
}

proof fn lemma_field_entries(fields: Seq<Field>, cs: Seq<Option<FieldConfigView>>, index: usize, ambient: Ambient, n: int, k: int)
    requires
        0 <= k < n <= fields.len(),
        cs.len() == fields.len() <= usize::MAX,
    ensures
        resolve(cs[k], fields[k].ty@, index, ambient).0 matches Some(ty) ==> params_of(fields, cs, index, ambient, n).contains(
            ParameterView { field: k as usize, ty },
        ),
        resolve(cs[k], fields[k].ty@, index, ambient).0 is None ==> forall|j: int|
            0 <= j < params_of(fields, cs, index, ambient, n).len() ==> (#[trigger] params_of(fields, cs, index, ambient, n)[j]).field != k,
        resolve(cs[k], fields[k].ty@, index, ambient).1 matches Some(property) ==> generated_of(fields, cs, index, ambient, n).contains(
            GeneratedView { field: k as usize, property },
        ),
        resolve(cs[k], fields[k].ty@, index, ambient).1 is None ==> forall|j: int|
            0 <= j < generated_of(fields, cs, index, ambient, n).len() ==> (#[trigger] generated_of(fields, cs, index, ambient, n)[j]).field != k,
    decreases n,
{
    lemma_fields_below(fields, cs, index, ambient, n - 1);
    if k < n - 1 {
        lemma_field_entries(fields, cs, index, ambient, n - 1, k);
        let before = params_of(fields, cs, index, ambient, n - 1);
        let gbefore = generated_of(fields, cs, index, ambient, n - 1);
        if let Some(ty) = resolve(cs[k], fields[k].ty@, index, ambient).0 {
            let i = choose|i: int| 0 <= i < before.len() && before[i] == ParameterView { field: k as usize, ty };
            assert(params_of(fields, cs, index, ambient, n)[i] == before[i]);
        }
        if let Some(property) = resolve(cs[k], fields[k].ty@, index, ambient).1 {
            let i = choose|i: int| 0 <= i < gbefore.len() && gbefore[i] == GeneratedView { field: k as usize, property };
            assert(generated_of(fields, cs, index, ambient, n)[i] == gbefore[i]);
        }
        let all = params_of(fields, cs, index, ambient, n);
        let gall = generated_of(fields, cs, index, ambient, n);
        assert forall|j: int| 0 <= j < all.len() && j >= before.len() implies all[j].field == n - 1 by {}
        assert forall|j: int| 0 <= j < all.len() && j < before.len() implies all[j] == before[j] by {}
        assert forall|j: int| 0 <= j < gall.len() && j >= gbefore.len() implies gall[j].field == n - 1 by {}
        assert forall|j: int| 0 <= j < gall.len() && j < gbefore.len() implies gall[j] == gbefore[j] by {}
    } else {
        let before = params_of(fields, cs, index, ambient, n - 1);
        let gbefore = generated_of(fields, cs, index, ambient, n - 1);
        let all = params_of(fields, cs, index, ambient, n);
        let gall = generated_of(fields, cs, index, ambient, n);
        if let Some(ty) = resolve(cs[k], fields[k].ty@, index, ambient).0 {
            assert(all[all.len() - 1] == ParameterView { field: k as usize, ty });
        }
        if let Some(property) = resolve(cs[k], fields[k].ty@, index, ambient).1 {
            assert(gall[gall.len() - 1] == GeneratedView { field: k as usize, property });
        }
        assert forall|j: int| 0 <= j < all.len() && j < before.len() implies all[j] == before[j] by {}
        assert forall|j: int| 0 <= j < gall.len() && j < gbefore.len() implies gall[j] == gbefore[j] by {}
    }
}

proof fn lemma_fields_below(fields: Seq<Field>, cs: Seq<Option<FieldConfigView>>, index: usize, ambient: Ambient, n: int)
    requires
        0 <= n <= fields.len(),
        cs.len() == fields.len(),
    ensures
        forall|j: int| 0 <= j < params_of(fields, cs, index, ambient, n).len() ==> (#[trigger] params_of(fields, cs, index, ambient, n)[j]).field < n,
        forall|j: int| 0 <= j < generated_of(fields, cs, index, ambient, n).len() ==> (#[trigger] generated_of(fields, cs, index, ambient, n)[j]).field < n,
    decreases n,
{
    if n > 0 {
        lemma_fields_below(fields, cs, index, ambient, n - 1);
    }
}

/// A field configured `cloned`, in a constructor that its policy applies to
/// and that has no `default` modifier, is a parameter borrowing the field's
/// type, and is initialized by cloning it.
pub proof fn law_cloned_field(fields: Seq<Field>, cs: Seq<Option<FieldConfigView>>, d: CtorDefinitionView, index: usize, k: int)
    requires
        cs.len() == fields.len() <= usize::MAX,
        0 <= k < fields.len(),
        cs[k] matches Some(c) && c.property == PropertyView::Cloned && applies(c, index),
        !d.ambient.default_all,
    ensures
        constructor_view(0, d, fields, cs, index).parameters.contains(ParameterView { field: k as usize, ty: ParamTypeView::Ref(fields[k].ty@) }),
        constructor_view(0, d, fields, cs, index).generated.contains(GeneratedView { field: k as usize, property: PropertyView::Cloned }),
{
    lemma_field_entries(fields, cs, index, d.ambient, fields.len() as int, k);
}

/// A field configured `into`, in a constructor that its policy applies to
/// and that has no `default` modifier, is a parameter of any type convertible
/// into the field's type, and is initialized by converting it.
pub proof fn law_into_field(fields: Seq<Field>, cs: Seq<Option<FieldConfigView>>, d: CtorDefinitionView, index: usize, k: int)
    requires
        cs.len() == fields.len() <= usize::MAX,
        0 <= k < fields.len(),
        cs[k] matches Some(c) && c.property == PropertyView::Into && applies(c, index),
        !d.ambient.default_all,
    ensures
        constructor_view(0, d, fields, cs, index).parameters.contains(ParameterView { field: k as usize, ty: ParamTypeView::IntoOf(fields[k].ty@) }),
        constructor_view(0, d, fields, cs, index).generated.contains(GeneratedView { field: k as usize, property: PropertyView::Into }),
{
    lemma_field_entries(fields, cs, index, d.ambient, fields.len() as int, k);
}

/// A field configured `iter(T)`, in a constructor that its policy applies to
/// and that has no `default` modifier, is a parameter of any iterable of `T`,
/// and is initialized by collecting it.
pub proof fn law_iter_field(
    fields: Seq<Field>,
    cs: Seq<Option<FieldConfigView>>,
    d: CtorDefinitionView,
    index: usize,
    k: int,
    elem: Seq<crate::token::Tok>,
)
    requires
        cs.len() == fields.len() <= usize::MAX,
        0 <= k < fields.len(),
        cs[k] matches Some(c) && c.property == (PropertyView::Iter { iter_type: elem }) && applies(c, index),
        !d.ambient.default_all,
    ensures
        constructor_view(0, d, fields, cs, index).parameters.contains(ParameterView { field: k as usize, ty: ParamTypeView::IterOf(elem) }),
        constructor_view(0, d, fields, cs, index).generated.contains(
            GeneratedView { field: k as usize, property: PropertyView::Iter { iter_type: elem } },
        ),
{
    lemma_field_entries(fields, cs, index, d.ambient, fields.len() as int, k);
}

/// A policy restricted to other constructors leaves the field, in this one,
/// as if it had none: a parameter of its declared type that nothing
/// computes; a marker type instead takes its default value and is no
/// parameter.
pub proof fn law_policy_elsewhere(fields: Seq<Field>, cs: Seq<Option<FieldConfigView>>, d: CtorDefinitionView, index: usize, k: int)
    requires
        cs.len() == fields.len() <= usize::MAX,
        0 <= k < fields.len(),
        cs[k] matches Some(c) && !applies(c, index),
        !d.ambient.default_all,
    ensures
        !marks_phantom(fields[k].ty@) ==> constructor_view(0, d, fields, cs, index).parameters.contains(
            ParameterView { field: k as usize, ty: ParamTypeView::Plain(fields[k].ty@) },
        ),
        !marks_phantom(fields[k].ty@) ==> forall|j: int|
            0 <= j < constructor_view(0, d, fields, cs, index).generated.len() ==> (#[trigger] constructor_view(0, d, fields, cs, index).generated[j]).field != k,
        marks_phantom(fields[k].ty@) ==> constructor_view(0, d, fields, cs, index).generated.contains(
            GeneratedView { field: k as usize, property: PropertyView::Default },
        ),
        marks_phantom(fields[k].ty@) ==> forall|j: int|
            0 <= j < constructor_view(0, d, fields, cs, index).parameters.len() ==> (#[trigger] constructor_view(0, d, fields, cs, index).parameters[j]).field != k,
{
    lemma_field_entries(fields, cs, index, d.ambient, fields.len() as int, k);
}

proof fn lemma_same_resolution(fields: Seq<Field>, cs: Seq<Option<FieldConfigView>>, i: usize, j: usize, ambient: Ambient, n: int)
    requires
        0 <= n <= fields.len(),
        cs.len() == fields.len(),
        forall|k: int| 0 <= k < fields.len() ==> (#[trigger] cs[k] matches Some(c) ==> (applies(c, i) == applies(c, j))),
    ensures
        params_of(fields, cs, i, ambient, n) == params_of(fields, cs, j, ambient, n),
        generated_of(fields, cs, i, ambient, n) == generated_of(fields, cs, j, ambient, n),
    decreases n,
{
    if n > 0 {
        lemma_same_resolution(fields, cs, i, j, ambient, n - 1);
        assert(cs[n - 1] matches Some(c) ==> (applies(c, i) == applies(c, j)));
        assert(resolve(cs[n - 1], fields[n - 1].ty@, i, ambient) == resolve(cs[n - 1], fields[n - 1].ty@, j, ambient));
    }
}

/// Two constructors with the same modifiers, at positions that no field
/// policy tells apart, have the same parameters and the same initializers:
/// they differ only in name, visibility and `const`.
pub proof fn law_same_policies_same_bodies(
    fields: Seq<Field>,
    cs: Seq<Option<FieldConfigView>>,
    d1: CtorDefinitionView,
    i: usize,
    d2: CtorDefinitionView,
    j: usize,
)
    requires
        cs.len() == fields.len(),
        d1.ambient == d2.ambient,
        d1.is_default == d2.is_default,
        forall|k: int| 0 <= k < fields.len() ==> (#[trigger] cs[k] matches Some(c) ==> (applies(c, i) == applies(c, j))),
    ensures
        constructor_view(0, d1, fields, cs, i).parameters == constructor_view(0, d2, fields, cs, j).parameters,
        constructor_view(0, d1, fields, cs, i).generated == constructor_view(0, d2, fields, cs, j).generated,
        constructor_view(0, d1, fields, cs, i).is_default == constructor_view(0, d2, fields, cs, j).is_default,
{
    lemma_same_resolution(fields, cs, i, j, d1.ambient, fields.len() as int);
}

proof fn lemma_conflict_found(ctors: Seq<ConstructorView>, i: int)
    requires
        0 <= i < ctors.len(),
        ctors[i].is_default,
        ctors[i].parameters.len() > 0,
    ensures
        first_conflict(ctors) is Some,
    decreases i,
{
    if !(ctors[0].is_default && ctors[0].parameters.len() > 0) {
        assert(ctors.drop_first()[i - 1] == ctors[i]);
        lemma_conflict_found(ctors.drop_first(), i - 1);
    }
}

proof fn lemma_last_default(ctors: Seq<ConstructorView>)
    requires
        ctors.len() <= usize::MAX,
    ensures
        last_default(ctors) matches Some(i) ==> i < ctors.len() && ctors[i as int].is_default,
    decreases ctors.len(),
{
    if ctors.len() > 0 && !ctors.last().is_default {
        lemma_last_default(ctors.drop_last());
        if let Some(i) = last_default(ctors.drop_last()) {
            assert(ctors.drop_last()[i as int] == ctors[i as int]);
        }
    }
}

proof fn lemma_no_conflict(ctors: Seq<ConstructorView>, i: int)
    requires
        0 <= i < ctors.len(),
        ctors[i].is_default,
        first_conflict(ctors) is None,
    ensures
        ctors[i].parameters.len() == 0,
{
    if ctors[i].parameters.len() > 0 {
        lemma_conflict_found(ctors, i);
    }
}

/// The default constructor takes no argument, and computes every field as the
/// same definition would as an ordinary named constructor; a default
/// constructor that would need a parameter makes the whole type a
/// conflict diagnostic instead.
pub proof fn law_default_constructor(
    target: usize,
    variant: Option<usize>,
    defs: Seq<CtorDefinitionView>,
    fields: Seq<Field>,
    cs: Seq<Option<FieldConfigView>>,
    i: int,
)
    requires
        0 <= i < defs.len() <= usize::MAX,
        defs[i].is_default,
    ensures
        plan_for(target, variant, defs, fields, cs) matches Ok(p) ==> (p.constructors[i].parameters.len() == 0
            && p.constructors[i].generated == constructor_view(
            target,
            CtorDefinitionView { is_default: false, ..defs[i] },
            fields,
            cs,
            i as usize,
        ).generated),
        plan_for(target, variant, defs, fields, cs) matches Ok(p) ==> (p.default_constructor matches Some(j) && j < p.constructors.len()
            && p.constructors[j as int].is_default && p.constructors[j as int].parameters.len() == 0),
        constructor_view(target, defs[i], fields, cs, i as usize).parameters.len() > 0 ==> plan_for(target, variant, defs, fields, cs) is Err,
{
    let ctors = constructors_of(target, defs, fields, cs);
    assert(ctors[i] == constructor_view(target, defs[i], fields, cs, i as usize));
    if ctors[i].parameters.len() > 0 {
        lemma_conflict_found(ctors, i);
    }
    if first_conflict(ctors) is None {
        lemma_no_conflict(ctors, i);
        lemma_last_default(ctors);
        let j = last_default(ctors);
        if j is None {
            lemma_last_default_exists(ctors, i);
        }
        let jj = j->Some_0;
        lemma_no_conflict(ctors, jj as int);
    }
}

proof fn lemma_last_default_exists(ctors: Seq<ConstructorView>, i: int)
    requires
        0 <= i < ctors.len(),
        ctors[i].is_default,
    ensures
        last_default(ctors) is Some,
    decreases ctors.len(),
{
    if !ctors.last().is_default {
        assert(ctors.drop_last()[i] == ctors[i]);
        lemma_last_default_exists(ctors.drop_last(), i);
    }
}

} // verus!
