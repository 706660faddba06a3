use derive_ctor::config::Visibility;
use derive_ctor::plan::create_struct_plan;
use derive_ctor::error::{CtorError, Level, ParseError};
use derive_ctor::field::{FieldProperty, ParamType};
use derive_ctor::plan::{Constructor, Field, Plan};
use derive_ctor::token::{Attribute, Delim, Tok};
use proc_macro2::{Delimiter, Spacing, TokenStream, TokenTree};

fn flatten(ts: TokenStream, out: &mut Vec<Tok>) {
    for tt in ts {
        match tt {
            TokenTree::Ident(i) => out.push(Tok::Ident(i.to_string())),
            TokenTree::Punct(p) => out.push(Tok::Punct(p.as_char(), p.spacing() == Spacing::Joint)),
            TokenTree::Literal(l) => out.push(Tok::Lit(l.to_string())),
            TokenTree::Group(g) => {
                let d = match g.delimiter() {
                    Delimiter::Parenthesis => Delim::Paren,
                    Delimiter::Bracket => Delim::Bracket,
                    Delimiter::Brace => Delim::Brace,
                    Delimiter::None => Delim::Invisible,
                };
                out.push(Tok::Open(d));
                flatten(g.stream(), out);
                out.push(Tok::Close(d));
            }
        }
    }
}

fn toks(src: &str) -> Vec<Tok> {
    let mut out = Vec::new();
    flatten(src.parse::<TokenStream>().unwrap(), &mut out);
    out
}


fn ctor(args: &str) -> Attribute {
    Attribute { path: "ctor".to_string(), args: Some(toks(args)) }
}

fn allow_dead_code() -> Attribute {
    Attribute { path: "allow".to_string(), args: Some(toks("dead_code")) }
}

fn field(name: Option<&str>, ty: &str, attrs: Vec<Attribute>) -> Field {
    Field { name: name.map(|n| n.to_string()), ty: toks(ty), attrs }
}

fn names(p: &Plan) -> Vec<String> {
    p.constructors.iter().map(|c| c.name.clone()).collect()
}

fn params(c: &Constructor) -> Vec<(usize, ParamType)> {
    c.parameters.iter().map(|p| (p.field, p.ty.clone())).collect()
}

fn generated(c: &Constructor) -> Vec<(usize, FieldProperty)> {
    c.generated.iter().map(|g| (g.field, g.property.clone())).collect()
}

fn plain(ty: &str) -> ParamType {
    ParamType::Plain(toks(ty))
}

fn f(name: &str, ty: &str) -> Field {
    field(Some(name), ty, vec![])
}

fn fa(name: &str, ty: &str, attr: &str) -> Field {
    field(Some(name), ty, vec![ctor(attr)])
}

fn expr(body: &str) -> FieldProperty {
    FieldProperty::Expression { expression: toks(body), input_type: None, self_referencing: false }
}

fn plan(attrs: Vec<Attribute>, fields: Vec<Field>) -> Plan {
    create_struct_plan(&attrs, &fields).unwrap()
}

#[test]
fn struct_base_test_unit_struct() {
    let p = plan(vec![], vec![]);
    assert_eq!(names(&p), vec!["new"]);
    assert!(params(&p.constructors[0]).is_empty());
    assert!(generated(&p.constructors[0]).is_empty());
    assert_eq!(p.default_constructor, None);
}

#[test]
fn struct_base_test_empty_struct_no_config() {
    let p = plan(vec![allow_dead_code()], vec![]);
    assert_eq!(names(&p), vec!["new"]);
    assert_eq!(p.constructors[0].visibility, Visibility::Public);
    assert!(!p.constructors[0].is_const);
}

#[test]
fn struct_base_test_struct_with_field() {
    let p = plan(vec![], vec![f("value", "u32")]);
    assert_eq!(params(&p.constructors[0]), vec![(0, plain("u32"))]);
}

#[test]
fn struct_base_test_struct_with_many_fields() {
    let p = plan(vec![], vec![f("value1", "u32"), f("value2", "bool")]);
    assert_eq!(names(&p), vec!["new"]);
    assert_eq!(params(&p.constructors[0]), vec![(0, plain("u32")), (1, plain("bool"))]);
    assert!(generated(&p.constructors[0]).is_empty());
}

#[test]
fn test_generic_structs() {
    let p = plan(vec![], vec![f("item", "T")]);
    assert_eq!(params(&p.constructors[0]), vec![(0, plain("T"))]);
}

#[test]
fn test_closure_structs() {
    let p = plan(vec![], vec![f("closure", "fn(usize) -> bool")]);
    assert_eq!(params(&p.constructors[0]), vec![(0, plain("fn(usize) -> bool"))]);
    let q = plan(vec![], vec![f("closure", "F")]);
    assert_eq!(params(&q.constructors[0]), vec![(0, plain("F"))]);
}

#[test]
fn test_const_struct_variations() {
    for attr in ["const new", "const pub new", "pub const new"] {
        let p = plan(vec![ctor(attr)], vec![f("value", "i32")]);
        assert_eq!(names(&p), vec!["new"]);
        assert!(p.constructors[0].is_const);
        assert_eq!(params(&p.constructors[0]), vec![(0, plain("i32"))]);
    }
    let p = plan(vec![ctor("const pub new")], vec![f("value", "i32")]);
    assert_eq!(p.constructors[0].visibility, Visibility::Public);
    let q = plan(vec![ctor("const new")], vec![f("value", "i32")]);
    assert_eq!(q.constructors[0].visibility, Visibility::Inherited);
}

#[test]
fn test_struct_with_multiple_methods() {
    let p = plan(vec![ctor("m1, pub(crate) const m2, const m3, m4")], vec![f("value", "i32")]);
    assert_eq!(names(&p), vec!["m1", "m2", "m3", "m4"]);
    assert_eq!(p.constructors.iter().map(|c| c.is_const).collect::<Vec<_>>(), vec![false, true, true, false]);
    assert_eq!(p.constructors[1].visibility, Visibility::Restricted(toks("crate")));
    for c in &p.constructors {
        assert_eq!(params(c), vec![(0, plain("i32"))]);
    }
}

#[test]
fn struct_ctor_config_test_empty_struct_config_name() {
    let p = plan(vec![ctor("init")], vec![]);
    assert_eq!(names(&p), vec!["init"]);
    assert_eq!(p.constructors[0].visibility, Visibility::Inherited);
}

#[test]
fn test_test_empty_struct_config_name() {
    let p = plan(vec![ctor("init")], vec![]);
    assert_eq!(names(&p), vec!["init"]);
    assert!(params(&p.constructors[0]).is_empty());
}

#[test]
fn struct_ctor_config_test_method_visibility() {
    let p = plan(vec![ctor("pub(crate) new")], vec![]);
    assert_eq!(names(&p), vec!["new"]);
    assert_eq!(p.constructors[0].visibility, Visibility::Restricted(toks("crate")));
}

#[test]
fn struct_ctor_config_test_empty_struct_many_methods() {
    let p = plan(vec![ctor("m1, m2")], vec![]);
    assert_eq!(names(&p), vec!["m1", "m2"]);
}

#[test]
fn test_test_empty_struct_many_methods() {
    let p = plan(vec![ctor("m1, m2")], vec![]);
    assert_eq!(names(&p), vec!["m1", "m2"]);
    assert!(p.constructors.iter().all(|c| c.parameters.is_empty()));
}

#[test]
fn struct_ctor_config_test_empty_struct_many_methods_with_visibility() {
    let p = plan(vec![ctor("pub m1, pub(crate) m2, m3")], vec![]);
    assert_eq!(names(&p), vec!["m1", "m2", "m3"]);
    assert_eq!(p.constructors[0].visibility, Visibility::Public);
    assert_eq!(p.constructors[1].visibility, Visibility::Restricted(toks("crate")));
    assert_eq!(p.constructors[2].visibility, Visibility::Inherited);
}

#[test]
fn test_test_empty_struct_many_methods_with_visibility() {
    let p = plan(vec![ctor("pub m1, pub(crate) m2, m3")], vec![]);
    assert_eq!(names(&p), vec!["m1", "m2", "m3"]);
    assert_eq!(p.constructors[1].visibility, Visibility::Restricted(toks("crate")));
}

#[test]
fn struct_ctor_config_test_field_struct_with_custom_ctor_name() {
    let p = plan(vec![ctor("init")], vec![f("value", "u32")]);
    assert_eq!(names(&p), vec!["init"]);
    assert_eq!(params(&p.constructors[0]), vec![(0, plain("u32"))]);
}

#[test]
fn test_test_field_struct_with_custom_ctor_name() {
    let p = plan(vec![ctor("init")], vec![f("value", "u32")]);
    assert_eq!(params(&p.constructors[0]), vec![(0, plain("u32"))]);
}

#[test]
fn struct_ctor_config_test_struct_with_default_ctor() {
    // `Default` is an ordinary name; the marker is `default`
    let p = plan(vec![ctor("Default")], vec![fa("name", "NoDefault", "expr(NoDefault {})"), fa("value", "i32", "default")]);
    assert_eq!(names(&p), vec!["default"]);
    assert_eq!(p.default_constructor, None);
}

#[test]
fn struct_ctor_config_default_test_struct_with_default_ctor() {
    let p = plan(vec![ctor("default")], vec![fa("name", "NoDefault", "expr(NoDefault {})"), fa("value", "i32", "default")]);
    assert_eq!(p.default_constructor, Some(0));
    let d = &p.constructors[0];
    assert!(d.is_default);
    assert!(params(d).is_empty());
    assert_eq!(generated(d), vec![(0, expr("NoDefault {}")), (1, FieldProperty::Default)]);
}

fn targeted_default() -> Plan {
    plan(
        vec![ctor("pub new, default")],
        vec![fa("name", "String", "expr(String::from(\"Default\")) = 1"), fa("value", "u32", "expr(404) = 1")],
    )
}

#[test]
fn struct_ctor_config_default_test_struct_with_targeted_field_default_ctor() {
    let p = targeted_default();
    assert_eq!(p.default_constructor, Some(1));
    assert_eq!(params(&p.constructors[0]), vec![(0, plain("String")), (1, plain("u32"))]);
    assert!(generated(&p.constructors[0]).is_empty());
    assert!(params(&p.constructors[1]).is_empty());
    assert_eq!(generated(&p.constructors[1]), vec![(0, expr("String::from(\"Default\")")), (1, expr("404"))]);
}

#[test]
fn struct_ctor_config_test_struct_with_targeted_field_default_ctor() {
    let p = targeted_default();
    assert_eq!(names(&p)[0], "new");
    assert_eq!(p.constructors[0].visibility, Visibility::Public);
    assert!(p.constructors[1].is_default);
}

#[test]
fn test_struct_implement_default_all_members() {
    let p = plan(
        vec![ctor("default(all)")],
        vec![
            f("name", "String"),
            f("value", "u32"),
            fa("no_default", "NoDefault", "expr(NoDefault {})"),
            fa("provided", "String", "into"),
            fa("adjusted", "i32", "expr!(adjusted - 10)"),
        ],
    );
    assert_eq!(p.default_constructor, Some(0));
    assert!(params(&p.constructors[0]).is_empty());
    assert_eq!(
        generated(&p.constructors[0]),
        vec![
            (0, FieldProperty::Default),
            (1, FieldProperty::Default),
            (2, expr("NoDefault {}")),
            (3, FieldProperty::Default),
            (4, FieldProperty::Default),
        ]
    );
}

#[test]
fn test_struct_with_nested_properties() {
    let p = plan(vec![ctor("with_defaults(default), new(into)")], vec![f("name", "String"), fa("value", "u32", "expr!(value + 1)")]);
    assert_eq!(names(&p), vec!["with_defaults", "new"]);
    assert!(params(&p.constructors[0]).is_empty());
    assert_eq!(generated(&p.constructors[0]), vec![(0, FieldProperty::Default), (1, FieldProperty::Default)]);
    assert_eq!(params(&p.constructors[1]), vec![(0, ParamType::IntoOf(toks("String"))), (1, plain("u32"))]);
    assert_eq!(
        generated(&p.constructors[1]),
        vec![
            (0, FieldProperty::Into),
            (1, FieldProperty::Expression { expression: toks("value + 1"), input_type: None, self_referencing: true }),
        ]
    );
}

#[test]
fn struct_field_all_test_struct_with_multiple_generated_fields() {
    let p = plan(
        vec![],
        vec![
            f("provided1", "i16"),
            f("provided2", "bool"),
            fa("provided3", "String", "into"),
            fa("provided4", "String", "cloned"),
            fa("partial1", "u32", "expr!(partial1 + 100)"),
            fa("partial2", "bool", "expr(i32 -> partial2 < 0)"),
            fa("generated1", "&'static str", "expr(\"Foo\")"),
            fa("generated2", "u32", "default"),
        ],
    );
    let c = &p.constructors[0];
    assert_eq!(
        params(c),
        vec![
            (0, plain("i16")),
            (1, plain("bool")),
            (2, ParamType::IntoOf(toks("String"))),
            (3, ParamType::Ref(toks("String"))),
            (4, plain("u32")),
            (5, plain("i32")),
        ]
    );
    assert_eq!(
        generated(c),
        vec![
            (2, FieldProperty::Into),
            (3, FieldProperty::Cloned),
            (4, FieldProperty::Expression { expression: toks("partial1 + 100"), input_type: None, self_referencing: true }),
            (5, FieldProperty::Expression { expression: toks("partial2 < 0"), input_type: Some(toks("i32")), self_referencing: false }),
            (6, expr("\"Foo\"")),
            (7, FieldProperty::Default),
        ]
    );
}

#[test]
fn test_test_struct_with_multiple_generated_fields() {
    // `value` is no field property
    let r = create_struct_plan(&vec![], &vec![f("provided", "bool"), fa("generated", "&'static str", "value(\"Foo\")")]);
    assert_eq!(r, Err(CtorError::FieldAttribute { variant: None, field: 1, error: ParseError::InvalidProperty { at: 0, level: Level::Field } }));
}

#[test]
fn test_struct_clone_field() {
    let p = plan(vec![], vec![fa("value", "String", "cloned")]);
    assert_eq!(params(&p.constructors[0]), vec![(0, ParamType::Ref(toks("String")))]);
    assert_eq!(generated(&p.constructors[0]), vec![(0, FieldProperty::Cloned)]);
}

#[test]
fn struct_field_default_test_struct_with_default_field() {
    let p = plan(vec![], vec![f("provided", "String"), fa("generated", "u32", "default")]);
    assert_eq!(params(&p.constructors[0]), vec![(0, plain("String"))]);
    assert_eq!(generated(&p.constructors[0]), vec![(1, FieldProperty::Default)]);
}

#[test]
fn test_test_struct_with_default_field() {
    let p = plan(vec![], vec![f("provided", "String"), fa("generated", "Option<u32>", "default")]);
    assert_eq!(params(&p.constructors[0]), vec![(0, plain("String"))]);
    assert_eq!(generated(&p.constructors[0]), vec![(1, FieldProperty::Default)]);
}

#[test]
fn test_struct_with_multiple_default_fields() {
    let p = plan(vec![], vec![f("provided", "String"), fa("generated1", "u32", "default"), fa("generated2", "String", "default")]);
    assert_eq!(params(&p.constructors[0]), vec![(0, plain("String"))]);
    assert_eq!(generated(&p.constructors[0]), vec![(1, FieldProperty::Default), (2, FieldProperty::Default)]);
}

#[test]
fn test_struct_expr_field() {
    let p = plan(vec![], vec![f("provided", "u32"), fa("generated", "u32", "expr(10)")]);
    assert_eq!(params(&p.constructors[0]), vec![(0, plain("u32"))]);
    assert_eq!(generated(&p.constructors[0]), vec![(1, expr("10"))]);
}

#[test]
fn test_struct_many_expr_fields() {
    let p = plan(vec![], vec![f("provided", "u32"), fa("generated1", "u32", "expr(11)"), fa("generated2", "bool", "expr(false)")]);
    assert_eq!(params(&p.constructors[0]), vec![(0, plain("u32"))]);
    assert_eq!(generated(&p.constructors[0]), vec![(1, expr("11")), (2, expr("false"))]);
}

#[test]
fn test_struct_complex_expr_field() {
    let p = plan(vec![], vec![f("provided", "u32"), fa("generated", "String", "expr(String::from(\"Foo\"))")]);
    assert_eq!(generated(&p.constructors[0]), vec![(1, expr("String::from(\"Foo\")"))]);
}

#[test]
fn test_struct_reliant_expr_field() {
    let p = plan(vec![], vec![f("provided", "u32"), fa("generated", "String", "expr(provided.to_string())")]);
    assert_eq!(params(&p.constructors[0]), vec![(0, plain("u32"))]);
    assert_eq!(generated(&p.constructors[0]), vec![(1, expr("provided.to_string()"))]);
}

#[test]
fn test_self_referencing_expr_field() {
    let p = plan(vec![], vec![fa("value", "u32", "expr!(value - 1)")]);
    assert_eq!(params(&p.constructors[0]), vec![(0, plain("u32"))]);
    assert_eq!(
        generated(&p.constructors[0]),
        vec![(0, FieldProperty::Expression { expression: toks("value - 1"), input_type: None, self_referencing: true })]
    );
}

#[test]
fn test_complex_self_referencing_expr_field() {
    let p = plan(vec![], vec![fa("n1", "u32", "expr!(n1 - n2)"), f("n2", "u32")]);
    assert_eq!(params(&p.constructors[0]), vec![(0, plain("u32")), (1, plain("u32"))]);
}

#[test]
fn test_changed_input_type() {
    let p = plan(vec![], vec![fa("value", "Box<String>", "expr(String -> Box::new(value))")]);
    assert_eq!(params(&p.constructors[0]), vec![(0, plain("String"))]);
    assert_eq!(
        generated(&p.constructors[0]),
        vec![(0, FieldProperty::Expression { expression: toks("Box::new(value)"), input_type: Some(toks("String")), self_referencing: false })]
    );
}

#[test]
fn struct_field_into_test_struct_with_impl_value() {
    let p = plan(vec![], vec![fa("provided", "String", "into"), f("other", "bool")]);
    assert_eq!(params(&p.constructors[0]), vec![(0, ParamType::IntoOf(toks("String"))), (1, plain("bool"))]);
    assert_eq!(generated(&p.constructors[0]), vec![(0, FieldProperty::Into)]);
}

#[test]
fn test_test_struct_with_impl_value() {
    // `impl` was renamed to `into`
    let r = create_struct_plan(&vec![], &vec![fa("provided", "String", "impl"), f("other", "bool")]);
    assert_eq!(r, Err(CtorError::FieldAttribute { variant: None, field: 0, error: ParseError::RenamedProperty { at: 0 } }));
}

#[test]
fn test_struct_with_many_impl() {
    let p = plan(vec![], vec![f("provided", "bool"), fa("one", "String", "into"), fa("two", "String", "into")]);
    assert_eq!(
        params(&p.constructors[0]),
        vec![(0, plain("bool")), (1, ParamType::IntoOf(toks("String"))), (2, ParamType::IntoOf(toks("String")))]
    );
}

#[test]
fn test_struct_with_field_iter() {
    let p = plan(vec![], vec![fa("collection", "HashSet<usize>", "iter(usize)")]);
    assert_eq!(params(&p.constructors[0]), vec![(0, ParamType::IterOf(toks("usize")))]);
    assert_eq!(generated(&p.constructors[0]), vec![(0, FieldProperty::Iter { iter_type: toks("usize") })]);
}

#[test]
fn test_struct_value_field() {
    let r = create_struct_plan(&vec![], &vec![f("provided", "u32"), fa("generated", "u32", "value(10)")]);
    assert_eq!(r, Err(CtorError::FieldAttribute { variant: None, field: 1, error: ParseError::InvalidProperty { at: 0, level: Level::Field } }));
}

#[test]
fn test_test_struct_with_method_field() {
    // `method` no longer exists
    let r = create_struct_plan(&vec![], &vec![f("provided", "bool"), fa("generated", "Option<Option<u32>>", "method(generation_method)")]);
    assert_eq!(r, Err(CtorError::FieldAttribute { variant: None, field: 1, error: ParseError::RemovedProperty { at: 0 } }));
}

fn targeted() -> Plan {
    plan(vec![ctor("new, new2")], vec![f("arg1", "u32"), fa("arg2", "u32", "default = [0]")])
}

#[test]
fn struct_field_specific_ctor_test_struct_with_targeted_generation() {
    let p = targeted();
    assert_eq!(params(&p.constructors[0]), vec![(0, plain("u32"))]);
    assert_eq!(generated(&p.constructors[0]), vec![(1, FieldProperty::Default)]);
    assert_eq!(params(&p.constructors[1]), vec![(0, plain("u32")), (1, plain("u32"))]);
    assert!(generated(&p.constructors[1]).is_empty());
}

#[test]
fn test_test_struct_with_targeted_generation() {
    let p = targeted();
    assert_eq!(names(&p), vec!["new", "new2"]);
}

#[test]
fn struct_field_specific_ctor_test_struct_with_multiple_targeted_generations() {
    let p = plan(
        vec![ctor("new, new2")],
        vec![fa("arg1", "String", "expr(test_method_2()) = [1]"), fa("arg2", "u32", "expr(33) = 0")],
    );
    assert_eq!(params(&p.constructors[0]), vec![(0, plain("String"))]);
    assert_eq!(generated(&p.constructors[0]), vec![(1, expr("33"))]);
    assert_eq!(params(&p.constructors[1]), vec![(1, plain("u32"))]);
    assert_eq!(generated(&p.constructors[1]), vec![(0, expr("test_method_2()"))]);
}

#[test]
fn test_test_struct_with_multiple_targeted_generations() {
    let r = create_struct_plan(
        &vec![ctor("new, new2")],
        &vec![fa("arg1", "String", "method(test_method_2) = [1]"), fa("arg2", "u32", "value(33) = [0]")],
    );
    assert_eq!(r, Err(CtorError::FieldAttribute { variant: None, field: 0, error: ParseError::RemovedProperty { at: 0 } }));
}

fn multiple_targets(first: &str, second: &str) -> Result<Plan, CtorError> {
    create_struct_plan(&vec![ctor("m1, m2, m3")], &vec![fa("arg1", "String", first), fa("arg2", "u32", second)])
}

#[test]
fn struct_field_specific_ctor_test_struct_multiple_targeted_generations_single_field() {
    let p = multiple_targets("into", "expr(5) = [0, 1]").unwrap();
    assert_eq!(names(&p), vec!["m1", "m2", "m3"]);
    assert_eq!(params(&p.constructors[0]), vec![(0, ParamType::IntoOf(toks("String")))]);
    assert_eq!(params(&p.constructors[1]), vec![(0, ParamType::IntoOf(toks("String")))]);
    assert_eq!(params(&p.constructors[2]), vec![(0, ParamType::IntoOf(toks("String"))), (1, plain("u32"))]);
    assert_eq!(generated(&p.constructors[0]), vec![(0, FieldProperty::Into), (1, expr("5"))]);
    assert_eq!(generated(&p.constructors[2]), vec![(0, FieldProperty::Into)]);
}

#[test]
fn test_test_struct_multiple_targeted_generations_single_field() {
    // `impl` and `value` are no longer accepted
    let r = multiple_targets("impl", "value(5) = [0, 1]");
    assert_eq!(r, Err(CtorError::FieldAttribute { variant: None, field: 0, error: ParseError::RenamedProperty { at: 0 } }));
}

#[test]
fn test_struct_with_custom_ctor_and_generated_field() {
    let p = plan(vec![ctor("a")], vec![f("provided", "u32"), fa("generated", "bool", "default")]);
    assert_eq!(names(&p), vec!["a"]);
    assert_eq!(params(&p.constructors[0]), vec![(0, plain("u32"))]);
    assert_eq!(generated(&p.constructors[0]), vec![(1, FieldProperty::Default)]);
}

#[test]
fn test_phantom_data_auto_excluded_as_parameter() {
    let p = plan(vec![], vec![f("value", "u32"), f("_marker", "PhantomData<u32>")]);
    assert_eq!(params(&p.constructors[0]), vec![(0, plain("u32"))]);
    assert_eq!(generated(&p.constructors[0]), vec![(1, FieldProperty::Default)]);
}

#[test]
fn test_struct_with_shorthand() {
    let p = plan(
        vec![],
        vec![
            fa("value1", "u32", "expr(100)"),
            fa("value2", "String", "cloned"),
            fa("value3", "String", "into"),
            fa("value4", "Vec<usize>", "iter(usize)"),
            fa("value5", "Option<String>", "default"),
        ],
    );
    assert_eq!(
        params(&p.constructors[0]),
        vec![(1, ParamType::Ref(toks("String"))), (2, ParamType::IntoOf(toks("String"))), (3, ParamType::IterOf(toks("usize")))]
    );
}

#[test]
fn restricted_policy_on_a_marker_field_defaults_elsewhere() {
    let p = plan(vec![ctor("m1, m2")], vec![fa("marker", "PhantomData<T>", "expr(PhantomData) = [0]")]);
    assert_eq!(generated(&p.constructors[0]), vec![(0, expr("PhantomData"))]);
    assert!(params(&p.constructors[1]).is_empty());
    assert_eq!(generated(&p.constructors[1]), vec![(0, FieldProperty::Default)]);
}

#[test]
fn two_factories_with_one_field_restricted_to_the_first() {
    let p = plan(vec![ctor("m1, m2")], vec![fa("value", "String", "cloned = [0]")]);
    assert_eq!(params(&p.constructors[0]), vec![(0, ParamType::Ref(toks("String")))]);
    assert_eq!(generated(&p.constructors[0]), vec![(0, FieldProperty::Cloned)]);
    assert_eq!(params(&p.constructors[1]), vec![(0, plain("String"))]);
    assert!(generated(&p.constructors[1]).is_empty());
}

#[test]
fn factories_with_the_same_policies_have_the_same_bodies() {
    let p = plan(vec![ctor("first, pub second")], vec![f("a", "u8"), fa("b", "String", "into"), fa("c", "u8", "default")]);
    assert_eq!(params(&p.constructors[0]), params(&p.constructors[1]));
    assert_eq!(generated(&p.constructors[0]), generated(&p.constructors[1]));
    assert_ne!(p.constructors[0].name, p.constructors[1].name);
}

#[test]
fn default_constructor_needing_parameters_reports_every_field() {
    let r = create_struct_plan(&vec![ctor("new, default")], &vec![f("a", "u8"), fa("b", "u8", "default"), fa("c", "String", "cloned")]);
    assert_eq!(r, Err(CtorError::DefaultConstructorConflict { variant: None, fields: vec![0, 2] }));
}

#[test]
fn none_generates_nothing() {
    let p = plan(vec![ctor("none")], vec![f("a", "u8")]);
    assert!(p.constructors.is_empty());
    assert_eq!(p.default_constructor, None);
}

#[test]
fn type_level_errors() {
    let bad_nested = create_struct_plan(&vec![ctor("new(every)")], &vec![]);
    assert_eq!(bad_nested, Err(CtorError::TypeAttribute { error: ParseError::InvalidProperty { at: 2, level: Level::Nested } }));
    let bad_delim = create_struct_plan(&vec![ctor("new[all]")], &vec![]);
    assert_eq!(bad_delim, Err(CtorError::TypeAttribute { error: ParseError::DelimiterMismatch { at: 1, expected: Delim::Paren } }));
    let trailing = create_struct_plan(&vec![ctor("m1,")], &vec![]);
    assert_eq!(trailing, Err(CtorError::TypeAttribute { error: ParseError::Syntax { at: 2 } }));
    let no_args = create_struct_plan(&vec![Attribute { path: "ctor".to_string(), args: None }], &vec![]);
    assert_eq!(no_args, Err(CtorError::TypeAttribute { error: ParseError::MissingArguments }));
    let keyword = create_struct_plan(&vec![ctor("fn")], &vec![]);
    assert_eq!(keyword, Err(CtorError::TypeAttribute { error: ParseError::Syntax { at: 0 } }));
}

#[test]
fn field_level_errors() {
    let brace = create_struct_plan(&vec![], &vec![fa("a", "u8", "default = {0}")]);
    assert_eq!(
        brace,
        Err(CtorError::FieldAttribute { variant: None, field: 0, error: ParseError::DelimiterMismatch { at: 2, expected: Delim::Bracket } })
    );
    let not_index = create_struct_plan(&vec![], &vec![fa("a", "u8", "default = [x]")]);
    assert_eq!(not_index, Err(CtorError::FieldAttribute { variant: None, field: 0, error: ParseError::Syntax { at: 3 } }));
    let iter_brackets = create_struct_plan(&vec![], &vec![fa("a", "Vec<u8>", "iter[u8]")]);
    assert_eq!(
        iter_brackets,
        Err(CtorError::FieldAttribute { variant: None, field: 0, error: ParseError::DelimiterMismatch { at: 1, expected: Delim::Paren } })
    );
}

#[test]
fn indices_accept_integer_literal_forms() {
    let p = plan(vec![ctor("m1, m2, m3")], vec![fa("a", "u8", "default = [0x1, 2usize]")]);
    assert_eq!(params(&p.constructors[0]), vec![(0, plain("u8"))]);
    assert!(params(&p.constructors[1]).is_empty());
    assert!(params(&p.constructors[2]).is_empty());
}

#[test]
fn out_of_range_indices_are_accepted() {
    let p = plan(vec![], vec![fa("a", "u8", "default = 7")]);
    assert_eq!(params(&p.constructors[0]), vec![(0, plain("u8"))]);
}
