use std::sync::Arc;

use rudi::derive_plan::{plan_derive, DeriveShape, FieldsShape, FieldsStyle};
use rudi::inject_plan::{plan_inject, InjectInputShape, InjectPlan};
use rudi::injectable_plan::{
    plan_injectable, plan_port, plan_return, FnShape, ImplItemShape, ImplShape, InputShape, ParamPlan,
    ParamShape, PortPlan, ReturnPlan, ReturnShape,
};
use rudi::markers::{find_marker, unmarked_positions, Marker, SpanTarget};
use rudi::type_shape::{
    plan_collect, plan_field, ArgsShape, CollectPlan, FieldPlan, GenericArgShape, SegmentShape, TypeForm,
    TypeShape,
};

fn path(id: usize, ident: &str, args: Vec<TypeShape>) -> TypeShape {
    let args = if args.is_empty() {
        ArgsShape::Plain
    } else {
        ArgsShape::Angle(args.into_iter().map(GenericArgShape::Type).collect())
    };
    TypeShape {
        id,
        form: TypeForm::Path(Some(SegmentShape { ident: ident.to_string(), args })),
    }
}

fn dyn_ty(id: usize) -> TypeShape {
    TypeShape { id, form: TypeForm::TraitObject }
}

fn reference(id: usize) -> TypeShape {
    TypeShape { id, form: TypeForm::Reference }
}

fn attrs(names: &[&str]) -> Vec<Option<String>> {
    names.iter().map(|n| Some(n.to_string())).collect()
}

fn param(marks: &[&str], ty: TypeShape) -> InputShape {
    InputShape::Typed(ParamShape { attrs: attrs(marks), ty })
}

fn func(ident: &str, inputs: Vec<InputShape>, output: ReturnShape) -> ImplItemShape {
    ImplItemShape::Fn(FnShape { ident: ident.to_string(), is_async: false, inputs, output })
}

fn returns_self() -> ReturnShape {
    ReturnShape::Type(path(90, "Self", vec![]))
}

#[derive(Debug)]
struct MyConfig {
    level: String,
}

struct Adapter {
    config: Arc<MyConfig>,
}

impl Adapter {
    fn build(config: Arc<MyConfig>) -> Self {
        Self { config }
    }
}

/// The shape of `impl Adapter { fn build(#[inject] config: Arc<MyConfig>) -> Self }`.
fn adapter_impl() -> ImplShape {
    ImplShape {
        is_trait_impl: false,
        has_port_argument: false,
        items: vec![func(
            "build",
            vec![param(&["inject"], path(1, "Arc", vec![path(2, "MyConfig", vec![])]))],
            returns_self(),
        )],
    }
}

#[test]
fn ctor_is_callable_manually_without_await() {
    let config = Arc::new(MyConfig {
        level: "manual".into(),
    });
    let adapter = Adapter { config };
    assert_eq!(adapter.config.level, "manual");

    // The decorated constructor stays as written: synchronous, returning `Self`, with
    // only its marker attribute taken away.
    let plan = plan_injectable(&adapter_impl()).ok().unwrap();
    assert_eq!(plan.ctor, 0);
    assert!(!plan.is_async);
    assert_eq!(plan.params, vec![ParamPlan::Inject(FieldPlan { optional: false, flatten: false, target: 2 })]);
    assert_eq!(plan.kept_attrs, vec![Vec::<usize>::new()]);
    assert_eq!(plan.ret, ReturnPlan::Bare);
    let built = Adapter::build(Arc::new(MyConfig { level: "built".into() }));
    assert_eq!(built.config.level, "built");
}

#[test]
fn injectable_port_is_the_argument_when_given() {
    let plain = plan_injectable(&adapter_impl()).ok().unwrap();
    assert_eq!(plain.port, PortPlan::SelfType);
    let mut with_port = adapter_impl();
    with_port.has_port_argument = true;
    let ported = plan_injectable(&with_port).ok().unwrap();
    assert_eq!(ported.port, PortPlan::Argument);
    assert_eq!(plan_port(false), PortPlan::SelfType);
    assert_eq!(plan_port(true), PortPlan::Argument);
}

#[test]
fn markers_are_read_from_the_first_marker_attribute() {
    assert_eq!(find_marker(&attrs(&["doc", "inject"])), Some(Marker::Inject));
    assert_eq!(find_marker(&attrs(&["inject_all", "container"])), Some(Marker::InjectAll));
    assert_eq!(find_marker(&attrs(&["container"])), Some(Marker::Container));
    assert_eq!(find_marker(&vec![None, Some("allow".to_string())]), None);
    assert_eq!(unmarked_positions(&attrs(&["doc", "inject", "allow"])), vec![0, 2]);
}

#[test]
fn field_of_concrete_arc_resolves_the_inner_type() {
    let t = path(1, "Arc", vec![path(2, "Config", vec![])]);
    assert_eq!(plan_field(&t), Some(FieldPlan { optional: false, flatten: false, target: 2 }));
}

#[test]
fn field_of_trait_object_arc_resolves_the_arc_and_flattens() {
    let t = path(1, "Arc", vec![dyn_ty(2)]);
    assert_eq!(plan_field(&t), Some(FieldPlan { optional: false, flatten: true, target: 1 }));
}

#[test]
fn optional_fields_resolve_optionally() {
    let concrete = path(1, "Option", vec![path(2, "Arc", vec![path(3, "Config", vec![])])]);
    assert_eq!(plan_field(&concrete), Some(FieldPlan { optional: true, flatten: false, target: 3 }));
    let port = path(1, "Option", vec![path(2, "Arc", vec![dyn_ty(3)])]);
    assert_eq!(plan_field(&port), Some(FieldPlan { optional: true, flatten: true, target: 2 }));
}

#[test]
fn other_field_shapes_are_refused() {
    assert_eq!(plan_field(&path(1, "String", vec![])), None);
    assert_eq!(plan_field(&path(1, "Option", vec![path(2, "String", vec![])])), None);
    assert_eq!(plan_field(&reference(1)), None);
}

#[test]
fn vec_of_arc_collects() {
    let t = path(1, "Vec", vec![path(2, "Arc", vec![dyn_ty(3)])]);
    assert_eq!(plan_collect(&t), Some(CollectPlan { flatten: true, target: 2 }));
    let c = path(1, "Vec", vec![path(2, "Arc", vec![path(3, "Ping", vec![])])]);
    assert_eq!(plan_collect(&c), Some(CollectPlan { flatten: false, target: 3 }));
    assert_eq!(plan_collect(&path(1, "Vec", vec![path(2, "Ping", vec![])])), None);
}

#[test]
fn return_types() {
    assert_eq!(plan_return(&returns_self(), 0).unwrap(), ReturnPlan::Bare);
    let fallible = ReturnShape::Type(path(5, "Result", vec![path(6, "Self", vec![]), path(7, "BoomError", vec![])]));
    assert_eq!(plan_return(&fallible, 0).unwrap(), ReturnPlan::Fallible { error_type: 7 });
    let short = ReturnShape::Type(path(5, "Result", vec![path(6, "Self", vec![])]));
    let e = plan_return(&short, 0).unwrap_err();
    assert_eq!(e.message, "Result do construtor deve ter 2 parâmetros de tipo: Result<Self, Error>");
    assert_eq!(e.span, SpanTarget::Type(5));
    let none = plan_return(&ReturnShape::Default, 3).unwrap_err();
    assert_eq!(none.message, "construtor deve retornar `Self` ou `Result<Self, E>`");
    assert_eq!(none.span, SpanTarget::Output(3));
}

#[test]
fn injectable_refuses_trait_impls() {
    let imp = ImplShape { is_trait_impl: true, has_port_argument: false, items: vec![] };
    let e = plan_injectable(&imp).err().unwrap();
    assert_eq!(
        e.message,
        "#[injectable] deve decorar `impl Tipo { ... }` sem trait (não `impl Trait for Tipo`)"
    );
    assert_eq!(e.span, SpanTarget::Item);
}

#[test]
fn injectable_requires_a_constructor() {
    let imp = ImplShape {
        is_trait_impl: false,
        has_port_argument: false,
        items: vec![
            func("label", vec![InputShape::Receiver], returns_self()),
            func("helper", vec![param(&["doc"], path(1, "u32", vec![]))], returns_self()),
            func("none", vec![], returns_self()),
            ImplItemShape::Other,
        ],
    };
    let e = plan_injectable(&imp).err().unwrap();
    assert_eq!(
        e.message,
        "#[injectable] exige uma fn construtor: sem `self`, todo parâmetro marcado #[inject]/#[inject_all]/#[container]"
    );
}

#[test]
fn injectable_refuses_ambiguous_constructors() {
    let imp = ImplShape {
        is_trait_impl: false,
        has_port_argument: false,
        items: vec![
            func("new", vec![param(&["container"], reference(1))], returns_self()),
            ImplItemShape::Other,
            func("build", vec![param(&["inject"], path(2, "Arc", vec![path(3, "C", vec![])]))], returns_self()),
        ],
    };
    let e = plan_injectable(&imp).err().unwrap();
    assert_eq!(e.message, "#[injectable] ambíguo — 2 fns candidatas a construtor: new, build");
}

#[test]
fn injectable_plans_each_parameter() {
    let imp = ImplShape {
        is_trait_impl: false,
        has_port_argument: false,
        items: vec![
            func("label", vec![InputShape::Receiver], returns_self()),
            func(
                "build",
                vec![
                    param(&["doc", "inject"], path(1, "Arc", vec![path(2, "Config", vec![])])),
                    param(&["container"], reference(3)),
                    param(&["inject_all"], path(4, "Vec", vec![path(5, "Arc", vec![dyn_ty(6)])])),
                    param(&["container"], path(7, "Container", vec![])),
                ],
                ReturnShape::Type(path(8, "Result", vec![path(9, "Self", vec![]), path(10, "E", vec![])])),
            ),
        ],
    };
    let plan = plan_injectable(&imp).ok().unwrap();
    assert_eq!(plan.ctor, 1);
    assert!(!plan.is_async);
    assert_eq!(
        plan.params,
        vec![
            ParamPlan::Inject(FieldPlan { optional: false, flatten: false, target: 2 }),
            ParamPlan::ContainerRef,
            ParamPlan::InjectAll(CollectPlan { flatten: true, target: 5 }),
            ParamPlan::ContainerOwned,
        ]
    );
    assert_eq!(plan.kept_attrs, vec![vec![0], vec![], vec![], vec![]]);
    assert_eq!(plan.ret, ReturnPlan::Fallible { error_type: 10 });
    assert_eq!(plan.port, PortPlan::SelfType);
}

#[test]
fn injectable_reports_a_badly_typed_inject_parameter() {
    let imp = ImplShape {
        is_trait_impl: false,
        has_port_argument: false,
        items: vec![func("build", vec![param(&["inject"], path(4, "String", vec![]))], returns_self())],
    };
    let e = plan_injectable(&imp).err().unwrap();
    assert_eq!(e.message, "#[inject] parâmetro deve ser Arc<T> ou Option<Arc<T>>");
    assert_eq!(e.span, SpanTarget::Type(4));
}

#[test]
fn injectable_reports_a_badly_typed_inject_all_parameter() {
    let imp = ImplShape {
        is_trait_impl: false,
        has_port_argument: false,
        items: vec![func("build", vec![param(&["inject_all"], path(4, "Arc", vec![dyn_ty(5)]))], returns_self())],
    };
    let e = plan_injectable(&imp).err().unwrap();
    assert_eq!(
        e.message,
        "#[inject_all] parâmetro deve ser Vec<Arc<T>> (resolve_all sempre retorna Vec<Arc<T>>)"
    );
    assert_eq!(e.span, SpanTarget::Type(4));
}

fn inject_input(typed: bool, marks: &[&str], by_ref: bool) -> InjectInputShape {
    InjectInputShape { typed, attrs: attrs(marks), by_ref }
}

#[test]
fn inject_removes_the_single_marked_parameter() {
    let inputs = vec![inject_input(true, &["doc"], false), inject_input(true, &["container"], true)];
    assert_eq!(plan_inject(&inputs).unwrap(), InjectPlan { index: 1, by_ref: true });
}

#[test]
fn inject_requires_a_marked_parameter() {
    let inputs = vec![inject_input(false, &["container"], true), inject_input(true, &["inject"], false)];
    let e = plan_inject(&inputs).unwrap_err();
    assert_eq!(e.message, "#[inject] exige exatamente 1 parâmetro marcado #[container]");
    assert_eq!(e.span, SpanTarget::Signature);
}

#[test]
fn inject_refuses_two_marked_parameters() {
    let inputs = vec![
        inject_input(true, &["container"], true),
        inject_input(true, &[], false),
        inject_input(true, &["container"], false),
    ];
    let e = plan_inject(&inputs).unwrap_err();
    assert_eq!(e.message, "#[inject] permite no máximo 1 parâmetro marcado #[container]");
    assert_eq!(e.span, SpanTarget::Input(2));
}

#[test]
fn derive_plans_named_fields_in_order() {
    let d = DeriveShape {
        is_struct: true,
        fields: FieldsShape::Named(vec![
            path(1, "Arc", vec![dyn_ty(2)]),
            path(3, "Arc", vec![path(4, "Config", vec![])]),
            path(5, "Option", vec![path(6, "Arc", vec![path(7, "Opt", vec![])])]),
        ]),
    };
    let plan = plan_derive(&d).ok().unwrap();
    assert_eq!(plan.style, FieldsStyle::Named);
    assert_eq!(plan.port, PortPlan::SelfType);
    assert_eq!(plan.ret, ReturnPlan::Bare);
    assert_eq!(
        plan.fields,
        vec![
            FieldPlan { optional: false, flatten: true, target: 1 },
            FieldPlan { optional: false, flatten: false, target: 4 },
            FieldPlan { optional: true, flatten: false, target: 7 },
        ]
    );
}

#[test]
fn derive_unit_struct_resolves_nothing() {
    let d = DeriveShape { is_struct: true, fields: FieldsShape::Unit };
    let plan = plan_derive(&d).ok().unwrap();
    assert_eq!(plan.style, FieldsStyle::Unit);
    assert!(plan.fields.is_empty());
}

#[test]
fn derive_refuses_enums_and_bad_fields() {
    let e = plan_derive(&DeriveShape { is_struct: false, fields: FieldsShape::Unit }).err().unwrap();
    assert_eq!(e.message, "#[derive(Injectable)] só suporta struct");
    let d = DeriveShape {
        is_struct: true,
        fields: FieldsShape::Unnamed(vec![path(1, "Arc", vec![dyn_ty(2)]), path(3, "u32", vec![])]),
    };
    let e = plan_derive(&d).err().unwrap();
    assert_eq!(e.message, "campo de #[derive(Injectable)] deve ser Arc<T> ou Option<Arc<T>>");
    assert_eq!(e.span, SpanTarget::Type(3));
}
