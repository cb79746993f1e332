use cloudcafe::inspector::{
    recursively_show_fields, ComponentValue, DisplayComponentList, DisplayOp, ExampleField1,
    ExampleField2, ExampleStruct, FieldValue, HandlerKind, MyEnum, ONE_BITS, THREE_BITS, TWO_BITS,
};
use cloudcafe::interaction::{DoNotInteract, TransformDifference};
use cloudcafe::{Color128, Transform};

#[test]
fn default_handler_order() {
    let list = DisplayComponentList::new();
    assert_eq!(
        list.0,
        vec![HandlerKind::Color, HandlerKind::Int, HandlerKind::Xform, HandlerKind::ModelRef]
    );
}

#[test]
fn color_component_display() {
    let list = DisplayComponentList::new();
    let color = Color128 { r: 1, g: 2, b: 3, a: 4 };
    let ops = list.display(&ComponentValue::Color(color));
    assert_eq!(
        ops,
        vec![DisplayOp::Collapsing(
            "Color".to_string(),
            vec![DisplayOp::ColorPicker(color)]
        )]
    );
}

#[test]
fn int_component_display() {
    let list = DisplayComponentList::new();
    let ops = list.display(&ComponentValue::Int(5));
    assert_eq!(ops, vec![DisplayOp::ShowInt(5)]);
}

#[test]
fn transform_component_display() {
    let list = DisplayComponentList::new();
    let t = Transform::default();
    let ops = list.display(&ComponentValue::Xform(t));
    assert_eq!(ops.len(), 1);
    match &ops[0] {
        DisplayOp::Collapsing(title, rows) => {
            assert_eq!(title.as_str(), "Transform");
            // three labeled rows: position, rotation, scale
            assert_eq!(rows.len(), 13);
            assert_eq!(rows[0], DisplayOp::Label("Pos:".to_string()));
            assert_eq!(rows[4], DisplayOp::Label("Rot:".to_string()));
            assert_eq!(rows[9], DisplayOp::Label("Scale:".to_string()));
            assert_eq!(rows[1], DisplayOp::DragFloat(t.translation.x));
            assert_eq!(rows[8], DisplayOp::DragFloat(t.rotation.w));
            assert_eq!(rows[12], DisplayOp::DragFloat(t.scale.z));
        },
        other => panic!("unexpected op: {:?}", other),
    }
}

#[test]
fn model_component_display() {
    let list = DisplayComponentList::new();
    let ops = list.display(&ComponentValue::ModelRef("cube_mesh".to_string()));
    assert_eq!(
        ops,
        vec![DisplayOp::Collapsing(
            "Model".to_string(),
            vec![DisplayOp::Label("cube_mesh".to_string())]
        )]
    );
}

#[test]
fn reflected_component_display() {
    let list = DisplayComponentList::new();
    let example = ExampleStruct::default();
    let component =
        ComponentValue::Reflected("ExampleStruct".to_string(), example.to_field_value());
    let ops = list.display(&component);
    assert_eq!(
        ops,
        vec![DisplayOp::Collapsing(
            "ExampleStruct".to_string(),
            vec![
                DisplayOp::Collapsing(
                    "field1".to_string(),
                    vec![
                        DisplayOp::Collapsing(
                            "x".to_string(),
                            vec![DisplayOp::DragFloat(ONE_BITS)]
                        ),
                        DisplayOp::Collapsing(
                            "y".to_string(),
                            vec![DisplayOp::DragFloat(TWO_BITS)]
                        ),
                        DisplayOp::Collapsing(
                            "z".to_string(),
                            vec![DisplayOp::DragFloat(THREE_BITS)]
                        ),
                    ]
                ),
                DisplayOp::Collapsing(
                    "field2".to_string(),
                    vec![
                        DisplayOp::Collapsing(
                            "a".to_string(),
                            vec![DisplayOp::TextEdit("Hi Mom!".to_string())]
                        ),
                        DisplayOp::Collapsing(
                            "b".to_string(),
                            vec![DisplayOp::Checkbox(true)]
                        ),
                        DisplayOp::Collapsing("c".to_string(), vec![]),
                    ]
                ),
                DisplayOp::Collapsing(
                    "field3".to_string(),
                    vec![DisplayOp::Label("Variant1".to_string())]
                ),
            ]
        )]
    );
}

#[test]
fn leaf_field_walks() {
    assert_eq!(
        recursively_show_fields(&FieldValue::Int(3)),
        vec![DisplayOp::DragInt(3)]
    );
    assert_eq!(
        recursively_show_fields(&FieldValue::Flag(false)),
        vec![DisplayOp::Checkbox(false)]
    );
    assert_eq!(
        recursively_show_fields(&FieldValue::Text("abc".to_string())),
        vec![DisplayOp::TextEdit("abc".to_string())]
    );
    assert_eq!(
        recursively_show_fields(&FieldValue::EnumVal("Variant2".to_string())),
        vec![DisplayOp::Label("Variant2".to_string())]
    );
    assert!(recursively_show_fields(&FieldValue::Opaque).is_empty());
}

#[test]
fn example_defaults() {
    let e = ExampleStruct::default();
    assert_eq!(e.field1, ExampleField1 { x: ONE_BITS, y: TWO_BITS, z: THREE_BITS });
    assert_eq!(e.field2.a, "Hi Mom!");
    assert!(e.field2.b);
    assert_eq!(e.field2.c, 'E');
    assert_eq!(e.field3, MyEnum::Variant1("hi".to_string()));
    assert_eq!(ExampleField2::default(), e.field2);
}

/// Grab bookkeeping types used by the hand-interaction layer.
#[test]
fn lib_test() {
    let anchor = TransformDifference::new(Transform::default());
    assert_eq!(anchor, TransformDifference(Transform::default()));
    assert_eq!(anchor.0, Transform::default());
    assert_eq!(DoNotInteract, DoNotInteract);
}

#[test]
fn field_access() {
    let value = ExampleField2::default().to_field_value();
    assert_eq!(value.field_len(), 3);
    assert_eq!(value.name(0).map(String::as_str), Some("a"));
    assert_eq!(value.name(2).map(String::as_str), Some("c"));
    assert_eq!(value.name(3), None);
    assert_eq!(value.field(1), Some(&FieldValue::Flag(true)));
    assert_eq!(value.field(9), None);
    let leaf = FieldValue::Int(1);
    assert_eq!(leaf.field_len(), 0);
    assert_eq!(leaf.name(0), None);
    assert_eq!(leaf.field(0), None);
}
