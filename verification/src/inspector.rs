//! Entity inspector, modeled over a closed set of display-capable kinds.
//!
//! Open-ended runtime reflection is replaced by a tagged union: a component is
//! either one of the specially handled kinds (a color, an integer, a
//! transform, a model reference) or a tree of named fields.  Displaying a
//! component produces a tree of display operations as plain data; the GUI
//! layer walks that tree and paints each operation.

use vstd::prelude::*;

use crate::{Color128, Transform};

verus! {

/// A reflected field value: the closed set of kinds the inspector can show.
#[derive(Debug, PartialEq, Eq)]
pub enum FieldValue {
    Int(i32),
    FloatBits(u32),
    Flag(bool),
    Text(String),
    StructVal(Vec<(String, FieldValue)>),
    EnumVal(String),
    Opaque,
}

/// Mathematical model of [`FieldValue`].
#[verifier::ext_equal]
pub enum FieldValueView {
    Int(i32),
    FloatBits(u32),
    Flag(bool),
    Text(Seq<char>),
    StructVal(Seq<(Seq<char>, FieldValueView)>),
    EnumVal(Seq<char>),
    Opaque,
}

impl DeepView for FieldValue {
    type V = FieldValueView;

    open spec fn deep_view(&self) -> FieldValueView
        decreases self,
    {
        match self {
            FieldValue::Int(v) => FieldValueView::Int(*v),
            FieldValue::FloatBits(v) => FieldValueView::FloatBits(*v),
            FieldValue::Flag(b) => FieldValueView::Flag(*b),
            FieldValue::Text(s) => FieldValueView::Text(s@),
            FieldValue::StructVal(fields) => FieldValueView::StructVal(fields_deep_view(fields@)),
            FieldValue::EnumVal(s) => FieldValueView::EnumVal(s@),
            FieldValue::Opaque => FieldValueView::Opaque,
        }
    }
}

/// The mathematical model of a named field list, element by element.
pub open spec fn fields_deep_view(fields: Seq<(String, FieldValue)>) -> Seq<
    (Seq<char>, FieldValueView),
>
    decreases fields,
{
    if fields.len() == 0 {
        Seq::empty()
    } else {
        seq![(fields.first().0@, fields.first().1.deep_view())] + fields_deep_view(
            fields.drop_first(),
        )
    }
}

/// `fields_deep_view` maps the list element by element.
pub proof fn lemma_fields_deep_view(fields: Seq<(String, FieldValue)>)
    ensures
        fields_deep_view(fields).len() == fields.len(),
        forall|i: int|
            0 <= i < fields.len() ==> #[trigger] fields_deep_view(fields)[i] == (
                fields[i].0@,
                fields[i].1.deep_view(),
            ),
    decreases fields.len(),
{
    if fields.len() > 0 {
        assert(fields_deep_view(fields) == seq![
            (fields.first().0@, fields.first().1.deep_view()),
        ] + fields_deep_view(fields.drop_first()));
        lemma_fields_deep_view(fields.drop_first());
        assert forall|i: int| 0 <= i < fields.len() implies #[trigger] fields_deep_view(
            fields,
        )[i] == (fields[i].0@, fields[i].1.deep_view()) by {
            if i > 0 {
                assert(fields.drop_first()[i - 1] == fields[i]);
                assert(fields_deep_view(fields)[i] == fields_deep_view(fields.drop_first())[i
                    - 1]);
            }
        }
    }
}

/// One drawing instruction for the GUI layer: a widget together with the value
/// it edits or shows.
#[derive(Debug, PartialEq, Eq)]
pub enum DisplayOp {
    DragInt(i32),
    DragFloat(u32),
    Checkbox(bool),
    TextEdit(String),
    Label(String),
    ShowInt(i32),
    ColorPicker(Color128),
    Collapsing(String, Vec<DisplayOp>),
}

/// Mathematical model of [`DisplayOp`].
#[verifier::ext_equal]
pub enum DisplayOpView {
    DragInt(i32),
    DragFloat(u32),
    Checkbox(bool),
    TextEdit(Seq<char>),
    Label(Seq<char>),
    ShowInt(i32),
    ColorPicker(Color128),
    Collapsing(Seq<char>, Seq<DisplayOpView>),
}

impl DeepView for DisplayOp {
    type V = DisplayOpView;

    open spec fn deep_view(&self) -> DisplayOpView
        decreases self,
    {
        match self {
            DisplayOp::DragInt(v) => DisplayOpView::DragInt(*v),
            DisplayOp::DragFloat(v) => DisplayOpView::DragFloat(*v),
            DisplayOp::Checkbox(b) => DisplayOpView::Checkbox(*b),
            DisplayOp::TextEdit(s) => DisplayOpView::TextEdit(s@),
            DisplayOp::Label(s) => DisplayOpView::Label(s@),
            DisplayOp::ShowInt(v) => DisplayOpView::ShowInt(*v),
            DisplayOp::ColorPicker(c) => DisplayOpView::ColorPicker(*c),
            DisplayOp::Collapsing(s, ops) => DisplayOpView::Collapsing(s@, ops_deep_view(ops@)),
        }
    }
}

/// The mathematical model of an operation list, element by element.
pub open spec fn ops_deep_view(ops: Seq<DisplayOp>) -> Seq<DisplayOpView>
    decreases ops,
{
    if ops.len() == 0 {
        Seq::empty()
    } else {
        seq![ops.first().deep_view()] + ops_deep_view(ops.drop_first())
    }
}

/// `ops_deep_view` maps the list element by element.
pub proof fn lemma_ops_deep_view(ops: Seq<DisplayOp>)
    ensures
        ops_deep_view(ops).len() == ops.len(),
        forall|i: int|
            0 <= i < ops.len() ==> #[trigger] ops_deep_view(ops)[i] == ops[i].deep_view(),
    decreases ops.len(),
{
    if ops.len() > 0 {
        assert(ops_deep_view(ops) == seq![ops.first().deep_view()] + ops_deep_view(
            ops.drop_first(),
        ));
        lemma_ops_deep_view(ops.drop_first());
        assert forall|i: int| 0 <= i < ops.len() implies #[trigger] ops_deep_view(ops)[i]
            == ops[i].deep_view() by {
            if i > 0 {
                assert(ops.drop_first()[i - 1] == ops[i]);
                assert(ops_deep_view(ops)[i] == ops_deep_view(ops.drop_first())[i - 1]);
            }
        }
    }
}

/// The two models of a built operation vector agree.
pub proof fn lemma_vec_ops_deep_view(ops: Vec<DisplayOp>)
    ensures
        ops_deep_view(ops@) == ops.deep_view(),
{
    lemma_ops_deep_view(ops@);
    assert(ops_deep_view(ops@) =~= ops.deep_view());
}

/// What the generic field walk draws for one value: editors for the leaf
/// kinds, one collapsible section per named field of a structure, the variant
/// name for an enumeration, and nothing for an opaque value.
pub open spec fn spec_show_fields(f: FieldValueView) -> Seq<DisplayOpView>
    decreases f,
{
    match f {
        FieldValueView::Int(v) => seq![DisplayOpView::DragInt(v)],
        FieldValueView::FloatBits(v) => seq![DisplayOpView::DragFloat(v)],
        FieldValueView::Flag(b) => seq![DisplayOpView::Checkbox(b)],
        FieldValueView::Text(s) => seq![DisplayOpView::TextEdit(s)],
        FieldValueView::StructVal(fields) => spec_show_struct(fields),
        FieldValueView::EnumVal(s) => seq![DisplayOpView::Label(s)],
        FieldValueView::Opaque => Seq::empty(),
    }
}

/// One collapsible section per named field, in order.
pub open spec fn spec_show_struct(fields: Seq<(Seq<char>, FieldValueView)>) -> Seq<DisplayOpView>
    decreases fields,
{
    if fields.len() == 0 {
        Seq::empty()
    } else {
        seq![
            DisplayOpView::Collapsing(fields.first().0, spec_show_fields(fields.first().1)),
        ] + spec_show_struct(fields.drop_first())
    }
}

/// Walks a reflected value and collects the widgets that display it.
#[verifier::loop_isolation(false)]
pub fn recursively_show_fields(field: &FieldValue) -> (out: Vec<DisplayOp>)
    ensures
        out.deep_view() == spec_show_fields(field.deep_view()),
    decreases field,
{
    let mut out: Vec<DisplayOp> = Vec::new();
    match field {
        FieldValue::Int(v) => {
            out.push(DisplayOp::DragInt(*v));
            proof {
                assert(out.deep_view() =~= spec_show_fields(field.deep_view()));
            }
        },
        FieldValue::FloatBits(v) => {
            out.push(DisplayOp::DragFloat(*v));
            proof {
                assert(out.deep_view() =~= spec_show_fields(field.deep_view()));
            }
        },
        FieldValue::Flag(b) => {
            out.push(DisplayOp::Checkbox(*b));
            proof {
                assert(out.deep_view() =~= spec_show_fields(field.deep_view()));
            }
        },
        FieldValue::Text(s) => {
            out.push(DisplayOp::TextEdit(s.clone()));
            proof {
                assert(out.deep_view() =~~= spec_show_fields(field.deep_view()));
            }
        },
        FieldValue::StructVal(fields) => {
            let ghost all = fields_deep_view(fields@);
            let mut i: usize = 0;
            proof {
                lemma_fields_deep_view(fields@);
                assert(all.skip(0) =~= all);
            }
            while i < fields.len()
                invariant
                    i <= fields@.len(),
                    all == fields_deep_view(fields@),
                    all.len() == fields@.len(),
                    forall|k: int|
                        0 <= k < fields@.len() ==> #[trigger] all[k] == (
                            fields@[k].0@,
                            fields@[k].1.deep_view(),
                        ),
                    out.deep_view() + spec_show_struct(all.skip(i as int)) == spec_show_struct(
                        all,
                    ),
                decreases fields@.len() - i,
            {
                proof {
                    assert(all.skip(i as int).first() == all[i as int]);
                    assert(all.skip(i as int).drop_first() =~= all.skip(i as int + 1));
                }
                let ghost pre = out.deep_view();
                let name = fields[i].0.clone();
                let inner = recursively_show_fields(&fields[i].1);
                proof {
                    lemma_vec_ops_deep_view(inner);
                }
                out.push(DisplayOp::Collapsing(name, inner));
                proof {
                    assert(out.deep_view() =~~= pre.push(
                        DisplayOpView::Collapsing(all[i as int].0, spec_show_fields(
                            all[i as int].1,
                        )),
                    ));
                    assert(pre.push(
                        DisplayOpView::Collapsing(all[i as int].0, spec_show_fields(
                            all[i as int].1,
                        )),
                    ) + spec_show_struct(all.skip(i as int + 1)) =~= pre + (seq![
                        DisplayOpView::Collapsing(all[i as int].0, spec_show_fields(
                            all[i as int].1,
                        )),
                    ] + spec_show_struct(all.skip(i as int + 1))));
                }
                i = i + 1;
            }
            proof {
                assert(all.skip(all.len() as int) =~= Seq::<(Seq<char>, FieldValueView)>::empty());
                assert(out.deep_view() + Seq::<DisplayOpView>::empty() =~= out.deep_view());
            }
        },
        FieldValue::EnumVal(s) => {
            out.push(DisplayOp::Label(s.clone()));
            proof {
                assert(out.deep_view() =~~= spec_show_fields(field.deep_view()));
            }
        },
        FieldValue::Opaque => {
            proof {
                assert(out.deep_view() =~= spec_show_fields(field.deep_view()));
            }
        },
    }
    out
}

/// A component value handed to the inspector: one of the specially handled
/// kinds, or a named tree of reflected fields.
#[derive(Debug, PartialEq, Eq)]
pub enum ComponentValue {
    Color(Color128),
    Int(i32),
    Xform(Transform),
    /// A model component, shown by its renderer asset identifier.
    ModelRef(String),
    /// Any other component: its type name and its reflected field tree.
    Reflected(String, FieldValue),
}

/// Mathematical model of [`ComponentValue`].
#[verifier::ext_equal]
pub enum ComponentValueView {
    Color(Color128),
    Int(i32),
    Xform(Transform),
    ModelRef(Seq<char>),
    Reflected(Seq<char>, FieldValueView),
}

impl DeepView for ComponentValue {
    type V = ComponentValueView;

    open spec fn deep_view(&self) -> ComponentValueView {
        match self {
            ComponentValue::Color(c) => ComponentValueView::Color(*c),
            ComponentValue::Int(v) => ComponentValueView::Int(*v),
            ComponentValue::Xform(t) => ComponentValueView::Xform(*t),
            ComponentValue::ModelRef(s) => ComponentValueView::ModelRef(s@),
            ComponentValue::Reflected(name, f) => ComponentValueView::Reflected(
                name@,
                f.deep_view(),
            ),
        }
    }
}

/// One registered display handler: each handles exactly one specially known
/// component kind.
#[derive(Clone, Copy, Debug, PartialEq, Eq, Structural)]
pub enum HandlerKind {
    Color,
    Int,
    Xform,
    ModelRef,
}

/// Whether a handler takes care of a component.
pub open spec fn handler_matches(h: HandlerKind, c: ComponentValueView) -> bool {
    match (h, c) {
        (HandlerKind::Color, ComponentValueView::Color(_)) => true,
        (HandlerKind::Int, ComponentValueView::Int(_)) => true,
        (HandlerKind::Xform, ComponentValueView::Xform(_)) => true,
        (HandlerKind::ModelRef, ComponentValueView::ModelRef(_)) => true,
        _ => false,
    }
}

/// What the transform editor draws: a section with one row of component
/// editors per part of the transform.  The raw quaternion components are
/// edited; turning them into user-facing angles is the painting layer's job.
pub open spec fn spec_transform_ops(t: Transform) -> Seq<DisplayOpView> {
    seq![
        DisplayOpView::Collapsing(
            "Transform"@,
            seq![
                DisplayOpView::Label("Pos:"@),
                DisplayOpView::DragFloat(t.translation.x),
                DisplayOpView::DragFloat(t.translation.y),
                DisplayOpView::DragFloat(t.translation.z),
                DisplayOpView::Label("Rot:"@),
                DisplayOpView::DragFloat(t.rotation.x),
                DisplayOpView::DragFloat(t.rotation.y),
                DisplayOpView::DragFloat(t.rotation.z),
                DisplayOpView::DragFloat(t.rotation.w),
                DisplayOpView::Label("Scale:"@),
                DisplayOpView::DragFloat(t.scale.x),
                DisplayOpView::DragFloat(t.scale.y),
                DisplayOpView::DragFloat(t.scale.z),
            ],
        ),
    ]
}

/// What a matching handler draws for a component.
pub open spec fn spec_handler_ops(h: HandlerKind, c: ComponentValueView) -> Seq<DisplayOpView> {
    match (h, c) {
        (HandlerKind::Color, ComponentValueView::Color(col)) => seq![
            DisplayOpView::Collapsing("Color"@, seq![DisplayOpView::ColorPicker(col)]),
        ],
        (HandlerKind::Int, ComponentValueView::Int(v)) => seq![DisplayOpView::ShowInt(v)],
        (HandlerKind::Xform, ComponentValueView::Xform(t)) => spec_transform_ops(t),
        (HandlerKind::ModelRef, ComponentValueView::ModelRef(id)) => seq![
            DisplayOpView::Collapsing("Model"@, seq![DisplayOpView::Label(id)]),
        ],
        _ => Seq::empty(),
    }
}

/// The generic fallback when no handler matches: the component's type name as
/// a collapsible section around its reflected field tree.
pub open spec fn spec_fallback_ops(c: ComponentValueView) -> Seq<DisplayOpView> {
    match c {
        ComponentValueView::Reflected(name, f) => seq![
            DisplayOpView::Collapsing(name, spec_show_fields(f)),
        ],
        _ => Seq::empty(),
    }
}

/// What displaying a component draws: the first matching handler wins; with no
/// match the generic field walk runs.
pub open spec fn spec_display(handlers: Seq<HandlerKind>, c: ComponentValueView) -> Seq<
    DisplayOpView,
>
    decreases handlers.len(),
{
    if handlers.len() == 0 {
        spec_fallback_ops(c)
    } else if handler_matches(handlers.first(), c) {
        spec_handler_ops(handlers.first(), c)
    } else {
        spec_display(handlers.drop_first(), c)
    }
}

/// The inspector's ordered list of display handlers.
#[derive(Debug)]
pub struct DisplayComponentList(pub Vec<HandlerKind>);

impl DisplayComponentList {
    /// The default handler registration order: color, integer, transform,
    /// model.
    pub fn new() -> (r: Self)
        ensures
            r.0@ == seq![HandlerKind::Color, HandlerKind::Int, HandlerKind::Xform, HandlerKind::ModelRef],
    {
        let mut this = DisplayComponentList(Vec::new());
        this.init();
        proof {
            assert(this.0@ =~= seq![
                HandlerKind::Color,
                HandlerKind::Int,
                HandlerKind::Xform,
                HandlerKind::ModelRef,
            ]);
        }
        this
    }

    /// Registers the built-in handlers, in order.
    fn init(&mut self)
        ensures
            final(self).0@ == old(self).0@ + seq![
                HandlerKind::Color,
                HandlerKind::Int,
                HandlerKind::Xform,
                HandlerKind::ModelRef,
            ],
    {
        self.push(HandlerKind::Color);
        self.push(HandlerKind::Int);
        self.push(HandlerKind::Xform);
        self.push(HandlerKind::ModelRef);
        proof {
            assert(self.0@ =~= old(self).0@ + seq![
                HandlerKind::Color,
                HandlerKind::Int,
                HandlerKind::Xform,
                HandlerKind::ModelRef,
            ]);
        }
    }

    /// Appends one handler.
    fn push(&mut self, h: HandlerKind)
        ensures
            final(self).0@ == old(self).0@.push(h),
    {
        self.0.push(h);
    }

    /// Draws one component: the first registered handler that knows its kind
    /// wins; otherwise the generic field walk shows its reflected fields.
    pub fn display(&self, component: &ComponentValue) -> (out: Vec<DisplayOp>)
        ensures
            out.deep_view() == spec_display(self.0@, component.deep_view()),
    {
        let ghost hs = self.0@;
        let ghost cv = component.deep_view();
        let mut i: usize = 0;
        proof {
            assert(hs.skip(0) =~= hs);
        }
        while i < self.0.len()
            invariant
                i <= hs.len(),
                hs == self.0@,
                cv == component.deep_view(),
                spec_display(hs.skip(i as int), cv) == spec_display(hs, cv),
            decreases hs.len() - i,
        {
            proof {
                assert(hs.skip(i as int).first() == hs[i as int]);
                assert(hs.skip(i as int).drop_first() =~= hs.skip(i as int + 1));
            }
            let h = self.0[i];
            let matched = match (h, component) {
                (HandlerKind::Color, ComponentValue::Color(_)) => true,
                (HandlerKind::Int, ComponentValue::Int(_)) => true,
                (HandlerKind::Xform, ComponentValue::Xform(_)) => true,
                (HandlerKind::ModelRef, ComponentValue::ModelRef(_)) => true,
                _ => false,
            };
            if matched {
                let out = handler_ops(h, component);
                return out;
            }
            i = i + 1;
        }
        proof {
            assert(hs.skip(hs.len() as int) =~= Seq::<HandlerKind>::empty());
        }
        fallback_ops(component)
    }
}

/// Draws a component through the handler that matches it.
fn handler_ops(h: HandlerKind, component: &ComponentValue) -> (out: Vec<DisplayOp>)
    requires
        handler_matches(h, component.deep_view()),
    ensures
        out.deep_view() == spec_handler_ops(h, component.deep_view()),
{
    let mut out: Vec<DisplayOp> = Vec::new();
    match (h, component) {
        (HandlerKind::Color, ComponentValue::Color(col)) => {
            let mut inner: Vec<DisplayOp> = Vec::new();
            inner.push(DisplayOp::ColorPicker(*col));
            proof {
                lemma_vec_ops_deep_view(inner);
                assert(inner.deep_view() =~= seq![DisplayOpView::ColorPicker(*col)]);
            }
            out.push(DisplayOp::Collapsing("Color".to_owned(), inner));
            proof {
                assert(out.deep_view() =~~= spec_handler_ops(h, component.deep_view()));
            }
        },
        (HandlerKind::Int, ComponentValue::Int(v)) => {
            out.push(DisplayOp::ShowInt(*v));
            proof {
                assert(out.deep_view() =~= spec_handler_ops(h, component.deep_view()));
            }
        },
        (HandlerKind::Xform, ComponentValue::Xform(t)) => {
            let mut inner: Vec<DisplayOp> = Vec::new();
            inner.push(DisplayOp::Label("Pos:".to_owned()));
            inner.push(DisplayOp::DragFloat(t.translation.x));
            inner.push(DisplayOp::DragFloat(t.translation.y));
            inner.push(DisplayOp::DragFloat(t.translation.z));
            inner.push(DisplayOp::Label("Rot:".to_owned()));
            inner.push(DisplayOp::DragFloat(t.rotation.x));
            inner.push(DisplayOp::DragFloat(t.rotation.y));
            inner.push(DisplayOp::DragFloat(t.rotation.z));
            inner.push(DisplayOp::DragFloat(t.rotation.w));
            inner.push(DisplayOp::Label("Scale:".to_owned()));
            inner.push(DisplayOp::DragFloat(t.scale.x));
            inner.push(DisplayOp::DragFloat(t.scale.y));
            inner.push(DisplayOp::DragFloat(t.scale.z));
            proof {
                lemma_vec_ops_deep_view(inner);
                assert(inner.deep_view() =~= spec_transform_ops(*t)[0]->Collapsing_1);
            }
            out.push(DisplayOp::Collapsing("Transform".to_owned(), inner));
            proof {
                assert(out.deep_view() =~~= spec_handler_ops(h, component.deep_view()));
            }
        },
        (HandlerKind::ModelRef, ComponentValue::ModelRef(id)) => {
            let mut inner: Vec<DisplayOp> = Vec::new();
            inner.push(DisplayOp::Label(id.clone()));
            proof {
                lemma_vec_ops_deep_view(inner);
                assert(inner.deep_view() =~= seq![DisplayOpView::Label(id@)]);
            }
            out.push(DisplayOp::Collapsing("Model".to_owned(), inner));
            proof {
                assert(out.deep_view() =~~= spec_handler_ops(h, component.deep_view()));
            }
        },
        _ => {
            proof {
                assert(false);
            }
        },
    }
    out
}

/// Draws a component no handler matched: its reflected field tree under its
/// type name, or nothing for a kind that has no reflected representation.
fn fallback_ops(component: &ComponentValue) -> (out: Vec<DisplayOp>)
    ensures
        out.deep_view() == spec_fallback_ops(component.deep_view()),
{
    let mut out: Vec<DisplayOp> = Vec::new();
    match component {
        ComponentValue::Reflected(name, f) => {
            let inner = recursively_show_fields(f);
            proof {
                lemma_vec_ops_deep_view(inner);
            }
            out.push(DisplayOp::Collapsing(name.clone(), inner));
            proof {
                assert(out.deep_view() =~~= spec_fallback_ops(component.deep_view()));
            }
        },
        _ => {
            proof {
                assert(out.deep_view() =~= spec_fallback_ops(component.deep_view()));
            }
        },
    }
    out
}

/// Bit pattern of the component value 1.0.
pub const ONE_BITS: u32 = 0x3F800000;

/// Bit pattern of the component value 2.0.
pub const TWO_BITS: u32 = 0x40000000;

/// Bit pattern of the component value 3.0.
pub const THREE_BITS: u32 = 0x40400000;

/// Example three-component field, carried as raw bit patterns.
#[derive(Clone, Copy, Debug, PartialEq, Eq, Structural)]
pub struct ExampleField1 {
    pub x: u32,
    pub y: u32,
    pub z: u32,
}

impl Default for ExampleField1 {
    fn default() -> (r: Self)
        ensures
            r == (ExampleField1 { x: ONE_BITS, y: TWO_BITS, z: THREE_BITS }),
    {
        ExampleField1 { x: ONE_BITS, y: TWO_BITS, z: THREE_BITS }
    }
}

/// Example field mixing text, a flag and a character.
#[derive(Debug, PartialEq, Eq)]
pub struct ExampleField2 {
    pub a: String,
    pub b: bool,
    pub c: char,
}

impl Default for ExampleField2 {
    fn default() -> (r: Self)
        ensures
            r.a@ == "Hi Mom!"@,
            r.b == true,
            r.c == 'E',
    {
        ExampleField2 { a: "Hi Mom!".to_owned(), b: true, c: 'E' }
    }
}

/// Example enumeration with a payload-carrying and a bare variant.
#[derive(Debug, PartialEq, Eq)]
pub enum MyEnum {
    Variant1(String),
    Variant2,
}

impl Default for MyEnum {
    fn default() -> (r: Self)
        ensures
            r matches MyEnum::Variant1(s) && s@ == "hi"@,
    {
        MyEnum::Variant1("hi".to_owned())
    }
}

/// Example component combining the example fields, used to exercise the
/// inspector's generic field walk.
#[derive(Debug)]
pub struct ExampleStruct {
    pub field1: ExampleField1,
    pub field2: ExampleField2,
    pub field3: MyEnum,
}

impl Default for ExampleStruct {
    fn default() -> (r: Self)
        ensures
            r.field1 == (ExampleField1 { x: ONE_BITS, y: TWO_BITS, z: THREE_BITS }),
            r.field2.a@ == "Hi Mom!"@,
            r.field2.b == true,
            r.field2.c == 'E',
            r.field3 matches MyEnum::Variant1(s) && s@ == "hi"@,
    {
        ExampleStruct {
            field1: ExampleField1::default(),
            field2: ExampleField2::default(),
            field3: MyEnum::default(),
        }
    }
}

impl ExampleField1 {
    /// The reflected representation, at the specification level.
    pub open spec fn to_field_value_view(self) -> FieldValueView {
        FieldValueView::StructVal(
            seq![
                ("x"@, FieldValueView::FloatBits(self.x)),
                ("y"@, FieldValueView::FloatBits(self.y)),
                ("z"@, FieldValueView::FloatBits(self.z)),
            ],
        )
    }

    /// This field's reflected representation: three named float components.
    pub fn to_field_value(&self) -> (r: FieldValue)
        ensures
            r.deep_view() == FieldValueView::StructVal(
                seq![
                    ("x"@, FieldValueView::FloatBits(self.x)),
                    ("y"@, FieldValueView::FloatBits(self.y)),
                    ("z"@, FieldValueView::FloatBits(self.z)),
                ],
            ),
    {
        let mut fields: Vec<(String, FieldValue)> = Vec::new();
        fields.push(("x".to_owned(), FieldValue::FloatBits(self.x)));
        fields.push(("y".to_owned(), FieldValue::FloatBits(self.y)));
        fields.push(("z".to_owned(), FieldValue::FloatBits(self.z)));
        let r = FieldValue::StructVal(fields);
        proof {
            lemma_fields_deep_view(r->StructVal_0@);
            assert(r.deep_view()->StructVal_0 =~~= seq![
                ("x"@, FieldValueView::FloatBits(self.x)),
                ("y"@, FieldValueView::FloatBits(self.y)),
                ("z"@, FieldValueView::FloatBits(self.z)),
            ]);
        }
        r
    }
}

impl ExampleField2 {
    /// The reflected representation, at the specification level.
    pub open spec fn to_field_value_view(self) -> FieldValueView {
        FieldValueView::StructVal(
            seq![
                ("a"@, FieldValueView::Text(self.a@)),
                ("b"@, FieldValueView::Flag(self.b)),
                ("c"@, FieldValueView::Opaque),
            ],
        )
    }

    /// This field's reflected representation: the character has no editor and
    /// shows as an opaque value.
    pub fn to_field_value(&self) -> (r: FieldValue)
        ensures
            r.deep_view() == FieldValueView::StructVal(
                seq![
                    ("a"@, FieldValueView::Text(self.a@)),
                    ("b"@, FieldValueView::Flag(self.b)),
                    ("c"@, FieldValueView::Opaque),
                ],
            ),
    {
        let mut fields: Vec<(String, FieldValue)> = Vec::new();
        fields.push(("a".to_owned(), FieldValue::Text(self.a.clone())));
        fields.push(("b".to_owned(), FieldValue::Flag(self.b)));
        fields.push(("c".to_owned(), FieldValue::Opaque));
        let r = FieldValue::StructVal(fields);
        proof {
            lemma_fields_deep_view(r->StructVal_0@);
            assert(r.deep_view()->StructVal_0 =~~= seq![
                ("a"@, FieldValueView::Text(self.a@)),
                ("b"@, FieldValueView::Flag(self.b)),
                ("c"@, FieldValueView::Opaque),
            ]);
        }
        r
    }
}

impl MyEnum {
    /// The reflected representation, at the specification level.
    pub open spec fn to_field_value_view(self) -> FieldValueView {
        match self {
            MyEnum::Variant1(_) => FieldValueView::EnumVal("Variant1"@),
            MyEnum::Variant2 => FieldValueView::EnumVal("Variant2"@),
        }
    }

    /// This enumeration's reflected representation: its variant name.
    pub fn to_field_value(&self) -> (r: FieldValue)
        ensures
            r.deep_view() == (match self {
                MyEnum::Variant1(_) => FieldValueView::EnumVal("Variant1"@),
                MyEnum::Variant2 => FieldValueView::EnumVal("Variant2"@),
            }),
    {
        match self {
            MyEnum::Variant1(_) => FieldValue::EnumVal("Variant1".to_owned()),
            MyEnum::Variant2 => FieldValue::EnumVal("Variant2".to_owned()),
        }
    }
}

impl ExampleStruct {
    /// This component's reflected representation: its three named fields.
    pub fn to_field_value(&self) -> (r: FieldValue)
        ensures
            r.deep_view() == FieldValueView::StructVal(
                seq![
                    ("field1"@, self.field1.to_field_value_view()),
                    ("field2"@, self.field2.to_field_value_view()),
                    ("field3"@, self.field3.to_field_value_view()),
                ],
            ),
    {
        let f1 = self.field1.to_field_value();
        let f2 = self.field2.to_field_value();
        let f3 = self.field3.to_field_value();
        let mut fields: Vec<(String, FieldValue)> = Vec::new();
        fields.push(("field1".to_owned(), f1));
        fields.push(("field2".to_owned(), f2));
        fields.push(("field3".to_owned(), f3));
        let r = FieldValue::StructVal(fields);
        proof {
            lemma_fields_deep_view(r->StructVal_0@);
            assert(r.deep_view()->StructVal_0 =~~= seq![
                ("field1"@, self.field1.to_field_value_view()),
                ("field2"@, self.field2.to_field_value_view()),
                ("field3"@, self.field3.to_field_value_view()),
            ]);
        }
        r
    }
}

impl FieldValue {
    /// How many named fields the generic walk will visit: the field count of a
    /// structure, and none for every other kind.
    pub fn field_len(&self) -> (n: usize)
        ensures
            n == (match self.deep_view() {
                FieldValueView::StructVal(fields) => fields.len(),
                _ => 0,
            }),
    {
        match self {
            FieldValue::StructVal(fields) => {
                proof {
                    lemma_fields_deep_view(fields@);
                }
                fields.len()
            },
            _ => 0,
        }
    }

    /// The name of the field at `index`, where there is one.
    pub fn name(&self, index: usize) -> (r: Option<&String>)
        ensures
            match r {
                Some(name) => match self.deep_view() {
                    FieldValueView::StructVal(fields) => index < fields.len() && name@
                        == fields[index as int].0,
                    _ => false,
                },
                None => match self.deep_view() {
                    FieldValueView::StructVal(fields) => index >= fields.len(),
                    _ => true,
                },
            },
    {
        match self {
            FieldValue::StructVal(fields) => {
                proof {
                    lemma_fields_deep_view(fields@);
                }
                if index < fields.len() {
                    Some(&fields[index].0)
                } else {
                    None
                }
            },
            _ => None,
        }
    }

    /// The field at `index`, where there is one.
    pub fn field(&self, index: usize) -> (r: Option<&FieldValue>)
        ensures
            match r {
                Some(value) => match self.deep_view() {
                    FieldValueView::StructVal(fields) => index < fields.len()
                        && value.deep_view() == fields[index as int].1,
                    _ => false,
                },
                None => match self.deep_view() {
                    FieldValueView::StructVal(fields) => index >= fields.len(),
                    _ => true,
                },
            },
    {
        match self {
            FieldValue::StructVal(fields) => {
                proof {
                    lemma_fields_deep_view(fields@);
                }
                if index < fields.len() {
                    Some(&fields[index].1)
                } else {
                    None
                }
            },
            _ => None,
        }
    }
}

} // verus!
