//! The reflection bridge against a small live world: capture, edit,
//! apply, and the graceful degradation for opaque types.

use roth::bridge::{capture_component, component_bytes, ApplyOutcome, ObjectId, RawComponent, World};
use roth::component::RonComponent;
use roth::dispatch::{dispatch_message, DispatchAction, DispatchLoop, LoopState};
use roth::edit::{make_insert_component, set_at_path};
use roth::channel::Fifo;
use roth::dispatch::InputEvent;
use roth::messages::{
    EditorToRuntimeMsg, ElementState, MouseButton, PhysicalPosition, RuntimeToEditorMsg,
    WindowPosition,
};
use roth::registry::{FieldDef, FieldKind, TypeDescriptor, TypeRegistry};
use roth::value::ValueTree;

fn position_descriptor() -> TypeDescriptor {
    TypeDescriptor {
        type_key: "Position".to_string(),
        size: 16,
        align: 8,
        fields: Some(vec![
            FieldDef { name: "x".to_string(), kind: FieldKind::F64 },
            FieldDef { name: "y".to_string(), kind: FieldKind::F64 },
        ]),
    }
}

fn counter_descriptor() -> TypeDescriptor {
    TypeDescriptor {
        type_key: "Counter".to_string(),
        size: 8,
        align: 8,
        fields: Some(vec![FieldDef { name: "count".to_string(), kind: FieldKind::I64 }]),
    }
}

fn opaque_descriptor() -> TypeDescriptor {
    TypeDescriptor { type_key: "GpuHandle".to_string(), size: 4, align: 4, fields: None }
}

fn registry() -> TypeRegistry {
    let mut reg = TypeRegistry::new();
    reg.register(position_descriptor());
    reg.register(counter_descriptor());
    reg.register(opaque_descriptor());
    reg
}

fn position_bytes(x: f64, y: f64) -> Vec<u8> {
    let mut data = x.to_le_bytes().to_vec();
    data.extend_from_slice(&y.to_le_bytes());
    data
}

fn position_tree(x: f64, y: f64) -> ValueTree {
    ValueTree::Table(vec![(
        "Position".to_string(),
        ValueTree::Table(vec![
            ("x".to_string(), ValueTree::Float(x.to_bits())),
            ("y".to_string(), ValueTree::Float(y.to_bits())),
        ]),
    )])
}

fn one_object_world() -> (World, ObjectId) {
    let id = ObjectId { index: 0, generation: 1 };
    let world = World {
        objects: vec![(
            id,
            vec![
                RawComponent { type_key: "Position".to_string(), data: position_bytes(1.0, 2.0) },
                RawComponent { type_key: "Health".to_string(), data: vec![100] },
            ],
        )],
    };
    (world, id)
}

#[test]
fn capture_of_registered_component_yields_wrapped_field_map() {
    let reg = registry();
    let c = RawComponent { type_key: "Position".to_string(), data: position_bytes(1.0, 2.0) };
    let captured = capture_component(&reg, &c);
    assert_eq!(captured.type_key, "Position");
    let decoded = RonComponent::from_serialized(&captured).expect("capture output must decode");
    assert_eq!(decoded.value, position_tree(1.0, 2.0));
    assert_eq!(decoded.name(), "Position");
}

#[test]
fn capture_of_unregistered_component_is_unit_marker() {
    let reg = registry();
    let c = RawComponent { type_key: "Health".to_string(), data: vec![100] };
    let captured = capture_component(&reg, &c);
    assert_eq!(captured.type_key, "Health");
    assert_eq!(ValueTree::decode(&captured.value), Some(ValueTree::Unit));
}

#[test]
fn capture_of_registered_type_without_codec_is_unit_marker() {
    let reg = registry();
    let c = RawComponent { type_key: "GpuHandle".to_string(), data: vec![0, 0, 0, 0] };
    let captured = capture_component(&reg, &c);
    assert_eq!(ValueTree::decode(&captured.value), Some(ValueTree::Unit));
}

#[test]
fn captured_field_map_applies_back_to_identical_bytes() {
    let reg = registry();
    let original = position_bytes(1.0, 2.0);
    let c = RawComponent { type_key: "Position".to_string(), data: original.clone() };
    let captured = capture_component(&reg, &c);
    let decoded = RonComponent::from_serialized(&captured).unwrap();
    let inner = decoded.components();
    let payload = inner.encode();
    let key = "Position".to_string();
    match component_bytes(&reg, &key, &payload) {
        Ok(bytes) => assert_eq!(bytes, original),
        Err(o) => panic!("apply failed: {:?}", o),
    }
}

#[test]
fn edit_one_field_and_apply_changes_exactly_that_field() {
    let reg = registry();
    let (mut world, id) = one_object_world();

    // capture, edit x from 1.0 to 5.0, send, dispatch
    let captured = capture_component(&reg, &world.objects[0].1[0]);
    let mut decoded = RonComponent::from_serialized(&captured).unwrap();
    let path = vec!["Position".to_string(), "x".to_string()];
    let ok = set_at_path(&mut decoded.value, &path, 0, ValueTree::Float(5.0f64.to_bits()));
    assert!(ok);
    let msg = make_insert_component(id, &decoded.type_key, decoded.components());

    let action = dispatch_message(&mut world, &reg, msg);
    assert_eq!(action, DispatchAction::Mutated(ApplyOutcome::Applied));
    assert_eq!(world.objects[0].1[0].data, position_bytes(5.0, 2.0));
    // the unregistered neighbour component is untouched
    assert_eq!(world.objects[0].1[1].data, vec![100]);
}

#[test]
fn full_graph_query_reports_registered_and_opaque_components() {
    let reg = registry();
    let (mut world, _id) = one_object_world();
    let action = dispatch_message(&mut world, &reg, EditorToRuntimeMsg::GetEntities);
    match action {
        DispatchAction::Reply(RuntimeToEditorMsg::Entities { entities }) => {
            assert_eq!(entities.len(), 1);
            let comps = &entities[0].1;
            assert_eq!(comps.len(), 2);
            assert_eq!(comps[0].type_key, "Position");
            let real = RonComponent::from_serialized(&comps[0]).unwrap();
            assert_eq!(real.value, position_tree(1.0, 2.0));
            assert_eq!(comps[1].type_key, "Health");
            assert_eq!(ValueTree::decode(&comps[1].value), Some(ValueTree::Unit));
        }
        other => panic!("expected snapshot reply, got {:?}", other),
    }
}

#[test]
fn mutating_unregistered_type_leaves_bytes_unchanged() {
    let reg = registry();
    let (mut world, id) = one_object_world();
    let msg = make_insert_component(
        id,
        &"Health".to_string(),
        &ValueTree::Table(vec![("hp".to_string(), ValueTree::Int(1))]),
    );
    let action = dispatch_message(&mut world, &reg, msg);
    assert_eq!(action, DispatchAction::Mutated(ApplyOutcome::UnknownType));
    assert_eq!(world.objects[0].1[0].data, position_bytes(1.0, 2.0));
    assert_eq!(world.objects[0].1[1].data, vec![100]);
}

#[test]
fn mutating_type_without_codec_is_ignored() {
    let reg = registry();
    let key = "GpuHandle".to_string();
    let payload = ValueTree::Table(vec![]).encode();
    assert_eq!(component_bytes(&reg, &key, &payload), Err(ApplyOutcome::Unsupported));
}

#[test]
fn undecodable_payload_is_a_bad_payload() {
    let reg = registry();
    let key = "Position".to_string();
    assert_eq!(component_bytes(&reg, &key, &vec![9, 9, 9]), Err(ApplyOutcome::BadPayload));
}

#[test]
fn non_map_payload_is_a_bad_payload() {
    let reg = registry();
    let key = "Position".to_string();
    let payload = ValueTree::Int(3).encode();
    assert_eq!(component_bytes(&reg, &key, &payload), Err(ApplyOutcome::BadPayload));
}

#[test]
fn shape_mismatch_is_a_bad_payload() {
    let reg = registry();
    let key = "Position".to_string();
    // wrong field name
    let renamed = ValueTree::Table(vec![
        ("x".to_string(), ValueTree::Float(1.0f64.to_bits())),
        ("z".to_string(), ValueTree::Float(2.0f64.to_bits())),
    ])
    .encode();
    assert_eq!(component_bytes(&reg, &key, &renamed), Err(ApplyOutcome::BadPayload));
    // wrong kind
    let wrong_kind = ValueTree::Table(vec![
        ("x".to_string(), ValueTree::Int(1)),
        ("y".to_string(), ValueTree::Float(2.0f64.to_bits())),
    ])
    .encode();
    assert_eq!(component_bytes(&reg, &key, &wrong_kind), Err(ApplyOutcome::BadPayload));
    // missing field
    let short = ValueTree::Table(vec![("x".to_string(), ValueTree::Float(1.0f64.to_bits()))])
        .encode();
    assert_eq!(component_bytes(&reg, &key, &short), Err(ApplyOutcome::BadPayload));
}

#[test]
fn mutating_missing_object_reports_unknown_object() {
    let reg = registry();
    let (mut world, _id) = one_object_world();
    let gone = ObjectId { index: 0, generation: 2 };
    let msg = make_insert_component(gone, &"Position".to_string(), &position_tree(0.0, 0.0));
    let action = dispatch_message(&mut world, &reg, msg);
    assert_eq!(action, DispatchAction::Mutated(ApplyOutcome::UnknownObject));
    assert_eq!(world.objects[0].1[0].data, position_bytes(1.0, 2.0));
}

#[test]
fn counter_component_round_trips_through_integer_field() {
    let reg = registry();
    let data: Vec<u8> = (-3i64).to_le_bytes().to_vec();
    let c = RawComponent { type_key: "Counter".to_string(), data: data.clone() };
    let captured = capture_component(&reg, &c);
    let decoded = RonComponent::from_serialized(&captured).unwrap();
    assert_eq!(
        decoded.value,
        ValueTree::Table(vec![(
            "Counter".to_string(),
            ValueTree::Table(vec![("count".to_string(), ValueTree::Int(-3))]),
        )])
    );
    let payload = decoded.components().encode();
    assert_eq!(component_bytes(&reg, &"Counter".to_string(), &payload), Ok(data));
}

#[test]
fn tick_drains_the_inbox_one_message_per_tick_in_order() {
    let reg = registry();
    let (mut world, _id) = one_object_world();
    let mut dl = DispatchLoop::new();
    assert_eq!(dl.state, LoopState::Idle);

    let mut inbox: Fifo<EditorToRuntimeMsg> = Fifo::new();
    inbox.send(EditorToRuntimeMsg::Save);
    inbox.send(EditorToRuntimeMsg::Shutdown);

    assert_eq!(dl.tick(&mut world, &reg, &mut inbox), Some(DispatchAction::SaveScene));
    assert_eq!(dl.tick(&mut world, &reg, &mut inbox), Some(DispatchAction::Shutdown));
    assert_eq!(dl.tick(&mut world, &reg, &mut inbox), None);
    assert_eq!(dl.state, LoopState::Idle);
}

#[test]
fn input_messages_translate_field_for_field() {
    let reg = registry();
    let (mut world, _id) = one_object_world();

    let pos = PhysicalPosition { x_bits: 10.5f64.to_bits(), y_bits: 20.25f64.to_bits() };
    let action = dispatch_message(
        &mut world,
        &reg,
        EditorToRuntimeMsg::CursorMoved { position: pos },
    );
    assert_eq!(action, DispatchAction::Input(InputEvent::CursorMoved { position: pos }));

    let action = dispatch_message(
        &mut world,
        &reg,
        EditorToRuntimeMsg::MouseInput { button: MouseButton::Left, state: ElementState::Pressed },
    );
    assert_eq!(
        action,
        DispatchAction::Input(InputEvent::MouseInput {
            button: MouseButton::Left,
            state: ElementState::Pressed,
        })
    );
}

#[test]
fn layout_and_lifecycle_messages_pass_their_payload_through() {
    let reg = registry();
    let (mut world, _id) = one_object_world();

    let action = dispatch_message(
        &mut world,
        &reg,
        EditorToRuntimeMsg::LayoutChange {
            min_x_bits: 1.0f32.to_bits(),
            min_y_bits: 2.0f32.to_bits(),
            width_bits: 640.0f32.to_bits(),
            height_bits: 480.0f32.to_bits(),
            window_position: WindowPosition { x: -3, y: 40 },
        },
    );
    assert_eq!(
        action,
        DispatchAction::Layout {
            min_x_bits: 1.0f32.to_bits(),
            min_y_bits: 2.0f32.to_bits(),
            width_bits: 640.0f32.to_bits(),
            height_bits: 480.0f32.to_bits(),
            window_position: WindowPosition { x: -3, y: 40 },
        }
    );

    let action = dispatch_message(
        &mut world,
        &reg,
        EditorToRuntimeMsg::LoadScene { path: "scenes/main.scn".to_string() },
    );
    assert_eq!(action, DispatchAction::LoadScene { path: "scenes/main.scn".to_string() });
}
