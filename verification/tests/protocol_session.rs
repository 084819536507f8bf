//! Channels, handshake, session state and display names on concrete
//! values.

use roth::bridge::ObjectId;
use roth::channel::Fifo;
use roth::component::{RonComponent, RonComponentSerialized};
use roth::dispatch::{dispatch_message, DispatchAction};
use roth::edit::set_at_path;
use roth::handshake::{
    editor_complete, runtime_complete, runtime_respond, HandshakeError,
};
use roth::messages::{EditorToRuntimeMsg, RuntimeToEditorMsg};
use roth::registry::TypeRegistry;
use roth::session::{get_entity_name, EditorAction, EditorEvent, RuntimeStatus, SharedState};
use roth::value::ValueTree;
use roth::bridge::World;

#[test]
fn fifo_delivers_in_send_order() {
    let mut q: Fifo<EditorToRuntimeMsg> = Fifo::new();
    let sent = vec![
        EditorToRuntimeMsg::Save,
        EditorToRuntimeMsg::GetEntities,
        EditorToRuntimeMsg::LoadScene { path: "scenes/main".to_string() },
        EditorToRuntimeMsg::CursorEntered,
        EditorToRuntimeMsg::Shutdown,
    ];
    for m in &sent {
        q.send(m.clone());
    }
    let mut received = Vec::new();
    while let Some(m) = q.try_recv() {
        received.push(m);
    }
    assert_eq!(received, sent);
    assert_eq!(q.try_recv(), None);
}

#[test]
fn handshake_links_the_channels_symmetrically() {
    let (pending, reply) = runtime_respond(7, 99);
    let (editor_links, to_send, destination) =
        editor_complete(Some(reply), 8).expect("step three succeeds on a reply");
    assert_eq!(destination, 99);
    let runtime_links = runtime_complete(pending, Some(to_send)).expect("step four succeeds");

    assert_eq!(editor_links.sender.channel, runtime_links.receiver.channel);
    assert_eq!(editor_links.receiver.channel, runtime_links.sender.channel);
    assert_eq!(editor_links.sender.channel, 7);
    assert_eq!(editor_links.receiver.channel, 8);
}

#[test]
fn first_message_after_handshake_is_not_lost() {
    let mut to_runtime: Fifo<EditorToRuntimeMsg> = Fifo::new();
    to_runtime.send(EditorToRuntimeMsg::GetEntities);
    assert_eq!(to_runtime.try_recv(), Some(EditorToRuntimeMsg::GetEntities));
    assert_eq!(to_runtime.try_recv(), None);
}

#[test]
fn missing_step_two_fails_deterministically() {
    assert_eq!(editor_complete(None, 8), Err(HandshakeError::NoReply));
}

#[test]
fn stopping_the_runtime_queues_shutdown_exactly_once() {
    let mut s = SharedState::new("example".to_string());
    assert_eq!(s.runtime_status, RuntimeStatus::Stopped);
    s.start_runtime();
    assert_eq!(s.runtime_status, RuntimeStatus::Running);

    s.stop_runtime();
    s.stop_runtime();
    assert_eq!(s.runtime_status, RuntimeStatus::Stopped);

    let mut shutdowns: u32 = 0;
    while let Some(m) = s.outbox.try_recv() {
        if m == EditorToRuntimeMsg::Shutdown {
            shutdowns += 1;
        }
    }
    assert_eq!(shutdowns, 1);
}

#[test]
fn one_shutdown_message_gives_one_shutdown_action() {
    let reg = TypeRegistry::new();
    let mut world = World { objects: vec![] };
    let batch = vec![
        EditorToRuntimeMsg::Save,
        EditorToRuntimeMsg::Shutdown,
        EditorToRuntimeMsg::CursorLeft,
    ];
    let mut shutdown_actions: u32 = 0;
    for m in batch {
        if dispatch_message(&mut world, &reg, m) == DispatchAction::Shutdown {
            shutdown_actions += 1;
        }
    }
    assert_eq!(shutdown_actions, 1);
}

#[test]
fn messages_without_a_session_are_dropped() {
    let mut s = SharedState::new("example".to_string());
    s.send_to_runtime(EditorToRuntimeMsg::Save);
    assert_eq!(s.outbox.len(), 0);
    s.start_runtime();
    s.send_to_runtime(EditorToRuntimeMsg::Save);
    assert_eq!(s.outbox.len(), 1);
}

#[test]
fn editor_step_services_each_event_kind() {
    let mut s = SharedState::new("example".to_string());

    let a = s.editor_step(EditorEvent::UiMessage(EditorToRuntimeMsg::Save));
    assert_eq!(a, EditorAction::Transmit(EditorToRuntimeMsg::Save));

    let snapshot = RuntimeToEditorMsg::Entities {
        entities: vec![(ObjectId { index: 3, generation: 1 }, vec![])],
    };
    let a = s.editor_step(EditorEvent::RuntimeMessage(snapshot));
    assert_eq!(a, EditorAction::Continue);
    assert_eq!(s.entities.len(), 1);

    let a = s.editor_step(EditorEvent::OutputLine("ready".to_string()));
    assert_eq!(a, EditorAction::Continue);
    assert_eq!(s.runtime_output, "ready\n");

    let a = s.editor_step(EditorEvent::ProcessExited);
    assert_eq!(a, EditorAction::Exit);
}

fn named_component(label: &str) -> RonComponent {
    RonComponent {
        type_key: "bevy_core::name::Name".to_string(),
        value: ValueTree::Table(vec![(
            "bevy_core::name::Name".to_string(),
            ValueTree::Table(vec![
                ("hash".to_string(), ValueTree::Int(11)),
                ("name".to_string(), ValueTree::Text(label.to_string())),
            ]),
        )]),
    }
}

#[test]
fn entity_with_name_component_is_labelled_by_it() {
    let id = ObjectId { index: 0, generation: 1 };
    let comps = vec![named_component("Cube!")];
    assert_eq!(get_entity_name(&id, &comps), "Cube! (0v1)");
}

#[test]
fn entity_with_known_component_is_labelled_by_the_known_name() {
    let id = ObjectId { index: 1, generation: 0 };
    let comps = vec![RonComponent {
        type_key: "bevy_render::camera::camera::Camera".to_string(),
        value: ValueTree::Unit,
    }];
    assert_eq!(get_entity_name(&id, &comps), "Camera (1v0)");
}

#[test]
fn unnamed_entity_is_labelled_by_its_tag() {
    let id = ObjectId { index: 25, generation: 9 };
    let comps = vec![RonComponent { type_key: "Mystery".to_string(), value: ValueTree::Unit }];
    assert_eq!(get_entity_name(&id, &comps), "25v9");
}

#[test]
fn component_name_prefers_the_map_key() {
    let c = named_component("Cube!");
    assert_eq!(c.name(), "bevy_core::name::Name");
    let plain = RonComponent { type_key: "Health".to_string(), value: ValueTree::Unit };
    assert_eq!(plain.name(), "Health");
}

#[test]
fn components_unwraps_one_level() {
    let c = named_component("Cube!");
    match c.components() {
        ValueTree::Table(entries) => {
            assert_eq!(entries.len(), 2);
            assert_eq!(entries[1].0, "name");
        }
        other => panic!("expected the field map, got {:?}", other),
    }
}

#[test]
fn components_mut_edits_the_field_map_in_place() {
    let mut c = named_component("Cube!");
    let inner = c.components_mut();
    let path: Vec<String> = vec!["name".to_string()];
    let ok = set_at_path(inner, &path, 0, ValueTree::Text("Sphere".to_string()));
    assert!(ok);
    assert_eq!(c, named_component("Sphere"));
}

#[test]
fn from_serialized_rejects_garbage_and_accepts_encodings() {
    let bad = RonComponentSerialized { type_key: "X".to_string(), value: vec![42, 1] };
    assert!(RonComponent::from_serialized(&bad).is_none());

    let tree = ValueTree::Text("ok".to_string());
    let good = RonComponentSerialized { type_key: "X".to_string(), value: tree.encode() };
    let c = RonComponent::from_serialized(&good).unwrap();
    assert_eq!(c.type_key, "X");
    assert_eq!(c.value, ValueTree::Text("ok".to_string()));
}

#[test]
fn set_at_path_fails_without_touching_the_tree() {
    let mut tree = ValueTree::Table(vec![("a".to_string(), ValueTree::Int(1))]);
    let path = vec!["missing".to_string()];
    let ok = set_at_path(&mut tree, &path, 0, ValueTree::Int(2));
    assert!(!ok);
    assert_eq!(tree, ValueTree::Table(vec![("a".to_string(), ValueTree::Int(1))]));
}

#[test]
fn short_name_drops_the_module_path() {
    let c = named_component("Cube!");
    assert_eq!(c.short_name(), "Name");
}

#[test]
fn short_name_shortens_each_segment_inside_generics() {
    let c = RonComponent {
        type_key: "bevy_asset::handle::Handle<bevy_render::mesh::mesh::Mesh>".to_string(),
        value: ValueTree::Unit,
    };
    assert_eq!(c.short_name(), "Handle<Mesh>");
}

#[test]
fn short_name_keeps_a_plain_name() {
    let c = RonComponent { type_key: "Position".to_string(), value: ValueTree::Unit };
    assert_eq!(c.short_name(), "Position");
}
