//! The runtime-side dispatch loop: one non-blocking receive per
//! scheduling tick, one message fully handled before the next is read.
//! Each message maps to exactly one action for the host: a snapshot
//! reply, a graph mutation, a native input event, a layout update or a
//! lifecycle step.

use vstd::prelude::*;
use crate::bridge::{snapshot_matches, spec_insert_result, ApplyOutcome, World};
use crate::channel::Fifo;
use crate::messages::{
    EditorToRuntimeMsg, ElementState, MouseButton, MouseScrollDelta, PhysicalKey,
    PhysicalPosition, RuntimeToEditorMsg, WindowPosition,
};
use crate::registry::TypeRegistry;

verus! {

/// An input event in the form the host simulation consumes.
#[derive(Debug, Clone, PartialEq)]
pub enum InputEvent {
    CursorMoved { position: PhysicalPosition },
    CursorEntered,
    CursorLeft,
    MouseInput { button: MouseButton, state: ElementState },
    MouseWheel { delta: MouseScrollDelta },
    KeyboardInput { state: ElementState, physical_key: PhysicalKey },
    TextInput { text: String },
}

/// What the host must perform after one message was handled.  Exactly
/// one action per message; the dispatch itself performs the graph
/// mutation and builds the snapshot, the host performs the rest.
#[derive(Debug, Clone, PartialEq)]
pub enum DispatchAction {
    Reply(RuntimeToEditorMsg),
    Mutated(ApplyOutcome),
    Input(InputEvent),
    Layout {
        min_x_bits: u32,
        min_y_bits: u32,
        width_bits: u32,
        height_bits: u32,
        window_position: WindowPosition,
    },
    Shutdown,
    SaveScene,
    LoadScene { path: String },
}

/// The full meaning of one dispatch: how the object graph after the
/// message relates to the graph before it, and which action comes out,
/// for every message of the protocol.
pub open spec fn dispatch_relates(
    old_objs: Seq<(crate::bridge::ObjectId, Vec<crate::bridge::RawComponent>)>,
    new_objs: Seq<(crate::bridge::ObjectId, Vec<crate::bridge::RawComponent>)>,
    regs: Seq<crate::registry::TypeDescriptor>,
    msg: EditorToRuntimeMsg,
    action: DispatchAction,
) -> bool {
    match msg {
        EditorToRuntimeMsg::Shutdown => action == DispatchAction::Shutdown && new_objs == old_objs,
        EditorToRuntimeMsg::Save => action == DispatchAction::SaveScene && new_objs == old_objs,
        EditorToRuntimeMsg::LoadScene { path } => action == (DispatchAction::LoadScene { path })
            && new_objs == old_objs,
        EditorToRuntimeMsg::LayoutChange {
            min_x_bits,
            min_y_bits,
            width_bits,
            height_bits,
            window_position,
        } => action == (DispatchAction::Layout {
            min_x_bits,
            min_y_bits,
            width_bits,
            height_bits,
            window_position,
        }) && new_objs == old_objs,
        EditorToRuntimeMsg::CursorMoved { position } => action == DispatchAction::Input(
            InputEvent::CursorMoved { position },
        ) && new_objs == old_objs,
        EditorToRuntimeMsg::CursorEntered => action == DispatchAction::Input(
            InputEvent::CursorEntered,
        ) && new_objs == old_objs,
        EditorToRuntimeMsg::CursorLeft => action == DispatchAction::Input(InputEvent::CursorLeft)
            && new_objs == old_objs,
        EditorToRuntimeMsg::MouseInput { button, state } => action == DispatchAction::Input(
            InputEvent::MouseInput { button, state },
        ) && new_objs == old_objs,
        EditorToRuntimeMsg::MouseWheel { delta } => action == DispatchAction::Input(
            InputEvent::MouseWheel { delta },
        ) && new_objs == old_objs,
        EditorToRuntimeMsg::KeyboardInput { state, physical_key } => action
            == DispatchAction::Input(InputEvent::KeyboardInput { state, physical_key })
            && new_objs == old_objs,
        EditorToRuntimeMsg::ReceivedCharacter { text } => action == DispatchAction::Input(
            InputEvent::TextInput { text },
        ) && new_objs == old_objs,
        EditorToRuntimeMsg::GetEntities => new_objs == old_objs && (action matches
            DispatchAction::Reply(m) && m matches RuntimeToEditorMsg::Entities { entities }
            && snapshot_matches(entities@, old_objs, regs)),
        EditorToRuntimeMsg::InsertComponent { entity, component } => action matches
            DispatchAction::Mutated(o) && spec_insert_result(
            old_objs,
            new_objs,
            regs,
            entity,
            component.type_key@,
            component.value@,
            o,
        ),
    }
}

/// Handles one message: dispatch by tag to the query handler, the
/// mutation handler, the input translation, or the lifecycle handler.
/// Per-request failures are contained in the returned outcome and never
/// stop later messages.
pub fn dispatch_message(world: &mut World, reg: &TypeRegistry, msg: EditorToRuntimeMsg) -> (r:
    DispatchAction)
    requires
        reg.wf(),
        old(world).wf(*reg),
    ensures
        final(world).wf(*reg),
        dispatch_relates(old(world).objects@, final(world).objects@, reg.descriptors@, msg, r),
        r is Shutdown <==> msg is Shutdown,
{
    match msg {
        EditorToRuntimeMsg::Shutdown => DispatchAction::Shutdown,
        EditorToRuntimeMsg::Save => DispatchAction::SaveScene,
        EditorToRuntimeMsg::LoadScene { path } => DispatchAction::LoadScene { path },
        EditorToRuntimeMsg::LayoutChange {
            min_x_bits,
            min_y_bits,
            width_bits,
            height_bits,
            window_position,
        } => DispatchAction::Layout {
            min_x_bits,
            min_y_bits,
            width_bits,
            height_bits,
            window_position,
        },
        EditorToRuntimeMsg::CursorMoved { position } => DispatchAction::Input(
            InputEvent::CursorMoved { position },
        ),
        EditorToRuntimeMsg::CursorEntered => DispatchAction::Input(InputEvent::CursorEntered),
        EditorToRuntimeMsg::CursorLeft => DispatchAction::Input(InputEvent::CursorLeft),
        EditorToRuntimeMsg::MouseInput { button, state } => DispatchAction::Input(
            InputEvent::MouseInput { button, state },
        ),
        EditorToRuntimeMsg::MouseWheel { delta } => DispatchAction::Input(
            InputEvent::MouseWheel { delta },
        ),
        EditorToRuntimeMsg::KeyboardInput { state, physical_key } => DispatchAction::Input(
            InputEvent::KeyboardInput { state, physical_key },
        ),
        EditorToRuntimeMsg::ReceivedCharacter { text } => DispatchAction::Input(
            InputEvent::TextInput { text },
        ),
        EditorToRuntimeMsg::GetEntities => {
            let entities = world.snapshot(reg);
            DispatchAction::Reply(RuntimeToEditorMsg::Entities { entities })
        }
        EditorToRuntimeMsg::InsertComponent { entity, component } => {
            let outcome = world.insert_component(reg, entity, &component);
            DispatchAction::Mutated(outcome)
        }
    }
}

/// The loop's two effective states.  `Processing` is only ever held
/// while one message is being handled; a tick always returns to `Idle`.
#[derive(Debug, Clone, Copy, PartialEq, Eq, Structural)]
pub enum LoopState {
    Idle,
    Processing,
}

/// The per-tick consumer of the inbound channel direction.
#[derive(Debug)]
pub struct DispatchLoop {
    pub state: LoopState,
}

impl DispatchLoop {
    /// A fresh loop, idle.
    pub fn new() -> (r: DispatchLoop)
        ensures
            r.state == LoopState::Idle,
    {
        DispatchLoop { state: LoopState::Idle }
    }

    /// One scheduling tick: a non-blocking receive, then — on a message —
    /// one full dispatch before returning to idle.  The loop is
    /// non-reentrant per message: a tick starts only from idle.  Messages
    /// beyond the first stay queued, in order, for later ticks; there is
    /// no reordering and no priority.
    pub fn tick(
        &mut self,
        world: &mut World,
        reg: &TypeRegistry,
        inbox: &mut Fifo<EditorToRuntimeMsg>,
    ) -> (r: Option<DispatchAction>)
        requires
            reg.wf(),
            old(world).wf(*reg),
            old(self).state == LoopState::Idle,
        ensures
            final(self).state == LoopState::Idle,
            final(world).wf(*reg),
            old(inbox)@.len() == 0 ==> r is None && final(inbox)@ == old(inbox)@
                && final(world).objects@ == old(world).objects@,
            old(inbox)@.len() > 0 ==> final(inbox)@ == old(inbox)@.drop_first() && (r matches Some(
                a,
            ) && dispatch_relates(
                old(world).objects@,
                final(world).objects@,
                reg.descriptors@,
                old(inbox)@[0],
                a,
            )),
    {
        self.state = LoopState::Processing;
        let r = match inbox.try_recv() {
            None => None,
            Some(msg) => Some(dispatch_message(world, reg, msg)),
        };
        self.state = LoopState::Idle;
        r
    }
}

/// Shutdown messages in a batch.
pub open spec fn count_shutdown_msgs(ms: Seq<EditorToRuntimeMsg>) -> nat
    decreases ms,
{
    if ms.len() == 0 {
        0
    } else {
        (if ms.first() is Shutdown {
            1nat
        } else {
            0nat
        }) + count_shutdown_msgs(ms.drop_first())
    }
}

/// Shutdown actions in a batch.
pub open spec fn count_shutdown_actions(actions: Seq<DispatchAction>) -> nat
    decreases actions,
{
    if actions.len() == 0 {
        0
    } else {
        (if actions.first() is Shutdown {
            1nat
        } else {
            0nat
        }) + count_shutdown_actions(actions.drop_first())
    }
}

/// GRACEFUL SHUTDOWN: a batch of dispatches produces exactly as many
/// shutdown effects as the batch holds shutdown messages — in
/// particular, one shutdown message sent exactly once yields exactly one
/// shutdown effect, wherever in the batch it stands.  The premise is
/// what `dispatch_message` ensures of every message/action pair.
pub proof fn lemma_shutdown_effects(ms: Seq<EditorToRuntimeMsg>, actions: Seq<DispatchAction>)
    requires
        actions.len() == ms.len(),
        forall|i: int|
            0 <= i < ms.len() ==> (((#[trigger] actions[i]) is Shutdown) <==> (ms[i] is Shutdown)),
    ensures
        count_shutdown_actions(actions) == count_shutdown_msgs(ms),
    decreases ms,
{
    if ms.len() > 0 {
        assert(actions.first() is Shutdown <==> ms.first() is Shutdown);
        assert forall|i: int|
            0 <= i < ms.drop_first().len() implies (((#[trigger] actions.drop_first()[i])
            is Shutdown) <==> (ms.drop_first()[i] is Shutdown)) by {
            assert(actions.drop_first()[i] == actions[i + 1]);
            assert(ms.drop_first()[i] == ms[i + 1]);
        }
        lemma_shutdown_effects(ms.drop_first(), actions.drop_first());
    }
}

} // verus!
