//! The editor-side session: the one shared state that the editor's view
//! components read and write, and the decisions of the editor's event
//! loop.  The loop itself — process spawning, channel awaits, output
//! capture — runs in the host; each ready event is handed here and the
//! returned action performed.

use vstd::prelude::*;
use vstd::string::{StrSliceExecFns, StringExecFns};
use vstd::utf8::encode_utf8;
use crate::bridge::ObjectId;
use crate::channel::Fifo;
use crate::component::{spec_component_name, RonComponent, RonComponentSerialized};
use crate::edit::{spec_table_find, table_find_from};
use crate::messages::{EditorToRuntimeMsg, RuntimeToEditorMsg};
use crate::value::{abs_entries, lemma_abs_entries_len, TreeV, ValueTree};
use vstd::pervasive::unreached;

verus! {

/// The decimal digit character for one digit value.
pub open spec fn spec_digit_char(d: nat) -> char {
    if d == 0 {
        '0'
    } else if d == 1 {
        '1'
    } else if d == 2 {
        '2'
    } else if d == 3 {
        '3'
    } else if d == 4 {
        '4'
    } else if d == 5 {
        '5'
    } else if d == 6 {
        '6'
    } else if d == 7 {
        '7'
    } else if d == 8 {
        '8'
    } else {
        '9'
    }
}

/// The decimal digits of a number, most significant first.
pub open spec fn spec_digits(n: nat) -> Seq<char>
    decreases n,
{
    if n < 10 {
        seq![spec_digit_char(n)]
    } else {
        spec_digits(n / 10).push(spec_digit_char(n % 10))
    }
}

/// The `index`v`generation` tag under which an object is displayed.
pub open spec fn spec_object_tag(id: ObjectId) -> Seq<char> {
    spec_digits(id.index as nat) + seq!['v'] + spec_digits(id.generation as nat)
}

/// The parenthesized tag appended after a display name.
pub open spec fn spec_object_suffix(id: ObjectId) -> Seq<char> {
    seq![' ', '('] + spec_object_tag(id) + seq![')']
}

/// `ndl` occurs in `h` starting at `i`.
pub open spec fn spec_contains_at(h: Seq<u8>, ndl: Seq<u8>, i: int) -> bool {
    0 <= i && i + ndl.len() <= h.len() && h.subrange(i, i + ndl.len()) == ndl
}

/// `ndl` occurs somewhere in `h`.
pub open spec fn spec_contains(h: Seq<u8>, ndl: Seq<u8>) -> bool {
    exists|i: int| spec_contains_at(h, ndl, i)
}

/// One digit as a string.
fn digit_str(d: u32) -> (r: &'static str)
    requires
        d < 10,
    ensures
        r@ == seq![spec_digit_char(d as nat)],
{
    proof {
        reveal_strlit("0");
        reveal_strlit("1");
        reveal_strlit("2");
        reveal_strlit("3");
        reveal_strlit("4");
        reveal_strlit("5");
        reveal_strlit("6");
        reveal_strlit("7");
        reveal_strlit("8");
        reveal_strlit("9");
    }
    match d {
        0 => "0",
        1 => "1",
        2 => "2",
        3 => "3",
        4 => "4",
        5 => "5",
        6 => "6",
        7 => "7",
        8 => "8",
        _ => "9",
    }
}

/// Appends a number's decimal digits.
fn push_u32_digits(n: u32, out: &mut String)
    ensures
        final(out)@ == old(out)@ + spec_digits(n as nat),
    decreases n,
{
    if n < 10 {
        out.append(digit_str(n));
    } else {
        push_u32_digits(n / 10, out);
        out.append(digit_str(n % 10));
        proof {
            assert(out@ =~= old(out)@ + spec_digits(n as nat));
        }
    }
}

/// The bytes of `ndl` compared against `h` at offset `i`.
fn bytes_match_at(h: &[u8], ndl: &[u8], i: usize) -> (r: bool)
    requires
        i + ndl@.len() <= h@.len(),
    ensures
        r == (h@.subrange(i as int, i + ndl@.len()) == ndl@),
{
    let m = ndl.len();
    let hn = h.len();
    let mut j: usize = 0;
    while j < m
        invariant
            m == ndl@.len(),
            hn == h@.len(),
            i + m <= h@.len(),
            j <= m,
            forall|k: int| 0 <= k < j ==> h@[i + k] == ndl@[k],
        decreases m - j,
    {
        if h[i + j] != ndl[j] {
            proof {
                assert(h@.subrange(i as int, i + ndl@.len())[j as int] != ndl@[j as int]);
            }
            return false;
        }
        j += 1;
    }
    proof {
        assert(h@.subrange(i as int, i + ndl@.len()) =~= ndl@);
    }
    true
}

/// Naive substring search over bytes, as the standard library's
/// `contains` means it for strings.
fn bytes_contains(h: &[u8], ndl: &[u8]) -> (r: bool)
    ensures
        r == spec_contains(h@, ndl@),
{
    let n = h.len();
    let m = ndl.len();
    if m > n {
        proof {
            assert forall|i: int| !spec_contains_at(h@, ndl@, i) by {}
        }
        return false;
    }
    if m == 0 {
        proof {
            assert(h@.subrange(0, 0) =~= ndl@);
            assert(spec_contains_at(h@, ndl@, 0));
        }
        return true;
    }
    let mut i: usize = 0;
    while i <= n - m
        invariant
            n == h@.len(),
            m == ndl@.len(),
            0 < m <= n,
            i <= n - m + 1,
            forall|k: int| 0 <= k < i ==> !spec_contains_at(h@, ndl@, k),
        decreases n - m + 1 - i,
    {
        if bytes_match_at(h, ndl, i) {
            proof {
                assert(spec_contains_at(h@, ndl@, i as int));
            }
            return true;
        }
        i += 1;
    }
    proof {
        assert forall|k: int| !spec_contains_at(h@, ndl@, k) by {
            if 0 <= k <= n - m {
                assert(!spec_contains_at(h@, ndl@, k));
            }
        }
    }
    false
}

/// Some component's display name contains `ndl` (by UTF-8 bytes).
pub open spec fn spec_known_match(comps: Seq<RonComponent>, ndl: Seq<char>) -> bool {
    exists|i: int|
        0 <= i < comps.len() && spec_contains(
            encode_utf8(spec_component_name((#[trigger] comps[i]).value@, comps[i].type_key@)),
            encode_utf8(ndl),
        )
}

/// Whether any component's display name contains `ndl`.
fn any_name_contains(comps: &Vec<RonComponent>, ndl: &str) -> (r: bool)
    ensures
        r == spec_known_match(comps@, ndl@),
{
    let n = comps.len();
    let mut i: usize = 0;
    while i < n
        invariant
            n == comps@.len(),
            i <= n,
            forall|k: int|
                0 <= k < i ==> !spec_contains(
                    encode_utf8(
                        spec_component_name((#[trigger] comps@[k]).value@, comps@[k].type_key@),
                    ),
                    encode_utf8(ndl@),
                ),
        decreases n - i,
    {
        let name = comps[i].name();
        if bytes_contains(name.as_str().as_bytes(), ndl.as_bytes()) {
            return true;
        }
        i += 1;
    }
    false
}

/// Index of the first component whose display name is `key`.
pub open spec fn spec_find_named(comps: Seq<RonComponent>, key: Seq<char>) -> Option<int>
    decreases comps,
{
    if comps.len() == 0 {
        None
    } else if spec_component_name(comps.first().value@, comps.first().type_key@) == key {
        Some(0)
    } else {
        match spec_find_named(comps.drop_first(), key) {
            Some(i) => Some(i + 1),
            None => None,
        }
    }
}

/// A found index is in bounds and carries the name.
pub proof fn lemma_find_named(comps: Seq<RonComponent>, key: Seq<char>)
    ensures
        spec_find_named(comps, key) matches Some(i) ==> 0 <= i < comps.len()
            && spec_component_name(comps[i].value@, comps[i].type_key@) == key,
    decreases comps,
{
    if comps.len() > 0 && spec_component_name(comps.first().value@, comps.first().type_key@)
        != key {
        lemma_find_named(comps.drop_first(), key);
    }
}

/// Linear scan for a component by display name, from index `i`.
fn find_named_from(comps: &Vec<RonComponent>, i: usize, key: &String) -> (r: Option<usize>)
    requires
        i <= comps@.len(),
    ensures
        r matches Some(j) ==> i <= j < comps@.len() && spec_find_named(
            comps@.skip(i as int),
            key@,
        ) == Some(j - i),
        r is None ==> spec_find_named(comps@.skip(i as int), key@) is None,
    decreases comps@.len() - i,
{
    if i == comps.len() {
        None
    } else {
        proof {
            assert(comps@.skip(i as int).first() == comps@[i as int]);
            assert(comps@.skip(i as int).drop_first() =~= comps@.skip(i + 1));
        }
        let name = comps[i].name();
        if name.eq(key) {
            Some(i)
        } else {
            find_named_from(comps, i + 1, key)
        }
    }
}

/// The value of the `name` field inside a `Name` component: the
/// component's field map (the first value of its wrapper map) holds a
/// text value under the key `name`.
pub open spec fn spec_name_field(c: RonComponent) -> Option<TreeV> {
    match c.value@ {
        TreeV::Table(es) => if es.len() > 0 {
            match es[0].1 {
                TreeV::Table(inner) => match spec_table_find(inner, "name"@) {
                    Some(k) => Some(inner[k].1),
                    None => None,
                },
                _ => None,
            }
        } else {
            None
        },
        _ => None,
    }
}

/// The components under which a `Name`-carrying component must present
/// its data for the scene view to read it.
pub open spec fn spec_named_shape_ok(comps: Seq<RonComponent>, key: Seq<char>) -> bool {
    match spec_find_named(comps, key) {
        Some(i) => spec_name_field(comps[i]) matches Some(t) && t is Text,
        None => true,
    }
}

/// Whether a runtime process is attached to the session.
#[derive(Debug, Clone, Copy, PartialEq, Eq, Structural)]
pub enum RuntimeStatus {
    Stopped,
    Running,
}

/// Session state shared between the editor's view components.  Writers
/// hold it only for the duration of a single update, never across a
/// suspension point.
#[derive(Debug)]
pub struct SharedState {
    pub project_path: String,
    pub runtime_status: RuntimeStatus,
    /// Messages bound for the runtime, in send order, not yet handed to
    /// the channel.
    pub outbox: Fifo<EditorToRuntimeMsg>,
    /// Whether a live session holds the sending half of the channel.
    pub sender_connected: bool,
    /// Captured standard output and error of the runtime process, line
    /// by line.
    pub runtime_output: String,
    pub selected_entity: Option<ObjectId>,
    /// The last full snapshot received from the runtime.
    pub entities: Vec<(ObjectId, Vec<RonComponentSerialized>)>,
}

/// One ready event of the editor's multiplexed loop: a message from the
/// editor's own views, a message from the runtime, a captured output
/// line, or the end of the runtime process.
#[derive(Debug)]
pub enum EditorEvent {
    UiMessage(EditorToRuntimeMsg),
    RuntimeMessage(RuntimeToEditorMsg),
    OutputLine(String),
    ProcessExited,
}

/// What the loop must do with the event it serviced: transmit a message
/// on the channel, keep looping, or leave the loop.
#[derive(Debug, PartialEq)]
pub enum EditorAction {
    Transmit(EditorToRuntimeMsg),
    Continue,
    Exit,
}

impl SharedState {
    /// A fresh session for a project, with no runtime attached.
    pub fn new(project_path: String) -> (r: SharedState)
        ensures
            r.project_path == project_path,
            r.runtime_status == RuntimeStatus::Stopped,
            r.outbox@ == Seq::<EditorToRuntimeMsg>::empty(),
            !r.sender_connected,
            r.runtime_output@.len() == 0,
            r.selected_entity is None,
            r.entities@.len() == 0,
    {
        SharedState {
            project_path,
            runtime_status: RuntimeStatus::Stopped,
            outbox: Fifo::new(),
            sender_connected: false,
            runtime_output: String::new(),
            selected_entity: None,
            entities: Vec::new(),
        }
    }

    /// Attaches a fresh runtime session: a new, empty channel and the
    /// running status.
    pub fn start_runtime(&mut self)
        ensures
            final(self).runtime_status == RuntimeStatus::Running,
            final(self).sender_connected,
            final(self).outbox@ == Seq::<EditorToRuntimeMsg>::empty(),
            final(self).project_path == old(self).project_path,
            final(self).runtime_output == old(self).runtime_output,
            final(self).selected_entity == old(self).selected_entity,
            final(self).entities == old(self).entities,
    {
        self.outbox = Fifo::new();
        self.sender_connected = true;
        self.runtime_status = RuntimeStatus::Running;
    }

    /// Detaches the runtime: while the sending half is still held, the
    /// shutdown message is queued exactly once and the half is given up,
    /// so no later call can queue it again.
    pub fn stop_runtime(&mut self)
        ensures
            final(self).runtime_status == RuntimeStatus::Stopped,
            !final(self).sender_connected,
            old(self).sender_connected ==> final(self).outbox@ == old(self).outbox@.push(
                EditorToRuntimeMsg::Shutdown,
            ),
            !old(self).sender_connected ==> final(self).outbox@ == old(self).outbox@,
            final(self).project_path == old(self).project_path,
            final(self).runtime_output == old(self).runtime_output,
            final(self).selected_entity == old(self).selected_entity,
            final(self).entities == old(self).entities,
    {
        if self.sender_connected {
            self.outbox.send(EditorToRuntimeMsg::Shutdown);
            self.sender_connected = false;
        }
        self.runtime_status = RuntimeStatus::Stopped;
    }

    /// Queues one message for the runtime; without an attached session
    /// the message is dropped.
    pub fn send_to_runtime(&mut self, msg: EditorToRuntimeMsg)
        ensures
            old(self).sender_connected ==> final(self).outbox@ == old(self).outbox@.push(msg),
            !old(self).sender_connected ==> final(self).outbox@ == old(self).outbox@,
            final(self).runtime_status == old(self).runtime_status,
            final(self).sender_connected == old(self).sender_connected,
            final(self).project_path == old(self).project_path,
            final(self).runtime_output == old(self).runtime_output,
            final(self).selected_entity == old(self).selected_entity,
            final(self).entities == old(self).entities,
    {
        if self.sender_connected {
            self.outbox.send(msg);
        }
    }

    /// Marks one object as selected in the scene view.
    pub fn select_entity(&mut self, id: ObjectId)
        ensures
            final(self).selected_entity == Some(id),
            final(self).runtime_status == old(self).runtime_status,
            final(self).sender_connected == old(self).sender_connected,
            final(self).outbox@ == old(self).outbox@,
            final(self).project_path == old(self).project_path,
            final(self).runtime_output == old(self).runtime_output,
            final(self).entities == old(self).entities,
    {
        self.selected_entity = Some(id);
    }

    /// Everything of the session but the snapshot and the output log.
    pub open spec fn same_controls(self, other: SharedState) -> bool {
        &&& self.outbox@ == other.outbox@
        &&& self.runtime_status == other.runtime_status
        &&& self.sender_connected == other.sender_connected
        &&& self.selected_entity == other.selected_entity
        &&& self.project_path == other.project_path
    }

    /// Services one ready event: exactly one branch per loop iteration.
    /// A view message is passed on to the channel; a runtime snapshot
    /// replaces the held one; an output line is appended to the log with
    /// its line break; the process ending leaves the loop.
    pub fn editor_step(&mut self, ev: EditorEvent) -> (r: EditorAction)
        ensures
            final(self).same_controls(*old(self)),
            match ev {
                EditorEvent::UiMessage(m) => r == EditorAction::Transmit(m) && *final(self)
                    == *old(self),
                EditorEvent::RuntimeMessage(m) => r == EditorAction::Continue && (m matches
                    RuntimeToEditorMsg::Entities { entities } && final(self).entities == entities)
                    && final(self).runtime_output == old(self).runtime_output,
                EditorEvent::OutputLine(line) => r == EditorAction::Continue
                    && final(self).runtime_output@ == old(self).runtime_output@ + line@
                    + seq!['\n'] && final(self).entities == old(self).entities,
                EditorEvent::ProcessExited => r == EditorAction::Exit && *final(self) == *old(self),
            },
    {
        match ev {
            EditorEvent::UiMessage(m) => EditorAction::Transmit(m),
            EditorEvent::RuntimeMessage(m) => {
                match m {
                    RuntimeToEditorMsg::Entities { entities } => {
                        self.entities = entities;
                    }
                }
                EditorAction::Continue
            }
            EditorEvent::OutputLine(line) => {
                self.runtime_output.append(line.as_str());
                self.runtime_output.append("\n");
                proof {
                    reveal_strlit("\n");
                }
                EditorAction::Continue
            }
            EditorEvent::ProcessExited => EditorAction::Exit,
        }
    }
}

/// Appends the `index`v`generation` tag of an object.
fn push_object_tag(out: &mut String, id: &ObjectId)
    ensures
        final(out)@ == old(out)@ + spec_object_tag(*id),
{
    push_u32_digits(id.index, out);
    out.append("v");
    push_u32_digits(id.generation, out);
    proof {
        reveal_strlit("v");
        assert("v"@ =~= seq!['v']);
        assert(out@ =~= old(out)@ + spec_object_tag(*id));
    }
}

/// Appends the parenthesized tag that follows a display name.
fn push_object_suffix(out: &mut String, id: &ObjectId)
    ensures
        final(out)@ == old(out)@ + spec_object_suffix(*id),
{
    out.append(" (");
    push_object_tag(out, id);
    out.append(")");
    proof {
        reveal_strlit(" (");
        reveal_strlit(")");
        assert(" ("@ =~= seq![' ', '(']);
        assert(")"@ =~= seq![')']);
        assert(out@ =~= old(out)@ + spec_object_suffix(*id));
    }
}

/// The label under which an object is listed in the scene view: the
/// value of its `Name` component when it carries one; otherwise the
/// first of a few well-known component names that occurs among its
/// components; otherwise the bare object tag.  A `Name` component must
/// present its data in the captured shape — text under the key `name`.
pub fn get_entity_name(entity: &ObjectId, components: &Vec<RonComponent>) -> (r: String)
    requires
        spec_named_shape_ok(components@, "bevy_core::name::Name"@),
    ensures
        match spec_find_named(components@, "bevy_core::name::Name"@) {
            Some(i) => r@ == spec_name_field(components@[i])->Some_0->Text_0
                + spec_object_suffix(*entity),
            None => if spec_known_match(components@, "PointLight"@) {
                r@ == "PointLight"@ + spec_object_suffix(*entity)
            } else if spec_known_match(components@, "DirectionalLight"@) {
                r@ == "DirectionalLight"@ + spec_object_suffix(*entity)
            } else if spec_known_match(components@, "Camera"@) {
                r@ == "Camera"@ + spec_object_suffix(*entity)
            } else if spec_known_match(components@, "Mesh"@) {
                r@ == "Mesh"@ + spec_object_suffix(*entity)
            } else {
                r@ == spec_object_tag(*entity)
            },
        },
{
    let name_key = String::from_str("bevy_core::name::Name");
    proof {
        assert(components@.skip(0) =~= components@);
        lemma_find_named(components@, name_key@);
    }
    match find_named_from(components, 0, &name_key) {
        Some(i) => {
            let c = &components[i];
            match &c.value {
                ValueTree::Table(entries) => {
                    proof {
                        lemma_abs_entries_len(entries@);
                    }
                    match &entries[0].1 {
                        ValueTree::Table(inner) => {
                            proof {
                                lemma_abs_entries_len(inner@);
                                assert(abs_entries(inner@).skip(0) =~= abs_entries(inner@));
                                crate::edit::lemma_table_find(abs_entries(inner@), "name"@);
                            }
                            let field_key = String::from_str("name");
                            match table_find_from(inner, 0, &field_key) {
                                Some(k) => match &inner[k].1 {
                                    ValueTree::Text(text) => {
                                        let mut label = text.clone();
                                        push_object_suffix(&mut label, entity);
                                        label
                                    }
                                    _ => unreached(),
                                },
                                None => unreached(),
                            }
                        }
                        _ => unreached(),
                    }
                }
                _ => unreached(),
            }
        }
        None => {
            if any_name_contains(components, "PointLight") {
                let mut label = String::from_str("PointLight");
                push_object_suffix(&mut label, entity);
                label
            } else if any_name_contains(components, "DirectionalLight") {
                let mut label = String::from_str("DirectionalLight");
                push_object_suffix(&mut label, entity);
                label
            } else if any_name_contains(components, "Camera") {
                let mut label = String::from_str("Camera");
                push_object_suffix(&mut label, entity);
                label
            } else if any_name_contains(components, "Mesh") {
                let mut label = String::from_str("Mesh");
                push_object_suffix(&mut label, entity);
                label
            } else {
                let mut label = String::new();
                push_object_tag(&mut label, entity);
                proof {
                    assert(label@ =~= spec_object_tag(*entity));
                }
                label
            }
        }
    }
}

} // verus!
