//! The reflection bridge: capture of a live component's raw storage into
//! a transport component, and apply of an edited, re-encoded value tree
//! back into raw storage — together with the model of the live object
//! graph that the dispatch loop reads and mutates.

use vstd::prelude::*;
use crate::codec::{
    bounded, bounded_entries, lemma_exact_round_trip, spec_decode_exact, spec_encode,
    text_bounded,
};
use crate::component::RonComponentSerialized;
use crate::registry::{
    apply_fields, capture_fields, lemma_apply_capture, lemma_apply_len, lemma_capture_len,
    lemma_lookup_wf, spec_apply_fields, spec_capture_fields, spec_lookup, spec_read_field,
    FieldDef, TypeRegistry,
};
use crate::value::{
    abs_entries, distinct_keys, entries_wf, lemma_abs_entries_len, tree_wf, TreeV, ValueTree,
};

verus! {

/// Generation-stamped handle of one live object: a reused index with a
/// different generation is a different identity.
#[derive(Debug, Clone, Copy, PartialEq, Eq, Hash, Structural)]
pub struct ObjectId {
    pub index: u32,
    pub generation: u32,
}

/// One typed data block attached to an object: the type's stable name and
/// the block's raw bytes.
#[derive(Debug)]
pub struct RawComponent {
    pub type_key: String,
    pub data: Vec<u8>,
}

/// The tree that capture produces for one component: the single-entry
/// wrapper map around the captured field map for a serializable
/// registered type; the unit marker for an unregistered type or for one
/// registered without a codec.
pub open spec fn spec_capture_component(
    regs: Seq<crate::registry::TypeDescriptor>,
    key: Seq<char>,
    data: Seq<u8>,
) -> TreeV {
    match spec_lookup(regs, key) {
        Some(d) => match d.fields {
            Some(fs) => TreeV::Table(seq![(key, TreeV::Table(spec_capture_fields(fs@, data)))]),
            None => TreeV::Unit,
        },
        None => TreeV::Unit,
    }
}

/// A component's bytes agree with the registered layout for its type.
/// A disagreement is a registry construction bug, never a run-time
/// condition, so it is required, not handled.
pub open spec fn component_sized(
    regs: Seq<crate::registry::TypeDescriptor>,
    key: Seq<char>,
    data: Seq<u8>,
) -> bool {
    match spec_lookup(regs, key) {
        Some(d) => data.len() == d.size,
        None => true,
    }
}

/// Capture: converts one live component into its transport form.  Never
/// fails: a type without descriptor or codec degrades to the unit marker.
pub fn capture_component(reg: &TypeRegistry, c: &RawComponent) -> (r: RonComponentSerialized)
    requires
        reg.wf(),
        component_sized(reg.descriptors@, c.type_key@, c.data@),
    ensures
        r.type_key@ == c.type_key@,
        r.value@ == spec_encode(
            spec_capture_component(reg.descriptors@, c.type_key@, c.data@),
        ),
{
    proof {
        lemma_lookup_wf(reg.descriptors@, c.type_key@);
    }
    match reg.lookup(&c.type_key) {
        Some(d) => match &d.fields {
            Some(fs) => {
                let inner = ValueTree::Table(capture_fields(fs, &c.data));
                let mut wrapper: Vec<(String, ValueTree)> = Vec::new();
                wrapper.push((c.type_key.clone(), inner));
                let tree = ValueTree::Table(wrapper);
                proof {
                    lemma_abs_entries_len(tree->Table_0@);
                    assert(abs_entries(tree->Table_0@) =~= seq![
                        (c.type_key@, TreeV::Table(spec_capture_fields(fs@, c.data@))),
                    ]);
                }
                let value = tree.encode();
                RonComponentSerialized { type_key: c.type_key.clone(), value }
            }
            None => {
                let value = ValueTree::Unit.encode();
                RonComponentSerialized { type_key: c.type_key.clone(), value }
            }
        },
        None => {
            let value = ValueTree::Unit.encode();
            RonComponentSerialized { type_key: c.type_key.clone(), value }
        }
    }
}

/// How one mutation request ended.  Everything but `Applied` leaves the
/// object graph untouched: an unregistered type or one without codec is
/// ignored by design; a payload that does not decode, or whose shape does
/// not match the type's layout, is dropped and reported.
#[derive(Debug, Clone, PartialEq, Eq, Structural)]
pub enum ApplyOutcome {
    Applied,
    UnknownObject,
    UnknownType,
    Unsupported,
    BadPayload,
}

/// The exact verdict on one mutation request: the raw bytes to splice,
/// or the reason there are none.  Degradation is part of the contract:
/// an unregistered name, a type without codec, an undecodable payload
/// and a shape mismatch each map to their own outcome.
pub open spec fn spec_apply_verdict(
    regs: Seq<crate::registry::TypeDescriptor>,
    key: Seq<char>,
    payload: Seq<u8>,
) -> Result<Seq<u8>, ApplyOutcome> {
    match spec_lookup(regs, key) {
        None => Err(ApplyOutcome::UnknownType),
        Some(d) => match d.fields {
            None => Err(ApplyOutcome::Unsupported),
            Some(fs) => match spec_decode_exact(payload) {
                Some(t) => match t {
                    TreeV::Table(es) => match spec_apply_fields(fs@, es) {
                        Some(b) => Ok(b),
                        None => Err(ApplyOutcome::BadPayload),
                    },
                    _ => Err(ApplyOutcome::BadPayload),
                },
                None => Err(ApplyOutcome::BadPayload),
            },
        },
    }
}

/// Apply, first half: the raw bytes to splice for a mutation request, or
/// the reason there are none.  The buffer's size is taken from the
/// registry alone, never from the message.
pub fn component_bytes(reg: &TypeRegistry, key: &String, payload: &Vec<u8>) -> (r: Result<
    Vec<u8>,
    ApplyOutcome,
>)
    requires
        reg.wf(),
    ensures
        r matches Ok(out) ==> spec_apply_verdict(reg.descriptors@, key@, payload@) == Ok::<
            Seq<u8>,
            ApplyOutcome,
        >(out@) && out@.len() == spec_lookup(reg.descriptors@, key@)->Some_0.size,
        r matches Err(o) ==> spec_apply_verdict(reg.descriptors@, key@, payload@) == Result::<
            Seq<u8>,
            ApplyOutcome,
        >::Err(o),
{
    proof {
        lemma_lookup_wf(reg.descriptors@, key@);
    }
    match reg.lookup(key) {
        None => Err(ApplyOutcome::UnknownType),
        Some(d) => match &d.fields {
            None => Err(ApplyOutcome::Unsupported),
            Some(fs) => match ValueTree::decode(payload) {
                None => Err(ApplyOutcome::BadPayload),
                Some(tree) => match &tree {
                    ValueTree::Table(entries) => match apply_fields(fs, entries) {
                        Some(out) => {
                            proof {
                                lemma_apply_len(fs@, abs_entries(entries@));
                            }
                            Ok(out)
                        }
                        None => Err(ApplyOutcome::BadPayload),
                    },
                    _ => Err(ApplyOutcome::BadPayload),
                },
            },
        },
    }
}

/// The live object graph as this core observes it: each object's handle
/// and its typed data blocks.  The simulation creates and destroys
/// objects outside this core's control; the dispatch loop reads and
/// mutates this view one message at a time.
#[derive(Debug)]
pub struct World {
    pub objects: Vec<(ObjectId, Vec<RawComponent>)>,
}

/// Index of the first object carrying `id`.
pub open spec fn spec_find_object(objs: Seq<(ObjectId, Vec<RawComponent>)>, id: ObjectId) -> Option<
    int,
>
    decreases objs,
{
    if objs.len() == 0 {
        None
    } else if objs.first().0 == id {
        Some(0)
    } else {
        match spec_find_object(objs.drop_first(), id) {
            Some(i) => Some(i + 1),
            None => None,
        }
    }
}

/// Index of the first component carrying `key`.
pub open spec fn spec_find_comp(comps: Seq<RawComponent>, key: Seq<char>) -> Option<int>
    decreases comps,
{
    if comps.len() == 0 {
        None
    } else if comps.first().type_key@ == key {
        Some(0)
    } else {
        match spec_find_comp(comps.drop_first(), key) {
            Some(i) => Some(i + 1),
            None => None,
        }
    }
}

/// A found object index is in bounds and carries the id.
pub proof fn lemma_find_object(objs: Seq<(ObjectId, Vec<RawComponent>)>, id: ObjectId)
    ensures
        spec_find_object(objs, id) matches Some(i) ==> 0 <= i < objs.len() && objs[i].0 == id,
    decreases objs,
{
    if objs.len() > 0 && objs.first().0 != id {
        lemma_find_object(objs.drop_first(), id);
    }
}

/// A found component index is in bounds and carries the key.
pub proof fn lemma_find_comp(comps: Seq<RawComponent>, key: Seq<char>)
    ensures
        spec_find_comp(comps, key) matches Some(i) ==> 0 <= i < comps.len() && comps[i].type_key@
            == key,
    decreases comps,
{
    if comps.len() > 0 && comps.first().type_key@ != key {
        lemma_find_comp(comps.drop_first(), key);
    }
}

/// Linear scan for an object, from index `i`.
fn find_object_from(objs: &Vec<(ObjectId, Vec<RawComponent>)>, i: usize, id: ObjectId) -> (r:
    Option<usize>)
    requires
        i <= objs@.len(),
    ensures
        r matches Some(j) ==> i <= j < objs@.len() && spec_find_object(objs@.skip(i as int), id)
            == Some(j - i),
        r is None ==> spec_find_object(objs@.skip(i as int), id) is None,
    decreases objs@.len() - i,
{
    if i == objs.len() {
        None
    } else {
        proof {
            assert(objs@.skip(i as int).first() == objs@[i as int]);
            assert(objs@.skip(i as int).drop_first() =~= objs@.skip(i + 1));
        }
        if objs[i].0.index == id.index && objs[i].0.generation == id.generation {
            Some(i)
        } else {
            find_object_from(objs, i + 1, id)
        }
    }
}

/// Linear scan for a component, from index `i`.
fn find_comp_from(comps: &Vec<RawComponent>, i: usize, key: &String) -> (r: Option<usize>)
    requires
        i <= comps@.len(),
    ensures
        r matches Some(j) ==> i <= j < comps@.len() && spec_find_comp(comps@.skip(i as int), key@)
            == Some(j - i),
        r is None ==> spec_find_comp(comps@.skip(i as int), key@) is None,
    decreases comps@.len() - i,
{
    if i == comps.len() {
        None
    } else {
        proof {
            assert(comps@.skip(i as int).first() == comps@[i as int]);
            assert(comps@.skip(i as int).drop_first() =~= comps@.skip(i + 1));
        }
        if comps[i].type_key.eq(key) {
            Some(i)
        } else {
            find_comp_from(comps, i + 1, key)
        }
    }
}

/// Splices `data` into the block for `key`: the first existing block of
/// that type is replaced (its previous value is dropped), or a new block
/// is appended.  No other block is touched.
fn splice_comp(comps: &mut Vec<RawComponent>, key: &String, data: Vec<u8>)
    ensures
        match spec_find_comp(old(comps)@, key@) {
            Some(j) => final(comps)@.len() == old(comps)@.len() && (forall|k: int|
                0 <= k < old(comps)@.len() && k != j ==> final(comps)@[k] == old(comps)@[k])
                && final(comps)@[j].type_key == old(comps)@[j].type_key && final(comps)@[j].data@
                == data@,
            None => {
                let n = old(comps)@.len() as int;
                final(comps)@.len() == n + 1 && (forall|k: int|
                    0 <= k < n ==> final(comps)@[k] == old(comps)@[k]) && final(comps)@[n].type_key@
                    == key@ && final(comps)@[n].data@ == data@
            },
        },
{
    proof {
        assert(comps@.skip(0) =~= comps@);
        lemma_find_comp(comps@, key@);
    }
    match find_comp_from(comps, 0, key) {
        Some(j) => {
            let c = &mut comps[j];
            c.data = data;
        }
        None => {
            comps.push(RawComponent { type_key: key.clone(), data });
        }
    }
}

/// The full-snapshot relation: `snap` is exactly the capture of every
/// object of `objs`, object by object, component by component, in order.
pub open spec fn snapshot_matches(
    snap: Seq<(ObjectId, Vec<RonComponentSerialized>)>,
    objs: Seq<(ObjectId, Vec<RawComponent>)>,
    regs: Seq<crate::registry::TypeDescriptor>,
) -> bool {
    &&& snap.len() == objs.len()
    &&& forall|i: int|
        0 <= i < snap.len() ==> (#[trigger] snap[i]).0 == objs[i].0 && snap[i].1@.len()
            == objs[i].1@.len()
    &&& forall|i: int, j: int|
        0 <= i < snap.len() && 0 <= j < snap[i].1@.len() ==> (#[trigger] snap[i].1@[j]).type_key@
            == objs[i].1@[j].type_key@ && snap[i].1@[j].value@ == spec_encode(
            spec_capture_component(regs, objs[i].1@[j].type_key@, objs[i].1@[j].data@),
        )
}

/// The mutation relation: how the object graph after one mutation request
/// relates to the graph before it, together with the reported outcome.
/// Every failure leaves the graph unchanged; success replaces or appends
/// exactly the addressed component of the addressed object.
pub open spec fn spec_insert_result(
    old_objs: Seq<(ObjectId, Vec<RawComponent>)>,
    new_objs: Seq<(ObjectId, Vec<RawComponent>)>,
    regs: Seq<crate::registry::TypeDescriptor>,
    id: ObjectId,
    key: Seq<char>,
    payload: Seq<u8>,
    outcome: ApplyOutcome,
) -> bool {
    match spec_find_object(old_objs, id) {
        None => outcome == ApplyOutcome::UnknownObject && new_objs == old_objs,
        Some(oi) => match spec_apply_verdict(regs, key, payload) {
            Err(o) => outcome == o && new_objs == old_objs,
            Ok(b) => {
                let oldc = old_objs[oi].1@;
                let newc = new_objs[oi].1@;
                &&& outcome == ApplyOutcome::Applied
                &&& new_objs.len() == old_objs.len()
                &&& forall|k: int|
                    0 <= k < old_objs.len() && k != oi ==> new_objs[k] == old_objs[k]
                &&& new_objs[oi].0 == old_objs[oi].0
                &&& match spec_find_comp(oldc, key) {
                    Some(j) => newc.len() == oldc.len() && (forall|k: int|
                        0 <= k < oldc.len() && k != j ==> newc[k] == oldc[k])
                        && newc[j].type_key == oldc[j].type_key && newc[j].data@ == b,
                    None => newc.len() == oldc.len() + 1 && (forall|k: int|
                        0 <= k < oldc.len() ==> newc[k] == oldc[k]) && newc[oldc.len() as int].type_key@
                        == key && newc[oldc.len() as int].data@ == b,
                }
            },
        },
    }
}

impl World {
    /// Every component's bytes agree with the registered layout for its
    /// type.
    pub open spec fn wf(self, reg: TypeRegistry) -> bool {
        forall|i: int, j: int|
            0 <= i < self.objects@.len() && 0 <= j < self.objects@[i].1@.len()
                ==> component_sized(
                reg.descriptors@,
                (#[trigger] self.objects@[i].1@[j]).type_key@,
                self.objects@[i].1@[j].data@,
            )
    }

    /// An empty object graph.
    pub fn new() -> (r: World)
        ensures
            r.objects@.len() == 0,
            forall|reg: TypeRegistry| r.wf(reg),
    {
        World { objects: Vec::new() }
    }

    /// Mutation request handler.  Looks the object and the type up,
    /// rebuilds the component's raw storage from the payload, and
    /// splices it in; every failure leaves the graph untouched and says
    /// why.
    pub fn insert_component(
        &mut self,
        reg: &TypeRegistry,
        id: ObjectId,
        request: &RonComponentSerialized,
    ) -> (r: ApplyOutcome)
        requires
            reg.wf(),
            old(self).wf(*reg),
        ensures
            final(self).wf(*reg),
            spec_insert_result(
                old(self).objects@,
                final(self).objects@,
                reg.descriptors@,
                id,
                request.type_key@,
                request.value@,
                r,
            ),
    {
        proof {
            assert(self.objects@.skip(0) =~= self.objects@);
            lemma_find_object(self.objects@, id);
        }
        match find_object_from(&self.objects, 0, id) {
            None => ApplyOutcome::UnknownObject,
            Some(oi) => match component_bytes(reg, &request.type_key, &request.value) {
                Err(o) => o,
                Ok(bytes) => {
                    proof {
                        lemma_find_comp(self.objects@[oi as int].1@, request.type_key@);
                    }
                    let obj = &mut self.objects[oi];
                    splice_comp(&mut obj.1, &request.type_key, bytes);
                    proof {
                        lemma_lookup_wf(reg.descriptors@, request.type_key@);
                    }
                    ApplyOutcome::Applied
                }
            },
        }
    }

    /// Query handler: the full snapshot, every object with every
    /// component in its transport form.  Capture never fails, so the
    /// snapshot is total.
    pub fn snapshot(&self, reg: &TypeRegistry) -> (r: Vec<(ObjectId, Vec<RonComponentSerialized>)>)
        requires
            reg.wf(),
            self.wf(*reg),
        ensures
            snapshot_matches(r@, self.objects@, reg.descriptors@),
    {
        let mut out: Vec<(ObjectId, Vec<RonComponentSerialized>)> = Vec::new();
        let mut i: usize = 0;
        while i < self.objects.len()
            invariant
                reg.wf(),
                self.wf(*reg),
                i <= self.objects@.len(),
                out@.len() == i,
                forall|a: int|
                    0 <= a < i ==> (#[trigger] out@[a]).0 == self.objects@[a].0 && out@[a].1@.len()
                        == self.objects@[a].1@.len(),
                forall|a: int, b: int|
                    0 <= a < i && 0 <= b < out@[a].1@.len() ==> (
                    #[trigger] out@[a].1@[b]).type_key@ == self.objects@[a].1@[b].type_key@
                        && out@[a].1@[b].value@ == spec_encode(
                        spec_capture_component(
                            reg.descriptors@,
                            self.objects@[a].1@[b].type_key@,
                            self.objects@[a].1@[b].data@,
                        ),
                    ),
            decreases self.objects@.len() - i,
        {
            let obj = &self.objects[i];
            let mut comps: Vec<RonComponentSerialized> = Vec::new();
            let mut j: usize = 0;
            while j < obj.1.len()
                invariant
                    reg.wf(),
                    self.wf(*reg),
                    i < self.objects@.len(),
                    obj == self.objects@[i as int],
                    j <= obj.1@.len(),
                    comps@.len() == j,
                    forall|b: int|
                        0 <= b < j ==> (#[trigger] comps@[b]).type_key@
                            == self.objects@[i as int].1@[b].type_key@ && comps@[b].value@
                            == spec_encode(
                            spec_capture_component(
                                reg.descriptors@,
                                self.objects@[i as int].1@[b].type_key@,
                                self.objects@[i as int].1@[b].data@,
                            ),
                        ),
                decreases obj.1@.len() - j,
            {
                let captured = capture_component(reg, &obj.1[j]);
                comps.push(captured);
                j += 1;
            }
            out.push((obj.0, comps));
            i += 1;
        }
        out
    }
}

/// A layout whose field count and field names fit the wire's 64-bit
/// length fields.  Every layout held in an executable registry does.
pub open spec fn fields_bounded(fs: Seq<FieldDef>) -> bool {
    fs.len() <= u64::MAX && forall|i: int|
        0 <= i < fs.len() ==> text_bounded((#[trigger] fs[i]).name@)
}

/// The field map captured from a bounded layout is itself bounded.
pub proof fn lemma_captured_entries_bounded(fs: Seq<FieldDef>, data: Seq<u8>)
    requires
        fields_bounded(fs),
    ensures
        bounded_entries(spec_capture_fields(fs, data)),
    decreases fs,
{
    if fs.len() > 0 {
        let sz = crate::registry::kind_size(fs.first().kind) as int;
        assert(fs.first() == fs[0]);
        assert forall|i: int| 0 <= i < fs.drop_first().len() implies text_bounded(
            (#[trigger] fs.drop_first()[i]).name@,
        ) by {
            assert(fs.drop_first()[i] == fs[i + 1]);
        }
        lemma_captured_entries_bounded(fs.drop_first(), data.skip(sz));
        let es = spec_capture_fields(fs, data);
        let head = (fs.first().name@, spec_read_field(fs.first().kind, data.take(sz)));
        assert(es == seq![head] + spec_capture_fields(fs.drop_first(), data.skip(sz)));
        assert(es.len() > 0);
        assert(es.first() == head);
        assert(text_bounded(es.first().0));
        assert(bounded(es.first().1));
        assert(es.drop_first() =~= spec_capture_fields(fs.drop_first(), data.skip(sz)));
        assert(bounded_entries(es.drop_first()));
    }
}

/// ROUND-TRIP IDEMPOTENCE, end to end: capture a registered component,
/// unwrap the single-entry wrapper, re-encode the untouched field map as
/// a mutation payload, and apply it — the verdict is success with the
/// exact original bytes.  Byte for byte, nothing is gained or lost on a
/// capture/edit-nothing/apply cycle.
pub proof fn lemma_capture_apply_round_trip(
    regs: Seq<crate::registry::TypeDescriptor>,
    key: Seq<char>,
    data: Seq<u8>,
)
    requires
        forall|i: int| 0 <= i < regs.len() ==> (#[trigger] regs[i]).wf(),
        spec_lookup(regs, key) matches Some(d) && d.fields matches Some(fs) && data.len()
            == d.size && fields_bounded(fs@),
    ensures
        spec_apply_verdict(
            regs,
            key,
            spec_encode(
                TreeV::Table(
                    spec_capture_fields(spec_lookup(regs, key)->Some_0.fields->Some_0@, data),
                ),
            ),
        ) == Ok::<Seq<u8>, ApplyOutcome>(data),
{
    let d = spec_lookup(regs, key)->Some_0;
    let fs = d.fields->Some_0;
    lemma_lookup_wf(regs, key);
    let entries = spec_capture_fields(fs@, data);
    lemma_captured_entries_bounded(fs@, data);
    lemma_capture_len(fs@, data);
    lemma_exact_round_trip(TreeV::Table(entries));
    lemma_apply_capture(fs@, data);
}

/// OPAQUE-TYPE SAFETY: for a type name absent from the registry, capture
/// degrades to the unit marker (the name still travels beside it), a
/// mutation request is ignored with its own outcome, and the object
/// graph is left exactly as it was, whatever the payload said.
pub proof fn lemma_opaque_type_safety(
    regs: Seq<crate::registry::TypeDescriptor>,
    key: Seq<char>,
    data: Seq<u8>,
    payload: Seq<u8>,
)
    requires
        spec_lookup(regs, key) is None,
    ensures
        spec_capture_component(regs, key, data) == TreeV::Unit,
        spec_apply_verdict(regs, key, payload) == Err::<Seq<u8>, ApplyOutcome>(
            ApplyOutcome::UnknownType,
        ),
        forall|
            old_objs: Seq<(ObjectId, Vec<RawComponent>)>,
            new_objs: Seq<(ObjectId, Vec<RawComponent>)>,
            id: ObjectId,
            outcome: ApplyOutcome,
        |
            #[trigger] spec_insert_result(old_objs, new_objs, regs, id, key, payload, outcome)
                ==> new_objs == old_objs,
{
    assert forall|
        old_objs: Seq<(ObjectId, Vec<RawComponent>)>,
        new_objs: Seq<(ObjectId, Vec<RawComponent>)>,
        id: ObjectId,
        outcome: ApplyOutcome,
    |
        #[trigger] spec_insert_result(old_objs, new_objs, regs, id, key, payload, outcome)
            implies new_objs == old_objs by {
        lemma_find_object(old_objs, id);
    }
}

/// Field names are unique within one layout.
pub open spec fn fields_distinct(fs: Seq<FieldDef>) -> bool {
    forall|i: int, j: int|
        0 <= i < j < fs.len() ==> (#[trigger] fs[i]).name@ != (#[trigger] fs[j]).name@
}

/// The field map captured from a layout of distinct field names is well
/// formed: its keys are unique and its values are leaves.
pub proof fn lemma_captured_entries_wf(fs: Seq<FieldDef>, data: Seq<u8>)
    requires
        fields_distinct(fs),
    ensures
        distinct_keys(spec_capture_fields(fs, data)),
        entries_wf(spec_capture_fields(fs, data)),
    decreases fs,
{
    lemma_capture_len(fs, data);
    let es = spec_capture_fields(fs, data);
    assert forall|i: int, j: int| 0 <= i < j < es.len() implies (#[trigger] es[i]).0 != (
    #[trigger] es[j]).0 by {
        assert(es[i].0 == fs[i].name@ && es[j].0 == fs[j].name@);
    }
    if fs.len() > 0 {
        let sz = crate::registry::kind_size(fs.first().kind) as int;
        assert forall|i: int, j: int|
            0 <= i < j < fs.drop_first().len() implies (#[trigger] fs.drop_first()[i]).name@ != (
        #[trigger] fs.drop_first()[j]).name@ by {
            assert(fs.drop_first()[i] == fs[i + 1] && fs.drop_first()[j] == fs[j + 1]);
        }
        lemma_captured_entries_wf(fs.drop_first(), data.skip(sz));
        assert(es.first().1 == spec_read_field(fs.first().kind, data.take(sz)));
        assert(tree_wf(es.first().1));
        assert(es.drop_first() =~= spec_capture_fields(fs.drop_first(), data.skip(sz)));
    }
}

/// A captured component tree keeps the value-tree invariant: the
/// wrapper map has its one key, and the field map's keys are the
/// layout's distinct field names.
pub proof fn lemma_captured_tree_wf(
    regs: Seq<crate::registry::TypeDescriptor>,
    key: Seq<char>,
    data: Seq<u8>,
)
    requires
        spec_lookup(regs, key) matches Some(d) && d.fields matches Some(fs) ==> fields_distinct(
            fs@,
        ),
    ensures
        tree_wf(spec_capture_component(regs, key, data)),
{
    match spec_lookup(regs, key) {
        Some(d) => match d.fields {
            Some(fs) => {
                lemma_captured_entries_wf(fs@, data);
                let inner = TreeV::Table(spec_capture_fields(fs@, data));
                let wrapper = seq![(key, inner)];
                assert(distinct_keys(wrapper));
                assert(wrapper.first() == (key, inner));
                assert(tree_wf(inner));
                assert(wrapper.drop_first() =~= Seq::<(Seq<char>, TreeV)>::empty());
                assert(entries_wf(Seq::<(Seq<char>, TreeV)>::empty()));
                assert(entries_wf(wrapper));
            }
            None => {}
        },
        None => {}
    }
}

} // verus!
