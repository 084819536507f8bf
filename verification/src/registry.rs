//! The type registry: the process-wide catalog that maps a stable type
//! name to its byte layout and to the codec that converts between the
//! type's raw storage and a value tree.
//!
//! A descriptor's layout is a flat list of named fields, each of a fixed
//! storage kind.  Reading the fields of a well-sized byte string and
//! writing them back reproduces the byte string exactly; writing a field
//! map and reading it back reproduces the map.  The registry is built once
//! at startup and is read-only afterwards.

use vstd::prelude::*;
use vstd::bytes::{
    lemma_auto_spec_u64_to_from_le_bytes, spec_u64_from_le_bytes, spec_u64_to_le_bytes,
    u64_from_le_bytes, u64_to_le_bytes,
};
use vstd::slice::slice_subrange;
use crate::value::{abs_entries, lemma_abs_entries_len, TreeV, ValueTree};

verus! {

/// Storage kind of one registered field: a signed 64-bit integer, or a
/// 64-bit floating-point number carried as its IEEE 754 bit pattern.
/// Either kind occupies eight bytes, little endian.
#[derive(Debug, Clone, Copy, PartialEq, Eq, Structural)]
pub enum FieldKind {
    I64,
    F64,
}

/// One named field of a registered type's layout.
#[derive(Debug, Clone)]
pub struct FieldDef {
    pub name: String,
    pub kind: FieldKind,
}

/// Byte size of one field of the given kind.
pub open spec fn kind_size(k: FieldKind) -> nat {
    match k {
        FieldKind::I64 => 8,
        FieldKind::F64 => 8,
    }
}

/// Byte size of a whole layout: its fields in order.
pub open spec fn spec_layout_size(fields: Seq<FieldDef>) -> nat
    decreases fields,
{
    if fields.len() == 0 {
        0
    } else {
        kind_size(fields.first().kind) + spec_layout_size(fields.drop_first())
    }
}

/// The value read from one field's bytes.
pub open spec fn spec_read_field(k: FieldKind, bytes: Seq<u8>) -> TreeV {
    match k {
        FieldKind::I64 => TreeV::Int(spec_u64_from_le_bytes(bytes) as i64),
        FieldKind::F64 => TreeV::Float(spec_u64_from_le_bytes(bytes)),
    }
}

/// Capture: the field map read from a layout's raw bytes, field by field.
pub open spec fn spec_capture_fields(fields: Seq<FieldDef>, bytes: Seq<u8>) -> Seq<
    (Seq<char>, TreeV),
>
    decreases fields,
{
    if fields.len() == 0 {
        Seq::empty()
    } else {
        let sz = kind_size(fields.first().kind) as int;
        seq![(fields.first().name@, spec_read_field(fields.first().kind, bytes.take(sz)))]
            + spec_capture_fields(fields.drop_first(), bytes.skip(sz))
    }
}

/// The bytes written for one field, when the value's shape matches the
/// field's kind.
pub open spec fn spec_field_bytes(k: FieldKind, t: TreeV) -> Option<Seq<u8>> {
    match k {
        FieldKind::I64 => match t {
            TreeV::Int(i) => Some(spec_u64_to_le_bytes(i as u64)),
            _ => None,
        },
        FieldKind::F64 => match t {
            TreeV::Float(bits) => Some(spec_u64_to_le_bytes(bits)),
            _ => None,
        },
    }
}

/// Apply: the raw bytes written from a field map.  `None` exactly when the
/// map's shape does not match the layout: a missing, extra, renamed or
/// reordered field, or a value of the wrong kind.
pub open spec fn spec_apply_fields(fields: Seq<FieldDef>, entries: Seq<(Seq<char>, TreeV)>) -> Option<
    Seq<u8>,
>
    decreases fields,
{
    if fields.len() != entries.len() {
        None
    } else if fields.len() == 0 {
        Some(Seq::empty())
    } else if entries.first().0 != fields.first().name@ {
        None
    } else {
        match spec_field_bytes(fields.first().kind, entries.first().1) {
            Some(b) => match spec_apply_fields(fields.drop_first(), entries.drop_first()) {
                Some(rest) => Some(b + rest),
                None => None,
            },
            None => None,
        }
    }
}

/// ROUND TRIP, storage side: writing back the field map captured from any
/// well-sized byte string reproduces that byte string exactly.
pub proof fn lemma_apply_capture(fields: Seq<FieldDef>, bytes: Seq<u8>)
    requires
        bytes.len() == spec_layout_size(fields),
    ensures
        spec_apply_fields(fields, spec_capture_fields(fields, bytes)) == Some(bytes),
    decreases fields,
{
    lemma_auto_spec_u64_to_from_le_bytes();
    lemma_capture_len(fields, bytes);
    if fields.len() == 0 {
        assert(bytes =~= Seq::<u8>::empty());
    } else {
        let k = fields.first().kind;
        let sz = kind_size(k) as int;
        assert(sz == 8);
        let head = bytes.take(sz);
        let tail = bytes.skip(sz);
        assert(head.len() == 8);
        let entries = spec_capture_fields(fields, bytes);
        assert(entries.first() == (fields.first().name@, spec_read_field(k, head)));
        assert(entries.drop_first() =~= spec_capture_fields(fields.drop_first(), tail));
        lemma_apply_capture(fields.drop_first(), tail);
        assert(spec_u64_to_le_bytes(spec_u64_from_le_bytes(head) as i64 as u64)
            == spec_u64_to_le_bytes(spec_u64_from_le_bytes(head))) by {
            let x = spec_u64_from_le_bytes(head);
            assert(x as i64 as u64 == x) by (bit_vector);
        }
        assert(head + tail =~= bytes);
    }
}

/// ROUND TRIP, tree side: capturing the byte string written from a
/// matching field map reproduces that map exactly.
pub proof fn lemma_capture_apply(fields: Seq<FieldDef>, entries: Seq<(Seq<char>, TreeV)>)
    requires
        spec_apply_fields(fields, entries) is Some,
    ensures
        spec_capture_fields(fields, spec_apply_fields(fields, entries)->Some_0) == entries,
    decreases fields,
{
    lemma_auto_spec_u64_to_from_le_bytes();
    if fields.len() == 0 {
        assert(entries =~= Seq::<(Seq<char>, TreeV)>::empty());
    } else {
        let k = fields.first().kind;
        let b = spec_field_bytes(k, entries.first().1)->Some_0;
        let rest = spec_apply_fields(fields.drop_first(), entries.drop_first())->Some_0;
        lemma_capture_apply(fields.drop_first(), entries.drop_first());
        assert(b.len() == 8);
        assert((b + rest).take(8) =~= b);
        assert((b + rest).skip(8) =~= rest);
        match entries.first().1 {
            TreeV::Int(i) => {
                assert(i as u64 as i64 == i) by (bit_vector);
            }
            _ => {}
        }
        assert(seq![entries.first()] + entries.drop_first() =~= entries);
    }
}

/// The byte string written from a matching field map has the layout's size.
pub proof fn lemma_apply_len(fields: Seq<FieldDef>, entries: Seq<(Seq<char>, TreeV)>)
    requires
        spec_apply_fields(fields, entries) is Some,
    ensures
        spec_apply_fields(fields, entries)->Some_0.len() == spec_layout_size(fields),
    decreases fields,
{
    lemma_auto_spec_u64_to_from_le_bytes();
    if fields.len() > 0 {
        lemma_apply_len(fields.drop_first(), entries.drop_first());
    }
}

/// A captured field map has one entry per field, keyed by the field names.
pub proof fn lemma_capture_len(fields: Seq<FieldDef>, bytes: Seq<u8>)
    ensures
        spec_capture_fields(fields, bytes).len() == fields.len(),
        forall|i: int|
            0 <= i < fields.len() ==> #[trigger] spec_capture_fields(fields, bytes)[i].0
                == fields[i].name@,
    decreases fields,
{
    if fields.len() > 0 {
        let sz = kind_size(fields.first().kind) as int;
        lemma_capture_len(fields.drop_first(), bytes.skip(sz));
    }
}

/// Reads one field's eight bytes at `off`.
fn read_field(k: FieldKind, bytes: &Vec<u8>, off: usize) -> (out: ValueTree)
    requires
        off + 8 <= bytes@.len(),
    ensures
        out@ == spec_read_field(k, bytes@.subrange(off as int, off + 8)),
{
    let len = bytes.len();
    proof {
        assert(off + 8 <= len);
    }
    let x = u64_from_le_bytes(slice_subrange(bytes.as_slice(), off, off + 8));
    match k {
        FieldKind::I64 => ValueTree::Int(#[verifier::truncate] (x as i64)),
        FieldKind::F64 => ValueTree::Float(x),
    }
}

/// Captures the fields from index `i` on, whose storage starts at `off`.
fn capture_fields_from(fields: &Vec<FieldDef>, i: usize, bytes: &Vec<u8>, off: usize) -> (out: Vec<
    (String, ValueTree),
>)
    requires
        i <= fields@.len(),
        off <= bytes@.len(),
        bytes@.len() - off == spec_layout_size(fields@.skip(i as int)),
    ensures
        abs_entries(out@) == spec_capture_fields(fields@.skip(i as int), bytes@.skip(off as int)),
    decreases fields@.len() - i,
{
    if i == fields.len() {
        let out: Vec<(String, ValueTree)> = Vec::new();
        proof {
            assert(abs_entries(out@) =~= Seq::<(Seq<char>, TreeV)>::empty());
        }
        out
    } else {
        let fd = &fields[i];
        let blen = bytes.len();
        proof {
            assert(fields@.skip(i as int).first() == fields@[i as int]);
            assert(fields@.skip(i as int).drop_first() =~= fields@.skip(i + 1));
            assert(kind_size(fields@[i as int].kind) == 8);
            assert(spec_layout_size(fields@.skip(i as int)) == 8 + spec_layout_size(
                fields@.skip(i + 1),
            ));
            assert(off + 8 <= blen);
        }
        let value = read_field(fd.kind, bytes, off);
        let name = fd.name.clone();
        let mut out: Vec<(String, ValueTree)> = Vec::new();
        out.push((name, value));
        let mut tail = capture_fields_from(fields, i + 1, bytes, off + 8);
        let ghost tail_pre = tail@;
        out.append(&mut tail);
        proof {
            let s = bytes@.skip(off as int);
            assert(s.take(8) =~= bytes@.subrange(off as int, off + 8));
            assert(s.skip(8) =~= bytes@.skip(off + 8));
            lemma_abs_entries_len(out@);
            lemma_abs_entries_len(tail_pre);
            assert(abs_entries(out@) =~= seq![(out@[0].0@, out@[0].1@)] + abs_entries(tail_pre));
        }
        out
    }
}

/// Writes one field's bytes when the value's shape matches the kind.
fn write_field(k: FieldKind, t: &ValueTree, out: &mut Vec<u8>) -> (ok: bool)
    ensures
        ok ==> (spec_field_bytes(k, t@) matches Some(b) && final(out)@ == old(out)@ + b),
        !ok ==> spec_field_bytes(k, t@) is None && final(out)@ == old(out)@,
{
    match (k, t) {
        (FieldKind::I64, ValueTree::Int(i)) => {
            let mut b = u64_to_le_bytes(*i as u64);
            out.append(&mut b);
            true
        }
        (FieldKind::F64, ValueTree::Float(bits)) => {
            let mut b = u64_to_le_bytes(*bits);
            out.append(&mut b);
            true
        }
        _ => false,
    }
}

/// Writes the fields from index `i` on into `out`.
fn apply_fields_from(
    fields: &Vec<FieldDef>,
    i: usize,
    entries: &Vec<(String, ValueTree)>,
    out: &mut Vec<u8>,
) -> (ok: bool)
    requires
        i <= fields@.len(),
        i <= entries@.len(),
    ensures
        ok ==> (spec_apply_fields(fields@.skip(i as int), abs_entries(entries@).skip(i as int))
            matches Some(b) && final(out)@ == old(out)@ + b),
        !ok ==> spec_apply_fields(fields@.skip(i as int), abs_entries(entries@).skip(i as int))
            is None,
    decreases fields@.len() - i,
{
    proof {
        lemma_abs_entries_len(entries@);
    }
    if i == fields.len() {
        if entries.len() != i {
            return false;
        }
        proof {
            assert(out@ + Seq::<u8>::empty() =~= out@);
        }
        true
    } else {
        if entries.len() <= i {
            return false;
        }
        proof {
            let fs = fields@.skip(i as int);
            let es = abs_entries(entries@).skip(i as int);
            assert(fs.first() == fields@[i as int]);
            assert(es.first() == (entries@[i as int].0@, entries@[i as int].1@));
            assert(fs.drop_first() =~= fields@.skip(i + 1));
            assert(es.drop_first() =~= abs_entries(entries@).skip(i + 1));
            assert(fs.len() == entries@.len() - i ==> fs.len() == es.len());
        }
        let fd = &fields[i];
        let entry = &entries[i];
        if !entry.0.eq(&fd.name) {
            return false;
        }
        let ghost out0 = out@;
        let ok_head = write_field(fd.kind, &entry.1, out);
        if !ok_head {
            return false;
        }
        let ok_tail = apply_fields_from(fields, i + 1, entries, out);
        if !ok_tail {
            proof {
                assert(spec_apply_fields(
                    fields@.skip(i as int),
                    abs_entries(entries@).skip(i as int),
                ) is None);
            }
            return false;
        }
        proof {
            let b = spec_field_bytes(fields@[i as int].kind, entries@[i as int].1@)->Some_0;
            let rest = spec_apply_fields(fields@.skip(i + 1), abs_entries(entries@).skip(i + 1))
                ->Some_0;
            assert(out@ =~= out0 + (b + rest));
        }
        true
    }
}

/// Captures a whole layout's field map from its raw bytes.
pub fn capture_fields(fields: &Vec<FieldDef>, bytes: &Vec<u8>) -> (out: Vec<(String, ValueTree)>)
    requires
        bytes@.len() == spec_layout_size(fields@),
    ensures
        abs_entries(out@) == spec_capture_fields(fields@, bytes@),
{
    proof {
        assert(fields@.skip(0) =~= fields@);
        assert(bytes@.skip(0) =~= bytes@);
    }
    capture_fields_from(fields, 0, bytes, 0)
}

/// Writes a whole layout's raw bytes from a field map, or reports the
/// shape mismatch.
pub fn apply_fields(fields: &Vec<FieldDef>, entries: &Vec<(String, ValueTree)>) -> (r: Option<
    Vec<u8>,
>)
    ensures
        r matches Some(out) ==> spec_apply_fields(fields@, abs_entries(entries@)) == Some(out@),
        r is None ==> spec_apply_fields(fields@, abs_entries(entries@)) is None,
{
    proof {
        assert(fields@.skip(0) =~= fields@);
        assert(abs_entries(entries@).skip(0) =~= abs_entries(entries@));
    }
    let mut out: Vec<u8> = Vec::new();
    let ok = apply_fields_from(fields, 0, entries, &mut out);
    if ok {
        proof {
            let b = spec_apply_fields(fields@, abs_entries(entries@))->Some_0;
            assert(Seq::<u8>::empty() + b =~= b);
        }
        Some(out)
    } else {
        None
    }
}

/// One registered type: its stable wire name, its byte layout (size and
/// alignment), and — when the type is serializable — the field list that
/// drives capture and apply.  A descriptor with `fields == None` stands
/// for a type whose layout is known but which has no codec: capture
/// degrades to the unit marker and mutation requests are ignored.
#[derive(Debug, Clone)]
pub struct TypeDescriptor {
    pub type_key: String,
    pub size: usize,
    pub align: usize,
    pub fields: Option<Vec<FieldDef>>,
}

impl TypeDescriptor {
    /// The descriptor's declared size agrees with its field layout; the
    /// alignment is a nonzero power of two.  This is the invariant that
    /// makes apply's scratch buffer safe to splice.
    pub open spec fn wf(self) -> bool {
        &&& match self.fields {
            Some(fs) => self.size == spec_layout_size(fs@),
            None => true,
        }
        &&& self.align >= 1
    }
}

/// Looks a name up among descriptors: the first descriptor carrying it.
pub open spec fn spec_lookup(descs: Seq<TypeDescriptor>, name: Seq<char>) -> Option<TypeDescriptor>
    decreases descs,
{
    if descs.len() == 0 {
        None
    } else if descs.first().type_key@ == name {
        Some(descs.first())
    } else {
        spec_lookup(descs.drop_first(), name)
    }
}

/// A name looked up among well-formed descriptors yields a well-formed
/// descriptor.
pub proof fn lemma_lookup_wf(descs: Seq<TypeDescriptor>, name: Seq<char>)
    requires
        forall|i: int| 0 <= i < descs.len() ==> (#[trigger] descs[i]).wf(),
    ensures
        spec_lookup(descs, name) matches Some(d) ==> d.wf(),
    decreases descs,
{
    if descs.len() > 0 && descs.first().type_key@ != name {
        assert forall|i: int| 0 <= i < descs.drop_first().len() implies (#[trigger] descs.drop_first()[i]).wf() by {
            assert(descs.drop_first()[i] == descs[i + 1]);
        }
        lemma_lookup_wf(descs.drop_first(), name);
    }
}

/// The process-wide catalog of type descriptors.  Built once at runtime
/// startup; lookups never change it.
#[derive(Debug, Clone)]
pub struct TypeRegistry {
    pub descriptors: Vec<TypeDescriptor>,
}

impl TypeRegistry {
    /// Every descriptor in the registry is well formed.
    pub open spec fn wf(self) -> bool {
        forall|i: int| 0 <= i < self.descriptors@.len() ==> (#[trigger] self.descriptors@[i]).wf()
    }

    /// An empty registry.
    pub fn new() -> (r: TypeRegistry)
        ensures
            r.descriptors@.len() == 0,
            r.wf(),
    {
        TypeRegistry { descriptors: Vec::new() }
    }

    /// Adds one descriptor.  Registration happens only during startup.
    pub fn register(&mut self, d: TypeDescriptor)
        requires
            d.wf(),
        ensures
            final(self).descriptors@ == old(self).descriptors@.push(d),
            old(self).wf() ==> final(self).wf(),
    {
        self.descriptors.push(d);
    }

    /// Pure read against the immutable table: the descriptor registered
    /// under `name`, or `None` when the type is unregistered.  Absence is
    /// not an error.
    pub fn lookup(&self, name: &String) -> (r: Option<&TypeDescriptor>)
        ensures
            r matches Some(d) ==> spec_lookup(self.descriptors@, name@) == Some(*d),
            r is None ==> spec_lookup(self.descriptors@, name@) is None,
    {
        proof {
            assert(self.descriptors@.skip(0) =~= self.descriptors@);
        }
        self.lookup_from(0, name)
    }

    /// Linear scan from index `i`.
    fn lookup_from(&self, i: usize, name: &String) -> (r: Option<&TypeDescriptor>)
        requires
            i <= self.descriptors@.len(),
        ensures
            r matches Some(d) ==> spec_lookup(self.descriptors@.skip(i as int), name@) == Some(*d),
            r is None ==> spec_lookup(self.descriptors@.skip(i as int), name@) is None,
        decreases self.descriptors@.len() - i,
    {
        if i == self.descriptors.len() {
            None
        } else {
            proof {
                assert(self.descriptors@.skip(i as int).first() == self.descriptors@[i as int]);
                assert(self.descriptors@.skip(i as int).drop_first() =~= self.descriptors@.skip(
                    i + 1,
                ));
            }
            let d = &self.descriptors[i];
            if d.type_key.eq(name) {
                Some(d)
            } else {
                self.lookup_from(i + 1, name)
            }
        }
    }
}

} // verus!
