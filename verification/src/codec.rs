//! Wire codec for value trees.
//!
//! A value tree is transported as a self-describing byte string: one tag
//! byte per node, little-endian 64-bit lengths and counts, and UTF-8 for
//! text.  The decoder accepts exactly the encoder's output: decoding an
//! encoded tree yields the tree back, byte position for byte position.

use vstd::prelude::*;
use vstd::bytes::{
    lemma_auto_spec_u64_to_from_le_bytes, spec_u64_from_le_bytes, spec_u64_to_le_bytes,
    u64_from_le_bytes, u64_to_le_bytes,
};
use vstd::utf8::{
    decode_utf8, decode_utf8_encode_utf8, encode_utf8, encode_utf8_decode_utf8,
    encode_utf8_valid_utf8, valid_utf8,
};
use vstd::slice::{slice_subrange, slice_to_vec};
use vstd::string::StrSliceExecFns;
use crate::value::{
    abs_entries, abs_items, lemma_abs_entries_len, lemma_abs_items_len, TreeV, ValueTree,
};

verus! {

pub const TAG_UNIT: u8 = 0;

pub const TAG_INT: u8 = 1;

pub const TAG_FLOAT: u8 = 2;

pub const TAG_TEXT: u8 = 3;

pub const TAG_LIST: u8 = 4;

pub const TAG_TABLE: u8 = 5;

/// Encoding of a string: its UTF-8 byte length, then its UTF-8 bytes.
pub open spec fn spec_encode_text(s: Seq<char>) -> Seq<u8> {
    spec_u64_to_le_bytes(encode_utf8(s).len() as u64) + encode_utf8(s)
}

/// Encoding of one whole value tree.
pub open spec fn spec_encode(t: TreeV) -> Seq<u8>
    decreases t,
{
    match t {
        TreeV::Unit => seq![TAG_UNIT],
        TreeV::Int(i) => seq![TAG_INT] + spec_u64_to_le_bytes(i as u64),
        TreeV::Float(bits) => seq![TAG_FLOAT] + spec_u64_to_le_bytes(bits),
        TreeV::Text(s) => seq![TAG_TEXT] + spec_encode_text(s),
        TreeV::List(items) => seq![TAG_LIST] + spec_u64_to_le_bytes(items.len() as u64)
            + spec_encode_items(items),
        TreeV::Table(entries) => seq![TAG_TABLE] + spec_u64_to_le_bytes(entries.len() as u64)
            + spec_encode_entries(entries),
    }
}

/// Encoding of list elements, in order.
pub open spec fn spec_encode_items(items: Seq<TreeV>) -> Seq<u8>
    decreases items,
{
    if items.len() == 0 {
        Seq::empty()
    } else {
        spec_encode(items.first()) + spec_encode_items(items.drop_first())
    }
}

/// Encoding of map entries, in order: each key, then its value.
pub open spec fn spec_encode_entries(entries: Seq<(Seq<char>, TreeV)>) -> Seq<u8>
    decreases entries,
{
    if entries.len() == 0 {
        Seq::empty()
    } else {
        spec_encode_text(entries.first().0) + spec_encode(entries.first().1)
            + spec_encode_entries(entries.drop_first())
    }
}

/// A string whose UTF-8 length fits the length field of the encoding.
pub open spec fn text_bounded(s: Seq<char>) -> bool {
    encode_utf8(s).len() <= u64::MAX
}

/// A tree whose string lengths and collection counts all fit the 64-bit
/// fields of the encoding.  Every tree held by an executable value
/// satisfies this.
pub open spec fn bounded(t: TreeV) -> bool
    decreases t,
{
    match t {
        TreeV::Unit => true,
        TreeV::Int(_) => true,
        TreeV::Float(_) => true,
        TreeV::Text(s) => text_bounded(s),
        TreeV::List(items) => items.len() <= u64::MAX && bounded_items(items),
        TreeV::Table(entries) => entries.len() <= u64::MAX && bounded_entries(entries),
    }
}

pub open spec fn bounded_items(items: Seq<TreeV>) -> bool
    decreases items,
{
    if items.len() == 0 {
        true
    } else {
        bounded(items.first()) && bounded_items(items.drop_first())
    }
}

pub open spec fn bounded_entries(entries: Seq<(Seq<char>, TreeV)>) -> bool
    decreases entries,
{
    if entries.len() == 0 {
        true
    } else {
        text_bounded(entries.first().0) && bounded(entries.first().1) && bounded_entries(
            entries.drop_first(),
        )
    }
}

/// Decoding of a string from the front of `s`: length field, then that
/// many bytes, which must be valid UTF-8.
pub open spec fn spec_decode_text(s: Seq<u8>) -> Option<(Seq<char>, Seq<u8>)> {
    if s.len() < 8 {
        None
    } else {
        let n = spec_u64_from_le_bytes(s.take(8)) as int;
        if s.len() - 8 < n {
            None
        } else {
            let bytes = s.subrange(8, 8 + n);
            if valid_utf8(bytes) {
                Some((decode_utf8(bytes), s.skip(8 + n)))
            } else {
                None
            }
        }
    }
}

/// Decoding of one value tree from the front of `s`.  On success the
/// result carries the bytes that follow the tree's encoding.
pub open spec fn spec_decode(s: Seq<u8>) -> Option<(TreeV, Seq<u8>)>
    decreases s.len(), 0nat,
{
    if s.len() == 0 {
        None
    } else {
        let tag = s.first();
        let r = s.drop_first();
        if tag == TAG_UNIT {
            Some((TreeV::Unit, r))
        } else if tag == TAG_INT {
            if r.len() < 8 {
                None
            } else {
                Some((TreeV::Int(spec_u64_from_le_bytes(r.take(8)) as i64), r.skip(8)))
            }
        } else if tag == TAG_FLOAT {
            if r.len() < 8 {
                None
            } else {
                Some((TreeV::Float(spec_u64_from_le_bytes(r.take(8))), r.skip(8)))
            }
        } else if tag == TAG_TEXT {
            match spec_decode_text(r) {
                Some(p) => Some((TreeV::Text(p.0), p.1)),
                None => None,
            }
        } else if tag == TAG_LIST {
            if r.len() < 8 {
                None
            } else {
                let n = spec_u64_from_le_bytes(r.take(8));
                match spec_decode_items(r.skip(8), n as nat) {
                    Some(p) => Some((TreeV::List(p.0), p.1)),
                    None => None,
                }
            }
        } else if tag == TAG_TABLE {
            if r.len() < 8 {
                None
            } else {
                let n = spec_u64_from_le_bytes(r.take(8));
                match spec_decode_entries(r.skip(8), n as nat) {
                    Some(p) => Some((TreeV::Table(p.0), p.1)),
                    None => None,
                }
            }
        } else {
            None
        }
    }
}

/// Decoding of `n` list elements from the front of `s`.
pub open spec fn spec_decode_items(s: Seq<u8>, n: nat) -> Option<(Seq<TreeV>, Seq<u8>)>
    decreases s.len(), n,
{
    if n == 0 {
        Some((Seq::empty(), s))
    } else {
        match spec_decode(s) {
            Some(p) => if p.1.len() < s.len() {
                match spec_decode_items(p.1, (n - 1) as nat) {
                    Some(q) => Some((seq![p.0] + q.0, q.1)),
                    None => None,
                }
            } else {
                None
            },
            None => None,
        }
    }
}

/// Decoding of `n` map entries from the front of `s`.
pub open spec fn spec_decode_entries(s: Seq<u8>, n: nat) -> Option<
    (Seq<(Seq<char>, TreeV)>, Seq<u8>),
>
    decreases s.len(), n,
{
    if n == 0 {
        Some((Seq::empty(), s))
    } else {
        match spec_decode_text(s) {
            Some(k) => if k.1.len() < s.len() {
                match spec_decode(k.1) {
                    Some(p) => if p.1.len() < s.len() {
                        match spec_decode_entries(p.1, (n - 1) as nat) {
                            Some(q) => Some((seq![(k.0, p.0)] + q.0, q.1)),
                            None => None,
                        }
                    } else {
                        None
                    },
                    None => None,
                }
            } else {
                None
            },
            None => None,
        }
    }
}

/// Decoding of a complete payload: one tree, with nothing after it.
pub open spec fn spec_decode_exact(s: Seq<u8>) -> Option<TreeV> {
    match spec_decode(s) {
        Some(p) => if p.1.len() == 0 {
            Some(p.0)
        } else {
            None
        },
        None => None,
    }
}

/// Every encoding is at least one byte long (the tag byte).
pub proof fn lemma_encode_len(t: TreeV)
    ensures
        spec_encode(t).len() >= 1,
{
}

/// A string encoding is at least as long as its length field.
pub proof fn lemma_encode_text_len(s: Seq<char>)
    ensures
        spec_encode_text(s).len() >= 8,
{
    lemma_auto_spec_u64_to_from_le_bytes();
}

/// Decoding a string's encoding recovers the string and the trailing bytes.
pub proof fn lemma_decode_text_encode_text(s: Seq<char>, rest: Seq<u8>)
    requires
        text_bounded(s),
    ensures
        spec_decode_text(spec_encode_text(s) + rest) == Some((s, rest)),
{
    lemma_auto_spec_u64_to_from_le_bytes();
    encode_utf8_valid_utf8(s);
    encode_utf8_decode_utf8(s);
    let blen = encode_utf8(s).len() as int;
    let whole = spec_encode_text(s) + rest;
    assert(whole.take(8) =~= spec_u64_to_le_bytes(blen as u64));
    assert(spec_u64_from_le_bytes(whole.take(8)) == blen as u64);
    assert(whole.subrange(8, 8 + blen) =~= encode_utf8(s));
    assert(whole.skip(8 + blen) =~= rest);
}

/// ROUND TRIP, one direction: decoding the encoding of any bounded tree
/// yields exactly that tree and leaves exactly the trailing bytes.
pub proof fn lemma_decode_encode(t: TreeV, rest: Seq<u8>)
    requires
        bounded(t),
    ensures
        spec_decode(spec_encode(t) + rest) == Some((t, rest)),
    decreases t,
{
    lemma_auto_spec_u64_to_from_le_bytes();
    let whole = spec_encode(t) + rest;
    match t {
        TreeV::Unit => {
            assert(whole.first() == TAG_UNIT);
            assert(whole.drop_first() =~= rest);
        }
        TreeV::Int(i) => {
            let r = whole.drop_first();
            assert(r =~= spec_u64_to_le_bytes(i as u64) + rest);
            assert(r.take(8) =~= spec_u64_to_le_bytes(i as u64));
            assert(i as u64 as i64 == i) by (bit_vector);
            assert(r.skip(8) =~= rest);
        }
        TreeV::Float(bits) => {
            let r = whole.drop_first();
            assert(r =~= spec_u64_to_le_bytes(bits) + rest);
            assert(r.take(8) =~= spec_u64_to_le_bytes(bits));
            assert(r.skip(8) =~= rest);
        }
        TreeV::Text(s) => {
            let r = whole.drop_first();
            assert(r =~= spec_encode_text(s) + rest);
            lemma_decode_text_encode_text(s, rest);
        }
        TreeV::List(items) => {
            let r = whole.drop_first();
            let n = items.len();
            assert(r =~= spec_u64_to_le_bytes(n as u64) + (spec_encode_items(items) + rest));
            assert(r.take(8) =~= spec_u64_to_le_bytes(n as u64));
            assert(r.skip(8) =~= spec_encode_items(items) + rest);
            lemma_decode_encode_items(items, rest);
        }
        TreeV::Table(entries) => {
            let r = whole.drop_first();
            let n = entries.len();
            assert(r =~= spec_u64_to_le_bytes(n as u64) + (spec_encode_entries(entries) + rest));
            assert(r.take(8) =~= spec_u64_to_le_bytes(n as u64));
            assert(r.skip(8) =~= spec_encode_entries(entries) + rest);
            lemma_decode_encode_entries(entries, rest);
        }
    }
}

/// Round trip for a run of list elements.
pub proof fn lemma_decode_encode_items(items: Seq<TreeV>, rest: Seq<u8>)
    requires
        bounded_items(items),
    ensures
        spec_decode_items(spec_encode_items(items) + rest, items.len()) == Some((items, rest)),
    decreases items,
{
    if items.len() == 0 {
        assert(spec_encode_items(items) + rest =~= rest);
        assert(items =~= Seq::<TreeV>::empty());
    } else {
        let first = items.first();
        let tail = items.drop_first();
        let s = spec_encode_items(items) + rest;
        assert(s =~= spec_encode(first) + (spec_encode_items(tail) + rest));
        lemma_decode_encode(first, spec_encode_items(tail) + rest);
        lemma_encode_len(first);
        lemma_decode_encode_items(tail, rest);
        assert(seq![first] + tail =~= items);
    }
}

/// Round trip for a run of map entries.
pub proof fn lemma_decode_encode_entries(entries: Seq<(Seq<char>, TreeV)>, rest: Seq<u8>)
    requires
        bounded_entries(entries),
    ensures
        spec_decode_entries(spec_encode_entries(entries) + rest, entries.len()) == Some(
            (entries, rest),
        ),
    decreases entries,
{
    if entries.len() == 0 {
        assert(spec_encode_entries(entries) + rest =~= rest);
        assert(entries =~= Seq::<(Seq<char>, TreeV)>::empty());
    } else {
        let key = entries.first().0;
        let val = entries.first().1;
        let tail = entries.drop_first();
        let s = spec_encode_entries(entries) + rest;
        let after_key = spec_encode(val) + (spec_encode_entries(tail) + rest);
        assert(s =~= spec_encode_text(key) + after_key);
        lemma_decode_text_encode_text(key, after_key);
        lemma_encode_text_len(key);
        lemma_decode_encode(val, spec_encode_entries(tail) + rest);
        lemma_encode_len(val);
        lemma_decode_encode_entries(tail, rest);
        assert(seq![(key, val)] + tail =~= entries);
        assert(entries.first() == (key, val));
    }
}

/// Round trip for a complete payload: encoding a bounded tree and decoding
/// the whole buffer yields the tree back.
pub proof fn lemma_exact_round_trip(t: TreeV)
    requires
        bounded(t),
    ensures
        spec_decode_exact(spec_encode(t)) == Some(t),
{
    lemma_decode_encode(t, Seq::empty());
    assert(spec_encode(t) + Seq::<u8>::empty() =~= spec_encode(t));
}

/// Relies on String::from_utf8: it succeeds exactly on the byte strings
/// that are valid UTF-8, and then yields the character sequence those
/// bytes encode.
#[verifier::external_body]
fn string_from_utf8(bytes: Vec<u8>) -> (r: Option<String>)
    ensures
        r is Some <==> valid_utf8(bytes@),
        r matches Some(s) ==> s@ == decode_utf8(bytes@),
{
    match String::from_utf8(bytes) {
        Ok(s) => Some(s),
        Err(_) => None,
    }
}

/// Appends the little-endian encoding of `x`.
fn encode_u64_onto(x: u64, out: &mut Vec<u8>)
    ensures
        final(out)@ == old(out)@ + spec_u64_to_le_bytes(x),
{
    let mut b = u64_to_le_bytes(x);
    out.append(&mut b);
}

/// Appends the encoding of a string: byte length, then UTF-8 bytes.
fn encode_text_onto(s: &String, out: &mut Vec<u8>)
    ensures
        final(out)@ == old(out)@ + spec_encode_text(s@),
        text_bounded(s@),
{
    let mut bv = s.as_str().as_bytes_vec();
    let n = bv.len();
    encode_u64_onto(n as u64, out);
    out.append(&mut bv);
}

impl ValueTree {
    /// Appends this tree's encoding to `out`.
    fn encode_onto(&self, out: &mut Vec<u8>)
        ensures
            final(out)@ == old(out)@ + spec_encode(self@),
            bounded(self@),
        decreases self, 0nat,
    {
        match self {
            ValueTree::Unit => {
                out.push(TAG_UNIT);
                proof {
                    assert(old(out)@ + seq![TAG_UNIT] =~= out@);
                }
            }
            ValueTree::Int(i) => {
                out.push(TAG_INT);
                encode_u64_onto(*i as u64, out);
                proof {
                    assert(out@ =~= old(out)@ + (seq![TAG_INT] + spec_u64_to_le_bytes(
                        *i as u64,
                    )));
                }
            }
            ValueTree::Float(bits) => {
                out.push(TAG_FLOAT);
                encode_u64_onto(*bits, out);
                proof {
                    assert(out@ =~= old(out)@ + (seq![TAG_FLOAT] + spec_u64_to_le_bytes(*bits)));
                }
            }
            ValueTree::Text(s) => {
                out.push(TAG_TEXT);
                encode_text_onto(s, out);
                proof {
                    assert(out@ =~= old(out)@ + (seq![TAG_TEXT] + spec_encode_text(s@)));
                }
            }
            ValueTree::List(items) => {
                out.push(TAG_LIST);
                let n = items.len();
                encode_u64_onto(n as u64, out);
                encode_items_onto(items, 0, out);
                proof {
                    lemma_abs_items_len(items@);
                    assert(abs_items(items@).skip(0) =~= abs_items(items@));
                    assert(out@ =~= old(out)@ + (seq![TAG_LIST] + spec_u64_to_le_bytes(n as u64)
                        + spec_encode_items(abs_items(items@))));
                }
            }
            ValueTree::Table(entries) => {
                out.push(TAG_TABLE);
                let n = entries.len();
                encode_u64_onto(n as u64, out);
                encode_entries_onto(entries, 0, out);
                proof {
                    lemma_abs_entries_len(entries@);
                    assert(abs_entries(entries@).skip(0) =~= abs_entries(entries@));
                    assert(out@ =~= old(out)@ + (seq![TAG_TABLE] + spec_u64_to_le_bytes(n as u64)
                        + spec_encode_entries(abs_entries(entries@))));
                }
            }
        }
    }

    /// Encodes this tree as a fresh byte string.
    pub fn encode(&self) -> (out: Vec<u8>)
        ensures
            out@ == spec_encode(self@),
            bounded(self@),
    {
        let mut out: Vec<u8> = Vec::new();
        self.encode_onto(&mut out);
        proof {
            assert(Seq::<u8>::empty() + spec_encode(self@) =~= spec_encode(self@));
        }
        out
    }

    /// Decodes a complete payload: one tree that fills the whole buffer.
    pub fn decode(bytes: &Vec<u8>) -> (r: Option<ValueTree>)
        ensures
            r matches Some(v) ==> spec_decode_exact(bytes@) == Some(v@) && bounded(v@),
            r is None ==> spec_decode_exact(bytes@) is None,
    {
        proof {
            assert(bytes@.skip(0) =~= bytes@);
        }
        match decode_at(bytes, 0) {
            Some(p) => {
                if p.1 == bytes.len() {
                    proof {
                        assert(bytes@.skip(p.1 as int).len() == 0);
                    }
                    Some(p.0)
                } else {
                    proof {
                        assert(bytes@.skip(p.1 as int).len() > 0);
                    }
                    None
                }
            }
            None => None,
        }
    }
}

/// Appends the encodings of `v`'s elements from index `i` on.
fn encode_items_onto(v: &Vec<ValueTree>, i: usize, out: &mut Vec<u8>)
    requires
        i <= v@.len(),
    ensures
        final(out)@ == old(out)@ + spec_encode_items(abs_items(v@).skip(i as int)),
        bounded_items(abs_items(v@).skip(i as int)),
    decreases v, v@.len() - i,
{
    proof {
        lemma_abs_items_len(v@);
    }
    if i == v.len() {
        proof {
            assert(abs_items(v@).skip(i as int) =~= Seq::<TreeV>::empty());
            assert(out@ + Seq::<u8>::empty() =~= out@);
        }
    } else {
        let elem = &v[i];
        elem.encode_onto(out);
        encode_items_onto(v, i + 1, out);
        proof {
            let es = abs_items(v@).skip(i as int);
            assert(es.first() == v@[i as int]@);
            assert(es.drop_first() =~= abs_items(v@).skip(i + 1));
            assert(out@ =~= old(out)@ + (spec_encode(v@[i as int]@) + spec_encode_items(
                abs_items(v@).skip(i + 1),
            )));
        }
    }
}

/// Appends the encodings of `v`'s entries from index `i` on.
fn encode_entries_onto(v: &Vec<(String, ValueTree)>, i: usize, out: &mut Vec<u8>)
    requires
        i <= v@.len(),
    ensures
        final(out)@ == old(out)@ + spec_encode_entries(abs_entries(v@).skip(i as int)),
        bounded_entries(abs_entries(v@).skip(i as int)),
    decreases v, v@.len() - i,
{
    proof {
        lemma_abs_entries_len(v@);
    }
    if i == v.len() {
        proof {
            assert(abs_entries(v@).skip(i as int) =~= Seq::<(Seq<char>, TreeV)>::empty());
            assert(out@ + Seq::<u8>::empty() =~= out@);
        }
    } else {
        let entry = &v[i];
        encode_text_onto(&entry.0, out);
        entry.1.encode_onto(out);
        encode_entries_onto(v, i + 1, out);
        proof {
            let es = abs_entries(v@).skip(i as int);
            assert(es.first() == (v@[i as int].0@, v@[i as int].1@));
            assert(es.drop_first() =~= abs_entries(v@).skip(i + 1));
            assert(out@ =~= old(out)@ + (spec_encode_text(v@[i as int].0@) + spec_encode(
                v@[i as int].1@,
            ) + spec_encode_entries(abs_entries(v@).skip(i + 1))));
        }
    }
}

/// Decodes a string at position `pos`.
fn decode_text_at(bytes: &Vec<u8>, pos: usize) -> (r: Option<(String, usize)>)
    requires
        pos <= bytes@.len(),
    ensures
        r matches Some(p) ==> pos + 8 <= p.1 <= bytes@.len() && spec_decode_text(
            bytes@.skip(pos as int),
        ) == Some((p.0@, bytes@.skip(p.1 as int))) && text_bounded(p.0@),
        r is None ==> spec_decode_text(bytes@.skip(pos as int)) is None,
{
    let len = bytes.len();
    let s = Ghost(bytes@.skip(pos as int));
    if len - pos < 8 {
        return None;
    }
    let n64 = u64_from_le_bytes(slice_subrange(bytes.as_slice(), pos, pos + 8));
    proof {
        assert(bytes@.subrange(pos as int, pos + 8) =~= s@.take(8));
    }
    let rem = len - (pos + 8);
    if n64 > rem as u64 {
        return None;
    }
    let n = n64 as usize;
    let sub = slice_subrange(bytes.as_slice(), pos + 8, pos + 8 + n);
    let bv = slice_to_vec(sub);
    proof {
        assert(bv@ =~= s@.subrange(8, 8 + n));
    }
    match string_from_utf8(bv) {
        Some(text) => {
            proof {
                decode_utf8_encode_utf8(s@.subrange(8, 8 + n));
                assert(bytes@.skip(pos + 8 + n) =~= s@.skip(8 + n));
            }
            Some((text, pos + 8 + n))
        }
        None => None,
    }
}

/// Decodes one value tree at position `pos`.
fn decode_at(bytes: &Vec<u8>, pos: usize) -> (r: Option<(ValueTree, usize)>)
    requires
        pos <= bytes@.len(),
    ensures
        r matches Some(p) ==> pos < p.1 <= bytes@.len() && spec_decode(bytes@.skip(pos as int))
            == Some((p.0@, bytes@.skip(p.1 as int))) && bounded(p.0@),
        r is None ==> spec_decode(bytes@.skip(pos as int)) is None,
    decreases bytes@.len() - pos, 0nat,
{
    let len = bytes.len();
    let s = Ghost(bytes@.skip(pos as int));
    if pos == len {
        return None;
    }
    let tag = bytes[pos];
    proof {
        assert(s@.first() == bytes@[pos as int]);
        assert(s@.drop_first() =~= bytes@.skip(pos + 1));
    }
    if tag == TAG_UNIT {
        Some((ValueTree::Unit, pos + 1))
    } else if tag == TAG_INT {
        if len - (pos + 1) < 8 {
            return None;
        }
        let x = u64_from_le_bytes(slice_subrange(bytes.as_slice(), pos + 1, pos + 9));
        proof {
            assert(bytes@.subrange(pos + 1, pos + 9) =~= s@.drop_first().take(8));
            assert(s@.drop_first().skip(8) =~= bytes@.skip(pos + 9));
        }
        Some((ValueTree::Int(#[verifier::truncate] (x as i64)), pos + 9))
    } else if tag == TAG_FLOAT {
        if len - (pos + 1) < 8 {
            return None;
        }
        let x = u64_from_le_bytes(slice_subrange(bytes.as_slice(), pos + 1, pos + 9));
        proof {
            assert(bytes@.subrange(pos + 1, pos + 9) =~= s@.drop_first().take(8));
            assert(s@.drop_first().skip(8) =~= bytes@.skip(pos + 9));
        }
        Some((ValueTree::Float(x), pos + 9))
    } else if tag == TAG_TEXT {
        match decode_text_at(bytes, pos + 1) {
            Some(p) => Some((ValueTree::Text(p.0), p.1)),
            None => None,
        }
    } else if tag == TAG_LIST {
        if len - (pos + 1) < 8 {
            return None;
        }
        let n64 = u64_from_le_bytes(slice_subrange(bytes.as_slice(), pos + 1, pos + 9));
        proof {
            assert(bytes@.subrange(pos + 1, pos + 9) =~= s@.drop_first().take(8));
            assert(s@.drop_first().skip(8) =~= bytes@.skip(pos + 9));
        }
        match decode_items_at(bytes, pos + 9, n64) {
            Some(p) => {
                let count = p.0.len();
                proof {
                    lemma_abs_items_len(p.0@);
                    assert(abs_items(p.0@).len() == count);
                }
                Some((ValueTree::List(p.0), p.1))
            }
            None => None,
        }
    } else if tag == TAG_TABLE {
        if len - (pos + 1) < 8 {
            return None;
        }
        let n64 = u64_from_le_bytes(slice_subrange(bytes.as_slice(), pos + 1, pos + 9));
        proof {
            assert(bytes@.subrange(pos + 1, pos + 9) =~= s@.drop_first().take(8));
            assert(s@.drop_first().skip(8) =~= bytes@.skip(pos + 9));
        }
        match decode_entries_at(bytes, pos + 9, n64) {
            Some(p) => {
                let count = p.0.len();
                proof {
                    lemma_abs_entries_len(p.0@);
                    assert(abs_entries(p.0@).len() == count);
                }
                Some((ValueTree::Table(p.0), p.1))
            }
            None => None,
        }
    } else {
        None
    }
}

/// Decodes `n` list elements starting at position `pos`.
fn decode_items_at(bytes: &Vec<u8>, pos: usize, n: u64) -> (r: Option<(Vec<ValueTree>, usize)>)
    requires
        pos <= bytes@.len(),
    ensures
        r matches Some(p) ==> pos <= p.1 <= bytes@.len() && spec_decode_items(
            bytes@.skip(pos as int),
            n as nat,
        ) == Some((abs_items(p.0@), bytes@.skip(p.1 as int))) && bounded_items(abs_items(p.0@)),
        r is None ==> spec_decode_items(bytes@.skip(pos as int), n as nat) is None,
    decreases bytes@.len() - pos, n,
{
    if n == 0 {
        let out: Vec<ValueTree> = Vec::new();
        proof {
            assert(abs_items(out@) =~= Seq::<TreeV>::empty());
        }
        return Some((out, pos));
    }
    match decode_at(bytes, pos) {
        None => None,
        Some(head) => {
            proof {
                assert(bytes@.skip(head.1 as int).len() < bytes@.skip(pos as int).len());
            }
            match decode_items_at(bytes, head.1, n - 1) {
                None => None,
                Some(tail) => {
                    let ghost tail_view = abs_items(tail.0@);
                    let mut out: Vec<ValueTree> = Vec::new();
                    out.push(head.0);
                    let mut tail_vec = tail.0;
                    out.append(&mut tail_vec);
                    proof {
                        lemma_abs_items_len(out@);
                        lemma_abs_items_len(tail.0@);
                        assert(abs_items(out@) =~= seq![head.0@] + tail_view);
                        assert((seq![head.0@] + tail_view).drop_first() =~= tail_view);
                    }
                    Some((out, tail.1))
                }
            }
        }
    }
}

/// Decodes `n` map entries starting at position `pos`.
fn decode_entries_at(bytes: &Vec<u8>, pos: usize, n: u64) -> (r: Option<
    (Vec<(String, ValueTree)>, usize),
>)
    requires
        pos <= bytes@.len(),
    ensures
        r matches Some(p) ==> pos <= p.1 <= bytes@.len() && spec_decode_entries(
            bytes@.skip(pos as int),
            n as nat,
        ) == Some((abs_entries(p.0@), bytes@.skip(p.1 as int))) && bounded_entries(
            abs_entries(p.0@),
        ),
        r is None ==> spec_decode_entries(bytes@.skip(pos as int), n as nat) is None,
    decreases bytes@.len() - pos, n,
{
    if n == 0 {
        let out: Vec<(String, ValueTree)> = Vec::new();
        proof {
            assert(abs_entries(out@) =~= Seq::<(Seq<char>, TreeV)>::empty());
        }
        return Some((out, pos));
    }
    match decode_text_at(bytes, pos) {
        None => None,
        Some(key) => {
            proof {
                assert(bytes@.skip(key.1 as int).len() < bytes@.skip(pos as int).len());
            }
            match decode_at(bytes, key.1) {
                None => None,
                Some(head) => {
                    proof {
                        assert(bytes@.skip(head.1 as int).len() < bytes@.skip(pos as int).len());
                    }
                    match decode_entries_at(bytes, head.1, n - 1) {
                        None => None,
                        Some(tail) => {
                            let ghost tail_view = abs_entries(tail.0@);
                            let mut out: Vec<(String, ValueTree)> = Vec::new();
                            out.push((key.0, head.0));
                            let mut tail_vec = tail.0;
                            out.append(&mut tail_vec);
                            proof {
                                lemma_abs_entries_len(out@);
                                lemma_abs_entries_len(tail.0@);
                                assert(abs_entries(out@) =~= seq![(out@[0].0@, out@[0].1@)]
                                    + tail_view);
                                assert((abs_entries(out@)).drop_first() =~= tail_view);
                            }
                            Some((out, tail.1))
                        }
                    }
                }
            }
        }
    }
}

} // verus!
