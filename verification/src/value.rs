//! The self-describing value tree: the wire- and edit-time representation
//! of one component's data.

use vstd::prelude::*;

verus! {

/// Ghost mirror of [`ValueTree`], with mathematical sequences in place of
/// vectors and strings.  Contracts throughout the crate speak of values of
/// this type, obtained through the view `@`.
pub enum TreeV {
    Table(Seq<(Seq<char>, TreeV)>),
    List(Seq<TreeV>),
    Int(i64),
    Float(u64),
    Text(Seq<char>),
    Unit,
}

/// A dynamically typed recursive value: an ordered key/value map, an ordered
/// list, a number (signed integer, or a floating-point number carried
/// losslessly as its IEEE 754 bit pattern), a string, or the unit marker
/// used for opaque components.
#[derive(Debug, PartialEq)]
pub enum ValueTree {
    Table(Vec<(String, ValueTree)>),
    List(Vec<ValueTree>),
    Int(i64),
    Float(u64),
    Text(String),
    Unit,
}

/// View of a sequence of map entries, entry by entry.
pub open spec fn abs_entries(entries: Seq<(String, ValueTree)>) -> Seq<(Seq<char>, TreeV)>
    decreases entries,
{
    if entries.len() == 0 {
        Seq::empty()
    } else {
        abs_entries(entries.drop_last()).push((entries.last().0@, entries.last().1@))
    }
}

/// View of a sequence of list elements, element by element.
pub open spec fn abs_items(items: Seq<ValueTree>) -> Seq<TreeV>
    decreases items,
{
    if items.len() == 0 {
        Seq::empty()
    } else {
        abs_items(items.drop_last()).push(items.last()@)
    }
}

impl View for ValueTree {
    type V = TreeV;

    open spec fn view(&self) -> TreeV
        decreases self,
    {
        match self {
            ValueTree::Table(entries) => TreeV::Table(abs_entries(entries@)),
            ValueTree::List(items) => TreeV::List(abs_items(items@)),
            ValueTree::Int(i) => TreeV::Int(*i),
            ValueTree::Float(bits) => TreeV::Float(*bits),
            ValueTree::Text(s) => TreeV::Text(s@),
            ValueTree::Unit => TreeV::Unit,
        }
    }
}

pub proof fn lemma_abs_entries_len(entries: Seq<(String, ValueTree)>)
    ensures
        abs_entries(entries).len() == entries.len(),
        forall|i: int|
            0 <= i < entries.len() ==> #[trigger] abs_entries(entries)[i] == (
            entries[i].0@,
            entries[i].1@,
            ),
    decreases entries,
{
    if entries.len() == 0 {
        assert(abs_entries(entries) =~= Seq::<(Seq<char>, TreeV)>::empty());
        assert(abs_entries(entries).len() == 0);
    } else {
        lemma_abs_entries_len(entries.drop_last());
        assert(abs_entries(entries) == abs_entries(entries.drop_last()).push(
            (entries.last().0@, entries.last().1@),
        ));
        assert(abs_entries(entries).len() == entries.len());
        assert forall|i: int| 0 <= i < entries.len() implies #[trigger] abs_entries(entries)[i]
            == (entries[i].0@, entries[i].1@) by {
            if i < entries.len() - 1 {
                assert(abs_entries(entries)[i] == abs_entries(entries.drop_last())[i]);
                assert(entries.drop_last()[i] == entries[i]);
            } else {
                assert(entries.last() == entries[i]);
            }
        }
    }
}

pub proof fn lemma_abs_items_len(items: Seq<ValueTree>)
    ensures
        abs_items(items).len() == items.len(),
        forall|i: int| 0 <= i < items.len() ==> #[trigger] abs_items(items)[i] == items[i]@,
    decreases items,
{
    if items.len() > 0 {
        lemma_abs_items_len(items.drop_last());
        assert(abs_items(items) == abs_items(items.drop_last()).push(items.last()@));
        assert forall|i: int| 0 <= i < items.len() implies #[trigger] abs_items(items)[i]
            == items[i]@ by {
            if i < items.len() - 1 {
                assert(abs_items(items)[i] == abs_items(items.drop_last())[i]);
                assert(items.drop_last()[i] == items[i]);
            } else {
                assert(items.last() == items[i]);
            }
        }
    }
}

/// Keys are unique within one map.
pub open spec fn distinct_keys(entries: Seq<(Seq<char>, TreeV)>) -> bool {
    forall|i: int, j: int|
        0 <= i < j < entries.len() ==> (#[trigger] entries[i]).0 != (#[trigger] entries[j]).0
}

/// The value-tree invariant: within every map of the tree, keys are
/// unique.
pub open spec fn tree_wf(t: TreeV) -> bool
    decreases t,
{
    match t {
        TreeV::Table(entries) => distinct_keys(entries) && entries_wf(entries),
        TreeV::List(items) => items_wf(items),
        TreeV::Int(_) => true,
        TreeV::Float(_) => true,
        TreeV::Text(_) => true,
        TreeV::Unit => true,
    }
}

pub open spec fn entries_wf(entries: Seq<(Seq<char>, TreeV)>) -> bool
    decreases entries,
{
    if entries.len() == 0 {
        true
    } else {
        tree_wf(entries.first().1) && entries_wf(entries.drop_first())
    }
}

pub open spec fn items_wf(items: Seq<TreeV>) -> bool
    decreases items,
{
    if items.len() == 0 {
        true
    } else {
        tree_wf(items.first()) && items_wf(items.drop_first())
    }
}

} // verus!
