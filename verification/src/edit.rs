//! The property editor's core: replacing the value under a path of map
//! keys inside a component's value tree, and packaging the edited field
//! map as a mutation request.  The surrounding widgets live in the host;
//! they hand the new leaf value here and transmit the returned message.

use vstd::prelude::*;
use vstd::pervasive::unreached;
use crate::bridge::ObjectId;
use crate::component::RonComponentSerialized;
use crate::messages::EditorToRuntimeMsg;
use crate::value::{abs_entries, lemma_abs_entries_len, TreeV, ValueTree};

verus! {

/// Index of the first entry of a map carrying `key`.
pub open spec fn spec_table_find(es: Seq<(Seq<char>, TreeV)>, key: Seq<char>) -> Option<int>
    decreases es,
{
    if es.len() == 0 {
        None
    } else if es.first().0 == key {
        Some(0)
    } else {
        match spec_table_find(es.drop_first(), key) {
            Some(i) => Some(i + 1),
            None => None,
        }
    }
}

/// A found entry index is in bounds and carries the key.
pub proof fn lemma_table_find(es: Seq<(Seq<char>, TreeV)>, key: Seq<char>)
    ensures
        spec_table_find(es, key) matches Some(i) ==> 0 <= i < es.len() && es[i].0 == key,
    decreases es,
{
    if es.len() > 0 && es.first().0 != key {
        lemma_table_find(es.drop_first(), key);
    }
}

/// The tree with the value under `path` replaced by `v`: each path step
/// selects a map entry by key, and only that entry's value changes.
/// `None` when a step hits a non-map or an absent key.
pub open spec fn spec_update_at(t: TreeV, path: Seq<String>, v: TreeV) -> Option<TreeV>
    decreases path.len(),
{
    if path.len() == 0 {
        Some(v)
    } else {
        match t {
            TreeV::Table(es) => match spec_table_find(es, path.first()@) {
                Some(i) => match spec_update_at(es[i].1, path.drop_first(), v) {
                    Some(sub) => Some(TreeV::Table(es.update(i, (es[i].0, sub)))),
                    None => None,
                },
                None => None,
            },
            _ => None,
        }
    }
}

/// Linear scan for a map key, from index `i`.
pub(crate) fn table_find_from(entries: &Vec<(String, ValueTree)>, i: usize, key: &String) -> (r: Option<
    usize,
>)
    requires
        i <= entries@.len(),
    ensures
        r matches Some(j) ==> i <= j < entries@.len() && spec_table_find(
            abs_entries(entries@).skip(i as int),
            key@,
        ) == Some(j - i),
        r is None ==> spec_table_find(abs_entries(entries@).skip(i as int), key@) is None,
    decreases entries@.len() - i,
{
    proof {
        lemma_abs_entries_len(entries@);
    }
    if i == entries.len() {
        None
    } else {
        proof {
            assert(abs_entries(entries@).skip(i as int).first() == abs_entries(entries@)[i as int]);
            assert(abs_entries(entries@).skip(i as int).drop_first() =~= abs_entries(
                entries@,
            ).skip(i + 1));
        }
        if entries[i].0.eq(key) {
            Some(i)
        } else {
            table_find_from(entries, i + 1, key)
        }
    }
}

/// Replaces the value under `path`, starting at step `depth`, in place.
/// Returns whether the path existed; when it did not, the tree is left
/// exactly as it was.
pub fn set_at_path(tree: &mut ValueTree, path: &Vec<String>, depth: usize, v: ValueTree) -> (ok:
    bool)
    requires
        depth <= path@.len(),
    ensures
        ok ==> spec_update_at(old(tree)@, path@.skip(depth as int), v@) == Some(final(tree)@),
        !ok ==> spec_update_at(old(tree)@, path@.skip(depth as int), v@) is None && final(tree)@
            == old(tree)@,
    decreases path@.len() - depth,
{
    if depth == path.len() {
        proof {
            assert(path@.skip(depth as int).len() == 0);
        }
        *tree = v;
        return true;
    }
    proof {
        assert(path@.skip(depth as int).first() == path@[depth as int]);
        assert(path@.skip(depth as int).drop_first() =~= path@.skip(depth + 1));
    }
    match tree {
        ValueTree::Table(entries) => {
            proof {
                lemma_abs_entries_len(entries@);
                assert(abs_entries(entries@).skip(0) =~= abs_entries(entries@));
                lemma_table_find(abs_entries(entries@), path@[depth as int]@);
            }
            match table_find_from(entries, 0, &path[depth]) {
                None => false,
                Some(j) => {
                    let ghost entries_pre = entries@;
                    let entry = &mut entries[j];
                    let ok = set_at_path(&mut entry.1, path, depth + 1, v);
                    proof {
                        lemma_abs_entries_len(entries@);
                        if ok {
                            assert(abs_entries(entries@) =~= abs_entries(entries_pre).update(
                                j as int,
                                (abs_entries(entries_pre)[j as int].0, entries@[j as int].1@),
                            ));
                        } else {
                            assert(abs_entries(entries@) =~= abs_entries(entries_pre));
                        }
                    }
                    ok
                }
            }
        }
        _ => false,
    }
}

/// The fire-and-forget mutation request for one edited component: the
/// object, the type name, and the edited field map in its wire encoding.
/// No acknowledgement comes back; the next snapshot confirms the effect.
pub fn make_insert_component(entity: ObjectId, type_key: &String, inner: &ValueTree) -> (r:
    EditorToRuntimeMsg)
    ensures
        r matches EditorToRuntimeMsg::InsertComponent { entity: e, component } && e == entity
            && component.type_key@ == type_key@ && component.value@ == crate::codec::spec_encode(
            inner@,
        ),
{
    let value = inner.encode();
    EditorToRuntimeMsg::InsertComponent {
        entity,
        component: RonComponentSerialized { type_key: type_key.clone(), value },
    }
}

} // verus!
