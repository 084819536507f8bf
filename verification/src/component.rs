//! The two forms of a captured component: its transport form (type name
//! plus encoded value tree) and its decoded, editable form.

use vstd::prelude::*;
use vstd::pervasive::unreached;
use vstd::string::{StrSliceExecFns, StringExecFns};
use crate::codec::{bounded, spec_decode_exact};
use crate::value::{abs_entries, lemma_abs_entries_len, TreeV, ValueTree};

verus! {

/// Transport form of one component: the type's stable name, and the
/// component's value tree in its wire encoding.  The name is carried
/// separately so that components of unserializable types can still be
/// shown by name.
#[derive(Debug, Clone, PartialEq)]
pub struct RonComponentSerialized {
    pub type_key: String,
    pub value: Vec<u8>,
}

/// Decoded form of one component: the type's stable name and the decoded
/// value tree.  For a serializable component the tree is a single-entry
/// map whose key repeats the type name.
#[derive(Debug, PartialEq)]
pub struct RonComponent {
    pub type_key: String,
    pub value: ValueTree,
}

/// The display name of a component: the last key of its map, or, where
/// the value is no map, the separately carried type name.
pub open spec fn spec_component_name(value: TreeV, type_key: Seq<char>) -> Seq<char> {
    match value {
        TreeV::Table(entries) => if entries.len() == 0 {
            Seq::empty()
        } else {
            entries.last().0
        },
        _ => type_key,
    }
}


/// A character at which a type path is cut when a name is shortened:
/// the delimiters of generics, tuples, arrays and argument lists.
pub open spec fn is_delimiter(c: char) -> bool {
    c == ' ' || c == '<' || c == '>' || c == '(' || c == ')' || c == '[' || c == ']' || c == ','
        || c == ';'
}

/// Position of the first delimiter.
pub open spec fn spec_find_delimiter(s: Seq<char>) -> Option<nat>
    decreases s,
{
    if s.len() == 0 {
        None
    } else if is_delimiter(s.first()) {
        Some(0)
    } else {
        match spec_find_delimiter(s.drop_first()) {
            Some(i) => Some(i + 1),
            None => None,
        }
    }
}

/// Position of the first path separator, the two-character `::`.
pub open spec fn spec_find_separator(s: Seq<char>) -> Option<nat>
    decreases s,
{
    if s.len() < 2 {
        None
    } else if s[0] == ':' && s[1] == ':' {
        Some(0)
    } else {
        match spec_find_separator(s.drop_first()) {
            Some(i) => Some(i + 1),
            None => None,
        }
    }
}

/// One path segment collapsed to what follows its last separator:
/// `bevy_core::name::Name` becomes `Name`.
pub open spec fn spec_collapse(s: Seq<char>) -> Seq<char>
    decreases s.len(),
{
    match spec_find_separator(s) {
        Some(i) => if i + 2 <= s.len() {
            spec_collapse(s.skip(i + 2 as int))
        } else {
            s
        },
        None => s,
    }
}

/// A full type path shortened for display: every segment between
/// delimiters is collapsed, the delimiters stay.
pub open spec fn spec_short_name(s: Seq<char>) -> Seq<char>
    decreases s.len(),
{
    match spec_find_delimiter(s) {
        None => spec_collapse(s),
        Some(i) => if i < s.len() {
            spec_collapse(s.take(i as int)) + seq![s[i as int]] + spec_short_name(
                s.skip(i + 1 as int),
            )
        } else {
            s
        },
    }
}

/// Whether `c` cuts a type path.
fn is_delimiter_char(c: char) -> (r: bool)
    ensures
        r == is_delimiter(c),
{
    c == ' ' || c == '<' || c == '>' || c == '(' || c == ')' || c == '[' || c == ']' || c == ','
        || c == ';'
}

/// Scans for the first delimiter at or after character `i`.
fn find_delimiter_from(s: &str, n: usize, i: usize) -> (r: Option<usize>)
    requires
        n == s@.len(),
        i <= n,
    ensures
        r matches Some(j) ==> i <= j < n && spec_find_delimiter(s@.skip(i as int)) == Some(
            (j - i) as nat,
        ),
        r is None ==> spec_find_delimiter(s@.skip(i as int)) is None,
    decreases n - i,
{
    if i == n {
        None
    } else {
        proof {
            assert(s@.skip(i as int).first() == s@[i as int]);
            assert(s@.skip(i as int).drop_first() =~= s@.skip(i + 1));
        }
        let c = s.get_char(i);
        if is_delimiter_char(c) {
            Some(i)
        } else {
            find_delimiter_from(s, n, i + 1)
        }
    }
}

/// Scans for the first `::` at or after character `i`, before `to`.
fn find_separator_from(s: &str, to: usize, i: usize) -> (r: Option<usize>)
    requires
        to <= s@.len(),
        i <= to,
    ensures
        r matches Some(j) ==> i <= j && j + 2 <= to && spec_find_separator(
            s@.subrange(i as int, to as int),
        ) == Some((j - i) as nat),
        r is None ==> spec_find_separator(s@.subrange(i as int, to as int)) is None,
    decreases to - i,
{
    if to - i < 2 {
        None
    } else {
        proof {
            assert(s@.subrange(i as int, to as int)[0] == s@[i as int]);
            assert(s@.subrange(i as int, to as int)[1] == s@[i + 1]);
            assert(s@.subrange(i as int, to as int).drop_first() =~= s@.subrange(
                i + 1,
                to as int,
            ));
        }
        let a = s.get_char(i);
        let b = s.get_char(i + 1);
        if a == ':' && b == ':' {
            Some(i)
        } else {
            find_separator_from(s, to, i + 1)
        }
    }
}

/// Appends the collapsed form of the segment `[from, to)`.
fn collapse_onto(s: &str, from: usize, to: usize, out: &mut String)
    requires
        to <= s@.len(),
        from <= to,
    ensures
        final(out)@ == old(out)@ + spec_collapse(s@.subrange(from as int, to as int)),
    decreases to - from,
{
    match find_separator_from(s, to, from) {
        Some(j) => {
            proof {
                assert(s@.subrange(from as int, to as int).skip(j - from + 2) =~= s@.subrange(
                    j + 2,
                    to as int,
                ));
            }
            collapse_onto(s, j + 2, to, out);
        }
        None => {
            let piece = s.substring_char(from, to);
            out.append(piece);
        }
    }
}

/// Appends the shortened form of the path from character `pos` on.
fn short_name_onto(s: &str, n: usize, pos: usize, out: &mut String)
    requires
        n == s@.len(),
        pos <= n,
    ensures
        final(out)@ == old(out)@ + spec_short_name(s@.skip(pos as int)),
    decreases n - pos,
{
    match find_delimiter_from(s, n, pos) {
        None => {
            proof {
                assert(s@.skip(pos as int) =~= s@.subrange(pos as int, n as int));
            }
            collapse_onto(s, pos, n, out);
        }
        Some(i) => {
            proof {
                assert(s@.skip(pos as int).take(i - pos) =~= s@.subrange(pos as int, i as int));
                assert(s@.skip(pos as int).skip(i - pos + 1) =~= s@.skip(i + 1));
                assert(s@.skip(pos as int)[i - pos] == s@[i as int]);
            }
            collapse_onto(s, pos, i, out);
            let delim = s.substring_char(i, i + 1);
            out.append(delim);
            proof {
                assert(delim@ =~= seq![s@[i as int]]);
            }
            let ghost mid = out@;
            short_name_onto(s, n, i + 1, out);
            proof {
                assert(out@ =~= old(out)@ + spec_short_name(s@.skip(pos as int)));
            }
        }
    }
}

impl RonComponent {
    /// Decodes a transport component.  Succeeds exactly when the payload
    /// is one complete, well-formed encoding.
    pub fn from_serialized(s: &RonComponentSerialized) -> (r: Option<RonComponent>)
        ensures
            r matches Some(c) ==> c.type_key@ == s.type_key@ && spec_decode_exact(s.value@)
                == Some(c.value@) && bounded(c.value@),
            r is None ==> spec_decode_exact(s.value@) is None,
    {
        match ValueTree::decode(&s.value) {
            Some(tree) => Some(RonComponent { type_key: s.type_key.clone(), value: tree }),
            None => None,
        }
    }

    /// The component's display name.
    pub fn name(&self) -> (r: String)
        ensures
            r@ == spec_component_name(self.value@, self.type_key@),
    {
        match &self.value {
            ValueTree::Table(entries) => {
                let n = entries.len();
                if n == 0 {
                    String::new()
                } else {
                    proof {
                        lemma_abs_entries_len(entries@);
                    }
                    entries[n - 1].0.clone()
                }
            }
            _ => self.type_key.clone(),
        }
    }

    /// The component's display name with every path segment shortened:
    /// `bevy_core::name::Name` is shown as `Name`, and the segments
    /// inside generic or tuple delimiters are shortened one by one.
    pub fn short_name(&self) -> (r: String)
        ensures
            r@ == spec_short_name(spec_component_name(self.value@, self.type_key@)),
    {
        let long = self.name();
        let n = long.as_str().unicode_len();
        let mut out = String::new();
        short_name_onto(long.as_str(), n, 0, &mut out);
        proof {
            assert(long@.skip(0) =~= long@);
            assert(Seq::<char>::empty() + spec_short_name(long@) =~= spec_short_name(long@));
        }
        out
    }

    /// The map that holds the component's field values: the first value of
    /// the single-entry wrapper map produced by capture.
    pub fn components(&self) -> (r: &ValueTree)
        requires
            self.value matches ValueTree::Table(entries) && entries@.len() > 0,
    ensures
            self.value@ matches TreeV::Table(es) && r@ == es[0].1,
    {
        match &self.value {
            ValueTree::Table(entries) => {
                proof {
                    lemma_abs_entries_len(entries@);
                }
                &entries[0].1
            }
            _ => unreached(),
        }
    }

    /// Mutable access to the map that holds the component's field values.
    /// Afterwards the component is the old one with that first value
    /// replaced by whatever the caller left behind the returned reference.
    pub fn components_mut(&mut self) -> (r: &mut ValueTree)
        requires
            old(self).value matches ValueTree::Table(entries) && entries@.len() > 0,
        ensures
            old(self).value matches ValueTree::Table(entries) && *r == entries@[0].1 && (
            final(self).value matches ValueTree::Table(e2) && e2@ == entries@.update(
                0,
                (entries@[0].0, *final(r)),
            )) && final(self).type_key == old(self).type_key,
    {
        match &mut self.value {
            ValueTree::Table(entries) => {
                let entry = &mut entries[0];
                &mut entry.1
            }
            _ => unreached(),
        }
    }
}

} // verus!
