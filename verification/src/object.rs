//! The part of a cluster object that sharding reads: its identity and its
//! labels.

use vstd::prelude::*;

verus! {

/// One label of an object.
#[derive(Debug, Clone)]
pub struct Label {
    pub key: String,
    pub value: String,
}

/// An object of any resource type, reduced to its metadata.
#[derive(Debug, Clone)]
pub struct TargetObject {
    /// The namespace, absent for a cluster-scoped object.
    pub namespace: Option<String>,
    /// The name of the object within its namespace.
    pub name: String,
    /// The labels of the object. Where a key occurs more than once, its
    /// first entry counts.
    pub labels: Vec<Label>,
}

/// An object as contracts see it.
pub struct TargetObjectView {
    pub namespace: Option<Seq<char>>,
    pub name: Seq<char>,
    pub labels: Map<Seq<char>, Seq<char>>,
}

/// The characters of an optional string.
pub open spec fn optional_text(field: Option<String>) -> Option<Seq<char>> {
    match field {
        None => None,
        Some(text) => Some(text@),
    }
}

/// The label map that a list of entries stands for: each key with the value
/// of its first entry.
pub open spec fn labels_of(entries: Seq<Label>) -> Map<Seq<char>, Seq<char>>
    decreases entries.len(),
{
    if entries.len() == 0 {
        Map::empty()
    } else {
        labels_of(entries.drop_first()).insert(entries[0].key@, entries[0].value@)
    }
}

impl View for TargetObject {
    type V = TargetObjectView;

    open spec fn view(&self) -> TargetObjectView {
        TargetObjectView {
            namespace: optional_text(self.namespace),
            name: self.name@,
            labels: labels_of(self.labels@),
        }
    }
}

impl TargetObjectView {
    /// The value of the label `key`, if the object carries it.
    pub open spec fn label(self, key: Seq<char>) -> Option<Seq<char>> {
        if self.labels.contains_key(key) {
            Some(self.labels[key])
        } else {
            None
        }
    }

    /// The object after the label `key` has been set to `value`.
    pub open spec fn with_label(self, key: Seq<char>, value: Seq<char>) -> TargetObjectView {
        TargetObjectView { labels: self.labels.insert(key, value), ..self }
    }
}

/// Entries that do not carry `key` can be dropped from the front of a list
/// without changing what the list says of `key`.
pub proof fn lemma_labels_skip(entries: Seq<Label>, key: Seq<char>, n: int)
    requires
        0 <= n <= entries.len(),
        forall|k: int| 0 <= k < n ==> entries[k].key@ != key,
    ensures
        labels_of(entries).contains_key(key) == labels_of(entries.skip(n)).contains_key(key),
        labels_of(entries)[key] == labels_of(entries.skip(n))[key],
    decreases n,
{
    if n == 0 {
        assert(entries.skip(0) =~= entries);
    } else {
        let rest = entries.drop_first();
        assert forall|k: int| 0 <= k < n - 1 implies rest[k].key@ != key by {
            assert(rest[k] == entries[k + 1]);
        }
        lemma_labels_skip(rest, key, n - 1);
        assert(rest.skip(n - 1) =~= entries.skip(n));
    }
}

impl TargetObject {
    /// Looks up the value of the label `key`.
    pub fn label(&self, key: &str) -> (value: Option<&String>)
        ensures
            match value {
                Some(text) => self@.label(key@) == Some(text@),
                None => self@.label(key@) is None,
            },
    {
        let wanted = key.to_owned();
        let mut i: usize = 0;
        while i < self.labels.len()
            invariant
                i <= self.labels.len(),
                wanted@ == key@,
                forall|k: int| 0 <= k < i ==> self.labels@[k].key@ != key@,
            decreases self.labels.len() - i,
        {
            if self.labels[i].key == wanted {
                proof {
                    lemma_labels_skip(self.labels@, key@, i as int);
                    let tail = self.labels@.skip(i as int);
                    assert(tail[0] == self.labels@[i as int]);
                }
                return Some(&self.labels[i].value);
            }
            i += 1;
        }
        proof {
            lemma_labels_skip(self.labels@, key@, i as int);
            assert(self.labels@.skip(i as int) =~= Seq::<Label>::empty());
        }
        None
    }
}

} // verus!
