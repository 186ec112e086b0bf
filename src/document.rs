//! The document tree, addressed by paths of child positions.
use vstd::prelude::*;

verus! {

/// A parsed configuration document.
#[derive(Debug)]
pub enum Document {
    Null,
    Bool(bool),
    /// A number, in the text it was written with.
    Number(String),
    Str(String),
    Sequence(Vec<Document>),
    /// Key and value pairs, in document order.
    Mapping(Vec<(Document, Document)>),
    /// A tag and the node it wraps.
    Tagged(String, Box<Document>),
}

/// The node reached from `d` by taking, at each step, the value of the
/// mapping entry or the sequence element at that position.
pub open spec fn node_at(d: Document, path: Seq<usize>) -> Option<Document>
    decreases path.len(),
{
    if path.len() == 0 {
        Some(d)
    } else {
        let k = path[0] as int;
        match d {
            Document::Mapping(es) => if k < es@.len() {
                node_at(es@[k].1, path.drop_first())
            } else {
                None
            },
            Document::Sequence(xs) => if k < xs@.len() {
                node_at(xs@[k], path.drop_first())
            } else {
                None
            },
            _ => None,
        }
    }
}

/// The value of entry `i` of the mapping at `path`.
pub open spec fn entry_value_at(d: Document, path: Seq<usize>, i: int) -> Option<Document> {
    match node_at(d, path) {
        Some(Document::Mapping(es)) => if 0 <= i < es@.len() {
            Some(es@[i].1)
        } else {
            None
        },
        _ => None,
    }
}

/// The text that a node names as a directive: a string wrapped in `tag`.
pub open spec fn payload_of(v: Document, tag: Seq<char>) -> Option<Seq<char>> {
    match v {
        Document::Tagged(t, inner) => if t@ == tag {
            match *inner {
                Document::Str(s) => Some(s@),
                _ => None,
            }
        } else {
            None
        },
        _ => None,
    }
}

/// `b` is `a` with the value of entry `i` of the mapping at `path` set to
/// `v`, and nothing else changed.
pub open spec fn entry_replaced(a: Document, b: Document, path: Seq<usize>, i: int, v: Document) -> bool
    decreases path.len(),
{
    if path.len() == 0 {
        match a {
            Document::Mapping(x) => match b {
                Document::Mapping(y) => 0 <= i < x@.len() && y@ == x@.update(i, (x@[i].0, v)),
                _ => false,
            },
            _ => false,
        }
    } else {
        let k = path[0] as int;
        match a {
            Document::Mapping(x) => match b {
                Document::Mapping(y) => k < x@.len() && y@.len() == x@.len()
                    && y@[k].0 == x@[k].0
                    && (forall|j: int| 0 <= j < x@.len() && j != k ==> y@[j] == x@[j])
                    && entry_replaced(x@[k].1, y@[k].1, path.drop_first(), i, v),
                _ => false,
            },
            Document::Sequence(x) => match b {
                Document::Sequence(y) => k < x@.len() && y@.len() == x@.len()
                    && (forall|j: int| 0 <= j < x@.len() && j != k ==> y@[j] == x@[j])
                    && entry_replaced(x@[k], y@[k], path.drop_first(), i, v),
                _ => false,
            },
            _ => false,
        }
    }
}

/// After an entry's value is set, the node at that entry's position is the
/// new value.
pub proof fn lemma_replaced_value_in_place(a: Document, b: Document, path: Seq<usize>, i: usize, v: Document)
    requires
        entry_replaced(a, b, path, i as int, v),
    ensures
        node_at(b, path.push(i)) == Some(v),
    decreases path.len(),
{
    if path.len() == 0 {
        assert(path.push(i).drop_first() =~= Seq::<usize>::empty());
        assert(path.push(i)[0] == i);
        if let Document::Mapping(y) = b {
            assert(y@[i as int].1 == v);
            assert(node_at(v, Seq::<usize>::empty()) == Some(v));
        }
    } else {
        assert(path.push(i).drop_first() =~= path.drop_first().push(i));
        assert(path.push(i)[0] == path[0]);
        match a {
            Document::Mapping(x) => match b {
                Document::Mapping(y) => {
                    lemma_replaced_value_in_place(x@[path[0] as int].1, y@[path[0] as int].1, path.drop_first(), i, v);
                },
                _ => {},
            },
            Document::Sequence(x) => match b {
                Document::Sequence(y) => {
                    lemma_replaced_value_in_place(x@[path[0] as int], y@[path[0] as int], path.drop_first(), i, v);
                },
                _ => {},
            },
            _ => {},
        }
    }
}

/// The node at `path`, if there is one.
pub fn node_ref<'a>(d: &'a Document, path: &Vec<usize>) -> (r: Option<&'a Document>)
    ensures
        match r {
            Some(n) => node_at(*d, path@) == Some(*n),
            None => node_at(*d, path@) is None,
        },
{
    let mut cur: &Document = d;
    let mut k: usize = 0;
    assert(path@.skip(0) =~= path@);
    while k < path.len()
        invariant
            k <= path@.len(),
            node_at(*d, path@) == node_at(*cur, path@.skip(k as int)),
        decreases path@.len() - k,
    {
        let p = path[k];
        assert(path@.skip(k as int).drop_first() =~= path@.skip(k + 1));
        match cur {
            Document::Mapping(es) => {
                if p < es.len() {
                    cur = &es[p].1;
                } else {
                    return None;
                }
            },
            Document::Sequence(xs) => {
                if p < xs.len() {
                    cur = &xs[p];
                } else {
                    return None;
                }
            },
            _ => {
                return None;
            },
        }
        k = k + 1;
    }
    assert(path@.skip(k as int) =~= Seq::<usize>::empty());
    Some(cur)
}

/// The value of entry `i` of the mapping at `path`, if there is one.
pub fn entry_value<'a>(d: &'a Document, path: &Vec<usize>, i: usize) -> (r: Option<&'a Document>)
    ensures
        match r {
            Some(v) => entry_value_at(*d, path@, i as int) == Some(*v),
            None => entry_value_at(*d, path@, i as int) is None,
        },
{
    match node_ref(d, path) {
        Some(Document::Mapping(es)) => {
            if i < es.len() {
                Some(&es[i].1)
            } else {
                None
            }
        },
        _ => None,
    }
}

/// The text of a string node wrapped in `tag`.
pub fn payload(v: &Document, tag: &String) -> (r: Option<String>)
    ensures
        match r {
            Some(s) => payload_of(*v, tag@) == Some(s@),
            None => payload_of(*v, tag@) is None,
        },
{
    match v {
        Document::Tagged(t, inner) => {
            if t.eq(tag) {
                match &**inner {
                    Document::Str(s) => Some(s.clone()),
                    _ => None,
                }
            } else {
                None
            }
        },
        _ => None,
    }
}

/// Sets the value of entry `i` of the mapping at `path[from..]` to `v`.
pub fn replace_entry(d: Document, path: &Vec<usize>, from: usize, i: usize, v: Document) -> (r: Document)
    requires
        from <= path@.len(),
        entry_value_at(d, path@.skip(from as int), i as int) is Some,
    ensures
        entry_replaced(d, r, path@.skip(from as int), i as int, v),
    decreases path@.len() - from,
{
    let ghost rest = path@.skip(from as int);
    if from == path.len() {
        assert(rest.len() == 0);
        match d {
            Document::Mapping(mut es) => {
                let ghost x = es@;
                let (key, _old) = es.remove(i);
                es.insert(i, (key, v));
                assert(es@ =~= x.update(i as int, (x[i as int].0, v)));
                Document::Mapping(es)
            },
            other => other,
        }
    } else {
        let k = path[from];
        assert(rest.drop_first() =~= path@.skip(from + 1));
        match d {
            Document::Mapping(mut es) => {
                let ghost x = es@;
                let (key, child) = es.remove(k);
                let nc = replace_entry(child, path, from + 1, i, v);
                es.insert(k, (key, nc));
                assert(es@ =~= x.update(k as int, (x[k as int].0, nc)));
                Document::Mapping(es)
            },
            Document::Sequence(mut xs) => {
                let ghost x = xs@;
                let child = xs.remove(k);
                let nc = replace_entry(child, path, from + 1, i, v);
                xs.insert(k, nc);
                assert(xs@ =~= x.update(k as int, nc));
                Document::Sequence(xs)
            },
            other => other,
        }
    }
}

/// The node is the string `key`.
pub open spec fn is_key(k: Document, key: Seq<char>) -> bool {
    match k {
        Document::Str(s) => s@ == key,
        _ => false,
    }
}

impl Document {
    /// The value of the first entry whose key is the string `key`, when the
    /// document is a mapping.
    pub fn get(&self, key: &str) -> (r: Option<&Document>)
        ensures
            match r {
                Some(v) => exists|i: int| #![trigger self->Mapping_0@[i]]
                    self is Mapping && 0 <= i < self->Mapping_0@.len()
                    && is_key(self->Mapping_0@[i].0, key@) && *v == self->Mapping_0@[i].1
                    && forall|j: int| 0 <= j < i ==> !is_key(#[trigger] self->Mapping_0@[j].0, key@),
                None => !(self is Mapping) || forall|j: int| 0 <= j < self->Mapping_0@.len()
                    ==> !is_key(#[trigger] self->Mapping_0@[j].0, key@),
            },
    {
        match self {
            Document::Mapping(es) => {
                let mut j: usize = 0;
                assert(self->Mapping_0@ == es@);
                while j < es.len()
                    invariant
                        j <= es@.len(),
                        self is Mapping,
                        self->Mapping_0@ == es@,
                        forall|k: int| 0 <= k < j ==> !is_key(#[trigger] es@[k].0, key@),
                    decreases es@.len() - j,
                {
                    let hit = match &es[j].0 {
                        Document::Str(s) => s.as_str().unicode_len() == key.unicode_len()
                            && crate::text::starts_with(s.as_str(), key),
                        _ => false,
                    };
                    if hit {
                        proof {
                            let ks = es@[j as int].0->Str_0@;
                            assert(ks =~= key@);
                            assert(is_key(self->Mapping_0@[j as int].0, key@));
                        }
                        return Some(&es[j].1);
                    }
                    j = j + 1;
                }
                None
            },
            _ => None,
        }
    }
}

} // verus!
