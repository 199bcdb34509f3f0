//! An in-memory label store honouring the remote capability's contract:
//! names are unique, `create` fails on a taken name, `update` and `delete`
//! fail on an absent one.
//!
//! The reconciliation engine is verified against this store; the unverified
//! outer layer drives the same per-declaration decisions against the real
//! remote store.

use vstd::prelude::*;
use crate::models::{CreateLabelRequest, Label, LabelData, UpdateLabelRequest, UpdateRequestData};
use crate::text::str_eq;

verus! {

/// The fields of a stored label apart from its name.
pub struct LabelEntry {
    pub color: Seq<char>,
    pub description: Option<Seq<char>>,
}

/// A label's entry: what the store holds under its name.
pub open spec fn entry_of(l: LabelData) -> LabelEntry {
    LabelEntry { color: l.color, description: l.description }
}

/// The association of names to entries read off a sequence of labels, later
/// elements overriding earlier ones.
pub open spec fn labels_map(s: Seq<LabelData>) -> Map<Seq<char>, LabelEntry>
    decreases s.len(),
{
    if s.len() == 0 {
        Map::empty()
    } else {
        labels_map(s.drop_last()).insert(s.last().name, entry_of(s.last()))
    }
}

/// No two labels share a name.
pub open spec fn unique_names(s: Seq<LabelData>) -> bool {
    forall|i: int, j: int| 0 <= i < j < s.len() ==> (#[trigger] s[i]).name != (#[trigger] s[j]).name
}

/// The label that an update request makes of a stored one: each present field
/// replaces the stored field, each absent one leaves it as it stands.
pub open spec fn updated_label(name: Seq<char>, e: LabelEntry, r: UpdateRequestData) -> LabelData {
    LabelData {
        name: match r.name {
            Some(n) => n,
            None => name,
        },
        color: match r.color {
            Some(c) => c,
            None => e.color,
        },
        description: match r.description {
            Some(d) => Some(d),
            None => e.description,
        },
    }
}

/// How a store call fails: the requested name is absent, or the name to be
/// created is already taken.
#[derive(Clone, Copy, Debug, PartialEq, Eq, Structural)]
pub enum StoreError {
    NotFound,
    AlreadyExists,
}

/// The store itself: a set of labels with pairwise distinct names, viewed as
/// a map from name to entry.
pub struct LabelStore {
    labels: Vec<Label>,
}

impl View for LabelStore {
    type V = Map<Seq<char>, LabelEntry>;

    open spec fn view(&self) -> Map<Seq<char>, LabelEntry> {
        labels_map(self.entries())
    }
}

proof fn lemma_contains(s: Seq<LabelData>, n: Seq<char>)
    ensures
        labels_map(s).contains_key(n) <==> exists|i: int|
            0 <= i < s.len() && (#[trigger] s[i]).name == n,
    decreases s.len(),
{
    if s.len() > 0 {
        lemma_contains(s.drop_last(), n);
        if s.last().name == n {
            assert(s[s.len() - 1].name == n);
        } else {
            if labels_map(s).contains_key(n) {
                let i = choose|i: int| 0 <= i < s.drop_last().len() && (#[trigger] s.drop_last()[i]).name == n;
                assert(s[i].name == n);
            }
            if exists|i: int| 0 <= i < s.len() && (#[trigger] s[i]).name == n {
                let i = choose|i: int| 0 <= i < s.len() && (#[trigger] s[i]).name == n;
                assert(i < s.len() - 1);
                assert(s.drop_last()[i].name == n);
            }
        }
    }
}

proof fn lemma_index(s: Seq<LabelData>, i: int)
    requires
        unique_names(s),
        0 <= i < s.len(),
    ensures
        labels_map(s).contains_key(s[i].name),
        labels_map(s)[s[i].name] == entry_of(s[i]),
    decreases s.len(),
{
    if i < s.len() - 1 {
        assert(unique_names(s.drop_last())) by {
            assert forall|p: int, q: int| 0 <= p < q < s.drop_last().len() implies (#[trigger] s.drop_last()[p]).name != (#[trigger] s.drop_last()[q]).name by {
                assert(s[p].name != s[q].name);
            }
        }
        lemma_index(s.drop_last(), i);
        assert(s.drop_last()[i] == s[i]);
        assert(s[i].name != s[s.len() - 1].name);
    }
}

proof fn lemma_unique_drop(s: Seq<LabelData>, i: int)
    requires
        unique_names(s),
        0 <= i < s.len(),
    ensures
        unique_names(s.remove(i)),
{
    let t = s.remove(i);
    assert forall|p: int, q: int| 0 <= p < q < t.len() implies (#[trigger] t[p]).name != (#[trigger] t[q]).name by {
        let p0 = if p < i { p } else { p + 1 };
        let q0 = if q < i { q } else { q + 1 };
        assert(t[p] == s[p0]);
        assert(t[q] == s[q0]);
        assert(s[p0].name != s[q0].name);
    }
}

proof fn lemma_remove(s: Seq<LabelData>, i: int)
    requires
        unique_names(s),
        0 <= i < s.len(),
    ensures
        labels_map(s.remove(i)) =~= labels_map(s).remove(s[i].name),
{
    let t = s.remove(i);
    lemma_unique_drop(s, i);
    let a = labels_map(t);
    let b = labels_map(s).remove(s[i].name);
    assert forall|n: Seq<char>| a.contains_key(n) <==> b.contains_key(n) by {
        lemma_contains(t, n);
        lemma_contains(s, n);
        if n == s[i].name {
            if a.contains_key(n) {
                let j = choose|j: int| 0 <= j < t.len() && (#[trigger] t[j]).name == n;
                let j0 = if j < i { j } else { j + 1 };
                assert(t[j] == s[j0]);
                assert(s[j0].name == s[i].name && j0 != i);
                assert(false);
            }
        } else {
            if a.contains_key(n) {
                let j = choose|j: int| 0 <= j < t.len() && (#[trigger] t[j]).name == n;
                let j0 = if j < i { j } else { j + 1 };
                assert(t[j] == s[j0]);
                assert(s[j0].name == n);
            }
            if b.contains_key(n) {
                let j0 = choose|j0: int| 0 <= j0 < s.len() && (#[trigger] s[j0]).name == n;
                assert(j0 != i);
                let j = if j0 < i { j0 } else { j0 - 1 };
                assert(t[j] == s[j0]);
            }
        }
    }
    assert forall|n: Seq<char>| a.contains_key(n) implies a[n] == b[n] by {
        lemma_contains(t, n);
        let j = choose|j: int| 0 <= j < t.len() && (#[trigger] t[j]).name == n;
        let j0 = if j < i { j } else { j + 1 };
        assert(t[j] == s[j0]);
        lemma_index(t, j);
        lemma_index(s, j0);
    }
}

proof fn lemma_push(s: Seq<LabelData>, l: LabelData)
    ensures
        labels_map(s.push(l)) == labels_map(s).insert(l.name, entry_of(l)),
{
    assert(s.push(l).drop_last() =~= s);
    assert(s.push(l).last() == l);
}

proof fn lemma_unique_push(s: Seq<LabelData>, l: LabelData)
    requires
        unique_names(s),
        forall|i: int| 0 <= i < s.len() ==> (#[trigger] s[i]).name != l.name,
    ensures
        unique_names(s.push(l)),
{
    let t = s.push(l);
    assert forall|p: int, q: int| 0 <= p < q < t.len() implies (#[trigger] t[p]).name != (#[trigger] t[q]).name by {
        if q < s.len() {
            assert(t[p] == s[p] && t[q] == s[q]);
        } else {
            assert(t[p] == s[p] && t[q] == l);
        }
    }
}

impl LabelStore {
    /// The stored labels, in insertion order.
    pub closed spec fn entries(&self) -> Seq<LabelData> {
        self.labels.deep_view()
    }

    /// The store's invariant: names are pairwise distinct.
    pub open spec fn wf(&self) -> bool {
        unique_names(self.entries())
    }

    /// An empty store.
    pub fn new() -> (r: LabelStore)
        ensures
            r.wf(),
            r@ == Map::<Seq<char>, LabelEntry>::empty(),
            r.entries() == Seq::<LabelData>::empty(),
    {
        let r = LabelStore { labels: Vec::new() };
        proof {
            assert(r.entries() =~= Seq::<LabelData>::empty());
        }
        r
    }

    /// The index holding `name`, when the store has it.
    fn find_index(&self, name: &str) -> (r: Option<usize>)
        ensures
            match r {
                Some(i) => i < self.entries().len() && self.entries()[i as int].name == name@,
                None => forall|j: int|
                    0 <= j < self.entries().len() ==> (#[trigger] self.entries()[j]).name != name@,
            },
    {
        let n = self.labels.len();
        let mut i: usize = 0;
        while i < n
            invariant
                0 <= i <= n,
                n == self.labels.len(),
                self.entries().len() == n,
                forall|j: int| 0 <= j < i ==> (#[trigger] self.entries()[j]).name != name@,
            decreases n - i,
        {
            if str_eq(self.labels[i].name.as_str(), name) {
                return Some(i);
            }
            i = i + 1;
        }
        None
    }

    /// Whether the store holds a label of this name.
    pub fn has_label(&self, name: &str) -> (r: bool)
        ensures
            r == self@.contains_key(name@),
    {
        proof {
            lemma_contains(self.entries(), name@);
        }
        match self.find_index(name) {
            Some(_) => true,
            None => false,
        }
    }

    /// Every stored label, in insertion order.
    pub fn list(&self) -> (r: Vec<Label>)
        ensures
            r.deep_view() == self.entries(),
    {
        let n = self.labels.len();
        let mut out: Vec<Label> = Vec::new();
        let mut i: usize = 0;
        while i < n
            invariant
                0 <= i <= n,
                n == self.labels.len(),
                out@.len() == i,
                out.deep_view() =~= self.entries().take(i as int),
            decreases n - i,
        {
            let ghost prevd = out.deep_view();
            let ghost prevv = out@;
            out.push(self.labels[i].clone());
            proof {
                assert forall|j: int| 0 <= j < out.deep_view().len() implies out.deep_view()[j]
                    == self.entries().take(i + 1)[j] by {
                    assert(out.deep_view()[j] == out@[j].deep_view());
                    if j < i {
                        assert(out@[j] == prevv[j]);
                        assert(prevd[j] == self.entries().take(i as int)[j]);
                    } else {
                        assert(out@[j] == self.labels@[i as int]);
                    }
                }
                assert(out.deep_view() =~= self.entries().take(i + 1));
            }
            i = i + 1;
        }
        proof {
            assert(self.entries().take(n as int) =~= self.entries());
        }
        out
    }

    /// The label of this name; fails `NotFound` when the name is absent.
    pub fn get(&self, name: &str) -> (r: Result<Label, StoreError>)
        requires
            self.wf(),
        ensures
            match r {
                Ok(l) => self@.contains_key(name@) && l@.name == name@ && self@[name@] == entry_of(
                    l@,
                ),
                Err(e) => !self@.contains_key(name@) && e == StoreError::NotFound,
            },
    {
        proof {
            lemma_contains(self.entries(), name@);
        }
        match self.find_index(name) {
            Some(i) => {
                proof {
                    lemma_index(self.entries(), i as int);
                }
                Ok(self.labels[i].clone())
            },
            None => Err(StoreError::NotFound),
        }
    }

    /// Creates a label under a fresh name; fails `AlreadyExists` when the
    /// name is taken, leaving the store as it stands.
    pub fn create(&mut self, req: &CreateLabelRequest) -> (r: Result<Label, StoreError>)
        requires
            old(self).wf(),
        ensures
            final(self).wf(),
            match r {
                Ok(l) => !old(self)@.contains_key(req@.name) && l@ == (LabelData {
                    name: req@.name,
                    color: req@.color,
                    description: req@.description,
                }) && final(self)@ == old(self)@.insert(req@.name, entry_of(l@)),
                Err(e) => old(self)@.contains_key(req@.name) && e == StoreError::AlreadyExists
                    && *final(self) == *old(self),
            },
    {
        proof {
            lemma_contains(self.entries(), req.name@);
        }
        match self.find_index(req.name.as_str()) {
            Some(_) => Err(StoreError::AlreadyExists),
            None => {
                let l = Label {
                    name: req.name.clone(),
                    color: req.color.clone(),
                    description: match &req.description {
                        Some(d) => Some(d.clone()),
                        None => None,
                    },
                };
                let ret = l.clone();
                proof {
                    lemma_push(self.entries(), l@);
                    lemma_unique_push(self.entries(), l@);
                }
                self.labels.push(l);
                proof {
                    assert(final(self).entries() =~= old(self).entries().push(ret@));
                }
                Ok(ret)
            },
        }
    }

    /// Rewrites the label of this name as the request says, renaming it when
    /// the request carries a name (and absorbing any label that already held
    /// the new name); fails `NotFound` when `name` is absent, leaving the
    /// store as it stands.
    pub fn update(&mut self, name: &str, req: &UpdateLabelRequest) -> (r: Result<
        Label,
        StoreError,
    >)
        requires
            old(self).wf(),
        ensures
            final(self).wf(),
            match r {
                Ok(l) => old(self)@.contains_key(name@) && l@ == updated_label(
                    name@,
                    old(self)@[name@],
                    req@,
                ) && final(self)@ == old(self)@.remove(name@).insert(l@.name, entry_of(l@)),
                Err(e) => !old(self)@.contains_key(name@) && e == StoreError::NotFound && *final(self) == *old(self),
            },
    {
        proof {
            lemma_contains(self.entries(), name@);
        }
        match self.find_index(name) {
            None => Err(StoreError::NotFound),
            Some(i) => {
                proof {
                    lemma_index(self.entries(), i as int);
                }
                let stored = &self.labels[i];
                let l = Label {
                    name: match &req.name {
                        Some(n) => n.clone(),
                        None => String::from_str(name),
                    },
                    color: match &req.color {
                        Some(c) => c.clone(),
                        None => stored.color.clone(),
                    },
                    description: match &req.description {
                        Some(d) => Some(d.clone()),
                        None => match &stored.description {
                            Some(d) => Some(d.clone()),
                            None => None,
                        },
                    },
                };
                proof {
                    lemma_remove(self.entries(), i as int);
                    lemma_unique_drop(self.entries(), i as int);
                }
                self.labels.remove(i);
                proof {
                    assert(self.entries() =~= old(self).entries().remove(i as int));
                }
                proof {
                    lemma_contains(self.entries(), l.name@);
                }
                match self.find_index(l.name.as_str()) {
                    Some(j) => {
                        proof {
                            lemma_remove(self.entries(), j as int);
                            lemma_unique_drop(self.entries(), j as int);
                        }
                        let ghost before = self.entries();
                        self.labels.remove(j);
                        proof {
                            assert(self.entries() =~= before.remove(j as int));
                        }
                    },
                    None => {},
                }
                proof {
                    lemma_contains(self.entries(), l.name@);
                    lemma_push(self.entries(), l@);
                    lemma_unique_push(self.entries(), l@);
                }
                let ret = l.clone();
                let ghost before_push = self.entries();
                self.labels.push(l);
                proof {
                    assert(self.entries() =~= before_push.push(ret@));
                    assert(final(self)@ =~= old(self)@.remove(name@).insert(
                        ret@.name,
                        entry_of(ret@),
                    ));
                }
                Ok(ret)
            },
        }
    }

    /// Removes the label of this name; fails `NotFound` when it is absent,
    /// leaving the store as it stands.
    pub fn delete(&mut self, name: &str) -> (r: Result<(), StoreError>)
        requires
            old(self).wf(),
        ensures
            final(self).wf(),
            match r {
                Ok(_) => old(self)@.contains_key(name@) && final(self)@ == old(self)@.remove(
                    name@,
                ),
                Err(e) => !old(self)@.contains_key(name@) && e == StoreError::NotFound && *final(self) == *old(self),
            },
    {
        proof {
            lemma_contains(self.entries(), name@);
        }
        match self.find_index(name) {
            None => Err(StoreError::NotFound),
            Some(i) => {
                proof {
                    lemma_index(self.entries(), i as int);
                    lemma_remove(self.entries(), i as int);
                    lemma_unique_drop(self.entries(), i as int);
                }
                self.labels.remove(i);
                proof {
                    assert(self.entries() =~= old(self).entries().remove(i as int));
                }
                Ok(())
            },
        }
    }
}

} // verus!
