//! The vocabulary: each word's name and its definition body.
use vstd::prelude::*;

use crate::item::Item;

verus! {

/// The words known to an interpreter, each name with the items it stands
/// for. Names are held in case-folded form and are unique.
pub struct Vocabulary {
    names: Vec<Vec<char>>,
    bodies: Vec<Vec<Item>>,
}

impl Vocabulary {
    /// Names and bodies pair up one for one, and no name occurs twice.
    pub closed spec fn wf(&self) -> bool {
        &&& self.names@.len() == self.bodies@.len()
        &&& forall|i: int, j: int|
            0 <= i < j < self.names@.len() ==> #[trigger] self.names@[i]@ != #[trigger] self.names@[j]@
    }

    /// Whether `k` is a name here.
    closed spec fn has(&self, k: Seq<char>) -> bool {
        exists|i: int| 0 <= i < self.names@.len() && #[trigger] self.names@[i]@ == k
    }

    /// The place of name `k`.
    closed spec fn index_of(&self, k: Seq<char>) -> int {
        choose|i: int| 0 <= i < self.names@.len() && #[trigger] self.names@[i]@ == k
    }

    /// The vocabulary as a map from name to definition body.
    pub closed spec fn view(&self) -> Map<Seq<char>, Seq<Item>> {
        Map::new(|k: Seq<char>| self.has(k), |k: Seq<char>| self.bodies@[self.index_of(k)]@)
    }

    /// The name at place `i`.
    pub closed spec fn name_at(&self, i: int) -> Seq<char> {
        self.names@[i]@
    }

    /// The number of names.
    pub closed spec fn len(&self) -> nat {
        self.names@.len()
    }

    proof fn lemma_index(&self, i: int)
        requires
            self.wf(),
            0 <= i < self.names@.len(),
        ensures
            self.has(self.names@[i]@),
            self.index_of(self.names@[i]@) == i,
            self@.contains_key(self.names@[i]@),
            self@[self.names@[i]@] == self.bodies@[i]@,
    {
        let k = self.names@[i]@;
        assert(self.has(k));
        let j = self.index_of(k);
        assert(self.names@[j]@ == k);
        if j < i {
            assert(self.names@[j]@ != self.names@[i]@);
        } else if i < j {
            assert(self.names@[i]@ != self.names@[j]@);
        }
    }

    /// An empty vocabulary.
    pub fn empty() -> (r: Vocabulary)
        ensures
            r.wf(),
            r@ == Map::<Seq<char>, Seq<Item>>::empty(),
            r.len() == 0,
    {
        let r = Vocabulary { names: Vec::new(), bodies: Vec::new() };
        assert(r@ =~= Map::<Seq<char>, Seq<Item>>::empty());
        r
    }

    /// The place of `name`, if it is a name here.
    pub fn find(&self, name: &Vec<char>) -> (r: Option<usize>)
        requires
            self.wf(),
        ensures
            r is None <==> !self@.contains_key(name@),
            r matches Some(i) ==> i < self.len() && self.name_at(i as int) == name@,
    {
        let mut i: usize = 0;
        while i < self.names.len()
            invariant
                self.wf(),
                i <= self.names@.len(),
                forall|j: int| 0 <= j < i ==> self.names@[j]@ != name@,
            decreases self.names@.len() - i,
        {
            if same_chars(&self.names[i], name) {
                return Some(i);
            }
            i += 1;
        }
        proof {
            if self@.contains_key(name@) {
                assert(self.has(name@));
                let j = self.index_of(name@);
                assert(self.names@[j]@ == name@);
            }
        }
        None
    }

    /// A copy of the body of `name`, if it is a name here.
    pub fn lookup(&self, name: &Vec<char>) -> (r: Option<Vec<Item>>)
        requires
            self.wf(),
        ensures
            r is None <==> !self@.contains_key(name@),
            r matches Some(b) ==> b@ == self@[name@],
    {
        match self.find(name) {
            Some(i) => {
                proof {
                    self.lemma_index(i as int);
                }
                Some(copy_items(&self.bodies[i]))
            },
            None => None,
        }
    }

    /// Gives `name` the empty body, in place of any body it had; returns
    /// its place.
    pub fn define(&mut self, name: &Vec<char>) -> (r: usize)
        requires
            old(self).wf(),
        ensures
            final(self).wf(),
            final(self)@ == old(self)@.insert(name@, Seq::empty()),
            r < final(self).len(),
            final(self).name_at(r as int) == name@,
    {
        match self.find(name) {
            Some(i) => {
                self.set_body(i, Vec::new());
                i
            },
            None => {
                let ghost before = *self;
                self.names.push(copy_chars(name));
                self.bodies.push(Vec::new());
                let n = self.names.len() - 1;
                assert forall|i: int, j: int|
                    0 <= i < j < self.names@.len() implies #[trigger] self.names@[i]@
                    != #[trigger] self.names@[j]@ by {
                    if j == n {
                        assert(before.names@[i]@ == before.name_at(i));
                        if self.names@[i]@ == name@ {
                            before.lemma_index(i);
                        }
                    }
                }
                assert forall|k: Seq<char>| #[trigger] self.has(k) == (before.has(k) || k == name@) by {
                    if self.has(k) {
                        let j = choose|j: int| 0 <= j < self.names@.len() && #[trigger] self.names@[j]@ == k;
                        if j < n {
                            assert(before.names@[j]@ == k);
                        }
                    }
                    if before.has(k) {
                        let j = choose|j: int| 0 <= j < before.names@.len() && #[trigger] before.names@[j]@ == k;
                        assert(self.names@[j]@ == k);
                    }
                    if k == name@ {
                        assert(self.names@[n as int]@ == k);
                    }
                }
                assert forall|k: Seq<char>| #[trigger] before.has(k) implies self.bodies@[self.index_of(k)]@ == before.bodies@[before.index_of(k)]@ by {
                    let j = before.index_of(k);
                    before.lemma_index(j);
                    assert(self.names@[j]@ == k);
                    self.lemma_index(j);
                }
                proof {
                    self.lemma_index(n as int);
                }
                assert(self@ =~= before@.insert(name@, Seq::empty()));
                n
            },
        }
    }

    /// Appends `items` to the body at place `i`.
    pub fn extend_body(&mut self, i: usize, items: &Vec<Item>)
        requires
            old(self).wf(),
            i < old(self).len(),
        ensures
            final(self).wf(),
            final(self).len() == old(self).len(),
            forall|j: int| 0 <= j < final(self).len() ==> final(self).name_at(j) == old(self).name_at(j),
            final(self)@ == old(self)@.insert(
                old(self).name_at(i as int),
                old(self)@[old(self).name_at(i as int)] + items@,
            ),
    {
        proof {
            self.lemma_index(i as int);
        }
        let mut body = copy_items(&self.bodies[i]);
        let mut j: usize = 0;
        while j < items.len()
            invariant
                j <= items@.len(),
                body@ == self.bodies@[i as int]@ + items@.take(j as int),
            decreases items@.len() - j,
        {
            body.push(items[j]);
            j += 1;
            assert(body@ =~= self.bodies@[i as int]@ + items@.take(j as int));
        }
        assert(items@.take(j as int) =~= items@);
        self.set_body(i, body);
    }

    /// Replaces the body at place `i`.
    fn set_body(&mut self, i: usize, body: Vec<Item>)
        requires
            old(self).wf(),
            i < old(self).len(),
        ensures
            final(self).wf(),
            final(self).names == old(self).names,
            final(self)@ == old(self)@.insert(old(self).name_at(i as int), body@),
    {
        let ghost before = *self;
        proof {
            before.lemma_index(i as int);
        }
        self.bodies.set(i, body);
        assert forall|k: Seq<char>| #[trigger] self.has(k) && k != before.name_at(i as int) implies self.bodies@[self.index_of(k)]@ == before.bodies@[before.index_of(k)]@ by {
            let j = self.index_of(k);
            assert(self.names@[j]@ == k);
        }
        proof {
            self.lemma_index(i as int);
        }
        assert(self@ =~= before@.insert(before.name_at(i as int), body@));
    }
}

/// Whether two names are the same, character by character.
fn same_chars(a: &Vec<char>, b: &Vec<char>) -> (r: bool)
    ensures
        r == (a@ == b@),
{
    if a.len() != b.len() {
        return false;
    }
    let mut i: usize = 0;
    while i < a.len()
        invariant
            a@.len() == b@.len(),
            i <= a@.len(),
            forall|j: int| 0 <= j < i ==> a@[j] == b@[j],
        decreases a@.len() - i,
    {
        if a[i] != b[i] {
            return false;
        }
        i += 1;
    }
    assert(a@ =~= b@);
    true
}

/// A copy of a name.
fn copy_chars(a: &Vec<char>) -> (r: Vec<char>)
    ensures
        r@ == a@,
{
    let mut r: Vec<char> = Vec::new();
    let mut i: usize = 0;
    while i < a.len()
        invariant
            i <= a@.len(),
            r@ == a@.take(i as int),
        decreases a@.len() - i,
    {
        r.push(a[i]);
        i += 1;
        assert(r@ =~= a@.take(i as int));
    }
    assert(a@.take(i as int) =~= a@);
    r
}

/// A copy of a sequence of items.
pub fn copy_items(a: &Vec<Item>) -> (r: Vec<Item>)
    ensures
        r@ == a@,
{
    let mut r: Vec<Item> = Vec::new();
    let mut i: usize = 0;
    while i < a.len()
        invariant
            i <= a@.len(),
            r@ == a@.take(i as int),
        decreases a@.len() - i,
    {
        r.push(a[i]);
        i += 1;
        assert(r@ =~= a@.take(i as int));
    }
    assert(a@.take(i as int) =~= a@);
    r
}

} // verus!
