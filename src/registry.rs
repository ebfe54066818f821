use vstd::prelude::*;

verus! {

/// A point of the field, in thousandths of a field unit.
#[derive(Clone, Copy, Debug, PartialEq, Eq, Structural)]
pub struct Position {
    pub x: i64,
    pub y: i64,
}

/// A movable, collidable thing on the field.
#[derive(Clone, Copy, Debug, PartialEq, Eq, Structural)]
pub struct Entity {
    pub position: Position,
    /// Drawing scale in hundredths (100 is natural size).
    pub scale_pct: u32,
    pub collision: bool,
}

#[derive(Clone, Copy, Debug, PartialEq, Eq, Structural)]
pub enum RegistryError {
    /// No entity has the label.
    NotFound,
    /// An entity already has the label.
    DuplicateLabel,
}

/// Entities by label; no two entities share a label.
pub struct Registry {
    labels: Vec<String>,
    entities: Vec<Entity>,
}

spec fn slot_of(labels: Seq<String>, l: Seq<char>) -> int {
    choose|i: int| 0 <= i < labels.len() && labels[i]@ == l
}

impl View for Registry {
    type V = Map<Seq<char>, Entity>;

    closed spec fn view(&self) -> Map<Seq<char>, Entity> {
        Map::new(
            |l: Seq<char>| exists|i: int| 0 <= i < self.labels@.len() && self.labels@[i]@ == l,
            |l: Seq<char>| self.entities@[slot_of(self.labels@, l)],
        )
    }
}

impl Registry {
    pub closed spec fn wf(&self) -> bool {
        &&& self.labels@.len() == self.entities@.len()
        &&& forall|i: int, j: int|
            0 <= i < self.labels@.len() && 0 <= j < self.labels@.len() && i != j
                ==> self.labels@[i]@ != self.labels@[j]@
    }

    proof fn lemma_slot(&self, i: int)
        requires
            self.wf(),
            0 <= i < self.labels@.len(),
        ensures
            self@.contains_key(self.labels@[i]@),
            self@[self.labels@[i]@] == self.entities@[i],
    {
        let l = self.labels@[i]@;
        assert(0 <= i < self.labels@.len() && self.labels@[i]@ == l);
        let j = slot_of(self.labels@, l);
        assert(0 <= j < self.labels@.len() && self.labels@[j]@ == l);
    }

    /// An empty registry.
    pub fn new() -> (r: Registry)
        ensures
            r.wf(),
            r@ == Map::<Seq<char>, Entity>::empty(),
    {
        let r = Registry { labels: Vec::new(), entities: Vec::new() };
        assert(r@ =~= Map::<Seq<char>, Entity>::empty());
        r
    }

    /// The number of entities.
    pub fn len(&self) -> (n: usize)
        requires
            self.wf(),
        ensures
            n == self@.dom().len(),
    {
        proof {
            self.lemma_dom_len();
        }
        self.labels.len()
    }

    proof fn lemma_dom_len(&self)
        requires
            self.wf(),
        ensures
            self@.dom().finite(),
            self@.dom().len() == self.labels@.len(),
        decreases self.labels@.len(),
    {
        let keys = self.labels@.map_values(|s: String| s@);
        assert forall|i: int, j: int| 0 <= i < keys.len() && 0 <= j < keys.len() && i != j
            implies keys[i] != keys[j] by {}
        assert(keys.no_duplicates());
        assert(self@.dom() =~= keys.to_set()) by {
            assert forall|l: Seq<char>| self@.dom().contains(l) implies keys.to_set().contains(l) by {
                let i = choose|i: int| 0 <= i < self.labels@.len() && self.labels@[i]@ == l;
                assert(keys[i] == l);
            }
            assert forall|l: Seq<char>| keys.to_set().contains(l) implies self@.dom().contains(l) by {
                let i = choose|i: int| 0 <= i < keys.len() && keys[i] == l;
                assert(self.labels@[i]@ == l);
            }
        }
        keys.unique_seq_to_set();
    }

    /// The slot holding `label`, if any.
    fn find(&self, label: &String) -> (r: Option<usize>)
        requires
            self.wf(),
        ensures
            match r {
                Some(i) => i < self.labels@.len() && self.labels@[i as int]@ == label@,
                None => !self@.contains_key(label@),
            },
    {
        let mut i: usize = 0;
        while i < self.labels.len()
            invariant
                0 <= i <= self.labels@.len(),
                forall|j: int| 0 <= j < i ==> self.labels@[j]@ != label@,
            decreases self.labels@.len() - i,
        {
            if self.labels[i] == *label {
                return Some(i);
            }
            i = i + 1;
        }
        None
    }

    /// Whether an entity has `label`.
    pub fn contains(&self, label: &String) -> (r: bool)
        requires
            self.wf(),
        ensures
            r == self@.contains_key(label@),
    {
        match self.find(label) {
            Some(i) => {
                proof {
                    self.lemma_slot(i as int);
                }
                true
            },
            None => false,
        }
    }

    /// The entity with `label`.
    pub fn get(&self, label: &String) -> (r: Result<Entity, RegistryError>)
        requires
            self.wf(),
        ensures
            self@.contains_key(label@) ==> r == Ok::<Entity, RegistryError>(self@[label@]),
            !self@.contains_key(label@) ==> r == Err::<Entity, RegistryError>(RegistryError::NotFound),
    {
        match self.find(label) {
            Some(i) => {
                proof {
                    self.lemma_slot(i as int);
                }
                Ok(self.entities[i])
            },
            None => Err(RegistryError::NotFound),
        }
    }

    /// Adds `entity` under `label`; refuses a label that is already taken.
    pub fn insert(&mut self, label: String, entity: Entity) -> (r: Result<(), RegistryError>)
        requires
            old(self).wf(),
        ensures
            final(self).wf(),
            old(self)@.contains_key(label@) ==> r == Err::<(), RegistryError>(
                RegistryError::DuplicateLabel,
            ) && final(self)@ == old(self)@,
            !old(self)@.contains_key(label@) ==> r == Ok::<(), RegistryError>(())
                && final(self)@ == old(self)@.insert(label@, entity),
    {
        match self.find(&label) {
            Some(i) => {
                proof {
                    self.lemma_slot(i as int);
                }
                Err(RegistryError::DuplicateLabel)
            },
            None => {
                let ghost before = *self;
                let ghost l = label@;
                self.labels.push(label);
                self.entities.push(entity);
                let ghost n = before.labels@.len() as int;
                assert(self.labels@[n]@ == l);
                assert forall|i: int| 0 <= i < n implies self.labels@[i]@ != l by {
                    if self.labels@[i]@ == l {
                        assert(before@.contains_key(l));
                    }
                }
                assert(self.wf());
                assert(self@ =~= before@.insert(l, entity)) by {
                    assert forall|k: Seq<char>| #![auto] self@.contains_key(k)
                        == before@.insert(l, entity).contains_key(k) by {
                        if self@.contains_key(k) && k != l {
                            let i = choose|i: int| 0 <= i < self.labels@.len() && self.labels@[i]@ == k;
                            assert(i < n);
                            assert(before.labels@[i]@ == k);
                        }
                        if before@.contains_key(k) {
                            let i = choose|i: int| 0 <= i < n && before.labels@[i]@ == k;
                            assert(self.labels@[i]@ == k);
                        }
                    }
                    assert forall|k: Seq<char>| #![auto] self@.contains_key(k)
                        implies self@[k] == before@.insert(l, entity)[k] by {
                        let i = choose|i: int| 0 <= i < self.labels@.len() && self.labels@[i]@ == k;
                        self.lemma_slot(i);
                        if k != l {
                            assert(i < n);
                            before.lemma_slot(i);
                        } else {
                            assert(i == n);
                        }
                    }
                }
                Ok(())
            },
        }
    }

    /// Removes the entity with `label`, if there is one; says whether there was.
    pub fn remove(&mut self, label: &String) -> (removed: bool)
        requires
            old(self).wf(),
        ensures
            final(self).wf(),
            removed == old(self)@.contains_key(label@),
            final(self)@ == old(self)@.remove(label@),
    {
        match self.find(label) {
            None => {
                assert(self@ =~= self@.remove(label@));
                false
            },
            Some(i) => {
                let ghost before = *self;
                let ghost l = label@;
                proof {
                    before.lemma_slot(i as int);
                }
                let _ = self.labels.remove(i);
                let _ = self.entities.remove(i);
                let ghost n = self.labels@.len() as int;
                assert forall|j: int| 0 <= j < n implies #[trigger] self.labels@[j] == before.labels@[
                    if j < i { j } else { j + 1 }] && self.entities@[j] == before.entities@[
                    if j < i { j } else { j + 1 }] by {}
                assert(self.wf()) by {
                    assert forall|a: int, b: int|
                        0 <= a < n && 0 <= b < n && a != b
                        implies self.labels@[a]@ != self.labels@[b]@ by {
                        let a2 = if a < i { a } else { a + 1 };
                        let b2 = if b < i { b } else { b + 1 };
                        assert(self.labels@[a] == before.labels@[a2]);
                        assert(self.labels@[b] == before.labels@[b2]);
                    }
                }
                assert(self@ =~= before@.remove(l)) by {
                    assert forall|k: Seq<char>| #![auto] self@.contains_key(k)
                        == before@.remove(l).contains_key(k) by {
                        if self@.contains_key(k) {
                            let j = choose|j: int| 0 <= j < n && self.labels@[j]@ == k;
                            let j2 = if j < i { j } else { j + 1 };
                            assert(self.labels@[j] == before.labels@[j2]);
                            assert(before@.contains_key(k));
                            assert(k != l);
                        }
                        if before@.contains_key(k) && k != l {
                            let j = choose|j: int| 0 <= j < n + 1 && before.labels@[j]@ == k;
                            assert(j != i);
                            let j2 = if j < i { j } else { j - 1 };
                            assert(self.labels@[j2] == before.labels@[j]);
                            assert(self@.contains_key(k));
                        }
                    }
                    assert forall|k: Seq<char>| #![auto] self@.contains_key(k)
                        implies self@[k] == before@.remove(l)[k] by {
                        let j = choose|j: int| 0 <= j < n && self.labels@[j]@ == k;
                        self.lemma_slot(j);
                        let j2 = if j < i { j } else { j + 1 };
                        assert(self.labels@[j] == before.labels@[j2]);
                        before.lemma_slot(j2);
                    }
                }
                true
            },
        }
    }

    /// Moves the entity with `label` to `position`.
    pub fn set_position(&mut self, label: &String, position: Position) -> (r: Result<
        (),
        RegistryError,
    >)
        requires
            old(self).wf(),
        ensures
            final(self).wf(),
            old(self)@.contains_key(label@) ==> r == Ok::<(), RegistryError>(()) && final(self)@
                == old(self)@.insert(label@, Entity { position, ..old(self)@[label@] }),
            !old(self)@.contains_key(label@) ==> r == Err::<(), RegistryError>(
                RegistryError::NotFound,
            ) && final(self)@ == old(self)@,
    {
        match self.find(label) {
            None => Err(RegistryError::NotFound),
            Some(i) => {
                let ghost before = *self;
                let ghost l = label@;
                proof {
                    before.lemma_slot(i as int);
                }
                let old_entity = self.entities[i];
                let e = Entity { position, ..old_entity };
                self.entities.set(i, e);
                assert(self.labels@ == before.labels@);
                assert(self.wf());
                assert(self@ =~= before@.insert(l, e)) by {
                    assert forall|k: Seq<char>| #![auto] self@.contains_key(k)
                        implies self@[k] == before@.insert(l, e)[k] by {
                        let j = choose|j: int| 0 <= j < self.labels@.len() && self.labels@[j]@ == k;
                        self.lemma_slot(j);
                        before.lemma_slot(j);
                    }
                }
                Ok(())
            },
        }
    }
}

} // verus!
