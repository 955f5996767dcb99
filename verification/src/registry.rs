//! A material registry that stands in for the real one: it keeps the
//! materials registered under their ids and hands them out again.
use vstd::prelude::*;
use crate::error::PurchaseError;
use crate::material::{same_material_id, MaterialId, MaterialRecord, MaterialView};

verus! {

/// Reading a material back after registering it gives what was registered;
/// registering under one id leaves every other id as it was.
pub proof fn lemma_registry_read_after_write(
    materials: Map<Seq<u8>, MaterialView>,
    id: Seq<u8>,
    material: MaterialView,
    other: Seq<u8>,
)
    ensures
        materials.insert(id, material).contains_key(id),
        materials.insert(id, material)[id] == material,
        other != id ==> materials.insert(id, material).contains_key(other) == materials.contains_key(other),
        other != id && materials.contains_key(other) ==> materials.insert(id, material)[other] == materials[other],
{
}

/// One registered material and the id it was registered under.
pub struct RegistryEntry {
    pub material_id: MaterialId,
    pub material: MaterialRecord,
}

/// Materials by id.
pub struct MockRegistry {
    entries: Vec<RegistryEntry>,
}

impl View for MockRegistry {
    type V = Map<Seq<u8>, MaterialView>;

    closed spec fn view(&self) -> Map<Seq<u8>, MaterialView> {
        Map::new(
            |k: Seq<u8>| exists|i: int| 0 <= i < self.entries@.len() && #[trigger] self.entries@[i].material_id@ == k,
            |k: Seq<u8>| {
                let i = choose|i: int| 0 <= i < self.entries@.len() && #[trigger] self.entries@[i].material_id@ == k;
                self.entries@[i].material@
            },
        )
    }
}

impl MockRegistry {
    /// No id occurs twice.
    #[verifier::type_invariant]
    closed spec fn ids_distinct(self) -> bool {
        forall|i: int, j: int|
            0 <= i < j < self.entries@.len() ==> #[trigger] self.entries@[i].material_id@
                != #[trigger] self.entries@[j].material_id@
    }

    /// An empty registry.
    pub fn new() -> (r: MockRegistry)
        ensures
            r@ == Map::<Seq<u8>, MaterialView>::empty(),
    {
        let r = MockRegistry { entries: Vec::new() };
        assert(r@ =~= Map::<Seq<u8>, MaterialView>::empty());
        r
    }

    /// The position of `material_id` among the entries, if it is registered.
    fn find(&self, material_id: &MaterialId) -> (r: Option<usize>)
        ensures
            match r {
                Some(i) => i < self.entries@.len() && self.entries@[i as int].material_id@ == material_id@,
                None => forall|i: int|
                    0 <= i < self.entries@.len() ==> #[trigger] self.entries@[i].material_id@ != material_id@,
            },
    {
        let mut i: usize = 0;
        while i < self.entries.len()
            invariant
                i <= self.entries@.len(),
                forall|j: int| 0 <= j < i ==> #[trigger] self.entries@[j].material_id@ != material_id@,
            decreases self.entries.len() - i,
        {
            if same_material_id(&self.entries[i].material_id, material_id) {
                return Some(i);
            }
            i += 1;
        }
        None
    }

    /// Registers `material` under `material_id`, replacing what was there.
    pub fn set_material(&mut self, material_id: MaterialId, material: MaterialRecord)
        ensures
            final(self)@ == old(self)@.insert(material_id@, material@),
    {
        proof {
            use_type_invariant(&*self);
        }
        let ghost old_entries = self.entries@;
        let ghost mv = material@;
        let found = self.find(&material_id);
        let mut entries: Vec<RegistryEntry> = Vec::new();
        std::mem::swap(&mut entries, &mut self.entries);
        match found {
            Some(i) => {
                entries.set(i, RegistryEntry { material_id, material });
            },
            None => {
                entries.push(RegistryEntry { material_id, material });
            },
        }
        proof {
            assert forall|a: int, b: int|
                0 <= a < b < entries@.len() implies #[trigger] entries@[a].material_id@
                    != #[trigger] entries@[b].material_id@ by {
                if a < old_entries.len() && b < old_entries.len() {
                    match found {
                        Some(i) => {
                            if a != i && b != i {
                                assert(entries@[a] == old_entries[a]);
                                assert(entries@[b] == old_entries[b]);
                            }
                        },
                        None => {},
                    }
                }
            }
        }
        self.entries = entries;
        proof {
            let new_entries = self.entries@;
            let ghost id = material_id@;
            assert forall|k: Seq<u8>| #[trigger] self@.contains_key(k) <==> old(self)@.insert(id, mv).contains_key(k) by {
                if self@.contains_key(k) && k != id {
                    let j = choose|j: int| 0 <= j < new_entries.len() && #[trigger] new_entries[j].material_id@ == k;
                    assert(old_entries[j].material_id@ == k);
                }
                if old(self)@.contains_key(k) && k != id {
                    let j = choose|j: int| 0 <= j < old_entries.len() && #[trigger] old_entries[j].material_id@ == k;
                    assert(new_entries[j].material_id@ == k);
                }
                if k == id {
                    match found {
                        Some(i) => assert(new_entries[i as int].material_id@ == k),
                        None => assert(new_entries[old_entries.len() as int].material_id@ == k),
                    }
                }
            }
            assert forall|k: Seq<u8>| #[trigger] self@.contains_key(k) implies self@[k] == old(self)@.insert(id, mv)[k] by {
                let j = choose|j: int| 0 <= j < new_entries.len() && #[trigger] new_entries[j].material_id@ == k;
                if k == id {
                    match found {
                        Some(i) => {
                            assert(new_entries[i as int].material_id@ == k);
                        },
                        None => {
                            assert(new_entries[old_entries.len() as int].material_id@ == k);
                        },
                    }
                } else {
                    assert(old_entries[j].material_id@ == k);
                    let j0 = choose|j: int| 0 <= j < old_entries.len() && #[trigger] old_entries[j].material_id@ == k;
                    assert(new_entries[j0].material_id@ == k);
                }
            }
            assert(self@ =~= old(self)@.insert(id, mv));
        }
    }

    /// The material registered under `material_id`, or `MaterialNotFound`.
    pub fn get_material(&self, material_id: MaterialId) -> (r: Result<MaterialRecord, PurchaseError>)
        ensures
            match r {
                Ok(m) => self@.contains_key(material_id@) && m@ == self@[material_id@],
                Err(e) => !self@.contains_key(material_id@) && e == PurchaseError::MaterialNotFound,
            },
    {
        proof {
            use_type_invariant(self);
        }
        match self.find(&material_id) {
            Some(i) => {
                let m = self.entries[i].material.duplicate();
                proof {
                    let k = material_id@;
                    assert(self@.contains_key(k));
                    let j = choose|j: int| 0 <= j < self.entries@.len() && #[trigger] self.entries@[j].material_id@ == k;
                    assert(j == i as int);
                }
                Ok(m)
            },
            None => Err(PurchaseError::MaterialNotFound),
        }
    }
}

} // verus!
