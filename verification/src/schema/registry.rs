use super::{definition_fault, reports, SchemaDefinitionError, SchemaNode};
use crate::ids::EngineTypeId;
use crate::json::{text_less, text_lt};
use crate::keyed::{key_index, key_slot, keys_ascending, lemma_insert_slot};
use vstd::prelude::*;

verus! {

/// Why a registry refused a request.
#[derive(Debug)]
pub enum SchemaRegistryError {
    /// A schema is already registered under the type.
    Duplicate(EngineTypeId),
    /// No schema is registered under the type.
    NotFound(EngineTypeId),
    /// The schema definition is unsound.
    DefinitionInvalid(Box<SchemaDefinitionError>, EngineTypeId),
}

/// Registered schemas by type, in ascending type order.
#[derive(Debug)]
pub struct SchemaRegistry {
    schemas: Vec<(EngineTypeId, SchemaNode)>,
}

/// The entries with each type by its text.
pub open spec fn entries_view(s: Seq<(EngineTypeId, SchemaNode)>) -> Seq<(Seq<char>, SchemaNode)> {
    Seq::new(s.len(), |i: int| (s[i].0.view(), s[i].1))
}

impl SchemaRegistry {
    /// The registered `(type, schema)` entries, in order.
    pub closed spec fn view(&self) -> Seq<(Seq<char>, SchemaNode)> {
        entries_view(self.schemas@)
    }

    #[verifier::type_invariant]
    spec fn ordered(&self) -> bool {
        keys_ascending(self.view())
    }

    /// An empty registry.
    pub fn new() -> (r: Self)
        ensures
            r.view() == Seq::<(Seq<char>, SchemaNode)>::empty(),
    {
        let r = SchemaRegistry { schemas: Vec::new() };
        assert(r.view() =~= Seq::<(Seq<char>, SchemaNode)>::empty());
        r
    }

    fn find(&self, key: &EngineTypeId) -> (r: Option<usize>)
        ensures
            match r {
                Some(i) => i < self.view().len() && self.view()[i as int].0 == key.view()
                    && key_index(self.view(), key.view()) == Some(i as int),
                None => key_index(self.view(), key.view()) is None,
            },
    {
        proof {
            use_type_invariant(self);
        }
        let ghost v = self.view();
        let mut i: usize = 0;
        while i < self.schemas.len()
            invariant
                v == self.view(),
                keys_ascending(v),
                i <= v.len(),
                forall|j: int| 0 <= j < i ==> (#[trigger] v[j]).0 != key.view(),
            decreases v.len() - i,
        {
            if self.schemas[i].0.same(key) {
                proof {
                    assert(v[i as int].0 == key.view());
                    assert(exists|w: int| 0 <= w < v.len() && (#[trigger] v[w]).0 == key.view());
                    let w = key_index(v, key.view())->Some_0;
                    if w != i {
                        if w < i {
                            assert(v[w].0 != key.view());
                        } else {
                            assert(text_lt(v[i as int].0, v[w].0));
                            crate::json::lemma_text_lt_irreflexive(key.view());
                        }
                    }
                    assert(w == i);
                    assert(key_index(v, key.view()) == Some(i as int));
                }
                return Some(i);
            }
            i = i + 1;
        }
        None
    }

    /// Registers `schema` under `type_id`, once its definition is sound and the type is
    /// not yet registered.
    pub fn register(&mut self, type_id: EngineTypeId, schema: SchemaNode) -> (r: Result<(), SchemaRegistryError>)
        ensures
            definition_fault(schema, Seq::empty()) is Some ==> {
                &&& final(self).view() == old(self).view()
                &&& r matches Err(SchemaRegistryError::DefinitionInvalid(e, id))
                &&& id.view() == type_id.view()
                &&& reports(Some(*e), definition_fault(schema, Seq::empty()))
            },
            definition_fault(schema, Seq::empty()) is None && key_index(old(self).view(), type_id.view()) is Some ==> {
                &&& final(self).view() == old(self).view()
                &&& r matches Err(SchemaRegistryError::Duplicate(id))
                &&& id.view() == type_id.view()
            },
            definition_fault(schema, Seq::empty()) is None && key_index(old(self).view(), type_id.view()) is None ==> {
                &&& r is Ok
                &&& final(self).view() == old(self).view().insert(
                    key_slot(old(self).view(), type_id.view()),
                    (type_id.view(), schema),
                )
            },
    {
        match schema.validate_definition() {
            Err(e) => {
                return Err(SchemaRegistryError::DefinitionInvalid(Box::new(e), type_id));
            },
            Ok(()) => {},
        }
        if self.find(&type_id).is_some() {
            return Err(SchemaRegistryError::Duplicate(type_id));
        }
        proof {
            use_type_invariant(&*self);
        }
        let ghost v = self.view();
        let ghost key = type_id.view();
        let mut pos: usize = 0;
        while pos < self.schemas.len() && !text_less(type_id.as_str(), self.schemas[pos].0.as_str())
            invariant
                v == self.view(),
                keys_ascending(v),
                key_index(v, key) is None,
                key == type_id.view(),
                pos <= v.len(),
                forall|j: int| 0 <= j < pos ==> !text_lt(key, (#[trigger] v[j]).0),
            decreases v.len() - pos,
        {
            pos = pos + 1;
        }
        proof {
            if pos < v.len() {
                assert(text_lt(key, v[pos as int].0));
            }
            lemma_insert_slot(v, pos as int, key, schema);
        }
        let mut entries: Vec<(EngineTypeId, SchemaNode)> = Vec::new();
        std::mem::swap(&mut entries, &mut self.schemas);
        entries.insert(pos, (type_id, schema));
        assert(entries_view(entries@) =~= v.insert(pos as int, (key, schema)));
        self.schemas = entries;
        proof {
            assert(self.view() =~= v.insert(pos as int, (key, schema)));
        }
        Ok(())
    }

    /// The schema registered under `type_id`.
    pub fn get(&self, type_id: &EngineTypeId) -> (r: Result<&SchemaNode, SchemaRegistryError>)
        ensures
            match key_index(self.view(), type_id.view()) {
                Some(i) => r matches Ok(s) && *s == self.view()[i].1,
                None => r matches Err(SchemaRegistryError::NotFound(id)) && id.view()
                    == type_id.view(),
            },
    {
        match self.find(type_id) {
            Some(i) => Ok(&self.schemas[i].1),
            None => Err(SchemaRegistryError::NotFound(type_id.clone())),
        }
    }

    /// The entries, in ascending type order.
    pub fn list(&self) -> (r: &[(EngineTypeId, SchemaNode)])
        ensures
            keys_ascending(self.view()),
            r@.len() == self.view().len(),
            forall|i: int|
                0 <= i < r@.len() ==> (#[trigger] r@[i]).0.view() == self.view()[i].0 && r@[i].1
                    == self.view()[i].1,
    {
        proof {
            use_type_invariant(self);
        }
        self.schemas.as_slice()
    }
}

} // verus!
