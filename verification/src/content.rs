use crate::hash::{deterministic_hash, fnv1a, hex16};
use crate::ids::{ArtifactId, DocumentId, EngineTypeId, ObjectId};
use crate::json::{json_clone, model, JsonModel, JsonValue};
use crate::json_text::{push_json, push_quoted, quoted, render};
use crate::keyed::{key_index, key_slot, lemma_flatten_all, lemma_flatten_step, lemma_slot_at};
use crate::project_path::ProjectPathError;
use crate::text::{decimal, push_decimal, push_str, string_of, utf8, utf8_bytes};
use vstd::prelude::*;

verus! {

/// The identifying header of an authoring document.
#[derive(Debug)]
pub struct DocumentHeader {
    pub id: DocumentId,
    pub type_id: EngineTypeId,
    pub schema_version: u32,
    pub display_name: String,
}

/// A reference from a document (or one of its objects) to another document.
#[derive(Debug)]
pub struct ContentReference {
    pub source_object: Option<ObjectId>,
    pub target_document: DocumentId,
    pub target_object: Option<ObjectId>,
    pub kind: String,
}

/// An authoring document: header, outgoing references and JSON payload.
#[derive(Debug)]
pub struct DocumentEnvelope {
    pub header: DocumentHeader,
    pub references: Vec<ContentReference>,
    pub payload: JsonValue,
}

/// A reference as plain values.
pub struct ReferenceView {
    pub source_object: Option<Seq<char>>,
    pub target_document: Seq<char>,
    pub target_object: Option<Seq<char>>,
    pub kind: Seq<char>,
}

/// A document as plain values: the payload by value and by its JSON text.
pub struct EnvelopeView {
    pub id: Seq<char>,
    pub type_id: Seq<char>,
    pub schema_version: u32,
    pub display_name: Seq<char>,
    pub references: Seq<ReferenceView>,
    pub payload: JsonModel,
    pub payload_text: Seq<char>,
}

/// A document's view names its header identifier.
pub proof fn lemma_view_id(d: DocumentEnvelope)
    ensures
        d.view().id == d.header.id.view(),
        d.view().type_id == d.header.type_id.view(),
{
    reveal(DocumentEnvelope::view);
}

/// A document's view lists its references.
pub proof fn lemma_view_references(d: DocumentEnvelope)
    ensures
        d.view().references == references_view(d.references@),
        d.view().schema_version == d.header.schema_version,
        d.view().display_name == d.header.display_name@,
{
    reveal(DocumentEnvelope::view);
}

/// The text of an optional identifier.
pub open spec fn opt_view(o: Option<ObjectId>) -> Option<Seq<char>> {
    match o {
        Some(id) => Some(id.view()),
        None => None,
    }
}

impl ContentReference {
    /// The reference as plain values.
    pub open spec fn view(&self) -> ReferenceView {
        ReferenceView {
            source_object: opt_view(self.source_object),
            target_document: self.target_document.view(),
            target_object: opt_view(self.target_object),
            kind: self.kind@,
        }
    }
}

/// The references as plain values.
pub open spec fn references_view(rs: Seq<ContentReference>) -> Seq<ReferenceView> {
    Seq::new(rs.len(), |i: int| rs[i].view())
}

impl DocumentEnvelope {
    /// The document as plain values.
    #[verifier::opaque]
    pub open spec fn view(&self) -> EnvelopeView {
        EnvelopeView {
            id: self.header.id.view(),
            type_id: self.header.type_id.view(),
            schema_version: self.header.schema_version,
            display_name: self.header.display_name@,
            references: references_view(self.references@),
            payload: model(self.payload),
            payload_text: render(self.payload),
        }
    }
}

fn clone_object_id(o: &Option<ObjectId>) -> (r: Option<ObjectId>)
    ensures
        r == *o,
{
    match o {
        Some(id) => Some(id.clone()),
        None => None,
    }
}

impl Clone for ContentReference {
    fn clone(&self) -> (r: Self)
        ensures
            r.view() == self.view(),
    {
        ContentReference {
            source_object: clone_object_id(&self.source_object),
            target_document: self.target_document.clone(),
            target_object: clone_object_id(&self.target_object),
            kind: self.kind.clone(),
        }
    }
}

impl Clone for DocumentHeader {
    fn clone(&self) -> (r: Self)
        ensures
            r == *self,
    {
        DocumentHeader {
            id: self.id.clone(),
            type_id: self.type_id.clone(),
            schema_version: self.schema_version,
            display_name: self.display_name.clone(),
        }
    }
}

impl Clone for DocumentEnvelope {
    fn clone(&self) -> (r: Self)
        ensures
            r.view() == self.view(),
    {
        let mut references: Vec<ContentReference> = Vec::new();
        let mut i: usize = 0;
        while i < self.references.len()
            invariant
                i <= self.references@.len(),
                references@.len() == i,
                forall|j: int| 0 <= j < i ==> (#[trigger] references@[j]).view() == self.references@[j].view(),
            decreases self.references@.len() - i,
        {
            references.push(self.references[i].clone());
            i = i + 1;
        }
        let r = DocumentEnvelope {
            header: self.header.clone(),
            references,
            payload: json_clone(&self.payload),
        };
        assert(references_view(r.references@) =~= references_view(self.references@));
        proof {
            reveal(DocumentEnvelope::view);
        }
        r
    }
}

/// An optional identifier as JSON: its text, or `null`.
pub open spec fn optional_text(o: Option<Seq<char>>) -> Seq<char> {
    match o {
        Some(t) => quoted(t),
        None => "null"@,
    }
}

/// A reference as JSON, fields in declaration order.
pub open spec fn reference_text(r: ReferenceView) -> Seq<char> {
    "{\"source_object\":"@ + optional_text(r.source_object) + ",\"target_document\":"@ + quoted(
        r.target_document,
    ) + ",\"target_object\":"@ + optional_text(r.target_object) + ",\"kind\":"@ + quoted(r.kind)
        + "}"@
}

/// The references as JSON array elements.
pub open spec fn reference_texts(rs: Seq<ReferenceView>) -> Seq<Seq<char>> {
    Seq::new(
        rs.len(),
        |i: int|
            (if i == 0 {
                Seq::empty()
            } else {
                ","@
            }) + reference_text(rs[i]),
    )
}

/// The document as compact JSON, fields in declaration order.
pub open spec fn envelope_text(v: EnvelopeView) -> Seq<char> {
    "{\"header\":{\"id\":"@ + quoted(v.id) + ",\"type_id\":"@ + quoted(v.type_id)
        + ",\"schema_version\":"@ + decimal(v.schema_version as nat) + ",\"display_name\":"@
        + quoted(v.display_name) + "},\"references\":["@ + reference_texts(v.references).flatten()
        + "],\"payload\":"@ + v.payload_text + "}"@
}

/// The content hash of a document: the deterministic hash of its JSON text's UTF-8 bytes.
pub open spec fn content_hash_of(v: EnvelopeView) -> Seq<char> {
    hex16(fnv1a(utf8(envelope_text(v))))
}

fn push_optional(out: &mut String, o: &Option<ObjectId>)
    ensures
        final(out)@ == old(out)@ + optional_text(opt_view(*o)),
{
    match o {
        Some(id) => push_quoted(out, id.as_str()),
        None => {
            push_str(out, "null");
            proof {
                reveal_strlit("null");
            }
        },
    }
}

fn push_reference(out: &mut String, r: &ContentReference)
    ensures
        final(out)@ == old(out)@ + reference_text(r.view()),
{
    let ghost start = out@;
    push_str(out, "{\"source_object\":");
    push_optional(out, &r.source_object);
    push_str(out, ",\"target_document\":");
    push_quoted(out, r.target_document.as_str());
    push_str(out, ",\"target_object\":");
    push_optional(out, &r.target_object);
    push_str(out, ",\"kind\":");
    push_quoted(out, r.kind.as_str());
    push_str(out, "}");
    assert(out@ =~= start + reference_text(r.view()));
}

impl DocumentEnvelope {
    /// The document as compact JSON (see `envelope_text`).
    pub fn to_json_text(&self) -> (t: String)
        ensures
            t@ == envelope_text(self.view()),
    {
        proof {
            reveal(DocumentEnvelope::view);
        }
        let mut out = string_of("{\"header\":{\"id\":");
        push_quoted(&mut out, self.header.id.as_str());
        push_str(&mut out, ",\"type_id\":");
        push_quoted(&mut out, self.header.type_id.as_str());
        push_str(&mut out, ",\"schema_version\":");
        push_decimal(&mut out, self.header.schema_version as u64);
        push_str(&mut out, ",\"display_name\":");
        push_quoted(&mut out, self.header.display_name.as_str());
        push_str(&mut out, "},\"references\":[");
        let ghost refs = references_view(self.references@);
        let ghost parts = reference_texts(refs);
        let ghost mid = out@;
        let mut i: usize = 0;
        while i < self.references.len()
            invariant
                refs == references_view(self.references@),
                parts == reference_texts(refs),
                i <= self.references@.len(),
                out@ == mid + parts.take(i as int).flatten(),
            decreases self.references@.len() - i,
        {
            proof {
                lemma_flatten_step(parts, i as int);
            }
            let ghost before = out@;
            if i > 0 {
                push_str(&mut out, ",");
            }
            push_reference(&mut out, &self.references[i]);
            proof {
                reveal_strlit(",");
            }
            assert(out@ =~= before + parts[i as int]);
            i = i + 1;
        }
        proof {
            lemma_flatten_all(parts);
        }
        push_str(&mut out, "],\"payload\":");
        push_json(&mut out, &self.payload);
        push_str(&mut out, "}");
        assert(out@ =~= envelope_text(self.view()));
        out
    }

    /// The content hash of the document (see `content_hash_of`).
    pub fn content_hash(&self) -> (r: Result<String, ContentError>)
        ensures
            r matches Ok(h) && h@ == content_hash_of(self.view()),
    {
        let text = self.to_json_text();
        let bytes = utf8_bytes(text.as_str());
        Ok(deterministic_hash(bytes.as_slice()))
    }
}

/// Why a content operation failed.
#[derive(Debug)]
pub enum ContentError {
    DuplicateDocument(DocumentId),
    DocumentNotFound(DocumentId),
    DuplicateCompiler(EngineTypeId),
    CompilerNotFound(EngineTypeId),
    InvalidDocument(String),
    InvalidProjectRoot(String),
    ProjectPath(ProjectPathError),
    Io(String),
    Serialization(String),
}

/// Documents by identifier, in ascending identifier order.
#[derive(Debug)]
pub struct DocumentStore {
    documents: Vec<(DocumentId, DocumentEnvelope)>,
}

/// Stored entries as plain values.
pub open spec fn store_view(s: Seq<(DocumentId, DocumentEnvelope)>) -> Seq<(Seq<char>, EnvelopeView)> {
    Seq::new(s.len(), |i: int| (s[i].0.view(), s[i].1.view()))
}

impl DocumentStore {
    /// The `(identifier, document)` entries, in order.
    pub closed spec fn view(&self) -> Seq<(Seq<char>, EnvelopeView)> {
        store_view(self.documents@)
    }

    /// An empty store.
    pub fn new() -> (s: Self)
        ensures
            s.view() == Seq::<(Seq<char>, EnvelopeView)>::empty(),
    {
        let s = DocumentStore { documents: Vec::new() };
        assert(s.view() =~= Seq::<(Seq<char>, EnvelopeView)>::empty());
        s
    }

    fn find(&self, id: &DocumentId) -> (r: Option<usize>)
        ensures
            match r {
                Some(i) => i < self.view().len() && key_index(self.view(), id.view()) == Some(i as int)
                    && self.view()[i as int].0 == id.view(),
                None => key_index(self.view(), id.view()) is None,
            },
    {
        let ghost v = self.view();
        let mut i: usize = 0;
        while i < self.documents.len()
            invariant
                v == self.view(),
                i <= v.len(),
                forall|j: int| 0 <= j < i ==> (#[trigger] v[j]).0 != id.view(),
            decreases v.len() - i,
        {
            if self.documents[i].0.same(id) {
                proof {
                    assert(v[i as int].0 == id.view());
                    let w = key_index(v, id.view())->Some_0;
                    if w < i {
                        assert(v[w].0 != id.view());
                    } else if w > i {
                        assert(v[i as int].0 != id.view());
                    }
                }
                return Some(i);
            }
            i = i + 1;
        }
        None
    }

    fn slot(&self, id: &DocumentId) -> (pos: usize)
        ensures
            pos == key_slot(self.view(), id.view()),
            pos <= self.documents@.len(),
    {
        let ghost v = self.view();
        let ghost key = id.view();
        let mut pos: usize = 0;
        while pos < self.documents.len() && !crate::json::text_less(id.as_str(), self.documents[pos].0.as_str())
            invariant
                v == self.view(),
                key == id.view(),
                pos <= v.len(),
                forall|j: int| 0 <= j < pos ==> !crate::json::text_lt(key, (#[trigger] v[j]).0),
            decreases v.len() - pos,
        {
            pos = pos + 1;
        }
        proof {
            if pos < v.len() {
                assert(crate::json::text_lt(key, v[pos as int].0));
            }
            lemma_slot_at(v, key, pos as int);
        }
        pos
    }

    /// Adds `document` under its identifier, unless one is stored there already.
    pub fn insert(&mut self, document: DocumentEnvelope) -> (r: Result<(), ContentError>)
        ensures
            match key_index(old(self).view(), document.header.id.view()) {
                Some(_) => r matches Err(ContentError::DuplicateDocument(id)) && id.view() == document.header.id.view()
                    && final(self).view() == old(self).view(),
                None => r is Ok && final(self).view() == old(self).view().insert(
                    key_slot(old(self).view(), document.header.id.view()),
                    (document.header.id.view(), document.view()),
                ),
            },
    {
        let id = document.header.id.clone();
        if self.find(&id).is_some() {
            return Err(ContentError::DuplicateDocument(id));
        }
        let pos = self.slot(&id);
        let ghost v = self.view();
        let ghost dv = document.view();
        let ghost key = id.view();
        self.documents.insert(pos, (id, document));
        assert(self.view() =~= v.insert(pos as int, (key, dv)));
        Ok(())
    }

    /// Stores `document` under its identifier, replacing any document stored there.
    pub fn upsert(&mut self, document: DocumentEnvelope)
        ensures
            match key_index(old(self).view(), document.header.id.view()) {
                Some(i) => final(self).view() == old(self).view().update(i, (document.header.id.view(), document.view())),
                None => final(self).view() == old(self).view().insert(
                    key_slot(old(self).view(), document.header.id.view()),
                    (document.header.id.view(), document.view()),
                ),
            },
    {
        let id = document.header.id.clone();
        let ghost v = self.view();
        let ghost dv = document.view();
        let ghost key = id.view();
        match self.find(&id) {
            Some(i) => {
                self.documents.set(i, (id, document));
                assert(self.view() =~= v.update(i as int, (key, dv)));
            },
            None => {
                let pos = self.slot(&id);
                self.documents.insert(pos, (id, document));
                assert(self.view() =~= v.insert(pos as int, (key, dv)));
            },
        }
    }

    /// The document stored under `id`.
    pub fn get(&self, id: &DocumentId) -> (r: Result<&DocumentEnvelope, ContentError>)
        ensures
            match key_index(self.view(), id.view()) {
                Some(i) => r matches Ok(d) && d.view() == self.view()[i].1,
                None => r matches Err(ContentError::DocumentNotFound(e)) && e.view() == id.view(),
            },
    {
        match self.find(id) {
            Some(i) => Ok(&self.documents[i].1),
            None => Err(ContentError::DocumentNotFound(id.clone())),
        }
    }

    fn entry_mut(&mut self, i: usize) -> (d: &mut DocumentEnvelope)
        requires
            i < old(self).view().len(),
        ensures
            d.view() == old(self).view()[i as int].1,
            final(self).view() == old(self).view().update(i as int, (old(self).view()[i as int].0, final(d).view())),
    {
        let ghost v = self.view();
        proof {
            assert(self.documents@[i as int].1.view() == v[i as int].1);
        }
        let e = &mut self.documents[i];
        &mut e.1
    }

    /// The document stored under `id`, for changing in place (its key stays `id`).
    pub fn get_mut(&mut self, id: &DocumentId) -> (r: Result<&mut DocumentEnvelope, ContentError>)
        ensures
            match key_index(old(self).view(), id.view()) {
                Some(i) => r matches Ok(d) && d.view() == old(self).view()[i].1 && final(self).view()
                    == old(self).view().update(i, (id.view(), final(d).view())),
                None => r matches Err(ContentError::DocumentNotFound(e)) && e.view() == id.view()
                    && final(self).view() == old(self).view(),
            },
            final(self).view().len() == old(self).view().len(),
    {
        match self.find(id) {
            Some(i) => Ok(self.entry_mut(i)),
            None => Err(ContentError::DocumentNotFound(id.clone())),
        }
    }

    /// Replaces the document stored under `id` (keeping it stored under `id`) and returns
    /// the one it replaces.
    pub fn replace(&mut self, id: &DocumentId, document: DocumentEnvelope) -> (r: Result<DocumentEnvelope, ContentError>)
        ensures
            match key_index(old(self).view(), id.view()) {
                Some(i) => r matches Ok(d) && d.view() == old(self).view()[i].1 && final(self).view()
                    == old(self).view().update(i, (id.view(), document.view())),
                None => r matches Err(ContentError::DocumentNotFound(e)) && e.view() == id.view()
                    && final(self).view() == old(self).view(),
            },
    {
        let ghost v = self.view();
        match self.find(id) {
            Some(i) => {
                let ghost dv = document.view();
                let (key, previous) = self.documents.remove(i);
                self.documents.insert(i, (key, document));
                assert(self.view() =~= v.update(i as int, (id.view(), dv)));
                Ok(previous)
            },
            None => Err(ContentError::DocumentNotFound(id.clone())),
        }
    }

    /// Removes and returns the document stored under `id`.
    pub fn remove(&mut self, id: &DocumentId) -> (r: Result<DocumentEnvelope, ContentError>)
        ensures
            match key_index(old(self).view(), id.view()) {
                Some(i) => r matches Ok(d) && d.view() == old(self).view()[i].1 && final(self).view()
                    == old(self).view().remove(i),
                None => r matches Err(ContentError::DocumentNotFound(e)) && e.view() == id.view()
                    && final(self).view() == old(self).view(),
            },
    {
        let ghost v = self.view();
        match self.find(id) {
            Some(i) => {
                let (_, d) = self.documents.remove(i);
                assert(self.view() =~= v.remove(i as int));
                Ok(d)
            },
            None => Err(ContentError::DocumentNotFound(id.clone())),
        }
    }

    /// The entries, in order.
    pub fn iter(&self) -> (r: &[(DocumentId, DocumentEnvelope)])
        ensures
            store_view(r@) == self.view(),
    {
        self.documents.as_slice()
    }

    /// The number of documents.
    pub fn len(&self) -> (n: usize)
        ensures
            n == self.view().len(),
    {
        self.documents.len()
    }

    /// Whether no document is stored.
    pub fn is_empty(&self) -> (r: bool)
        ensures
            r == (self.view().len() == 0),
    {
        self.documents.len() == 0
    }
}

impl Clone for DocumentStore {
    fn clone(&self) -> (r: Self)
        ensures
            r.view() == self.view(),
    {
        let mut documents: Vec<(DocumentId, DocumentEnvelope)> = Vec::new();
        let mut i: usize = 0;
        while i < self.documents.len()
            invariant
                i <= self.documents@.len(),
                documents@.len() == i,
                forall|j: int|
                    0 <= j < i ==> (#[trigger] documents@[j]).0 == self.documents@[j].0
                        && documents@[j].1.view() == self.documents@[j].1.view(),
            decreases self.documents@.len() - i,
        {
            let entry = &self.documents[i];
            documents.push((entry.0.clone(), entry.1.clone()));
            i = i + 1;
        }
        let r = DocumentStore { documents };
        assert(r.view() =~= self.view());
        r
    }
}


/// An object of a compiled artifact, as the runtime receives it.
#[derive(Debug)]
pub struct RuntimeObjectDescriptor {
    pub id: ObjectId,
    pub type_id: EngineTypeId,
    pub properties: JsonValue,
}

/// The payload of a compiled Stage artifact.
#[derive(Debug)]
pub struct StageArtifactPayload {
    pub objects: Vec<RuntimeObjectDescriptor>,
    pub metadata: JsonValue,
}

/// A compiled artifact, sealed by a hash of everything else it holds.
#[derive(Debug)]
pub struct ArtifactEnvelope {
    pub id: ArtifactId,
    pub artifact_type: EngineTypeId,
    pub source_document: DocumentId,
    pub compiler_version: u32,
    pub source_hash: String,
    pub payload: JsonValue,
    pub artifact_hash: String,
}

/// A compiled artifact as plain values.
pub struct ArtifactView {
    pub id: Seq<char>,
    pub artifact_type: Seq<char>,
    pub source_document: Seq<char>,
    pub compiler_version: u32,
    pub source_hash: Seq<char>,
    pub payload: JsonModel,
    pub artifact_hash: Seq<char>,
}

impl ArtifactEnvelope {
    /// The artifact as plain values.
    pub open spec fn view(&self) -> ArtifactView {
        ArtifactView {
            id: self.id.view(),
            artifact_type: self.artifact_type.view(),
            source_document: self.source_document.view(),
            compiler_version: self.compiler_version,
            source_hash: self.source_hash@,
            payload: model(self.payload),
            artifact_hash: self.artifact_hash@,
        }
    }
}

/// The compact JSON text of an artifact without its hash, members in declaration order.
pub open spec fn artifact_text(a: ArtifactEnvelope) -> Seq<char> {
    "{\"id\":"@ + quoted(a.id.view()) + ",\"artifact_type\":"@ + quoted(a.artifact_type.view())
        + ",\"source_document\":"@ + quoted(a.source_document.view()) + ",\"compiler_version\":"@
        + decimal(a.compiler_version as nat) + ",\"source_hash\":"@ + quoted(a.source_hash@)
        + ",\"payload\":"@ + render(a.payload) + "}"@
}

/// The hash that seals an artifact: the deterministic hash of `artifact_text`'s bytes.
pub open spec fn artifact_hash_of(a: ArtifactEnvelope) -> Seq<char> {
    hex16(fnv1a(utf8(artifact_text(a))))
}

impl ArtifactEnvelope {
    /// The hash of the artifact's contents (see `artifact_hash_of`).
    pub fn compute_artifact_hash(&self) -> (r: Result<String, ContentError>)
        ensures
            r matches Ok(h) && h@ == artifact_hash_of(*self),
    {
        let mut out = string_of("{\"id\":");
        push_quoted(&mut out, self.id.as_str());
        push_str(&mut out, ",\"artifact_type\":");
        push_quoted(&mut out, self.artifact_type.as_str());
        push_str(&mut out, ",\"source_document\":");
        push_quoted(&mut out, self.source_document.as_str());
        push_str(&mut out, ",\"compiler_version\":");
        push_decimal(&mut out, self.compiler_version as u64);
        push_str(&mut out, ",\"source_hash\":");
        push_quoted(&mut out, self.source_hash.as_str());
        push_str(&mut out, ",\"payload\":");
        push_json(&mut out, &self.payload);
        push_str(&mut out, "}");
        assert(out@ =~= artifact_text(*self));
        let bytes = utf8_bytes(out.as_str());
        Ok(deterministic_hash(bytes.as_slice()))
    }

    /// A sealed artifact with the given contents.
    pub fn new(
        id: ArtifactId,
        artifact_type: EngineTypeId,
        source_document: DocumentId,
        compiler_version: u32,
        source_hash: String,
        payload: JsonValue,
    ) -> (r: Result<Self, ContentError>)
        ensures
            r matches Ok(a) && a.id == id && a.artifact_type == artifact_type && a.source_document == source_document
                && a.compiler_version == compiler_version && a.source_hash == source_hash && a.payload == payload
                && a.artifact_hash@ == artifact_hash_of(a),
    {
        let mut a = ArtifactEnvelope {
            id,
            artifact_type,
            source_document,
            compiler_version,
            source_hash,
            payload,
            artifact_hash: String::new(),
        };
        a.refresh_artifact_hash()?;
        Ok(a)
    }

    /// Seals the artifact again after its contents changed.
    pub fn refresh_artifact_hash(&mut self) -> (r: Result<(), ContentError>)
        ensures
            r is Ok,
            final(self).id == old(self).id,
            final(self).artifact_type == old(self).artifact_type,
            final(self).source_document == old(self).source_document,
            final(self).compiler_version == old(self).compiler_version,
            final(self).source_hash == old(self).source_hash,
            final(self).payload == old(self).payload,
            final(self).artifact_hash@ == artifact_hash_of(*final(self)),
    {
        let h = self.compute_artifact_hash()?;
        self.artifact_hash = h;
        Ok(())
    }
}

impl Clone for ArtifactEnvelope {
    fn clone(&self) -> (r: Self)
        ensures
            r.view() == self.view(),
    {
        ArtifactEnvelope {
            id: self.id.clone(),
            artifact_type: self.artifact_type.clone(),
            source_document: self.source_document.clone(),
            compiler_version: self.compiler_version,
            source_hash: self.source_hash.clone(),
            payload: json_clone(&self.payload),
            artifact_hash: self.artifact_hash.clone(),
        }
    }
}

/// Where and for which profile a build compiles.
#[derive(Debug, Clone)]
pub struct CompileContext {
    pub project_root: String,
    pub profile: String,
}

/// Compiles authoring documents of one type into artifacts; each implementation states,
/// through the spec functions below, what its methods give.
pub trait DocumentCompiler {
    /// The document type it compiles (an implementation that names its type states it).
    open spec fn source(&self) -> Seq<char> {
        Seq::empty()
    }

    /// Whether `result` is what it gives for a document `document` under `context`; by
    /// default nothing is stated.
    open spec fn compiles(&self, document: EnvelopeView, context: CompileContext, result: Result<ArtifactEnvelope, ContentError>) -> bool {
        true
    }

    /// A stable name of the compiler.
    fn id(&self) -> &'static str;

    /// The document type it compiles.
    fn source_type(&self) -> (t: EngineTypeId)
        ensures
            t.view() == self.source(),
    ;

    /// The artifact type it produces.
    fn artifact_type(&self) -> EngineTypeId;

    /// Compiles one document.
    fn compile(&self, document: &DocumentEnvelope, context: &CompileContext) -> (r: Result<ArtifactEnvelope, ContentError>)
        ensures
            self.compiles(document.view(), *context, r),
    ;
}


/// The entries of `s` whose key `allowed` holds, in order.
pub open spec fn kept_entries(s: Seq<(Seq<char>, EnvelopeView)>, allowed: Seq<Seq<char>>) -> Seq<(Seq<char>, EnvelopeView)>
    decreases s.len(),
{
    if s.len() == 0 {
        Seq::empty()
    } else {
        kept_entries(s.drop_last(), allowed) + if allowed.contains(s.last().0) {
            seq![s.last()]
        } else {
            Seq::empty()
        }
    }
}

impl DocumentStore {
    /// A copy holding only the documents whose identifiers `allowed` lists.
    pub fn restricted_to(&self, allowed: &Vec<DocumentId>) -> (r: DocumentStore)
        ensures
            r.view() == kept_entries(self.view(), crate::access::id_texts(allowed@)),
    {
        let ghost al = crate::access::id_texts(allowed@);
        let ghost v = self.view();
        let mut documents: Vec<(DocumentId, DocumentEnvelope)> = Vec::new();
        let mut i: usize = 0;
        assert(store_view(documents@) =~= kept_entries(v.take(0), al));
        while i < self.documents.len()
            invariant
                v == self.view(),
                al == crate::access::id_texts(allowed@),
                i <= self.documents@.len(),
                store_view(documents@) == kept_entries(v.take(i as int), al),
            decreases self.documents@.len() - i,
        {
            assert(v.take(i + 1).drop_last() =~= v.take(i as int));
            assert(v.take(i + 1).last() == v[i as int]);
            let entry = &self.documents[i];
            let mut found = false;
            let mut j: usize = 0;
            while j < allowed.len()
                invariant
                    al == crate::access::id_texts(allowed@),
                    j <= allowed@.len(),
                    found == exists|m: int| 0 <= m < j && al[m] == entry.0.view(),
                decreases allowed@.len() - j,
            {
                if allowed[j].same(&entry.0) {
                    found = true;
                }
                proof {
                    if found && !(exists|m: int| 0 <= m < j && al[m] == entry.0.view()) {
                        assert(al[j as int] == entry.0.view());
                    }
                }
                j = j + 1;
            }
            proof {
                assert(v[i as int].0 == entry.0.view());
                if found {
                    let m = choose|m: int| 0 <= m < j && al[m] == entry.0.view();
                    assert(al.contains(entry.0.view()));
                } else {
                    assert(!al.contains(entry.0.view())) by {
                        if al.contains(entry.0.view()) {
                            let m = choose|m: int| 0 <= m < al.len() && al[m] == entry.0.view();
                            assert(0 <= m < j);
                        }
                    }
                }
            }
            if found {
                let ghost before = documents@;
                documents.push((entry.0.clone(), entry.1.clone()));
                assert(store_view(documents@) =~= store_view(before).push(v[i as int]));
            }
            i = i + 1;
        }
        assert(v.take(i as int) =~= v);
        DocumentStore { documents }
    }
}

} // verus!
