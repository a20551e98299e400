use crate::access::DocumentAccessPlan;
use crate::command::{first_match, lemma_ascending_match, lemma_first_match};
use crate::content::{DocumentStore, EnvelopeView};
use crate::ids::ToolId;
use crate::json::{model, text_less, text_lt, JsonModel, JsonValue};
use crate::keyed::{ascending, lemma_insert_contains, lemma_text_insert, text_slot};
use crate::permissions::{Permission, PermissionSet};
use vstd::prelude::*;

pub mod builtin;
pub mod graph;

verus! {

/// What a query is, what it takes and what it needs.
#[derive(Debug)]
pub struct QueryDescriptor {
    pub id: ToolId,
    pub title: String,
    pub description: String,
    pub input_schema: JsonValue,
    pub output_schema: JsonValue,
    pub required_permissions: PermissionSet,
    pub related_tools: Vec<ToolId>,
}

/// A request to run a query.
#[derive(Debug)]
pub struct QueryRequest {
    pub query: ToolId,
    pub input: JsonValue,
}

/// Who runs a query and with which permissions.
#[derive(Debug)]
pub struct QueryContext {
    pub actor: String,
    pub permissions: PermissionSet,
}

/// Why a query did not run.
#[derive(Debug)]
pub enum QueryError {
    DuplicateQuery(ToolId),
    QueryNotFound(ToolId),
    PermissionDenied(ToolId),
    InvalidInput(String),
    Failed(String),
    Serialization(String),
}

/// A read-only query over a document store. Implemented by the engine's and toolkits'
/// queries; each implementation states, through the spec functions below, what its
/// methods give.
pub trait QueryHandler {
    /// The identifier its descriptor gives (an implementation that describes itself
    /// states it).
    open spec fn tool_id(&self) -> Seq<char> {
        Seq::empty()
    }

    /// The permissions its descriptor requires (an implementation that describes itself
    /// states them).
    open spec fn needs(&self) -> Set<Permission> {
        Set::empty()
    }

    /// Whether `plan` is the document access it declares for an input of JSON value
    /// `input`; by default nothing is stated.
    open spec fn plans(&self, input: JsonModel, plan: Result<DocumentAccessPlan, QueryError>) -> bool {
        true
    }

    /// Whether `result` is its answer to an input of JSON value `input` over `store`; by
    /// default nothing is stated.
    open spec fn answers(&self, input: JsonModel, store: Seq<(Seq<char>, EnvelopeView)>, result: Result<JsonValue, QueryError>) -> bool {
        true
    }

    fn descriptor(&self) -> (d: QueryDescriptor)
        ensures
            d.id.view() == self.tool_id(),
            d.required_permissions.view() == self.needs(),
    ;

    /// The documents the query reads.
    fn document_access(&self, input: &JsonValue) -> (r: Result<DocumentAccessPlan, QueryError>)
        ensures
            self.plans(model(*input), r),
    ;

    fn execute(&self, input: &JsonValue, store: &DocumentStore) -> (r: Result<JsonValue, QueryError>)
        ensures
            self.answers(model(*input), store.view(), r),
    ;
}

/// Registered query handlers, by ascending query identifier.
pub struct QueryRegistry<Q> {
    handlers: Vec<Q>,
}

/// The identifiers of registered handlers.
pub open spec fn query_ids<Q: QueryHandler>(hs: Seq<Q>) -> Seq<Seq<char>> {
    Seq::new(hs.len(), |i: int| hs[i].tool_id())
}

impl<Q: QueryHandler> QueryRegistry<Q> {
    /// The registered handlers, in identifier order.
    pub closed spec fn entries(&self) -> Seq<Q> {
        self.handlers@
    }

    /// The registered query identifiers, in order.
    pub open spec fn view(&self) -> Seq<Seq<char>> {
        query_ids(self.entries())
    }

    /// The handler that serves `id`: the first registered under it.
    pub open spec fn route(&self, id: Seq<char>) -> Q {
        self.entries()[first_match(self.view(), id)]
    }

    /// An empty registry.
    pub fn new() -> (r: Self)
        ensures
            r.entries() == Seq::<Q>::empty(),
            r.view() == Seq::<Seq<char>>::empty(),
    {
        let r = QueryRegistry { handlers: Vec::new() };
        assert(r.view() =~= Seq::<Seq<char>>::empty());
        r
    }

    fn find(&self, id: &ToolId) -> (r: Option<usize>)
        ensures
            match r {
                Some(i) => i < self.entries().len() && i == first_match(self.view(), id.view()) && self.view()[i as int]
                    == id.view(),
                None => !self.view().contains(id.view()),
            },
    {
        let ghost v = self.view();
        let mut i: usize = 0;
        while i < self.handlers.len()
            invariant
                v == self.view(),
                v.len() == self.handlers@.len(),
                i <= v.len(),
                forall|j: int| 0 <= j < i ==> #[trigger] v[j] != id.view(),
            decreases v.len() - i,
        {
            let d = self.handlers[i].descriptor();
            if d.id.same(id) {
                proof {
                    lemma_first_match(v, id.view(), i as int);
                }
                return Some(i);
            }
            i = i + 1;
        }
        None
    }

    /// Registers `handler` under the identifier its descriptor gives, unless that
    /// identifier is registered already.
    pub fn register(&mut self, handler: Q) -> (r: Result<(), QueryError>)
        requires
            ascending(old(self).view()),
        ensures
            ascending(final(self).view()),
            match r {
                Ok(()) => !old(self).view().contains(handler.tool_id()) && final(self).entries()
                    == old(self).entries().insert(text_slot(old(self).view(), handler.tool_id()), handler)
                    && final(self).view() == old(self).view().insert(
                    text_slot(old(self).view(), handler.tool_id()),
                    handler.tool_id(),
                ),
                Err(QueryError::DuplicateQuery(id)) => old(self).view().contains(handler.tool_id())
                    && id.view() == handler.tool_id() && final(self).entries() == old(self).entries(),
                Err(_) => false,
            },
            r is Ok ==> final(self).view().len() == old(self).view().len() + 1,
            r is Ok ==> forall|y: Seq<char>| #[trigger] final(self).view().contains(y) <==> (old(self).view().contains(y) || y == handler.tool_id()),
            r is Ok ==> final(self).entries().contains(handler),
            forall|g: Q| old(self).entries().contains(g) ==> #[trigger] final(self).entries().contains(g),
    {
        let id = handler.descriptor().id;
        if self.find(&id).is_some() {
            return Err(QueryError::DuplicateQuery(id));
        }
        self.insert_handler(id, handler);
        Ok(())
    }

    fn insert_handler(&mut self, id: ToolId, handler: Q)
        requires
            ascending(old(self).view()),
            !old(self).view().contains(id.view()),
            id.view() == handler.tool_id(),
        ensures
            ascending(final(self).view()),
            final(self).entries() == old(self).entries().insert(text_slot(old(self).view(), id.view()), handler),
            final(self).view() == old(self).view().insert(text_slot(old(self).view(), id.view()), id.view()),
            final(self).view().len() == old(self).view().len() + 1,
            forall|y: Seq<char>| #[trigger] final(self).view().contains(y) <==> (old(self).view().contains(y) || y == handler.tool_id()),
            final(self).entries().contains(handler),
            forall|g: Q| old(self).entries().contains(g) ==> #[trigger] final(self).entries().contains(g),
    {
        let ghost v = self.view();
        let ghost key = id.view();
        let mut pos: usize = 0;
        loop
            invariant
                v == self.view(),
                v.len() == self.handlers@.len(),
                key == id.view(),
                pos <= v.len(),
                forall|j: int| 0 <= j < pos ==> !text_lt(key, #[trigger] v[j]),
            ensures
                pos < v.len() ==> text_lt(key, v[pos as int]),
            decreases v.len() - pos,
        {
            if pos >= self.handlers.len() {
                break;
            }
            let d = self.handlers[pos].descriptor();
            if text_less(id.as_str(), d.id.as_str()) {
                break;
            }
            pos = pos + 1;
        }
        proof {
            lemma_text_insert(v, pos as int, key);
        }
        let ghost hs = self.handlers@;
        self.handlers.insert(pos, handler);
        assert(self.handlers@ == hs.insert(pos as int, handler));
        assert(query_ids(self.handlers@) =~= v.insert(pos as int, key));
        proof {
            lemma_insert_contains(v, pos as int, key);
            lemma_insert_contains(hs, pos as int, handler);
        }
    }

    /// The handler registered under `id`.
    pub fn handler(&self, id: &ToolId) -> (r: Result<&Q, QueryError>)
        ensures
            self.view().contains(id.view()) <==> r is Ok,
            r matches Ok(h) ==> *h == self.route(id.view()),
            r matches Err(e) ==> e matches QueryError::QueryNotFound(x) && x.view() == id.view(),
    {
        match self.find(id) {
            Some(i) => Ok(&self.handlers[i]),
            None => Err(QueryError::QueryNotFound(id.clone())),
        }
    }

    /// The descriptors of every registered query, in identifier order.
    pub fn descriptors(&self) -> (r: Vec<QueryDescriptor>)
        ensures
            query_described(self.entries(), r@),
    {
        let mut out: Vec<QueryDescriptor> = Vec::new();
        let mut i: usize = 0;
        while i < self.handlers.len()
            invariant
                i <= self.handlers@.len(),
                out@.len() == i,
                forall|j: int| 0 <= j < i ==> #[trigger] out@[j].id.view() == self.handlers@[j].tool_id()
                    && out@[j].required_permissions.view() == self.handlers@[j].needs(),
            decreases self.handlers@.len() - i,
        {
            out.push(self.handlers[i].descriptor());
            i = i + 1;
        }
        out
    }
}

/// `ds` are the descriptors of `hs`, one for one: the same identifiers and permissions.
pub open spec fn query_described<Q: QueryHandler>(hs: Seq<Q>, ds: Seq<QueryDescriptor>) -> bool {
    &&& ds.len() == hs.len()
    &&& forall|i: int| 0 <= i < ds.len() ==> (#[trigger] ds[i]).id.view() == hs[i].tool_id()
        && ds[i].required_permissions.view() == hs[i].needs()
}

/// The handler registered under an identifier of an ascending registry is the one that
/// serves it.
pub proof fn lemma_query_route<Q: QueryHandler>(registry: QueryRegistry<Q>, h: Q)
    requires
        ascending(registry.view()),
        registry.entries().contains(h),
    ensures
        registry.route(h.tool_id()) == h,
{
    let i = choose|i: int| 0 <= i < registry.entries().len() && registry.entries()[i] == h;
    assert(registry.view()[i] == h.tool_id());
    lemma_ascending_match(registry.view(), i);
}

/// Runs queries with a permission check.
pub struct QueryExecutor<Q> {
    registry: QueryRegistry<Q>,
}

/// What running query `id` on `input` with `permissions` over `store` answers: a refusal
/// of an unknown query or of missing permissions, else the serving handler's answer.
pub open spec fn query_ran<Q: QueryHandler>(
    e: QueryExecutor<Q>,
    id: Seq<char>,
    input: JsonModel,
    permissions: Set<Permission>,
    store: Seq<(Seq<char>, EnvelopeView)>,
    r: Result<JsonValue, QueryError>,
) -> bool {
    if !e.queries().contains(id) {
        r matches Err(QueryError::QueryNotFound(x)) && x.view() == id
    } else if !e.route(id).needs().subset_of(permissions) {
        r matches Err(QueryError::PermissionDenied(x)) && x.view() == id
    } else {
        e.route(id).answers(input, store, r)
    }
}

/// The access plan that the executor answers for query `id` on `input`: the serving
/// handler's plan, or a refusal of an unknown query.
pub open spec fn query_planned<Q: QueryHandler>(
    e: QueryExecutor<Q>,
    id: Seq<char>,
    input: JsonModel,
    r: Result<DocumentAccessPlan, QueryError>,
) -> bool {
    if e.queries().contains(id) {
        e.route(id).plans(input, r)
    } else {
        r matches Err(QueryError::QueryNotFound(x)) && x.view() == id
    }
}

impl<Q: QueryHandler> QueryExecutor<Q> {
    /// The registered handlers, in identifier order.
    pub closed spec fn handlers(&self) -> Seq<Q> {
        self.registry.entries()
    }

    /// The registered query identifiers.
    pub open spec fn queries(&self) -> Seq<Seq<char>> {
        query_ids(self.handlers())
    }

    /// The handler that serves `id`.
    pub open spec fn route(&self, id: Seq<char>) -> Q {
        self.handlers()[first_match(self.queries(), id)]
    }

    /// An executor over `registry`.
    pub fn new(registry: QueryRegistry<Q>) -> (e: Self)
        ensures
            e.handlers() == registry.entries(),
    {
        QueryExecutor { registry }
    }

    /// The registry.
    pub fn registry(&self) -> (r: &QueryRegistry<Q>)
        ensures
            r.entries() == self.handlers(),
    {
        &self.registry
    }

    /// The documents that the query of `request` declares it reads.
    pub fn document_access(&self, request: &QueryRequest) -> (r: Result<DocumentAccessPlan, QueryError>)
        ensures
            query_planned(*self, request.query.view(), model(request.input), r),
    {
        let handler = self.registry.handler(&request.query)?;
        handler.document_access(&request.input)
    }

    /// Runs `request` against `store` when its query is registered and `context` holds
    /// the permissions it needs (see `query_ran`).
    pub fn execute(&self, request: QueryRequest, context: &QueryContext, store: &DocumentStore) -> (r: Result<JsonValue, QueryError>)
        ensures
            query_ran(*self, request.query.view(), model(request.input), context.permissions.view(), store.view(), r),
    {
        let handler = self.registry.handler(&request.query)?;
        let descriptor = handler.descriptor();
        if !context.permissions.contains_all(&descriptor.required_permissions) {
            return Err(QueryError::PermissionDenied(request.query));
        }
        handler.execute(&request.input, store)
    }
}

} // verus!
