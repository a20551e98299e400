use crate::command::CommandDescriptor;
use crate::ids::ToolId;
use crate::json::{model, text_less, text_lt, JsonModel, JsonValue};
use crate::keyed::{key_index, key_slot, keys_ascending, lemma_insert_slot};
use crate::permissions::{Permission, PermissionSet};
use crate::query::QueryDescriptor;
use crate::text::{push_str, string_of};
use vstd::prelude::*;

verus! {

/// Code of a catalog refusal: one identifier offered twice.
pub const TOOL_CATALOG_ID_COLLISION: &'static str = "TOOL_CATALOG_ID_COLLISION";

/// Whether a tool changes state (a command) or only reads it (a query).
#[derive(Debug, Clone, Copy, PartialEq, Eq, Structural)]
pub enum ToolKind {
    Command,
    Query,
}

/// The name of a tool kind.
pub open spec fn kind_text(k: ToolKind) -> Seq<char> {
    match k {
        ToolKind::Command => "command"@,
        ToolKind::Query => "query"@,
    }
}

impl ToolKind {
    /// `command` or `query`.
    pub fn name(&self) -> (s: &'static str)
        ensures
            s@ == kind_text(*self),
    {
        match self {
            ToolKind::Command => "command",
            ToolKind::Query => "query",
        }
    }
}

/// A tool identifier offered twice.
#[derive(Debug)]
pub struct ToolCatalogError {
    pub code: String,
    pub tool_id: ToolId,
    pub existing_kind: ToolKind,
    pub incoming_kind: ToolKind,
}

impl ToolCatalogError {
    /// `<code>: tool ID `<id>` is registered as both <existing> and <incoming>`.
    pub fn message(&self) -> (m: String)
        ensures
            m@ == self.code@ + ": tool ID `"@ + self.tool_id.view() + "` is registered as both "@
                + kind_text(self.existing_kind) + " and "@ + kind_text(self.incoming_kind),
    {
        let mut m = string_of(self.code.as_str());
        push_str(&mut m, ": tool ID `");
        push_str(&mut m, self.tool_id.as_str());
        push_str(&mut m, "` is registered as both ");
        push_str(&mut m, self.existing_kind.name());
        push_str(&mut m, " and ");
        push_str(&mut m, self.incoming_kind.name());
        m
    }
}

/// What an agent learns of one tool.
#[derive(Debug)]
pub struct ToolDescriptor {
    pub id: ToolId,
    pub kind: ToolKind,
    pub title: String,
    pub description: String,
    pub input_schema: JsonValue,
    pub output_schema: JsonValue,
    pub required_permissions: PermissionSet,
    pub side_effects: Vec<String>,
    pub related_tools: Vec<ToolId>,
}

/// A tool descriptor as plain values (its identifier aside).
pub struct ToolView {
    pub kind: ToolKind,
    pub title: Seq<char>,
    pub description: Seq<char>,
    pub input_schema: JsonModel,
    pub output_schema: JsonModel,
    pub permissions: Set<Permission>,
    pub side_effects: Seq<Seq<char>>,
    pub related_tools: Seq<Seq<char>>,
}

/// The texts of a list of strings.
pub open spec fn strings_view(xs: Seq<String>) -> Seq<Seq<char>> {
    Seq::new(xs.len(), |i: int| xs[i]@)
}

/// The texts of a list of tool identifiers.
pub open spec fn tools_view(xs: Seq<ToolId>) -> Seq<Seq<char>> {
    Seq::new(xs.len(), |i: int| xs[i].view())
}

impl ToolDescriptor {
    /// The descriptor as plain values.
    pub open spec fn view(&self) -> ToolView {
        ToolView {
            kind: self.kind,
            title: self.title@,
            description: self.description@,
            input_schema: model(self.input_schema),
            output_schema: model(self.output_schema),
            permissions: self.required_permissions.view(),
            side_effects: strings_view(self.side_effects@),
            related_tools: tools_view(self.related_tools@),
        }
    }
}

/// The catalog entry of a command descriptor.
pub open spec fn command_entry(d: CommandDescriptor) -> (Seq<char>, ToolView) {
    (
        d.id.view(),
        ToolView {
            kind: ToolKind::Command,
            title: d.title@,
            description: d.description@,
            input_schema: model(d.input_schema),
            output_schema: model(d.output_schema),
            permissions: d.required_permissions.view(),
            side_effects: strings_view(d.side_effects@),
            related_tools: tools_view(d.related_tools@),
        },
    )
}

/// The catalog entry of a query descriptor (queries have no side effects).
pub open spec fn query_entry(d: QueryDescriptor) -> (Seq<char>, ToolView) {
    (
        d.id.view(),
        ToolView {
            kind: ToolKind::Query,
            title: d.title@,
            description: d.description@,
            input_schema: model(d.input_schema),
            output_schema: model(d.output_schema),
            permissions: d.required_permissions.view(),
            side_effects: Seq::empty(),
            related_tools: tools_view(d.related_tools@),
        },
    )
}

/// The entries of the commands, then of the queries, in the order given.
pub open spec fn offered(commands: Seq<CommandDescriptor>, queries: Seq<QueryDescriptor>) -> Seq<(Seq<char>, ToolView)> {
    Seq::new(commands.len(), |i: int| command_entry(commands[i])) + Seq::new(
        queries.len(),
        |i: int| query_entry(queries[i]),
    )
}

/// The catalog built by inserting `entries` in order into an empty catalog kept in
/// ascending identifier order, or the first identifier offered twice with the kinds of
/// its first and second entry.
pub open spec fn catalog_of(entries: Seq<(Seq<char>, ToolView)>) -> Result<Seq<(Seq<char>, ToolView)>, (Seq<char>, ToolKind, ToolKind)>
    decreases entries.len(),
{
    if entries.len() == 0 {
        Ok(Seq::empty())
    } else {
        match catalog_of(entries.drop_last()) {
            Err(e) => Err(e),
            Ok(c) => {
                let (id, t) = entries.last();
                match key_index(c, id) {
                    Some(i) => Err((id, c[i].1.kind, t.kind)),
                    None => Ok(c.insert(key_slot(c, id), (id, t))),
                }
            },
        }
    }
}

/// Every tool an agent can call, in ascending identifier order.
#[derive(Debug)]
pub struct ToolCatalog {
    tools: Vec<ToolDescriptor>,
}

/// The entries of a list of descriptors, keyed by identifier.
pub open spec fn entries_view(ds: Seq<ToolDescriptor>) -> Seq<(Seq<char>, ToolView)> {
    Seq::new(ds.len(), |i: int| (ds[i].id.view(), ds[i].view()))
}

fn command_tool(d: CommandDescriptor) -> (t: ToolDescriptor)
    ensures
        (t.id.view(), t.view()) == command_entry(d),
{
    ToolDescriptor {
        id: d.id,
        kind: ToolKind::Command,
        title: d.title,
        description: d.description,
        input_schema: d.input_schema,
        output_schema: d.output_schema,
        required_permissions: d.required_permissions,
        side_effects: d.side_effects,
        related_tools: d.related_tools,
    }
}

fn query_tool(d: QueryDescriptor) -> (t: ToolDescriptor)
    ensures
        (t.id.view(), t.view()) == query_entry(d),
{
    let side_effects: Vec<String> = Vec::new();
    let t = ToolDescriptor {
        id: d.id,
        kind: ToolKind::Query,
        title: d.title,
        description: d.description,
        input_schema: d.input_schema,
        output_schema: d.output_schema,
        required_permissions: d.required_permissions,
        side_effects,
        related_tools: d.related_tools,
    };
    assert(strings_view(t.side_effects@) =~= Seq::<Seq<char>>::empty());
    t
}

fn offered_tools(commands: Vec<CommandDescriptor>, queries: Vec<QueryDescriptor>) -> (tools: Vec<ToolDescriptor>)
    ensures
        entries_view(tools@) == offered(commands@, queries@),
{
    let ghost cs = commands@;
    let ghost qs = queries@;
    let mut tools: Vec<ToolDescriptor> = Vec::new();
    let cn = commands.len();
    let qn = queries.len();
    let mut rest = commands;
    let mut i: usize = 0;
    while rest.len() > 0
        invariant
            cn == cs.len(),
            i <= cs.len(),
            rest@.len() == cs.len() - i,
            rest@ == cs.skip(i as int),
            entries_view(tools@) == Seq::new(i as nat, |k: int| command_entry(cs[k])),
        decreases rest@.len(),
    {
        let ghost before = tools@;
        let d = rest.remove(0);
        assert(d == cs[i as int]);
        let t = command_tool(d);
        let ghost e = (t.id.view(), t.view());
        tools.push(t);
        assert(entries_view(tools@) =~= entries_view(before).push(e));
        assert(entries_view(tools@) =~= Seq::new((i + 1) as nat, |k: int| command_entry(cs[k])));
        i = i + 1;
        assert(rest@ =~= cs.skip(i as int));
    }
    let ghost head = entries_view(tools@);
    let mut rest = queries;
    let mut k: usize = 0;
    while rest.len() > 0
        invariant
            qn == qs.len(),
            k <= qs.len(),
            rest@.len() == qs.len() - k,
            rest@ == qs.skip(k as int),
            head == Seq::new(cs.len(), |j: int| command_entry(cs[j])),
            entries_view(tools@) == head + Seq::new(k as nat, |j: int| query_entry(qs[j])),
        decreases rest@.len(),
    {
        let ghost before = tools@;
        let d = rest.remove(0);
        assert(d == qs[k as int]);
        let t = query_tool(d);
        let ghost e = (t.id.view(), t.view());
        tools.push(t);
        assert(entries_view(tools@) =~= entries_view(before).push(e));
        assert(entries_view(tools@) =~= head + Seq::new((k + 1) as nat, |j: int| query_entry(qs[j])));
        k = k + 1;
        assert(rest@ =~= qs.skip(k as int));
    }
    assert(entries_view(tools@) =~= offered(cs, qs));
    tools
}

impl ToolCatalog {
    /// The entries, keyed by identifier, in order.
    pub closed spec fn view(&self) -> Seq<(Seq<char>, ToolView)> {
        entries_view(self.tools@)
    }

    #[verifier::type_invariant]
    spec fn ordered(&self) -> bool {
        keys_ascending(self.view())
    }

    /// An empty catalog.
    pub fn new() -> (c: Self)
        ensures
            c.view() == Seq::<(Seq<char>, ToolView)>::empty(),
    {
        let c = ToolCatalog { tools: Vec::new() };
        assert(c.view() =~= Seq::<(Seq<char>, ToolView)>::empty());
        c
    }

    fn find(&self, key: &ToolId) -> (r: Option<usize>)
        ensures
            match r {
                Some(i) => i < self.view().len() && key_index(self.view(), key.view()) == Some(i as int),
                None => key_index(self.view(), key.view()) is None,
            },
    {
        proof {
            use_type_invariant(self);
        }
        let ghost v = self.view();
        let mut i: usize = 0;
        while i < self.tools.len()
            invariant
                v == self.view(),
                keys_ascending(v),
                i <= v.len(),
                forall|j: int| 0 <= j < i ==> (#[trigger] v[j]).0 != key.view(),
            decreases v.len() - i,
        {
            if self.tools[i].id.same(key) {
                proof {
                    assert(v[i as int].0 == key.view());
                    assert(exists|w: int| 0 <= w < v.len() && (#[trigger] v[w]).0 == key.view());
                    let w = key_index(v, key.view())->Some_0;
                    if w != i {
                        if w < i {
                            assert(v[w].0 != key.view());
                        } else {
                            assert(text_lt(v[i as int].0, v[w].0));
                            crate::json::lemma_text_lt_irreflexive(key.view());
                        }
                    }
                }
                return Some(i);
            }
            i = i + 1;
        }
        None
    }

    fn insert(&mut self, descriptor: ToolDescriptor) -> (r: Result<(), ToolCatalogError>)
        ensures
            match key_index(old(self).view(), descriptor.id.view()) {
                Some(i) => r matches Err(e) && e.code@ == TOOL_CATALOG_ID_COLLISION@ && e.tool_id.view()
                    == descriptor.id.view() && e.existing_kind == old(self).view()[i].1.kind
                    && e.incoming_kind == descriptor.kind && final(self).view() == old(self).view(),
                None => r is Ok && final(self).view() == old(self).view().insert(
                    key_slot(old(self).view(), descriptor.id.view()),
                    (descriptor.id.view(), descriptor.view()),
                ),
            },
    {
        proof {
            use_type_invariant(&*self);
        }
        match self.find(&descriptor.id) {
            Some(i) => {
                return Err(
                    ToolCatalogError {
                        code: string_of(TOOL_CATALOG_ID_COLLISION),
                        tool_id: descriptor.id,
                        existing_kind: self.tools[i].kind,
                        incoming_kind: descriptor.kind,
                    },
                );
            },
            None => {},
        }
        let ghost v = self.view();
        let ghost key = descriptor.id.view();
        let ghost value = descriptor.view();
        let mut pos: usize = 0;
        while pos < self.tools.len() && !text_less(descriptor.id.as_str(), self.tools[pos].id.as_str())
            invariant
                v == self.view(),
                keys_ascending(v),
                key_index(v, key) is None,
                key == descriptor.id.view(),
                pos <= v.len(),
                forall|j: int| 0 <= j < pos ==> !text_lt(key, (#[trigger] v[j]).0),
            decreases v.len() - pos,
        {
            pos = pos + 1;
        }
        proof {
            if pos < v.len() {
                assert(text_lt(key, v[pos as int].0));
            }
            lemma_insert_slot(v, pos as int, key, value);
        }
        let mut tools: Vec<ToolDescriptor> = Vec::new();
        std::mem::swap(&mut tools, &mut self.tools);
        tools.insert(pos, descriptor);
        assert(entries_view(tools@) =~= v.insert(pos as int, (key, value)));
        self.tools = tools;
        Ok(())
    }

    /// The catalog of the given command and query descriptors (see `catalog_of`).
    #[verifier::rlimit(80)]
    pub fn from_descriptors(commands: Vec<CommandDescriptor>, queries: Vec<QueryDescriptor>) -> (r: Result<
        Self,
        ToolCatalogError,
    >)
        ensures
            match catalog_of(offered(commands@, queries@)) {
                Ok(c) => r matches Ok(catalog) && catalog.view() == c,
                Err(e) => r matches Err(x) && x.code@ == TOOL_CATALOG_ID_COLLISION@ && x.tool_id.view()
                    == e.0 && x.existing_kind == e.1 && x.incoming_kind == e.2,
            },
    {
        let ghost cs0 = commands@;
        let ghost qs0 = queries@;
        let tools = offered_tools(commands, queries);
        let ghost ts = tools@;
        let ghost all = entries_view(ts);
        let n = tools.len();
        let mut catalog = ToolCatalog::new();
        let mut rest = tools;
        let mut done: usize = 0;
        assert(all.take(0) =~= Seq::<(Seq<char>, ToolView)>::empty());
        assert(rest@ =~= ts.skip(0));
        while rest.len() > 0
            invariant
                n == ts.len(),
                all == entries_view(ts),
                all == offered(cs0, qs0),
                cs0 == commands@,
                qs0 == queries@,
                done <= n,
                rest@.len() == n - done,
                rest@ == ts.skip(done as int),
                catalog_of(all.take(done as int)) == Ok::<Seq<(Seq<char>, ToolView)>, (Seq<char>, ToolKind, ToolKind)>(catalog.view()),
            decreases rest@.len(),
        {
            let t = rest.remove(0);
            proof {
                assert(t == ts[done as int]);
                assert(all[done as int] == (t.id.view(), t.view()));
                assert(rest@ =~= ts.skip(done + 1));
                lemma_catalog_step(all, done as int, catalog.view());
            }
            let ghost old_view = catalog.view();
            match catalog.insert(t) {
                Ok(()) => {},
                Err(e) => {
                    proof {
                        let ki = key_index(old_view, all[done as int].0);
                        assert(ki is Some);
                        let ii = ki->Some_0;
                        assert(catalog_of(all.take(done + 1)) == Err::<Seq<(Seq<char>, ToolView)>, (Seq<char>, ToolKind, ToolKind)>((all[done as int].0, old_view[ii].1.kind, all[done as int].1.kind)));
                        lemma_catalog_prefix(all, done + 1);
                        assert(all == offered(cs0, qs0));
                        assert(e.tool_id.view() == all[done as int].0);
                        assert(e.existing_kind == old_view[ii].1.kind);
                        assert(e.incoming_kind == all[done as int].1.kind);
                    }
                    return Err(e);
                },
            }
            done = done + 1;
        }
        assert(all.take(done as int) =~= all);
        Ok(catalog)
    }

    /// The catalog of every registered command and query: that of their descriptors
    /// (see `from_descriptors`), commands first, each list in identifier order.
    pub fn from_registries<H: crate::command::CommandHandler, Q: crate::query::QueryHandler>(
        commands: &crate::command::CommandRegistry<H>,
        queries: &crate::query::QueryRegistry<Q>,
    ) -> (r: Result<Self, ToolCatalogError>)
        ensures
            exists|cs: Seq<CommandDescriptor>, qs: Seq<QueryDescriptor>|
                #![trigger catalog_of(offered(cs, qs))]
                crate::command::described(commands.entries(), cs) && crate::query::query_described(
                    queries.entries(),
                    qs,
                ) && match catalog_of(offered(cs, qs)) {
                    Ok(c) => r matches Ok(catalog) && catalog.view() == c,
                    Err(e) => r matches Err(x) && x.code@ == TOOL_CATALOG_ID_COLLISION@ && x.tool_id.view()
                        == e.0 && x.existing_kind == e.1 && x.incoming_kind == e.2,
                },
    {
        let cs = commands.descriptors();
        let qs = queries.descriptors();
        let ghost gc = cs@;
        let ghost gq = qs@;
        let r = Self::from_descriptors(cs, qs);
        assert(crate::command::described(commands.entries(), gc));
        assert(match catalog_of(offered(gc, gq)) {
            Ok(c) => r matches Ok(catalog) && catalog.view() == c,
            Err(e) => r matches Err(x) && x.code@ == TOOL_CATALOG_ID_COLLISION@ && x.tool_id.view() == e.0
                && x.existing_kind == e.1 && x.incoming_kind == e.2,
        });
        r
    }

    /// The descriptor of tool `id`.
    pub fn get(&self, id: &ToolId) -> (r: Option<&ToolDescriptor>)
        ensures
            match key_index(self.view(), id.view()) {
                Some(i) => r matches Some(d) && d.id.view() == id.view() && d.view() == self.view()[i].1,
                None => r is None,
            },
    {
        match self.find(id) {
            Some(i) => {
                proof {
                    crate::keyed::lemma_key_index(self.view(), id.view());
                    assert(self.view()[i as int] == (self.tools@[i as int].id.view(), self.tools@[i as int].view()));
                }
                Some(&self.tools[i])
            },
            None => None,
        }
    }

    /// Every descriptor, in ascending identifier order.
    pub fn list(&self) -> (r: &[ToolDescriptor])
        ensures
            keys_ascending(self.view()),
            entries_view(r@) == self.view(),
    {
        proof {
            use_type_invariant(self);
        }
        self.tools.as_slice()
    }
}

proof fn lemma_catalog_step(all: Seq<(Seq<char>, ToolView)>, done: int, c: Seq<(Seq<char>, ToolView)>)
    requires
        0 <= done < all.len(),
        catalog_of(all.take(done)) == Ok::<Seq<(Seq<char>, ToolView)>, (Seq<char>, ToolKind, ToolKind)>(c),
    ensures
        catalog_of(all.take(done + 1)) == match key_index(c, all[done].0) {
            Some(i) => Err((all[done].0, c[i].1.kind, all[done].1.kind)),
            None => Ok(c.insert(key_slot(c, all[done].0), all[done])),
        },
{
    assert(all.take(done + 1).drop_last() =~= all.take(done));
    assert(all.take(done + 1).last() == all[done]);
}

/// A failure in a prefix is the failure of the whole list.
proof fn lemma_catalog_prefix(all: Seq<(Seq<char>, ToolView)>, k: int)
    requires
        0 <= k <= all.len(),
        catalog_of(all.take(k)) is Err,
    ensures
        catalog_of(all) == catalog_of(all.take(k)),
    decreases all.len(),
{
    if k < all.len() {
        assert(all.drop_last().take(k) =~= all.take(k));
        lemma_catalog_prefix(all.drop_last(), k);
    } else {
        assert(all.take(k) =~= all);
    }
}

} // verus!
