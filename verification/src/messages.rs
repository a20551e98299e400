use crate::command::CommandError;
use crate::content::ContentError;
use crate::ids::DocumentId;
use crate::query::QueryError;
use crate::text::{push_str, string_of};
use vstd::prelude::*;

verus! {

/// How a content error reads.
pub open spec fn content_error_text(e: ContentError) -> Seq<char> {
    match e {
        ContentError::DuplicateDocument(id) => "duplicate document: "@ + id.view(),
        ContentError::DocumentNotFound(id) => "document not found: "@ + id.view(),
        ContentError::DuplicateCompiler(t) => "compiler already registered for: "@ + t.view(),
        ContentError::CompilerNotFound(t) => "compiler not found for: "@ + t.view(),
        ContentError::InvalidDocument(m) => "invalid document: "@ + m@,
        ContentError::InvalidProjectRoot(p) => "invalid project root: "@ + p@,
        ContentError::ProjectPath(p) => p.code@ + ": rejected project path `"@ + p.path@ + "`: "@ + p.reason@,
        ContentError::Io(m) => "I/O error: "@ + m@,
        ContentError::Serialization(m) => "serialization error: "@ + m@,
    }
}

/// `DocumentId("<id>")`, as an identifier is debug-printed.
pub open spec fn debug_id(id: Seq<char>) -> Seq<char> {
    "DocumentId(\""@ + id + "\")"@
}

/// The debug-printed identifiers, separated by `, `.
pub open spec fn debug_ids(ids: Seq<DocumentId>) -> Seq<char>
    decreases ids.len(),
{
    if ids.len() == 0 {
        Seq::empty()
    } else if ids.len() == 1 {
        debug_id(ids[0].view())
    } else {
        debug_ids(ids.drop_last()) + ", "@ + debug_id(ids.last().view())
    }
}

/// How a command error reads.
pub open spec fn command_error_text(e: CommandError) -> Seq<char> {
    match e {
        CommandError::DuplicateCommand(id) => "duplicate command: "@ + id.view(),
        CommandError::CommandNotFound(id) => "command not found: "@ + id.view(),
        CommandError::PermissionDenied(id) => "permission denied for command: "@ + id.view(),
        CommandError::WorkingSetDenied(ids) => "command modified documents outside the working set: ["@
            + debug_ids(ids@) + "]"@,
        CommandError::InvalidInput(m) => "invalid command input: "@ + m@,
        CommandError::ValidationFailed(_) => "command validation failed"@,
        CommandError::Content(c) => content_error_text(c),
        CommandError::Serialization(m) => m@,
    }
}

/// How a query error reads.
pub open spec fn query_error_text(e: QueryError) -> Seq<char> {
    match e {
        QueryError::DuplicateQuery(id) => "duplicate query: "@ + id.view(),
        QueryError::QueryNotFound(id) => "query not found: "@ + id.view(),
        QueryError::PermissionDenied(id) => "permission denied for query: "@ + id.view(),
        QueryError::InvalidInput(m) => "invalid query input: "@ + m@,
        QueryError::Failed(m) => "query failed: "@ + m@,
        QueryError::Serialization(m) => m@,
    }
}

fn joined(before: &str, middle: &str) -> (m: String)
    ensures
        m@ == before@ + middle@,
{
    let mut m = string_of(before);
    push_str(&mut m, middle);
    m
}

impl ContentError {
    /// The error's message (see `content_error_text`).
    pub fn message(&self) -> (m: String)
        ensures
            m@ == content_error_text(*self),
    {
        match self {
            ContentError::DuplicateDocument(id) => joined("duplicate document: ", id.as_str()),
            ContentError::DocumentNotFound(id) => joined("document not found: ", id.as_str()),
            ContentError::DuplicateCompiler(t) => joined("compiler already registered for: ", t.as_str()),
            ContentError::CompilerNotFound(t) => joined("compiler not found for: ", t.as_str()),
            ContentError::InvalidDocument(m) => joined("invalid document: ", m.as_str()),
            ContentError::InvalidProjectRoot(p) => joined("invalid project root: ", p.as_str()),
            ContentError::ProjectPath(p) => {
                let mut m = string_of(p.code.as_str());
                push_str(&mut m, ": rejected project path `");
                push_str(&mut m, p.path.as_str());
                push_str(&mut m, "`: ");
                push_str(&mut m, p.reason.as_str());
                m
            },
            ContentError::Io(m) => joined("I/O error: ", m.as_str()),
            ContentError::Serialization(m) => joined("serialization error: ", m.as_str()),
        }
    }
}

fn push_debug_ids(out: &mut String, ids: &Vec<DocumentId>)
    ensures
        final(out)@ == old(out)@ + debug_ids(ids@),
{
    let mut i: usize = 0;
    while i < ids.len()
        invariant
            i <= ids@.len(),
            out@ == old(out)@ + debug_ids(ids@.take(i as int)),
        decreases ids@.len() - i,
    {
        assert(ids@.take(i + 1).drop_last() =~= ids@.take(i as int));
        assert(ids@.take(i + 1).last() == ids@[i as int]);
        if i > 0 {
            push_str(out, ", ");
        }
        push_str(out, "DocumentId(\"");
        push_str(out, ids[i].as_str());
        push_str(out, "\")");
        proof {
            if i == 0 {
                assert(ids@.take(1)[0] == ids@[0]);
            }
        }
        i = i + 1;
    }
    assert(ids@.take(i as int) =~= ids@);
}

impl CommandError {
    /// The error's message (see `command_error_text`).
    pub fn message(&self) -> (m: String)
        ensures
            m@ == command_error_text(*self),
    {
        match self {
            CommandError::DuplicateCommand(id) => joined("duplicate command: ", id.as_str()),
            CommandError::CommandNotFound(id) => joined("command not found: ", id.as_str()),
            CommandError::PermissionDenied(id) => joined("permission denied for command: ", id.as_str()),
            CommandError::WorkingSetDenied(ids) => {
                let mut m = string_of("command modified documents outside the working set: [");
                push_debug_ids(&mut m, ids);
                push_str(&mut m, "]");
                m
            },
            CommandError::InvalidInput(m) => joined("invalid command input: ", m.as_str()),
            CommandError::ValidationFailed(_) => string_of("command validation failed"),
            CommandError::Content(c) => c.message(),
            CommandError::Serialization(m) => m.clone(),
        }
    }
}

impl QueryError {
    /// The error's message (see `query_error_text`).
    pub fn message(&self) -> (m: String)
        ensures
            m@ == query_error_text(*self),
    {
        match self {
            QueryError::DuplicateQuery(id) => joined("duplicate query: ", id.as_str()),
            QueryError::QueryNotFound(id) => joined("query not found: ", id.as_str()),
            QueryError::PermissionDenied(id) => joined("permission denied for query: ", id.as_str()),
            QueryError::InvalidInput(m) => joined("invalid query input: ", m.as_str()),
            QueryError::Failed(m) => joined("query failed: ", m.as_str()),
            QueryError::Serialization(m) => m.clone(),
        }
    }
}

} // verus!
