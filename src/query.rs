//! The two request/response protocols: simple commands, and row queries over
//! parse, bind, describe, execute and sync. Requests are built here; responses
//! are folded one message at a time until the server is ready again.
use vstd::prelude::*;
use vstd::utf8::encode_utf8;
use std::sync::Arc;
use crate::client::{Column, FieldSpec, Row, fields_of};
use crate::error::{Error, protocol_error};
use crate::frontend::{
    bind_frame, bind_message, describe_frame, describe_message, execute_frame, execute_message,
    parse_frame, parse_message, query_frame, query_message, sync_frame, sync_message,
};
use crate::handshake::lemma_ascii_bytes;
use crate::message::{BackendMessage, MessageSpec, error_message, error_text, values_view};

verus! {

/// The row-query request for `sql`: parse into the unnamed statement with no
/// parameter types, bind the unnamed portal with no parameters and binary
/// results, describe the portal, execute it without a row limit, then sync.
pub open spec fn row_query_request(sql: Seq<u8>) -> Option<Seq<u8>> {
    let e = Seq::<u8>::empty();
    match (
        parse_frame(e, sql, Seq::empty()),
        bind_frame(e, e, Seq::empty(), seq![1i16]),
        describe_frame(0x50 /* 'P' */, e),
        execute_frame(e, 0),
    ) {
        (Some(p), Some(b), Some(d), Some(x)) => Some(p + b + d + x + sync_frame()),
        _ => None,
    }
}

/// The prepare request: parse into a named statement, then sync.
pub open spec fn prepare_request(name: Seq<u8>, sql: Seq<u8>) -> Option<Seq<u8>> {
    match parse_frame(name, sql, Seq::empty()) {
        Some(p) => Some(p + sync_frame()),
        None => None,
    }
}

pub open spec fn request_matches(r: Result<Vec<u8>, Error>, f: Option<Seq<u8>>) -> bool {
    match f {
        Some(b) => r matches Ok(v) && v@ == b,
        None => r matches Err(Error::Protocol(_)),
    }
}

/// The simple-command request: one query frame with the literal text.
pub fn execute_request(sql: &str) -> (r: Result<Vec<u8>, Error>)
    ensures
        request_matches(r, query_frame(encode_utf8(sql@))),
{
    match query_message(sql) {
        Some(f) => Ok(f),
        None => Err(protocol_error("query text cannot be encoded")),
    }
}

/// The row-query request, batched into one buffer.
pub fn query_request(sql: &str) -> (r: Result<Vec<u8>, Error>)
    ensures
        request_matches(r, row_query_request(encode_utf8(sql@))),
{
    proof {
        reveal_strlit("");
        lemma_ascii_bytes(""@, Seq::empty());
    }
    let no_types: Vec<u32> = Vec::new();
    let no_formats: Vec<i16> = Vec::new();
    let binary: Vec<i16> = vec![1i16];
    assert(binary@ =~= seq![1i16]);
    let p = parse_message("", sql, &no_types);
    let b = bind_message("", "", &no_formats, &binary);
    let d = describe_message(0x50, "");
    let x = execute_message("", 0);
    match (p, b, d, x) {
        (Some(p), Some(b), Some(d), Some(x)) => {
            let mut out = p;
            let mut b = b;
            let mut d = d;
            let mut x = x;
            let mut s = sync_message();
            out.append(&mut b);
            out.append(&mut d);
            out.append(&mut x);
            out.append(&mut s);
            Ok(out)
        },
        _ => Err(protocol_error("query cannot be encoded")),
    }
}

/// The prepare request for a named statement.
pub fn prepare_request_for(name: &str, sql: &str) -> (r: Result<Vec<u8>, Error>)
    ensures
        request_matches(r, prepare_request(encode_utf8(name@), encode_utf8(sql@))),
{
    let no_types: Vec<u32> = Vec::new();
    match parse_message(name, sql, &no_types) {
        Some(p) => {
            let mut out = p;
            let mut s = sync_message();
            out.append(&mut s);
            Ok(out)
        },
        None => Err(protocol_error("statement cannot be encoded")),
    }
}

/// One step of the simple-command and prepare protocols: the error captured so
/// far, and whether the exchange is over.
pub open spec fn command_step(error: Option<Seq<char>>, m: MessageSpec) -> (Option<Seq<char>>, bool) {
    match m {
        MessageSpec::ErrorResponse(first) => (Some(error_text(first)), false),
        MessageSpec::ReadyForQuery(_) => (error, true),
        _ => (error, false),
    }
}

/// The error captured after the given messages of a simple command, starting from none.
pub open spec fn command_error_after(msgs: Seq<MessageSpec>) -> Option<Seq<char>>
    decreases msgs.len(),
{
    if msgs.len() == 0 {
        None
    } else {
        command_step(command_error_after(msgs.drop_last()), msgs.last()).0
    }
}

/// A failed statement does not cut a simple command short: when the server's
/// messages hold an ErrorResponse before the first ReadyForQuery at `k`, no
/// message before `k` ends the exchange, the ReadyForQuery at `k` does, and the
/// outcome there is the error. The stream is then at a message boundary, with
/// nothing of this exchange left unread, so the next request on the same
/// connection starts clean.
pub proof fn lemma_command_error_drains(msgs: Seq<MessageSpec>, e: int, k: int)
    requires
        0 <= e < k < msgs.len(),
        msgs[e] is ErrorResponse,
        msgs[k] is ReadyForQuery,
        forall|j: int| 0 <= j < k ==> !(#[trigger] msgs[j] is ReadyForQuery),
    ensures
        forall|j: int| 0 <= j < k ==> !(#[trigger] command_step(command_error_after(msgs.subrange(0, j)), msgs[j]).1),
        command_step(command_error_after(msgs.subrange(0, k)), msgs[k]).1,
        command_step(command_error_after(msgs.subrange(0, k)), msgs[k]).0 is Some,
    decreases k - e,
{
    assert(msgs.subrange(0, k).drop_last() =~= msgs.subrange(0, k - 1));
    if k - 1 == e {
        assert(command_error_after(msgs.subrange(0, k)) is Some);
    } else {
        lemma_command_error_still_some(msgs, e, k - 1);
    }
}

proof fn lemma_command_error_still_some(msgs: Seq<MessageSpec>, e: int, j: int)
    requires
        0 <= e <= j < msgs.len(),
        msgs[e] is ErrorResponse,
        forall|i: int| 0 <= i <= j ==> !(#[trigger] msgs[i] is ReadyForQuery),
    ensures
        command_error_after(msgs.subrange(0, j + 1)) is Some,
    decreases j - e,
{
    assert(msgs.subrange(0, j + 1).drop_last() =~= msgs.subrange(0, j));
    if j > e {
        lemma_command_error_still_some(msgs, e, j - 1);
    }
}

/// Collects the response to a simple command or a prepare. An error is kept,
/// and reading goes on until the server is ready again.
pub struct CommandResponse {
    error: Option<String>,
}

pub open spec fn opt_text(e: Option<String>) -> Option<Seq<char>> {
    match e {
        Some(s) => Some(s@),
        None => None,
    }
}

impl CommandResponse {
    pub closed spec fn error(&self) -> Option<Seq<char>> {
        opt_text(self.error)
    }

    pub fn new() -> (r: CommandResponse)
        ensures
            r.error() is None,
    {
        CommandResponse { error: None }
    }

    /// Takes one message; true once the server is ready for the next request.
    pub fn on_message(&mut self, msg: BackendMessage) -> (done: bool)
        ensures
            (final(self).error(), done) == command_step(old(self).error(), msg@),
    {
        match msg {
            BackendMessage::ErrorResponse { message } => {
                self.error = Some(error_message(&message));
                false
            },
            BackendMessage::ReadyForQuery { status: _ } => true,
            _ => false,
        }
    }

    /// The outcome: the captured server error, if any.
    pub fn finish(self) -> (r: Result<(), Error>)
        ensures
            match self.error() {
                Some(t) => r matches Err(Error::Protocol(s)) && s@ == t,
                None => r is Ok,
            },
    {
        match self.error {
            Some(s) => Err(Error::Protocol(s)),
            None => Ok(()),
        }
    }
}

/// A row as plain values: its column descriptors and its column values.
pub open spec fn row_view(r: Row) -> (Seq<FieldSpec>, Seq<Option<Seq<u8>>>) {
    (fields_of(r.columns@), values_view(r.data@))
}

pub open spec fn rows_view(rs: Seq<Row>) -> Seq<(Seq<FieldSpec>, Seq<Option<Seq<u8>>>)> {
    rs.map_values(|r: Row| row_view(r))
}

/// The state of a row query as plain values: the current column descriptors,
/// the rows so far, and the error captured so far.
pub type QueryState = (Seq<FieldSpec>, Seq<(Seq<FieldSpec>, Seq<Option<Seq<u8>>>)>, Option<Seq<char>>);

/// One step of the row-query protocol, and whether the exchange is over.
pub open spec fn query_step(s: QueryState, m: MessageSpec) -> (QueryState, bool) {
    match m {
        MessageSpec::RowDescription(fs) => ((fs, s.1, s.2), false),
        MessageSpec::DataRow(vs) => ((s.0, s.1.push((s.0, vs)), s.2), false),
        MessageSpec::ErrorResponse(first) => ((s.0, s.1, Some(error_text(first))), false),
        MessageSpec::ReadyForQuery(_) => (s, true),
        _ => (s, false),
    }
}

/// The state of a row query after the given messages, from a fresh start.
pub open spec fn query_state_after(msgs: Seq<MessageSpec>) -> QueryState
    decreases msgs.len(),
{
    if msgs.len() == 0 {
        (Seq::empty(), Seq::empty(), None)
    } else {
        query_step(query_state_after(msgs.drop_last()), msgs.last()).0
    }
}

/// A connection stays usable after a failed simple command. The command's
/// exchange ends exactly at its ReadyForQuery, reporting the error; a row
/// query sent next starts from a fresh state, and when the server answers it
/// with a row description, one data row and ReadyForQuery, the query ends at
/// that ReadyForQuery with exactly that one row and no error.
pub proof fn lemma_failed_command_then_query(
    cmd: Seq<MessageSpec>,
    e: int,
    fs: Seq<FieldSpec>,
    vs: Seq<Option<Seq<u8>>>,
    status: u8,
)
    requires
        0 <= e < cmd.len() - 1,
        cmd[e] is ErrorResponse,
        cmd.last() is ReadyForQuery,
        forall|j: int| 0 <= j < cmd.len() - 1 ==> !(#[trigger] cmd[j] is ReadyForQuery),
    ensures
        forall|j: int| 0 <= j < cmd.len() - 1 ==> !(#[trigger] command_step(command_error_after(cmd.subrange(0, j)), cmd[j]).1),
        command_step(command_error_after(cmd.drop_last()), cmd.last()).1,
        command_step(command_error_after(cmd.drop_last()), cmd.last()).0 is Some,
        ({
            let q = seq![MessageSpec::RowDescription(fs), MessageSpec::DataRow(vs), MessageSpec::ReadyForQuery(status)];
            &&& !query_step(query_state_after(q.subrange(0, 0)), q[0]).1
            &&& !query_step(query_state_after(q.subrange(0, 1)), q[1]).1
            &&& query_step(query_state_after(q.subrange(0, 2)), q[2]).1
            &&& query_step(query_state_after(q.subrange(0, 2)), q[2]).0 == (fs, seq![(fs, vs)], None::<Seq<char>>)
        }),
{
    let k = cmd.len() - 1;
    lemma_command_error_drains(cmd, e, k);
    assert(cmd.subrange(0, k) =~= cmd.drop_last());
    let q = seq![MessageSpec::RowDescription(fs), MessageSpec::DataRow(vs), MessageSpec::ReadyForQuery(status)];
    assert(q.subrange(0, 0) =~= Seq::<MessageSpec>::empty());
    assert(q.subrange(0, 1).drop_last() =~= q.subrange(0, 0));
    assert(q.subrange(0, 2).drop_last() =~= q.subrange(0, 1));
    assert(Seq::<(Seq<FieldSpec>, Seq<Option<Seq<u8>>>)>::empty().push((fs, vs)) =~= seq![(fs, vs)]);
}

/// Collects the response to a row query.
pub struct QueryResponse {
    columns: Arc<Vec<Column>>,
    rows: Vec<Row>,
    error: Option<String>,
}

impl QueryResponse {
    pub closed spec fn state(&self) -> QueryState {
        (fields_of(self.columns@), rows_view(self.rows@), opt_text(self.error))
    }

    pub fn new() -> (r: QueryResponse)
        ensures
            r.state() == (Seq::<FieldSpec>::empty(), Seq::<(Seq<FieldSpec>, Seq<Option<Seq<u8>>>)>::empty(), None::<Seq<char>>),
    {
        let r = QueryResponse { columns: Arc::new(Vec::new()), rows: Vec::new(), error: None };
        assert(fields_of(r.columns@) =~= Seq::<FieldSpec>::empty());
        assert(rows_view(r.rows@) =~= Seq::<(Seq<FieldSpec>, Seq<Option<Seq<u8>>>)>::empty());
        r
    }

    /// Takes one message; true once the server is ready for the next request.
    pub fn on_message(&mut self, msg: BackendMessage) -> (done: bool)
        ensures
            (final(self).state(), done) == query_step(old(self).state(), msg@),
    {
        match msg {
            BackendMessage::RowDescription { columns } => {
                self.columns = Arc::new(columns);
                false
            },
            BackendMessage::DataRow { values } => {
                let ghost before = self.rows@;
                let row = Row { columns: self.columns.clone(), data: values };
                self.rows.push(row);
                assert(rows_view(self.rows@) =~= rows_view(before).push(row_view(row)));
                false
            },
            BackendMessage::ErrorResponse { message } => {
                self.error = Some(error_message(&message));
                false
            },
            BackendMessage::ReadyForQuery { status: _ } => true,
            _ => false,
        }
    }

    /// The outcome: the captured server error if there is one, else the rows.
    pub fn finish(self) -> (r: Result<Vec<Row>, Error>)
        ensures
            match self.state().2 {
                Some(t) => r matches Err(Error::Protocol(s)) && s@ == t,
                None => r matches Ok(rows) && rows_view(rows@) == self.state().1,
            },
    {
        match self.error {
            Some(s) => Err(Error::Protocol(s)),
            None => Ok(self.rows),
        }
    }
}

} // verus!
