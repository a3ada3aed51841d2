//! Backend messages: the typed payload of one frame, and its parser.
use vstd::prelude::*;
use vstd::slice::{slice_subrange, slice_to_vec};
use vstd::utf8::{decode_utf8, encode_utf8, valid_utf8};
use crate::client::{Column, FieldSpec, fields_of};
use crate::error::{Error, protocol_error};

verus! {

pub open spec fn be_u16(b: Seq<u8>, i: int) -> int {
    b[i] as int * 256 + b[i + 1] as int
}

pub open spec fn be_u32(b: Seq<u8>, i: int) -> int {
    b[i] as int * 16777216 + b[i + 1] as int * 65536 + b[i + 2] as int * 256 + b[i + 3] as int
}

pub open spec fn signed16(u: int) -> int {
    if u >= 0x8000 { u - 0x10000 } else { u }
}

pub open spec fn signed32(u: int) -> int {
    if u >= 0x8000_0000 { u - 0x1_0000_0000 } else { u }
}

/// The index of the first zero byte at or after `i`, or the length if there is none.
pub open spec fn zero_from(b: Seq<u8>, i: int) -> int
    decreases b.len() - i,
{
    if i < 0 || i >= b.len() {
        b.len() as int
    } else if b[i] == 0 {
        i
    } else {
        zero_from(b, i + 1)
    }
}

/// A NUL-terminated string starting at `i`, and the position after its terminator.
pub open spec fn cstr_at(b: Seq<u8>, i: int) -> Option<(Seq<u8>, int)> {
    let z = zero_from(b, i);
    if 0 <= i && z < b.len() {
        Some((b.subrange(i, z), z + 1))
    } else {
        None
    }
}

pub proof fn lemma_zero_from_bounds(b: Seq<u8>, i: int)
    requires
        0 <= i <= b.len(),
    ensures
        i <= zero_from(b, i) <= b.len(),
        zero_from(b, i) < b.len() ==> b[zero_from(b, i)] == 0,
    decreases b.len() - i,
{
    if i < b.len() && b[i] != 0 {
        lemma_zero_from_bounds(b, i + 1);
    }
}

/// One column descriptor of a RowDescription at `pos`.
pub open spec fn field_at(b: Seq<u8>, pos: int) -> Option<(FieldSpec, int)> {
    match cstr_at(b, pos) {
        None => None,
        Some((name, p)) => if p + 18 <= b.len() {
            Some(
                (
                    (
                        name,
                        be_u32(b, p) as u32,
                        signed16(be_u16(b, p + 4)) as i16,
                        be_u32(b, p + 6) as u32,
                        signed16(be_u16(b, p + 10)) as i16,
                        signed32(be_u32(b, p + 12)) as i32,
                        signed16(be_u16(b, p + 16)) as i16,
                    ),
                    p + 18,
                ),
            )
        } else {
            None
        },
    }
}

/// `n` column descriptors from `pos` that fill the body exactly.
pub open spec fn fields_from(b: Seq<u8>, pos: int, n: nat) -> Option<Seq<FieldSpec>>
    decreases n,
{
    if n == 0 {
        if pos == b.len() { Some(Seq::empty()) } else { None }
    } else {
        match field_at(b, pos) {
            None => None,
            Some((f, p)) => match fields_from(b, p, (n - 1) as nat) {
                None => None,
                Some(rest) => Some(seq![f] + rest),
            },
        }
    }
}

/// One column value of a DataRow at `pos`: a negative length marks SQL NULL.
pub open spec fn value_at(b: Seq<u8>, pos: int) -> Option<(Option<Seq<u8>>, int)> {
    if 0 <= pos && pos + 4 <= b.len() {
        let l = signed32(be_u32(b, pos));
        if l < 0 {
            Some((None, pos + 4))
        } else if pos + 4 + l <= b.len() {
            Some((Some(b.subrange(pos + 4, pos + 4 + l)), pos + 4 + l))
        } else {
            None
        }
    } else {
        None
    }
}

/// `n` column values from `pos` that fill the body exactly.
pub open spec fn values_from(b: Seq<u8>, pos: int, n: nat) -> Option<Seq<Option<Seq<u8>>>>
    decreases n,
{
    if n == 0 {
        if pos == b.len() { Some(Seq::empty()) } else { None }
    } else {
        match value_at(b, pos) {
            None => None,
            Some((v, p)) => match values_from(b, p, (n - 1) as nat) {
                None => None,
                Some(rest) => Some(seq![v] + rest),
            },
        }
    }
}


/// What a backend message says, over plain values.
pub enum MessageSpec {
    AuthenticationOk,
    AuthenticationCleartextPassword,
    AuthenticationMd5Password(Seq<u8>),
    AuthenticationSasl(Seq<u8>),
    AuthenticationSaslContinue(Seq<u8>),
    AuthenticationSaslFinal(Seq<u8>),
    AuthenticationOther(i32),
    BackendKeyData(i32, i32),
    ParameterStatus(Seq<u8>, Seq<u8>),
    ReadyForQuery(u8),
    RowDescription(Seq<FieldSpec>),
    DataRow(Seq<Option<Seq<u8>>>),
    CommandComplete(Seq<u8>),
    ErrorResponse(Option<Seq<u8>>),
    ParseComplete,
    BindComplete,
    Other(u8),
}

/// The message kinds that the client acts on, and `Other` for the kinds that it
/// knows and ignores on purpose (notices, copy data, empty responses and the like).
pub enum BackendMessage {
    AuthenticationOk,
    AuthenticationCleartextPassword,
    AuthenticationMd5Password { salt: Vec<u8> },
    AuthenticationSasl { mechanisms: Vec<u8> },
    AuthenticationSaslContinue { data: Vec<u8> },
    AuthenticationSaslFinal { data: Vec<u8> },
    AuthenticationOther { code: i32 },
    BackendKeyData { process_id: i32, secret_key: i32 },
    ParameterStatus { name: Vec<u8>, value: Vec<u8> },
    ReadyForQuery { status: u8 },
    RowDescription { columns: Vec<Column> },
    DataRow { values: Vec<Option<Vec<u8>>> },
    CommandComplete { command: Vec<u8> },
    ErrorResponse { message: Option<Vec<u8>> },
    ParseComplete,
    BindComplete,
    Other { tag: u8 },
}

pub open spec fn opt_bytes(v: Option<Vec<u8>>) -> Option<Seq<u8>> {
    match v {
        Some(x) => Some(x@),
        None => None,
    }
}

pub open spec fn values_view(vs: Seq<Option<Vec<u8>>>) -> Seq<Option<Seq<u8>>> {
    vs.map_values(|v: Option<Vec<u8>>| opt_bytes(v))
}

impl View for BackendMessage {
    type V = MessageSpec;

    open spec fn view(&self) -> MessageSpec {
        match self {
            BackendMessage::AuthenticationOk => MessageSpec::AuthenticationOk,
            BackendMessage::AuthenticationCleartextPassword => MessageSpec::AuthenticationCleartextPassword,
            BackendMessage::AuthenticationMd5Password { salt } => MessageSpec::AuthenticationMd5Password(salt@),
            BackendMessage::AuthenticationSasl { mechanisms } => MessageSpec::AuthenticationSasl(mechanisms@),
            BackendMessage::AuthenticationSaslContinue { data } => MessageSpec::AuthenticationSaslContinue(data@),
            BackendMessage::AuthenticationSaslFinal { data } => MessageSpec::AuthenticationSaslFinal(data@),
            BackendMessage::AuthenticationOther { code } => MessageSpec::AuthenticationOther(*code),
            BackendMessage::BackendKeyData { process_id, secret_key } => MessageSpec::BackendKeyData(*process_id, *secret_key),
            BackendMessage::ParameterStatus { name, value } => MessageSpec::ParameterStatus(name@, value@),
            BackendMessage::ReadyForQuery { status } => MessageSpec::ReadyForQuery(*status),
            BackendMessage::RowDescription { columns } => MessageSpec::RowDescription(fields_of(columns@)),
            BackendMessage::DataRow { values } => MessageSpec::DataRow(values_view(values@)),
            BackendMessage::CommandComplete { command } => MessageSpec::CommandComplete(command@),
            BackendMessage::ErrorResponse { message } => MessageSpec::ErrorResponse(opt_bytes(*message)),
            BackendMessage::ParseComplete => MessageSpec::ParseComplete,
            BackendMessage::BindComplete => MessageSpec::BindComplete,
            BackendMessage::Other { tag } => MessageSpec::Other(*tag),
        }
    }
}

/// Tags of backend messages that are well known and carry nothing the client uses.
pub open spec fn ignored_tag(tag: u8) -> bool {
    tag == 0x33 /* '3' */ || tag == 0x41 /* 'A' */ || tag == 0x63 /* 'c' */ || tag == 0x64 /* 'd' */
        || tag == 0x47 /* 'G' */ || tag == 0x48 /* 'H' */ || tag == 0x49 /* 'I' */ || tag == 0x6e /* 'n' */
        || tag == 0x4e /* 'N' */ || tag == 0x73 /* 's' */ || tag == 0x74 /* 't' */
}

/// The layout that each ignored kind must still have: no body for
/// CloseComplete, CopyDone, EmptyQueryResponse, NoData and PortalSuspended;
/// process id and two C strings for a notification; format and column count for
/// the copy responses; a parameter count for ParameterDescription; anything for
/// copy data and notices.
pub open spec fn ignored_body_ok(tag: u8, b: Seq<u8>) -> bool {
    if tag == 0x33 || tag == 0x63 || tag == 0x49 || tag == 0x6e || tag == 0x73 {
        b.len() == 0
    } else if tag == 0x41 {
        b.len() >= 4 && match cstr_at(b, 4) {
            Some((_, p)) => match cstr_at(b, p) {
                Some((_, q)) => q == b.len(),
                None => false,
            },
            None => false,
        }
    } else if tag == 0x47 || tag == 0x48 {
        b.len() >= 3
    } else if tag == 0x74 {
        b.len() >= 2
    } else {
        true
    }
}

pub open spec fn parse_auth_spec(b: Seq<u8>) -> Option<MessageSpec> {
    if b.len() < 4 {
        None
    } else {
        let code = signed32(be_u32(b, 0));
        if code == 0 && b.len() == 4 {
            Some(MessageSpec::AuthenticationOk)
        } else if code == 3 && b.len() == 4 {
            Some(MessageSpec::AuthenticationCleartextPassword)
        } else if code == 5 && b.len() == 8 {
            Some(MessageSpec::AuthenticationMd5Password(b.subrange(4, 8)))
        } else if code == 10 {
            Some(MessageSpec::AuthenticationSasl(b.subrange(4, b.len() as int)))
        } else if code == 11 {
            Some(MessageSpec::AuthenticationSaslContinue(b.subrange(4, b.len() as int)))
        } else if code == 12 {
            Some(MessageSpec::AuthenticationSaslFinal(b.subrange(4, b.len() as int)))
        } else if code == 8 || ((code == 2 || code == 6 || code == 7 || code == 9) && b.len() == 4) {
            Some(MessageSpec::AuthenticationOther(code as i32))
        } else {
            None
        }
    }
}

pub open spec fn parse_error_spec(b: Seq<u8>) -> Option<MessageSpec> {
    if b.len() == 0 {
        None
    } else if b[0] == 0 {
        if b.len() == 1 { Some(MessageSpec::ErrorResponse(None)) } else { None }
    } else {
        match cstr_at(b, 1) {
            Some((v, _)) => Some(MessageSpec::ErrorResponse(Some(v))),
            None => None,
        }
    }
}

pub open spec fn names_valid(fs: Seq<FieldSpec>) -> bool {
    forall|i: int| 0 <= i < fs.len() ==> valid_utf8(#[trigger] fs[i].0)
}

/// The message that a frame with this tag and body holds, if the body is well formed.
pub open spec fn parse_spec(tag: u8, b: Seq<u8>) -> Option<MessageSpec> {
    if tag == 0x52 /* 'R' */ {
        parse_auth_spec(b)
    } else if tag == 0x53 /* 'S' */ {
        match cstr_at(b, 0) {
            Some((n, p)) => match cstr_at(b, p) {
                Some((v, q)) => if q == b.len() { Some(MessageSpec::ParameterStatus(n, v)) } else { None },
                None => None,
            },
            None => None,
        }
    } else if tag == 0x4b /* 'K' */ {
        if b.len() == 8 {
            Some(MessageSpec::BackendKeyData(signed32(be_u32(b, 0)) as i32, signed32(be_u32(b, 4)) as i32))
        } else {
            None
        }
    } else if tag == 0x5a /* 'Z' */ {
        if b.len() == 1 { Some(MessageSpec::ReadyForQuery(b[0])) } else { None }
    } else if tag == 0x54 /* 'T' */ {
        if b.len() < 2 {
            None
        } else {
            match fields_from(b, 2, be_u16(b, 0) as nat) {
                Some(fs) => if names_valid(fs) { Some(MessageSpec::RowDescription(fs)) } else { None },
                None => None,
            }
        }
    } else if tag == 0x44 /* 'D' */ {
        if b.len() < 2 {
            None
        } else {
            match values_from(b, 2, be_u16(b, 0) as nat) {
                Some(vs) => Some(MessageSpec::DataRow(vs)),
                None => None,
            }
        }
    } else if tag == 0x43 /* 'C' */ {
        match cstr_at(b, 0) {
            Some((t, p)) => if p == b.len() { Some(MessageSpec::CommandComplete(t)) } else { None },
            None => None,
        }
    } else if tag == 0x45 /* 'E' */ {
        parse_error_spec(b)
    } else if tag == 0x31 /* '1' */ {
        if b.len() == 0 { Some(MessageSpec::ParseComplete) } else { None }
    } else if tag == 0x32 /* '2' */ {
        if b.len() == 0 { Some(MessageSpec::BindComplete) } else { None }
    } else if ignored_tag(tag) && ignored_body_ok(tag, b) {
        Some(MessageSpec::Other(tag))
    } else {
        None
    }
}

/// The text that `String::from_utf8_lossy` makes of a byte string.
pub uninterp spec fn lossy_text_of(bytes: Seq<u8>) -> Seq<char>;

/// Relies on `String::from_utf8_lossy`: invalid sequences become U+FFFD, and
/// valid UTF-8 is decoded as it is.
#[verifier::external_body]
fn lossy_string(bytes: &[u8]) -> (r: String)
    ensures
        r@ == lossy_text_of(bytes@),
        valid_utf8(bytes@) ==> r@ == decode_utf8(bytes@),
{
    String::from_utf8_lossy(bytes).into_owned()
}

/// The text of a server error: its first field, or a generic reason when it has none.
pub open spec fn error_text(first: Option<Seq<u8>>) -> Seq<char> {
    match first {
        Some(b) => lossy_text_of(b),
        None => seq!['U', 'n', 'k', 'n', 'o', 'w', 'n', ' ', 'e', 'r', 'r', 'o', 'r'],
    }
}

/// The text of a server error, from the first field of an ErrorResponse.
pub fn error_message(first: &Option<Vec<u8>>) -> (r: String)
    ensures
        r@ == error_text(opt_bytes(*first)),
{
    match first {
        Some(b) => lossy_string(b.as_slice()),
        None => {
            proof {
                reveal_strlit("Unknown error");
            }
            "Unknown error".to_owned()
        },
    }
}

/// Relies on `String::from_utf8`: it succeeds exactly on valid UTF-8, and the
/// string then holds those bytes.
#[verifier::external_body]
pub(crate) fn utf8_string(bytes: Vec<u8>) -> (r: Option<String>)
    ensures
        r is Some <==> valid_utf8(bytes@),
        r matches Some(s) ==> encode_utf8(s@) == bytes@,
{
    String::from_utf8(bytes).ok()
}

pub fn read_u16(b: &[u8], i: usize) -> (r: u16)
    requires
        i + 2 <= b@.len(),
    ensures
        r as int == be_u16(b@, i as int),
{
    (b[i] as u16) * 256 + (b[i + 1] as u16)
}

pub fn read_u32(b: &[u8], i: usize) -> (r: u32)
    requires
        i + 4 <= b@.len(),
    ensures
        r as int == be_u32(b@, i as int),
{
    (b[i] as u32) * 16777216 + (b[i + 1] as u32) * 65536 + (b[i + 2] as u32) * 256 + (b[i
        + 3] as u32)
}

pub fn read_i16(b: &[u8], i: usize) -> (r: i16)
    requires
        i + 2 <= b@.len(),
    ensures
        r as int == signed16(be_u16(b@, i as int)),
{
    let u = read_u16(b, i);
    if u >= 0x8000 {
        let d = (u - 0x8000) as i16;
        d - 0x7fff - 1
    } else {
        u as i16
    }
}

pub fn read_i32(b: &[u8], i: usize) -> (r: i32)
    requires
        i + 4 <= b@.len(),
    ensures
        r as int == signed32(be_u32(b@, i as int)),
{
    let u = read_u32(b, i);
    if u >= 0x8000_0000 {
        let d = (u - 0x8000_0000) as i32;
        d - 0x7fff_ffff - 1
    } else {
        u as i32
    }
}

/// Reads the NUL-terminated string at `pos`.
pub fn read_cstr(b: &[u8], pos: usize) -> (r: Option<(Vec<u8>, usize)>)
    requires
        pos <= b@.len(),
    ensures
        match cstr_at(b@, pos as int) {
            Some((s, p)) => r matches Some(x) && x.0@ == s && x.1 as int == p,
            None => r is None,
        },
{
    let mut j: usize = pos;
    while j < b.len() && b[j] != 0
        invariant
            pos <= j <= b@.len(),
            zero_from(b@, pos as int) == zero_from(b@, j as int),
        decreases b@.len() - j,
    {
        j = j + 1;
    }
    if j < b.len() {
        Some((slice_to_vec(slice_subrange(b, pos, j)), j + 1))
    } else {
        None
    }
}

/// Reads one column descriptor at `pos`; the name stays raw bytes.
fn read_field(b: &[u8], pos: usize) -> (r: Option<(Vec<u8>, u32, i16, u32, i16, i32, i16, usize)>)
    requires
        pos <= b@.len(),
    ensures
        match field_at(b@, pos as int) {
            Some((f, p)) => r matches Some(x) && x.0@ == f.0 && x.1 == f.1 && x.2 == f.2
                && x.3 == f.3 && x.4 == f.4 && x.5 == f.5 && x.6 == f.6 && x.7 as int == p,
            None => r is None,
        },
{
    match read_cstr(b, pos) {
        None => None,
        Some((name, p)) => {
            if p <= b.len() && b.len() - p >= 18 {
                Some(
                    (
                        name,
                        read_u32(b, p),
                        read_i16(b, p + 4),
                        read_u32(b, p + 6),
                        read_i16(b, p + 10),
                        read_i32(b, p + 12),
                        read_i16(b, p + 16),
                        p + 18,
                    ),
                )
            } else {
                None
            }
        },
    }
}

/// Reads `n` column descriptors from offset 2 to the end of the body.
fn read_fields(b: &[u8], n: u16) -> (r: Option<Vec<Column>>)
    requires
        2 <= b@.len(),
    ensures
        match fields_from(b@, 2, n as nat) {
            Some(fs) => if names_valid(fs) {
                r matches Some(cs) && fields_of(cs@) == fs
            } else {
                r is None
            },
            None => r is None,
        },
{
    let mut cols: Vec<Column> = Vec::new();
    let mut pos: usize = 2;
    let mut k: u16 = 0;
    while k < n
        invariant
            k <= n,
            2 <= pos <= b@.len(),
            cols@.len() == k,
            names_valid(fields_of(cols@)),
            fields_from(b@, 2, n as nat) == (match fields_from(b@, pos as int, (n - k) as nat) {
                Some(rest) => Some(fields_of(cols@) + rest),
                None => None,
            }),
        decreases n - k,
    {
        let ghost left = fields_from(b@, pos as int, (n - k) as nat);
        match read_field(b, pos) {
            None => {
                return None;
            },
            Some((name, table_oid, column_id, type_oid, type_len, type_mod, format, p)) => {
                proof {
                    lemma_zero_from_bounds(b@, pos as int);
                }
                let ghost fp = field_at(b@, pos as int)->0;
                let ghost f = fp.0;
                match utf8_string(name) {
                    None => {
                        proof {
                            if let Some(rest) = fields_from(b@, p as int, (n - k - 1) as nat) {
                                let all = fields_of(cols@) + (seq![f] + rest);
                                assert(all[k as int] == f);
                                assert(!valid_utf8(all[k as int].0));
                            }
                        }
                        return None;
                    },
                    Some(name) => {
                        let col = Column { name, table_oid, column_id, type_oid, type_len, type_mod, format };
                        let ghost old_cols = cols@;
                        cols.push(col);
                        proof {
                            assert(fields_of(cols@) =~= fields_of(old_cols).push(f));
                            if let Some(rest) = fields_from(b@, p as int, (n - k - 1) as nat) {
                                assert(fields_of(old_cols) + (seq![f] + rest) =~= fields_of(cols@) + rest);
                            }
                        }
                        pos = p;
                        k = k + 1;
                    },
                }
            },
        }
    }
    if pos == b.len() {
        assert(fields_of(cols@) + Seq::empty() =~= fields_of(cols@));
        Some(cols)
    } else {
        None
    }
}

/// Reads one column value at `pos`.
fn read_value(b: &[u8], pos: usize) -> (r: Option<(Option<Vec<u8>>, usize)>)
    requires
        pos <= b@.len(),
    ensures
        match value_at(b@, pos as int) {
            Some((v, p)) => r matches Some(x) && opt_bytes(x.0) == v && x.1 as int == p,
            None => r is None,
        },
{
    if b.len() - pos < 4 {
        return None;
    }
    let l = read_i32(b, pos);
    if l < 0 {
        Some((None, pos + 4))
    } else if (l as usize) <= b.len() - pos - 4 {
        let end = pos + 4 + l as usize;
        Some((Some(slice_to_vec(slice_subrange(b, pos + 4, end))), end))
    } else {
        None
    }
}

/// Reads `n` column values from offset 2 to the end of the body.
fn read_values(b: &[u8], n: u16) -> (r: Option<Vec<Option<Vec<u8>>>>)
    requires
        2 <= b@.len(),
    ensures
        match values_from(b@, 2, n as nat) {
            Some(vs) => r matches Some(xs) && values_view(xs@) == vs,
            None => r is None,
        },
{
    let mut vals: Vec<Option<Vec<u8>>> = Vec::new();
    let mut pos: usize = 2;
    let mut k: u16 = 0;
    while k < n
        invariant
            k <= n,
            2 <= pos <= b@.len(),
            values_from(b@, 2, n as nat) == (match values_from(b@, pos as int, (n - k) as nat) {
                Some(rest) => Some(values_view(vals@) + rest),
                None => None,
            }),
        decreases n - k,
    {
        match read_value(b, pos) {
            None => {
                return None;
            },
            Some((v, p)) => {
                let ghost vv = opt_bytes(v);
                let ghost old_vals = vals@;
                vals.push(v);
                proof {
                    assert(values_view(vals@) =~= values_view(old_vals).push(vv));
                    if let Some(rest) = values_from(b@, p as int, (n - k - 1) as nat) {
                        assert(values_view(old_vals) + (seq![vv] + rest) =~= values_view(vals@) + rest);
                    }
                }
                pos = p;
                k = k + 1;
            },
        }
    }
    if pos == b.len() {
        assert(values_view(vals@) + Seq::empty() =~= values_view(vals@));
        Some(vals)
    } else {
        None
    }
}

fn parse_auth(b: &[u8]) -> (r: Option<BackendMessage>)
    ensures
        match parse_auth_spec(b@) {
            Some(m) => r matches Some(x) && x@ == m,
            None => r is None,
        },
{
    if b.len() < 4 {
        return None;
    }
    let code = read_i32(b, 0);
    let n = b.len();
    if code == 0 && n == 4 {
        Some(BackendMessage::AuthenticationOk)
    } else if code == 3 && n == 4 {
        Some(BackendMessage::AuthenticationCleartextPassword)
    } else if code == 5 && n == 8 {
        Some(BackendMessage::AuthenticationMd5Password { salt: slice_to_vec(slice_subrange(b, 4, 8)) })
    } else if code == 10 {
        Some(BackendMessage::AuthenticationSasl { mechanisms: slice_to_vec(slice_subrange(b, 4, n)) })
    } else if code == 11 {
        Some(BackendMessage::AuthenticationSaslContinue { data: slice_to_vec(slice_subrange(b, 4, n)) })
    } else if code == 12 {
        Some(BackendMessage::AuthenticationSaslFinal { data: slice_to_vec(slice_subrange(b, 4, n)) })
    } else if code == 8 || ((code == 2 || code == 6 || code == 7 || code == 9) && n == 4) {
        Some(BackendMessage::AuthenticationOther { code })
    } else {
        None
    }
}

fn parse_error(b: &[u8]) -> (r: Option<BackendMessage>)
    ensures
        match parse_error_spec(b@) {
            Some(m) => r matches Some(x) && x@ == m,
            None => r is None,
        },
{
    if b.len() == 0 {
        None
    } else if b[0] == 0 {
        if b.len() == 1 {
            Some(BackendMessage::ErrorResponse { message: None })
        } else {
            None
        }
    } else {
        match read_cstr(b, 1) {
            Some((v, _)) => Some(BackendMessage::ErrorResponse { message: Some(v) }),
            None => None,
        }
    }
}

fn is_ignored_tag(tag: u8) -> (r: bool)
    ensures
        r == ignored_tag(tag),
{
    tag == 0x33 || tag == 0x41 || tag == 0x63 || tag == 0x64 || tag == 0x47 || tag == 0x48
        || tag == 0x49 || tag == 0x6e || tag == 0x4e || tag == 0x73 || tag == 0x74
}

fn is_ignored_body_ok(tag: u8, b: &[u8]) -> (r: bool)
    ensures
        r == ignored_body_ok(tag, b@),
{
    if tag == 0x33 || tag == 0x63 || tag == 0x49 || tag == 0x6e || tag == 0x73 {
        b.len() == 0
    } else if tag == 0x41 {
        if b.len() < 4 {
            return false;
        }
        match read_cstr(b, 4) {
            Some((_, p)) => {
                proof {
                    lemma_zero_from_bounds(b@, 4);
                }
                match read_cstr(b, p) {
                    Some((_, q)) => q == b.len(),
                    None => false,
                }
            },
            None => false,
        }
    } else if tag == 0x47 || tag == 0x48 {
        b.len() >= 3
    } else if tag == 0x74 {
        b.len() >= 2
    } else {
        true
    }
}

/// Deserializes the body of a frame with the given tag. A body that does not
/// match its tag's layout exactly, or an unknown tag, is a protocol error.
pub fn parse_message(tag: u8, b: &[u8]) -> (r: Result<BackendMessage, Error>)
    ensures
        match parse_spec(tag, b@) {
            Some(m) => r matches Ok(x) && x@ == m,
            None => r matches Err(Error::Protocol(_)),
        },
{
    let parsed: Option<BackendMessage> = if tag == 0x52 {
        parse_auth(b)
    } else if tag == 0x53 {
        match read_cstr(b, 0) {
            Some((name, p)) => {
                proof {
                    lemma_zero_from_bounds(b@, 0);
                }
                match read_cstr(b, p) {
                    Some((value, q)) => if q == b.len() {
                        Some(BackendMessage::ParameterStatus { name, value })
                    } else {
                        None
                    },
                    None => None,
                }
            },
            None => None,
        }
    } else if tag == 0x4b {
        if b.len() == 8 {
            Some(BackendMessage::BackendKeyData { process_id: read_i32(b, 0), secret_key: read_i32(b, 4) })
        } else {
            None
        }
    } else if tag == 0x5a {
        if b.len() == 1 {
            Some(BackendMessage::ReadyForQuery { status: b[0] })
        } else {
            None
        }
    } else if tag == 0x54 {
        if b.len() < 2 {
            None
        } else {
            match read_fields(b, read_u16(b, 0)) {
                Some(columns) => Some(BackendMessage::RowDescription { columns }),
                None => None,
            }
        }
    } else if tag == 0x44 {
        if b.len() < 2 {
            None
        } else {
            match read_values(b, read_u16(b, 0)) {
                Some(values) => Some(BackendMessage::DataRow { values }),
                None => None,
            }
        }
    } else if tag == 0x43 {
        match read_cstr(b, 0) {
            Some((t, p)) => if p == b.len() {
                Some(BackendMessage::CommandComplete { command: t })
            } else {
                None
            },
            None => None,
        }
    } else if tag == 0x45 {
        parse_error(b)
    } else if tag == 0x31 {
        if b.len() == 0 {
            Some(BackendMessage::ParseComplete)
        } else {
            None
        }
    } else if tag == 0x32 {
        if b.len() == 0 {
            Some(BackendMessage::BindComplete)
        } else {
            None
        }
    } else if is_ignored_tag(tag) && is_ignored_body_ok(tag, b) {
        Some(BackendMessage::Other { tag })
    } else {
        None
    };
    match parsed {
        Some(m) => Ok(m),
        None => Err(protocol_error("malformed backend message")),
    }
}

} // verus!
