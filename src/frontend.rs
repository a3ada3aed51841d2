//! Outbound frames, serialized by postgres-protocol's `frontend` functions.
//! A string that holds a NUL byte cannot be sent, nor a frame whose length does
//! not fit the length field; the serializers then fail, and so do these.
use vstd::prelude::*;
use vstd::utf8::encode_utf8;
use postgres_protocol::message::frontend;

verus! {

/// Four big-endian bytes of a 32-bit value, negative values in two's complement.
pub open spec fn be32(n: int) -> Seq<u8> {
    let u = if n < 0 { n + 0x1_0000_0000 } else { n };
    seq![(u / 0x100_0000 % 256) as u8, (u / 0x1_0000 % 256) as u8, (u / 0x100 % 256) as u8, (u % 256) as u8]
}

/// Two big-endian bytes of a 16-bit value, negative values in two's complement.
pub open spec fn be16(n: int) -> Seq<u8> {
    let u = if n < 0 { n + 0x1_0000 } else { n };
    seq![(u / 0x100 % 256) as u8, (u % 256) as u8]
}

/// A string terminated by a NUL byte.
pub open spec fn cstr(s: Seq<u8>) -> Seq<u8> {
    s.push(0)
}

pub open spec fn has_nul(s: Seq<u8>) -> bool {
    s.contains(0)
}

/// The length field, which counts itself, fits a signed 32-bit integer.
pub open spec fn body_fits(body: Seq<u8>) -> bool {
    body.len() + 4 <= 0x7fff_ffff
}

/// A frame: tag, length, body.
pub open spec fn tagged(tag: u8, body: Seq<u8>) -> Seq<u8> {
    seq![tag] + be32(body.len() + 4int) + body
}

pub open spec fn i16s_bytes(xs: Seq<i16>) -> Seq<u8>
    decreases xs.len(),
{
    if xs.len() == 0 {
        Seq::empty()
    } else {
        i16s_bytes(xs.drop_last()) + be16(xs.last() as int)
    }
}

pub open spec fn u32s_bytes(xs: Seq<u32>) -> Seq<u8>
    decreases xs.len(),
{
    if xs.len() == 0 {
        Seq::empty()
    } else {
        u32s_bytes(xs.drop_last()) + be32(xs.last() as int)
    }
}

pub open spec fn pairs_bytes(ps: Seq<(Seq<u8>, Seq<u8>)>) -> Seq<u8>
    decreases ps.len(),
{
    if ps.len() == 0 {
        Seq::empty()
    } else {
        pairs_bytes(ps.drop_last()) + cstr(ps.last().0) + cstr(ps.last().1)
    }
}

pub open spec fn pairs_have_nul(ps: Seq<(Seq<u8>, Seq<u8>)>) -> bool {
    exists|i: int| 0 <= i < ps.len() && (has_nul(#[trigger] ps[i].0) || has_nul(ps[i].1))
}

pub open spec fn pairs_view(ps: Seq<(String, String)>) -> Seq<(Seq<u8>, Seq<u8>)> {
    ps.map_values(|p: (String, String)| (encode_utf8(p.0@), encode_utf8(p.1@)))
}

/// The startup message body: protocol version 3.0, then each name and value, then a NUL.
pub open spec fn startup_body(ps: Seq<(Seq<u8>, Seq<u8>)>) -> Seq<u8> {
    be32(0x3_0000) + pairs_bytes(ps) + seq![0u8]
}

/// The startup message, which has no tag.
pub open spec fn startup_frame(ps: Seq<(Seq<u8>, Seq<u8>)>) -> Option<Seq<u8>> {
    if pairs_have_nul(ps) || !body_fits(startup_body(ps)) {
        None
    } else {
        Some(be32(startup_body(ps).len() + 4int) + startup_body(ps))
    }
}

/// A frame whose body ends in one C string.
pub open spec fn cstr_frame(tag: u8, prefix: Seq<u8>, s: Seq<u8>) -> Option<Seq<u8>> {
    if has_nul(s) || !body_fits(prefix + cstr(s)) {
        None
    } else {
        Some(tagged(tag, prefix + cstr(s)))
    }
}

pub open spec fn password_frame(password: Seq<u8>) -> Option<Seq<u8>> {
    cstr_frame(0x70 /* 'p' */, Seq::empty(), password)
}

pub open spec fn sasl_initial_body(mechanism: Seq<u8>, data: Seq<u8>) -> Seq<u8> {
    cstr(mechanism) + be32(data.len() as int) + data
}

pub open spec fn sasl_initial_frame(mechanism: Seq<u8>, data: Seq<u8>) -> Option<Seq<u8>> {
    if has_nul(mechanism) || !body_fits(sasl_initial_body(mechanism, data)) {
        None
    } else {
        Some(tagged(0x70 /* 'p' */, sasl_initial_body(mechanism, data)))
    }
}

pub open spec fn sasl_response_frame(data: Seq<u8>) -> Option<Seq<u8>> {
    if !body_fits(data) { None } else { Some(tagged(0x70 /* 'p' */, data)) }
}

pub open spec fn query_frame(sql: Seq<u8>) -> Option<Seq<u8>> {
    cstr_frame(0x51 /* 'Q' */, Seq::empty(), sql)
}

pub open spec fn parse_body(name: Seq<u8>, sql: Seq<u8>, types: Seq<u32>) -> Seq<u8> {
    cstr(name) + cstr(sql) + be16(types.len() as int) + u32s_bytes(types)
}

pub open spec fn parse_frame(name: Seq<u8>, sql: Seq<u8>, types: Seq<u32>) -> Option<Seq<u8>> {
    if has_nul(name) || has_nul(sql) || !body_fits(parse_body(name, sql, types)) {
        None
    } else {
        Some(tagged(0x50 /* 'P' */, parse_body(name, sql, types)))
    }
}

pub open spec fn bind_body(portal: Seq<u8>, statement: Seq<u8>, formats: Seq<i16>, result_formats: Seq<i16>) -> Seq<u8> {
    cstr(portal) + cstr(statement) + be16(formats.len() as int) + i16s_bytes(formats) + be16(0) + be16(
        result_formats.len() as int,
    ) + i16s_bytes(result_formats)
}

pub open spec fn bind_frame(portal: Seq<u8>, statement: Seq<u8>, formats: Seq<i16>, result_formats: Seq<i16>) -> Option<Seq<u8>> {
    if has_nul(portal) || has_nul(statement) || !body_fits(bind_body(portal, statement, formats, result_formats)) {
        None
    } else {
        Some(tagged(0x42 /* 'B' */, bind_body(portal, statement, formats, result_formats)))
    }
}

pub open spec fn describe_frame(variant: u8, name: Seq<u8>) -> Option<Seq<u8>> {
    cstr_frame(0x44 /* 'D' */, seq![variant], name)
}

pub open spec fn execute_frame(portal: Seq<u8>, max_rows: i32) -> Option<Seq<u8>> {
    if has_nul(portal) || !body_fits(cstr(portal) + be32(max_rows as int)) {
        None
    } else {
        Some(tagged(0x45 /* 'E' */, cstr(portal) + be32(max_rows as int)))
    }
}

pub open spec fn sync_frame() -> Seq<u8> {
    tagged(0x53 /* 'S' */, Seq::empty())
}

pub open spec fn frame_matches(r: Option<Vec<u8>>, f: Option<Seq<u8>>) -> bool {
    match f {
        Some(b) => r matches Some(v) && v@ == b,
        None => r is None,
    }
}

/// Relies on `frontend::startup_message`: the length, protocol version 3.0,
/// each name and value as C strings, and a closing NUL.
#[verifier::external_body]
pub(crate) fn startup_message(params: &Vec<(String, String)>) -> (r: Option<Vec<u8>>)
    ensures
        frame_matches(r, startup_frame(pairs_view(params@))),
{
    let mut buf = bytes::BytesMut::new();
    let it = params.iter().map(|p| (p.0.as_str(), p.1.as_str()));
    frontend::startup_message(it, &mut buf).ok().map(|_| buf.to_vec())
}

/// Relies on `frontend::password_message`: tag `p`, the password as a C string.
#[verifier::external_body]
pub(crate) fn password_message(password: &[u8]) -> (r: Option<Vec<u8>>)
    ensures
        frame_matches(r, password_frame(password@)),
{
    let mut buf = bytes::BytesMut::new();
    frontend::password_message(password, &mut buf).ok().map(|_| buf.to_vec())
}

/// Relies on `frontend::sasl_initial_response`: tag `p`, the mechanism name,
/// then the length-prefixed initial response.
#[verifier::external_body]
pub(crate) fn sasl_initial_response(mechanism: &str, data: &[u8]) -> (r: Option<Vec<u8>>)
    ensures
        frame_matches(r, sasl_initial_frame(encode_utf8(mechanism@), data@)),
{
    let mut buf = bytes::BytesMut::new();
    frontend::sasl_initial_response(mechanism, data, &mut buf).ok().map(|_| buf.to_vec())
}

/// Relies on `frontend::sasl_response`: tag `p`, then the data as it is.
#[verifier::external_body]
pub(crate) fn sasl_response(data: &[u8]) -> (r: Option<Vec<u8>>)
    ensures
        frame_matches(r, sasl_response_frame(data@)),
{
    let mut buf = bytes::BytesMut::new();
    frontend::sasl_response(data, &mut buf).ok().map(|_| buf.to_vec())
}

/// Relies on `frontend::query`: tag `Q`, the command text as a C string.
#[verifier::external_body]
pub(crate) fn query_message(sql: &str) -> (r: Option<Vec<u8>>)
    ensures
        frame_matches(r, query_frame(encode_utf8(sql@))),
{
    let mut buf = bytes::BytesMut::new();
    frontend::query(sql, &mut buf).ok().map(|_| buf.to_vec())
}

/// Relies on `frontend::parse`: tag `P`, statement name, query text, then the
/// counted parameter type oids.
#[verifier::external_body]
pub(crate) fn parse_message(name: &str, sql: &str, param_types: &Vec<u32>) -> (r: Option<Vec<u8>>)
    requires
        param_types@.len() <= 0xffff,
    ensures
        frame_matches(r, parse_frame(encode_utf8(name@), encode_utf8(sql@), param_types@)),
{
    let mut buf = bytes::BytesMut::new();
    frontend::parse(name, sql, param_types.iter().copied(), &mut buf).ok().map(|_| buf.to_vec())
}

/// Relies on `frontend::bind` with no parameter values: tag `B`, portal and
/// statement names, the counted parameter formats, a zero value count, and the
/// counted result formats.
#[verifier::external_body]
pub(crate) fn bind_message(portal: &str, statement: &str, formats: &Vec<i16>, result_formats: &Vec<i16>) -> (r: Option<Vec<u8>>)
    requires
        formats@.len() <= 0xffff,
        result_formats@.len() <= 0xffff,
    ensures
        frame_matches(r, bind_frame(encode_utf8(portal@), encode_utf8(statement@), formats@, result_formats@)),
{
    let mut buf = bytes::BytesMut::new();
    let none = std::iter::empty::<()>();
    let never = |_: (), _: &mut bytes::BytesMut| Ok(postgres_protocol::IsNull::Yes);
    let res = frontend::bind(portal, statement, formats.iter().copied(), none, never, result_formats.iter().copied(), &mut buf);
    res.ok().map(|_| buf.to_vec())
}

/// Relies on `frontend::describe`: tag `D`, the variant byte, then the name.
#[verifier::external_body]
pub(crate) fn describe_message(variant: u8, name: &str) -> (r: Option<Vec<u8>>)
    ensures
        frame_matches(r, describe_frame(variant, encode_utf8(name@))),
{
    let mut buf = bytes::BytesMut::new();
    frontend::describe(variant, name, &mut buf).ok().map(|_| buf.to_vec())
}

/// Relies on `frontend::execute`: tag `E`, the portal name, then the row limit.
#[verifier::external_body]
pub(crate) fn execute_message(portal: &str, max_rows: i32) -> (r: Option<Vec<u8>>)
    ensures
        frame_matches(r, execute_frame(encode_utf8(portal@), max_rows)),
{
    let mut buf = bytes::BytesMut::new();
    frontend::execute(portal, max_rows, &mut buf).ok().map(|_| buf.to_vec())
}

/// Relies on `frontend::sync`: tag `S` and an empty body.
#[verifier::external_body]
pub(crate) fn sync_message() -> (r: Vec<u8>)
    ensures
        r@ == sync_frame(),
{
    let mut buf = bytes::BytesMut::new();
    frontend::sync(&mut buf);
    buf.to_vec()
}

} // verus!
