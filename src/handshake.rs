//! The startup and authentication state machine. Each server message goes in;
//! out comes the frame to send, if any, and whether the server is ready.
use vstd::prelude::*;
use vstd::utf8::{decode_utf8, encode_utf8, encode_utf8_decode_utf8, is_ascii_chars, is_ascii_chars_encode_utf8, valid_utf8};
use crate::auth::{
    ScramClient, first_bare, hex_chars, md5_encrypt, md5_response, scram_reply, server_final_accepted,
    verify_server_final,
};
use crate::error::{Error, auth_error, protocol_error};
use crate::frontend::{
    password_frame, password_message, pairs_view, sasl_initial_frame, sasl_initial_response,
    sasl_response, sasl_response_frame, startup_frame, startup_message,
};
use crate::params::{SessionParameters, pairs_map, pairs_view as params_view, unique_names};
use crate::message::{BackendMessage, MessageSpec, error_message, error_text, utf8_string};

verus! {

/// What the driver of the handshake does next.
pub enum HandshakeAction {
    /// Send this frame, then read the next message.
    Send(Vec<u8>),
    /// Read the next message.
    Wait,
    /// The server is ready for queries: the connection is established.
    Ready,
}

/// The state of one connection attempt.
pub struct Handshake {
    user: String,
    password: Option<String>,
    database: Option<String>,
    scram: Option<ScramClient>,
    server_signature: Option<[u8; 32]>,
    server_verified: bool,
    authenticated: bool,
    parameters: SessionParameters,
}

pub open spec fn opt_chars(s: Option<String>) -> Option<Seq<char>> {
    match s {
        Some(x) => Some(x@),
        None => None,
    }
}

/// `user`, `database`, `client_encoding` and `UTF8`, as bytes.
pub open spec fn user_key() -> Seq<u8> {
    seq![0x75u8, 0x73, 0x65, 0x72]
}

pub open spec fn database_key() -> Seq<u8> {
    seq![0x64u8, 0x61, 0x74, 0x61, 0x62, 0x61, 0x73, 0x65]
}

pub open spec fn client_encoding_key() -> Seq<u8> {
    seq![0x63u8, 0x6c, 0x69, 0x65, 0x6e, 0x74, 0x5f, 0x65, 0x6e, 0x63, 0x6f, 0x64, 0x69, 0x6e, 0x67]
}

pub open spec fn utf8_name() -> Seq<u8> {
    seq![0x55u8, 0x54, 0x46, 0x38]
}

/// The startup parameters: the user, the database if one is given, and the
/// client encoding, always UTF-8.
pub open spec fn startup_params(user: Seq<char>, database: Option<Seq<char>>) -> Seq<(Seq<u8>, Seq<u8>)> {
    match database {
        Some(d) => seq![(user_key(), encode_utf8(user)), (database_key(), encode_utf8(d)), (client_encoding_key(), utf8_name())],
        None => seq![(user_key(), encode_utf8(user)), (client_encoding_key(), utf8_name())],
    }
}

/// The name of the only SASL mechanism the client offers.
pub open spec fn scram_mechanism() -> Seq<u8> {
    seq![0x53u8, 0x43, 0x52, 0x41, 0x4d, 0x2d, 0x53, 0x48, 0x41, 0x2d, 0x32, 0x35, 0x36]
}

/// The mechanism list of a SASL request names SCRAM-SHA-256 as one of its
/// NUL-terminated entries, starting at `i`.
pub open spec fn names_scram_at(m: Seq<u8>, i: int) -> bool {
    &&& 0 <= i
    &&& i + 14 <= m.len()
    &&& (i == 0 || m[i - 1] == 0)
    &&& m.subrange(i, i + 14) == scram_mechanism().push(0)
}

pub open spec fn offers_scram(m: Seq<u8>) -> bool {
    exists|i: int| names_scram_at(m, i)
}

/// Whether the server's mechanism list offers SCRAM-SHA-256.
fn offers_scram_sha256(m: &[u8]) -> (r: bool)
    ensures
        r == offers_scram(m@),
{
    let want: Vec<u8> = vec![0x53u8, 0x43, 0x52, 0x41, 0x4d, 0x2d, 0x53, 0x48, 0x41, 0x2d, 0x32, 0x35, 0x36, 0];
    assert(want@ =~= scram_mechanism().push(0));
    let mut i: usize = 0;
    while i < m.len() && m.len() - i >= 14
        invariant
            i <= m@.len(),
            want@ == scram_mechanism().push(0),
            forall|j: int| 0 <= j < i ==> !#[trigger] names_scram_at(m@, j),
        decreases m@.len() - i,
    {
        if i == 0 || m[i - 1] == 0 {
            let mut k: usize = 0;
            let end: usize = i + 14;
            while k < 14 && m[i + k] == want[k]
                invariant
                    k <= 14,
                    end == i + 14,
                    i + 14 <= m@.len(),
                    want@.len() == 14,
                    forall|t: int| 0 <= t < k ==> m@[i + t] == want@[t],
                decreases 14 - k,
            {
                k = k + 1;
            }
            if k == 14 {
                assert(m@.subrange(i as int, i + 14) =~= want@);
                assert(names_scram_at(m@, i as int));
                return true;
            }
            assert(m@.subrange(i as int, i + 14)[k as int] != want@[k as int]);
        }
        i = i + 1;
    }
    assert(forall|j: int| !names_scram_at(m@, j));
    false
}

pub open spec fn sent(r: Result<HandshakeAction, Error>, f: Option<Seq<u8>>) -> bool {
    match f {
        Some(b) => r matches Ok(HandshakeAction::Send(v)) && v@ == b,
        None => r matches Err(Error::Protocol(_)),
    }
}

/// ASCII text encodes to its character codes.
pub proof fn lemma_ascii_bytes(cs: Seq<char>, bs: Seq<u8>)
    requires
        cs.len() == bs.len(),
        is_ascii_chars(cs),
        forall|i: int| 0 <= i < cs.len() ==> cs[i] as u8 == bs[i],
    ensures
        encode_utf8(cs) == bs,
{
    is_ascii_chars_encode_utf8(cs);
    assert(encode_utf8(cs) =~= bs);
}

impl Handshake {
    pub closed spec fn user_name(&self) -> Seq<char> {
        self.user@
    }

    pub closed spec fn password_text(&self) -> Option<Seq<char>> {
        opt_chars(self.password)
    }

    pub closed spec fn database_name(&self) -> Option<Seq<char>> {
        opt_chars(self.database)
    }

    pub closed spec fn scram_client(&self) -> Option<ScramClient> {
        self.scram
    }

    pub closed spec fn expected_signature(&self) -> Option<Seq<u8>> {
        match self.server_signature {
            Some(s) => Some(s@),
            None => None,
        }
    }

    /// The server-final message of the SCRAM exchange carried the expected signature.
    pub closed spec fn server_verified(&self) -> bool {
        self.server_verified
    }

    /// The server reported AuthenticationOk.
    pub closed spec fn authenticated(&self) -> bool {
        self.authenticated
    }

    /// The session parameters reported so far: each name with its last value.
    pub closed spec fn parameters(&self) -> Map<Seq<char>, Seq<char>> {
        self.parameters.map()
    }

    /// Every part of the state reads the same in both.
    pub open spec fn unchanged(&self, other: &Handshake) -> bool {
        &&& self.user_name() == other.user_name()
        &&& self.password_text() == other.password_text()
        &&& self.database_name() == other.database_name()
        &&& self.scram_client() == other.scram_client()
        &&& self.expected_signature() == other.expected_signature()
        &&& self.server_verified() == other.server_verified()
        &&& self.authenticated() == other.authenticated()
        &&& self.parameters() == other.parameters()
    }

    pub fn new(user: &str, password: Option<&str>, database: Option<&str>) -> (r: Handshake)
        ensures
            r.user_name() == user@,
            r.password_text() == (match password { Some(p) => Some(p@), None => None::<Seq<char>> }),
            r.database_name() == (match database { Some(d) => Some(d@), None => None::<Seq<char>> }),
            r.scram_client() is None,
            r.expected_signature() is None,
            !r.server_verified(),
            !r.authenticated(),
            r.parameters() == Map::<Seq<char>, Seq<char>>::empty(),
    {
        let password = match password {
            Some(p) => Some(p.to_owned()),
            None => None,
        };
        let database = match database {
            Some(d) => Some(d.to_owned()),
            None => None,
        };
        let r = Handshake {
            user: user.to_owned(),
            password,
            database,
            scram: None,
            server_signature: None,
            server_verified: false,
            authenticated: false,
            parameters: SessionParameters::new(),
        };
        r
    }

    /// The session parameters reported so far: no name occurs twice, and each
    /// holds the last value reported for it.
    pub fn session_parameters(&self) -> (r: &Vec<(String, String)>)
        ensures
            unique_names(params_view(r@)),
            pairs_map(params_view(r@)) == self.parameters(),
    {
        self.parameters.entries()
    }

    /// The startup frame, sent once before anything else.
    pub fn startup(&self) -> (r: Result<Vec<u8>, Error>)
        ensures
            match startup_frame(startup_params(self.user_name(), self.database_name())) {
                Some(f) => r matches Ok(v) && v@ == f,
                None => r matches Err(Error::Protocol(_)),
            },
    {
        proof {
            reveal_strlit("user");
            reveal_strlit("database");
            reveal_strlit("client_encoding");
            reveal_strlit("UTF8");
        }
        let mut params: Vec<(String, String)> = Vec::new();
        params.push(("user".to_owned(), self.user.clone()));
        match &self.database {
            Some(d) => params.push(("database".to_owned(), d.clone())),
            None => {},
        }
        params.push(("client_encoding".to_owned(), "UTF8".to_owned()));
        proof {
            let ps = pairs_view(params@);
            let want = startup_params(self.user_name(), self.database_name());
            lemma_ascii_bytes("user"@, user_key());
            lemma_ascii_bytes("database"@, database_key());
            lemma_ascii_bytes("client_encoding"@, client_encoding_key());
            lemma_ascii_bytes("UTF8"@, utf8_name());
            assert(ps =~= want);
        }
        match startup_message(&params) {
            Some(f) => Ok(f),
            None => Err(protocol_error("startup message cannot be encoded")),
        }
    }

    /// Handles one server message of the authentication phase.
    pub fn on_message(&mut self, msg: BackendMessage) -> (r: Result<HandshakeAction, Error>)
        ensures
            final(self).user_name() == old(self).user_name(),
            final(self).password_text() == old(self).password_text(),
            final(self).database_name() == old(self).database_name(),
            match msg@ {
                MessageSpec::AuthenticationOk => if old(self).scram_client() is Some && !old(self).server_verified() {
                    r matches Err(Error::Authentication(_))
                } else {
                    &&& r matches Ok(HandshakeAction::Wait)
                    &&& final(self).authenticated()
                    &&& final(self).scram_client() == old(self).scram_client()
                    &&& final(self).expected_signature() == old(self).expected_signature()
                    &&& final(self).server_verified() == old(self).server_verified()
                    &&& final(self).parameters() == old(self).parameters()
                },
                MessageSpec::AuthenticationCleartextPassword => match old(self).password_text() {
                    None => r matches Err(Error::Authentication(_)),
                    Some(p) => sent(r, password_frame(encode_utf8(p))) && final(self).unchanged(old(self)),
                },
                MessageSpec::AuthenticationMd5Password(salt) => match old(self).password_text() {
                    None => r matches Err(Error::Authentication(_)),
                    Some(p) => sent(
                        r,
                        password_frame(encode_utf8(md5_response(encode_utf8(old(self).user_name()), encode_utf8(p), salt))),
                    ) && final(self).unchanged(old(self)),
                },
                MessageSpec::AuthenticationSasl(mechanisms) => if !offers_scram(mechanisms) {
                    (r matches Err(Error::Authentication(_))) && final(self).unchanged(old(self))
                } else {
                    let c = final(self).scram_client()->0;
                    &&& final(self).scram_client() is Some
                    &&& exists|n: Seq<u8>| n.len() == 16 && c.bare() == first_bare(old(self).user_name(), #[trigger] hex_chars(n))
                    &&& c.password() == (match old(self).password_text() { Some(p) => p, None => Seq::<char>::empty() })
                    &&& final(self).expected_signature() is None
                    &&& !final(self).server_verified()
                    &&& final(self).authenticated() == old(self).authenticated()
                    &&& final(self).parameters() == old(self).parameters()
                    &&& sent(r, sasl_initial_frame(scram_mechanism(), encode_utf8(seq!['n', ',', ','] + c.bare())))
                },
                MessageSpec::AuthenticationSaslContinue(data) => match old(self).scram_client() {
                    None => r matches Err(Error::Authentication(_)),
                    Some(c) => if !valid_utf8(data) {
                        r matches Err(Error::Authentication(_))
                    } else {
                        match scram_reply(c.bare(), c.password(), decode_utf8(data)) {
                            None => r matches Err(Error::Authentication(_)),
                            Some((reply, sig)) => {
                                &&& sent(r, sasl_response_frame(encode_utf8(reply)))
                                &&& r is Ok ==> final(self).expected_signature() == Some(sig)
                                    && !final(self).server_verified()
                                    && final(self).authenticated() == old(self).authenticated()
                                    && final(self).scram_client() == old(self).scram_client()
                                    && final(self).parameters() == old(self).parameters()
                            },
                        }
                    },
                },
                MessageSpec::AuthenticationSaslFinal(data) => match old(self).expected_signature() {
                    None => r matches Err(Error::Authentication(_)),
                    Some(sig) => if server_final_accepted(data, sig) {
                        &&& r matches Ok(HandshakeAction::Wait)
                        &&& final(self).server_verified()
                        &&& final(self).authenticated() == old(self).authenticated()
                        &&& final(self).scram_client() == old(self).scram_client()
                        &&& final(self).expected_signature() == old(self).expected_signature()
                        &&& final(self).parameters() == old(self).parameters()
                    } else {
                        r matches Err(Error::Authentication(_))
                    },
                },
                MessageSpec::ErrorResponse(first) => r matches Err(Error::Authentication(t)) && t@ == error_text(first),
                MessageSpec::ParameterStatus(name, value) => if valid_utf8(name) && valid_utf8(value) {
                    &&& r matches Ok(HandshakeAction::Wait)
                    &&& final(self).parameters() == old(self).parameters().insert(decode_utf8(name), decode_utf8(value))
                    &&& final(self).scram_client() == old(self).scram_client()
                    &&& final(self).expected_signature() == old(self).expected_signature()
                    &&& final(self).server_verified() == old(self).server_verified()
                    &&& final(self).authenticated() == old(self).authenticated()
                } else {
                    r matches Err(Error::Protocol(_))
                },
                MessageSpec::ReadyForQuery(_) => if old(self).authenticated() {
                    (r matches Ok(HandshakeAction::Ready)) && final(self).unchanged(old(self))
                } else {
                    r matches Err(Error::Protocol(_))
                },
                _ => (r matches Ok(HandshakeAction::Wait)) && final(self).unchanged(old(self)),
            },
    {
        match msg {
            BackendMessage::AuthenticationOk => {
                if self.scram.is_some() && !self.server_verified {
                    return Err(auth_error("the server did not prove its identity"));
                }
                self.authenticated = true;
                Ok(HandshakeAction::Wait)
            },
            BackendMessage::AuthenticationCleartextPassword => {
                match &self.password {
                    None => Err(auth_error("password required")),
                    Some(p) => match password_message(p.as_str().as_bytes()) {
                        Some(f) => Ok(HandshakeAction::Send(f)),
                        None => Err(protocol_error("password cannot be encoded")),
                    },
                }
            },
            BackendMessage::AuthenticationMd5Password { salt } => {
                match &self.password {
                    None => Err(auth_error("password required")),
                    Some(p) => {
                        let hashed = md5_encrypt(self.user.as_str(), p.as_str(), salt.as_slice());
                        match password_message(hashed.as_str().as_bytes()) {
                            Some(f) => Ok(HandshakeAction::Send(f)),
                            None => Err(protocol_error("password cannot be encoded")),
                        }
                    },
                }
            },
            BackendMessage::AuthenticationSasl { mechanisms } => {
                if !offers_scram_sha256(mechanisms.as_slice()) {
                    return Err(auth_error("the server offers no supported SASL mechanism"));
                }
                let client = match &self.password {
                    Some(p) => ScramClient::new(self.user.as_str(), p.as_str()),
                    None => {
                        proof {
                            reveal_strlit("");
                        }
                        ScramClient::new(self.user.as_str(), "")
                    },
                };
                let first = client.client_first_message();
                proof {
                    reveal_strlit("SCRAM-SHA-256");
                    lemma_ascii_bytes("SCRAM-SHA-256"@, scram_mechanism());
                }
                let frame = sasl_initial_response("SCRAM-SHA-256", first.as_str().as_bytes());
                self.scram = Some(client);
                self.server_signature = None;
                self.server_verified = false;
                match frame {
                    Some(f) => Ok(HandshakeAction::Send(f)),
                    None => Err(protocol_error("SASL response cannot be encoded")),
                }
            },
            BackendMessage::AuthenticationSaslContinue { data } => {
                let text = match utf8_string(data) {
                    Some(t) => t,
                    None => {
                        if self.scram.is_none() {
                            return Err(auth_error("SCRAM state missing"));
                        }
                        return Err(auth_error("server-first message is not UTF-8"));
                    },
                };
                proof {
                    encode_utf8_decode_utf8(text@);
                }
                let reply = match &self.scram {
                    None => return Err(auth_error("SCRAM state missing")),
                    Some(c) => c.handle_server_first_message(text.as_str()),
                };
                match reply {
                    Err(e) => Err(e),
                    Ok((message, sig)) => match sasl_response(message.as_str().as_bytes()) {
                        Some(f) => {
                            self.server_signature = Some(sig);
                            self.server_verified = false;
                            Ok(HandshakeAction::Send(f))
                        },
                        None => Err(protocol_error("SASL response cannot be encoded")),
                    },
                }
            },
            BackendMessage::AuthenticationSaslFinal { data } => {
                match &self.server_signature {
                    None => Err(auth_error("SCRAM state missing")),
                    Some(sig) => match verify_server_final(data.as_slice(), sig) {
                        Ok(()) => {
                            self.server_verified = true;
                            Ok(HandshakeAction::Wait)
                        },
                        Err(e) => Err(e),
                    },
                }
            },
            BackendMessage::ErrorResponse { message } => Err(Error::Authentication(error_message(&message))),
            BackendMessage::ParameterStatus { name, value } => {
                let name = match utf8_string(name) {
                    Some(t) => t,
                    None => return Err(protocol_error("parameter name is not UTF-8")),
                };
                let value = match utf8_string(value) {
                    Some(t) => t,
                    None => return Err(protocol_error("parameter value is not UTF-8")),
                };
                proof {
                    encode_utf8_decode_utf8(name@);
                    encode_utf8_decode_utf8(value@);
                }
                self.parameters.insert(name, value);
                Ok(HandshakeAction::Wait)
            },
            BackendMessage::ReadyForQuery { status: _ } => {
                if self.authenticated {
                    Ok(HandshakeAction::Ready)
                } else {
                    Err(protocol_error("the server was ready before authentication succeeded"))
                }
            },
            _ => Ok(HandshakeAction::Wait),
        }
    }
}

} // verus!
