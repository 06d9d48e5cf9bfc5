use vstd::prelude::*;
use crate::frame::framed;
use crate::hub::WebSocketUsers;
use crate::message::{create_ping, msgpack_of, ping_message};
use crate::query::{query_param, query_value};
use crate::registry::{RegistryOp, apply_op};

verus! {

/// Milliseconds between two keep-alive pings.
pub const PING_MS: u64 = 15000;

/// The timer token of the keep-alive ping.
pub const PING: usize = 1;

/// The byte that ends a negotiation message.
pub const RECORD_SEPARATOR: u8 = 0x1e;

/// The query parameter that carries the access token.
pub const ACCESS_TOKEN_KEY: &'static str = "access_token";

/// The query parameter that carries the client's connection id.
pub const ID_KEY: &'static str = "id";

/// The acknowledgement of a successful negotiation: `{`, `}`, record separator.
pub open spec fn initial_response_bytes() -> Seq<u8> {
    seq![0x7bu8, 0x7du8, 0x1eu8]
}

/// The bytes sent once a client has negotiated the MessagePack protocol.
pub fn initial_response() -> (r: Vec<u8>)
    ensures
        r@ == initial_response_bytes(),
{
    let r = vec![0x7bu8, 0x7du8, RECORD_SEPARATOR];
    assert(r@ =~= initial_response_bytes());
    r
}

/// Where a connection is in its life.
#[derive(Clone, Copy, Debug, PartialEq, Eq, Structural)]
pub enum SessionState {
    Connecting,
    Negotiating,
    Active,
    Closed,
}

/// Why a connection is refused or ended.
#[derive(Clone, Copy, Debug, PartialEq, Eq, Structural)]
pub enum HandlerError {
    /// The request lacks the access token or the connection id.
    MissingParameter,
    /// The access token did not verify.
    InvalidToken,
    /// A timer fired with a token that no timer was armed with.
    InvalidTimeout,
}

/// What the client sends in the query of its request.
pub struct HandshakeQuery {
    pub access_token: String,
    pub id: String,
}

/// The access token and the connection id of a request resource; an error
/// where either is missing.
pub fn parse_handshake(resource: &str) -> (r: Result<HandshakeQuery, HandlerError>)
    ensures
        match r {
            Ok(q) => query_param(resource@, ACCESS_TOKEN_KEY@) == Some(q.access_token@)
                && query_param(resource@, ID_KEY@) == Some(q.id@),
            Err(e) => e == HandlerError::MissingParameter && (query_param(
                resource@,
                ACCESS_TOKEN_KEY@,
            ) is None || query_param(resource@, ID_KEY@) is None),
        },
{
    let access_token = match query_value(resource, ACCESS_TOKEN_KEY) {
        Some(t) => t,
        None => return Err(HandlerError::MissingParameter),
    };
    let id = match query_value(resource, ID_KEY) {
        Some(i) => i,
        None => return Err(HandlerError::MissingParameter),
    };
    Ok(HandshakeQuery { access_token, id })
}

/// The body of a negotiation message: the text before the closing record
/// separator, or `None` where the text does not end with one.
pub open spec fn negotiation_body_of(text: Seq<char>) -> Option<Seq<char>> {
    if text.len() > 0 && text.last() == '\u{1e}' {
        Some(text.drop_last())
    } else {
        None
    }
}

/// Strips the record separator that ends a negotiation message.
pub fn negotiation_body(text: &str) -> (r: Option<String>)
    ensures
        match r {
            Some(b) => negotiation_body_of(text@) == Some(b@),
            None => negotiation_body_of(text@) is None,
        },
{
    let len = text.unicode_len();
    if len == 0 || text.get_char(len - 1) != '\u{1e}' {
        return None;
    }
    let body = text.substring_char(0, len - 1);
    assert(body@ =~= text@.drop_last());
    Some(body.to_string())
}

/// The client asks for the protocol this hub speaks: MessagePack, version 1.
pub open spec fn accepts(protocol: Seq<char>, version: int) -> bool {
    protocol == "messagepack"@ && version == 1
}

/// What to send in answer to a client message.
#[derive(Clone, Copy, Debug, PartialEq, Eq, Structural)]
pub enum Reply {
    /// Send the negotiation acknowledgement.
    Acknowledge,
    /// Send the message back unchanged.
    Echo,
}

/// One connection's handler: its id, the user it was opened for, its state.
pub struct WSHandler {
    pub conn: u64,
    pub user_uuid: Option<String>,
    pub state: SessionState,
}

impl WSHandler {
    /// The handler of a connection whose transport handshake is under way.
    pub fn new(conn: u64) -> (r: WSHandler)
        ensures
            r.conn == conn,
            r.user_uuid is None,
            r.state == SessionState::Connecting,
    {
        WSHandler { conn, user_uuid: None, state: SessionState::Connecting }
    }

    /// The transport handshake is done. `verified_user` is the user the
    /// request's access token verified for, `None` where it did not. On success
    /// the connection is registered for that user, negotiation starts, and the
    /// keep-alive timer is to be armed with `PING_MS` and `PING`; on failure
    /// the connection is closed without ever being registered.
    pub fn on_open(&mut self, users: &mut WebSocketUsers, verified_user: Option<String>) -> (r:
        Result<(), HandlerError>)
        requires
            old(self).state == SessionState::Connecting,
            old(users).registry.wf(),
        ensures
            final(users).registry.wf(),
            final(self).conn == old(self).conn,
            match verified_user {
                Some(u) => {
                    &&& r is Ok
                    &&& final(self).state == SessionState::Negotiating
                    &&& final(self).user_uuid == Some(u)
                    &&& final(users).registry@ == apply_op(
                        old(users).registry@,
                        RegistryOp::Register(u@, old(self).conn),
                    )
                },
                None => {
                    &&& r == Err::<(), HandlerError>(HandlerError::InvalidToken)
                    &&& final(self).state == SessionState::Closed
                    &&& final(self).user_uuid is None
                    &&& final(users).registry@ == old(users).registry@
                },
            },
    {
        match verified_user {
            Some(u) => {
                users.registry.register(&u, self.conn);
                self.user_uuid = Some(u);
                self.state = SessionState::Negotiating;
                Ok(())
            },
            None => {
                self.user_uuid = None;
                self.state = SessionState::Closed;
                Err(HandlerError::InvalidToken)
            },
        }
    }

    /// A message came in. `negotiation` is the protocol and version that it
    /// names where it is a negotiation message, `None` otherwise. A request for
    /// MessagePack version 1 is acknowledged; anything else is echoed. A
    /// negotiating connection is then active; a connection that is not open
    /// stays as it is.
    pub fn on_message(&mut self, negotiation: Option<(String, i64)>) -> (r: Reply)
        ensures
            final(self).state == if old(self).state == SessionState::Negotiating {
                SessionState::Active
            } else {
                old(self).state
            },
            final(self).conn == old(self).conn,
            final(self).user_uuid == old(self).user_uuid,
            r == (match negotiation {
                Some((p, v)) => if accepts(p@, v as int) {
                    Reply::Acknowledge
                } else {
                    Reply::Echo
                },
                None => Reply::Echo,
            }),
    {
        if self.state == SessionState::Negotiating {
            self.state = SessionState::Active;
        }
        match negotiation {
            Some((p, v)) => {
                let expected = "messagepack".to_string();
                if p == expected && v == 1 {
                    Reply::Acknowledge
                } else {
                    Reply::Echo
                }
            },
            None => Reply::Echo,
        }
    }

    /// A timer fired. The keep-alive token gives the ping frame to send, after
    /// which the timer is armed again; any other token is an error that closes
    /// the connection.
    pub fn on_timeout(&mut self, users: &mut WebSocketUsers, token: usize) -> (r: Result<
        Vec<u8>,
        HandlerError,
    >)
        requires
            old(users).registry.wf(),
        ensures
            final(users).registry.wf(),
            token == PING ==> {
                &&& r matches Ok(f) && f@ == framed(msgpack_of(ping_message()))
                &&& *final(self) == *old(self)
                &&& final(users).registry@ == old(users).registry@
            },
            token != PING ==> {
                &&& r == Err::<Vec<u8>, HandlerError>(HandlerError::InvalidTimeout)
                &&& closed_after(*old(self), *final(self), old(users).registry@, final(users).registry@)
            },
    {
        if token == PING {
            Ok(create_ping())
        } else {
            self.on_close(users);
            Err(HandlerError::InvalidTimeout)
        }
    }

    /// The connection closed. A registered connection is deregistered; closing
    /// a closed handler changes nothing.
    pub fn on_close(&mut self, users: &mut WebSocketUsers)
        requires
            old(users).registry.wf(),
        ensures
            final(users).registry.wf(),
            closed_after(*old(self), *final(self), old(users).registry@, final(users).registry@),
    {
        if self.state != SessionState::Closed {
            match &self.user_uuid {
                Some(u) => users.registry.deregister(u, self.conn),
                None => {},
            }
            self.state = SessionState::Closed;
        }
    }
}

/// The handler went from `h0` to the closed `h1`, and the registry from `m0`
/// to `m1`: an open handler's registration is withdrawn, a closed one leaves
/// everything as it was.
pub open spec fn closed_after(
    h0: WSHandler,
    h1: WSHandler,
    m0: Map<Seq<char>, Seq<u64>>,
    m1: Map<Seq<char>, Seq<u64>>,
) -> bool {
    &&& h1.state == SessionState::Closed
    &&& h1.conn == h0.conn
    &&& h1.user_uuid == h0.user_uuid
    &&& m1 == if h0.state != SessionState::Closed && h0.user_uuid is Some {
        apply_op(m0, RegistryOp::Deregister(h0.user_uuid->Some_0@, h0.conn))
    } else {
        m0
    }
}

} // verus!
