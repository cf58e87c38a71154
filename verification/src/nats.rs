use vstd::prelude::*;
use crate::text::{chars_of, decimal, decimal_chars, string_from_chars};

verus! {

/// Whether a character is an ASCII decimal digit.
pub open spec fn is_digit(c: char) -> bool {
    '0' <= c && c <= '9'
}

/// The number written by a sequence of decimal digits (0 for none).
pub open spec fn digits_value(s: Seq<char>) -> nat
    decreases s.len(),
{
    if s.len() == 0 {
        0
    } else {
        digits_value(s.drop_last()) * 10 + ((s.last() as u32) - ('0' as u32)) as nat
    }
}

/// The digits of a port number as `u16::from_str` reads them: an optional `+`, then at least
/// one digit.
pub open spec fn port_digits(s: Seq<char>) -> Seq<char> {
    if s.len() > 0 && s[0] == '+' {
        s.drop_first()
    } else {
        s
    }
}

/// What `u16::from_str` gives for a text: the number, when the text is an optional `+` followed
/// by decimal digits whose value fits in 16 bits.
pub open spec fn parse_u16(s: Seq<char>) -> Option<u16> {
    let d = port_digits(s);
    if d.len() > 0 && (forall|i: int| 0 <= i < d.len() ==> is_digit(#[trigger] d[i]))
        && digits_value(d) <= 65535 {
        Some(digits_value(d) as u16)
    } else {
        None
    }
}

/// The value of the digits, capped just above the 16-bit range.
pub open spec fn capped_value(s: Seq<char>) -> nat {
    if digits_value(s) > 65535 {
        65536
    } else {
        digits_value(s)
    }
}

/// Reads a port number the way `u16::from_str` does.
pub fn parse_port(text: &str) -> (r: Option<u16>)
    ensures
        r == parse_u16(text@),
{
    let chars = chars_of(text);
    let n = chars.len();
    let mut i: usize = 0;
    if n > 0 && chars[0] == '+' {
        i = 1;
    }
    let start = i;
    let ghost d = port_digits(text@);
    assert(d =~= chars@.skip(start as int));
    if start == n {
        return None;
    }
    let mut acc: u32 = 0;
    while i < n
        invariant
            start <= i <= n,
            chars@ == text@,
            n == chars@.len(),
            d =~= chars@.skip(start as int),
            d == port_digits(text@),
            forall|j: int| 0 <= j < i - start ==> is_digit(#[trigger] d[j]),
            acc == capped_value(d.take(i - start)),
        decreases n - i,
    {
        let c = chars[i];
        if !('0' <= c && c <= '9') {
            proof {
                let k = i - start;
                assert(d[k] == c);
                assert(!is_digit(d[k]));
                assert(port_digits(text@) == d);
            }
            return None;
        }
        let dv: u32 = (c as u32) - ('0' as u32);
        proof {
            let k = i - start;
            assert(d.take(k + 1).drop_last() =~= d.take(k));
            assert(d.take(k + 1).last() == c);
            assert(digits_value(d.take(k + 1)) == digits_value(d.take(k)) * 10 + dv);
        }
        if acc > 65535 {
            acc = 65536;
        } else {
            let next = acc * 10 + dv;
            if next > 65535 {
                acc = 65536;
            } else {
                acc = next;
            }
        }
        i = i + 1;
    }
    assert(d.take(n - start) =~= d);
    if acc > 65535 {
        None
    } else {
        Some(acc as u16)
    }
}

/// Settings for reaching a NATS server.
pub struct ConnectionConfig {
    host: Option<String>,
    port: Option<u16>,
    token: Option<String>,
}

/// The model of a [`ConnectionConfig`].
pub struct ConnectionConfigView {
    pub host: Option<Seq<char>>,
    pub port: Option<u16>,
    pub token: Option<Seq<char>>,
}

/// The model of an optional string.
pub open spec fn opt_text(o: Option<String>) -> Option<Seq<char>> {
    match o {
        Some(s) => Some(s@),
        None => None,
    }
}

impl View for ConnectionConfig {
    type V = ConnectionConfigView;

    closed spec fn view(&self) -> ConnectionConfigView {
        ConnectionConfigView {
            host: opt_text(self.host),
            port: self.port,
            token: opt_text(self.token),
        }
    }
}

/// The host used when none is configured.
pub open spec fn default_host() -> Seq<char> {
    "172.18.0.1"@
}

/// The port text used when none is configured.
pub open spec fn default_port_text() -> Seq<char> {
    "4222"@
}

/// The token used when none is configured.
pub open spec fn default_token() -> Seq<char> {
    "replaceme"@
}

/// The text `host:port`.
pub open spec fn connection_text(host: Seq<char>, port: u16) -> Seq<char> {
    host + seq![':'] + decimal(port as nat)
}

fn clone_text(o: &Option<String>) -> (r: Option<String>)
    ensures
        opt_text(r) == opt_text(*o),
{
    match o {
        Some(s) => Some(s.clone()),
        None => None,
    }
}

impl ConnectionConfig {
    /// The configuration read from settings: each value that is not given falls back to its
    /// default (host `172.18.0.1`, port `4222`, token `replaceme`). `None` when the port text
    /// is not a 16-bit number.
    pub fn from_settings(host: Option<String>, port: Option<String>, token: Option<String>) -> (r:
        Option<ConnectionConfig>)
        ensures
            ({
                let port_text = match port {
                    Some(p) => p@,
                    None => default_port_text(),
                };
                match parse_u16(port_text) {
                    None => r is None,
                    Some(p) => r is Some && r->0@ == (ConnectionConfigView {
                        host: Some(
                            match host {
                                Some(h) => h@,
                                None => default_host(),
                            },
                        ),
                        port: Some(p),
                        token: Some(
                            match token {
                                Some(t) => t@,
                                None => default_token(),
                            },
                        ),
                    }),
                }
            }),
    {
        let host = match host {
            Some(h) => h,
            None => {
                "172.18.0.1".to_owned()
            },
        };
        let port_text = match port {
            Some(p) => p,
            None => {
                "4222".to_owned()
            },
        };
        let token = match token {
            Some(t) => t,
            None => {
                "replaceme".to_owned()
            },
        };
        match parse_port(port_text.as_str()) {
            Some(p) => Some(ConnectionConfig { host: Some(host), port: Some(p), token: Some(token) }),
            None => None,
        }
    }

    /// The configuration with the host replaced.
    pub fn host(self, host: String) -> (r: Self)
        ensures
            r@ == (ConnectionConfigView { host: Some(host@), ..self@ }),
    {
        let mut s = self;
        s.host = Some(host);
        s
    }

    /// The configuration with the port replaced.
    pub fn port(self, port: u16) -> (r: Self)
        ensures
            r@ == (ConnectionConfigView { port: Some(port), ..self@ }),
    {
        let mut s = self;
        s.port = Some(port);
        s
    }

    /// The configuration with the token replaced.
    pub fn token(self, token: String) -> (r: Self)
        ensures
            r@ == (ConnectionConfigView { token: Some(token@), ..self@ }),
    {
        let mut s = self;
        s.token = Some(token);
        s
    }

    /// The configured token, if any.
    pub fn get_token(&self) -> (r: Option<String>)
        ensures
            opt_text(r) == self@.token,
    {
        clone_text(&self.token)
    }

    /// The address `host:port` of the server; both must be configured.
    pub fn into_connection_string(self) -> (r: String)
        requires
            self@.host is Some,
            self@.port is Some,
        ensures
            r@ == connection_text(self@.host->0, self@.port->0),
    {
        let host = match self.host {
            Some(h) => h,
            None => {
                assert(false);
                String::new()
            },
        };
        let port = match self.port {
            Some(p) => p,
            None => 0,
        };
        let mut chars = chars_of(host.as_str());
        chars.push(':');
        let mut digits = decimal_chars(port as u64);
        chars.append(&mut digits);
        string_from_chars(&chars)
    }
}

/// Errors of the request/reply layer over NATS.
#[derive(Debug, Clone, Copy, PartialEq, Eq, Structural)]
pub enum NatsError {
    MalformedRequest,
    InternalSerializationError,
    ReplySubjectSubscribeError,
    PublishError,
    PublishTimeout,
}

/// The name of an error's variant, which is how it is displayed.
pub open spec fn nats_error_name(e: NatsError) -> Seq<char> {
    match e {
        NatsError::MalformedRequest => "MalformedRequest"@,
        NatsError::InternalSerializationError => "InternalSerializationError"@,
        NatsError::ReplySubjectSubscribeError => "ReplySubjectSubscribeError"@,
        NatsError::PublishError => "PublishError"@,
        NatsError::PublishTimeout => "PublishTimeout"@,
    }
}

impl NatsError {
    /// The displayed form of the error: the name of its variant.
    pub fn to_string(&self) -> (r: String)
        ensures
            r@ == nats_error_name(*self),
    {
        match self {
            NatsError::MalformedRequest => {
                "MalformedRequest".to_owned()
            },
            NatsError::InternalSerializationError => {
                "InternalSerializationError".to_owned()
            },
            NatsError::ReplySubjectSubscribeError => {
                "ReplySubjectSubscribeError".to_owned()
            },
            NatsError::PublishError => {
                "PublishError".to_owned()
            },
            NatsError::PublishTimeout => {
                "PublishTimeout".to_owned()
            },
        }
    }
}

/// How far the shutdown of the request handlers has gone: whether it was asked for, and
/// whether the draining of the connection has begun.
#[derive(Debug, Clone, Copy, PartialEq, Eq, Structural)]
pub struct ShutdownState {
    pub should_shut_down: bool,
    pub has_begun_shutdown: bool,
}

impl ShutdownState {
    /// Running, no shutdown asked for.
    pub fn new() -> (r: ShutdownState)
        ensures
            r == (ShutdownState { should_shut_down: false, has_begun_shutdown: false }),
    {
        ShutdownState { should_shut_down: false, has_begun_shutdown: false }
    }

    /// A shutdown signal arrived: shutting down, the draining not yet begun.
    pub fn signal(&mut self)
        ensures
            *final(self) == (ShutdownState { should_shut_down: true, has_begun_shutdown: false }),
    {
        self.should_shut_down = true;
        self.has_begun_shutdown = false;
    }

    /// A handler looks at the state before taking messages: it must drain the connection when
    /// a shutdown was asked for and draining has not been recorded as done. Looking changes
    /// nothing; a handler that drains records it with [`ShutdownState::drain_done`] afterwards,
    /// so handlers that look while another one drains drain as well.
    pub fn poll(&self) -> (drain_now: bool)
        ensures
            drain_now == (self.should_shut_down && !self.has_begun_shutdown),
    {
        self.should_shut_down && !self.has_begun_shutdown
    }

    /// A handler finished draining the connection: shutting down, the draining done.
    pub fn drain_done(&mut self)
        ensures
            *final(self) == (ShutdownState { should_shut_down: true, has_begun_shutdown: true }),
    {
        self.should_shut_down = true;
        self.has_begun_shutdown = true;
    }

    /// Whether a handler stops after the messages at hand: once a shutdown was asked for.
    pub fn handler_done(&self) -> (r: bool)
        ensures
            r == self.should_shut_down,
    {
        self.should_shut_down
    }
}

/// The outcome of a request: an error when subscribing to the reply subject failed, when
/// publishing the request failed, or when no reply came in time; otherwise the reply.
pub open spec fn rpc_result(subscribed: bool, published: bool, reply: Option<Seq<u8>>) -> Result<Seq<u8>, NatsError> {
    if !subscribed {
        Err(NatsError::ReplySubjectSubscribeError)
    } else if !published {
        Err(NatsError::PublishError)
    } else {
        match reply {
            None => Err(NatsError::PublishTimeout),
            Some(r) => Ok(r),
        }
    }
}

/// Decides the outcome of a request from what happened on the connection.
pub fn rpc_outcome(subscribed: bool, published: bool, reply: Option<Vec<u8>>) -> (r: Result<Vec<u8>, NatsError>)
    ensures
        match (r, rpc_result(subscribed, published, match reply { Some(v) => Some(v@), None => None })) {
            (Ok(a), Ok(b)) => a@ == b,
            (Err(a), Err(b)) => a == b,
            _ => false,
        },
{
    if !subscribed {
        return Err(NatsError::ReplySubjectSubscribeError);
    }
    if !published {
        return Err(NatsError::PublishError);
    }
    match reply {
        None => Err(NatsError::PublishTimeout),
        Some(r) => Ok(r),
    }
}

/// The reply a request handler sends: the response, or, for an error, its encoding marked by
/// the `error` header.
pub struct Reply {
    pub payload: Vec<u8>,
    pub error_header: bool,
}

/// The reply to a request, from the handler's result and the encoding of an error.
pub fn reply_for(result: Result<Vec<u8>, NatsError>, encoded_error: Vec<u8>) -> (r: Reply)
    ensures
        match result {
            Ok(p) => r.payload@ == p@ && !r.error_header,
            Err(_) => r.payload@ == encoded_error@ && r.error_header,
        },
{
    match result {
        Ok(p) => Reply { payload: p, error_header: false },
        Err(_) => Reply { payload: encoded_error, error_header: true },
    }
}

} // verus!
