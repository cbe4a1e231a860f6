//! A server that is talked to, and the requests that go to it.
use vstd::prelude::*;

use crate::plex::query::{param_views, Param, QueryBuilder};
use crate::text::{chars_of, decimal_nat, encoded, push_decimal_u64, push_encoded};

verus! {

/// Where a server answers.
#[derive(Debug)]
pub struct Origin {
    pub https: bool,
    pub host: String,
    pub port: u16,
}

impl Origin {
    /// The origin as a URL begins.
    pub open spec fn text(&self) -> Seq<char> {
        (if self.https {
            "https://"@
        } else {
            "http://"@
        }) + self.host@ + ":"@ + decimal_nat(self.port as nat)
    }

    /// A plain HTTP origin.
    pub fn http(host: &str, port: u16) -> (r: Origin)
        ensures
            !r.https,
            r.host@ == host@,
            r.port == port,
    {
        Origin { https: false, host: String::from_str(host), port }
    }

    /// The same origin again.
    pub fn copied(&self) -> (r: Origin)
        ensures
            r == *self,
    {
        Origin { https: self.https, host: self.host.clone(), port: self.port }
    }
}

/// A stream's address.
#[derive(Debug)]
pub struct StreamUrl {
    pub origin: Origin,
    pub path: String,
}

impl StreamUrl {
    /// The address as one URL.
    pub fn to_url(&self) -> (r: String)
        ensures
            r@ == self.origin.text() + self.path@,
    {
        let mut out = String::from_str(
            if self.origin.https {
                "https://"
            } else {
                "http://"
            },
        );
        out.append(self.origin.host.as_str());
        out.append(":");
        push_decimal_u64(&mut out, self.origin.port as u64);
        out.append(self.path.as_str());
        out
    }
}

/// How a request is made.
#[derive(Clone, Copy, Debug, PartialEq, Eq, Structural)]
pub enum Method {
    Get,
    Post,
}

/// A request, ready to be sent to the client's origin.
#[derive(Debug)]
pub struct Request {
    pub method: Method,
    /// The path and its query, the token with them.
    pub path: String,
    /// Header lines beyond the usual.
    pub headers: Vec<String>,
}

/// What a client says of itself: the token that authorizes it, and its identity.
pub struct ClientView {
    pub token: Seq<char>,
    pub client_id: Seq<char>,
    pub identity: Seq<(Seq<char>, Seq<char>)>,
}

impl ClientView {
    /// A path with the token added to its query.
    pub open spec fn authorized(self, path: Seq<char>) -> Seq<char> {
        path + (if path.contains('?') {
            "&"@
        } else {
            "?"@
        }) + "X-Plex-Token="@ + encoded(self.token)
    }
}

/// A client of one server.
pub struct Client {
    origin: Origin,
    token: String,
    client_id: String,
    identity: Vec<Param>,
}

impl View for Client {
    type V = ClientView;

    closed spec fn view(&self) -> ClientView {
        ClientView {
            token: self.token@,
            client_id: self.client_id@,
            identity: param_views(self.identity@),
        }
    }
}

impl Client {
    /// The server's origin.
    pub closed spec fn server(&self) -> Origin {
        self.origin
    }

    /// A client that identifies itself by `client_id` alone.
    pub fn new(origin: Origin, token: &str, client_id: &str) -> (r: Client)
        ensures
            r.server() == origin,
            r@.token == token@,
            r@.client_id == client_id@,
            r@.identity == seq![("X-Plex-Client-Identifier"@, client_id@)],
    {
        let mut identity: Vec<Param> = Vec::new();
        identity.push(
            Param {
                key: String::from_str("X-Plex-Client-Identifier"),
                value: String::from_str(client_id),
            },
        );
        let r = Client {
            origin,
            token: String::from_str(token),
            client_id: String::from_str(client_id),
            identity,
        };
        assert(r@.identity =~= seq![("X-Plex-Client-Identifier"@, client_id@)]);
        r
    }

    /// Adds one parameter to what the client says of itself in a playback: its product, its
    /// platform and the like.
    pub fn identified_by(self, key: &str, value: &str) -> (r: Client)
        ensures
            r.server() == self.server(),
            r@ == (ClientView { identity: self@.identity.push((key@, value@)), ..self@ }),
    {
        let mut client = self;
        client.identity.push(
            Param { key: String::from_str(key), value: String::from_str(value) },
        );
        assert(client@.identity =~= self@.identity.push((key@, value@)));
        client
    }

    /// The server's origin, for a URL.
    pub fn origin(&self) -> (r: Origin)
        ensures
            r == self.server(),
    {
        self.origin.copied()
    }

    /// What the client is known by.
    pub fn client_id(&self) -> (r: &str)
        ensures
            r@ == self@.client_id,
    {
        self.client_id.as_str()
    }

    /// Adds what the client says of itself in a playback.
    pub fn playback_identity(&self, q: QueryBuilder) -> (r: QueryBuilder)
        ensures
            r.path() == q.path(),
            r.params() == q.params() + self@.identity,
    {
        q.with_all(&self.identity)
    }

    /// A path with the token added to its query.
    pub fn with_token(&self, path: &str) -> (r: String)
        ensures
            r@ == self@.authorized(path@),
    {
        let chars: Vec<char> = chars_of(path);
        let mut has_query = false;
        let mut i: usize = 0;
        while i < chars.len()
            invariant
                i <= chars@.len(),
                chars@ == path@,
                has_query == path@.take(i as int).contains('?'),
            decreases chars@.len() - i,
        {
            proof {
                let next = path@.take(i + 1);
                assert(next =~= path@.take(i as int).push(path@[i as int]));
                if path@.take(i as int).contains('?') {
                    let j = choose|j: int|
                        0 <= j < i && path@.take(i as int)[j] == '?';
                    assert(next[j] == '?');
                }
                assert(next[i as int] == path@[i as int]);
                if next.contains('?') && next[i as int] != '?' {
                    let j = choose|j: int| 0 <= j < next.len() && next[j] == '?';
                    assert(path@.take(i as int)[j] == '?');
                }
            }
            if chars[i] == '?' {
                has_query = true;
            }
            i = i + 1;
        }
        assert(path@.take(i as int) =~= path@);
        let mut out = String::from_str(path);
        out.append(
            if has_query {
                "&"
            } else {
                "?"
            },
        );
        out.append("X-Plex-Token=");
        push_encoded(&mut out, self.token.as_str());
        out
    }

    /// A GET of this path, authorized.
    pub fn get(&self, path: &str) -> (r: Request)
        ensures
            r.method == Method::Get,
            r.path@ == self@.authorized(path@),
            r.headers@.len() == 0,
    {
        Request { method: Method::Get, path: self.with_token(path), headers: Vec::new() }
    }
}

} // verus!
