//! The requests the client sends to the OpenCode server: method, address
//! and body of each call of its HTTP interface.
use vstd::prelude::*;
use crate::model::SendMessageRequest;

verus! {

/// An HTTP method.
#[derive(Debug, Clone, Copy, PartialEq, Eq)]
pub enum HttpMethod {
    Get,
    Post,
    Patch,
    Delete,
}

/// What a request carries as its JSON body.
#[derive(Debug, Clone, PartialEq, Eq)]
pub enum RequestBody {
    /// No body.
    Empty,
    /// The empty object `{}`.
    EmptyObject,
    /// `{"title": ...}`.
    Title(String),
    /// `{"messageID": ...}`.
    MessageId(String),
    /// A message to be posted, serialized as it stands.
    Message(SendMessageRequest),
}

/// A request to the server.
#[derive(Debug, Clone, PartialEq, Eq)]
pub struct ApiRequest {
    pub method: HttpMethod,
    pub url: String,
    pub body: RequestBody,
}

/// The client of a server at a base address such as `http://127.0.0.1:4096`.
pub struct ApiClient {
    pub base_url: String,
}

/// The address of session `id` under `base`.
pub open spec fn session_url(base: Seq<char>, id: Seq<char>) -> Seq<char> {
    base + "/session/"@ + id
}

/// `r` is a request with method `m` to address `url` and no body.
pub open spec fn plain_request(r: ApiRequest, m: HttpMethod, url: Seq<char>) -> bool {
    r.method == m && r.url@ == url && r.body is Empty
}

fn concat(a: &str, b: &str) -> (r: String)
    ensures
        r@ == a@ + b@,
{
    let mut r = String::from_str(a);
    r.append(b);
    r
}

fn request(method: HttpMethod, url: String) -> (r: ApiRequest)
    ensures
        plain_request(r, method, url@),
{
    ApiRequest { method, url, body: RequestBody::Empty }
}

impl ApiClient {
    /// A client of the server at `base_url`.
    pub fn new(base_url: String) -> (c: ApiClient)
        ensures
            c.base_url == base_url,
    {
        ApiClient { base_url }
    }

    fn session(&self, session_id: &str) -> (r: String)
        ensures
            r@ == session_url(self.base_url@, session_id@),
    {
        let mut r = concat(self.base_url.as_str(), "/session/");
        r.append(session_id);
        r
    }

    fn session_action(&self, method: HttpMethod, session_id: &str, suffix: &str) -> (r:
        ApiRequest)
        ensures
            plain_request(r, method, session_url(self.base_url@, session_id@) + suffix@),
    {
        let mut url = self.session(session_id);
        url.append(suffix);
        request(method, url)
    }

    /// Lists the sessions: `GET {base}/session`.
    pub fn get_sessions(&self) -> (r: ApiRequest)
        ensures
            plain_request(r, HttpMethod::Get, self.base_url@ + "/session"@),
    {
        request(HttpMethod::Get, concat(self.base_url.as_str(), "/session"))
    }

    /// Creates a session: `POST {base}/session` with body `{}`.
    pub fn create_session(&self) -> (r: ApiRequest)
        ensures
            r.method == HttpMethod::Post,
            r.url@ == self.base_url@ + "/session"@,
            r.body is EmptyObject,
    {
        ApiRequest {
            method: HttpMethod::Post,
            url: concat(self.base_url.as_str(), "/session"),
            body: RequestBody::EmptyObject,
        }
    }

    /// Deletes a session: `DELETE {base}/session/{id}`.
    pub fn delete_session(&self, session_id: &str) -> (r: ApiRequest)
        ensures
            plain_request(r, HttpMethod::Delete, session_url(self.base_url@, session_id@)),
    {
        request(HttpMethod::Delete, self.session(session_id))
    }

    /// Lists the messages of a session: `GET {base}/session/{id}/message`.
    pub fn get_messages(&self, session_id: &str) -> (r: ApiRequest)
        ensures
            plain_request(
                r,
                HttpMethod::Get,
                session_url(self.base_url@, session_id@) + "/message"@,
            ),
    {
        self.session_action(HttpMethod::Get, session_id, "/message")
    }

    /// Posts a message: `POST {base}/session/{id}/message` with the request
    /// as body.
    pub fn send_message(&self, session_id: &str, request: SendMessageRequest) -> (r: ApiRequest)
        ensures
            r.method == HttpMethod::Post,
            r.url@ == session_url(self.base_url@, session_id@) + "/message"@,
            r.body == RequestBody::Message(request),
    {
        let mut url = self.session(session_id);
        url.append("/message");
        ApiRequest { method: HttpMethod::Post, url, body: RequestBody::Message(request) }
    }

    /// Stops the answer being generated: `POST {base}/session/{id}/abort`.
    pub fn abort_generation(&self, session_id: &str) -> (r: ApiRequest)
        ensures
            plain_request(r, HttpMethod::Post, session_url(self.base_url@, session_id@) + "/abort"@),
    {
        self.session_action(HttpMethod::Post, session_id, "/abort")
    }

    /// Renames a session: `PATCH {base}/session/{id}` with body
    /// `{"title": title}`.
    pub fn rename_session(&self, session_id: &str, title: &str) -> (r: ApiRequest)
        ensures
            r.method == HttpMethod::Patch,
            r.url@ == session_url(self.base_url@, session_id@),
            r.body matches RequestBody::Title(t) && t@ == title@,
    {
        ApiRequest {
            method: HttpMethod::Patch,
            url: self.session(session_id),
            body: RequestBody::Title(String::from_str(title)),
        }
    }

    /// Shares a session: `POST {base}/session/{id}/share`.
    pub fn share_session(&self, session_id: &str) -> (r: ApiRequest)
        ensures
            plain_request(r, HttpMethod::Post, session_url(self.base_url@, session_id@) + "/share"@),
    {
        self.session_action(HttpMethod::Post, session_id, "/share")
    }

    /// Stops sharing a session: `DELETE {base}/session/{id}/share`.
    pub fn unshare_session(&self, session_id: &str) -> (r: ApiRequest)
        ensures
            plain_request(
                r,
                HttpMethod::Delete,
                session_url(self.base_url@, session_id@) + "/share"@,
            ),
    {
        self.session_action(HttpMethod::Delete, session_id, "/share")
    }

    /// Summarizes a session: `POST {base}/session/{id}/summarize`.
    pub fn summarize_session(&self, session_id: &str) -> (r: ApiRequest)
        ensures
            plain_request(
                r,
                HttpMethod::Post,
                session_url(self.base_url@, session_id@) + "/summarize"@,
            ),
    {
        self.session_action(HttpMethod::Post, session_id, "/summarize")
    }

    /// Forks a session, from a given message when one is named:
    /// `POST {base}/session/{id}/fork`, with `?messageID={message}` after it
    /// when a message is named.
    pub fn fork_session(&self, session_id: &str, message_id: Option<&str>) -> (r: ApiRequest)
        ensures
            plain_request(
                r,
                HttpMethod::Post,
                session_url(self.base_url@, session_id@) + "/fork"@ + match message_id {
                    Some(m) => "?messageID="@ + m@,
                    None => Seq::empty(),
                },
            ),
    {
        let mut url = self.session(session_id);
        url.append("/fork");
        match message_id {
            Some(m) => {
                url.append("?messageID=");
                url.append(m);
            },
            None => {},
        }
        let r = request(HttpMethod::Post, url);
        proof {
            match message_id {
                Some(m) => assert(r.url@ =~= session_url(self.base_url@, session_id@) + "/fork"@
                    + ("?messageID="@ + m@)),
                None => assert(r.url@ =~= session_url(self.base_url@, session_id@) + "/fork"@
                    + Seq::<char>::empty()),
            }
        }
        r
    }

    /// The providers and their models: `GET {base}/config/providers`.
    pub fn get_config(&self) -> (r: ApiRequest)
        ensures
            plain_request(r, HttpMethod::Get, self.base_url@ + "/config/providers"@),
    {
        request(HttpMethod::Get, concat(self.base_url.as_str(), "/config/providers"))
    }

    /// The agents: `GET {base}/agent`.
    pub fn get_agents(&self) -> (r: ApiRequest)
        ensures
            plain_request(r, HttpMethod::Get, self.base_url@ + "/agent"@),
    {
        request(HttpMethod::Get, concat(self.base_url.as_str(), "/agent"))
    }

    /// Reverts a session to a message: `POST {base}/session/{id}/revert`
    /// with body `{"messageID": message}`.
    pub fn revert_message(&self, session_id: &str, message_id: &str) -> (r: ApiRequest)
        ensures
            r.method == HttpMethod::Post,
            r.url@ == session_url(self.base_url@, session_id@) + "/revert"@,
            r.body matches RequestBody::MessageId(m) && m@ == message_id@,
    {
        let mut url = self.session(session_id);
        url.append("/revert");
        ApiRequest {
            method: HttpMethod::Post,
            url,
            body: RequestBody::MessageId(String::from_str(message_id)),
        }
    }

    /// The stream of server events: `GET {base}/event`.
    pub fn get_event_stream(&self) -> (r: ApiRequest)
        ensures
            plain_request(r, HttpMethod::Get, self.base_url@ + "/event"@),
    {
        request(HttpMethod::Get, concat(self.base_url.as_str(), "/event"))
    }
}

} // verus!
