//! HTTP/REST bridge: its configuration, the cache of signal values that
//! the REST endpoints serve, and the requests sent in client mode.
use vstd::prelude::*;
use crate::bridge::{BridgeConfig, BridgeError};
use crate::message::{Message, PublishMessage, SetMessage, SignalType};
use crate::json::{field, json_document, json_field, parse_json};
use crate::value::{
    dict_get, dict_insert, dict_lookup, dict_put, dict_remove, dict_without, entries_model,
    lemma_dict_find_bounds, lemma_dict_model, ClaspValue, ValueModel,
};

verus! {

/// HTTP request methods.
#[derive(Clone, Copy, PartialEq, Eq, Structural, Debug)]
pub enum HttpMethod {
    GET,
    POST,
    PUT,
    DELETE,
    PATCH,
}

impl Default for HttpMethod {
    /// `GET`.
    fn default() -> (m: Self)
        ensures
            m == HttpMethod::GET,
    {
        HttpMethod::GET
    }
}

/// The name of a method, in capitals.
pub open spec fn method_name(m: HttpMethod) -> Seq<char> {
    match m {
        HttpMethod::GET => "GET"@,
        HttpMethod::POST => "POST"@,
        HttpMethod::PUT => "PUT"@,
        HttpMethod::DELETE => "DELETE"@,
        HttpMethod::PATCH => "PATCH"@,
    }
}

impl HttpMethod {
    /// The name of the method, in capitals.
    pub fn to_string(&self) -> (s: String)
        ensures
            s@ == method_name(*self),
    {
        proof {
            reveal_strlit("GET");
            reveal_strlit("POST");
            reveal_strlit("PUT");
            reveal_strlit("DELETE");
            reveal_strlit("PATCH");
        }
        match self {
            HttpMethod::GET => String::from_str("GET"),
            HttpMethod::POST => String::from_str("POST"),
            HttpMethod::PUT => String::from_str("PUT"),
            HttpMethod::DELETE => String::from_str("DELETE"),
            HttpMethod::PATCH => String::from_str("PATCH"),
        }
    }
}

/// Whether the bridge serves REST endpoints or makes requests.
#[derive(Clone, Copy, PartialEq, Eq, Structural, Debug)]
pub enum HttpMode {
    /// An HTTP server exposing REST endpoints.
    Server,
    /// An HTTP client making requests.
    Client,
}

impl Default for HttpMode {
    /// Server mode.
    fn default() -> (m: Self)
        ensures
            m == HttpMode::Server,
    {
        HttpMode::Server
    }
}

/// An endpoint of the server.
#[derive(Clone, Debug)]
pub struct EndpointConfig {
    /// HTTP path (such as `/api/lights/:id`).
    pub path: String,
    /// HTTP method.
    pub method: HttpMethod,
    /// The CLASP address it maps to.
    pub clasp_address: String,
    /// Description for documentation.
    pub description: Option<String>,
}

/// HTTP bridge configuration.
#[derive(Clone, Debug)]
pub struct HttpBridgeConfig {
    pub mode: HttpMode,
    /// Bind address in server mode, base URL in client mode.
    pub url: String,
    pub endpoints: Vec<EndpointConfig>,
    pub cors_enabled: bool,
    /// Allowed CORS origins (empty: any).
    pub cors_origins: Vec<String>,
    /// Prefix of all endpoint paths.
    pub base_path: String,
    /// Timeout of client requests, in seconds.
    pub timeout_secs: u32,
    /// CLASP namespace prefix.
    pub namespace: String,
}

/// The default of a switch that is on unless configured off.
pub fn default_true() -> (b: bool)
    ensures
        b,
{
    true
}

/// The default base path of the endpoints: `/api`.
pub fn default_base_path() -> (s: String)
    ensures
        s@ == "/api"@,
{
    String::from_str("/api")
}

/// The default request timeout: 30 seconds.
pub fn default_timeout() -> (t: u32)
    ensures
        t == 30,
{
    30
}

/// The default namespace: `/http`.
pub fn default_namespace() -> (s: String)
    ensures
        s@ == "/http"@,
{
    String::from_str("/http")
}

fn endpoint(path: &str, method: HttpMethod, clasp_address: &str, description: &str) -> (e: EndpointConfig)
    ensures
        e.path@ == path@,
        e.method == method,
        e.clasp_address@ == clasp_address@,
        e.description matches Some(d) && d@ == description@,
{
    EndpointConfig {
        path: String::from_str(path),
        method,
        clasp_address: String::from_str(clasp_address),
        description: Some(String::from_str(description)),
    }
}

impl Default for HttpBridgeConfig {
    /// A server on `0.0.0.0:3000` with CORS from any origin, base path
    /// `/api`, a 30-second timeout, namespace `/http`, and four endpoints:
    /// listing the signals, and getting, setting and publishing one.
    fn default() -> (c: Self)
        ensures
            c.mode == HttpMode::Server,
            c.url@ == "0.0.0.0:3000"@,
            c.endpoints.len() == 4,
            c.endpoints[0].path@ == "/signals"@ && c.endpoints[0].method == HttpMethod::GET
                && c.endpoints[0].clasp_address@ == "/**"@,
            c.endpoints[1].path@ == "/signals/*path"@ && c.endpoints[1].method == HttpMethod::GET
                && c.endpoints[1].clasp_address@ == "/{path}"@,
            c.endpoints[2].path@ == "/signals/*path"@ && c.endpoints[2].method == HttpMethod::PUT
                && c.endpoints[2].clasp_address@ == "/{path}"@,
            c.endpoints[3].path@ == "/signals/*path"@ && c.endpoints[3].method == HttpMethod::POST
                && c.endpoints[3].clasp_address@ == "/{path}"@,
            c.cors_enabled,
            c.cors_origins.len() == 0,
            c.base_path@ == "/api"@,
            c.timeout_secs == 30,
            c.namespace@ == "/http"@,
    {
        let mut endpoints: Vec<EndpointConfig> = Vec::new();
        endpoints.push(endpoint("/signals", HttpMethod::GET, "/**", "List all signals"));
        endpoints.push(endpoint("/signals/*path", HttpMethod::GET, "/{path}", "Get signal value"));
        endpoints.push(endpoint("/signals/*path", HttpMethod::PUT, "/{path}", "Set signal value"));
        endpoints.push(endpoint("/signals/*path", HttpMethod::POST, "/{path}", "Publish event"));
        HttpBridgeConfig {
            mode: HttpMode::Server,
            url: String::from_str("0.0.0.0:3000"),
            endpoints,
            cors_enabled: true,
            cors_origins: Vec::new(),
            base_path: default_base_path(),
            timeout_secs: default_timeout(),
            namespace: default_namespace(),
        }
    }
}

/// A request to make in client mode: the method, the URL and the value to
/// send as the JSON body.
#[derive(Debug)]
pub struct ClientRequest {
    pub method: HttpMethod,
    pub url: String,
    pub body: ClaspValue,
}

/// What a CLASP message asks of a bridge in client mode: a SET is a PUT
/// of its value, a PUBLISH with a value a POST of it, to the base URL
/// followed by the address; anything else asks nothing.
pub open spec fn client_request(base_url: Seq<char>, m: Message) -> Option<(HttpMethod, Seq<char>, ValueModel)> {
    match m {
        Message::SetParam(set) => Some((HttpMethod::PUT, base_url + set.address@, set.value.model())),
        Message::Publish(p) => match p.value {
            Some(v) => Some((HttpMethod::POST, base_url + p.address@, v.model())),
            None => None,
        },
        _ => None,
    }
}

/// What a CLASP message does to the cache of a bridge in server mode: a
/// SET stores its value, a PUBLISH with a value stores that value.
pub open spec fn cached_after(cache: Seq<(Seq<char>, ValueModel)>, m: Message) -> Seq<(Seq<char>, ValueModel)> {
    match m {
        Message::SetParam(set) => dict_put(cache, set.address@, set.value.model()),
        Message::Publish(p) => match p.value {
            Some(v) => dict_put(cache, p.address@, v.model()),
            None => cache,
        },
        _ => cache,
    }
}

/// The HTTP bridge: its configuration, whether it runs, and the last value
/// of every signal it has seen, keyed by address. Addresses are text, for
/// which vstd specifies no hash map, so the signals are entries whose
/// model is the map.
#[derive(Debug)]
pub struct HttpBridge {
    pub config: BridgeConfig,
    pub http_config: HttpBridgeConfig,
    pub running: bool,
    pub signals: Vec<(String, ClaspValue)>,
}

impl HttpBridge {
    /// A stopped bridge named `HTTP Bridge`, working both ways, with no
    /// signal cached.
    pub fn new(http_config: HttpBridgeConfig) -> (b: Self)
        ensures
            b.config.name@ == "HTTP Bridge"@,
            b.config.protocol@ == "http"@,
            b.config.bidirectional,
            b.config.options.len() == 0,
            b.http_config == http_config,
            !b.running,
            b.signals@.len() == 0,
    {
        HttpBridge {
            config: BridgeConfig::named("HTTP Bridge", "http", true),
            http_config,
            running: false,
            signals: Vec::new(),
        }
    }

    /// Stores the value of a signal.
    pub fn update_signal(&mut self, address: &str, value: ClaspValue)
        ensures
            entries_model(final(self).signals@) == dict_put(
                entries_model(old(self).signals@),
                address@,
                value.model(),
            ),
            final(self).config == old(self).config,
            final(self).http_config == old(self).http_config,
            final(self).running == old(self).running,
    {
        dict_insert(&mut self.signals, address, value);
    }

    /// The cached value of a signal.
    pub fn signal(&self, address: &str) -> (r: Option<ClaspValue>)
        ensures
            match r {
                Some(v) => dict_get(entries_model(self.signals@), address@) == Some(v.model()),
                None => dict_get(entries_model(self.signals@), address@) is None,
            },
    {
        proof {
            lemma_dict_model(self.signals);
        }
        match dict_lookup(&self.signals, address) {
            Some(i) => {
                proof {
                    lemma_dict_find_bounds(entries_model(self.signals@), address@);
                }
                Some(self.signals[i].1.duplicate())
            },
            None => None,
        }
    }

    /// Forgets a signal and returns its value; when there was one, the SET
    /// of null that tells the CLASP side.
    pub fn delete_signal(&mut self, address: &str) -> (r: Option<(ClaspValue, Message)>)
        ensures
            entries_model(final(self).signals@) == dict_without(
                entries_model(old(self).signals@),
                address@,
            ),
            match r {
                Some(p) => dict_get(entries_model(old(self).signals@), address@) == Some(
                    p.0.model(),
                ) && crate::message::is_plain_set(p.1, address@, ClaspValue::Null),
                None => dict_get(entries_model(old(self).signals@), address@) is None,
            },
            final(self).config == old(self).config,
            final(self).http_config == old(self).http_config,
            final(self).running == old(self).running,
    {
        match dict_remove(&mut self.signals, address) {
            Some(v) => Some((v, crate::message::plain_set(String::from_str(address), ClaspValue::Null))),
            None => None,
        }
    }

    /// Takes a message from the CLASP side: refused with `Not connected`
    /// unless running; in server mode it updates the cache; in client mode
    /// it gives the request to make, if any.
    pub fn send(&mut self, message: &Message) -> (r: Result<Option<ClientRequest>, BridgeError>)
        ensures
            final(self).config == old(self).config,
            final(self).http_config == old(self).http_config,
            final(self).running == old(self).running,
            !old(self).running ==> (r matches Err(BridgeError::Other(e)) && e@ == "Not connected"@)
                && final(self).signals@ == old(self).signals@,
            old(self).running && old(self).http_config.mode == HttpMode::Server ==> (r matches Ok(
                None,
            )) && entries_model(final(self).signals@) == cached_after(
                entries_model(old(self).signals@),
                *message,
            ),
            old(self).running && old(self).http_config.mode == HttpMode::Client ==> final(self).signals@ == old(self).signals@ && match client_request(
                old(self).http_config.url@,
                *message,
            ) {
                Some((method, url, body)) => (r matches Ok(Some(req)) && req.method == method
                    && req.url@ == url && req.body.model() == body),
                None => r matches Ok(None),
            },
    {
        proof {
            reveal_strlit("Not connected");
        }
        if !self.running {
            return Err(BridgeError::Other(String::from_str("Not connected")));
        }
        match self.http_config.mode {
            HttpMode::Server => {
                match message {
                    Message::SetParam(set) => {
                        dict_insert(&mut self.signals, set.address.as_str(), set.value.duplicate());
                    },
                    Message::Publish(p) => {
                        match &p.value {
                            Some(v) => {
                                dict_insert(&mut self.signals, p.address.as_str(), v.duplicate());
                            },
                            None => {},
                        }
                    },
                    _ => {},
                }
                Ok(None)
            },
            HttpMode::Client => {
                let (address, value, method) = match message {
                    Message::SetParam(set) => (&set.address, &set.value, HttpMethod::PUT),
                    Message::Publish(p) => match &p.value {
                        Some(v) => (&p.address, v, HttpMethod::POST),
                        None => {
                            return Ok(None);
                        },
                    },
                    _ => {
                        return Ok(None);
                    },
                };
                let mut url = self.http_config.url.clone();
                url.append(address.as_str());
                Ok(Some(ClientRequest { method, url, body: value.duplicate() }))
            },
        }
    }
}

/// The CLASP address that a REST path under the namespace names:
/// `{namespace}/{path}`.
pub fn rest_address(namespace: &str, path: &str) -> (a: String)
    ensures
        a@ == namespace@ + "/"@ + path@,
{
    proof {
        reveal_strlit("/");
    }
    let mut a = String::from_str(namespace);
    a.append("/");
    a.append(path);
    a
}

/// A PUT to a REST path: the address it names, stored with its value in
/// the cache, and the SET to send to the CLASP side.
pub fn rest_set(bridge: &mut HttpBridge, path: &str, value: ClaspValue) -> (m: Message)
    ensures
        crate::message::is_plain_set(
            m,
            old(bridge).http_config.namespace@ + "/"@ + path@,
            value,
        ),
        entries_model(final(bridge).signals@) == dict_put(
            entries_model(old(bridge).signals@),
            old(bridge).http_config.namespace@ + "/"@ + path@,
            value.model(),
        ),
        final(bridge).config == old(bridge).config,
        final(bridge).http_config == old(bridge).http_config,
        final(bridge).running == old(bridge).running,
{
    let address = rest_address(bridge.http_config.namespace.as_str(), path);
    dict_insert(&mut bridge.signals, address.as_str(), value.duplicate());
    Message::SetParam(SetMessage { address, value, revision: None, lock: false, unlock: false })
}

/// The value that a REST request body carries: its field `value`, else
/// the whole body.
pub open spec fn body_value(doc: ValueModel) -> ValueModel {
    match json_field(doc, "value"@) {
        Some(v) => v,
        None => doc,
    }
}

/// The value of a REST request body, as [`body_value`] states; `None` for
/// a body that is not JSON (such a request is refused).
pub fn request_value(body: &str) -> (r: Option<ClaspValue>)
    ensures
        match json_document(body@) {
            Some(doc) => r matches Some(v) && v.model() == body_value(doc),
            None => r is None,
        },
{
    proof {
        reveal_strlit("value");
    }
    match parse_json(body) {
        Some(doc) => match field(&doc, "value") {
            Some(v) => Some(v),
            None => Some(doc),
        },
        None => None,
    }
}

/// A POST to a REST path: the event PUBLISH of the value at the address
/// that the path names.
pub fn rest_publish(namespace: &str, path: &str, value: ClaspValue) -> (m: Message)
    ensures
        m is Publish,
        m->Publish_0.address@ == namespace@ + "/"@ + path@,
        m->Publish_0.signal == Some(SignalType::Event),
        m->Publish_0.value == Some(value),
        m->Publish_0.payload is None,
        m->Publish_0.id is None,
        m->Publish_0.timestamp is None,
{
    let address = rest_address(namespace, path);
    Message::Publish(
        PublishMessage {
            address,
            signal: Some(SignalType::Event),
            value: Some(value),
            payload: None,
            id: None,
            timestamp: None,
        },
    )
}

} // verus!
