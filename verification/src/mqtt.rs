//! MQTT bridge: configuration, topics and addresses, quality of service,
//! and what is published for a CLASP message.
use vstd::prelude::*;
use crate::bridge::{BridgeConfig, BridgeError};
use crate::message::{is_plain_set_of, plain_set, Message};
use crate::json::{json_document, parse_json, utf8_text};
use vstd::utf8::{decode_utf8, valid_utf8};
use crate::sacn::{leading_count, trim_leading};
use crate::text::{
    chars_of, is_prefix, signed_decimal, split_chars, split_on, starts_with, string_from_chars,
    views,
};
use crate::value::{ClaspValue, ValueModel};

verus! {

/// Whether a character is a lowercase hexadecimal digit.
pub open spec fn is_lower_hex(c: char) -> bool {
    ('0' <= c && c <= '9') || ('a' <= c && c <= 'f')
}

/// Whether a text is a UUID in hyphenated lowercase form:
/// `xxxxxxxx-xxxx-xxxx-xxxx-xxxxxxxxxxxx`.
pub open spec fn is_hyphenated_uuid(s: Seq<char>) -> bool {
    &&& s.len() == 36
    &&& forall|i: int|
        0 <= i < 36 ==> if i == 8 || i == 13 || i == 18 || i == 23 {
            #[trigger] s[i] == '-'
        } else {
            is_lower_hex(s[i])
        }
}

/// `Uuid::new_v4().to_string()` of `uuid`: a random version-4 UUID in
/// hyphenated lowercase form (the format `uuid`'s `Display` writes).
/// Which UUID comes back is chance; only its form is stated.
#[verifier::external_body]
pub(crate) fn random_uuid_text() -> (s: String)
    ensures
        is_hyphenated_uuid(s@),
{
    uuid::Uuid::new_v4().to_string()
}

/// MQTT bridge configuration.
#[derive(Clone, Debug)]
pub struct MqttBridgeConfig {
    pub broker_host: String,
    pub broker_port: u16,
    pub client_id: String,
    pub username: Option<String>,
    pub password: Option<String>,
    /// Topics to subscribe to.
    pub subscribe_topics: Vec<String>,
    /// Quality of service: 0, 1 or 2.
    pub qos: u8,
    /// Keep-alive interval, in seconds.
    pub keep_alive_secs: u16,
    /// CLASP namespace prefix.
    pub namespace: String,
}

/// The default keep-alive interval: 60 seconds.
pub fn default_keep_alive() -> (s: u16)
    ensures
        s == 60,
{
    60
}

/// The default namespace: `/mqtt`.
pub fn default_namespace() -> (s: String)
    ensures
        s@ == "/mqtt"@,
{
    String::from_str("/mqtt")
}

/// Whether a client id is `clasp-` followed by eight lowercase hex digits.
pub open spec fn is_generated_client_id(id: Seq<char>) -> bool {
    &&& id.len() == 14
    &&& id.take(6) == "clasp-"@
    &&& forall|i: int| 6 <= i < 14 ==> is_lower_hex(#[trigger] id[i])
}

impl Default for MqttBridgeConfig {
    /// The broker at `localhost:1883`, a client id of `clasp-` and the first
    /// group of a random UUID, no credentials, subscribed to `#`, QoS 0, a
    /// 60-second keep-alive, namespace `/mqtt`.
    fn default() -> (c: Self)
        ensures
            c.broker_host@ == "localhost"@,
            c.broker_port == 1883,
            is_generated_client_id(c.client_id@),
            c.username is None,
            c.password is None,
            c.subscribe_topics@.len() == 1,
            c.subscribe_topics@[0]@ == "#"@,
            c.qos == 0,
            c.keep_alive_secs == 60,
            c.namespace@ == "/mqtt"@,
    {
        proof {
            reveal_strlit("clasp-");
        }
        let uuid = random_uuid_text();
        let uc = chars_of(uuid.as_str());
        let groups = split_chars(&uc, '-');
        let ghost u = uuid@;
        proof {
            lemma_first_group(u);
            crate::text::lemma_split_nonempty(u, '-');
        }
        let mut id = String::from_str("clasp-");
        assert(views(groups@)[0] == groups@[0]@);
        let first = string_from_chars(&groups[0]);
        id.append(first.as_str());
        proof {
            let g = groups@[0]@;
            assert(g == u.take(8));
            assert(id@ == "clasp-"@ + u.take(8));
            assert forall|i: int| 6 <= i < 14 implies is_lower_hex(#[trigger] id@[i]) by {
                assert(id@[i] == u[i - 6]);
                assert(i - 6 != 8 && i - 6 != 13 && i - 6 != 18 && i - 6 != 23);
            }
            assert(id@.take(6) =~= "clasp-"@);
        }
        let mut topics: Vec<String> = Vec::new();
        topics.push(String::from_str("#"));
        MqttBridgeConfig {
            broker_host: String::from_str("localhost"),
            broker_port: 1883,
            client_id: id,
            username: None,
            password: None,
            subscribe_topics: topics,
            qos: 0,
            keep_alive_secs: default_keep_alive(),
            namespace: default_namespace(),
        }
    }
}

/// The first `-`-separated group of a hyphenated UUID is its first eight
/// characters.
proof fn lemma_first_group(u: Seq<char>)
    requires
        is_hyphenated_uuid(u),
    ensures
        split_on(u, '-')[0] == u.take(8),
{
    assert(u[8] == '-');
    assert forall|i: int| 0 <= i < 8 implies u[i] != '-' by {
        assert(is_lower_hex(u[i]));
    }
    lemma_split_first(u, '-', 8);
}

/// When the first separator of `s` is at index `k`, the first piece is
/// what comes before it.
proof fn lemma_split_first(s: Seq<char>, sep: char, k: int)
    requires
        0 <= k < s.len(),
        s[k] == sep,
        forall|i: int| 0 <= i < k ==> s[i] != sep,
    ensures
        split_on(s, sep)[0] == s.take(k),
    decreases s.len(),
{
    crate::text::lemma_split_nonempty(s.drop_last(), sep);
    if s.len() - 1 == k {
        lemma_split_no_sep(s.drop_last(), sep);
        assert(s.drop_last() =~= s.take(k));
    } else {
        assert(s.drop_last()[k] == sep);
        lemma_split_first(s.drop_last(), sep, k);
        let prev = split_on(s.drop_last(), sep);
        crate::text::lemma_split_nonempty(s.drop_last().take(k + 1), sep);
        lemma_split_len_two(s.drop_last(), sep, k);
    }
}

/// Without a separator, the only piece is the whole text.
proof fn lemma_split_no_sep(s: Seq<char>, sep: char)
    requires
        forall|i: int| 0 <= i < s.len() ==> s[i] != sep,
    ensures
        split_on(s, sep) == seq![s],
    decreases s.len(),
{
    if s.len() > 0 {
        lemma_split_no_sep(s.drop_last(), sep);
        assert(s.drop_last().push(s.last()) =~= s);
    } else {
        assert(s =~= Seq::<char>::empty());
    }
}

/// Once a separator has been seen, the split has at least two pieces.
proof fn lemma_split_len_two(s: Seq<char>, sep: char, k: int)
    requires
        0 <= k < s.len(),
        s[k] == sep,
    ensures
        split_on(s, sep).len() >= 2,
    decreases s.len(),
{
    crate::text::lemma_split_nonempty(s.drop_last(), sep);
    if s.len() - 1 != k {
        lemma_split_len_two(s.drop_last(), sep, k);
    }
}

/// MQTT quality of service.
#[derive(Clone, Copy, PartialEq, Eq, Structural, Debug)]
pub enum QoS {
    AtMostOnce,
    AtLeastOnce,
    ExactlyOnce,
}

/// The quality of service of a configured level: 0 at most once, 1 at
/// least once, anything else exactly once.
pub fn parse_qos(qos: u8) -> (q: QoS)
    ensures
        q == if qos == 0 {
            QoS::AtMostOnce
        } else if qos == 1 {
            QoS::AtLeastOnce
        } else {
            QoS::ExactlyOnce
        },
{
    if qos == 0 {
        QoS::AtMostOnce
    } else if qos == 1 {
        QoS::AtLeastOnce
    } else {
        QoS::ExactlyOnce
    }
}

/// The CLASP address of an MQTT topic: `{namespace}/{topic}`.
pub open spec fn topic_address(namespace: Seq<char>, topic: Seq<char>) -> Seq<char> {
    namespace + "/"@ + topic
}

/// The MQTT topic of a CLASP address: the address without the namespace
/// (when it starts with it) and without leading `/`.
pub open spec fn address_topic(namespace: Seq<char>, address: Seq<char>) -> Seq<char> {
    trim_leading(
        if is_prefix(namespace, address) {
            address.skip(namespace.len() as int)
        } else {
            address
        },
        '/',
    )
}

/// The MQTT bridge: its configuration and whether it is connected.
#[derive(Clone, Debug)]
pub struct MqttBridge {
    pub config: BridgeConfig,
    pub mqtt_config: MqttBridgeConfig,
    pub connected: bool,
}

/// What a CLASP message publishes over MQTT: a SET's value, or a PUBLISH's
/// value when it has one, on the topic of its address.
pub open spec fn mqtt_publication(namespace: Seq<char>, m: Message) -> Option<(Seq<char>, ValueModel)> {
    match m {
        Message::SetParam(set) => Some((address_topic(namespace, set.address@), set.value.model())),
        Message::Publish(p) => match p.value {
            Some(v) => Some((address_topic(namespace, p.address@), v.model())),
            None => None,
        },
        _ => None,
    }
}

/// A message to publish over MQTT: the topic, the value and the quality of
/// service.
#[derive(Debug)]
pub struct MqttPublication {
    pub topic: String,
    pub value: ClaspValue,
    pub qos: QoS,
}

impl MqttBridge {
    /// A disconnected bridge named `MQTT Bridge`, working both ways.
    pub fn new(mqtt_config: MqttBridgeConfig) -> (b: Self)
        ensures
            b.config.name@ == "MQTT Bridge"@,
            b.config.protocol@ == "mqtt"@,
            b.config.bidirectional,
            b.config.options.len() == 0,
            b.mqtt_config == mqtt_config,
            !b.connected,
    {
        MqttBridge {
            config: BridgeConfig::named("MQTT Bridge", "mqtt", true),
            mqtt_config,
            connected: false,
        }
    }

    /// The CLASP address of an MQTT topic.
    pub fn topic_to_address(&self, topic: &str) -> (a: String)
        ensures
            a@ == topic_address(self.mqtt_config.namespace@, topic@),
    {
        proof {
            reveal_strlit("/");
        }
        let mut a = self.mqtt_config.namespace.clone();
        a.append("/");
        a.append(topic);
        a
    }

    /// The MQTT topic of a CLASP address.
    pub fn address_to_topic(&self, address: &str) -> (t: String)
        ensures
            t@ == address_topic(self.mqtt_config.namespace@, address@),
    {
        let a = chars_of(address);
        let ns = chars_of(self.mqtt_config.namespace.as_str());
        let rest = if starts_with(&a, &ns) {
            crate::text::chars_from(&a, ns.len())
        } else {
            a
        };
        let mut k: usize = 0;
        while k < rest.len() && rest[k] == '/'
            invariant
                k <= rest.len(),
                forall|j: int| 0 <= j < k ==> #[trigger] rest@[j] == '/',
            decreases rest.len() - k,
        {
            k = k + 1;
        }
        proof {
            crate::sacn::lemma_trim_leading(rest@, '/');
            assert(k == leading_count(rest@, '/')) by {
                if k < leading_count(rest@, '/') {
                    assert(rest@[k as int] == '/');
                }
                if k > leading_count(rest@, '/') {
                    let lc = leading_count(rest@, '/');
                    assert(rest@[lc] == '/');
                }
            }
        }
        let t = crate::text::chars_from(&rest, k);
        string_from_chars(&t)
    }

    /// What to publish for a message from the CLASP side; refused with
    /// `Not connected` while disconnected.
    pub fn send(&self, message: &Message) -> (r: Result<Option<MqttPublication>, BridgeError>)
        ensures
            !self.connected ==> (r matches Err(BridgeError::Other(e)) && e@ == "Not connected"@),
            self.connected ==> match mqtt_publication(self.mqtt_config.namespace@, *message) {
                Some((topic, v)) => (r matches Ok(Some(p)) && p.topic@ == topic && p.value.model()
                    == v && p.qos == (if self.mqtt_config.qos == 0 {
                    QoS::AtMostOnce
                } else if self.mqtt_config.qos == 1 {
                    QoS::AtLeastOnce
                } else {
                    QoS::ExactlyOnce
                })),
                None => r matches Ok(None),
            },
    {
        proof {
            reveal_strlit("Not connected");
        }
        if !self.connected {
            return Err(BridgeError::Other(String::from_str("Not connected")));
        }
        let (address, value) = match message {
            Message::SetParam(set) => (&set.address, &set.value),
            Message::Publish(p) => match &p.value {
                Some(v) => (&p.address, v),
                None => {
                    return Ok(None);
                },
            },
            _ => {
                return Ok(None);
            },
        };
        let topic = self.address_to_topic(address.as_str());
        Ok(
            Some(
                MqttPublication {
                    topic,
                    value: value.duplicate(),
                    qos: parse_qos(self.mqtt_config.qos),
                },
            ),
        )
    }
}

/// The value of a received payload, given its text (`None` where the
/// bytes are not UTF-8), the JSON document that text is (`None` where it is
/// none) and the bits of the `f64` the text reads as (`None` where it reads
/// as none): the document; else the float; else `true` or `false`, else the
/// string; bytes that are not text are bytes.
pub open spec fn payload_value_from(
    payload: Seq<u8>,
    text: Option<Seq<char>>,
    doc: Option<ValueModel>,
    number: Option<u64>,
) -> ValueModel {
    match text {
        Some(t) => match doc {
            Some(d) => d,
            None => match number {
                Some(bits) => ValueModel::Float(bits),
                None => if t == "true"@ {
                    ValueModel::Bool(true)
                } else if t == "false"@ {
                    ValueModel::Bool(false)
                } else {
                    ValueModel::Str(t)
                },
            },
        },
        None => ValueModel::Bytes(payload),
    }
}

/// The value of a received payload: UTF-8 text that is a JSON document
/// is that document; other text is the float it reads as (`number`: the
/// bits of the `f64` that the text reads as, where it reads as one), else
/// `true` or `false`, else the string; other bytes are bytes.
pub open spec fn payload_value(payload: Seq<u8>, number: Option<u64>) -> ValueModel {
    if valid_utf8(payload) {
        let text = decode_utf8(payload);
        payload_value_from(payload, Some(text), json_document(text), number)
    } else {
        payload_value_from(payload, None, None, number)
    }
}

impl MqttBridge {
    /// The value of a received payload from what was read of it, as
    /// [`payload_value_from`] states.
    pub fn parsed_payload_value(
        payload: &[u8],
        text: Option<String>,
        doc: Option<ClaspValue>,
        number: Option<u64>,
    ) -> (v: ClaspValue)
        ensures
            v.model() == payload_value_from(
                payload@,
                match text {
                    Some(t) => Some(t@),
                    None => None,
                },
                match doc {
                    Some(d) => Some(d.model()),
                    None => None,
                },
                number,
            ),
    {
        proof {
            reveal_strlit("true");
            reveal_strlit("false");
        }
        match text {
            Some(text) => match doc {
                Some(doc) => doc,
                None => match number {
                    Some(bits) => ClaspValue::Float(bits),
                    None => {
                        let t = crate::text::chars_of(text.as_str());
                        let tr = crate::text::chars_of("true");
                        let fa = crate::text::chars_of("false");
                        if crate::text::chars_eq(&t, &tr) {
                            ClaspValue::Bool(true)
                        } else if crate::text::chars_eq(&t, &fa) {
                            ClaspValue::Bool(false)
                        } else {
                            ClaspValue::String(text)
                        }
                    },
                },
            },
            None => {
                let mut bytes: Vec<u8> = Vec::new();
                let mut i: usize = 0;
                while i < payload.len()
                    invariant
                        i <= payload.len(),
                        bytes@ == payload@.subrange(0, i as int),
                    decreases payload.len() - i,
                {
                    bytes.push(payload[i]);
                    i = i + 1;
                }
                assert(bytes@ == payload@);
                ClaspValue::Bytes(bytes)
            },
        }
    }

    /// The value of a received payload, as [`payload_value`] states: reads
    /// the bytes as UTF-8 and the text as JSON, and hands both to
    /// [`MqttBridge::parsed_payload_value`]; the caller reads floats from
    /// text and passes what the text reads as.
    pub fn parse_payload(payload: &[u8], number: Option<u64>) -> (v: ClaspValue)
        ensures
            v.model() == payload_value(payload@, number),
    {
        match utf8_text(payload) {
            Some(text) => {
                let doc = parse_json(text.as_str());
                Self::parsed_payload_value(payload, Some(text), doc, number)
            },
            None => Self::parsed_payload_value(payload, None, None, number),
        }
    }

    /// The CLASP message of a message received on a topic: a SET of the
    /// payload's value (see [`payload_value`]) at the topic's address.
    pub fn incoming(&self, topic: &str, payload: &[u8], number: Option<u64>) -> (m: Message)
        ensures
            is_plain_set_of(
                m,
                topic_address(self.mqtt_config.namespace@, topic@),
                payload_value(payload@, number),
            ),
    {
        plain_set(self.topic_to_address(topic), Self::parse_payload(payload, number))
    }
}

/// The MQTT payload of a value, where it is plain: `null`, `true` or
/// `false`, an integer in decimal, a string's UTF-8 bytes, bytes as they
/// are. Floats, arrays and maps (written as float text and JSON) have no
/// plain payload.
pub fn plain_payload(value: &ClaspValue) -> (r: Option<Vec<u8>>)
    ensures
        match *value {
            ClaspValue::Null => r matches Some(b) && b@ == "null"@.map_values(|c: char| c as u8),
            ClaspValue::Bool(x) => r matches Some(b) && b@ == (if x {
                "true"@
            } else {
                "false"@
            }).map_values(|c: char| c as u8),
            ClaspValue::Int(i) => r matches Some(b) && b@ == signed_decimal(i as int).map_values(
                |c: char| c as u8,
            ),
            ClaspValue::String(s) => r matches Some(b) && b@ == vstd::utf8::encode_utf8(s@),
            ClaspValue::Bytes(bs) => r matches Some(b) && b@ == bs@,
            _ => r is None,
        },
{
    proof {
        reveal_strlit("null");
        reveal_strlit("true");
        reveal_strlit("false");
    }
    match value {
        ClaspValue::Null => Some(ascii_bytes(&chars_of("null"))),
        ClaspValue::Bool(x) => Some(
            if *x {
                ascii_bytes(&chars_of("true"))
            } else {
                ascii_bytes(&chars_of("false"))
            },
        ),
        ClaspValue::Int(i) => {
            let cs = crate::text::i64_to_chars(*i);
            proof {
                crate::text::lemma_signed_decimal_ascii(*i as int);
            }
            Some(ascii_bytes(&cs))
        },
        ClaspValue::String(s) => {
            let b = s.as_str().as_bytes();
            let mut v: Vec<u8> = Vec::new();
            let mut i: usize = 0;
            while i < b.len()
                invariant
                    i <= b.len(),
                    v@ == b@.take(i as int),
                decreases b.len() - i,
            {
                v.push(b[i]);
                i = i + 1;
                assert(v@ =~= b@.take(i as int));
            }
            assert(b@.take(b.len() as int) =~= b@);
            Some(v)
        },
        ClaspValue::Bytes(bs) => {
            let mut v: Vec<u8> = Vec::new();
            let mut i: usize = 0;
            while i < bs.len()
                invariant
                    i <= bs.len(),
                    v@ == bs@.take(i as int),
                decreases bs.len() - i,
            {
                v.push(bs[i]);
                i = i + 1;
                assert(v@ =~= bs@.take(i as int));
            }
            assert(bs@.take(bs.len() as int) =~= bs@);
            Some(v)
        },
        _ => None,
    }
}

/// The bytes of characters below 256 (ASCII text).
fn ascii_bytes(cs: &Vec<char>) -> (b: Vec<u8>)
    requires
        forall|i: int| 0 <= i < cs@.len() ==> (#[trigger] cs@[i] as u32) < 256,
    ensures
        b@ == cs@.map_values(|c: char| c as u8),
{
    let mut b: Vec<u8> = Vec::new();
    let mut i: usize = 0;
    while i < cs.len()
        invariant
            i <= cs.len(),
            b@ == cs@.take(i as int).map_values(|c: char| c as u8),
        decreases cs.len() - i,
    {
        b.push(cs[i] as u8);
        i = i + 1;
        assert(b@ =~= cs@.take(i as int).map_values(|c: char| c as u8));
    }
    assert(cs@.take(cs.len() as int) =~= cs@);
    b
}

/// The topic of the address of a topic is the topic itself, when the topic
/// does not start with `/`.
pub proof fn law_topic_roundtrip(namespace: Seq<char>, topic: Seq<char>)
    requires
        topic.len() == 0 || topic[0] != '/',
    ensures
        address_topic(namespace, topic_address(namespace, topic)) == topic,
{
    reveal_strlit("/");
    let a = topic_address(namespace, topic);
    assert(a.take(namespace.len() as int) =~= namespace);
    let rest = a.skip(namespace.len() as int);
    assert(rest =~= seq!['/'] + topic);
    crate::sacn::lemma_trim_leading(rest, '/');
    assert(rest[0] == '/');
    crate::sacn::lemma_trim_leading(rest.drop_first(), '/');
    assert(rest.drop_first() =~= topic);
    assert(leading_count(rest, '/') == 1);
    assert(rest.skip(1) =~= topic);
}

} // verus!
