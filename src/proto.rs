//! The session layer: tagged transport messages, the control messages the
//! server sends, the handshake and the listen requests.
//!
//! The layer does no I/O itself. The transport reads a message into its
//! scratch buffer and hands it here for classification; what this layer
//! wants written comes back as a message or a string for the transport.
use vstd::prelude::*;
use vstd::string::*;

pub mod mqtt_udp;
pub mod websocket;


verus! {

/// The tag of a transport message.
#[derive(Clone, Copy, Debug, PartialEq, Eq, Structural)]
pub enum MsgType {
    Text,
    Binary,
}

/// A message as the transport delivers or takes it, borrowed from a buffer.
#[derive(Clone, Copy, Debug)]
pub enum ProtoMsg<'a> {
    Text(&'a str),
    Binary(&'a [u8]),
}

impl<'a> ProtoMsg<'a> {
    /// The tag of this message.
    pub fn msg_type(&self) -> (r: MsgType)
        ensures
            (r == MsgType::Text) == (self is Text),
    {
        match self {
            ProtoMsg::Text(_) => MsgType::Text,
            ProtoMsg::Binary(_) => MsgType::Binary,
        }
    }
}

/// The state carried by a text-to-speech control message.
#[derive(Debug)]
pub enum Tts {
    Start,
    Stop,
    SentenceStart { text: String },
    SentenceEnd {},
}

/// A structured control message from the server, tagged by its `type`
/// member.
#[derive(Debug)]
pub enum ServerText {
    Hello {},
    Stt { text: String },
    Llm { text: String },
    Tts(Tts),
    Iot {},
}

/// An inbound message once classified.
pub enum ServerMsg<'a> {
    /// A text message that is not a control message this layer knows; kept
    /// so that the session goes on.
    Unknown(&'a str),
    Text(ServerText),
    Binary(&'a [u8]),
}

/// The members of a JSON object: each key with its value when that value is
/// a string, and `None` for a value of any other kind.
pub type Members = Vec<(String, Option<String>)>;

/// The members of the JSON object that `text` holds, in the order the parser
/// yields them; `None` when `text` is not a JSON object.
pub uninterp spec fn json_object_members(text: Seq<char>) -> Option<Seq<(Seq<char>, Option<Seq<char>>)>>;

/// The view of parsed members.
pub open spec fn members_view(m: Seq<(String, Option<String>)>) -> Seq<(Seq<char>, Option<Seq<char>>)> {
    m.map_values(
        |p: (String, Option<String>)|
            (
                p.0@,
                match p.1 {
                    Some(s) => Some(s@),
                    None => None,
                },
            ),
    )
}

/// Relies on `serde_json::from_str`, deserialising into a
/// `serde_json::Map`: it parses `text` as a JSON object, and what it returns
/// depends on the text alone. String values are kept; other values are
/// marked as not strings.
#[verifier::external_body]
pub(crate) fn parse_object(text: &str) -> (r: Option<Members>)
    ensures
        r is Some == json_object_members(text@) is Some,
        r matches Some(m) ==> members_view(m@) == json_object_members(text@)->0,
{
    match serde_json::from_str::<serde_json::Map<String, serde_json::Value>>(text) {
        Ok(map) => Some(map.into_iter().map(|(k, v)| (k, match v {
            serde_json::Value::String(s) => Some(s),
            _ => None,
        })).collect()),
        Err(_) => None,
    }
}

/// The string value of the first member named `key`, if that member exists
/// and holds a string.
pub open spec fn string_member(m: Seq<(Seq<char>, Option<Seq<char>>)>, key: Seq<char>) -> Option<Seq<char>>
    decreases m.len(),
{
    if m.len() == 0 {
        None
    } else if m[0].0 == key {
        m[0].1
    } else {
        string_member(m.drop_first(), key)
    }
}

/// Whether `t` is the control message that members `m` describe.
pub open spec fn describes(m: Seq<(Seq<char>, Option<Seq<char>>)>, t: ServerText) -> bool {
    let ty = string_member(m, "type"@);
    let text = string_member(m, "text"@);
    let state = string_member(m, "state"@);
    match t {
        ServerText::Hello {  } => ty == Some("hello"@),
        ServerText::Stt { text: s } => ty == Some("stt"@) && text == Some(s@),
        ServerText::Llm { text: s } => ty == Some("llm"@) && text == Some(s@),
        ServerText::Iot {  } => ty == Some("iot"@),
        ServerText::Tts(tts) => ty == Some("tts"@) && match tts {
            Tts::Start => state == Some("start"@),
            Tts::Stop => state == Some("stop"@),
            Tts::SentenceStart { text: s } => state == Some("sentence_start"@) && text == Some(s@),
            Tts::SentenceEnd {  } => state == Some("sentence_end"@),
        },
    }
}

/// Whether members `m` make up a control message this layer knows.
pub open spec fn is_control(m: Seq<(Seq<char>, Option<Seq<char>>)>) -> bool {
    let ty = string_member(m, "type"@);
    let has_text = string_member(m, "text"@) is Some;
    let state = string_member(m, "state"@);
    ||| ty == Some("hello"@)
    ||| ty == Some("iot"@)
    ||| (ty == Some("stt"@) || ty == Some("llm"@)) && has_text
    ||| ty == Some("tts"@) && (state == Some("start"@) || state == Some("stop"@) || state == Some(
        "sentence_end"@,
    ) || state == Some("sentence_start"@) && has_text)
}

/// The string value of member `key`, looked up as `string_member` does.
pub(crate) fn find_string(m: &[(String, Option<String>)], key: &str) -> (r: Option<String>)
    ensures
        match r {
            Some(s) => string_member(members_view(m@), key@) == Some(s@),
            None => string_member(members_view(m@), key@) is None,
        },
{
    let wanted = String::from_str(key);
    let mut i: usize = 0;
    assert(members_view(m@).subrange(0, m@.len() as int) =~= members_view(m@));
    while i < m.len()
        invariant
            i <= m@.len(),
            wanted@ == key@,
            string_member(members_view(m@), key@) == string_member(
                members_view(m@).subrange(i as int, m@.len() as int),
                key@,
            ),
        decreases m@.len() - i,
    {
        let ghost rest = members_view(m@).subrange(i as int, m@.len() as int);
        assert(rest.drop_first() =~= members_view(m@).subrange(i + 1, m@.len() as int));
        if m[i].0 == wanted {
            return match &m[i].1 {
                Some(s) => Some(s.clone()),
                None => None,
            };
        }
        i = i + 1;
    }
    None
}

/// Whether `s` holds exactly the characters of `lit`.
pub(crate) fn is_text(s: &String, lit: &str) -> (r: bool)
    ensures
        r == (s@ == lit@),
{
    *s == String::from_str(lit)
}

impl ServerText {
    /// Reads a control message from the members of a parsed JSON object.
    /// The `type` member selects the variant; `stt` and `llm` need a string
    /// `text`, and `tts` a `state` of `start`, `stop`, `sentence_start`
    /// (with `text`) or `sentence_end`. Other members are ignored.
    pub fn from_members(m: &[(String, Option<String>)]) -> (r: Option<ServerText>)
        ensures
            r is Some == is_control(members_view(m@)),
            r matches Some(t) ==> describes(members_view(m@), t),
    {
        proof {
            reveal_strlit("hello");
            reveal_strlit("stt");
            reveal_strlit("llm");
            reveal_strlit("iot");
            reveal_strlit("tts");
            reveal_strlit("start");
            reveal_strlit("stop");
            reveal_strlit("sentence_start");
            reveal_strlit("sentence_end");
            assert("stt"@[0] != "tts"@[0]);
            assert("llm"@[0] != "tts"@[0]);
        }
        let text = find_string(m, "text");
        match find_string(m, "type") {
            None => None,
            Some(ty) => {
                if is_text(&ty, "hello") {
                    Some(ServerText::Hello {  })
                } else if is_text(&ty, "iot") {
                    Some(ServerText::Iot {  })
                } else if is_text(&ty, "stt") {
                    match text {
                        Some(s) => Some(ServerText::Stt { text: s }),
                        None => None,
                    }
                } else if is_text(&ty, "llm") {
                    match text {
                        Some(s) => Some(ServerText::Llm { text: s }),
                        None => None,
                    }
                } else if is_text(&ty, "tts") {
                    match find_string(m, "state") {
                        None => None,
                        Some(state) => {
                            if is_text(&state, "start") {
                                Some(ServerText::Tts(Tts::Start))
                            } else if is_text(&state, "stop") {
                                Some(ServerText::Tts(Tts::Stop))
                            } else if is_text(&state, "sentence_end") {
                                Some(ServerText::Tts(Tts::SentenceEnd {  }))
                            } else if is_text(&state, "sentence_start") {
                                match text {
                                    Some(s) => Some(ServerText::Tts(Tts::SentenceStart { text: s })),
                                    None => None,
                                }
                            } else {
                                None
                            }
                        },
                    }
                } else {
                    None
                }
            },
        }
    }
}

/// The result of classifying a text payload whose JSON members are `parsed`
/// (`None` when it is not a JSON object).
pub open spec fn classifies_text(
    parsed: Option<Seq<(Seq<char>, Option<Seq<char>>)>>,
    text: &str,
    r: ServerMsg,
) -> bool {
    match parsed {
        Some(m) => if is_control(m) {
            r matches ServerMsg::Text(t) && describes(m, t)
        } else {
            r == ServerMsg::Unknown(text)
        },
        None => r == ServerMsg::Unknown(text),
    }
}

/// The session identifier that members `parsed` carry, if any.
pub open spec fn session_id_of(parsed: Option<Seq<(Seq<char>, Option<Seq<char>>)>>) -> Option<
    Seq<char>,
> {
    match parsed {
        Some(m) => string_member(m, "session_id"@),
        None => None,
    }
}

/// The session identifier that an answer to the hello carries: a text
/// message holding a JSON object with a string `session_id` member. A binary
/// answer carries none.
pub open spec fn hello_session(msg: ProtoMsg) -> Option<Seq<char>> {
    match msg {
        ProtoMsg::Text(t) => session_id_of(json_object_members(t@)),
        ProtoMsg::Binary(_) => None,
    }
}

/// The session identifier that an answer to the hello carries, if any.
pub fn hello_session_id(msg: ProtoMsg) -> (r: Option<String>)
    ensures
        match r {
            Some(s) => hello_session(msg) == Some(s@),
            None => hello_session(msg) is None,
        },
{
    match msg {
        ProtoMsg::Binary(_) => None,
        ProtoMsg::Text(t) => match parse_object(t) {
            Some(m) => find_string(m.as_slice(), "session_id"),
            None => None,
        },
    }
}

/// Code point of the quotation mark.
pub const QUOTE: u32 = 0x22;

/// Code point of the backslash.
pub const BACKSLASH: u32 = 0x5c;

/// The first code point after the control characters.
pub const FIRST_PRINTABLE: u32 = 0x20;

/// Whether `s` can stand between the quotes of a JSON string as it is: it
/// holds no quote, no backslash and no control character.
pub open spec fn json_safe(s: Seq<char>) -> bool {
    forall|i: int| 0 <= i < s.len() ==> {
        let c = #[trigger] s[i];
        c as u32 != QUOTE && c as u32 != BACKSLASH && c as u32 >= FIRST_PRINTABLE
    }
}

/// Tests `json_safe`.
pub fn is_json_safe(s: &str) -> (r: bool)
    ensures
        r == json_safe(s@),
{
    let n = s.unicode_len();
    let mut i: usize = 0;
    while i < n
        invariant
            n == s@.len(),
            i <= n,
            forall|j: int| 0 <= j < i ==> {
                let c = #[trigger] s@[j];
                c as u32 != QUOTE && c as u32 != BACKSLASH && c as u32 >= FIRST_PRINTABLE
            },
        decreases n - i,
    {
        let c = s.get_char(i);
        let code = c as u32;
        if code == QUOTE || code == BACKSLASH || code < FIRST_PRINTABLE {
            return false;
        }
        i = i + 1;
    }
    true
}

/// The hello announcement: codec, sample rate, channel count and frame
/// duration of the audio this device sends.
pub const HELLO_MESSAGE: &'static str = "{\"type\":\"hello\",\"version\":1,\"transport\":\"websocket\",\"audio_params\":{\"format\":\"opus\",\"sample_rate\":16000,\"channels\":1,\"frame_duration\":60}}";

/// The listen request for session `id`, starting or stopping capture.
pub open spec fn listen_request(id: Seq<char>, start: bool) -> Seq<char> {
    "{\"session_id\":\""@ + id + (if start {
        "\",\"type\":\"listen\",\"state\":\"start\",\"mode\":\"auto\"}"@
    } else {
        "\",\"type\":\"listen\",\"state\":\"stop\",\"mode\":\"auto\"}"@
    })
}

/// The session layer over one transport.
pub struct Protocol<T> {
    pub transport: T,
    /// The identifier the server issued, once the handshake is done.
    pub session: Option<String>,
}

impl<T> Protocol<T> {
    /// The session identifier issued by the server, once the handshake is
    /// done.
    pub open spec fn session(&self) -> Option<Seq<char>> {
        match self.session {
            Some(s) => Some(s@),
            None => None,
        }
    }

    pub fn new(transport: T) -> (r: Self)
        ensures
            r.transport == transport,
            r.session() is None,
    {
        Protocol { transport, session: None }
    }

    /// The session identifier, once the handshake is done.
    pub fn session_id(&self) -> (r: Option<&String>)
        ensures
            match r {
                Some(s) => self.session() == Some(s@),
                None => self.session() is None,
            },
    {
        match &self.session {
            Some(s) => Some(s),
            None => None,
        }
    }

    /// The capability announcement that opens the handshake.
    pub fn send_hello(&self) -> (r: ProtoMsg<'static>)
        ensures
            r == ProtoMsg::Text(HELLO_MESSAGE),
    {
        ProtoMsg::Text(HELLO_MESSAGE)
    }

    /// Reads the server's answer to the hello and establishes the session
    /// with the identifier it carries. Any other answer is a fatal protocol
    /// violation and is left out here: callers test the answer with
    /// `hello_session_id` first and stop when it has none.
    pub fn recv_hello(&mut self, msg: ProtoMsg) -> (r: String)
        requires
            hello_session(msg) is Some,
        ensures
            r@ == hello_session(msg)->0,
            final(self).session() == Some(r@),
            final(self).transport == old(self).transport,
    {
        let id = hello_session_id(msg).unwrap();
        self.session = Some(id.clone());
        id
    }

    /// Classifies one inbound message. Binary messages carry audio and pass
    /// through. Text is parsed as a control message; text that is not one is
    /// surfaced as `Unknown` rather than failing, so that the session goes on.
    pub fn recv<'a>(&self, msg: ProtoMsg<'a>) -> (r: ServerMsg<'a>)
        ensures
            msg matches ProtoMsg::Binary(b) ==> r == ServerMsg::Binary(b),
            msg matches ProtoMsg::Text(t) ==> classifies_text(json_object_members(t@), t, r),
    {
        match msg {
            ProtoMsg::Binary(b) => ServerMsg::Binary(b),
            ProtoMsg::Text(t) => classify_text(t, parse_object(t)),
        }
    }

    /// The request that starts capture for session `session_id`.
    pub fn send_listening(&self, session_id: &str) -> (r: String)
        requires
            json_safe(session_id@),
        ensures
            r@ == listen_request(session_id@, true),
    {
        listen_text(session_id, true)
    }

    /// The request that stops capture for session `session_id`.
    pub fn send_listening_stop(&self, session_id: &str) -> (r: String)
        requires
            json_safe(session_id@),
        ensures
            r@ == listen_request(session_id@, false),
    {
        listen_text(session_id, false)
    }
}

/// Classifies a text payload given its parsed members (`None` when the text
/// is not a JSON object).
pub fn classify_text<'a>(text: &'a str, parsed: Option<Members>) -> (r: ServerMsg<'a>)
    ensures
        classifies_text(
            match parsed {
                Some(m) => Some(members_view(m@)),
                None => None,
            },
            text,
            r,
        ),
{
    match parsed {
        Some(m) => match ServerText::from_members(m.as_slice()) {
            Some(t) => ServerMsg::Text(t),
            None => ServerMsg::Unknown(text),
        },
        None => ServerMsg::Unknown(text),
    }
}

fn listen_text(session_id: &str, start: bool) -> (r: String)
    requires
        json_safe(session_id@),
    ensures
        r@ == listen_request(session_id@, start),
{
    let mut msg = String::from_str("{\"session_id\":\"");
    msg.append(session_id);
    if start {
        msg.append("\",\"type\":\"listen\",\"state\":\"start\",\"mode\":\"auto\"}");
    } else {
        msg.append("\",\"type\":\"listen\",\"state\":\"stop\",\"mode\":\"auto\"}");
    }
    msg
}

} // verus!
