//! The per-card bridge: the state machine that translates between the
//! pub/sub connection and the card.
//!
//! One bridge runs per registered card. The application owns the network
//! loop: it polls the connection, performs card resets and transmits, and
//! publishes replies; every decision in between is made here. An inbound
//! frame carries a `finish` flag and, when authentication goes on, a
//! `payload` hex command; the reply is always a JSON object with a single
//! `payload` field, published to the inbound topic with its `request`
//! segment rewritten to `response`. A connection-layer failure flips the
//! bridge offline; it retries forever with a fixed backoff, never giving a
//! card up.

use vstd::prelude::*;
use vstd::string::*;
use crate::config::opt_str_view;

verus! {

/// Seconds to wait after a connection-layer failure before polling again.
pub const SLEEP_DURATION_SECS: u64 = 10;

/// Keep-alive interval of the pub/sub connection, in seconds.
pub const KEEP_ALIVE_SECS: u64 = 120;

/// Connection state of one bridge: whether the broker currently answers,
/// whether it did before (for edge-triggered notifications), and whether an
/// authentication exchange is in progress.
#[derive(Debug)]
pub struct BridgeState {
    pub is_online: bool,
    pub was_online: bool,
    pub auth_process: bool,
}

impl BridgeState {
    /// A freshly connecting bridge: offline, nothing in progress.
    pub fn new() -> (r: BridgeState)
        ensures
            !r.is_online,
            !r.was_online,
            !r.auth_process,
    {
        BridgeState { is_online: false, was_online: false, auth_process: false }
    }
}

/// The status flags a bridge step asks the application to emit, if any.
/// The rest of the status payload (identifier, reader, card number) is
/// constant per bridge.
#[derive(Clone, Copy, Debug)]
pub struct StatusEmit {
    pub online: Option<bool>,
    pub authentication: Option<bool>,
}

/// An inbound data frame: the `finish` flag, and the `payload` field when
/// one is there.
#[derive(Debug)]
pub struct InboundFrame {
    pub finish: bool,
    pub payload: Option<String>,
}

/// What an inbound frame stands for, as plain values.
pub open spec fn frame_rep(r: Option<InboundFrame>) -> Option<(bool, Option<Seq<char>>)> {
    match r {
        None => None,
        Some(f) => Some((f.finish, opt_str_view(f.payload))),
    }
}

pub open spec fn pair_rep(r: Option<(bool, Option<String>)>) -> Option<(bool, Option<Seq<char>>)> {
    match r {
        None => None,
        Some((finish, payload)) => Some((finish, opt_str_view(payload))),
    }
}

/// What parsing an inbound payload yields: `None` for anything that is not
/// a JSON object with a boolean `finish`; else the flag, and the `payload`
/// string field when one is there.
pub uninterp spec fn inbound_frame_of(bytes: Seq<u8>) -> Option<(bool, Option<Seq<char>>)>;

/// Relies on `serde_json::from_slice` and `serde_json::Value`'s accessors
/// `get`, `as_bool` and `as_str`: what they parse and extract is a function
/// of the payload bytes alone.
#[verifier::external_body]
fn parse_inbound_json(bytes: &Vec<u8>) -> (r: Option<(bool, Option<String>)>)
    ensures
        pair_rep(r) == inbound_frame_of(bytes@),
{
    let value: serde_json::Value = match serde_json::from_slice(bytes.as_slice()) {
        Ok(v) => v,
        Err(_) => return None,
    };
    let finish = match value.get("finish").and_then(|f| f.as_bool()) {
        Some(b) => b,
        None => return None,
    };
    let payload = value.get("payload").and_then(|p| p.as_str()).map(|s| s.to_string());
    Some((finish, payload))
}

/// Parses an inbound payload into a frame; anything malformed — not JSON,
/// or without a boolean `finish` — is dropped as `None`.
pub fn parse_inbound_frame(bytes: &Vec<u8>) -> (r: Option<InboundFrame>)
    ensures
        frame_rep(r) == inbound_frame_of(bytes@),
{
    match parse_inbound_json(bytes) {
        None => None,
        Some((finish, payload)) => Some(InboundFrame { finish, payload }),
    }
}

/// What a frame asks the bridge to do.
#[derive(Debug)]
pub enum FrameDirective {
    /// Malformed frame: log and drop, no reply, no state change.
    Discard,
    /// `finish` was true: reset the card, answer with an empty payload.
    FinishAuth,
    /// Empty payload: seed the server with the card's ATR (resetting the
    /// card first when an authentication was cut short).
    SeedWithAtr { reconnect_first: bool },
    /// A hex command: forward it to the card.
    ForwardApdu { apdu_hex: String },
    /// A frame with `finish: false` but no payload string: answer with an
    /// empty (unwrapped) reply.
    AckEmpty,
}

/// Decides what an inbound frame asks for, given whether an authentication
/// exchange is in progress.
pub fn publish_directive(frame: &Option<InboundFrame>, auth_in_progress: bool) -> (d:
    FrameDirective)
    ensures
        frame is None ==> d is Discard,
        frame matches Some(f) && f.finish ==> d is FinishAuth,
        frame matches Some(f) && !f.finish && f.payload is None ==> d is AckEmpty,
        frame matches Some(f) ==> (f.payload matches Some(p) ==> (!f.finish && p@.len() == 0
            ==> ({
            &&& d matches FrameDirective::SeedWithAtr { reconnect_first }
            &&& reconnect_first == auth_in_progress
        }))),
        frame matches Some(f) ==> (f.payload matches Some(p) ==> (!f.finish && p@.len() > 0
            ==> ({
            &&& d matches FrameDirective::ForwardApdu { apdu_hex }
            &&& apdu_hex@ == p@
        }))),
{
    match frame {
        None => FrameDirective::Discard,
        Some(f) => {
            if f.finish {
                FrameDirective::FinishAuth
            } else {
                match &f.payload {
                    None => FrameDirective::AckEmpty,
                    Some(p) => {
                        if p.as_str().unicode_len() == 0 {
                            FrameDirective::SeedWithAtr { reconnect_first: auth_in_progress }
                        } else {
                            FrameDirective::ForwardApdu { apdu_hex: p.clone() }
                        }
                    },
                }
            }
        },
    }
}

/// A string that stands inside a JSON string literal unchanged: no quote,
/// no backslash, no control character. Every hex string is one.
pub open spec fn json_plain(s: Seq<char>) -> bool {
    forall|i: int|
        0 <= i < s.len() ==> (#[trigger] s[i]) != '"' && s[i] != '\\' && (s[i] as u32) >= 32
}

/// The reply frame for a payload: a JSON object with the single `payload`
/// field.
pub open spec fn reply_json(payload: Seq<char>) -> Seq<char> {
    "{\"payload\":\""@ + payload + "\"}"@
}

/// Whether a string can stand inside a JSON string literal unchanged.
pub fn is_json_plain(s: &str) -> (r: bool)
    ensures
        r == json_plain(s@),
{
    let n = s.unicode_len();
    let mut i: usize = 0;
    while i < n
        invariant
            0 <= i <= n,
            n == s@.len(),
            forall|k: int|
                0 <= k < i ==> (#[trigger] s@[k]) != '"' && s@[k] != '\\' && (s@[k] as u32) >= 32,
        decreases n - i,
    {
        let c = s.get_char(i);
        if c == '"' || c == '\\' || (c as u32) < 32 {
            return false;
        }
        i += 1;
    }
    true
}

/// Wraps a card response (or the ATR, or nothing) as the reply frame the
/// server expects. Payloads are hex strings, which need no JSON escaping;
/// the caller keeps them that way.
pub fn process_rapdu_mqtt_hex(payload: &str) -> (r: String)
    requires
        json_plain(payload@),
    ensures
        r@ == reply_json(payload@),
{
    let mut s = String::from_str("{\"payload\":\"");
    s.append(payload);
    s.append("\"}");
    s
}

/// The reply outcome of one inbound frame: what to publish (if anything),
/// whether to reset the card, and which status to emit (if any).
#[derive(Debug)]
pub struct BridgeReply {
    pub reply: Option<String>,
    pub reconnect_card: bool,
    pub status: Option<StatusEmit>,
}

/// Carries a directive out: updates the authentication flag, names the
/// card reset the application must perform, and builds the reply and the
/// status to emit. For a forwarded command the application first obtains
/// the card's response (through transmit-with-recovery) and hands it in.
pub fn apply_directive(
    state: &mut BridgeState,
    directive: &FrameDirective,
    atr: &str,
    card_response: Option<&str>,
) -> (out: BridgeReply)
    requires
        directive matches FrameDirective::ForwardApdu { .. } ==> card_response is Some,
        json_plain(atr@),
        card_response matches Some(c) ==> json_plain(c@),
    ensures
        final(state).is_online == old(state).is_online,
        final(state).was_online == old(state).was_online,
        directive is Discard ==> out.reply is None && !out.reconnect_card && out.status is None
            && final(state).auth_process == old(state).auth_process,
        directive is FinishAuth ==> {
            &&& out.reply matches Some(r) && r@ == reply_json(Seq::<char>::empty())
            &&& out.reconnect_card
            &&& out.status matches Some(st) && st.online == Some(true) && st.authentication
                == Some(false)
            &&& final(state).auth_process == false
        },
        directive matches FrameDirective::SeedWithAtr { reconnect_first } ==> {
            &&& out.reply matches Some(r) && r@ == reply_json(atr@)
            &&& out.reconnect_card == reconnect_first
            &&& out.status matches Some(st) && st.online == Some(true) && st.authentication
                == Some(false)
            &&& final(state).auth_process == old(state).auth_process
        },
        directive is ForwardApdu ==> {
            &&& out.reply matches Some(r) && r@ == reply_json(card_response->0@)
            &&& !out.reconnect_card
            &&& out.status matches Some(st) && st.online == Some(true) && st.authentication
                == Some(true)
            &&& final(state).auth_process == true
        },
        directive is AckEmpty ==> {
            &&& out.reply matches Some(r) && r@ == Seq::<char>::empty()
            &&& !out.reconnect_card
            &&& out.status is None
            &&& final(state).auth_process == old(state).auth_process
        },
{
    match directive {
        FrameDirective::Discard => BridgeReply { reply: None, reconnect_card: false, status: None },
        FrameDirective::FinishAuth => {
            self_note_finish(state);
            proof {
                reveal_strlit("");
                assert(""@ =~= Seq::<char>::empty());
            }
            BridgeReply {
                reply: Some(process_rapdu_mqtt_hex("")),
                reconnect_card: true,
                status: Some(
                    StatusEmit { online: Some(true), authentication: Some(false) },
                ),
            }
        },
        FrameDirective::SeedWithAtr { reconnect_first } => BridgeReply {
            reply: Some(process_rapdu_mqtt_hex(atr)),
            reconnect_card: *reconnect_first,
            status: Some(StatusEmit { online: Some(true), authentication: Some(false) }),
        },
        FrameDirective::ForwardApdu { .. } => {
            state.auth_process = true;
            let response = match card_response {
                Some(c) => c,
                None => "",
            };
            BridgeReply {
                reply: Some(process_rapdu_mqtt_hex(response)),
                reconnect_card: false,
                status: Some(
                    StatusEmit { online: Some(true), authentication: Some(true) },
                ),
            }
        },
        FrameDirective::AckEmpty => BridgeReply {
            reply: Some(String::new()),
            reconnect_card: false,
            status: None,
        },
    }
}

fn self_note_finish(state: &mut BridgeState)
    ensures
        final(state).is_online == old(state).is_online,
        final(state).was_online == old(state).was_online,
        final(state).auth_process == false,
{
    state.auth_process = false;
}

/// A successful poll: the bridge is online; the first success after a
/// fresh start or a failure announces the card as present.
pub fn poll_ok_update(state: &mut BridgeState) -> (emit: Option<StatusEmit>)
    ensures
        final(state).is_online == true,
        final(state).was_online == (if !old(state).is_online {
            true
        } else {
            old(state).was_online
        }),
        final(state).auth_process == old(state).auth_process,
        emit is Some <==> !old(state).is_online && !old(state).was_online,
        emit matches Some(st) ==> st.online == Some(true) && st.authentication is None,
{
    if !state.is_online {
        state.is_online = true;
        if !state.was_online {
            state.was_online = true;
            return Some(StatusEmit { online: Some(true), authentication: None });
        }
    }
    None
}

/// A keep-alive acknowledgment while idle: a liveness heartbeat to the UI.
pub fn ping_resp_status() -> (st: StatusEmit)
    ensures
        st.online == Some(true),
        st.authentication == Some(false),
{
    StatusEmit { online: Some(true), authentication: Some(false) }
}

/// A connection-layer failure: the bridge goes offline (and forgets that it
/// was online, so the next success announces the card again); the
/// application emits the status, then sleeps the fixed backoff and polls
/// again — the bridge never gives up.
pub fn poll_err_update(state: &mut BridgeState) -> (emit: StatusEmit)
    ensures
        final(state).is_online == false,
        final(state).was_online == false,
        final(state).auth_process == old(state).auth_process,
        emit.online == Some(false),
        emit.authentication is None,
{
    state.is_online = false;
    state.was_online = false;
    StatusEmit { online: Some(false), authentication: None }
}

/// The inbound topic with every `request` segment rewritten to `response`,
/// leftmost first, non-overlapping.
pub open spec fn rewritten_topic(s: Seq<char>) -> Seq<char>
    decreases s.len(),
{
    if s.len() == 0 {
        s
    } else if s.len() >= 7 && s.take(7) == "request"@ {
        "response"@ + rewritten_topic(s.skip(7))
    } else {
        seq![s[0]] + rewritten_topic(s.skip(1))
    }
}

/// Derives the reply topic from the inbound one: `request` becomes
/// `response`.
#[verifier::loop_isolation(false)]
pub fn rewrite_topic(topic: &str) -> (r: String)
    ensures
        r@ == rewritten_topic(topic@),
{
    proof {
        reveal_strlit("request");
        reveal_strlit("response");
    }
    let n = topic.unicode_len();
    let mut out = String::new();
    let mut i: usize = 0;
    proof {
        assert(topic@.skip(0) =~= topic@);
        assert(Seq::<char>::empty() + rewritten_topic(topic@) =~= rewritten_topic(topic@));
    }
    while i < n
        invariant
            0 <= i <= n,
            rewritten_topic(topic@) == out@ + rewritten_topic(topic@.skip(i as int)),
        decreases n - i,
    {
        let matched: bool = n >= 7 && i <= n - 7 && topic.get_char(i) == 'r' && topic.get_char(i + 1) == 'e'
            && topic.get_char(i + 2) == 'q' && topic.get_char(i + 3) == 'u' && topic.get_char(
            i + 4,
        ) == 'e' && topic.get_char(i + 5) == 's' && topic.get_char(i + 6) == 't';
        if matched {
            proof {
                assert(topic@.skip(i as int).take(7) =~= "request"@);
                assert(topic@.skip(i as int).skip(7) =~= topic@.skip(i as int + 7));
                assert(rewritten_topic(topic@.skip(i as int)) == "response"@ + rewritten_topic(
                    topic@.skip(i as int + 7),
                ));
                assert(out@ + rewritten_topic(topic@.skip(i as int)) =~= (out@ + "response"@)
                    + rewritten_topic(topic@.skip(i as int + 7)));
            }
            out.append("response");
            i += 7;
        } else {
            proof {
                let rest = topic@.skip(i as int);
                assert(rest.len() > 0);
                if rest.len() >= 7 && rest.take(7) == "request"@ {
                    assert(rest.take(7)[0] == topic@[i as int]);
                    assert(rest.take(7)[1] == topic@[i as int + 1]);
                    assert(rest.take(7)[2] == topic@[i as int + 2]);
                    assert(rest.take(7)[3] == topic@[i as int + 3]);
                    assert(rest.take(7)[4] == topic@[i as int + 4]);
                    assert(rest.take(7)[5] == topic@[i as int + 5]);
                    assert(rest.take(7)[6] == topic@[i as int + 6]);
                    assert(false);
                }
                assert(rewritten_topic(rest) == seq![rest[0]] + rewritten_topic(rest.skip(1)));
                assert(rest.skip(1) =~= topic@.skip(i as int + 1));
                assert(seq![rest[0]] =~= topic@.subrange(i as int, i as int + 1));
                assert(out@ + rewritten_topic(rest) =~= (out@ + topic@.subrange(
                    i as int,
                    i as int + 1,
                )) + rewritten_topic(topic@.skip(i as int + 1)));
            }
            let piece = topic.substring_char(i, i + 1);
            out.append(piece);
            i += 1;
        }
    }
    proof {
        assert(topic@.skip(n as int) =~= Seq::<char>::empty());
        assert(out@ + Seq::<char>::empty() =~= out@);
    }
    out
}

} // verus!
