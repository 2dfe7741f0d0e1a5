//! One XDCC request: what it asks for, the connection it configures, the
//! message it sends, and its decisions on each incoming message.
use crate::engine::InnerEngine;
use crate::response::{decode_offer, OfferView, Response};
use crate::text::{decimal, digit_char, lemma_digit_char, push_char};
use std::sync::Arc;
use vstd::prelude::*;

verus! {

broadcast use vstd::string::to_string_from_display_ensures_for_str;

/// Information needed to perform an XDCC request.
#[derive(Clone, Debug)]
pub struct RequestInfo {
    /// IRC server address.
    pub server: String,
    /// IRC channel to join.
    pub channel: String,
    /// Bot nickname to send the request to.
    pub botname: String,
    /// XDCC pack number.
    pub packnum: u64,
}

/// A single XDCC request created from an `Engine`.
pub struct Request {
    pub inner: Arc<InnerEngine>,
    pub info: RequestInfo,
}

/// What the IRC client is configured with to open a request's connection.
#[derive(Clone, Debug)]
pub struct ConnectionConfig {
    pub nickname: Option<String>,
    pub username: Option<String>,
    pub server: String,
    pub channels: Vec<String>,
}

/// An incoming IRC message, as far as a request tells messages apart.
#[derive(Clone, Debug)]
pub enum Incoming {
    /// A `PRIVMSG` to `target` with body `text`.
    ChannelMessage { target: String, text: String },
    /// Any other command (`PING`, numerics, joins, ...).
    Other,
}

/// What ends, or continues, one wait of a request.
#[derive(Clone, Debug)]
pub enum Event {
    /// The next message of the stream.
    Message(Incoming),
    /// The stream has ended.
    StreamEnded,
    /// The configured timeout elapsed.
    TimedOut,
}

/// Why a wait of a request failed.
#[derive(Clone, Copy, Debug, PartialEq, Eq, Structural)]
pub enum RequestError {
    /// The message stream ended first.
    ChannelClosed,
    /// The configured timeout elapsed first.
    Timeout,
}

/// The offer that a message carries: the body of a channel message that decodes.
pub open spec fn offer_in(m: Incoming) -> Option<OfferView> {
    match m {
        Incoming::ChannelMessage { text, .. } => decode_offer(text@),
        Incoming::Other => None,
    }
}

/// The text of the pack request: `xdcc send #<packnum>`.
pub open spec fn pack_request(packnum: u64) -> Seq<char> {
    seq!['x', 'd', 'c', 'c', ' ', 's', 'e', 'n', 'd', ' ', '#'] + decimal(packnum as nat)
}

/// Appends the decimal writing of `n` to `s`.
fn push_decimal(s: &mut String, n: u64)
    ensures
        final(s)@ == old(s)@ + decimal(n as nat),
    decreases n,
{
    if n >= 10 {
        push_decimal(s, n / 10);
    }
    let d = n % 10;
    let c = if d == 0 {
        '0'
    } else if d == 1 {
        '1'
    } else if d == 2 {
        '2'
    } else if d == 3 {
        '3'
    } else if d == 4 {
        '4'
    } else if d == 5 {
        '5'
    } else if d == 6 {
        '6'
    } else if d == 7 {
        '7'
    } else if d == 8 {
        '8'
    } else {
        '9'
    };
    proof {
        lemma_digit_char(d as nat);
        let ds = seq!['0', '1', '2', '3', '4', '5', '6', '7', '8', '9'];
        assert(c == ds[d as int]);
    }
    push_char(s, c);
    proof {
        if n >= 10 {
            assert(decimal(n as nat) == decimal((n / 10) as nat).push(digit_char((n % 10) as nat)));
        }
    }
    assert(final(s)@ =~= old(s)@ + decimal(n as nat));
}

/// The body of the message that asks a bot for pack `packnum`.
pub fn pack_request_text(packnum: u64) -> (r: String)
    ensures
        r@ == pack_request(packnum),
{
    proof {
        reveal_strlit("xdcc send #");
    }
    let mut s = "xdcc send #".to_string();
    push_decimal(&mut s, packnum);
    s
}

/// The outcome of waiting for the first channel message on `e`: `None`
/// while the wait goes on.
pub open spec fn channel_outcome(e: Event) -> Option<Result<(), RequestError>> {
    match e {
        Event::Message(Incoming::ChannelMessage { .. }) => Some(Ok(())),
        Event::Message(Incoming::Other) => None,
        Event::StreamEnded => Some(Err(RequestError::ChannelClosed)),
        Event::TimedOut => Some(Err(RequestError::Timeout)),
    }
}

/// Waiting for the first channel message: any channel message ends it, other
/// messages are skipped; stream end and timeout fail it.
pub fn await_channel(e: &Event) -> (r: Option<Result<(), RequestError>>)
    ensures
        r == channel_outcome(*e),
{
    match e {
        Event::Message(Incoming::ChannelMessage { .. }) => Some(Ok(())),
        Event::Message(Incoming::Other) => None,
        Event::StreamEnded => Some(Err(RequestError::ChannelClosed)),
        Event::TimedOut => Some(Err(RequestError::Timeout)),
    }
}

/// Waiting for a transfer offer: the first channel message whose body
/// decodes ends it with that offer; every other message is skipped; stream
/// end and timeout fail it.
pub fn await_offer(e: &Event) -> (r: Option<Result<Response, RequestError>>)
    ensures
        match *e {
            Event::Message(m) => match offer_in(m) {
                Some(o) => r matches Some(Ok(x)) && x@ == o,
                None => r is None,
            },
            Event::StreamEnded => r == Some(Err::<Response, RequestError>(RequestError::ChannelClosed)),
            Event::TimedOut => r == Some(Err::<Response, RequestError>(RequestError::Timeout)),
        },
{
    match e {
        Event::Message(Incoming::ChannelMessage { text, .. }) => match Response::decode(
            text.as_str(),
        ) {
            Some(x) => Some(Ok(x)),
            None => None,
        },
        Event::Message(Incoming::Other) => None,
        Event::StreamEnded => Some(Err(RequestError::ChannelClosed)),
        Event::TimedOut => Some(Err(RequestError::Timeout)),
    }
}

/// Waits for the first channel message of `messages`, skipping every other
/// message; on success, the position just after it, where the next wait
/// goes on. Fails with `ChannelClosed` where the messages end first.
pub fn wait_for_first_private_message(messages: &Vec<Incoming>) -> (r: Result<usize, RequestError>)
    ensures
        match r {
            Ok(k) => 0 < k <= messages@.len() && messages@[k - 1] is ChannelMessage && forall|j: int|
                0 <= j < k - 1 ==> #[trigger] messages@[j] is Other,
            Err(e) => e == RequestError::ChannelClosed && forall|j: int|
                0 <= j < messages@.len() ==> #[trigger] messages@[j] is Other,
        },
{
    let mut i: usize = 0;
    while i < messages.len()
        invariant
            i <= messages@.len(),
            forall|j: int| 0 <= j < i ==> #[trigger] messages@[j] is Other,
        decreases messages@.len() - i,
    {
        if let Incoming::ChannelMessage { .. } = &messages[i] {
            return Ok(i + 1);
        }
        i = i + 1;
    }
    Err(RequestError::ChannelClosed)
}

/// Waits, from position `from` of `messages` on, for the first channel
/// message whose body decodes as an offer, skipping every other message; on
/// success, the position just after it and the offer. Fails with
/// `ChannelClosed` where the messages end first.
pub fn wait_for_dcc_response(messages: &Vec<Incoming>, from: usize) -> (r: Result<
    (usize, Response),
    RequestError,
>)
    requires
        from <= messages@.len(),
    ensures
        match r {
            Ok((k, x)) => from < k <= messages@.len() && offer_in(messages@[k - 1]) == Some(x@)
                && forall|j: int| from <= j < k - 1 ==> #[trigger] offer_in(messages@[j]) is None,
            Err(e) => e == RequestError::ChannelClosed && forall|j: int|
                from <= j < messages@.len() ==> #[trigger] offer_in(messages@[j]) is None,
        },
{
    let mut i: usize = from;
    while i < messages.len()
        invariant
            from <= i <= messages@.len(),
            forall|j: int| from <= j < i ==> #[trigger] offer_in(messages@[j]) is None,
        decreases messages@.len() - i,
    {
        if let Incoming::ChannelMessage { text, .. } = &messages[i] {
            if let Some(x) = Response::decode(text.as_str()) {
                return Ok((i + 1, x));
            }
        }
        i = i + 1;
    }
    Err(RequestError::ChannelClosed)
}

/// Where a request stands between its two waits.
#[derive(Clone, Copy, Debug, PartialEq, Eq, Structural)]
pub enum Stage {
    /// Connected; waiting for the first channel message.
    AwaitingChannel,
    /// The pack request is sent; waiting for the bot's offer.
    AwaitingOffer,
}

/// What the driver of a request does next.
#[derive(Debug)]
pub enum Action {
    /// Wait for the next event.
    Wait,
    /// Send `text` as a channel message to `target`, then wait again.
    SendPackRequest { target: String, text: String },
    /// The request is over, with this result.
    Finish(Result<Response, RequestError>),
}

impl Request {
    /// How long each wait of this request may take, in seconds.
    pub fn timeout_secs(&self) -> (r: u64)
        ensures
            r == self.inner.timeout(),
    {
        self.inner.timeout_secs()
    }

    /// The configuration that opens this request's connection: fresh names
    /// from the engine, the request's server and its one channel.
    pub fn connection_config(&self) -> (r: ConnectionConfig)
        ensures
            r.server@ == self.info.server@,
            r.channels@.len() == 1,
            r.channels@[0]@ == self.info.channel@,
            r.nickname matches Some(s) ==> s@.len() > 0,
            r.username matches Some(s) ==> s@.len() > 0,
            !self.inner.has_usernames() ==> r.username is None,
    {
        ConnectionConfig {
            nickname: self.inner.next_nickname(),
            username: self.inner.next_username(),
            server: self.info.server.clone(),
            channels: vec![self.info.channel.clone()],
        }
    }

    /// The step of this request on event `e` in stage `stage`: the next stage
    /// and what to do. The first channel message moves the request on and
    /// sends the pack request to the bot; then the first decodable offer
    /// finishes it. Stream end and timeout finish it with their error.
    pub fn on_event(&self, stage: Stage, e: &Event) -> (r: (Stage, Action))
        ensures
            stage == Stage::AwaitingChannel ==> match channel_outcome(*e) {
                None => r.0 == Stage::AwaitingChannel && r.1 is Wait,
                Some(Ok(())) => r.0 == Stage::AwaitingOffer && (r.1 matches Action::SendPackRequest {
                    target,
                    text,
                } && target@ == self.info.botname@ && text@ == pack_request(self.info.packnum)),
                Some(Err(x)) => r.1 matches Action::Finish(Err(y)) && y == x,
            },
            stage == Stage::AwaitingOffer ==> match *e {
                Event::Message(m) => match offer_in(m) {
                    Some(o) => r.1 matches Action::Finish(Ok(x)) && x@ == o,
                    None => r.0 == Stage::AwaitingOffer && r.1 is Wait,
                },
                Event::StreamEnded => r.1 matches Action::Finish(Err(y)) && y
                    == RequestError::ChannelClosed,
                Event::TimedOut => r.1 matches Action::Finish(Err(y)) && y == RequestError::Timeout,
            },
    {
        match stage {
            Stage::AwaitingChannel => match await_channel(e) {
                None => (Stage::AwaitingChannel, Action::Wait),
                Some(Ok(())) => (
                    Stage::AwaitingOffer,
                    Action::SendPackRequest {
                        target: self.info.botname.clone(),
                        text: pack_request_text(self.info.packnum),
                    },
                ),
                Some(Err(x)) => (Stage::AwaitingChannel, Action::Finish(Err(x))),
            },
            Stage::AwaitingOffer => match await_offer(e) {
                None => (Stage::AwaitingOffer, Action::Wait),
                Some(res) => (Stage::AwaitingOffer, Action::Finish(res)),
            },
        }
    }
}

} // verus!
