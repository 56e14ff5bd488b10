//! The market data feed.

use vstd::prelude::*;
use vstd::string::*;
use crate::pairs::{tokens_of, Markets};
use crate::text::{ends_with, same_text, strip_suffixes, texts, without_suffixes};

verus! {

/// The address of the market feed, given the address of the service with or without what the feed
/// adds to it.
pub open spec fn feed_url(wss_url: Seq<char>) -> Seq<char> {
    without_suffixes(without_suffixes(wss_url, "/ws"@), "/"@) + "/ws/market"@
}

/// The address of the market feed.
pub fn market_ws_url(wss_url: &str) -> (result: String)
    ensures
        result@ == feed_url(wss_url@),
{
    let mut url = strip_suffixes(strip_suffixes(wss_url, "/ws"), "/").to_owned();
    url.append("/ws/market");
    url
}

/// It makes no difference whether the address of the service ends with `/ws`, and none whether
/// slashes follow an address that does not.
pub proof fn law_feed_url(wss_url: Seq<char>)
    ensures
        feed_url(wss_url + "/ws"@) == feed_url(wss_url),
        !ends_with(wss_url, "/ws"@) ==> feed_url(wss_url + "/"@) == feed_url(wss_url),
{
    reveal_strlit("/ws");
    reveal_strlit("/");
    let longer = wss_url + "/ws"@;
    assert(longer.skip(longer.len() - 3) == "/ws"@);
    assert(longer.take(longer.len() - 3) == wss_url);
    if !ends_with(wss_url, "/ws"@) {
        let slashed = wss_url + "/"@;
        assert(slashed.last() == '/');
        assert(!ends_with(slashed, "/ws"@)) by {
            if ends_with(slashed, "/ws"@) {
                assert(slashed.skip(slashed.len() - 3)[2] == slashed.last());
            }
        }
        assert(slashed.skip(slashed.len() - 1) == "/"@);
        assert(slashed.take(slashed.len() - 1) == wss_url);
    }
}

/// What is asked of the market feed.
pub struct Subscription {
    pub assets_ids: Vec<String>,
    pub kind: String,
    /// Whether the feed's extra messages are wanted; `None` leaves that out of the request.
    pub custom_feature_enabled: Option<bool>,
}

/// A request for both tokens of each pair, with the extra messages.
pub fn market_subscription(markets: &Markets) -> (result: Subscription)
    ensures
        texts(result.assets_ids@) == tokens_of(markets.entries()),
        result.kind@ == "market"@,
        result.custom_feature_enabled == Some(true),
{
    Subscription {
        assets_ids: markets.token_ids(),
        kind: "market".to_owned(),
        custom_feature_enabled: Some(true),
    }
}

/// A request for some tokens.
pub fn token_subscription(token_ids: Vec<String>) -> (result: Subscription)
    ensures
        result.assets_ids == token_ids,
        result.kind@ == "market"@,
        result.custom_feature_enabled is None,
{
    Subscription {
        assets_ids: token_ids,
        kind: "market".to_owned(),
        custom_feature_enabled: None,
    }
}

/// What came from the feed.
pub enum Frame {
    Text(String),
    Close,
    Failure,
    Other,
}

/// What to do about what came from the feed.
#[derive(Clone, Copy, Debug, PartialEq, Eq, Structural)]
pub enum FrameAction {
    /// Nothing.
    Skip,
    /// Read it as a message.
    Decode,
    /// Leave the connection and make a new one.
    Reconnect,
}

/// What to do about what came from the feed.
pub open spec fn frame_action(frame: Frame) -> FrameAction {
    match frame {
        Frame::Text(text) if text@ == "PONG"@ => FrameAction::Skip,
        Frame::Text(_) => FrameAction::Decode,
        Frame::Close | Frame::Failure => FrameAction::Reconnect,
        Frame::Other => FrameAction::Skip,
    }
}

/// Every text but the answer to a ping is a message, whatever it says; nothing else is. A connection
/// is left when it is closed or fails, and for nothing that came over it.
pub proof fn law_frames(text: String, frame: Frame)
    ensures
        frame_action(Frame::Text(text)) == FrameAction::Decode <==> text@ != seq!['P', 'O', 'N', 'G'],
        frame_action(Frame::Text(text)) != FrameAction::Reconnect,
        frame_action(frame) == FrameAction::Decode ==> frame is Text,
        frame_action(Frame::Close) == FrameAction::Reconnect,
        frame_action(Frame::Failure) == FrameAction::Reconnect,
        frame_action(Frame::Other) == FrameAction::Skip,
{
    reveal_strlit("PONG");
    assert("PONG"@ == seq!['P', 'O', 'N', 'G']);
}

/// What to do about what came from the feed: texts other than the answer to a ping are messages.
pub fn on_frame(frame: &Frame) -> (result: FrameAction)
    ensures
        result == (match *frame {
            Frame::Text(text) => if text@ == "PONG"@ {
                FrameAction::Skip
            } else {
                FrameAction::Decode
            },
            Frame::Close => FrameAction::Reconnect,
            Frame::Failure => FrameAction::Reconnect,
            Frame::Other => FrameAction::Skip,
        }),
        result == frame_action(*frame),
        result == FrameAction::Reconnect <==> *frame is Close || *frame is Failure,
        result == FrameAction::Decode <==> (*frame matches Frame::Text(text) && text@ != "PONG"@),
{
    match frame {
        Frame::Text(text) => if same_text(text.as_str(), "PONG") {
            FrameAction::Skip
        } else {
            FrameAction::Decode
        },
        Frame::Close => FrameAction::Reconnect,
        Frame::Failure => FrameAction::Reconnect,
        Frame::Other => FrameAction::Skip,
    }
}

/// A value that `serde_json` reads.
#[verifier::external_type_specification]
#[verifier::external_body]
pub struct ExValue(serde_json::Value);

/// The value that `serde_json` reads from a text, or `None` if the text is not JSON.
pub uninterp spec fn json_of_text(text: Seq<char>) -> Option<serde_json::Value>;

/// Calls `serde_json::from_str` for a value of any kind. Its result is named; the reason for which
/// a text is rejected is dropped.
#[verifier::external_body]
fn parse_json(text: &str) -> (result: Option<serde_json::Value>)
    ensures
        result == json_of_text(text@),
{
    serde_json::from_str::<serde_json::Value>(text).ok()
}

/// What to do about what came from a feed whose messages are handed on as they are.
pub enum FeedStep {
    /// Hand on a message.
    Deliver(serde_json::Value),
    /// Nothing.
    Skip,
    /// Give up.
    Fail,
}

/// What to do about a text, given the value that it is in JSON, if it is one.
pub fn on_feed_text(value: Option<serde_json::Value>) -> (result: FeedStep)
    ensures
        result == (match value {
            Some(value) => FeedStep::Deliver(value),
            None => FeedStep::Fail,
        }),
{
    match value {
        Some(value) => FeedStep::Deliver(value),
        None => FeedStep::Fail,
    }
}

/// What to do about what came from a feed whose messages are handed on as they are.
pub open spec fn feed_step(frame: Frame) -> FeedStep {
    match frame {
        Frame::Text(text) => match json_of_text(text@) {
            Some(value) => FeedStep::Deliver(value),
            None => FeedStep::Fail,
        },
        Frame::Failure => FeedStep::Fail,
        Frame::Close | Frame::Other => FeedStep::Skip,
    }
}

/// Every text that is JSON is handed on as the value that it is, and nothing else is; a text that is
/// not, or a failure, ends the run, and nothing else does.
pub proof fn law_feed_steps(frame: Frame, value: serde_json::Value)
    ensures
        feed_step(frame) == FeedStep::Deliver(value) <==> (frame matches Frame::Text(text)
            && json_of_text(text@) == Some(value)),
        feed_step(frame) is Fail <==> frame is Failure || (frame matches Frame::Text(text)
            && json_of_text(text@) is None),
        feed_step(frame) is Skip <==> frame is Close || frame is Other,
{
}

/// What to do about what came from a feed whose messages are handed on as they are: every text is
/// a message, and one that is not JSON ends the run.
pub fn on_feed_frame(frame: &Frame) -> (result: FeedStep)
    ensures
        match *frame {
            Frame::Text(text) => match json_of_text(text@) {
                Some(value) => result == FeedStep::Deliver(value),
                None => result is Fail,
            },
            Frame::Close => result is Skip,
            Frame::Failure => result is Fail,
            Frame::Other => result is Skip,
        },
        result == feed_step(*frame),
{
    match frame {
        Frame::Text(text) => on_feed_text(parse_json(text.as_str())),
        Frame::Close => FeedStep::Skip,
        Frame::Failure => FeedStep::Fail,
        Frame::Other => FeedStep::Skip,
    }
}

/// What became of a connection to the feed.
#[derive(Clone, Copy, Debug, PartialEq, Eq, Structural)]
pub enum LinkEvent {
    /// It could not be made.
    NotConnected,
    /// The request for tokens could not be sent.
    NotSubscribed,
    /// It was there and is over.
    Lost,
}

/// What to do about it.
#[derive(Clone, Copy, Debug, PartialEq, Eq, Structural)]
pub enum LinkAction {
    /// Connect again after so many seconds.
    ReconnectAfter(u64),
    /// End the run.
    Stop,
}

/// What to do about a connection that is over or never was.
pub fn on_link(event: LinkEvent) -> (result: LinkAction)
    ensures
        result == (match event {
            LinkEvent::NotConnected => LinkAction::ReconnectAfter(4),
            LinkEvent::NotSubscribed => LinkAction::Stop,
            LinkEvent::Lost => LinkAction::ReconnectAfter(2),
        }),
        result == LinkAction::Stop <==> event == LinkEvent::NotSubscribed,
{
    match event {
        LinkEvent::NotConnected => LinkAction::ReconnectAfter(4),
        LinkEvent::NotSubscribed => LinkAction::Stop,
        LinkEvent::Lost => LinkAction::ReconnectAfter(2),
    }
}

/// The address of the feed is that of the service followed by `/ws/market`, where the former ends
/// neither with `/ws` nor with a slash.
pub proof fn law_plain_feed_url(wss_url: Seq<char>)
    requires
        wss_url.len() < 3 || wss_url.skip(wss_url.len() - 3) != "/ws"@,
        wss_url.len() < 1 || wss_url.last() != '/',
    ensures
        feed_url(wss_url) == wss_url + seq!['/', 'w', 's', '/', 'm', 'a', 'r', 'k', 'e', 't'],
{
    reveal_strlit("/ws");
    reveal_strlit("/");
    reveal_strlit("/ws/market");
    assert("/ws/market"@ == seq!['/', 'w', 's', '/', 'm', 'a', 'r', 'k', 'e', 't']);
    if wss_url.len() >= 1 {
        assert(wss_url.skip(wss_url.len() - 1)[0] == wss_url.last());
        assert("/"@[0] == '/');
    }
}

} // verus!
