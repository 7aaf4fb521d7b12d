//! The mention filter: classifies decoded stream events, keeping only fresh
//! posts that mention the bot — and the bot alone — and handing the text in
//! front of the mention to the command parser.
use vstd::prelude::*;

use crate::kaizo::Kaizo;
use crate::kaizo::chars_to_string;
use crate::kaizo::parse_result_ok;
use crate::kaizo::spec_trim;
use crate::kaizo::str_chars;
use crate::kaizo::trim_chars;

verus! {

/// One account mentioned in a post: the account's id and the character
/// offset at which the mention starts in the post's text.
#[derive(Clone, Copy, Debug)]
pub struct MentionEntity {
    pub user_id: u64,
    pub start: usize,
}

/// A decoded "new post" notification, reduced to the fields the filter
/// reads.
#[derive(Clone, Debug)]
pub struct StreamTweet {
    pub screen_name: String,
    pub id: u64,
    pub text: String,
    pub is_retweet: bool,
    pub is_quote: bool,
    pub mentions: Vec<MentionEntity>,
}

/// One event from the mention stream: a decoded post, some other decoded
/// event kind (a deletion, a heartbeat), or an envelope that would not
/// decode.
#[derive(Clone, Debug)]
pub enum StreamEvent {
    Tweet(StreamTweet),
    Other,
    Malformed,
}

/// What the stream must do with an event: emit a parsed request, silently
/// ignore the event, or fail the stream.
#[derive(Clone, Debug)]
pub enum EventAction {
    Emit(Kaizo),
    Ignore,
    Fail,
}

/// Whether a post is addressed to the bot: not a reshare, not a quoting
/// post, and mentioning exactly one account — the bot's own.
pub open spec fn spec_addressed_to_bot(t: StreamTweet, bot_id: u64) -> bool {
    !t.is_retweet && !t.is_quote && t.mentions@.len() == 1 && t.mentions@[0].user_id == bot_id
}

/// The command text of an addressed post: the characters in front of the
/// mention's reported offset, trimmed.
pub open spec fn spec_command_of(t: StreamTweet) -> Seq<char> {
    let upto = if t.mentions@[0].start <= t.text@.len() {
        t.mentions@[0].start as int
    } else {
        t.text@.len() as int
    };
    spec_trim(t.text@.take(upto))
}

/// Classifies one stream event. A malformed envelope fails the stream; any
/// event other than a fresh post addressed to the bot alone is silently
/// ignored; an addressed post is parsed, and is ignored just as silently
/// when no request can be parsed out of it.
pub fn classify_event(event: &StreamEvent, bot_id: u64) -> (r: EventAction)
    ensures
        match *event {
            StreamEvent::Malformed => r is Fail,
            StreamEvent::Other => r is Ignore,
            StreamEvent::Tweet(t) => {
                if !spec_addressed_to_bot(t, bot_id) {
                    r is Ignore
                } else {
                    match r {
                        EventAction::Emit(k) => parse_result_ok(
                            t.screen_name@,
                            t.id,
                            spec_command_of(t),
                            Some(k),
                        ),
                        EventAction::Ignore => parse_result_ok(
                            t.screen_name@,
                            t.id,
                            spec_command_of(t),
                            None,
                        ),
                        EventAction::Fail => false,
                    }
                }
            },
        },
{
    match event {
        StreamEvent::Malformed => EventAction::Fail,
        StreamEvent::Other => EventAction::Ignore,
        StreamEvent::Tweet(t) => {
            if t.is_retweet || t.is_quote || t.mentions.len() != 1 {
                return EventAction::Ignore;
            }
            let mention = t.mentions[0];
            if mention.user_id != bot_id {
                return EventAction::Ignore;
            }
            let cs = str_chars(t.text.as_str());
            let upto = if mention.start <= cs.len() {
                mention.start
            } else {
                cs.len()
            };
            let mut prefix: Vec<char> = Vec::new();
            let mut i: usize = 0;
            while i < upto
                invariant
                    i <= upto <= cs@.len(),
                    prefix@ == cs@.take(upto as int).take(i as int),
                decreases upto - i,
            {
                prefix.push(cs[i]);
                i = i + 1;
                proof {
                    assert(prefix@ =~= cs@.take(upto as int).take(i as int));
                }
            }
            proof {
                assert(prefix@ =~= cs@.take(upto as int));
            }
            let trimmed = trim_chars(&prefix);
            let command = chars_to_string(&trimmed);
            match Kaizo::new(t.screen_name.clone(), t.id, command.as_str()) {
                Some(k) => EventAction::Emit(k),
                None => EventAction::Ignore,
            }
        },
    }
}

} // verus!
