//! The command side of the relay: who may give commands, and what is replied
//! to each command once the gateway has answered.
use vstd::prelude::*;
use crate::command::{command_of, parse_command, Command};
use crate::message::Message;
use crate::message::lemma_html_keeps_content;
use crate::text::{contains_run, decimal, decimal_string};

verus! {

/// Where an inbound chat event goes.
#[derive(Clone, Copy, Debug, PartialEq, Eq, Structural)]
pub enum Routed {
    /// The owner gave this command: it is carried out and answered.
    Answer(Command),
    /// Nothing is asked of the gateway and nothing is sent.
    Unhandled,
}

/// A command together with what the gateway made of it.
#[derive(Debug, PartialEq, Eq)]
pub enum Handled {
    Listed { listing: Result<Vec<Message>, String> },
    Deleted { slot: u8, index: u32, result: Result<(), String> },
}

/// One text to send to one chat, as HTML or as plain text.
#[derive(Clone, Debug, PartialEq, Eq)]
pub struct Outgoing {
    pub chat_id: i64,
    pub text: String,
    pub html: bool,
}

/// The bot of one owner.
#[derive(Clone, Copy, Debug, PartialEq, Eq, Structural)]
pub struct SisBot {
    pub owner_id: i64,
}

/// The event has a sender, and that sender's id is the owner's id, the two
/// compared as numbers. A negative owner id is nobody's id.
pub open spec fn is_owner(owner_id: i64, sender: Option<u64>) -> bool {
    sender matches Some(id) && id as int == owner_id as int
}

/// Where an event goes: a text of the owner that is a command for the bot
/// named `bot_name` is answered. Whatever anyone else sends is left alone,
/// and so is what holds no text or no command.
pub open spec fn route(
    owner_id: i64,
    sender: Option<u64>,
    text: Option<Seq<char>>,
    bot_name: Seq<char>,
) -> Routed {
    if !is_owner(owner_id, sender) {
        Routed::Unhandled
    } else {
        match text {
            Some(t) => match command_of(t, bot_name) {
                Ok(c) => Routed::Answer(c),
                Err(_) => Routed::Unhandled,
            },
            None => Routed::Unhandled,
        }
    }
}

/// The text of an event as the contracts see it.
pub open spec fn text_view(text: Option<&str>) -> Option<Seq<char>> {
    match text {
        Some(t) => Some(t@),
        None => None,
    }
}

/// The confirmation of a deletion.
pub open spec fn deleted_notice(slot: u8, index: u32) -> Seq<char> {
    "SMS "@ + decimal(slot as nat) + ":"@ + decimal(index as nat) + " deleted"@
}

/// `o` is the text `text` for the chat `chat_id`, in the given markup.
pub open spec fn is_reply(o: Outgoing, chat_id: i64, text: Seq<char>, html: bool) -> bool {
    o.chat_id == chat_id && o.text@ == text && o.html == html
}

/// `replies` is the one plain text `text` for the chat `chat_id`.
pub open spec fn is_single_notice(replies: Seq<Outgoing>, chat_id: i64, text: Seq<char>) -> bool {
    replies.len() == 1 && is_reply(replies[0], chat_id, text, false)
}

/// `replies` is exactly what is sent to `chat_id` for `handled`:
/// for an empty listing one notice; for a listing one rich text per message,
/// in the listing's order; for a deletion one confirmation; for a failure of
/// either, one notice that ends in the cause.
pub open spec fn answers(chat_id: i64, handled: Handled, replies: Seq<Outgoing>) -> bool {
    match handled {
        Handled::Listed { listing: Ok(messages) } => if messages@.len() == 0 {
            is_single_notice(replies, chat_id, "No messages"@)
        } else {
            replies.len() == messages@.len() && forall|i: int|
                0 <= i < messages@.len() ==> is_reply(
                    #[trigger] replies[i],
                    chat_id,
                    messages@[i].html_text(),
                    true,
                )
        },
        Handled::Listed { listing: Err(cause) } => is_single_notice(
            replies,
            chat_id,
            "Error getting SMS list: "@ + cause@,
        ),
        Handled::Deleted { slot, index, result: Ok(_) } => is_single_notice(
            replies,
            chat_id,
            deleted_notice(slot, index),
        ),
        Handled::Deleted { slot, index, result: Err(cause) } => is_single_notice(
            replies,
            chat_id,
            "Error deleting SMS: "@ + cause@,
        ),
    }
}

fn notice(chat_id: i64, text: String) -> (r: Vec<Outgoing>)
    ensures
        is_single_notice(r@, chat_id, text@),
{
    let mut replies: Vec<Outgoing> = Vec::new();
    replies.push(Outgoing { chat_id, text, html: false });
    replies
}

impl SisBot {
    pub fn new(owner_id: i64) -> (r: SisBot)
        ensures
            r.owner_id == owner_id,
    {
        SisBot { owner_id }
    }

    /// Tells whether `sender` is the owner. An event without a sender is not the owner's.
    pub fn is_from_owner(&self, sender: Option<u64>) -> (r: bool)
        ensures
            r == is_owner(self.owner_id, sender),
    {
        match sender {
            Some(id) => self.owner_id >= 0 && id == self.owner_id as u64,
            None => false,
        }
    }

    /// Routes one inbound chat event. `sender` is the user it comes from, if
    /// any; `text` is its text, if it has one; `bot_name` is the name under
    /// which the bot is addressed. The sender is looked at first: an event of
    /// anyone but the owner is dropped unread.
    pub fn run(&self, sender: Option<u64>, text: Option<&str>, bot_name: &str) -> (r: Routed)
        ensures
            r == route(self.owner_id, sender, text_view(text), bot_name@),
    {
        if !self.is_from_owner(sender) {
            return Routed::Unhandled;
        }
        match text {
            Some(t) => match parse_command(t, bot_name) {
                Ok(c) => Routed::Answer(c),
                Err(_) => Routed::Unhandled,
            },
            None => Routed::Unhandled,
        }
    }

    /// A rich text for the owner's chat.
    pub fn send_message_owner(&self, text: &str) -> (r: Outgoing)
        ensures
            is_reply(r, self.owner_id, text@, true),
    {
        Outgoing { chat_id: self.owner_id, text: String::from_str(text), html: true }
    }
}

/// The replies to a command that the gateway has dealt with, for the chat
/// that the command came from.
pub fn answer(chat_id: i64, handled: Handled) -> (r: Vec<Outgoing>)
    ensures
        answers(chat_id, handled, r@),
{
    match handled {
        Handled::Listed { listing } => match listing {
            Ok(messages) => {
                if messages.len() == 0 {
                    notice(chat_id, String::from_str("No messages"))
                } else {
                    let mut replies: Vec<Outgoing> = Vec::new();
                    let mut i: usize = 0;
                    while i < messages.len()
                        invariant
                            i <= messages@.len(),
                            replies@.len() == i,
                            forall|k: int|
                                0 <= k < i ==> is_reply(
                                    #[trigger] replies@[k],
                                    chat_id,
                                    messages@[k].html_text(),
                                    true,
                                ),
                        decreases messages@.len() - i,
                    {
                        replies.push(Outgoing { chat_id, text: messages[i].to_html(), html: true });
                        i = i + 1;
                    }
                    replies
                }
            },
            Err(cause) => {
                let mut text = String::from_str("Error getting SMS list: ");
                text.append(cause.as_str());
                notice(chat_id, text)
            },
        },
        Handled::Deleted { slot, index, result } => match result {
            Ok(_) => {
                let mut text = String::from_str("SMS ");
                text.append(decimal_string(slot as u64).as_str());
                text.append(":");
                text.append(decimal_string(index as u64).as_str());
                text.append(" deleted");
                notice(chat_id, text)
            },
            Err(cause) => {
                let mut text = String::from_str("Error deleting SMS: ");
                text.append(cause.as_str());
                notice(chat_id, text)
            },
        },
    }
}

/// Whatever is sent by anyone whose id differs from the owner's, or without a
/// sender, is left alone: no command comes of it, so nothing is asked of the
/// gateway and nothing is replied.
pub proof fn lemma_stranger_is_dropped(
    owner_id: i64,
    sender: Option<u64>,
    text: Option<Seq<char>>,
    bot_name: Seq<char>,
)
    requires
        sender matches Some(id) ==> id as int != owner_id as int,
    ensures
        route(owner_id, sender, text, bot_name) == Routed::Unhandled,
{
}

/// A listing without messages is answered by the one notice that says so.
pub proof fn lemma_empty_listing_reply(chat_id: i64, messages: Vec<Message>, replies: Seq<Outgoing>)
    requires
        messages@.len() == 0,
        answers(chat_id, Handled::Listed { listing: Ok(messages) }, replies),
    ensures
        replies.len() == 1,
        replies[0].text@ == "No messages"@,
        replies[0].chat_id == chat_id,
{
}

/// A listing of messages is answered by as many replies as it has messages,
/// and the reply to each holds that message's sender, timestamp and body.
pub proof fn lemma_listing_replies(chat_id: i64, messages: Vec<Message>, replies: Seq<Outgoing>)
    requires
        messages@.len() > 0,
        answers(chat_id, Handled::Listed { listing: Ok(messages) }, replies),
    ensures
        replies.len() == messages@.len(),
        forall|i: int|
            0 <= i < replies.len() ==> {
                &&& contains_run((#[trigger] replies[i]).text@, messages@[i].from@)
                &&& contains_run(replies[i].text@, messages@[i].timestamp@)
                &&& contains_run(replies[i].text@, messages@[i].text@)
                &&& replies[i].chat_id == chat_id
            },
{
    assert forall|i: int| 0 <= i < replies.len() implies {
        &&& contains_run((#[trigger] replies[i]).text@, messages@[i].from@)
        &&& contains_run(replies[i].text@, messages@[i].timestamp@)
        &&& contains_run(replies[i].text@, messages@[i].text@)
        &&& replies[i].chat_id == chat_id
    } by {
        lemma_html_keeps_content(messages@[i]);
    }
}

/// A deletion is answered once: by the confirmation where it succeeded, by a
/// notice that holds the cause where it failed. The two are never the same text.
pub proof fn lemma_deletion_reply(
    chat_id: i64,
    slot: u8,
    index: u32,
    result: Result<(), String>,
    replies: Seq<Outgoing>,
)
    requires
        answers(chat_id, Handled::Deleted { slot, index, result }, replies),
    ensures
        replies.len() == 1,
        result is Ok ==> replies[0].text@ == deleted_notice(slot, index),
        result matches Err(cause) ==> replies[0].text@ != deleted_notice(slot, index)
            && contains_run(replies[0].text@, cause@),
{
    reveal_strlit("Error deleting SMS: ");
    reveal_strlit("SMS ");
    match result {
        Ok(_) => {},
        Err(cause) => {
            let text = "Error deleting SMS: "@ + cause@;
            assert(text[0] == 'E');
            assert(deleted_notice(slot, index)[0] == 'S');
            crate::text::lemma_middle_is_contained("Error deleting SMS: "@, cause@, Seq::empty());
            assert("Error deleting SMS: "@ + cause@ + Seq::<char>::empty() =~= text);
        },
    }
}

} // verus!
