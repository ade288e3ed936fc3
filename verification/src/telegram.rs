//! The request by which a text is handed to the messaging service.

use crate::config::{TelegramConfig, TelegramView};
use crate::decimal::{decimal, decimal_string};
use vstd::prelude::*;

verus! {

/// What is sent to the service: the address to post to, and the three fields
/// of the form.
#[derive(Clone, Debug, PartialEq, Eq)]
pub struct SendMessage {
    pub url: String,
    pub chat_id: String,
    pub text: String,
    pub parse_mode: String,
}

/// A `SendMessage` with its strings as sequences of characters.
pub struct SendMessageView {
    pub url: Seq<char>,
    pub chat_id: Seq<char>,
    pub text: Seq<char>,
    pub parse_mode: Seq<char>,
}

impl View for SendMessage {
    type V = SendMessageView;

    open spec fn view(&self) -> SendMessageView {
        SendMessageView {
            url: self.url@,
            chat_id: self.chat_id@,
            text: self.text@,
            parse_mode: self.parse_mode@,
        }
    }
}

/// The request that hands `text` to the chat of `telegram`: posted to the
/// address of the bot's method `sendMessage`, for the chat written in base
/// ten, to be read as Markdown.
pub open spec fn send_message_of(telegram: TelegramView, text: Seq<char>) -> SendMessageView {
    SendMessageView {
        url: "https://api.telegram.org/bot"@ + telegram.api_key + "/sendMessage"@,
        chat_id: decimal(telegram.user_id as int),
        text,
        parse_mode: "Markdown"@,
    }
}

impl TelegramConfig {
    /// Makes the request that hands `text` to the chat.
    pub fn send_message(&self, text: &str) -> (request: SendMessage)
        ensures
            request@ == send_message_of(self@, text@),
    {
        let mut url = String::from_str("https://api.telegram.org/bot");
        url.append(self.api_key.as_str());
        url.append("/sendMessage");
        SendMessage {
            url,
            chat_id: decimal_string(self.user_id),
            text: text.to_owned(),
            parse_mode: String::from_str("Markdown"),
        }
    }
}

} // verus!
