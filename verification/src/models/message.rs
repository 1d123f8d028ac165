//! Messages as they are written and as they are listed.

use crate::error::{ValidationError, ValidationErrorView};
use crate::models::chat::ChatId;
use crate::models::resource::ResourceId;
use crate::models::user::{invalid_input, UserId};
use crate::text::{byte_len, byte_length, check_blank, is_blank};
use crate::time::Timestamp;
use vstd::prelude::*;

verus! {

/// The identity that the store gives a message.
pub type MessageId = i64;

/// Most bytes that the text of a message may take.
pub const MESSAGE_TEXT_LENGTH_LIMIT: usize = 4096;

/// Why the text of a message is refused, if it is: it takes more than
/// 4096 bytes, or it is empty or all white space.
pub open spec fn message_text_error(text: Seq<char>) -> Option<ValidationErrorView> {
    if byte_len(text) > MESSAGE_TEXT_LENGTH_LIMIT {
        Some(invalid_input(text, "message text cannot be longer than 4096 bytes"@))
    } else if is_blank(text) {
        Some(invalid_input(text, "message text cannot be empty"@))
    } else {
        None
    }
}

/// Checks the text of a message: it takes at most 4096 bytes, and
/// something is left of it when it is trimmed. The length is looked at
/// first, so that only a short text is searched for what is no white space.
pub fn validate_message_text(text: &str) -> (result: Result<(), ValidationError>)
    ensures
        match result {
            Ok(()) => message_text_error(text@) is None,
            Err(e) => message_text_error(text@) == Some(e@),
        },
{
    if byte_length(text) > MESSAGE_TEXT_LENGTH_LIMIT {
        return Err(
            ValidationError::InvalidInput {
                value: text.to_owned(),
                reason: "message text cannot be longer than 4096 bytes".to_owned(),
            },
        );
    }
    if check_blank(text) {
        return Err(
            ValidationError::InvalidInput {
                value: text.to_owned(),
                reason: "message text cannot be empty".to_owned(),
            },
        );
    }
    Ok(())
}

#[derive(Clone, Debug)]
pub struct CreateMessageRequest {
    pub user_id: UserId,
    pub chat_id: ChatId,
    pub text: Option<String>,
    pub resource_id: Option<ResourceId>,
    pub reply_to: Option<MessageId>,
}

#[derive(Clone, Copy, Debug, PartialEq, Eq, Structural)]
pub struct ListMessagesRequest {
    pub user_id: UserId,
    pub chat_id: ChatId,
    pub page_size: i32,
    pub page_num: i32,
}

#[derive(Clone, Debug)]
pub struct MessageResponse {
    pub id: MessageId,
    pub text: Option<String>,
    pub created_at: Timestamp,
    pub edited_at: Option<Timestamp>,
    pub user_id: Option<UserId>,
    pub user_display_name: Option<String>,
}

/// One listed message with its texts as sequences of characters.
pub struct MessageResponseView {
    pub id: MessageId,
    pub text: Option<Seq<char>>,
    pub created_at: Timestamp,
    pub edited_at: Option<Timestamp>,
    pub user_id: Option<UserId>,
    pub user_display_name: Option<Seq<char>>,
}

impl View for MessageResponse {
    type V = MessageResponseView;

    open spec fn view(&self) -> MessageResponseView {
        MessageResponseView {
            id: self.id,
            text: match self.text {
                Some(text) => Some(text@),
                None => None,
            },
            created_at: self.created_at,
            edited_at: self.edited_at,
            user_id: self.user_id,
            user_display_name: match self.user_display_name {
                Some(name) => Some(name@),
                None => None,
            },
        }
    }
}

#[derive(Clone, Debug)]
pub struct ListMessagesResponse {
    pub messages: Vec<MessageResponse>,
}

impl View for ListMessagesResponse {
    type V = Seq<MessageResponseView>;

    open spec fn view(&self) -> Seq<MessageResponseView> {
        self.messages@.map_values(|message: MessageResponse| message@)
    }
}

} // verus!
