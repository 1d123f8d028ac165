//! Chats and the membership of users in them.

use crate::models::user::UserId;
use crate::time::Timestamp;
use vstd::prelude::*;

verus! {

/// The identity that the store gives a chat.
pub type ChatId = i64;

/// What a chat is for.
#[derive(Clone, Copy, Debug, PartialEq, Eq, Structural)]
pub enum ChatKind {
    WithSelf,
    Private,
    Group,
    Channel,
}

/// What a member may do in a chat.
#[derive(Clone, Copy, Debug, PartialEq, Eq, Structural)]
pub enum ChatRole {
    Owner,
    Moderator,
    Member,
}

#[derive(Clone, Debug)]
pub struct CreateChatRequest {
    pub display_name: Option<String>,
    pub description: Option<String>,
    pub kind: ChatKind,
}

#[derive(Clone, Copy, Debug, PartialEq, Eq, Structural)]
pub struct AddMemberToChatRequest {
    pub user_id: UserId,
    pub chat_id: ChatId,
    pub role: ChatRole,
}

#[derive(Clone, Copy, Debug, PartialEq, Eq, Structural)]
pub struct UpdateMemberChatRoleRequest {
    pub user_id: UserId,
    pub chat_id: ChatId,
    pub new_role: ChatRole,
}

#[derive(Clone, Copy, Debug, PartialEq, Eq, Structural)]
pub struct ListChatsRequest {
    pub user_id: UserId,
    pub page_size: i32,
    pub page_num: i32,
}

#[derive(Clone, Debug)]
pub struct ChatResponse {
    pub id: ChatId,
    pub display_name: Option<String>,
    pub kind: ChatKind,
}

/// One listed chat with its name as a sequence of characters.
pub struct ChatResponseView {
    pub id: ChatId,
    pub display_name: Option<Seq<char>>,
    pub kind: ChatKind,
}

impl View for ChatResponse {
    type V = ChatResponseView;

    open spec fn view(&self) -> ChatResponseView {
        ChatResponseView {
            id: self.id,
            display_name: match self.display_name {
                Some(name) => Some(name@),
                None => None,
            },
            kind: self.kind,
        }
    }
}

#[derive(Clone, Debug)]
pub struct ListChatsResponse {
    pub chats: Vec<ChatResponse>,
}

impl View for ListChatsResponse {
    type V = Seq<ChatResponseView>;

    open spec fn view(&self) -> Seq<ChatResponseView> {
        self.chats@.map_values(|chat: ChatResponse| chat@)
    }
}

#[derive(Clone, Copy, Debug, PartialEq, Eq, Structural)]
pub struct IsUserInChatRequest {
    pub user_id: UserId,
    pub chat_id: ChatId,
}

#[derive(Clone, Copy, Debug, PartialEq, Eq, Structural)]
pub struct IsUserInChatResponse {
    pub is_in_chat: bool,
}

#[derive(Clone, Copy, Debug, PartialEq, Eq, Structural)]
pub struct PrivateChatExistsRequest {
    pub user_id_a: UserId,
    pub user_id_b: UserId,
}

#[derive(Clone, Copy, Debug, PartialEq, Eq, Structural)]
pub struct PrivateChatExistsResponse {
    pub chat_exists: bool,
}

#[derive(Clone, Copy, Debug, PartialEq, Eq, Structural)]
pub struct Chat {
    pub id: ChatId,
    pub kind: ChatKind,
    pub created_at: Timestamp,
}

} // verus!
