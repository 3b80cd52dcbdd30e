//! The messages that the module and the engine exchange.

use vstd::prelude::*;

use crate::prompt::{Prompt, PromptResponse};

verus! {

/// A chat message. The parts that the module only passes on are kept encoded.
#[derive(Debug)]
pub struct ChatMessage {
    pub platform: String,
    pub raw_data: Vec<u8>,
    pub raw_message: String,
    pub user_uuid7: String,
    pub command: Option<Vec<u8>>,
    pub user_data: Option<Vec<u8>>,
    pub channel_id: String,
}

/// A chat message, as its texts and bytes.
pub ghost struct ChatMessageView {
    pub platform: Seq<char>,
    pub raw_data: Seq<u8>,
    pub raw_message: Seq<char>,
    pub user_uuid7: Seq<char>,
    pub command: Option<Seq<u8>>,
    pub user_data: Option<Seq<u8>>,
    pub channel_id: Seq<char>,
}

/// The bytes of an optional vector.
pub open spec fn optional_bytes(v: Option<Vec<u8>>) -> Option<Seq<u8>> {
    match v {
        Some(v) => Some(v@),
        None => None,
    }
}

impl View for ChatMessage {
    type V = ChatMessageView;

    open spec fn view(&self) -> ChatMessageView {
        ChatMessageView {
            platform: self.platform@,
            raw_data: self.raw_data@,
            raw_message: self.raw_message@,
            user_uuid7: self.user_uuid7@,
            command: optional_bytes(self.command),
            user_data: optional_bytes(self.user_data),
            channel_id: self.channel_id@,
        }
    }
}

/// A copy of optional bytes.
fn copy_bytes(v: &Option<Vec<u8>>) -> (r: Option<Vec<u8>>)
    ensures
        optional_bytes(r) == optional_bytes(*v),
{
    match v {
        Some(v) => Some(vstd::slice::slice_to_vec(v.as_slice())),
        None => None,
    }
}

impl ChatMessage {
    /// The same message with another text.
    pub fn with_text(&self, raw_message: String) -> (r: ChatMessage)
        ensures
            r@ == (ChatMessageView { raw_message: raw_message@, ..self@ }),
    {
        ChatMessage {
            platform: self.platform.clone(),
            raw_data: vstd::slice::slice_to_vec(self.raw_data.as_slice()),
            raw_message,
            user_uuid7: self.user_uuid7.clone(),
            command: copy_bytes(&self.command),
            user_data: copy_bytes(&self.user_data),
            channel_id: self.channel_id.clone(),
        }
    }
}

impl Clone for ChatMessage {
    fn clone(&self) -> (r: Self)
        ensures
            r@ == self@,
    {
        self.with_text(self.raw_message.clone())
    }
}

/// The engine's check that the module is alive, and the answer to it.
#[derive(Debug)]
pub struct AuthVerify {
    pub cur_auth: String,
}

/// A chat message on its way through the modules, and its way back.
#[derive(Debug)]
pub struct MessagePreProcess {
    pub audio: Vec<u8>,
    pub audio_type: String,
    pub message_uuid7: String,
    pub raw_message: Option<ChatMessage>,
}

/// A record for the engine of a message that was flagged.
#[derive(Debug)]
pub struct ChatMessageRejected {
    pub message_uuid7: String,
    pub message: Option<ChatMessage>,
    pub processed_message: String,
    pub reason: String,
    pub origin: String,
}

/// What a container holds.
#[derive(Debug)]
pub enum Payload {
    AuthVerify(AuthVerify),
    Prompt(Prompt),
    PromptResponse(PromptResponse),
    MessagePreProcess(MessagePreProcess),
    ChatMessageRejected(ChatMessageRejected),
    /// Anything that this module has no use for.
    Other,
}

/// The envelope of everything that is sent.
#[derive(Debug)]
pub struct Container {
    pub version: u32,
    pub auth_token: String,
    pub module_name: String,
    pub module_instance_uuid7: String,
    pub payload: Option<Payload>,
}

/// A message on its way, as its texts and bytes.
pub ghost struct MessagePreProcessView {
    pub audio: Seq<u8>,
    pub audio_type: Seq<char>,
    pub message_uuid7: Seq<char>,
    pub raw_message: Option<ChatMessageView>,
}

/// A record of a flagged message, as its texts.
pub ghost struct ChatMessageRejectedView {
    pub message_uuid7: Seq<char>,
    pub message: Option<ChatMessageView>,
    pub processed_message: Seq<char>,
    pub reason: Seq<char>,
    pub origin: Seq<char>,
}

/// What a container holds, as its texts and bytes.
pub ghost enum PayloadView {
    AuthVerify(Seq<char>),
    Prompt(crate::prompt::PromptView),
    PromptResponse(crate::prompt::PromptResponseView),
    MessagePreProcess(MessagePreProcessView),
    ChatMessageRejected(ChatMessageRejectedView),
    Other,
}

/// A container, as its texts and bytes.
pub ghost struct ContainerView {
    pub version: u32,
    pub auth_token: Seq<char>,
    pub module_name: Seq<char>,
    pub module_instance_uuid7: Seq<char>,
    pub payload: Option<PayloadView>,
}

/// An optional chat message, as its texts and bytes.
pub open spec fn optional_chat(chat: Option<ChatMessage>) -> Option<ChatMessageView> {
    match chat {
        Some(chat) => Some(chat@),
        None => None,
    }
}

impl View for MessagePreProcess {
    type V = MessagePreProcessView;

    open spec fn view(&self) -> MessagePreProcessView {
        MessagePreProcessView {
            audio: self.audio@,
            audio_type: self.audio_type@,
            message_uuid7: self.message_uuid7@,
            raw_message: optional_chat(self.raw_message),
        }
    }
}

impl View for ChatMessageRejected {
    type V = ChatMessageRejectedView;

    open spec fn view(&self) -> ChatMessageRejectedView {
        ChatMessageRejectedView {
            message_uuid7: self.message_uuid7@,
            message: optional_chat(self.message),
            processed_message: self.processed_message@,
            reason: self.reason@,
            origin: self.origin@,
        }
    }
}

impl View for Payload {
    type V = PayloadView;

    open spec fn view(&self) -> PayloadView {
        match *self {
            Payload::AuthVerify(verify) => PayloadView::AuthVerify(verify.cur_auth@),
            Payload::Prompt(prompt) => PayloadView::Prompt(prompt@),
            Payload::PromptResponse(response) => PayloadView::PromptResponse(response@),
            Payload::MessagePreProcess(pre) => PayloadView::MessagePreProcess(pre@),
            Payload::ChatMessageRejected(rejected) => PayloadView::ChatMessageRejected(rejected@),
            Payload::Other => PayloadView::Other,
        }
    }
}

impl View for Container {
    type V = ContainerView;

    open spec fn view(&self) -> ContainerView {
        ContainerView {
            version: self.version,
            auth_token: self.auth_token@,
            module_name: self.module_name@,
            module_instance_uuid7: self.module_instance_uuid7@,
            payload: match self.payload {
                Some(payload) => Some(payload@),
                None => None,
            },
        }
    }
}

/// Who the module is to the engine.
#[derive(Debug)]
pub struct Identity {
    pub auth_token: String,
    pub module_name: String,
    pub instance_uuid: String,
}

impl Identity {
    /// The envelope of this module round a payload.
    pub open spec fn envelope(self, payload: PayloadView) -> ContainerView {
        ContainerView {
            version: 1,
            auth_token: self.auth_token@,
            module_name: self.module_name@,
            module_instance_uuid7: self.instance_uuid@,
            payload: Some(payload),
        }
    }

    /// The envelope of this module round a payload.
    pub fn wrap(&self, payload: Payload) -> (r: Container)
        ensures
            r@ == self.envelope(payload@),
    {
        Container {
            version: 1,
            auth_token: self.auth_token.clone(),
            module_name: self.module_name.clone(),
            module_instance_uuid7: self.instance_uuid.clone(),
            payload: Some(payload),
        }
    }
}

/// The record of a flagged message: the message as it came, the text that was
/// made of it and the reason, in the name of this module.
pub open spec fn rejected(
    message_uuid7: Seq<char>,
    chat: ChatMessageView,
    processed: Seq<char>,
    reason: Seq<char>,
) -> ChatMessageRejectedView {
    ChatMessageRejectedView {
        message_uuid7,
        message: Some(chat),
        processed_message: processed,
        reason,
        origin: "banned-words"@,
    }
}

/// Build the ChatMessageRejected record a module sends to the engine so the
/// rejection is logged clearly (reason + original raw + processed).
pub fn compose_rejected(
    message_uuid7: &str,
    chat: &ChatMessage,
    processed: &str,
    reason: &str,
) -> (r: ChatMessageRejected)
    ensures
        r@ == rejected(message_uuid7@, chat@, processed@, reason@),
{
    ChatMessageRejected {
        message_uuid7: message_uuid7.to_string(),
        message: Some(chat.clone()),
        processed_message: processed.to_string(),
        reason: reason.to_string(),
        origin: "banned-words".to_string(),
    }
}

} // verus!
