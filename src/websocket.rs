//! Limits applied to incoming websocket traffic.
use vstd::prelude::*;

verus! {

/// 64 MiB.
pub const DEFAULT_MAX_MESSAGE_SIZE: usize = 67108864;

/// 16 MiB.
pub const DEFAULT_MAX_FRAME_SIZE: usize = 16777216;

/// Size limits in bytes; `None` means no limit.
#[derive(Clone, Copy, Debug, PartialEq, Eq, Structural)]
pub struct WebSocketConfig {
    pub max_message_size: Option<usize>,
    pub max_frame_size: Option<usize>,
}

impl WebSocketConfig {
    /// 64 MiB per message and 16 MiB per frame.
    pub fn new() -> (r: WebSocketConfig)
        ensures
            r.max_message_size == Some(DEFAULT_MAX_MESSAGE_SIZE),
            r.max_frame_size == Some(DEFAULT_MAX_FRAME_SIZE),
    {
        WebSocketConfig {
            max_message_size: Some(DEFAULT_MAX_MESSAGE_SIZE),
            max_frame_size: Some(DEFAULT_MAX_FRAME_SIZE),
        }
    }

    pub fn with_max_message_size(self, max_message_size: Option<usize>) -> (r: WebSocketConfig)
        ensures
            r == (WebSocketConfig { max_message_size, ..self }),
    {
        WebSocketConfig { max_message_size, ..self }
    }

    pub fn with_max_frame_size(self, max_frame_size: Option<usize>) -> (r: WebSocketConfig)
        ensures
            r == (WebSocketConfig { max_frame_size, ..self }),
    {
        WebSocketConfig { max_frame_size, ..self }
    }
}

impl Default for WebSocketConfig {
    fn default() -> (r: WebSocketConfig)
        ensures
            r.max_message_size == Some(DEFAULT_MAX_MESSAGE_SIZE),
            r.max_frame_size == Some(DEFAULT_MAX_FRAME_SIZE),
    {
        WebSocketConfig::new()
    }
}

/// A websocket data message.
#[derive(Debug)]
pub enum WebSocketMessage {
    Text(String),
    Binary(Vec<u8>),
}

impl WebSocketMessage {
    pub fn text(value: String) -> (r: WebSocketMessage)
        ensures
            r matches WebSocketMessage::Text(t) && t@ == value@,
    {
        WebSocketMessage::Text(value)
    }

    pub fn binary(value: Vec<u8>) -> (r: WebSocketMessage)
        ensures
            r matches WebSocketMessage::Binary(b) && b@ == value@,
    {
        WebSocketMessage::Binary(value)
    }

    /// The text of a text message.
    pub fn as_text(&self) -> (r: Option<&String>)
        ensures
            match self {
                WebSocketMessage::Text(t) => r matches Some(s) && s@ == t@,
                WebSocketMessage::Binary(_) => r is None,
            },
    {
        match self {
            WebSocketMessage::Text(t) => Some(t),
            WebSocketMessage::Binary(_) => None,
        }
    }

    /// The payload of a binary message.
    pub fn as_bytes(&self) -> (r: Option<&[u8]>)
        ensures
            match self {
                WebSocketMessage::Text(_) => r is None,
                WebSocketMessage::Binary(b) => r matches Some(s) && s@ == b@,
            },
    {
        match self {
            WebSocketMessage::Text(_) => None,
            WebSocketMessage::Binary(b) => Some(b.as_slice()),
        }
    }

    pub fn into_text(self) -> (r: Option<String>)
        ensures
            match self {
                WebSocketMessage::Text(t) => r matches Some(s) && s@ == t@,
                WebSocketMessage::Binary(_) => r is None,
            },
    {
        match self {
            WebSocketMessage::Text(t) => Some(t),
            WebSocketMessage::Binary(_) => None,
        }
    }

    pub fn into_bytes(self) -> (r: Option<Vec<u8>>)
        ensures
            match self {
                WebSocketMessage::Text(_) => r is None,
                WebSocketMessage::Binary(b) => r matches Some(s) && s@ == b@,
            },
    {
        match self {
            WebSocketMessage::Text(_) => None,
            WebSocketMessage::Binary(b) => Some(b),
        }
    }
}

} // verus!
