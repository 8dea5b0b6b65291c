//! Chat messages as the gateway handles them.

use crate::text::{concat2, join, joined, texts};
use vstd::prelude::*;

verus! {

/// Who speaks in a message.
#[derive(Debug, Clone, Copy, PartialEq, Eq, Hash, Structural)]
pub enum Role {
    System,
    Developer,
    User,
    Assistant,
    Tool,
}

/// One part of a message made of several.
#[derive(Debug)]
pub enum ContentPart {
    Text { text: String },
    ImageUrl { url: String },
}

/// The content of a message.
#[derive(Debug)]
pub enum MessageContent {
    Text(String),
    Parts(Vec<ContentPart>),
}

/// The function that a tool call names, with its arguments as JSON text.
#[derive(Debug)]
pub struct FunctionCall {
    pub name: String,
    pub arguments: String,
}

/// A tool call requested by the assistant.
#[derive(Debug)]
pub struct ToolCallRequest {
    pub id: String,
    pub function: FunctionCall,
}

/// A chat message.
#[derive(Debug)]
pub struct Message {
    pub role: Role,
    pub content: Option<MessageContent>,
    pub name: Option<String>,
    pub tool_calls: Option<Vec<ToolCallRequest>>,
    pub tool_call_id: Option<String>,
}

/// The texts of the parts that are text.
pub open spec fn part_texts(parts: Seq<ContentPart>) -> Seq<Seq<char>>
    decreases parts.len(),
{
    if parts.len() == 0 {
        Seq::empty()
    } else {
        let rest = part_texts(parts.drop_last());
        match parts.last() {
            ContentPart::Text { text } => rest.push(text@),
            ContentPart::ImageUrl { .. } => rest,
        }
    }
}

/// The text of a content: that of its text parts, line by line.
pub open spec fn content_text(c: MessageContent) -> Seq<char> {
    match c {
        MessageContent::Text(t) => t@,
        MessageContent::Parts(parts) => joined(part_texts(parts@), "\n"@),
    }
}

/// The text of a message, empty where it has no content.
pub open spec fn message_body(m: Message) -> Seq<char> {
    match m.content {
        Some(c) => content_text(c),
        None => Seq::empty(),
    }
}

impl MessageContent {
    /// The text of the content.
    pub fn extract_text(&self) -> (r: String)
        ensures
            r@ == content_text(*self),
    {
        match self {
            MessageContent::Text(t) => t.clone(),
            MessageContent::Parts(parts) => {
                let mut pieces: Vec<String> = Vec::new();
                let mut i: usize = 0;
                assert(texts(pieces@) =~= Seq::empty());
                while i < parts.len()
                    invariant
                        i <= parts.len(),
                        texts(pieces@) == part_texts(parts@.take(i as int)),
                    decreases parts.len() - i,
                {
                    proof {
                        let next = parts@.take(i + 1);
                        assert(next.drop_last() =~= parts@.take(i as int));
                        assert(next.last() == parts@[i as int]);
                    }
                    match &parts[i] {
                        ContentPart::Text { text } => {
                            let t: String = text.clone();
                            assert(texts(pieces@.push(t)) =~= texts(pieces@).push(t@));
                            pieces.push(t);
                        },
                        ContentPart::ImageUrl { .. } => {},
                    }
                    i += 1;
                }
                assert(parts@.take(parts@.len() as int) =~= parts@);
                join(&pieces, "\n")
            },
        }
    }
}

impl Message {
    /// The text of the message.
    pub fn extract_text(&self) -> (r: String)
        ensures
            r@ == message_body(*self),
    {
        match &self.content {
            Some(c) => c.extract_text(),
            None => String::new(),
        }
    }
}

/// What became of a request that was to be read as a chat request.
#[derive(Debug)]
pub enum Conversion {
    /// It is one, with these messages.
    Chat(Vec<Message>),
    /// It is a request of another kind.
    OtherKind,
    /// It could not be converted, for this reason.
    Failed(String),
}

impl Conversion {
    /// What is wrong with the request, where something is.
    pub open spec fn fault(&self) -> Option<Seq<char>> {
        match *self {
            Conversion::Chat(_) => None,
            Conversion::OtherKind => Some("Request conversion failed"@),
            Conversion::Failed(e) => Some("Failed to convert request: "@ + e@),
        }
    }

    /// The messages of the request, or what is wrong with it.
    pub fn messages(self) -> (r: Result<Vec<Message>, String>)
        ensures
            match r {
                Ok(m) => self == Conversion::Chat(m),
                Err(e) => self.fault() == Some(e@),
            },
    {
        match self {
            Conversion::Chat(m) => Ok(m),
            Conversion::OtherKind => Err("Request conversion failed".to_owned()),
            Conversion::Failed(e) => Err(concat2("Failed to convert request: ", e.as_str())),
        }
    }
}

} // verus!
