//! The messages sent to a language model and the reading of its reply. The
//! same request serves both backends.
use vstd::prelude::*;
use vstd::string::StringExecFns;
use crate::config::Model;

verus! {

/// Who a message comes from.
#[derive(Debug, Clone, Copy, PartialEq, Eq, Structural)]
pub enum Role {
    /// An instruction or context for the model.
    System,
    /// The user's own words.
    User,
}

/// One message of a chat request.
#[derive(Debug, Clone, PartialEq, Eq)]
pub struct ChatMessage {
    pub role: Role,
    /// The source a message is tagged with, if any.
    pub name: Option<String>,
    pub content: String,
}

pub struct ChatMessageView {
    pub role: Role,
    pub name: Option<Seq<char>>,
    pub content: Seq<char>,
}

impl View for ChatMessage {
    type V = ChatMessageView;

    open spec fn view(&self) -> ChatMessageView {
        ChatMessageView {
            role: self.role,
            name: match self.name {
                Some(n) => Some(n@),
                None => None,
            },
            content: self.content@,
        }
    }
}

/// The views of a list of messages.
pub open spec fn messages_view(ms: Seq<ChatMessage>) -> Seq<ChatMessageView> {
    ms.map_values(|m: ChatMessage| m@)
}

/// A request to a language model.
#[derive(Debug, Clone, PartialEq, Eq)]
pub struct ChatRequest {
    pub model: Model,
    /// The cap on the tokens of the reply.
    pub max_tokens: u32,
    pub messages: Vec<ChatMessage>,
}

pub struct ChatRequestView {
    pub model: Model,
    pub max_tokens: u32,
    pub messages: Seq<ChatMessageView>,
}

impl View for ChatRequest {
    type V = ChatRequestView;

    open spec fn view(&self) -> ChatRequestView {
        ChatRequestView {
            model: self.model,
            max_tokens: self.max_tokens,
            messages: messages_view(self.messages@),
        }
    }
}

/// The instruction that asks for a search keyword.
pub open spec fn keyword_instruction() -> Seq<char> {
    "Extract exactly one keyword from the user's question for a Wikipedia lookup, respond with just the single keyword."@
}

/// The words that introduce the question after the extracts.
pub open spec fn answer_lead() -> Seq<char> {
    "Now answer the following question, using the information in the provided text: "@
}

/// The source tag of an extract.
pub open spec fn source_tag() -> Seq<char> {
    "Wikipedia"@
}

/// The cap on the tokens of a keyword reply.
pub const KEYWORD_MAX_TOKENS: u32 = 32;

/// The cap on the tokens of an answer.
pub const ANSWER_MAX_TOKENS: u32 = 1000;

/// The messages that ask for a keyword: the instruction, then the question.
pub open spec fn keyword_messages(question: Seq<char>) -> Seq<ChatMessageView> {
    seq![
        ChatMessageView { role: Role::System, name: None, content: keyword_instruction() },
        ChatMessageView { role: Role::User, name: None, content: question },
    ]
}

/// An extract, given to the model as context from the encyclopedia.
pub open spec fn context_message(extract: Seq<char>) -> ChatMessageView {
    ChatMessageView { role: Role::System, name: Some(source_tag()), content: extract }
}

/// The messages that ask for the answer: each extract as tagged context, in
/// order, then the question.
pub open spec fn answer_messages(extracts: Seq<Seq<char>>, question: Seq<char>) -> Seq<
    ChatMessageView,
> {
    extracts.map_values(|e: Seq<char>| context_message(e)).push(
        ChatMessageView { role: Role::User, name: None, content: answer_lead() + question },
    )
}

/// The request that asks `model` for a search keyword for `question`.
pub fn keyword_request(model: Model, question: &str) -> (r: ChatRequest)
    ensures
        r.model == model,
        r.max_tokens == KEYWORD_MAX_TOKENS,
        messages_view(r.messages@) == keyword_messages(question@),
{
    let instruction = ChatMessage {
        role: Role::System,
        name: None,
        content: "Extract exactly one keyword from the user's question for a Wikipedia lookup, respond with just the single keyword.".to_owned(),
    };
    let ask = ChatMessage { role: Role::User, name: None, content: question.to_owned() };
    let mut messages: Vec<ChatMessage> = Vec::new();
    messages.push(instruction);
    messages.push(ask);
    proof {
        assert(messages_view(messages@) =~= keyword_messages(question@));
    }
    ChatRequest { model, max_tokens: KEYWORD_MAX_TOKENS, messages }
}

/// The request that asks `model` to answer `question` from `extracts`.
pub fn answer_request(model: Model, extracts: &Vec<String>, question: &str) -> (r: ChatRequest)
    ensures
        r.model == model,
        r.max_tokens == ANSWER_MAX_TOKENS,
        messages_view(r.messages@) == answer_messages(
            extracts@.map_values(|e: String| e@),
            question@,
        ),
{
    let ghost ev = extracts@.map_values(|e: String| e@);
    let mut messages: Vec<ChatMessage> = Vec::new();
    let n = extracts.len();
    let mut i: usize = 0;
    while i < n
        invariant
            n == extracts@.len(),
            i <= n,
            ev == extracts@.map_values(|e: String| e@),
            messages_view(messages@) == ev.take(i as int).map_values(
                |e: Seq<char>| context_message(e),
            ),
        decreases n - i,
    {
        let m = ChatMessage {
            role: Role::System,
            name: Some("Wikipedia".to_owned()),
            content: extracts[i].clone(),
        };
        let ghost before = messages@;
        let ghost mv = m@;
        assert(mv == context_message(ev[i as int]));
        messages.push(m);
        proof {
            assert(messages_view(messages@) =~= messages_view(before).push(mv));
            assert(ev.take(i as int + 1).map_values(|e: Seq<char>| context_message(e)) =~= ev.take(
                i as int,
            ).map_values(|e: Seq<char>| context_message(e)).push(context_message(ev[i as int])));
            assert(messages_view(messages@) =~= ev.take(i as int + 1).map_values(
                |e: Seq<char>| context_message(e),
            ));
        }
        i = i + 1;
    }
    let mut content = "Now answer the following question, using the information in the provided text: ".to_owned();
    content.append(question);
    messages.push(ChatMessage { role: Role::User, name: None, content });
    proof {
        assert(ev.take(n as int) =~= ev);
        assert(messages_view(messages@) =~= answer_messages(ev, question@));
    }
    ChatRequest { model, max_tokens: ANSWER_MAX_TOKENS, messages }
}

/// The content of the first choice of a reply, if there is a choice and it
/// has content.
pub open spec fn first_content(choices: Seq<Option<String>>) -> Option<Seq<char>> {
    if choices.len() > 0 {
        match choices[0] {
            Some(c) => Some(c@),
            None => None,
        }
    } else {
        None
    }
}

/// The content of the first choice of a reply, if any.
pub fn first_reply(choices: &Vec<Option<String>>) -> (r: Option<String>)
    ensures
        match r {
            Some(c) => first_content(choices@) == Some(c@),
            None => first_content(choices@) is None,
        },
{
    if choices.len() == 0 {
        return None;
    }
    match &choices[0] {
        Some(c) => Some(c.clone()),
        None => None,
    }
}

/// What `str::trim` leaves of a text.
pub uninterp spec fn trimmed(s: Seq<char>) -> Seq<char>;

/// Relies on str::trim: leading and trailing white space is removed; the
/// result depends on the text alone, and an empty text stays empty.
#[verifier::external_body]
pub(crate) fn trim_text(s: &str) -> (r: String)
    ensures
        r@ == trimmed(s@),
        s@.len() == 0 ==> r@.len() == 0,
{
    s.trim().to_owned()
}

} // verus!
