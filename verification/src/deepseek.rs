//! What is sent to DeepSeek for a Note, and what is made of its answer.
//!
//! The HTTP exchange itself happens outside the library; this module decides
//! the prompt and reads the reply.
use vstd::prelude::*;

use crate::notes::{NoteRequest, Unwritten, Written};
use crate::text::{is_blank, joined, trim, trimmed};

verus! {

/// The fixed half of the prompt: identical on every request, and sent ahead of
/// everything that varies so DeepSeek's context cache can serve it.
pub const INSTRUCTIONS: &'static str = "You are helping a reader who is collecting the words they did not know as they read, so that they can learn them later.

You will be given one Word, the Book it was met in, and the sentence it appeared in. Reply with one or two sentences saying what that Word is doing in that particular sentence: which of its senses is in play, and what it is carrying there that a dictionary definition on its own would miss.

The reader already has the dictionary definition in front of them, so do not restate it. Do not greet them, do not explain what you are about to do, do not use headings or lists, and do not quote the sentence back. Reply with the reading itself and nothing else.";

/// One message of the chat the prompt is made of.
#[derive(Debug)]
pub struct Message {
    pub role: &'static str,
    pub content: String,
}

/// The variable tail of the prompt: the Word, the Book and the sentence.
pub open spec fn tail_text(r: NoteRequest) -> Seq<char> {
    "Word: "@ + r.spelling@ + "\nBook: "@ + r.book_name@ + "\nSentence: "@ + r.sentence@
}

/// The prompt, fixed block first and the Sighting's own details last, so the
/// prefix is the same on every request.
pub fn prompt(request: &NoteRequest) -> (m: [Message; 2])
    ensures
        m[0].role@ == "system"@,
        m[0].content@ == INSTRUCTIONS@,
        m[1].role@ == "user"@,
        m[1].content@ == tail_text(*request),
{
    let mut tail = joined("Word: ", request.spelling.as_str());
    tail.append("\nBook: ");
    tail.append(request.book_name.as_str());
    tail.append("\nSentence: ");
    tail.append(request.sentence.as_str());
    assert(tail@ =~= tail_text(*request));
    [
        Message { role: "system", content: String::from_str(INSTRUCTIONS) },
        Message { role: "user", content: tail },
    ]
}

/// Where Notes are asked for.
pub const ENDPOINT: &'static str = "https://api.deepseek.com/chat/completions";

/// The model that writes them.
pub const MODEL: &'static str = "deepseek-v4-pro";

/// A Note is one or two sentences; this is the ceiling, not the target.
pub const MOST_TOKENS: u32 = 200;

/// One chat completion request, as DeepSeek names its fields:
/// `{ model, messages, max_tokens, stream }`, posted to [`ENDPOINT`].
#[derive(Debug)]
pub struct ChatRequest {
    pub model: &'static str,
    pub messages: [Message; 2],
    pub max_tokens: u32,
    pub stream: bool,
}

/// What is posted to have a Note written for `request`: the prompt, the
/// model, the ceiling on its length, and the whole answer at once.
pub fn chat_request(request: &NoteRequest) -> (c: ChatRequest)
    ensures
        c.model@ == MODEL@,
        c.messages[0].role@ == "system"@,
        c.messages[0].content@ == INSTRUCTIONS@,
        c.messages[1].role@ == "user"@,
        c.messages[1].content@ == tail_text(*request),
        c.max_tokens == 200,
        !c.stream,
{
    ChatRequest { model: MODEL, messages: prompt(request), max_tokens: MOST_TOKENS, stream: false }
}

/// The `Authorization` header that carries `key`: a bearer token.
pub fn authorization(key: &str) -> (h: String)
    ensures
        h@ == "Bearer "@ + key@,
{
    joined("Bearer ", key)
}

/// The key read from the environment, unless it is absent or blank — which
/// turns Notes off for the run rather than being an error.
pub fn usable_key(value: Option<String>) -> (key: Option<String>)
    ensures
        match value {
            Some(v) => if trimmed(v@).len() == 0 {
                key is None
            } else {
                key == Some(v)
            },
            None => key is None,
        },
{
    match value {
        Some(v) => {
            if is_blank(v.as_str()) {
                None
            } else {
                Some(v)
            }
        },
        None => None,
    }
}

/// What `{:?}` makes of a `str`: the text quoted, with what needs it escaped.
pub uninterp spec fn debug_text(s: Seq<char>) -> Seq<char>;

/// `s` as `{:?}` prints it, by std's `Debug` for `str` through `format!`.
/// The contract claims only that the result is `debug_text` of `s`.
#[verifier::external_body]
fn quoted(s: &str) -> (q: String)
    ensures
        q@ == debug_text(s@),
{
    format!("{s:?}")
}

/// Make a Note of the first choice DeepSeek answered with, about the Word
/// that `about` names.
///
/// An empty Note would render as though one had been written, so a blank
/// answer is a refusal: visible, and retryable.
pub fn note_from_reply(about: &str, content: Option<String>) -> (w: Written)
    ensures
        match content {
            Some(c) if trimmed(c@).len() > 0 => w matches Ok(n) && n@ == trimmed(c@),
            _ => w matches Err(Unwritten::Refused(why)) && why@ == "DeepSeek had nothing to say about "@
                + about@,
        },
{
    match content {
        Some(c) => {
            let note = trim(c.as_str());
            if note.as_str().is_empty() {
                Err(Unwritten::Refused(joined("DeepSeek had nothing to say about ", about)))
            } else {
                Ok(note)
            }
        },
        None => Err(Unwritten::Refused(joined("DeepSeek had nothing to say about ", about))),
    }
}

/// What came of asking DeepSeek for a Note.
#[derive(Debug)]
pub enum Reply {
    /// No answer at all: no network, or nothing came back in time.
    Silent { cause: String },
    /// An answer whose status was not a success. `status` is the status as it
    /// is printed, `body` what came with it.
    Status { status: String, body: String },
    /// A successful answer whose body was not a chat completion.
    Unreadable { cause: String },
    /// A chat completion, and the content of its first choice if it had one.
    Answer { content: Option<String> },
}

/// `w` as a plain value: the Note, or whether the writer was unreachable and
/// what it says.
pub open spec fn written_view(w: Written) -> Result<Seq<char>, (bool, Seq<char>)> {
    match w {
        Ok(n) => Ok(n@),
        Err(Unwritten::Unreachable(why)) => Err((true, why@)),
        Err(Unwritten::Refused(why)) => Err((false, why@)),
    }
}

/// What a reply about the Word that `about` names comes to.
pub open spec fn reply_note(about: Seq<char>, reply: Reply) -> Result<Seq<char>, (bool, Seq<char>)> {
    match reply {
        Reply::Silent { cause } => Err((true, "asking DeepSeek about "@ + about + ": "@ + cause@)),
        Reply::Status { status, body } => Err(
            (false, "DeepSeek answered "@ + status@ + " for "@ + about + ": "@ + trimmed(body@)),
        ),
        Reply::Unreadable { cause } => Err(
            (false, "reading DeepSeek's answer about "@ + about + ": "@ + cause@),
        ),
        Reply::Answer { content } => match content {
            Some(c) if trimmed(c@).len() > 0 => Ok(trimmed(c@)),
            _ => Err((false, "DeepSeek had nothing to say about "@ + about)),
        },
    }
}

/// Read DeepSeek's reply about the Word that `about` names.
///
/// Never getting through leaves the Sighting queued for a later launch; any
/// answer that is not a Note is a refusal, which is visible and retryable. The
/// body says far more than the status alone about why, so it is kept.
pub fn written_from(about: &str, reply: Reply) -> (w: Written)
    ensures
        written_view(w) == reply_note(about@, reply),
{
    match reply {
        Reply::Silent { cause } => {
            let mut why = joined("asking DeepSeek about ", about);
            why.append(": ");
            why.append(cause.as_str());
            Err(Unwritten::Unreachable(why))
        },
        Reply::Status { status, body } => {
            let mut why = joined("DeepSeek answered ", status.as_str());
            why.append(" for ");
            why.append(about);
            why.append(": ");
            why.append(trim(body.as_str()).as_str());
            Err(Unwritten::Refused(why))
        },
        Reply::Unreadable { cause } => {
            let mut why = joined("reading DeepSeek's answer about ", about);
            why.append(": ");
            why.append(cause.as_str());
            Err(Unwritten::Refused(why))
        },
        Reply::Answer { content } => note_from_reply(about, content),
    }
}

/// Read DeepSeek's reply about the Word spelled `spelling`, which the reader
/// is told of as `{:?}` prints it.
pub fn settle(spelling: &str, reply: Reply) -> (w: Written)
    ensures
        written_view(w) == reply_note(debug_text(spelling@), reply),
{
    let about = quoted(spelling);
    written_from(about.as_str(), reply)
}

} // verus!
