//! Analysis of command output by a language model: the prompt to send, and
//! the reading of the answer, which arrives as a stream of server-sent
//! events.

use vstd::prelude::*;
use vstd::string::*;
use crate::text::{lossy_text, lossy_utf8};
use crate::text::{
    chars_of, join_two, has_prefix, lines, lines_of, opt_view, str_eq, string_of_range, trim,
    trimmed, views,
};

verus! {

/// The variable of the environment that holds the API key.
pub const API_KEY_VARIABLE: &'static str = "ANTHROPIC_API_KEY";

/// Where the request is sent.
pub const API_URL: &'static str = "https://api.anthropic.com/v1/messages";

/// The version of the API that the request asks for.
pub const API_VERSION: &'static str = "2023-06-01";

/// The largest number of tokens that the answer may have.
pub const MAX_TOKENS: u32 = 1024;

/// The event that carries one piece of the answer.
pub const STREAM_EVENT: &'static str = "ai-stream";

/// The event that carries the whole answer, at its end.
pub const DONE_EVENT: &'static str = "ai-done";

/// What introduces a data line of the stream.
pub const DATA_PREFIX: &'static str = "data: ";

/// The data that ends the stream.
pub const END_OF_STREAM: &'static str = "[DONE]";

/// What precedes pod logs in the prompt.
pub const LOGS_PROMPT: &'static str =
    "You are a Kubernetes operations expert. Analyze these pod logs and identify:\n\
1. Any errors, crashes, panics, or fatal issues\n\
2. Warnings or concerning patterns\n\
3. Root cause analysis if possible\n\
4. Specific actionable kubectl commands to fix issues\n\n\
Respond ONLY with a JSON object:\n\
{\n\
\"insights\": [\n\
{\n\
\"type\": \"critical\" | \"warning\" | \"suggestion\",\n\
\"title\": \"Short title\",\n\
\"body\": \"Explanation\",\n\
\"command\": \"kubectl command if applicable (optional)\"\n\
}\n\
]\n\
}\n\n\
Pod logs:\n";

/// What precedes the description of a pod in the prompt.
pub const DESCRIBE_PROMPT: &'static str =
    "You are a Kubernetes operations expert. Analyze this kubectl describe output and identify:\n\
1. Any errors, crashes, or critical issues\n\
2. Warnings or concerning patterns\n\
3. Specific actionable kubectl commands to fix issues\n\n\
Respond ONLY with a JSON object:\n\
{\n\
\"insights\": [\n\
{\n\
\"type\": \"critical\" | \"warning\" | \"suggestion\",\n\
\"title\": \"Short title\",\n\
\"body\": \"Explanation\",\n\
\"command\": \"kubectl command if applicable (optional)\"\n\
}\n\
]\n\
}\n\n\
kubectl describe output:\n";

/// The report of a missing API key.
pub fn missing_key_message() -> (message: String)
    ensures
        message@ == "ANTHROPIC_API_KEY not set"@,
{
    String::from_str("ANTHROPIC_API_KEY not set")
}

/// The report of a request that could not be made.
pub fn request_failure(detail: &str) -> (message: String)
    ensures
        message@ == "API request failed: "@ + detail@,
{
    join_two("API request failed: ", detail)
}

/// The prompt for `output`: the introduction for logs where the mode is
/// `logs`, the one for a description in every other mode; then the output.
pub open spec fn prompt_text(mode: Seq<char>, output: Seq<char>) -> Seq<char> {
    if mode == "logs"@ {
        LOGS_PROMPT@ + output
    } else {
        DESCRIBE_PROMPT@ + output
    }
}

/// The prompt that asks for an analysis of `output`.
pub fn analyze_with_ai(output: &str, mode: &str) -> (prompt: String)
    ensures
        prompt@ == prompt_text(mode@, output@),
{
    if str_eq(mode, "logs") {
        join_two(LOGS_PROMPT, output)
    } else {
        join_two(DESCRIBE_PROMPT, output)
    }
}

/// The text found in a JSON document under the key `inner` of the object
/// under the key `outer`: there is one where the document parses, its root
/// is an object whose member `outer` is an object whose member `inner` is a
/// string. It names what `serde_json` makes of the document.
pub uninterp spec fn json_text_at(document: Seq<char>, outer: Seq<char>, inner: Seq<char>)
    -> Option<Seq<char>>;

/// Reads one text out of a JSON document. Trusted: `serde_json::from_str`
/// into a `serde_json::Value`, that value's indexing by a key, which gives
/// null for a key that is missing and for a value that is no object, and
/// `Value::as_str`, which gives the text of a string and nothing for any
/// other value. None of them panics; a document that does not parse gives
/// nothing. The contract names the result, which depends on the three
/// arguments alone.
#[verifier::external_body]
fn read_json_text(document: &str, outer: &str, inner: &str) -> (text: Option<String>)
    ensures
        opt_view(text) == json_text_at(document@, outer@, inner@),
{
    let value: serde_json::Value = serde_json::from_str(document).ok()?;
    value[outer][inner].as_str().map(|s| s.to_string())
}

/// What one line of the stream says.
#[derive(Clone, Debug, PartialEq, Eq)]
pub enum StreamLine {
    /// The stream is complete.
    Done,
    /// One more piece of the answer.
    Delta(String),
    /// Nothing for the reader.
    Other,
}

/// A line of the stream as the contracts see it.
pub enum StreamLineView {
    Done,
    Delta(Seq<char>),
    Other,
}

impl StreamLine {
    pub open spec fn view(&self) -> StreamLineView {
        match self {
            StreamLine::Done => StreamLineView::Done,
            StreamLine::Delta(text) => StreamLineView::Delta(text@),
            StreamLine::Other => StreamLineView::Other,
        }
    }
}

/// What a payload says, given the piece of the answer that it holds, if any:
/// the end where its text, trimmed, is the end mark; else the piece; else
/// nothing.
pub open spec fn payload_meaning(data: Seq<char>, piece: Option<Seq<char>>) -> StreamLineView {
    if trim(data) == END_OF_STREAM@ {
        StreamLineView::Done
    } else {
        match piece {
            Some(text) => StreamLineView::Delta(text),
            None => StreamLineView::Other,
        }
    }
}

/// What a line says: a line that does not begin with the data prefix says
/// nothing; else its payload counts, in which the piece of the answer is the
/// text under `delta`, `text`.
pub open spec fn line_meaning(line: Seq<char>) -> StreamLineView {
    if DATA_PREFIX@.is_prefix_of(line) {
        let data = line.skip(DATA_PREFIX@.len() as int);
        payload_meaning(data, json_text_at(data, "delta"@, "text"@))
    } else {
        StreamLineView::Other
    }
}

/// Says what a payload means, given the piece of the answer that was read
/// out of it.
pub fn interpret_payload(data: &str, piece: Option<String>) -> (meaning: StreamLine)
    ensures
        meaning@ == payload_meaning(data@, opt_view(piece)),
{
    let shown = trimmed(data);
    if str_eq(shown.as_str(), END_OF_STREAM) {
        StreamLine::Done
    } else {
        match piece {
            Some(text) => StreamLine::Delta(text),
            None => StreamLine::Other,
        }
    }
}

/// Says what one line of the stream means.
pub fn interpret_line(line: &str) -> (meaning: StreamLine)
    ensures
        meaning@ == line_meaning(line@),
{
    let v = chars_of(line);
    let prefix = chars_of(DATA_PREFIX);
    if has_prefix(&v, &prefix) {
        let data = string_of_range(&v, prefix.len(), v.len());
        proof {
            assert(v@.subrange(prefix.len() as int, v.len() as int) =~= line@.skip(
                DATA_PREFIX@.len() as int,
            ));
        }
        let piece = read_json_text(data.as_str(), "delta", "text");
        interpret_payload(data.as_str(), piece)
    } else {
        StreamLine::Other
    }
}

/// The answer as far as it has been read.
pub struct Answer {
    buffer: String,
    done: bool,
}

/// Whether the stream is complete after `lines`.
pub open spec fn done_after(done: bool, lines: Seq<Seq<char>>) -> bool
    decreases lines.len(),
{
    if lines.len() == 0 {
        done
    } else {
        done_after(done, lines.drop_last()) || line_meaning(lines.last()) is Done
    }
}

/// The pieces of the answer that `lines` bring, in order. Once the stream
/// is complete, lines bring nothing.
pub open spec fn pieces_of(done: bool, lines: Seq<Seq<char>>) -> Seq<Seq<char>>
    decreases lines.len(),
{
    if lines.len() == 0 {
        Seq::empty()
    } else {
        let earlier = pieces_of(done, lines.drop_last());
        if done_after(done, lines.drop_last()) {
            earlier
        } else {
            match line_meaning(lines.last()) {
                StreamLineView::Delta(text) => earlier.push(text),
                _ => earlier,
            }
        }
    }
}

/// The pieces in a row.
pub open spec fn joined(pieces: Seq<Seq<char>>) -> Seq<char>
    decreases pieces.len(),
{
    if pieces.len() == 0 {
        Seq::empty()
    } else {
        joined(pieces.drop_last()) + pieces.last()
    }
}

impl Answer {
    /// The text read so far.
    pub closed spec fn text(&self) -> Seq<char> {
        self.buffer@
    }

    /// Whether the stream is complete.
    pub closed spec fn complete(&self) -> bool {
        self.done
    }

    /// An answer of which nothing has been read.
    pub fn new() -> (answer: Answer)
        ensures
            answer.text() == Seq::<char>::empty(),
            !answer.complete(),
    {
        Answer { buffer: String::new(), done: false }
    }

    /// Whether the stream is complete, so that no further chunk is due.
    pub fn is_complete(&self) -> (done: bool)
        ensures
            done == self.complete(),
    {
        self.done
    }

    /// Takes one chunk of the stream: reads it as text, line by line, adds
    /// the pieces of the answer that it brings, and hands them out, to be
    /// published one by one. What follows the end mark is not read.
    pub fn on_chunk(&mut self, chunk: &Vec<u8>) -> (pieces: Vec<String>)
        ensures
            views(pieces@) == pieces_of(old(self).complete(), lines(lossy_utf8(chunk@))),
            final(self).complete() == done_after(
                old(self).complete(),
                lines(lossy_utf8(chunk@)),
            ),
            final(self).text() == old(self).text() + joined(views(pieces@)),
    {
        let text = lossy_text(chunk);
        let all = lines_of(text.as_str());
        let ghost all_views = views(all@);
        let mut pieces: Vec<String> = Vec::new();
        let mut i: usize = 0;
        proof {
            assert(all_views.take(0) =~= Seq::<Seq<char>>::empty());
            assert(views(pieces@) =~= Seq::<Seq<char>>::empty());
            assert(self.buffer@ + joined(views(pieces@)) =~= self.buffer@);
        }
        while i < all.len()
            invariant
                i <= all.len(),
                all_views == views(all@),
                views(pieces@) == pieces_of(old(self).done, all_views.take(i as int)),
                self.done == done_after(old(self).done, all_views.take(i as int)),
                self.buffer@ == old(self).buffer@ + joined(views(pieces@)),
            decreases all.len() - i,
        {
            let ghost before = views(pieces@);
            proof {
                let upto = all_views.take(i as int + 1);
                assert(upto.drop_last() =~= all_views.take(i as int));
                assert(upto.last() == all@[i as int]@);
            }
            if !self.done {
                match interpret_line(all[i].as_str()) {
                    StreamLine::Done => {
                        self.done = true;
                    },
                    StreamLine::Delta(piece) => {
                        self.buffer.append(piece.as_str());
                        pieces.push(piece);
                        proof {
                            assert(views(pieces@) =~= before.push(piece@));
                            assert(views(pieces@).drop_last() =~= before);
                            assert(old(self).buffer@ + joined(before) + piece@ =~= old(
                                self,
                            ).buffer@ + joined(views(pieces@)));
                        }
                    },
                    StreamLine::Other => {},
                }
            }
            i += 1;
        }
        proof {
            assert(all_views.take(all.len() as int) =~= all_views);
        }
        pieces
    }

    /// The whole answer, to be published at the end.
    pub fn finish(self) -> (text: String)
        ensures
            text@ == self.text(),
    {
        self.buffer
    }
}

} // verus!
