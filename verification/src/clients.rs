//! The boundary toward the remote summarization service: the adapter
//! choice, the capability interface, the shape of the service's reply, and
//! the verified handling of that reply. The transport itself lives outside
//! the library.

use vstd::prelude::*;

verus! {

/// The available summarization backends.
pub enum ModelAdapterEnum {
    QianWen,
}

/// The capability a summarization backend offers: turn a target date and
/// the ordered digest into a summary text. Implementations live outside
/// the library, next to their transports.
pub trait Prompt {
    fn get_message(
        &self,
        year: Option<i32>,
        month: Option<u32>,
        day: Option<u32>,
        logs: Vec<String>,
    ) -> Option<String>;
}

/// Token accounting reported by the service.
pub struct Usage {
    pub total_tokens: usize,
    pub output_tokens: usize,
    pub input_tokens: usize,
}

/// The generated text and the reason generation stopped.
pub struct Output {
    pub text: String,
    pub finish_reason: String,
}

/// One reply of the summarization service.
pub struct LLMResponse {
    pub output: Output,
    pub usage: Usage,
    pub request_id: String,
}

/// The fixed human-readable fallback used when the remote call fails.
pub open spec fn fallback_chars() -> Seq<char> {
    "请求失败"@
}

/// What an empty-digest run reports, as a normal outcome.
pub open spec fn no_commits_chars() -> Seq<char> {
    "没有找到提交记录"@
}

/// Whether the summarizer is to be invoked at all: an empty digest skips
/// the remote call entirely and the run reports that no commits were found.
pub fn should_summarize(digest: &Vec<String>) -> (r: bool)
    ensures
        r == (digest@.len() != 0),
{
    digest.len() != 0
}

/// The fixed report for a run whose digest is empty.
pub fn no_commits_message() -> (t: String)
    ensures
        t@ == no_commits_chars(),
{
    String::from_str("没有找到提交记录")
}

/// The summary text of a successful reply.
pub fn response_message(r: &LLMResponse) -> (t: String)
    ensures
        t@ == r.output.text@,
{
    r.output.text.clone()
}

/// What the run reports for one outcome of the remote call: the reply's
/// text when one came back, and the fixed fallback when none did — a
/// failure never propagates.
pub fn message_or_fallback(outcome: Option<LLMResponse>) -> (t: String)
    ensures
        outcome is Some ==> t@ == outcome->0.output.text@,
        outcome is None ==> t@ == fallback_chars(),
{
    match outcome {
        Some(r) => r.output.text,
        None => {
            let t = String::from_str("请求失败");
            proof {
                assert(t@ == fallback_chars());
            }
            t
        },
    }
}

} // verus!
