//! What is sent to a language model and what comes back. The calls
//! themselves are made outside this library.

use vstd::prelude::*;
use crate::text::{
    byte_len, chars_of, push_str_chars, scan_backward, slice_of, string_of, suffix_len, CharClass,
};

verus! {

/// One request to a language model. Temperature and `top_p` are in
/// millionths.
#[derive(Debug)]
pub struct ChatRequest {
    pub system_prompt: String,
    pub user_message: String,
    pub temperature: u32,
    pub top_p: u32,
    pub max_tokens: u32,
}

/// The answer of a language model, with the tokens that it cost.
#[derive(Debug)]
pub struct LlmResponse {
    pub content: String,
    pub prompt_tokens: u32,
    pub completion_tokens: u32,
    pub total_tokens: u32,
}

impl Clone for LlmResponse {
    fn clone(&self) -> (r: Self)
        ensures
            r.content@ == self.content@,
            r.prompt_tokens == self.prompt_tokens,
            r.completion_tokens == self.completion_tokens,
            r.total_tokens == self.total_tokens,
    {
        LlmResponse {
            content: self.content.clone(),
            prompt_tokens: self.prompt_tokens,
            completion_tokens: self.completion_tokens,
            total_tokens: self.total_tokens,
        }
    }
}

/// The token counts assumed for an answer whose provider reports none: a
/// quarter of its length in bytes, all of it spent on the completion. The
/// counts are prompt, completion and total.
pub fn estimate_tokens(content: &str) -> (r: (u32, u32, u32))
    ensures
        r.0 == 0,
        r.1 == ((byte_len(content@) / 4) as u32),
        r.2 == r.1,
{
    let est = #[verifier::truncate]
    ((content.len() / 4) as u32);
    (0, est, est)
}

/// The sum of two token counts, capped at the largest count.
pub open spec fn capped_sum(a: u32, b: u32) -> u32 {
    if a + b > u32::MAX {
        u32::MAX
    } else {
        (a + b) as u32
    }
}

/// The token counts of an answer whose provider reports usage: a missing
/// prompt or completion count is zero, a missing total is their sum. The
/// counts are prompt, completion and total.
pub fn usage_tokens(prompt: Option<u32>, completion: Option<u32>, total: Option<u32>) -> (r: (
    u32,
    u32,
    u32,
))
    ensures
        r.0 == (match prompt {
            Some(p) => p,
            None => 0,
        }),
        r.1 == (match completion {
            Some(c) => c,
            None => 0,
        }),
        r.2 == (match total {
            Some(t) => t,
            None => capped_sum(r.0, r.1),
        }),
{
    let p = match prompt {
        Some(p) => p,
        None => 0,
    };
    let c = match completion {
        Some(c) => c,
        None => 0,
    };
    let t = match total {
        Some(t) => t,
        None => p.saturating_add(c),
    };
    (p, c, t)
}

/// `s` without its trailing slashes.
pub open spec fn without_trailing_slashes(s: Seq<char>) -> Seq<char> {
    s.take(s.len() - suffix_len(s, CharClass::Only('/')))
}

/// A base URL without its trailing slashes.
pub fn normalize_base_url(base_url: &str) -> (r: String)
    ensures
        r@ == without_trailing_slashes(base_url@),
{
    let chars = chars_of(base_url);
    let end = scan_backward(&chars, 0, chars.len(), CharClass::Only('/'));
    proof {
        assert(chars@.subrange(0, chars.len() as int) == chars@);
    }
    let kept = slice_of(&chars, 0, end);
    string_of(&kept)
}

/// The address of the chat endpoint of an OpenAI-style provider.
pub fn openai_chat_url(base_url: &str) -> (r: String)
    ensures
        r@ == base_url@ + "/chat/completions"@,
{
    let mut url = chars_of(base_url);
    push_str_chars(&mut url, "/chat/completions");
    string_of(&url)
}

/// The address of the generation endpoint of a Gemini model.
pub fn gemini_generate_url(base_url: &str, model: &str, api_key: &str) -> (r: String)
    ensures
        r@ == base_url@ + "/models/"@ + model@ + ":generateContent?key="@ + api_key@,
{
    let mut url = chars_of(base_url);
    push_str_chars(&mut url, "/models/");
    push_str_chars(&mut url, model);
    push_str_chars(&mut url, ":generateContent?key=");
    push_str_chars(&mut url, api_key);
    string_of(&url)
}

} // verus!
