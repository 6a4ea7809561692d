//! The hello tool: on activation it asks for a random word, then has the answer spoken.

use vstd::prelude::*;

verus! {

/// A request for text, with the most tokens to predict where limited.
#[derive(Debug)]
pub struct TextPromptRequest {
    pub content: String,
    pub num_predict: Option<u32>,
}

/// The request that activating the hello tool sends: "Here is a random word:", at most
/// seven tokens.
pub fn hello_prompt() -> (r: TextPromptRequest)
    ensures
        r.content@ == "Here is a random word:"@,
        r.num_predict == Some(7u32),
{
    TextPromptRequest { content: String::from_str("Here is a random word:"), num_predict: Some(7) }
}

/// What to speak for a text answer: the answer itself, where it answers a hello tool's
/// request; else nothing.
pub fn speech_for_response(from_hello_tool: bool, response: String) -> (r: Option<String>)
    ensures
        from_hello_tool ==> r == Some(response),
        !from_hello_tool ==> r is None,
{
    if from_hello_tool {
        Some(response)
    } else {
        None
    }
}

} // verus!
