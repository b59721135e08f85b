//! What a request to a model can be refused for.
use crate::text;
use crate::text::write_decimal;
use vstd::prelude::*;

verus! {

#[derive(Clone, Copy, Debug, PartialEq, Eq, Structural)]
pub enum AkashaError {
    EmptyPrompt,
    PromptTooLong { len: u32, max: u32 },
    ContextFull { max: u32 },
    NoCache,
    CacheNotEmpty { cur_len: u32 },
}

impl AkashaError {
    /// The error in words.
    pub open spec fn spec_message(self) -> Seq<char> {
        match self {
            AkashaError::EmptyPrompt => "prompt is empty"@,
            AkashaError::PromptTooLong { len, max } => "prompt is "@ + text::decimal(len as nat)
                + " tokens, context window is "@ + text::decimal(max as nat),
            AkashaError::ContextFull { max } => "context window is full ("@ + text::decimal(
                max as nat,
            ) + " tokens)"@,
            AkashaError::NoCache => "no cache attached (call replace_cache or generate first)"@,
            AkashaError::CacheNotEmpty { cur_len } => "prefill needs an empty cache, this one holds "@
                + text::decimal(cur_len as nat)
                + " tokens (loop decode_step for a resumed cache)"@,
        }
    }

    pub fn message(&self) -> (r: String)
        ensures
            r@ == self.spec_message(),
    {
        match self {
            AkashaError::EmptyPrompt => String::from_str("prompt is empty"),
            AkashaError::PromptTooLong { len, max } => {
                let mut r = String::from_str("prompt is ");
                r.append(write_decimal(*len as u64).as_str());
                r.append(" tokens, context window is ");
                r.append(write_decimal(*max as u64).as_str());
                r
            },
            AkashaError::ContextFull { max } => {
                let mut r = String::from_str("context window is full (");
                r.append(write_decimal(*max as u64).as_str());
                r.append(" tokens)");
                r
            },
            AkashaError::NoCache => String::from_str(
                "no cache attached (call replace_cache or generate first)",
            ),
            AkashaError::CacheNotEmpty { cur_len } => {
                let mut r = String::from_str("prefill needs an empty cache, this one holds ");
                r.append(write_decimal(*cur_len as u64).as_str());
                r.append(" tokens (loop decode_step for a resumed cache)");
                r
            },
        }
    }
}

} // verus!
