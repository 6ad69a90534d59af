//! Chat types for the AI assistant, and the keychain entry naming scheme for
//! provider API keys.

use vstd::prelude::*;

verus! {

/// Supported AI providers.
#[derive(Debug, Clone, Copy, PartialEq, Eq, Structural)]
pub enum AiProvider {
    Anthropic,
    OpenAi,
}

impl AiProvider {
    /// The keychain service suffix of this provider.
    pub open spec fn keychain_key_spec(self) -> Seq<char> {
        match self {
            AiProvider::Anthropic => "anthropic"@,
            AiProvider::OpenAi => "openai"@,
        }
    }

    /// Keychain service suffix for this provider.
    pub fn keychain_key(&self) -> (r: &str)
        ensures
            r@ == self.keychain_key_spec(),
    {
        match self {
            AiProvider::Anthropic => "anthropic",
            AiProvider::OpenAi => "openai",
        }
    }
}

/// The keychain entry key of a provider's API key.
pub open spec fn entry_key_spec(p: AiProvider) -> Seq<char> {
    "api-key-"@ + p.keychain_key_spec()
}

/// Build the keychain entry key for a given provider.
pub fn entry_key(provider: &AiProvider) -> (r: String)
    ensures
        r@ == entry_key_spec(*provider),
{
    let mut r = "api-key-".to_owned();
    r.append(provider.keychain_key());
    r
}

/// Message roles.
#[derive(Debug, Clone, Copy, PartialEq, Eq, Structural)]
pub enum ChatRole {
    User,
    Assistant,
    System,
}

/// A single message in the chat conversation.
#[derive(Debug, Clone)]
pub struct ChatMessage {
    pub role: ChatRole,
    pub content: String,
}

} // verus!
