use vstd::prelude::*;

verus! {

/// What the command line asks for.
pub enum Command {
    /// Start narrating.
    Start,
    /// List the installed voices.
    Voices,
    /// Speak a text, optionally with the voice of that display name.
    Speak { text: String, voice: Option<String> },
}

/// The parsed command line.
pub struct Args {
    pub command: Option<Command>,
}

} // verus!
