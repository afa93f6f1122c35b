use vstd::prelude::*;

verus! {

/// The phase the recorder window is in.
#[derive(Debug, Clone, Copy, PartialEq, Eq, Structural)]
pub enum AppState {
    Idle,
    Recording,
    Transcribing,
    Error,
}

impl AppState {
    /// The text shown for each state.
    pub open spec fn label_spec(self) -> Seq<char> {
        match self {
            AppState::Idle => "Idle"@,
            AppState::Recording => "Recording..."@,
            AppState::Transcribing => "Transcribing..."@,
            AppState::Error => "Error"@,
        }
    }

    pub fn label(self) -> (r: &'static str)
        ensures
            r@ == self.label_spec(),
    {
        match self {
            AppState::Idle => "Idle",
            AppState::Recording => "Recording...",
            AppState::Transcribing => "Transcribing...",
            AppState::Error => "Error",
        }
    }
}

} // verus!
