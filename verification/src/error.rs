//! The errors of loading and drawing the default cursor.

use vstd::prelude::*;

verus! {

/// What can go wrong while a default cursor is loaded or drawn.
#[derive(Clone, Copy, Debug, PartialEq, Eq, Structural)]
pub enum CursorError {
    /// None of the themes of the fallback chain holds the icon.
    ThemeNotFound,
    /// The icon file is missing or cannot be read.
    IconReadError,
    /// The icon file is not a well-formed cursor animation, or holds no frame.
    ParseError,
    /// The renderer could not take a frame's pixels.
    ImportError,
    /// No frame of the timeline is active at the current offset.
    FrameLookupMiss,
}

impl CursorError {
    /// The text that `message` gives for this error.
    pub open spec fn spec_message(&self) -> &'static str {
        match self {
            CursorError::ThemeNotFound => "cursor 'left_ptr' not found in any theme",
            CursorError::IconReadError => "failed to read cursor file",
            CursorError::ParseError => "failed to parse cursor file",
            CursorError::ImportError => "failed to import cursor texture",
            CursorError::FrameLookupMiss => "no cursor texture found for the current delay",
        }
    }

    /// A line that says what went wrong.
    #[verifier::when_used_as_spec(spec_message)]
    pub fn message(&self) -> (text: &'static str)
        ensures
            text == self.spec_message(),
    {
        match self {
            CursorError::ThemeNotFound => "cursor 'left_ptr' not found in any theme",
            CursorError::IconReadError => "failed to read cursor file",
            CursorError::ParseError => "failed to parse cursor file",
            CursorError::ImportError => "failed to import cursor texture",
            CursorError::FrameLookupMiss => "no cursor texture found for the current delay",
        }
    }
}

} // verus!
