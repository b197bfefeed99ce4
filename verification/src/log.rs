//! The lines of the activity log and their tags.
use vstd::prelude::*;

verus! {

/// What kind of line the activity log shows.
#[derive(Debug, Clone, Copy, PartialEq, Eq, Structural)]
pub enum Level {
    Install,
    Download,
    Verify,
    Info,
    Okay,
    Success,
    Warn,
    Error,
}

/// A line of the activity log.
#[derive(Debug, PartialEq, Eq)]
pub struct Note<T = String> {
    pub level: Level,
    pub text: T,
}

impl View for Note {
    type V = Note<Seq<char>>;

    open spec fn view(&self) -> Note<Seq<char>> {
        Note { level: self.level, text: self.text@ }
    }
}

impl Clone for Note {
    fn clone(&self) -> (r: Self)
        ensures
            r == *self,
    {
        Note { level: self.level, text: self.text.clone() }
    }
}

impl Note {
    /// Whether two lines say the same.
    pub fn same(&self, other: &Note) -> (r: bool)
        ensures
            r == (self@ == other@),
    {
        self.level == other.level && self.text == other.text
    }
}

} // verus!
