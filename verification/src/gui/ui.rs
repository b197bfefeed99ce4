//! The parts a screen is described with. A description says what is shown and what pressing it
//! means; drawing it is left to the window.
use vstd::prelude::*;

verus! {

/// How a text is coloured.
#[derive(Debug, Clone, Copy, PartialEq, Eq, Structural)]
pub enum Tone {
    Plain,
    Muted,
    Success,
    Warning,
    Danger,
}

/// How a button looks.
#[derive(Debug, Clone, Copy, PartialEq, Eq, Structural)]
pub enum Look {
    Main,
    Secondary,
    Danger,
}

/// A text.
#[derive(Debug, Clone, PartialEq, Eq)]
pub struct Label<T = String> {
    pub text: T,
    pub tone: Tone,
}

impl View for Label {
    type V = Label<Seq<char>>;

    open spec fn view(&self) -> Label<Seq<char>> {
        Label { text: self.text@, tone: self.tone }
    }
}

/// A button, which can be pressed when it has a message to send.
#[derive(Debug, Clone, PartialEq, Eq)]
pub struct Button<M, T = String> {
    pub label: T,
    pub look: Look,
    pub press: Option<M>,
}

impl<M> View for Button<M> {
    type V = Button<M, Seq<char>>;

    open spec fn view(&self) -> Button<M, Seq<char>> {
        Button { label: self.label@, look: self.look, press: self.press }
    }
}

pub fn label(text: &str, tone: Tone) -> (r: Label)
    ensures
        r@ == (Label { text: text@, tone }),
{
    Label { text: text.to_owned(), tone }
}

pub fn button<M>(label: &str, look: Look, press: Option<M>) -> (r: Button<M>)
    ensures
        r@ == (Button { label: label@, look, press }),
{
    Button { label: label.to_owned(), look, press }
}

} // verus!
