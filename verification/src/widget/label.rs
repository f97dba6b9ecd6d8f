//! A line of fixed text.

use vstd::prelude::*;
use vstd::string::StringExecFns;

verus! {

/// A line of fixed text. It never takes the focus and never yields a value.
pub struct Label {
    pub text: String,
}

/// What a label is, as plain data.
pub struct LabelModel {
    pub text: Seq<char>,
}

impl LabelModel {
    /// The rendered label: its text, unchanged. An empty text gives an empty line.
    pub open spec fn render(self) -> Seq<char> {
        self.text
    }
}

impl View for Label {
    type V = LabelModel;

    open spec fn view(&self) -> LabelModel {
        LabelModel { text: self.text@ }
    }
}

impl Label {
    /// A label that shows `text`.
    pub fn new(text: &str) -> (label: Label)
        ensures
            label@ == (LabelModel { text: text@ }),
    {
        Label { text: String::from_str(text) }
    }

    /// The text of the label as one line.
    pub fn render(&self) -> (line: String)
        ensures
            line@ == self@.render(),
    {
        self.text.clone()
    }
}

} // verus!
