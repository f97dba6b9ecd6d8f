//! A labelled box that is either checked or not.

use vstd::prelude::*;
use vstd::string::StringExecFns;

verus! {

/// A checkbox. It takes the focus and flips on a toggle.
pub struct Checkbox {
    pub label: String,
    pub checked: bool,
}

/// What a checkbox is, as plain data.
pub struct CheckboxModel {
    pub label: Seq<char>,
    pub checked: bool,
}

impl CheckboxModel {
    /// The checkbox after one toggle: the flag flipped, the label kept.
    pub open spec fn toggled(self) -> CheckboxModel {
        CheckboxModel { label: self.label, checked: !self.checked }
    }

    /// The rendered checkbox: the bracket, a space and the label.
    pub open spec fn render(self) -> Seq<char> {
        (if self.checked {
            "[x]"@
        } else {
            "[ ]"@
        }) + " "@ + self.label
    }

    /// Toggling twice gives the checkbox back as it was.
    pub proof fn toggle_is_involution(self)
        ensures
            self.toggled().toggled() == self,
    {
    }
}

impl View for Checkbox {
    type V = CheckboxModel;

    open spec fn view(&self) -> CheckboxModel {
        CheckboxModel { label: self.label@, checked: self.checked }
    }
}

impl Checkbox {
    /// An unchecked checkbox with the given label.
    pub fn new(label: &str) -> (checkbox: Checkbox)
        ensures
            checkbox@ == (CheckboxModel { label: label@, checked: false }),
    {
        Checkbox { label: String::from_str(label), checked: false }
    }

    /// Flips the flag.
    pub fn toggle(&mut self)
        ensures
            final(self)@ == old(self)@.toggled(),
    {
        self.checked = !self.checked;
    }

    /// The checkbox as one line of text.
    pub fn render(&self) -> (line: String)
        ensures
            line@ == self@.render(),
    {
        let mut out = String::new();
        if self.checked {
            out.append("[x]");
        } else {
            out.append("[ ]");
        }
        out.append(" ");
        out.append(self.label.as_str());
        out
    }
}

} // verus!
