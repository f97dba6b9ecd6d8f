//! A push button drawn as a box around its caption.

use vstd::prelude::*;
use vstd::string::StringExecFns;
use crate::widget::text::{byte_len, push_repeated, repeat, utf8_len};

verus! {

/// A push button. It takes the focus, keeps no state and yields no value.
pub struct Button {
    pub label: String,
}

/// What a button is, as plain data.
pub struct ButtonModel {
    pub label: Seq<char>,
}

impl ButtonModel {
    /// The number of horizontal bars above and below the caption: two more
    /// than the caption has bytes in UTF-8.
    pub open spec fn width(self) -> nat {
        byte_len(self.label) + 2
    }

    /// The rendered button: a top border, the caption between two vertical
    /// bars, and a bottom border, separated by line feeds.
    pub open spec fn render(self) -> Seq<char> {
        "\u{256d}"@ + repeat("\u{2500}"@, self.width()) + "\u{256e}\n \u{2502} "@ + self.label
            + " \u{2502} \n \u{2570}"@ + repeat("\u{2500}"@, self.width()) + "\u{256f}"@
    }
}

impl View for Button {
    type V = ButtonModel;

    open spec fn view(&self) -> ButtonModel {
        ButtonModel { label: self.label@ }
    }
}

/// Appends a horizontal border of `n + 2` bars.
fn push_border(out: &mut String, n: usize)
    ensures
        final(out)@ == old(out)@ + repeat("\u{2500}"@, (n + 2) as nat),
{
    push_repeated(out, "\u{2500}", n);
    out.append("\u{2500}");
    out.append("\u{2500}");
    proof {
        let bar = "\u{2500}"@;
        assert(repeat(bar, (n + 2) as nat) == repeat(bar, (n + 1) as nat) + bar);
        assert(repeat(bar, (n + 1) as nat) == repeat(bar, n as nat) + bar);
        assert(out@ == old(out)@ + (repeat(bar, n as nat) + bar + bar));
    }
}

impl Button {
    /// A button with the caption `label`.
    pub fn new(label: &str) -> (button: Button)
        ensures
            button@ == (ButtonModel { label: label@ }),
    {
        Button { label: String::from_str(label) }
    }

    /// The button as three lines of text in one string.
    pub fn render(&self) -> (text: String)
        ensures
            text@ == self@.render(),
    {
        let n = utf8_len(self.label.as_str());
        let mut out = String::new();
        out.append("\u{256d}");
        push_border(&mut out, n);
        out.append("\u{256e}\n \u{2502} ");
        out.append(self.label.as_str());
        out.append(" \u{2502} \n \u{2570}");
        push_border(&mut out, n);
        out.append("\u{256f}");
        out
    }
}

} // verus!
