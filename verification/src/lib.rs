//! A small toolkit of text-mode controls: labels, buttons, checkboxes,
//! sliders and text fields, grouped in nested views, navigated with a single
//! focus index and rendered to plain text.
//!
//! The library holds no terminal. A [`Session`] says what is to be done next
//! and takes the keys that were read; [`run`] plays a recorded sequence of
//! keys through a session.

use vstd::prelude::*;
use vstd::view::View as _;

pub mod widget;

pub use widget::button::Button;
pub use widget::checkbox::Checkbox;
pub use widget::input::Input;
pub use widget::key::{KeyCode, KeyEvent};
pub use widget::label::Label;
pub use widget::session::{Action, Session, SessionModel};
pub use widget::slider::Slider;
pub use widget::text::line_views;
pub use widget::view::{Event, View, WidgetType, WidgetValue};

verus! {

/// Runs the view over the recorded `keys` and returns the labels of the
/// checkboxes that are checked at the end. Keys behind the one that
/// terminates the interaction are not looked at.
pub fn run(view: View, keys: &Vec<KeyEvent>) -> (labels: Vec<String>)
    ensures
        line_views(labels@) == SessionModel::start(view@).after_keys(
            keys@,
            keys@.len() as int,
        ).output(),
{
    let mut session = Session::new(view);
    let mut i: usize = 0;
    while i < keys.len() && !session.terminated
        invariant
            i <= keys.len(),
            session@ == SessionModel::start(view@).after_keys(keys@, i as int),
        decreases keys.len() - i,
    {
        session.handle_key(keys[i]);
        i += 1;
    }
    proof {
        if session.terminated {
            SessionModel::start(view@).terminated_ignores_keys(
                keys@,
                i as int,
                keys@.len() as int,
            );
        }
    }
    session.output()
}

} // verus!
