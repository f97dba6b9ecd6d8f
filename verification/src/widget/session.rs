//! The interaction as a state machine: the tree, the focus index and the
//! redraw flag, moved on by events; what to do next is handed out as an
//! action, so that the caller owns the terminal.

use vstd::prelude::*;
use vstd::view::View as _;
use crate::widget::focus::{
    advance, advance_full_cycle, advanced, advanced_by, retreat, retreat_full_cycle, retreated,
    retreated_by, step_keeps_focus_valid, valid_focus,
};
use crate::widget::key::{KeyCode, KeyEvent};
use crate::widget::model::{selected, Event, ViewModel, WidgetModel};
use crate::widget::text::{are_lines, join_lines, line_views, spaces, split_lines};
use crate::widget::view::{count_focusables, models, selected_labels, View, WidgetType};

verus! {

/// The state of an interaction as plain data.
pub struct SessionModel {
    pub view: ViewModel,
    pub focus_index: nat,
    pub needs_redraw: bool,
    pub terminated: bool,
}

/// Whether `c` is a character to put into a text field: any but a control
/// character.
pub open spec fn is_printable(c: char) -> bool {
    let code = c as u32;
    code >= 0x20 && !(0x7f <= code <= 0x9f)
}

impl SessionModel {
    /// The state in which an interaction over `view` begins: the focus on
    /// the first focusable leaf, and a first drawing owed.
    pub open spec fn start(view: ViewModel) -> SessionModel {
        SessionModel { view, focus_index: 0, needs_redraw: true, terminated: false }
    }

    /// The number of focusable leaves of the tree.
    pub open spec fn total(self) -> nat {
        self.view.focusable_count()
    }

    /// The focus index names a focusable leaf, unless there is none.
    pub open spec fn focus_is_valid(self) -> bool {
        valid_focus(self.focus_index, self.total())
    }

    /// The focus index is valid and every widget of the tree is sound.
    pub open spec fn well_formed(self) -> bool {
        self.focus_is_valid() && self.view.well_formed()
    }

    /// The leaf that has the focus, if the focus index names one.
    pub open spec fn focused_leaf(self) -> Option<WidgetModel> {
        if self.focus_index < self.total() {
            Some(self.view.flatten()[self.focus_index as int])
        } else {
            None
        }
    }

    /// The focus is on a text field.
    pub open spec fn on_text(self) -> bool {
        self.focused_leaf() matches Some(leaf) && leaf is Input
    }

    /// The state after `event`. A terminated interaction takes no event.
    /// `Terminate` ends it; the two focus events move the focus index around
    /// the cycle of focusable leaves; every other event goes to the focused
    /// leaf. A redraw is owed as soon as the focus index or the tree has
    /// changed.
    pub open spec fn after(self, event: Event) -> SessionModel {
        if self.terminated {
            self
        } else {
            match event {
                Event::Terminate => SessionModel { terminated: true, ..self },
                Event::AdvanceFocus => {
                    let focus_index = advanced(self.focus_index, self.total());
                    SessionModel {
                        focus_index,
                        needs_redraw: self.needs_redraw || focus_index != self.focus_index,
                        ..self
                    }
                },
                Event::RetreatFocus => {
                    let focus_index = retreated(self.focus_index, self.total());
                    SessionModel {
                        focus_index,
                        needs_redraw: self.needs_redraw || focus_index != self.focus_index,
                        ..self
                    }
                },
                _ => {
                    let view = self.view.dispatch(self.focus_index as int, event);
                    SessionModel {
                        view,
                        needs_redraw: self.needs_redraw || view != self.view,
                        ..self
                    }
                },
            }
        }
    }

    /// The state after each of `events`, in order.
    pub open spec fn after_all(self, events: Seq<Event>) -> SessionModel
        decreases events.len(),
    {
        if events.len() == 0 {
            self
        } else {
            self.after_all(events.drop_last()).after(events.last())
        }
    }

    /// What a key means in this state, if anything. Only a press counts.
    /// Tab and shift-tab move the focus and escape terminates. With the
    /// focus on a text field, a printable character goes in, backspace
    /// erases and the arrows move the cursor; elsewhere the space toggles
    /// and `+` and `-` step.
    pub open spec fn event_for(self, key: KeyEvent) -> Option<Event> {
        if !key.pressed {
            None
        } else {
            match key.code {
                KeyCode::Tab => Some(Event::AdvanceFocus),
                KeyCode::BackTab => Some(Event::RetreatFocus),
                KeyCode::Esc => Some(Event::Terminate),
                KeyCode::Char(c) => if self.on_text() {
                    if is_printable(c) {
                        Some(Event::InsertChar(c))
                    } else {
                        None
                    }
                } else if c == ' ' {
                    Some(Event::Toggle)
                } else if c == '+' {
                    Some(Event::Increment)
                } else if c == '-' {
                    Some(Event::Decrement)
                } else {
                    None
                },
                KeyCode::Backspace => if self.on_text() {
                    Some(Event::DeleteBack)
                } else {
                    None
                },
                KeyCode::Left => if self.on_text() {
                    Some(Event::CursorLeft)
                } else {
                    None
                },
                KeyCode::Right => if self.on_text() {
                    Some(Event::CursorRight)
                } else {
                    None
                },
                KeyCode::Other => None,
            }
        }
    }

    /// The state after a key: that after the event which the key means, and
    /// the same state if it means none.
    pub open spec fn after_key(self, key: KeyEvent) -> SessionModel {
        match self.event_for(key) {
            Some(event) => self.after(event),
            None => self,
        }
    }

    /// The state after the first `n` of `keys`, in order.
    pub open spec fn after_keys(self, keys: Seq<KeyEvent>, n: int) -> SessionModel
        decreases n,
    {
        if 0 < n <= keys.len() {
            self.after_keys(keys, n - 1).after_key(keys[n - 1])
        } else {
            self
        }
    }

    /// The whole display as one text: the tree drawn from the left margin,
    /// with the focus marker on the focused leaf.
    pub open spec fn frame(self) -> Seq<char> {
        self.view.render(spaces(0), self.focus_index as int, 0)
    }

    /// What the interaction yields: the labels of the checked checkboxes, in
    /// document order. Sliders and text fields are not part of it.
    pub open spec fn output(self) -> Seq<Seq<char>> {
        selected(self.view.values())
    }
}

/// The event `event`, `n` times in a row.
pub open spec fn repeated(event: Event, n: nat) -> Seq<Event> {
    Seq::new(n, |i: int| event)
}

impl SessionModel {
    /// An interaction over a sound tree begins in a sound state.
    pub proof fn start_is_well_formed(view: ViewModel)
        requires
            view.well_formed(),
        ensures
            SessionModel::start(view).well_formed(),
    {
    }

    /// No event changes the number of focusable leaves, and every event
    /// leaves a sound state sound: the focus index still names a leaf, each
    /// slider is within its bounds and each cursor within its text.
    pub proof fn after_keeps_well_formed(self, event: Event)
        ensures
            self.after(event).total() == self.total(),
            self.well_formed() ==> self.after(event).well_formed(),
            self.focus_is_valid() ==> self.after(event).focus_is_valid(),
    {
        self.view.dispatch_changes_one_leaf(self.focus_index as int, event);
        step_keeps_focus_valid(self.focus_index, self.total());
        if self.well_formed() {
            self.view.dispatch_keeps_well_formed(self.focus_index as int, event);
        }
    }

    /// Through any sequence of events a sound state stays sound at every
    /// step.
    pub proof fn stays_well_formed(self, events: Seq<Event>, steps: int)
        requires
            self.well_formed(),
            0 <= steps <= events.len(),
        ensures
            self.after_all(events.subrange(0, steps)).well_formed(),
            self.after_all(events.subrange(0, steps)).total() == self.total(),
        decreases steps,
    {
        if steps > 0 {
            self.stays_well_formed(events, steps - 1);
            assert(events.subrange(0, steps).drop_last() =~= events.subrange(0, steps - 1));
            self.after_all(events.subrange(0, steps - 1)).after_keeps_well_formed(
                events[steps - 1],
            );
        }
    }

    /// In a tree without focusable leaves the two focus events change
    /// nothing at all, and no other event reaches a leaf.
    pub proof fn no_focusable_leaf_no_move(self, event: Event)
        requires
            self.total() == 0,
            !(event is Terminate),
        ensures
            self.after(event) == self,
    {
        self.view.dispatch_elsewhere(self.focus_index as int, event);
    }

    /// A focus event changes the focus index only: the tree stays as it is.
    pub proof fn focus_events_keep_tree(self, event: Event)
        requires
            event is AdvanceFocus || event is RetreatFocus,
        ensures
            self.after(event).view == self.view,
            self.after(event).terminated == self.terminated,
    {
    }

    proof fn advance_steps(self, steps: nat)
        requires
            !self.terminated,
        ensures
            self.after_all(repeated(Event::AdvanceFocus, steps)).focus_index == advanced_by(
                self.focus_index,
                self.total(),
                steps,
            ),
            self.after_all(repeated(Event::AdvanceFocus, steps)).view == self.view,
            !self.after_all(repeated(Event::AdvanceFocus, steps)).terminated,
        decreases steps,
    {
        if steps > 0 {
            self.advance_steps((steps - 1) as nat);
            assert(repeated(Event::AdvanceFocus, steps).drop_last() =~= repeated(
                Event::AdvanceFocus,
                (steps - 1) as nat,
            ));
        }
    }

    proof fn retreat_steps(self, steps: nat)
        requires
            !self.terminated,
        ensures
            self.after_all(repeated(Event::RetreatFocus, steps)).focus_index == retreated_by(
                self.focus_index,
                self.total(),
                steps,
            ),
            self.after_all(repeated(Event::RetreatFocus, steps)).view == self.view,
            !self.after_all(repeated(Event::RetreatFocus, steps)).terminated,
        decreases steps,
    {
        if steps > 0 {
            self.retreat_steps((steps - 1) as nat);
            assert(repeated(Event::RetreatFocus, steps).drop_last() =~= repeated(
                Event::RetreatFocus,
                (steps - 1) as nat,
            ));
        }
    }

    /// As many `AdvanceFocus` events as the tree has focusable leaves bring
    /// the focus back to the leaf it started on, and so do as many
    /// `RetreatFocus` events; the tree is untouched.
    pub proof fn focus_cycle_returns(self)
        requires
            !self.terminated,
            self.focus_is_valid(),
        ensures
            self.after_all(repeated(Event::AdvanceFocus, self.total())).focus_index
                == self.focus_index,
            self.after_all(repeated(Event::RetreatFocus, self.total())).focus_index
                == self.focus_index,
            self.after_all(repeated(Event::AdvanceFocus, self.total())).view == self.view,
            self.after_all(repeated(Event::RetreatFocus, self.total())).view == self.view,
    {
        self.advance_steps(self.total());
        self.retreat_steps(self.total());
        advance_full_cycle(self.focus_index, self.total());
        retreat_full_cycle(self.focus_index, self.total());
    }

    /// Once terminated, an interaction stays as it is whatever keys follow.
    pub proof fn terminated_ignores_keys(self, keys: Seq<KeyEvent>, m: int, n: int)
        requires
            0 <= m <= n <= keys.len(),
            self.after_keys(keys, m).terminated,
        ensures
            self.after_keys(keys, n) == self.after_keys(keys, m),
        decreases n - m,
    {
        if m < n {
            self.terminated_ignores_keys(keys, m, n - 1);
        }
    }

    /// Once terminated, an interaction takes no further event.
    pub proof fn terminated_is_final(self, event: Event)
        requires
            self.terminated,
        ensures
            self.after(event) == self,
    {
    }
}

/// What the caller of a session is to do next.
pub enum Action {
    /// Clear the display and write these lines.
    Draw(Vec<String>),
    /// Wait for the next key and hand it to the session.
    ReadKey,
    /// Stop; these are the collected labels.
    Finish(Vec<String>),
}

/// An interaction over a tree of widgets.
pub struct Session {
    pub view: View,
    pub focus_index: usize,
    pub needs_redraw: bool,
    pub terminated: bool,
}

impl vstd::view::View for Session {
    type V = SessionModel;

    open spec fn view(&self) -> SessionModel {
        SessionModel {
            view: self.view@,
            focus_index: self.focus_index as nat,
            needs_redraw: self.needs_redraw,
            terminated: self.terminated,
        }
    }
}

impl Session {
    /// Begins an interaction over `view`.
    pub fn new(view: View) -> (session: Session)
        ensures
            session@ == SessionModel::start(view@),
    {
        Session { view, focus_index: 0, needs_redraw: true, terminated: false }
    }

    /// Whether the focus is on a text field.
    pub fn on_text(&self) -> (on_text: bool)
        ensures
            on_text == self@.on_text(),
    {
        let leaves = self.view.flatten_focusable();
        proof {
            assert(models(leaves@).len() == leaves@.len());
        }
        if self.focus_index < leaves.len() {
            let leaf = leaves[self.focus_index];
            proof {
                assert(models(leaves@)[self.focus_index as int] == leaf@);
            }
            match leaf {
                WidgetType::Input(_) => true,
                _ => false,
            }
        } else {
            false
        }
    }

    /// Whether `event`, dispatched now, would change the tree.
    fn focused_reacts(&self, event: &Event) -> (reacts: bool)
        ensures
            reacts == (self@.view.dispatch(self@.focus_index as int, *event) != self@.view),
    {
        let leaves = self.view.flatten_focusable();
        proof {
            assert(models(leaves@).len() == leaves@.len());
            self@.view.dispatch_changes_iff_leaf_reacts(self@.focus_index as int, *event);
        }
        if self.focus_index < leaves.len() {
            let leaf = leaves[self.focus_index];
            proof {
                assert(models(leaves@)[self.focus_index as int] == leaf@);
            }
            leaf.reacts_to(event)
        } else {
            false
        }
    }

    /// Applies one event to the interaction.
    pub fn dispatch(&mut self, event: Event)
        ensures
            final(self)@ == old(self)@.after(event),
    {
        if self.terminated {
            return ;
        }
        match event {
            Event::Terminate => {
                self.terminated = true;
            },
            Event::AdvanceFocus => {
                let total = count_focusables(&self.view);
                let next = advance(self.focus_index, total);
                if next != self.focus_index {
                    self.needs_redraw = true;
                }
                self.focus_index = next;
            },
            Event::RetreatFocus => {
                let total = count_focusables(&self.view);
                let previous = retreat(self.focus_index, total);
                if previous != self.focus_index {
                    self.needs_redraw = true;
                }
                self.focus_index = previous;
            },
            _ => {
                if self.focused_reacts(&event) {
                    self.needs_redraw = true;
                }
                self.view.handle_event(&event, self.focus_index);
            },
        }
    }

    /// What `key` means in the present state, if anything.
    pub fn event_for(&self, key: KeyEvent) -> (event: Option<Event>)
        ensures
            event == self@.event_for(key),
    {
        if !key.pressed {
            return None;
        }
        match key.code {
            KeyCode::Tab => Some(Event::AdvanceFocus),
            KeyCode::BackTab => Some(Event::RetreatFocus),
            KeyCode::Esc => Some(Event::Terminate),
            KeyCode::Char(c) => {
                if self.on_text() {
                    let code = c as u32;
                    if code >= 0x20 && !(0x7f <= code && code <= 0x9f) {
                        Some(Event::InsertChar(c))
                    } else {
                        None
                    }
                } else if c == ' ' {
                    Some(Event::Toggle)
                } else if c == '+' {
                    Some(Event::Increment)
                } else if c == '-' {
                    Some(Event::Decrement)
                } else {
                    None
                }
            },
            KeyCode::Backspace => if self.on_text() {
                Some(Event::DeleteBack)
            } else {
                None
            },
            KeyCode::Left => if self.on_text() {
                Some(Event::CursorLeft)
            } else {
                None
            },
            KeyCode::Right => if self.on_text() {
                Some(Event::CursorRight)
            } else {
                None
            },
            KeyCode::Other => None,
        }
    }

    /// Applies one key to the interaction: the event that it means, or
    /// nothing if it means none.
    pub fn handle_key(&mut self, key: KeyEvent)
        ensures
            final(self)@ == old(self)@.after_key(key),
    {
        match self.event_for(key) {
            Some(event) => {
                self.dispatch(event);
            },
            None => {},
        }
    }

    /// The display, line by line. Joined with line feeds the lines give the
    /// drawn tree, and no line holds a line feed.
    pub fn frame(&self) -> (lines: Vec<String>)
        ensures
            are_lines(line_views(lines@)),
            join_lines(line_views(lines@)) == self@.frame(),
    {
        // The leaves are numbered from zero up to their count, which is a
        // machine integer: the numbering cannot overflow.
        let total = count_focusables(&self.view);
        let mut counter: usize = 0;
        let text = self.view.render(0, self.focus_index, &mut counter);
        assert(counter == total);
        split_lines(text.as_str())
    }

    /// The labels of the checked checkboxes, in document order.
    pub fn output(&self) -> (labels: Vec<String>)
        ensures
            line_views(labels@) == self@.output(),
    {
        let values = self.view.get_values();
        selected_labels(&values)
    }

    /// Says what is to be done next, and notes a drawing as done. A
    /// terminated interaction hands out its result; one that owes a redraw
    /// hands out the lines to draw; any other waits for a key.
    pub fn next_action(&mut self) -> (action: Action)
        ensures
            final(self)@ == (SessionModel {
                needs_redraw: old(self)@.needs_redraw && old(self)@.terminated,
                ..old(self)@
            }),
            match action {
                Action::Finish(labels) => old(self)@.terminated && line_views(labels@) == old(
                    self,
                )@.output(),
                Action::Draw(lines) => !old(self)@.terminated && old(self)@.needs_redraw
                    && are_lines(line_views(lines@)) && join_lines(line_views(lines@)) == old(
                    self,
                )@.frame(),
                Action::ReadKey => !old(self)@.terminated && !old(self)@.needs_redraw,
            },
    {
        if self.terminated {
            Action::Finish(self.output())
        } else if self.needs_redraw {
            let lines = self.frame();
            self.needs_redraw = false;
            Action::Draw(lines)
        } else {
            Action::ReadKey
        }
    }
}

} // verus!
