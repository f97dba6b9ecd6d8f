//! A flat list of widgets with a focus of its own, driven by plain
//! characters.

use vstd::prelude::*;
use vstd::arithmetic::div_mod::{lemma_add_mod_noop, lemma_small_mod};
use vstd::std_specs::convert::{FromSpecImpl, IntoSpec};
use vstd::string::StringExecFns;
use crate::widget::button::Button;
use crate::widget::checkbox::Checkbox;
use crate::widget::focus::{advance, advanced};
use crate::widget::key::{KeyCode, KeyEvent};
use crate::widget::label::Label;
use crate::widget::model::{selected, values_first, EntryModel, WidgetModel};
use crate::widget::slider::Slider;
use crate::widget::text::{join_lines, line_views};
use crate::widget::view::{entries, selected_labels};

pub use crate::widget::view::WidgetValue;

verus! {

/// A character that was typed.
#[derive(Debug, Clone, Copy, PartialEq, Eq)]
pub enum Event {
    Key(char),
}

impl Event {
    /// What the character asks of a widget: the space toggles, `+` and `-`
    /// step, and any other character asks nothing.
    pub open spec fn meaning(self) -> Option<crate::widget::model::Event> {
        match self {
            Event::Key(c) => if c == ' ' {
                Some(crate::widget::model::Event::Toggle)
            } else if c == '+' {
                Some(crate::widget::model::Event::Increment)
            } else if c == '-' {
                Some(crate::widget::model::Event::Decrement)
            } else {
                None
            },
        }
    }

    /// The character is the tabulator, which moves the focus.
    pub open spec fn is_tab(self) -> bool {
        self == Event::Key('\t')
    }
}

/// What the caller of a list is to do after a key.
#[derive(Debug, Clone, Copy, PartialEq, Eq)]
pub enum KeyOutcome {
    /// Stop and collect the result.
    Stop,
    /// Draw the list again.
    Redraw,
    /// Nothing happened; wait for the next key.
    Wait,
}

/// The character that a key types into a list: the tabulator for the tab
/// key, and the space, `+` and `-` for their keys. Only a press counts, and
/// no other key types anything.
pub open spec fn typed_char(key: KeyEvent) -> Option<char> {
    if !key.pressed {
        None
    } else {
        match key.code {
            KeyCode::Tab => Some('\t'),
            KeyCode::Char(c) => if c == ' ' || c == '+' || c == '-' {
                Some(c)
            } else {
                None
            },
            _ => None,
        }
    }
}

/// A widget of the flat list: a leaf of one of four kinds.
pub enum WidgetType {
    Button(Button),
    Checkbox(Checkbox),
    Slider(Slider),
    Label(Label),
}

impl View for WidgetType {
    type V = WidgetModel;

    open spec fn view(&self) -> WidgetModel {
        match self {
            WidgetType::Button(b) => WidgetModel::Button(b@),
            WidgetType::Checkbox(c) => WidgetModel::Checkbox(c@),
            WidgetType::Slider(s) => WidgetModel::Slider(s@),
            WidgetType::Label(l) => WidgetModel::Label(l@),
        }
    }
}

impl From<Label> for WidgetType {
    fn from(value: Label) -> (widget: WidgetType) {
        WidgetType::Label(value)
    }
}

impl FromSpecImpl<Label> for WidgetType {
    open spec fn obeys_from_spec() -> bool {
        true
    }

    open spec fn from_spec(value: Label) -> WidgetType {
        WidgetType::Label(value)
    }
}

impl From<Button> for WidgetType {
    fn from(value: Button) -> (widget: WidgetType) {
        WidgetType::Button(value)
    }
}

impl FromSpecImpl<Button> for WidgetType {
    open spec fn obeys_from_spec() -> bool {
        true
    }

    open spec fn from_spec(value: Button) -> WidgetType {
        WidgetType::Button(value)
    }
}

impl From<Checkbox> for WidgetType {
    fn from(value: Checkbox) -> (widget: WidgetType) {
        WidgetType::Checkbox(value)
    }
}

impl FromSpecImpl<Checkbox> for WidgetType {
    open spec fn obeys_from_spec() -> bool {
        true
    }

    open spec fn from_spec(value: Checkbox) -> WidgetType {
        WidgetType::Checkbox(value)
    }
}

impl From<Slider> for WidgetType {
    fn from(value: Slider) -> (widget: WidgetType) {
        WidgetType::Slider(value)
    }
}

impl FromSpecImpl<Slider> for WidgetType {
    open spec fn obeys_from_spec() -> bool {
        true
    }

    open spec fn from_spec(value: Slider) -> WidgetType {
        WidgetType::Slider(value)
    }
}

/// A widget of the flat list as text: the marker, `>` if `focused`, and the
/// widget; a label has a blank before the marker.
pub open spec fn render_flat(widget: WidgetModel, focused: bool) -> Seq<char> {
    match widget {
        WidgetModel::Button(b) => WidgetModel::marker(focused) + b.render(),
        WidgetModel::Checkbox(c) => WidgetModel::marker(focused) + c.render(),
        WidgetModel::Slider(s) => WidgetModel::marker(focused) + s.render(),
        WidgetModel::Label(l) => " "@ + WidgetModel::marker(focused) + l.render(),
        _ => Seq::empty(),
    }
}

/// The widget that follows `from` around the cycle of `widgets` and can take
/// the focus, looking at no more than `left` widgets; none if none of them
/// can.
pub open spec fn next_after(widgets: Seq<WidgetModel>, from: nat, left: nat) -> Option<nat>
    decreases left,
{
    if left == 0 || widgets.len() == 0 {
        None
    } else {
        let next = advanced(from, widgets.len());
        if widgets[next as int].is_focusable() {
            Some(next)
        } else {
            next_after(widgets, next, (left - 1) as nat)
        }
    }
}

/// The flat list as plain data.
pub struct UiModel {
    pub widgets: Seq<WidgetModel>,
    pub focused_index: Option<nat>,
}

impl UiModel {
    /// The list with `widget` added at the end. The first widget that can
    /// take the focus gets it.
    pub open spec fn added(self, widget: WidgetModel) -> UiModel {
        UiModel {
            widgets: self.widgets.push(widget),
            focused_index: if self.focused_index is None && widget.is_focusable() {
                Some(self.widgets.len())
            } else {
                self.focused_index
            },
        }
    }

    /// The list with the focus moved to the next widget around the cycle
    /// that can take it. Without a focus, and without such a widget, nothing
    /// changes.
    pub open spec fn with_next_focus(self) -> UiModel {
        match self.focused_index {
            Some(from) => match next_after(self.widgets, from, self.widgets.len()) {
                Some(next) => UiModel { focused_index: Some(next), ..self },
                None => self,
            },
            None => self,
        }
    }

    /// The list after `event`: the tabulator moves the focus, and any other
    /// character goes to the focused widget, if the focus names one.
    pub open spec fn after(self, event: Event) -> UiModel {
        if event.is_tab() {
            self.with_next_focus()
        } else {
            match (self.focused_index, event.meaning()) {
                (Some(i), Some(e)) => if i < self.widgets.len() {
                    UiModel {
                        widgets: self.widgets.update(i as int, self.widgets[i as int].after(e)),
                        ..self
                    }
                } else {
                    self
                },
                _ => self,
            }
        }
    }

    /// The text of each widget, the focused one marked.
    pub open spec fn lines(self) -> Seq<Seq<char>> {
        Seq::new(
            self.widgets.len(),
            |i: int| render_flat(self.widgets[i], self.focused_index == Some(i as nat)),
        )
    }

    /// The list as text: its widgets in order, a line feed between
    /// neighbours.
    pub open spec fn render(self) -> Seq<char> {
        join_lines(self.lines())
    }

    /// The values of the widgets, in order: each checkbox with its flag,
    /// each slider with its value.
    pub open spec fn values(self) -> Seq<EntryModel> {
        values_first(self.widgets, self.widgets.len() as int)
    }

    /// The list after a key: that after the character which the key types,
    /// and the same list if it types none.
    pub open spec fn after_key(self, key: KeyEvent) -> UiModel {
        match typed_char(key) {
            Some(c) => self.after(Event::Key(c)),
            None => self,
        }
    }

    /// What the caller is to do after a key: stop on a press of escape,
    /// draw again after a key that types a character, and wait otherwise.
    pub open spec fn outcome(key: KeyEvent) -> KeyOutcome {
        if key.pressed && key.code is Esc {
            KeyOutcome::Stop
        } else if typed_char(key) is Some {
            KeyOutcome::Redraw
        } else {
            KeyOutcome::Wait
        }
    }

    /// What the list yields: the labels of the checked checkboxes, in order.
    pub open spec fn output(self) -> Seq<Seq<char>> {
        selected(self.values())
    }

    /// The focus, if there is one, is on a widget that can take it.
    pub open spec fn focus_is_valid(self) -> bool {
        self.focused_index matches Some(i) ==> i < self.widgets.len()
            && self.widgets[i as int].is_focusable()
    }

    /// Adding a widget and moving the focus keep a valid focus valid.
    pub proof fn focus_stays_valid(self, widget: WidgetModel)
        requires
            self.focus_is_valid(),
        ensures
            self.added(widget).focus_is_valid(),
            self.with_next_focus().focus_is_valid(),
    {
        if let Some(from) = self.focused_index {
            next_after_finds_first(self.widgets, from, self.widgets.len());
        }
    }
}

/// The index reached from `from` after `steps` steps around a cycle of `n`.
pub open spec fn around(from: nat, steps: nat, n: nat) -> nat {
    (from + steps) % n
}

/// The widget that `next_after` finds is the first that can take the focus
/// on the way round from `from`; it finds none only if none of the `left`
/// widgets on the way can.
pub proof fn next_after_finds_first(widgets: Seq<WidgetModel>, from: nat, left: nat)
    requires
        widgets.len() > 0,
    ensures
        match next_after(widgets, from, left) {
            Some(next) => exists|k: nat|
                1 <= k <= left && next == #[trigger] around(from, k, widgets.len()) && next
                    < widgets.len() && widgets[next as int].is_focusable() && forall|j: nat|
                    1 <= j < k ==> !widgets[#[trigger] around(
                        from,
                        j,
                        widgets.len(),
                    ) as int].is_focusable(),
            None => forall|j: nat|
                1 <= j <= left ==> !widgets[#[trigger] around(
                    from,
                    j,
                    widgets.len(),
                ) as int].is_focusable(),
        },
    decreases left,
{
    let n = widgets.len();
    if left > 0 {
        let next = advanced(from, n);
        assert(next == around(from, 1, n));
        if widgets[next as int].is_focusable() {
        } else {
            next_after_finds_first(widgets, next, (left - 1) as nat);
            assert forall|j: nat| 1 <= j implies around(next, j, n) == around(
                from,
                j + 1,
                n,
            ) by {
                lemma_add_mod_noop((from + 1) as int, j as int, n as int);
                lemma_add_mod_noop(next as int, j as int, n as int);
                lemma_small_mod(next, n);
            }
            match next_after(widgets, next, (left - 1) as nat) {
                Some(found) => {
                    let k = choose|k: nat|
                        1 <= k <= left - 1 && found == #[trigger] around(next, k, n) && found < n
                            && widgets[found as int].is_focusable() && forall|j: nat|
                            1 <= j < k ==> !widgets[#[trigger] around(
                                next,
                                j,
                                n,
                            ) as int].is_focusable();
                    assert forall|j: nat| 1 <= j < k + 1 implies !widgets[#[trigger] around(
                        from,
                        j,
                        n,
                    ) as int].is_focusable() by {
                        if j > 1 {
                            let earlier = (j - 1) as nat;
                            assert(around(next, earlier, n) == around(from, earlier + 1, n));
                        }
                    }
                    assert(found == around(from, k + 1, n));
                },
                None => {
                    assert forall|j: nat| 1 <= j <= left implies !widgets[#[trigger] around(
                        from,
                        j,
                        n,
                    ) as int].is_focusable() by {
                        if j > 1 {
                            let earlier = (j - 1) as nat;
                            assert(around(next, earlier, n) == around(from, earlier + 1, n));
                        }
                    }
                },
            }
        }
    }
}

impl WidgetType {
    /// The widget as text behind its marker.
    pub fn render(&self, focused: bool) -> (text: String)
        ensures
            text@ == render_flat(self@, focused),
    {
        let mut out = String::new();
        let body = match self {
            WidgetType::Button(b) => b.render(),
            WidgetType::Checkbox(c) => c.render(),
            WidgetType::Slider(s) => s.render(),
            WidgetType::Label(l) => {
                out.append(" ");
                l.render()
            },
        };
        if focused {
            out.append(">");
        } else {
            out.append(" ");
        }
        out.append(body.as_str());
        out
    }

    /// Hands a character to the widget: a checkbox flips on the space, a
    /// slider steps on `+` and `-`, and nothing else happens.
    pub fn handle_event(&mut self, event: &Event)
        ensures
            final(self)@ == (match event.meaning() {
                Some(e) => old(self)@.after(e),
                None => old(self)@,
            }),
    {
        let Event::Key(c) = *event;
        match self {
            WidgetType::Checkbox(checkbox) => {
                if c == ' ' {
                    checkbox.toggle();
                }
            },
            WidgetType::Slider(slider) => {
                if c == '+' {
                    slider.increment();
                } else if c == '-' {
                    slider.decrement();
                }
            },
            _ => {},
        }
    }

    /// Whether the widget can take the focus: any but a label.
    pub fn is_focusable(&self) -> (focusable: bool)
        ensures
            focusable == self@.is_focusable(),
    {
        match self {
            WidgetType::Label(_) => false,
            _ => true,
        }
    }

    /// The value of the widget: a checkbox gives its flag under its label, a
    /// slider its value under `Slider(label)`, and any other widget none.
    pub fn value(&self) -> (entry: Option<(String, WidgetValue)>)
        ensures
            match entry {
                Some(e) => self@.value() == Some((e.0@, e.1@)),
                None => self@.value() is None,
            },
    {
        match self {
            WidgetType::Checkbox(c) => Some((c.label.clone(), WidgetValue::Bool(c.checked))),
            WidgetType::Slider(s) => {
                let mut name = String::new();
                name.append("Slider(");
                name.append(s.label.as_str());
                name.append(")");
                Some((name, WidgetValue::Int(s.value)))
            },
            _ => None,
        }
    }
}

/// A flat list of widgets, one of which may have the focus.
pub struct UI {
    pub widgets: Vec<WidgetType>,
    pub focused_index: Option<usize>,
}

impl View for UI {
    type V = UiModel;

    open spec fn view(&self) -> UiModel {
        UiModel {
            widgets: Seq::new(self.widgets@.len(), |i: int| self.widgets@[i]@),
            focused_index: match self.focused_index {
                Some(i) => Some(i as nat),
                None => None,
            },
        }
    }
}

impl UI {
    /// An empty list without a focus.
    pub fn new() -> (ui: UI)
        ensures
            ui@ == (UiModel { widgets: Seq::empty(), focused_index: None }),
    {
        let ui = UI { widgets: Vec::new(), focused_index: None };
        proof {
            assert(ui@.widgets =~= Seq::empty());
        }
        ui
    }

    /// Adds a widget at the end. The first widget that can take the focus
    /// gets it; the earlier widgets stay.
    pub fn add<W: Into<WidgetType>>(&mut self, widget: W)
        ensures
            final(self)@.widgets.len() == old(self)@.widgets.len() + 1,
            final(self)@ == old(self)@.added(final(self)@.widgets.last()),
            W::obeys_into_spec() ==> final(self)@ == old(self)@.added(widget.into_spec()@),
    {
        let widget: WidgetType = widget.into();
        if self.focused_index.is_none() && widget.is_focusable() {
            self.focused_index = Some(self.widgets.len());
        }
        let ghost model = widget@;
        self.widgets.push(widget);
        proof {
            assert(final(self)@.widgets =~= old(self)@.widgets.push(model));
        }
    }

    /// Moves the focus to the next widget around the cycle that can take it.
    pub fn next_focus(&mut self)
        ensures
            final(self)@ == old(self)@.with_next_focus(),
    {
        let total = self.widgets.len();
        if let Some(start) = self.focused_index {
            let mut i = start;
            let mut left = total;
            while left > 0
                invariant
                    total == self.widgets.len(),
                    left <= total,
                    *self == *old(self),
                    self.focused_index == Some(start),
                    next_after(self@.widgets, start as nat, total as nat) == next_after(
                        self@.widgets,
                        i as nat,
                        left as nat,
                    ),
                decreases left,
            {
                i = advance(i, total);
                assert(self@.widgets[i as int] == self.widgets[i as int]@);
                if self.widgets[i].is_focusable() {
                    self.focused_index = Some(i);
                    proof {
                        assert(final(self)@.widgets =~= old(self)@.widgets);
                    }
                    return ;
                }
                left -= 1;
            }
        }
    }

    /// Takes a character: the tabulator moves the focus, any other goes to
    /// the focused widget.
    pub fn handle_event(&mut self, event: &Event)
        ensures
            final(self)@ == old(self)@.after(*event),
    {
        let Event::Key(c) = *event;
        if c == '\t' {
            self.next_focus();
        } else if let Some(i) = self.focused_index {
            if i < self.widgets.len() {
                self.widgets[i].handle_event(event);
                proof {
                    match event.meaning() {
                        Some(e) => {
                            assert(final(self)@.widgets =~= old(self)@.widgets.update(
                                i as int,
                                old(self)@.widgets[i as int].after(e),
                            ));
                        },
                        None => {
                            assert(final(self)@.widgets =~= old(self)@.widgets);
                        },
                    }
                }
            }
        }
    }

    /// Takes a key: a press of tab, space, `+` or `-` is handled as the
    /// character that it types. Says what the caller is to do next.
    pub fn handle_key(&mut self, key: KeyEvent) -> (outcome: KeyOutcome)
        ensures
            final(self)@ == old(self)@.after_key(key),
            outcome == UiModel::outcome(key),
    {
        if !key.pressed {
            return KeyOutcome::Wait;
        }
        match key.code {
            KeyCode::Esc => KeyOutcome::Stop,
            KeyCode::Tab => {
                self.handle_event(&Event::Key('\t'));
                KeyOutcome::Redraw
            },
            KeyCode::Char(c) => {
                if c == ' ' || c == '+' || c == '-' {
                    self.handle_event(&Event::Key(c));
                    KeyOutcome::Redraw
                } else {
                    KeyOutcome::Wait
                }
            },
            _ => KeyOutcome::Wait,
        }
    }

    /// The labels of the checked checkboxes, in order.
    pub fn output(&self) -> (labels: Vec<String>)
        ensures
            line_views(labels@) == self@.output(),
    {
        let values = self.get_values();
        selected_labels(&values)
    }

    /// The list as text, the focused widget marked with `>`.
    pub fn render(&self) -> (text: String)
        ensures
            text@ == self@.render(),
    {
        let mut out = String::new();
        let mut i: usize = 0;
        while i < self.widgets.len()
            invariant
                i <= self.widgets.len(),
                out@ == join_lines(self@.lines().subrange(0, i as int)),
            decreases self.widgets.len() - i,
        {
            let focused = match self.focused_index {
                Some(f) => f == i,
                None => false,
            };
            let text = self.widgets[i].render(focused);
            if i > 0 {
                out.append("\n");
            }
            out.append(text.as_str());
            proof {
                reveal_strlit("\n");
                let lines = self@.lines();
                assert(lines.subrange(0, i + 1).drop_last() =~= lines.subrange(0, i as int));
                assert(lines.subrange(0, i + 1).last() == text@);
                assert("\n"@ =~= seq!['\n']);
                assert(out@ =~= join_lines(lines.subrange(0, i + 1)));
            }
            i += 1;
        }
        proof {
            assert(self@.lines().subrange(0, self.widgets.len() as int) =~= self@.lines());
        }
        out
    }

    /// The values of the widgets, in order.
    pub fn get_values(&self) -> (values: Vec<(String, WidgetValue)>)
        ensures
            entries(values@) == self@.values(),
    {
        let mut values: Vec<(String, WidgetValue)> = Vec::new();
        let mut i: usize = 0;
        while i < self.widgets.len()
            invariant
                i <= self.widgets.len(),
                entries(values@) == values_first(self@.widgets, i as int),
            decreases self.widgets.len() - i,
        {
            let ghost before = values@;
            let widget = &self.widgets[i];
            if let Some(entry) = widget.value() {
                let ghost e = (entry.0@, entry.1@);
                values.push(entry);
                proof {
                    assert(entries(values@) =~= entries(before) + seq![e]);
                }
            }
            proof {
                assert(self@.widgets[i as int] == widget@);
                assert(entries(values@) =~= entries(before) + widget@.values());
            }
            i += 1;
        }
        values
    }
}

} // verus!
