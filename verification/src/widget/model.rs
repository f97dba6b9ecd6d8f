//! The widget tree as plain data, and what flattening, dispatch, rendering
//! and value collection mean on it.

use vstd::prelude::*;
use crate::widget::button::ButtonModel;
use crate::widget::checkbox::CheckboxModel;
use crate::widget::input::InputModel;
use crate::widget::label::LabelModel;
use crate::widget::slider::SliderModel;

verus! {

/// What a key press asks of the widgets.
#[derive(Clone, Copy, Debug, PartialEq, Eq)]
pub enum Event {
    /// Flip the focused checkbox.
    Toggle,
    /// Move the focused slider one up.
    Increment,
    /// Move the focused slider one down.
    Decrement,
    /// Put a character into the focused text field.
    InsertChar(char),
    /// Erase the character before the cursor of the focused text field.
    DeleteBack,
    /// Move the cursor of the focused text field one to the left.
    CursorLeft,
    /// Move the cursor of the focused text field one to the right.
    CursorRight,
    /// Give the focus to the next focusable leaf.
    AdvanceFocus,
    /// Give the focus to the previous focusable leaf.
    RetreatFocus,
    /// End the interaction.
    Terminate,
}

/// A value that a widget holds, as plain data.
pub enum ValueModel {
    Bool(bool),
    Int(int),
}

/// A label paired with the value that the widget of that label holds.
pub type EntryModel = (Seq<char>, ValueModel);

/// A node of the widget tree as plain data: one of the five kinds of leaf,
/// or a nested view.
pub enum WidgetModel {
    Button(ButtonModel),
    Checkbox(CheckboxModel),
    Slider(SliderModel),
    Label(LabelModel),
    Input(InputModel),
    View(ViewModel),
}

/// A view as plain data: a label and the child nodes in order.
pub struct ViewModel {
    pub label: Seq<char>,
    pub widgets: Seq<WidgetModel>,
}

/// The focusable leaves below the first `n` of `widgets`, in document order.
pub open spec fn flatten_first(widgets: Seq<WidgetModel>, n: int) -> Seq<WidgetModel>
    decreases widgets, n,
{
    if 0 < n <= widgets.len() {
        flatten_first(widgets, n - 1) + widgets[n - 1].flatten()
    } else {
        Seq::empty()
    }
}

/// The collected values below the first `n` of `widgets`, in document order.
pub open spec fn values_first(widgets: Seq<WidgetModel>, n: int) -> Seq<EntryModel>
    decreases widgets, n,
{
    if 0 < n <= widgets.len() {
        values_first(widgets, n - 1) + widgets[n - 1].values()
    } else {
        Seq::empty()
    }
}

/// The rendered text of the first `n` of `widgets`, each led by a line feed.
///
/// `counter` is the number of focusable leaves that precede `widgets` in the
/// whole tree; the leaf whose own number equals `focus_index` is drawn as
/// focused. Leaves stand at `pad`, nested views two columns deeper.
pub open spec fn render_first(
    widgets: Seq<WidgetModel>,
    n: int,
    pad: Seq<char>,
    focus_index: int,
    counter: int,
) -> Seq<char>
    decreases widgets, n,
{
    if 0 < n <= widgets.len() {
        let child = widgets[n - 1];
        let before = counter + flatten_first(widgets, n - 1).len();
        render_first(widgets, n - 1, pad, focus_index, counter) + "\n"@ + child.render(
            child.is_focusable() && before == focus_index,
            pad,
            focus_index,
            before,
        )
    } else {
        Seq::empty()
    }
}

impl WidgetModel {
    /// The node is a leaf, not a nested view.
    pub open spec fn is_leaf(self) -> bool {
        !(self is View)
    }

    /// The focusable leaves at and below this node, in document order: a
    /// label gives none, any other leaf gives itself, and a nested view
    /// gives those of its children.
    pub open spec fn flatten(self) -> Seq<WidgetModel>
        decreases self, 0int,
    {
        match self {
            WidgetModel::Label(_) => Seq::empty(),
            WidgetModel::View(v) => flatten_first(v.widgets, v.widgets.len() as int),
            _ => seq![self],
        }
    }

    /// The node can take the focus: it is a leaf other than a label, or a
    /// view with at least one focusable leaf below it.
    pub open spec fn is_focusable(self) -> bool {
        match self {
            WidgetModel::Label(_) => false,
            WidgetModel::View(v) => v.focusable_count() > 0,
            _ => true,
        }
    }

    /// The node after it received `event` itself. A checkbox reacts to a
    /// toggle, a slider to an increment or a decrement, a text field to an
    /// insertion, a backspace and the cursor moves; everything else leaves
    /// the node as it is.
    pub open spec fn after(self, event: Event) -> WidgetModel {
        match (self, event) {
            (WidgetModel::Checkbox(c), Event::Toggle) => WidgetModel::Checkbox(c.toggled()),
            (WidgetModel::Slider(s), Event::Increment) => WidgetModel::Slider(s.incremented()),
            (WidgetModel::Slider(s), Event::Decrement) => WidgetModel::Slider(s.decremented()),
            (WidgetModel::Input(i), Event::InsertChar(c)) => WidgetModel::Input(i.inserted(c)),
            (WidgetModel::Input(i), Event::DeleteBack) => WidgetModel::Input(i.erased()),
            (WidgetModel::Input(i), Event::CursorLeft) => WidgetModel::Input(i.moved_left()),
            (WidgetModel::Input(i), Event::CursorRight) => WidgetModel::Input(i.moved_right()),
            _ => self,
        }
    }

    /// The node after `event` was routed to the focusable leaf number
    /// `index` below it, counted from zero: a nested view passes the event
    /// down, a leaf takes it when `index` is zero.
    pub open spec fn routed(self, index: int, event: Event) -> WidgetModel
        decreases self, 0int,
    {
        match self {
            WidgetModel::View(v) => WidgetModel::View(v.dispatch(index, event)),
            _ => if index == 0 {
                self.after(event)
            } else {
                self
            },
        }
    }

    /// The node after it was handed `event` with the focus index
    /// `focus_index`: a leaf takes the event, whatever the index; a nested
    /// view routes it to its leaf of that index.
    pub open spec fn handled(self, event: Event, focus_index: int) -> WidgetModel {
        match self {
            WidgetModel::View(v) => WidgetModel::View(v.dispatch(focus_index, event)),
            _ => self.after(event),
        }
    }

    /// The value that a leaf contributes: a checkbox its flag under its
    /// label, a slider its value under `Slider(label)`. Buttons, labels,
    /// text fields and views contribute none of their own.
    pub open spec fn value(self) -> Option<EntryModel> {
        match self {
            WidgetModel::Checkbox(c) => Some((c.label, ValueModel::Bool(c.checked))),
            WidgetModel::Slider(s) => Some(
                ("Slider("@ + s.label + ")"@, ValueModel::Int(s.value)),
            ),
            _ => None,
        }
    }

    /// The values collected at and below this node, in document order.
    pub open spec fn values(self) -> Seq<EntryModel>
        decreases self, 0int,
    {
        match self {
            WidgetModel::View(v) => values_first(v.widgets, v.widgets.len() as int),
            _ => match self.value() {
                Some(entry) => seq![entry],
                None => Seq::empty(),
            },
        }
    }

    /// The state of the node is sound: a slider has its value within its
    /// bounds, a text field its cursor within its text, and a view holds
    /// only sound nodes.
    pub open spec fn well_formed(self) -> bool
        decreases self, 0int,
    {
        match self {
            WidgetModel::Slider(s) => s.in_range(),
            WidgetModel::Input(i) => i.cursor_in_bounds(),
            WidgetModel::View(v) => v.well_formed(),
            _ => true,
        }
    }

    /// The node after it received each of `events` itself, in order.
    pub open spec fn after_all(self, events: Seq<Event>) -> WidgetModel
        decreases events.len(),
    {
        if events.len() == 0 {
            self
        } else {
            self.after_all(events.drop_last()).after(events.last())
        }
    }

    /// The marker column in front of a leaf: `>` for the focused one.
    pub open spec fn marker(focused: bool) -> Seq<char> {
        if focused {
            ">"@
        } else {
            " "@
        }
    }

    /// The rendered node. A leaf stands at `pad` behind its marker; a label
    /// has a blank in place of the marker. A nested view is drawn two
    /// columns deeper, with `counter` focusable leaves before it.
    pub open spec fn render(
        self,
        focused: bool,
        pad: Seq<char>,
        focus_index: int,
        counter: int,
    ) -> Seq<char>
        decreases self, 0int,
    {
        match self {
            WidgetModel::Button(b) => pad + Self::marker(focused) + b.render(),
            WidgetModel::Checkbox(c) => pad + Self::marker(focused) + c.render(),
            WidgetModel::Slider(s) => pad + Self::marker(focused) + s.render(),
            WidgetModel::Input(i) => pad + Self::marker(focused) + i.render(focused),
            WidgetModel::Label(l) => pad + " "@ + l.render(),
            WidgetModel::View(v) => v.header(pad + "  "@) + render_first(
                v.widgets,
                v.widgets.len() as int,
                pad + "  "@,
                focus_index,
                counter,
            ),
        }
    }
}

impl ViewModel {
    /// The focusable leaves of the view across all levels, depth first and
    /// left to right. A nested view contributes its leaves, not itself.
    pub open spec fn flatten(self) -> Seq<WidgetModel> {
        flatten_first(self.widgets, self.widgets.len() as int)
    }

    /// The number of focusable leaves of the view.
    pub open spec fn focusable_count(self) -> nat {
        self.flatten().len()
    }

    /// The number of focusable leaves that precede child `i` of the view.
    pub open spec fn offset(self, i: int) -> int {
        flatten_first(self.widgets, i).len() as int
    }

    /// The view after `event` went to its focusable leaf number
    /// `focus_index`: that leaf reacts, and nothing else changes. With an
    /// index that names no leaf the view stays as it is.
    pub open spec fn dispatch(self, focus_index: int, event: Event) -> ViewModel
        decreases self, 1int,
    {
        ViewModel {
            label: self.label,
            widgets: Seq::new(
                self.widgets.len(),
                |i: int|
                    if 0 <= i < self.widgets.len() {
                        self.widgets[i].routed(
                            focus_index - flatten_first(self.widgets, i).len(),
                            event,
                        )
                    } else {
                        arbitrary()
                    },
            ),
        }
    }

    /// The values collected from the leaves of the view, in document order.
    pub open spec fn values(self) -> Seq<EntryModel> {
        values_first(self.widgets, self.widgets.len() as int)
    }

    /// Every slider of the view has its value within its bounds and every
    /// text field its cursor within its text.
    pub open spec fn well_formed(self) -> bool
        decreases self, 1int,
    {
        forall|i: int| 0 <= i < self.widgets.len() ==> (#[trigger] self.widgets[i]).well_formed()
    }

    /// The header line of the view at the indentation `pad`.
    pub open spec fn header(self, pad: Seq<char>) -> Seq<char> {
        pad + "=== "@ + self.label + " ==="@
    }

    /// The rendered view: the header at `pad`, then each child on lines of
    /// its own. `counter` is the number of focusable leaves before the view;
    /// the leaf whose number equals `focus_index` carries the focus marker.
    pub open spec fn render(self, pad: Seq<char>, focus_index: int, counter: int) -> Seq<char> {
        self.header(pad) + render_first(
            self.widgets,
            self.widgets.len() as int,
            pad,
            focus_index,
            counter,
        )
    }
}

/// The labels of the entries whose value is the boolean true, in order.
pub open spec fn selected(entries: Seq<EntryModel>) -> Seq<Seq<char>>
    decreases entries.len(),
{
    if entries.len() == 0 {
        Seq::empty()
    } else if entries.last().1 == ValueModel::Bool(true) {
        selected(entries.drop_last()).push(entries.last().0)
    } else {
        selected(entries.drop_last())
    }
}

} // verus!
