//! Views: ordered groups of widgets that nest, with one focus order across
//! all levels.

use vstd::prelude::*;
use vstd::std_specs::convert::{FromSpecImpl, IntoSpec};
use vstd::string::{StrSliceExecFns, StringExecFns};
use vstd::view::View as _;
use crate::widget::button::Button;
use crate::widget::checkbox::Checkbox;
use crate::widget::input::Input;
use crate::widget::label::Label;
use crate::widget::laws::flatten_first_is_prefix;
use crate::widget::model::{
    flatten_first, render_first, selected, values_first, EntryModel, ValueModel, ViewModel,
    WidgetModel,
};
use crate::widget::slider::Slider;
use crate::widget::text::{line_views, push_repeated, spaces};

pub use crate::widget::model::Event;

verus! {

/// A value that a widget holds.
#[derive(Debug, Clone, Copy, PartialEq, Eq)]
pub enum WidgetValue {
    Bool(bool),
    Int(i32),
}

impl vstd::view::View for WidgetValue {
    type V = ValueModel;

    open spec fn view(&self) -> ValueModel {
        match self {
            WidgetValue::Bool(b) => ValueModel::Bool(*b),
            WidgetValue::Int(i) => ValueModel::Int(*i as int),
        }
    }
}

/// A node of the widget tree: a leaf of one of five kinds, or a nested view.
pub enum WidgetType {
    Button(Button),
    Checkbox(Checkbox),
    Slider(Slider),
    Label(Label),
    Input(Input),
    View(View),
}

/// An ordered group of widgets under a label. It owns its children.
pub struct View {
    pub label: String,
    pub widgets: Vec<WidgetType>,
}

/// The node `widget` as plain data.
pub open spec fn widget_model(widget: WidgetType) -> WidgetModel
    decreases widget,
{
    match widget {
        WidgetType::Button(b) => WidgetModel::Button(b@),
        WidgetType::Checkbox(c) => WidgetModel::Checkbox(c@),
        WidgetType::Slider(s) => WidgetModel::Slider(s@),
        WidgetType::Label(l) => WidgetModel::Label(l@),
        WidgetType::Input(i) => WidgetModel::Input(i@),
        WidgetType::View(v) => WidgetModel::View(view_model(v)),
    }
}

/// The view `view` as plain data.
pub open spec fn view_model(view: View) -> ViewModel
    decreases view,
{
    ViewModel {
        label: view.label@,
        widgets: Seq::new(
            view.widgets@.len(),
            |i: int|
                if 0 <= i < view.widgets@.len() {
                    widget_model(view.widgets@[i])
                } else {
                    arbitrary()
                },
        ),
    }
}

impl vstd::view::View for WidgetType {
    type V = WidgetModel;

    open spec fn view(&self) -> WidgetModel {
        widget_model(*self)
    }
}

impl vstd::view::View for View {
    type V = ViewModel;

    open spec fn view(&self) -> ViewModel {
        view_model(*self)
    }
}

impl From<Button> for WidgetType {
    fn from(value: Button) -> (widget: WidgetType) {
        WidgetType::Button(value)
    }
}

impl FromSpecImpl<Button> for WidgetType {
    open spec fn obeys_from_spec() -> bool {
        true
    }

    open spec fn from_spec(value: Button) -> WidgetType {
        WidgetType::Button(value)
    }
}

impl From<Checkbox> for WidgetType {
    fn from(value: Checkbox) -> (widget: WidgetType) {
        WidgetType::Checkbox(value)
    }
}

impl FromSpecImpl<Checkbox> for WidgetType {
    open spec fn obeys_from_spec() -> bool {
        true
    }

    open spec fn from_spec(value: Checkbox) -> WidgetType {
        WidgetType::Checkbox(value)
    }
}

impl From<Slider> for WidgetType {
    fn from(value: Slider) -> (widget: WidgetType) {
        WidgetType::Slider(value)
    }
}

impl FromSpecImpl<Slider> for WidgetType {
    open spec fn obeys_from_spec() -> bool {
        true
    }

    open spec fn from_spec(value: Slider) -> WidgetType {
        WidgetType::Slider(value)
    }
}

impl From<Label> for WidgetType {
    fn from(value: Label) -> (widget: WidgetType) {
        WidgetType::Label(value)
    }
}

impl FromSpecImpl<Label> for WidgetType {
    open spec fn obeys_from_spec() -> bool {
        true
    }

    open spec fn from_spec(value: Label) -> WidgetType {
        WidgetType::Label(value)
    }
}

impl From<Input> for WidgetType {
    fn from(value: Input) -> (widget: WidgetType) {
        WidgetType::Input(value)
    }
}

impl FromSpecImpl<Input> for WidgetType {
    open spec fn obeys_from_spec() -> bool {
        true
    }

    open spec fn from_spec(value: Input) -> WidgetType {
        WidgetType::Input(value)
    }
}

impl From<View> for WidgetType {
    fn from(value: View) -> (widget: WidgetType) {
        WidgetType::View(value)
    }
}

impl FromSpecImpl<View> for WidgetType {
    open spec fn obeys_from_spec() -> bool {
        true
    }

    open spec fn from_spec(value: View) -> WidgetType {
        WidgetType::View(value)
    }
}

/// The entries in `values` as plain data.
pub open spec fn entries(values: Seq<(String, WidgetValue)>) -> Seq<EntryModel> {
    Seq::new(values.len(), |i: int| (values[i].0@, values[i].1@))
}

/// The nodes that the references in `leaves` point at, as plain data.
pub open spec fn models(leaves: Seq<&WidgetType>) -> Seq<WidgetModel> {
    Seq::new(leaves.len(), |i: int| leaves[i]@)
}

impl View {
    /// An empty view with the given label.
    pub fn new(label: &str) -> (view: View)
        ensures
            view@ == (ViewModel { label: label@, widgets: Seq::empty() }),
    {
        let view = View { label: String::from_str(label), widgets: Vec::new() };
        proof {
            assert(view@.widgets =~= Seq::empty());
        }
        view
    }

    /// Appends a widget behind the children that are there: the label and
    /// the earlier children stay, and the new last child is what `widget`
    /// converts into.
    pub fn add<W: Into<WidgetType>>(&mut self, widget: W)
        ensures
            final(self)@.label == old(self)@.label,
            final(self)@.widgets.len() == old(self)@.widgets.len() + 1,
            final(self)@.widgets.drop_last() == old(self)@.widgets,
            W::obeys_into_spec() ==> final(self)@.widgets.last() == widget.into_spec()@,
    {
        let node: WidgetType = widget.into();
        self.widgets.push(node);
        proof {
            assert(final(self)@.widgets.drop_last() =~= old(self)@.widgets);
        }
    }

    /// The focusable leaves of the view across all levels, depth first and
    /// left to right.
    pub fn flatten_focusable(&self) -> (leaves: Vec<&WidgetType>)
        ensures
            models(leaves@) == self@.flatten(),
    {
        let mut leaves: Vec<&WidgetType> = Vec::new();
        self.collect_focusable(&mut leaves);
        proof {
            assert(models(leaves@) =~= self@.flatten());
        }
        leaves
    }

    fn collect_focusable<'a>(&'a self, leaves: &mut Vec<&'a WidgetType>)
        ensures
            models(final(leaves)@) == models(old(leaves)@) + self@.flatten(),
        decreases self,
    {
        let mut i: usize = 0;
        while i < self.widgets.len()
            invariant
                i <= self.widgets.len(),
                models(leaves@) == models(old(leaves)@) + flatten_first(self@.widgets, i as int),
            decreases self.widgets.len() - i,
        {
            let ghost before = leaves@;
            let widget = &self.widgets[i];
            match widget {
                WidgetType::View(v) => {
                    v.collect_focusable(leaves);
                },
                WidgetType::Label(_) => {},
                _ => {
                    leaves.push(widget);
                    proof {
                        assert(models(leaves@) =~= models(before) + seq![widget@]);
                    }
                },
            }
            proof {
                assert(self@.widgets[i as int] == widget@);
                assert(models(leaves@) =~= models(before) + widget@.flatten());
                assert(models(leaves@) =~= models(old(leaves)@) + flatten_first(
                    self@.widgets,
                    i + 1,
                ));
            }
            i += 1;
        }
    }
}

impl WidgetType {
    /// Whether the node can take the focus: any leaf but a label, and a view
    /// with at least one focusable leaf below it.
    pub fn is_focusable(&self) -> (focusable: bool)
        ensures
            focusable == self@.is_focusable(),
    {
        match self {
            WidgetType::View(v) => count_focusables(v) > 0,
            WidgetType::Label(_) => false,
            _ => true,
        }
    }

    /// The value that the node contributes of its own: a checkbox its flag
    /// under its label, a slider its value under `Slider(label)`, and any
    /// other node none.
    pub fn value(&self) -> (entry: Option<(String, WidgetValue)>)
        ensures
            match entry {
                Some(e) => self@.value() == Some((e.0@, e.1@)),
                None => self@.value() is None,
            },
    {
        match self {
            WidgetType::Checkbox(c) => Some((c.label.clone(), WidgetValue::Bool(c.checked))),
            WidgetType::Slider(s) => {
                let mut name = String::new();
                name.append("Slider(");
                name.append(s.label.as_str());
                name.append(")");
                Some((name, WidgetValue::Int(s.value)))
            },
            _ => None,
        }
    }

    /// The node as text. A leaf stands behind `indent` blanks and its
    /// marker, `>` if `focused`, and leaves the counter alone. A nested view
    /// is drawn two columns deeper; its leaves are numbered from
    /// `*focusable_index` on, the one numbered `focus_index` is marked, and
    /// the counter moves past them.
    pub fn render(
        &self,
        focused: bool,
        indent: usize,
        focus_index: usize,
        focusable_index: &mut usize,
    ) -> (text: String)
        requires
            self@ is View ==> *old(focusable_index) + self@.flatten().len() <= usize::MAX,
        ensures
            text@ == self@.render(
                focused,
                spaces(indent as nat),
                focus_index as int,
                *old(focusable_index) as int,
            ),
            *final(focusable_index) == *old(focusable_index) + (if self@ is View {
                self@.flatten().len()
            } else {
                0
            }),
    {
        let mut pad = String::new();
        push_repeated(&mut pad, " ", indent);
        proof {
            assert(pad@ =~= spaces(indent as nat));
        }
        self.render_at(focused, pad.as_str(), focus_index, focusable_index)
    }

    fn render_at(&self, focused: bool, pad: &str, focus_index: usize, counter: &mut usize) -> (text:
        String)
        requires
            self@ is View ==> *old(counter) + self@.flatten().len() <= usize::MAX,
        ensures
            text@ == self@.render(focused, pad@, focus_index as int, *old(counter) as int),
            *final(counter) == *old(counter) + (if self@ is View {
                self@.flatten().len()
            } else {
                0
            }),
        decreases self, 0int,
    {
        let mut out = String::new();
        out.append(pad);
        match self {
            WidgetType::Label(l) => {
                out.append(" ");
                out.append(l.render().as_str());
            },
            WidgetType::View(v) => {
                out.append("  ");
                return v.render_at(out.as_str(), focus_index, counter);
            },
            leaf => {
                if focused {
                    out.append(">");
                } else {
                    out.append(" ");
                }
                let body = match leaf {
                    WidgetType::Button(b) => b.render(),
                    WidgetType::Checkbox(c) => c.render(),
                    WidgetType::Slider(s) => s.render(),
                    WidgetType::Input(i) => i.render(focused),
                    _ => String::new(),
                };
                out.append(body.as_str());
            },
        }
        out
    }

    /// Whether `event`, handed to the node itself, would change it. A view
    /// takes no event itself.
    pub fn reacts_to(&self, event: &Event) -> (reacts: bool)
        ensures
            reacts == (self@.after(*event) != self@),
    {
        match self {
            WidgetType::Checkbox(_) => match event {
                Event::Toggle => true,
                _ => false,
            },
            WidgetType::Slider(s) => match event {
                Event::Increment => s.value < s.max,
                Event::Decrement => s.value > s.min,
                _ => false,
            },
            WidgetType::Input(i) => match event {
                Event::InsertChar(_) => {
                    proof {
                        assert(i@.inserted(event->InsertChar_0).value.len() == i@.value.len() + 1);
                    }
                    true
                },
                Event::DeleteBack => {
                    let len = i.value.as_str().unicode_len();
                    proof {
                        if i@.caret() > 0 {
                            assert(i@.erased().value.len() == i@.value.len() - 1);
                        }
                    }
                    i.cursor_pos > 0 && len > 0
                },
                Event::CursorLeft => i.cursor_pos > 0,
                Event::CursorRight => i.cursor_pos < i.value.as_str().unicode_len(),
                _ => false,
            },
            _ => false,
        }
    }

    /// Hands `event` to the node: a leaf reacts to it if it is of a kind
    /// that it knows, a nested view routes it to its focusable leaf number
    /// `focus_index`.
    pub fn handle_event(&mut self, event: &Event, focus_index: usize)
        ensures
            final(self)@ == old(self)@.handled(*event, focus_index as int),
        decreases *old(self),
    {
        match self {
            WidgetType::Checkbox(c) => {
                if let Event::Toggle = event {
                    c.toggle();
                }
            },
            WidgetType::Slider(s) => match event {
                Event::Increment => {
                    s.increment();
                },
                Event::Decrement => {
                    s.decrement();
                },
                _ => {},
            },
            WidgetType::Input(i) => match event {
                Event::InsertChar(c) => {
                    i.insert_char(*c);
                },
                Event::DeleteBack => {
                    i.handle_backspace();
                },
                Event::CursorLeft => {
                    i.move_cursor_left();
                },
                Event::CursorRight => {
                    i.move_cursor_right();
                },
                _ => {},
            },
            WidgetType::View(v) => {
                v.handle_event(event, focus_index);
            },
            _ => {},
        }
    }
}

impl View {
    /// The view as text: the header behind `indent` blanks, then every
    /// child on lines of its own, leaves at `indent` behind their marker and
    /// nested views two columns deeper. The focusable leaves are numbered
    /// from `*focusable_index` on; the one numbered `global_focus_index` is
    /// marked with `>`, and the counter moves past all of them.
    pub fn render(&self, indent: usize, global_focus_index: usize, focusable_index: &mut usize) -> (text:
        String)
        requires
            *old(focusable_index) + self@.focusable_count() <= usize::MAX,
        ensures
            text@ == self@.render(
                spaces(indent as nat),
                global_focus_index as int,
                *old(focusable_index) as int,
            ),
            *final(focusable_index) == *old(focusable_index) + self@.focusable_count(),
    {
        let mut pad = String::new();
        push_repeated(&mut pad, " ", indent);
        proof {
            assert(pad@ =~= spaces(indent as nat));
        }
        self.render_at(pad.as_str(), global_focus_index, focusable_index)
    }

    fn render_at(&self, pad: &str, focus_index: usize, counter: &mut usize) -> (text: String)
        requires
            *old(counter) + self@.focusable_count() <= usize::MAX,
        ensures
            text@ == self@.render(pad@, focus_index as int, *old(counter) as int),
            *final(counter) == *old(counter) + self@.focusable_count(),
        decreases self, 1int,
    {
        let mut out = String::new();
        out.append(pad);
        out.append("=== ");
        out.append(self.label.as_str());
        out.append(" ===");
        let mut i: usize = 0;
        while i < self.widgets.len()
            invariant
                i <= self.widgets.len(),
                *old(counter) + self@.focusable_count() <= usize::MAX,
                *counter == *old(counter) + flatten_first(self@.widgets, i as int).len(),
                out@ == self@.header(pad@) + render_first(
                    self@.widgets,
                    i as int,
                    pad@,
                    focus_index as int,
                    *old(counter) as int,
                ),
            decreases self.widgets.len() - i,
        {
            let widget = &self.widgets[i];
            let ghost line_start = out@;
            let ghost before = *counter;
            proof {
                assert(self@.widgets[i as int] == widget@);
                flatten_first_is_prefix(self@.widgets, i + 1, self.widgets.len() as int);
            }
            out.append("\n");
            let text = match widget {
                WidgetType::View(_) => widget.render_at(false, pad, focus_index, counter),
                _ => {
                    let focusable = widget.is_focusable();
                    let focused = focusable && *counter == focus_index;
                    assert(widget@.flatten().len() == if focusable {
                        1nat
                    } else {
                        0nat
                    });
                    let mut unused: usize = 0;
                    let text = widget.render_at(focused, pad, focus_index, &mut unused);
                    if focusable {
                        *counter = *counter + 1;
                    }
                    text
                },
            };
            out.append(text.as_str());
            proof {
                assert(text@ == widget@.render(
                    widget@.is_focusable() && before == focus_index,
                    pad@,
                    focus_index as int,
                    before as int,
                ));
                assert(out@ =~= line_start + "\n"@ + text@);
            }
            i += 1;
        }
        out
    }

    /// The values of the leaves across all levels, in document order: each
    /// checkbox with its flag, each slider with its value.
    pub fn get_values(&self) -> (values: Vec<(String, WidgetValue)>)
        ensures
            entries(values@) == self@.values(),
    {
        let mut values: Vec<(String, WidgetValue)> = Vec::new();
        self.collect_values(&mut values);
        proof {
            assert(entries(values@) =~= self@.values());
        }
        values
    }

    fn collect_values(&self, values: &mut Vec<(String, WidgetValue)>)
        ensures
            entries(final(values)@) == entries(old(values)@) + self@.values(),
        decreases self,
    {
        let mut i: usize = 0;
        while i < self.widgets.len()
            invariant
                i <= self.widgets.len(),
                entries(values@) == entries(old(values)@) + values_first(self@.widgets, i as int),
            decreases self.widgets.len() - i,
        {
            let ghost before = values@;
            let widget = &self.widgets[i];
            match widget {
                WidgetType::View(v) => {
                    v.collect_values(values);
                },
                _ => {
                    if let Some(entry) = widget.value() {
                        let ghost e = (entry.0@, entry.1@);
                        values.push(entry);
                        proof {
                            assert(entries(values@) =~= entries(before) + seq![e]);
                        }
                    }
                },
            }
            proof {
                assert(self@.widgets[i as int] == widget@);
                assert(entries(values@) =~= entries(before) + widget@.values());
                assert(entries(values@) =~= entries(old(values)@) + values_first(
                    self@.widgets,
                    i + 1,
                ));
            }
            i += 1;
        }
    }

    /// Delivers `event` to the focusable leaf number `focus_index` of the
    /// view, counted across all levels. Nothing happens if there is no such
    /// leaf, or if the leaf does not know the event.
    pub fn handle_event(&mut self, event: &Event, focus_index: usize)
        ensures
            final(self)@ == old(self)@.dispatch(focus_index as int, *event),
        decreases *old(self),
    {
        let mut i: usize = 0;
        let mut rest: Option<usize> = Some(focus_index);
        while i < self.widgets.len()
            invariant
                i <= self.widgets.len(),
                self.label == old(self).label,
                self.widgets.len() == old(self).widgets.len(),
                forall|j: int|
                    i <= j < self.widgets.len() ==> #[trigger] self.widgets[j] == old(
                        self,
                    ).widgets[j],
                forall|j: int|
                    0 <= j < i ==> widget_model(#[trigger] self.widgets[j]) == old(
                        self,
                    )@.widgets[j].routed(focus_index - old(self)@.offset(j), *event),
                match rest {
                    Some(r) => r == focus_index - old(self)@.offset(i as int),
                    None => focus_index < old(self)@.offset(i as int),
                },
            decreases self.widgets.len() - i,
        {
            let ghost before = self.widgets@;
            let ghost child = old(self)@.widgets[i as int];
            let ghost rel = focus_index - old(self)@.offset(i as int);
            assert(widget_model(self.widgets[i as int]) == child);
            assert(old(self)@.offset(i + 1) == old(self)@.offset(i as int) + child.flatten().len());
            match rest {
                None => {
                    proof {
                        child.routed_elsewhere(rel, *event);
                    }
                },
                Some(r) => {
                    match &mut self.widgets[i] {
                        WidgetType::View(v) => {
                            let count = count_focusables(v);
                            if r < count {
                                v.handle_event(event, r);
                                rest = None;
                            } else {
                                proof {
                                    child.routed_elsewhere(rel, *event);
                                }
                                rest = Some(r - count);
                            }
                        },
                        WidgetType::Label(_) => {},
                        leaf => {
                            if r == 0 {
                                leaf.handle_event(event, focus_index);
                                rest = None;
                            } else {
                                rest = Some(r - 1);
                            }
                        },
                    }
                },
            }
            proof {
                assert(self.widgets@.len() == before.len());
                assert(forall|j: int|
                    0 <= j < before.len() && j != i ==> self.widgets@[j] == before[j]);
                assert(widget_model(self.widgets[i as int]) == child.routed(rel, *event));
            }
            i += 1;
        }
        proof {
            assert(self@.widgets =~= old(self)@.dispatch(focus_index as int, *event).widgets);
        }
    }
}

/// The labels of the entries whose value is the boolean true, in order.
pub fn selected_labels(values: &Vec<(String, WidgetValue)>) -> (labels: Vec<String>)
    ensures
        line_views(labels@) == selected(entries(values@)),
{
    let mut labels: Vec<String> = Vec::new();
    let mut i: usize = 0;
    while i < values.len()
        invariant
            i <= values.len(),
            line_views(labels@) == selected(entries(values@).subrange(0, i as int)),
        decreases values.len() - i,
    {
        let ghost before = line_views(labels@);
        let ghost all = entries(values@);
        proof {
            assert(all.subrange(0, i + 1).drop_last() =~= all.subrange(0, i as int));
            assert(all.subrange(0, i + 1).last() == all[i as int]);
            assert(all[i as int] == (values@[i as int].0@, values@[i as int].1@));
        }
        match values[i].1 {
            WidgetValue::Bool(true) => {
                labels.push(values[i].0.clone());
                proof {
                    assert(line_views(labels@) =~= before.push(all[i as int].0));
                }
            },
            _ => {},
        }
        i += 1;
    }
    proof {
        assert(entries(values@).subrange(0, values.len() as int) =~= entries(values@));
    }
    labels
}

/// The number of focusable leaves of `view` across all levels.
pub fn count_focusables(view: &View) -> (count: usize)
    ensures
        count == view@.focusable_count(),
{
    let leaves = view.flatten_focusable();
    proof {
        assert(models(leaves@).len() == leaves@.len());
    }
    leaves.len()
}

} // verus!
