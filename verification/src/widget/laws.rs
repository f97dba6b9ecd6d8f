//! What holds of every widget tree: how flattening composes, and what a
//! dispatched event changes.

use vstd::prelude::*;
use crate::widget::model::{
    flatten_first, selected, EntryModel, Event, ValueModel, ViewModel, WidgetModel,
};

verus! {

/// The focusable leaves below a shorter run of children are the first of
/// those below a longer run.
pub proof fn flatten_first_is_prefix(widgets: Seq<WidgetModel>, m: int, n: int)
    requires
        0 <= m <= n <= widgets.len(),
    ensures
        flatten_first(widgets, m).len() <= flatten_first(widgets, n).len(),
        flatten_first(widgets, m) == flatten_first(widgets, n).subrange(
            0,
            flatten_first(widgets, m).len() as int,
        ),
    decreases n - m,
{
    if m < n {
        flatten_first_is_prefix(widgets, m, n - 1);
        assert(flatten_first(widgets, m) =~= flatten_first(widgets, n).subrange(
            0,
            flatten_first(widgets, m).len() as int,
        ));
    } else {
        assert(flatten_first(widgets, m) =~= flatten_first(widgets, n).subrange(
            0,
            flatten_first(widgets, m).len() as int,
        ));
    }
}

/// Flattening the first `n` children looks at those children only.
pub proof fn flatten_first_of_prefix(left: Seq<WidgetModel>, right: Seq<WidgetModel>, n: int)
    requires
        0 <= n <= left.len(),
    ensures
        flatten_first(left + right, n) == flatten_first(left, n),
    decreases n,
{
    if n > 0 {
        flatten_first_of_prefix(left, right, n - 1);
        assert((left + right)[n - 1] == left[n - 1]);
    }
}

/// Flattening two runs of children one after the other gives the leaves of
/// the first run followed by the leaves of the second.
pub proof fn flatten_first_concat(left: Seq<WidgetModel>, right: Seq<WidgetModel>, n: int)
    requires
        0 <= n <= right.len(),
    ensures
        flatten_first(left + right, left.len() + n) == flatten_first(left, left.len() as int)
            + flatten_first(right, n),
    decreases n,
{
    if n == 0 {
        flatten_first_of_prefix(left, right, left.len() as int);
        assert(flatten_first(left, left.len() as int) + flatten_first(right, 0)
            =~= flatten_first(left, left.len() as int));
    } else {
        flatten_first_concat(left, right, n - 1);
        assert((left + right)[left.len() + n - 1] == right[n - 1]);
        assert(flatten_first(left + right, left.len() + n) =~= flatten_first(
            left,
            left.len() as int,
        ) + flatten_first(right, n));
    }
}

impl WidgetModel {
    /// An event routed to an index that names no leaf below the node leaves
    /// the node as it is.
    pub proof fn routed_elsewhere(self, index: int, event: Event)
        requires
            index < 0 || index >= self.flatten().len(),
        ensures
            self.routed(index, event) == self,
        decreases self, 0int,
    {
        match self {
            WidgetModel::View(v) => {
                v.dispatch_elsewhere(index, event);
            },
            _ => {},
        }
    }
}

impl ViewModel {
    /// An event dispatched to an index that names no leaf of the view leaves
    /// the view as it is.
    pub proof fn dispatch_elsewhere(self, focus_index: int, event: Event)
        requires
            focus_index < 0 || focus_index >= self.flatten().len(),
        ensures
            self.dispatch(focus_index, event) == self,
        decreases self, 1int,
    {
        let after = self.dispatch(focus_index, event);
        assert forall|i: int| 0 <= i < self.widgets.len() implies after.widgets[i]
            == self.widgets[i] by {
            flatten_first_is_prefix(self.widgets, i + 1, self.widgets.len() as int);
            self.widgets[i].routed_elsewhere(focus_index - self.offset(i), event);
        }
        assert(after.widgets =~= self.widgets);
    }
}

impl ViewModel {
    /// The leaves of a view are the leaves of its children, child by child,
    /// one after the other: a nested view adds nothing of its own.
    pub proof fn flatten_is_concatenation(self)
        ensures
            self.flatten() == self.widgets.map_values(|w: WidgetModel| w.flatten()).flatten(),
    {
        self.flatten_prefix_is_concatenation(self.widgets.len() as int);
        assert(self.widgets.subrange(0, self.widgets.len() as int) =~= self.widgets);
    }

    proof fn flatten_prefix_is_concatenation(self, n: int)
        requires
            0 <= n <= self.widgets.len(),
        ensures
            flatten_first(self.widgets, n) == self.widgets.subrange(0, n).map_values(
                |w: WidgetModel| w.flatten(),
            ).flatten(),
        decreases n,
    {
        let each = |w: WidgetModel| w.flatten();
        let parts = self.widgets.subrange(0, n).map_values(each);
        if n == 0 {
            assert(parts =~= Seq::<Seq<WidgetModel>>::empty());
        } else {
            self.flatten_prefix_is_concatenation(n - 1);
            let shorter = self.widgets.subrange(0, n - 1).map_values(each);
            assert(parts =~= shorter.push(self.widgets[n - 1].flatten()));
            shorter.lemma_flatten_push(self.widgets[n - 1].flatten());
        }
    }

    /// A view made of two runs of children has the leaves of the first run
    /// followed by the leaves of the second.
    pub proof fn flatten_splits(label: Seq<char>, left: Seq<WidgetModel>, right: Seq<WidgetModel>)
        ensures
            (ViewModel { label, widgets: left + right }).flatten() == (ViewModel {
                label,
                widgets: left,
            }).flatten() + (ViewModel { label, widgets: right }).flatten(),
    {
        flatten_first_concat(left, right, right.len() as int);
    }

    /// Wrapping children in a nested view does not change the leaves: a view
    /// that holds `inner` as one child among `left` and `right` flattens as
    /// if the children of `inner` stood there themselves.
    pub proof fn flatten_sees_through_nesting(
        label: Seq<char>,
        left: Seq<WidgetModel>,
        inner: ViewModel,
        right: Seq<WidgetModel>,
    )
        ensures
            (ViewModel {
                label,
                widgets: left + seq![WidgetModel::View(inner)] + right,
            }).flatten() == (ViewModel {
                label,
                widgets: left + inner.widgets + right,
            }).flatten(),
    {
        let nested = seq![WidgetModel::View(inner)];
        flatten_first_concat(left + nested, right, right.len() as int);
        flatten_first_concat(left, nested, 1);
        flatten_first_concat(left + inner.widgets, right, right.len() as int);
        flatten_first_concat(left, inner.widgets, inner.widgets.len() as int);
        assert(flatten_first(nested, 1) =~= inner.flatten()) by {
            assert(flatten_first(nested, 0) =~= Seq::<WidgetModel>::empty());
            assert(nested[0] == WidgetModel::View(inner));
            assert(nested[0].flatten() == inner.flatten());
        }
    }

    /// Every entry of the flattened order is a leaf that can take the focus.
    pub proof fn flatten_holds_focusable_leaves(self, i: int)
        requires
            0 <= i < self.flatten().len(),
        ensures
            self.flatten()[i].is_leaf(),
            !(self.flatten()[i] is Label),
            self.flatten()[i].is_focusable(),
        decreases self, 1int,
    {
        self.prefix_holds_focusable_leaves(self.widgets.len() as int, i);
    }

    proof fn prefix_holds_focusable_leaves(self, n: int, i: int)
        requires
            0 <= n <= self.widgets.len(),
            0 <= i < flatten_first(self.widgets, n).len(),
        ensures
            flatten_first(self.widgets, n)[i].is_leaf(),
            !(flatten_first(self.widgets, n)[i] is Label),
            flatten_first(self.widgets, n)[i].is_focusable(),
        decreases self, 0int, n,
    {
        let before = flatten_first(self.widgets, n - 1);
        let child = self.widgets[n - 1];
        assert(flatten_first(self.widgets, n) == before + child.flatten());
        if i < before.len() {
            self.prefix_holds_focusable_leaves(n - 1, i);
        } else {
            let leaf = child.flatten()[i - before.len()];
            assert(flatten_first(self.widgets, n)[i] == leaf);
            match child {
                WidgetModel::View(v) => {
                    assert(child.flatten() == v.flatten());
                    v.flatten_holds_focusable_leaves(i - before.len());
                },
                _ => {
                    assert(leaf == child);
                    assert(leaf.flatten() =~= seq![leaf]);
                },
            }
        }
    }
}

/// `leaves` with the entry at `index` replaced by what it is after `event`,
/// or `leaves` itself if `index` names no entry.
pub open spec fn with_leaf_after(leaves: Seq<WidgetModel>, index: int, event: Event) -> Seq<
    WidgetModel,
> {
    if 0 <= index < leaves.len() {
        leaves.update(index, leaves[index].after(event))
    } else {
        leaves
    }
}

impl WidgetModel {
    /// A node can take the focus if and only if there is a focusable leaf at
    /// or below it.
    pub proof fn focusable_iff_has_leaves(self)
        ensures
            self.is_focusable() <==> self.flatten().len() > 0,
    {
    }

    /// An event changes neither the kind of a node nor whether it can take
    /// the focus.
    pub proof fn after_keeps_kind(self, event: Event)
        requires
            self.is_leaf(),
        ensures
            self.after(event).is_leaf(),
            self.after(event) is Label <==> self is Label,
            self.after(event).flatten() == if self is Label {
                Seq::<WidgetModel>::empty()
            } else {
                seq![self.after(event)]
            },
    {
    }

    /// Routing an event changes the leaf that the index names, and no other.
    pub proof fn routed_changes_one_leaf(self, index: int, event: Event)
        ensures
            self.routed(index, event).flatten() == with_leaf_after(self.flatten(), index, event),
        decreases self, 0int, 0int,
    {
        match self {
            WidgetModel::View(v) => {
                v.dispatch_changes_prefix(index, event, v.widgets.len() as int);
            },
            _ => {
                self.after_keeps_kind(event);
                assert(self.routed(index, event).flatten() =~= with_leaf_after(
                    self.flatten(),
                    index,
                    event,
                ));
            },
        }
    }

    /// Routing an event to a leaf that the event does not change leaves the
    /// node as it is.
    pub proof fn routed_unchanged(self, index: int, event: Event)
        requires
            0 <= index < self.flatten().len() ==> self.flatten()[index].after(event)
                == self.flatten()[index],
        ensures
            self.routed(index, event) == self,
        decreases self, 0int,
    {
        if 0 <= index < self.flatten().len() {
            match self {
                WidgetModel::View(v) => {
                    v.dispatch_unchanged(index, event);
                },
                _ => {},
            }
        } else {
            self.routed_elsewhere(index, event);
        }
    }
}

impl ViewModel {
    proof fn dispatch_changes_prefix(self, focus_index: int, event: Event, n: int)
        requires
            0 <= n <= self.widgets.len(),
        ensures
            flatten_first(self.dispatch(focus_index, event).widgets, n) == with_leaf_after(
                flatten_first(self.widgets, n),
                focus_index,
                event,
            ),
        decreases self, 1int, n,
    {
        let after = self.dispatch(focus_index, event);
        if n > 0 {
            self.dispatch_changes_prefix(focus_index, event, n - 1);
            let child = self.widgets[n - 1];
            let before = flatten_first(self.widgets, n - 1);
            child.routed_changes_one_leaf(focus_index - before.len(), event);
            assert(after.widgets[n - 1] == child.routed(focus_index - before.len(), event));
            assert(flatten_first(after.widgets, n) =~= with_leaf_after(
                flatten_first(self.widgets, n),
                focus_index,
                event,
            ));
        }
    }

    /// A dispatched event changes exactly the focusable leaf that the focus
    /// index names: the flattened order keeps its length and every other
    /// entry, and that leaf becomes what it is after the event. The label of
    /// the view and the number of its children stay.
    pub proof fn dispatch_changes_one_leaf(self, focus_index: int, event: Event)
        ensures
            self.dispatch(focus_index, event).flatten() == with_leaf_after(
                self.flatten(),
                focus_index,
                event,
            ),
            self.dispatch(focus_index, event).focusable_count() == self.focusable_count(),
            self.dispatch(focus_index, event).label == self.label,
            self.dispatch(focus_index, event).widgets.len() == self.widgets.len(),
    {
        self.dispatch_changes_prefix(focus_index, event, self.widgets.len() as int);
    }

    /// Dispatching an event that the focused leaf does not react to leaves
    /// the view as it is.
    pub proof fn dispatch_unchanged(self, focus_index: int, event: Event)
        requires
            0 <= focus_index < self.flatten().len() ==> self.flatten()[focus_index].after(event)
                == self.flatten()[focus_index],
        ensures
            self.dispatch(focus_index, event) == self,
        decreases self, 1int,
    {
        let after = self.dispatch(focus_index, event);
        let all = self.flatten();
        assert forall|i: int| 0 <= i < self.widgets.len() implies after.widgets[i]
            == self.widgets[i] by {
            let child = self.widgets[i];
            let rel = focus_index - self.offset(i);
            flatten_first_is_prefix(self.widgets, i + 1, self.widgets.len() as int);
            if 0 <= rel < child.flatten().len() {
                assert(flatten_first(self.widgets, i + 1)[focus_index] == child.flatten()[rel]);
                assert(all[focus_index] == child.flatten()[rel]);
            }
            child.routed_unchanged(rel, event);
        }
        assert(after.widgets =~= self.widgets);
    }

    /// A dispatched event changes the view if and only if the focus index
    /// names a leaf and that leaf reacts to the event.
    pub proof fn dispatch_changes_iff_leaf_reacts(self, focus_index: int, event: Event)
        ensures
            self.dispatch(focus_index, event) != self <==> (0 <= focus_index
                < self.flatten().len() && self.flatten()[focus_index].after(event)
                != self.flatten()[focus_index]),
    {
        self.dispatch_changes_one_leaf(focus_index, event);
        if 0 <= focus_index < self.flatten().len() && self.flatten()[focus_index].after(event)
            != self.flatten()[focus_index] {
            assert(self.dispatch(focus_index, event).flatten()[focus_index]
                != self.flatten()[focus_index]);
        } else {
            self.dispatch_unchanged(focus_index, event);
        }
    }
}


impl WidgetModel {
    /// Two toggles in a row leave any leaf as it was; for a checkbox, the
    /// flag is back at its first value.
    pub proof fn toggle_twice_is_identity(self)
        requires
            self.is_leaf(),
        ensures
            self.after(Event::Toggle).after(Event::Toggle) == self,
    {
    }

    /// No event takes a slider out of its bounds or a cursor out of its
    /// text.
    pub proof fn after_keeps_well_formed(self, event: Event)
        requires
            self.is_leaf(),
            self.well_formed(),
        ensures
            self.after(event).well_formed(),
            self.after(event).is_leaf(),
    {
    }

    /// Through any sequence of events a leaf stays sound at every step: a
    /// slider that starts within its bounds is within them after each event,
    /// and a cursor that starts within its text is within it after each
    /// event.
    pub proof fn stays_well_formed(self, events: Seq<Event>, steps: int)
        requires
            self.is_leaf(),
            self.well_formed(),
            0 <= steps <= events.len(),
        ensures
            self.after_all(events.subrange(0, steps)).well_formed(),
            self.after_all(events.subrange(0, steps)).is_leaf(),
        decreases steps,
    {
        if steps > 0 {
            self.stays_well_formed(events, steps - 1);
            assert(events.subrange(0, steps).drop_last() =~= events.subrange(0, steps - 1));
            self.after_all(events.subrange(0, steps - 1)).after_keeps_well_formed(
                events[steps - 1],
            );
        }
    }

    /// Through any sequence of events a slider keeps its bounds, and its
    /// value stays within them if it started there.
    pub proof fn slider_stays_in_range(self, events: Seq<Event>)
        requires
            self is Slider,
            self->Slider_0.in_range(),
        ensures
            self.after_all(events) is Slider,
            self.after_all(events)->Slider_0.min == self->Slider_0.min,
            self.after_all(events)->Slider_0.max == self->Slider_0.max,
            self->Slider_0.min <= self.after_all(events)->Slider_0.value <= self->Slider_0.max,
        decreases events.len(),
    {
        if events.len() > 0 {
            self.slider_stays_in_range(events.drop_last());
        }
    }

    /// Through any sequence of events the cursor of a text field stays
    /// within its text, if it started there.
    pub proof fn cursor_stays_in_text(self, events: Seq<Event>)
        requires
            self is Input,
            self->Input_0.cursor_in_bounds(),
        ensures
            self.after_all(events) is Input,
            self.after_all(events)->Input_0.cursor <= self.after_all(
                events,
            )->Input_0.value.len(),
        decreases events.len(),
    {
        if events.len() > 0 {
            self.cursor_stays_in_text(events.drop_last());
        }
    }
}

impl WidgetModel {
    /// Two toggles routed to the same index leave the node as it was.
    pub proof fn routed_toggle_twice(self, index: int)
        ensures
            self.routed(index, Event::Toggle).routed(index, Event::Toggle) == self,
        decreases self, 0int,
    {
        match self {
            WidgetModel::View(v) => {
                v.toggle_twice_is_identity(index);
            },
            _ => {},
        }
    }

    /// A routed event leaves a sound node sound.
    pub proof fn routed_keeps_well_formed(self, index: int, event: Event)
        requires
            self.well_formed(),
        ensures
            self.routed(index, event).well_formed(),
        decreases self, 0int,
    {
        match self {
            WidgetModel::View(v) => {
                v.dispatch_keeps_well_formed(index, event);
            },
            _ => {
                self.after_keeps_well_formed(event);
            },
        }
    }
}

impl ViewModel {
    /// Two toggles dispatched to the same focus index leave the whole view
    /// as it was: the checkbox, if the index names one, has its first value
    /// again, and nothing else was touched.
    pub proof fn toggle_twice_is_identity(self, focus_index: int)
        ensures
            self.dispatch(focus_index, Event::Toggle).dispatch(focus_index, Event::Toggle)
                == self,
        decreases self, 1int,
    {
        let once = self.dispatch(focus_index, Event::Toggle);
        let twice = once.dispatch(focus_index, Event::Toggle);
        assert forall|k: int| 0 <= k < self.widgets.len() implies twice.widgets[k]
            == self.widgets[k] by {
            self.dispatch_changes_prefix(focus_index, Event::Toggle, k);
            self.widgets[k].routed_toggle_twice(focus_index - self.offset(k));
        }
        assert(twice.widgets =~= self.widgets);
    }

    /// A dispatched event leaves a sound view sound: every slider is still
    /// within its bounds and every cursor within its text.
    pub proof fn dispatch_keeps_well_formed(self, focus_index: int, event: Event)
        requires
            self.well_formed(),
        ensures
            self.dispatch(focus_index, event).well_formed(),
        decreases self, 1int,
    {
        let after = self.dispatch(focus_index, event);
        assert forall|i: int| 0 <= i < after.widgets.len() implies (
        #[trigger] after.widgets[i]).well_formed() by {
            assert(self.widgets[i].well_formed());
            self.widgets[i].routed_keeps_well_formed(focus_index - self.offset(i), event);
        }
    }
}


/// The selected labels are those of the entries that hold the boolean true,
/// in the order of the entries.
pub proof fn selected_is_filter(entries: Seq<EntryModel>)
    ensures
        selected(entries) == entries.filter(|e: EntryModel| e.1 == ValueModel::Bool(true)).map_values(
            |e: EntryModel| e.0,
        ),
    decreases entries.len(),
{
    let holds = |e: EntryModel| e.1 == ValueModel::Bool(true);
    let name = |e: EntryModel| e.0;
    reveal(Seq::filter);
    if entries.len() == 0 {
        assert(entries.filter(holds).map_values(name) =~= Seq::<Seq<char>>::empty());
    } else {
        selected_is_filter(entries.drop_last());
        let rest = entries.drop_last().filter(holds);
        if holds(entries.last()) {
            assert(entries.filter(holds) == rest.push(entries.last()));
            assert(rest.push(entries.last()).map_values(name) =~= rest.map_values(name).push(
                entries.last().0,
            ));
        } else {
            assert(entries.filter(holds) == rest);
        }
    }
}

} // verus!
