//! A bounded integer that moves in steps of one.

use vstd::prelude::*;
use vstd::string::StringExecFns;
use crate::widget::text::{decimal, push_decimal, push_repeated, repeat};

verus! {

/// A slider. It takes the focus and its value moves by one on an increment
/// or a decrement, stopping at the bounds.
pub struct Slider {
    pub label: String,
    pub min: i32,
    pub max: i32,
    pub value: i32,
}

/// What a slider is, as plain data.
pub struct SliderModel {
    pub label: Seq<char>,
    pub min: int,
    pub max: int,
    pub value: int,
}

impl SliderModel {
    /// The value lies within the bounds.
    pub open spec fn in_range(self) -> bool {
        self.min <= self.value <= self.max
    }

    /// The slider after one increment: one more, unless the value has
    /// reached the upper bound.
    pub open spec fn incremented(self) -> SliderModel {
        if self.value < self.max {
            SliderModel { value: self.value + 1, ..self }
        } else {
            self
        }
    }

    /// The slider after one decrement: one less, unless the value has
    /// reached the lower bound.
    pub open spec fn decremented(self) -> SliderModel {
        if self.value > self.min {
            SliderModel { value: self.value - 1, ..self }
        } else {
            self
        }
    }

    /// The number of bars in the ruler, chosen by the band that `max - min`
    /// falls in.
    pub open spec fn ruler_len(self) -> nat {
        let range = self.max - self.min;
        if 0 <= range <= 10 {
            8
        } else if 11 <= range <= 50 {
            12
        } else if 51 <= range <= 200 {
            16
        } else {
            10
        }
    }

    /// The rendered slider: the label, the bounds around the ruler, and the
    /// value.
    pub open spec fn render(self) -> Seq<char> {
        " "@ + self.label + " ["@ + decimal(self.min) + " "@ + repeat(
            "\u{2500}"@,
            self.ruler_len(),
        ) + " "@ + decimal(self.max) + "]: "@ + decimal(self.value)
    }

    /// A step in either direction keeps the value within the bounds, and
    /// changes neither the bounds nor the label.
    pub proof fn step_stays_in_range(self)
        requires
            self.in_range(),
        ensures
            self.incremented().in_range(),
            self.decremented().in_range(),
            self.incremented().min == self.min && self.incremented().max == self.max,
            self.decremented().min == self.min && self.decremented().max == self.max,
    {
    }
}

impl View for Slider {
    type V = SliderModel;

    open spec fn view(&self) -> SliderModel {
        SliderModel {
            label: self.label@,
            min: self.min as int,
            max: self.max as int,
            value: self.value as int,
        }
    }
}

impl Slider {
    /// A slider with the given label, bounds and value.
    pub fn new(label: &str, min: i32, max: i32, value: i32) -> (slider: Slider)
        ensures
            slider@ == (SliderModel {
                label: label@,
                min: min as int,
                max: max as int,
                value: value as int,
            }),
    {
        Slider { label: String::from_str(label), min, max, value }
    }

    /// Moves the value one up, unless it has reached the upper bound.
    pub fn increment(&mut self)
        ensures
            final(self)@ == old(self)@.incremented(),
    {
        if self.value < self.max {
            self.value = self.value + 1;
        }
    }

    /// Moves the value one down, unless it has reached the lower bound.
    pub fn decrement(&mut self)
        ensures
            final(self)@ == old(self)@.decremented(),
    {
        if self.value > self.min {
            self.value = self.value - 1;
        }
    }

    /// The slider as one line of text.
    pub fn render(&self) -> (line: String)
        ensures
            line@ == self@.render(),
    {
        let range: i64 = self.max as i64 - self.min as i64;
        let length: usize = if 0 <= range && range <= 10 {
            8
        } else if 11 <= range && range <= 50 {
            12
        } else if 51 <= range && range <= 200 {
            16
        } else {
            10
        };
        let mut out = String::new();
        out.append(" ");
        out.append(self.label.as_str());
        out.append(" [");
        push_decimal(&mut out, self.min);
        out.append(" ");
        push_repeated(&mut out, "\u{2500}", length);
        out.append(" ");
        push_decimal(&mut out, self.max);
        out.append("]: ");
        push_decimal(&mut out, self.value);
        proof {
            assert(out@ =~= self@.render());
        }
        out
    }
}

} // verus!
