//! The painter's state discipline and the colors its paints take.
use vstd::prelude::*;

use crate::color::{black, color_of, parse_color, white, Color};
use crate::font::opt_view;

verus! {

/// The color that a fill paint takes: the fill color, or the paint's default
/// of opaque black where the style has none.
pub open spec fn fill_color_of(fill: Option<Seq<char>>) -> Color {
    match fill {
        Some(f) => color_of(f),
        None => black(),
    }
}

/// The color that a stroke paint takes: the stroke color, falling back to
/// the fill color, then to opaque black.
pub open spec fn stroke_color_of(stroke: Option<Seq<char>>, fill: Option<Seq<char>>) -> Color {
    match stroke {
        Some(s) => color_of(s),
        None => fill_color_of(fill),
    }
}

/// The color that clearing the surface paints: the fill color, or white.
pub open spec fn clear_color_of(fill: Option<Seq<char>>) -> Color {
    match fill {
        Some(f) => color_of(f),
        None => white(),
    }
}

/// The color of a fill paint for a style with fill color `fill`.
pub fn fill_paint_color(fill: Option<&str>) -> (c: Color)
    ensures
        c == fill_color_of(opt_view(fill)),
{
    match fill {
        Some(f) => parse_color(f),
        None => Color::black(),
    }
}

/// The color of a stroke paint for a style with stroke color `stroke` and
/// fill color `fill`.
pub fn stroke_paint_color(stroke: Option<&str>, fill: Option<&str>) -> (c: Color)
    ensures
        c == stroke_color_of(opt_view(stroke), opt_view(fill)),
{
    match stroke {
        Some(s) => parse_color(s),
        None => fill_paint_color(fill),
    }
}

/// The color that clearing paints for a style with fill color `fill`.
pub fn clear_color(fill: Option<&str>) -> (c: Color)
    ensures
        c == clear_color_of(opt_view(fill)),
{
    match fill {
        Some(f) => parse_color(f),
        None => Color::white(),
    }
}

/// The state after a save: the current state stays, and a copy of it is
/// pushed.
pub open spec fn saved<T>(v: (T, Seq<T>), copy: T) -> (T, Seq<T>) {
    (v.0, v.1.push(copy))
}

/// The state after the current state is replaced.
pub open spec fn with_current<T>(v: (T, Seq<T>), value: T) -> (T, Seq<T>) {
    (value, v.1)
}

/// The state after a restore: the last saved state is popped and becomes
/// current; with nothing saved, nothing changes.
pub open spec fn restored<T>(v: (T, Seq<T>)) -> (T, Seq<T>) {
    if v.1.len() > 0 {
        (v.1.last(), v.1.drop_last())
    } else {
        v
    }
}

/// The painter's current state and the states saved before it. Every save
/// and restore of the painter pairs with one of the canvas, so the depth of
/// this stack is the number of canvas saves the painter has open.
pub struct StateStack<T> {
    current: T,
    saved: Vec<T>,
}

impl<T> View for StateStack<T> {
    type V = (T, Seq<T>);

    closed spec fn view(&self) -> (T, Seq<T>) {
        (self.current, self.saved@)
    }
}

impl<T: Clone> StateStack<T> {
    /// A stack with `initial` current and nothing saved.
    pub fn new(initial: T) -> (s: Self)
        ensures
            s@ == (initial, Seq::<T>::empty()),
    {
        StateStack { current: initial, saved: Vec::new() }
    }

    /// The current state.
    pub fn current(&self) -> (c: &T)
        ensures
            *c == self@.0,
    {
        &self.current
    }

    /// The number of states saved.
    pub fn depth(&self) -> (d: usize)
        ensures
            d == self@.1.len(),
    {
        self.saved.len()
    }

    /// Replaces the current state; the saved ones stay.
    pub fn set_current(&mut self, value: T)
        ensures
            final(self)@ == with_current(old(self)@, value),
    {
        self.current = value;
    }

    /// Pushes a copy of the current state.
    pub fn save(&mut self)
        ensures
            final(self)@ == saved(old(self)@, final(self)@.1.last()),
            cloned(old(self)@.0, final(self)@.1.last()),
    {
        let copy = self.current.clone();
        self.saved.push(copy);
    }

    /// Pops the last saved state and makes it current; with nothing saved,
    /// nothing changes. Whether a state was popped is returned.
    pub fn restore(&mut self) -> (popped: bool)
        ensures
            final(self)@ == restored(old(self)@),
            popped == (old(self)@.1.len() > 0),
    {
        match self.saved.pop() {
            Some(s) => {
                self.current = s;
                true
            },
            None => false,
        }
    }
}

/// Saving, then replacing the current state with anything, then restoring,
/// gives back the state that was current before the save (the copy that
/// the save pushed), and the saved states as they were.
pub proof fn lemma_save_set_restore<T>(v: (T, Seq<T>), copy: T, other: T)
    ensures
        restored(with_current(saved(v, copy), other)) == (copy, v.1),
{
    assert(v.1.push(copy).drop_last() == v.1);
}

} // verus!
