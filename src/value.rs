//! Property values: the typed value slot shared by every property, and the
//! closed keyword sets that properties draw their values from.
use vstd::prelude::*;

verus! {

/// One of the CSS-wide keywords, which every property accepts.
#[derive(Clone, Copy, PartialEq, Eq, Structural, Debug)]
pub enum GlobalValue {
    Initial,
    Inherit,
    Unset,
}

/// The value of one property: a value of the property's own type, or one of
/// the CSS-wide keywords in its place.
#[derive(Clone, Copy, PartialEq, Eq, Debug)]
pub enum Value<T: Copy> {
    Normal(T),
    Global(GlobalValue),
}

impl<T: Copy> Value<T> {
    /// The CSS-wide keyword this value holds, if it holds one.
    pub open spec fn global_of(self) -> Option<GlobalValue> {
        match self {
            Value::Normal(_) => None,
            Value::Global(g) => Some(g),
        }
    }

    /// Returns the CSS-wide keyword held in place of a typed value, or
    /// `None` for a value of the property's own type.
    pub fn global(&self) -> (r: Option<GlobalValue>)
        ensures
            r == self.global_of(),
    {
        match self {
            Value::Normal(_) => None,
            Value::Global(g) => Some(*g),
        }
    }
}

/// Every property's value slot takes each CSS-wide keyword: a value made
/// from a keyword gives that keyword back, whatever the property's type.
pub proof fn lemma_global_round_trip<T: Copy>(g: GlobalValue)
    ensures
        Value::<T>::Global(g).global_of() == Some(g),
        Value::<T>::Global(g) is Global,
{
}

/// A duration in one unit. Units are not converted into one another, so two
/// durations are equal only when unit and count are both equal.
#[derive(Clone, Copy, PartialEq, Eq, Structural, Debug)]
pub enum TimeValue {
    Milliseconds(u64),
    Seconds(u32),
    Minutes(u16),
    Hours(u8),
}

/// Alignment keywords of the flex layout properties.
#[derive(Clone, Copy, PartialEq, Eq, Structural, Debug)]
pub enum FlexItemDirection {
    Stretch,
    Center,
    Baseline,
    FlexStart,
    FlexEnd,
    SpaceBetween,
    SpaceAround,
}

/// Keywords of `animation-direction`.
#[derive(Clone, Copy, PartialEq, Eq, Structural, Debug)]
pub enum AnimationDirection {
    Normal,
    Reverse,
    Alternate,
    AlternateReverse,
}

/// Keywords of `animation-fill-mode`.
#[derive(Clone, Copy, PartialEq, Eq, Structural, Debug)]
pub enum AnimationFillMode {
    /// The keyword `none`.
    NoFill,
    Forwards,
    Backwards,
    Both,
}

/// Keywords of `background-attachment`.
#[derive(Clone, Copy, PartialEq, Eq, Structural, Debug)]
pub enum BackgroundAttachment {
    Scroll,
    Fixed,
    Local,
}

/// Keywords of `background-blend-mode`.
#[derive(Clone, Copy, PartialEq, Eq, Structural, Debug)]
pub enum BackgroundBlendMode {
    Normal,
    Multiply,
    Screen,
    Overlay,
    Darken,
    Lighten,
    ColorDodge,
    Saturation,
    Color,
    Luminosity,
}

/// Keywords of `background-clip`.
#[derive(Clone, Copy, PartialEq, Eq, Structural, Debug)]
pub enum BackgroundClip {
    ContentBox,
    PaddingBox,
    BorderBox,
}

} // verus!
