//! A typed model of CSS style declarations and selectors.
//!
//! [`Selector`] holds a chain of compound selectors read from a selector
//! string; [`Value`] and the keyword enumerations hold the typed values that
//! style declarations carry.
pub mod selector;
pub mod value;

pub use selector::Selector;
pub use value::{
    AnimationDirection, AnimationFillMode, BackgroundAttachment, BackgroundBlendMode,
    BackgroundClip, FlexItemDirection, GlobalValue, TimeValue, Value,
};
