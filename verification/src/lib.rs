//! Client-side translation layer for a home-automation bridge's REST API.
//!
//! The bridge answers write requests with a JSON array that mixes per-field
//! `success` and `error` entries, and takes partial updates as flat JSON
//! objects whose keys are its documented wire field names. This crate holds
//! the two halves of that translation, stated and verified:
//!
//! - the *response interpreter* ([`response`], [`scan`], [`bridge`]): decoding
//!   a raw JSON value into an ordered sequence of outcomes, reducing them to a
//!   single result in which the first bridge failure wins, and injecting
//!   map-key identifiers into collection reads;
//! - the *modifier compiler* ([`modifier`], [`light`], [`group`]): builders that
//!   accumulate named field operations (override, increment, decrement, and
//!   their paired-coordinate variants) and serialize them into the minimal
//!   JSON object the bridge expects, untouched fields omitted.
//!
//! Transport is not done here: callers obtain a JSON value over HTTP however
//! they like, hand it in as a [`json::Value`], and send the compiled bodies
//! back out themselves.

pub mod bridge;
pub mod error;
pub mod group;
pub mod json;
pub mod light;
pub mod modifier;
pub mod response;
pub mod scan;

pub use modifier::CoordinateModifierType;
pub use modifier::ModifierType;

use crate::json::SpecValue;
use vstd::prelude::*;

verus! {

/// Trait for modifiers: builders that accumulate partial-update field
/// operations before serialization.
pub trait Modifier: Sized {
    /// The pending operations, as a map from wire field name to the
    /// wire-ready value that will be emitted for it.
    spec fn pending(&self) -> Map<Seq<char>, SpecValue>;

    /// Validity: the accumulated entries hold each field at most once.
    spec fn wf(&self) -> bool;

    /// Creates a new modifier with no pending operation.
    fn new() -> (r: Self)
        ensures
            r.pending() == Map::<Seq<char>, SpecValue>::empty(),
            r.wf(),
    ;

    /// Whether the modifier will not modify anything: true exactly when no
    /// builder call was made (or every pending operation was overwritten by
    /// nothing — impossible, as writes only replace). Callers use this to
    /// skip the network call for a no-op update.
    fn is_empty(&self) -> (r: bool)
        requires
            self.wf(),
        ensures
            r == (self.pending() == Map::<Seq<char>, SpecValue>::empty()),
    ;
}

/// Trait for creators: request bodies that create a new resource.
pub trait Creator {

}

/// Alert effect of a light.
#[derive(Clone, Copy, Debug, Eq, PartialEq, Structural)]
pub enum Alert {
    /// Performs one breathe cycle.
    Select,
    /// Performs breathe cycles for 15 seconds or until the alert attribute is
    /// set to `None`.
    LSelect,
    /// Disables any alert.
    NoAlert,
}

impl Alert {
    /// The value the bridge's wire vocabulary uses for this alert.
    pub fn wire_name(self) -> (r: String)
        ensures
            r@ == self.spec_wire_name(),
    {
        match self {
            Alert::Select => "select".to_owned(),
            Alert::LSelect => "lselect".to_owned(),
            Alert::NoAlert => "none".to_owned(),
        }
    }

    /// The value the bridge's wire vocabulary uses for this alert.
    pub open spec fn spec_wire_name(self) -> Seq<char> {
        match self {
            Alert::Select => "select"@,
            Alert::LSelect => "lselect"@,
            Alert::NoAlert => "none"@,
        }
    }
}

/// Dynamic effect of a light.
#[derive(Clone, Copy, Debug, Eq, PartialEq, Structural)]
pub enum Effect {
    /// Cycles through all hues with the current brightness and saturation.
    Colorloop,
    /// Disables any effect.
    NoEffect,
}

impl Effect {
    /// The value the bridge's wire vocabulary uses for this effect.
    pub fn wire_name(self) -> (r: String)
        ensures
            r@ == self.spec_wire_name(),
    {
        match self {
            Effect::Colorloop => "colorloop".to_owned(),
            Effect::NoEffect => "none".to_owned(),
        }
    }

    /// The value the bridge's wire vocabulary uses for this effect.
    pub open spec fn spec_wire_name(self) -> Seq<char> {
        match self {
            Effect::Colorloop => "colorloop"@,
            Effect::NoEffect => "none"@,
        }
    }
}

/// Color mode of a light.
#[derive(Clone, Copy, Debug, Eq, PartialEq, Structural)]
pub enum ColorMode {
    /// Uses a color temperature to set the color of a light.
    ColorTemperature,
    /// Uses hue and saturation to set the color of a light.
    HueAndSaturation,
    /// Uses x and y coordinates in the color space to set the color of a
    /// light.
    ColorSpaceCoordinates,
}

impl ColorMode {
    /// The name the bridge's wire vocabulary uses for this color mode.
    pub fn wire_name(self) -> (r: String)
        ensures
            r@ == self.spec_wire_name(),
    {
        match self {
            ColorMode::ColorTemperature => "ct".to_owned(),
            ColorMode::HueAndSaturation => "hs".to_owned(),
            ColorMode::ColorSpaceCoordinates => "xy".to_owned(),
        }
    }

    /// The name the bridge's wire vocabulary uses for this color mode.
    pub open spec fn spec_wire_name(self) -> Seq<char> {
        match self {
            ColorMode::ColorTemperature => "ct"@,
            ColorMode::HueAndSaturation => "hs"@,
            ColorMode::ColorSpaceCoordinates => "xy"@,
        }
    }
}

/// Request type of an action.
#[derive(Clone, Copy, Debug, Eq, PartialEq, Structural)]
pub enum ActionRequestType {
    /// A HTTP PUT request.
    Put,
    /// A HTTP POST request.
    Post,
    /// A HTTP DELETE request.
    Delete,
}

impl ActionRequestType {
    /// The name the bridge's wire vocabulary uses for this request type.
    pub fn wire_name(self) -> (r: String)
        ensures
            r@ == self.spec_wire_name(),
    {
        match self {
            ActionRequestType::Put => "PUT".to_owned(),
            ActionRequestType::Post => "POST".to_owned(),
            ActionRequestType::Delete => "DELETE".to_owned(),
        }
    }

    /// The name the bridge's wire vocabulary uses for this request type.
    pub open spec fn spec_wire_name(self) -> Seq<char> {
        match self {
            ActionRequestType::Put => "PUT"@,
            ActionRequestType::Post => "POST"@,
            ActionRequestType::Delete => "DELETE"@,
        }
    }
}

} // verus!
