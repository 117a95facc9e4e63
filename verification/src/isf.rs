//! Inputs of an ISF effect and the values they take.

use vstd::prelude::*;
use vstd::string::*;

use crate::text::{strings_copy, text_copy, view_opt, views};
use crate::units::Single;

verus! {

/// A colour: red, green, blue, alpha.
#[derive(Clone, Copy, Debug, PartialEq, Eq, Structural)]
pub struct Rgba {
    pub r: Single,
    pub g: Single,
    pub b: Single,
    pub a: Single,
}

/// A point in the plane.
#[derive(Clone, Copy, Debug, PartialEq, Eq, Structural)]
pub struct Point2 {
    pub x: Single,
    pub y: Single,
}

/// A value for one effect input.
#[derive(Clone, Copy, Debug, PartialEq, Eq, Structural)]
pub enum IsfValue {
    Float(Single),
    Bool(bool),
    Long(i32),
    Color(Rgba),
    Point2D(Point2),
}

/// What an effect input accepts, with its schema default.
#[allow(inconsistent_fields)]
#[derive(Debug)]
pub enum IsfInputKind {
    Float { min: Single, max: Single, default: Single },
    Bool { default: bool },
    Long { values: Vec<i32>, labels: Vec<String>, default: i32 },
    Color { default: Rgba },
    Point2D { min: Point2, max: Point2, default: Point2 },
    /// A momentary trigger.
    Event,
    Image,
}

/// The mathematical content of an [`IsfInputKind`].
#[allow(inconsistent_fields)]
pub enum IsfInputKindModel {
    Float { min: Single, max: Single, default: Single },
    Bool { default: bool },
    Long { values: Seq<i32>, labels: Seq<Seq<char>>, default: i32 },
    Color { default: Rgba },
    Point2D { min: Point2, max: Point2, default: Point2 },
    Event,
    Image,
}

impl View for IsfInputKind {
    type V = IsfInputKindModel;

    open spec fn view(&self) -> IsfInputKindModel {
        match self {
            IsfInputKind::Float { min, max, default } => IsfInputKindModel::Float {
                min: *min,
                max: *max,
                default: *default,
            },
            IsfInputKind::Bool { default } => IsfInputKindModel::Bool { default: *default },
            IsfInputKind::Long { values, labels, default } => IsfInputKindModel::Long {
                values: values@,
                labels: views(labels@),
                default: *default,
            },
            IsfInputKind::Color { default } => IsfInputKindModel::Color { default: *default },
            IsfInputKind::Point2D { min, max, default } => IsfInputKindModel::Point2D {
                min: *min,
                max: *max,
                default: *default,
            },
            IsfInputKind::Event => IsfInputKindModel::Event,
            IsfInputKind::Image => IsfInputKindModel::Image,
        }
    }
}

impl Clone for IsfInputKind {
    fn clone(&self) -> (r: Self)
        ensures
            r@ == self@,
    {
        match self {
            IsfInputKind::Float { min, max, default } => IsfInputKind::Float {
                min: *min,
                max: *max,
                default: *default,
            },
            IsfInputKind::Bool { default } => IsfInputKind::Bool { default: *default },
            IsfInputKind::Long { values, labels, default } => {
                let v = values.clone();
                proof {
                    assert(v@ =~= values@);
                }
                IsfInputKind::Long { values: v, labels: strings_copy(labels), default: *default }
            },
            IsfInputKind::Color { default } => IsfInputKind::Color { default: *default },
            IsfInputKind::Point2D { min, max, default } => IsfInputKind::Point2D {
                min: *min,
                max: *max,
                default: *default,
            },
            IsfInputKind::Event => IsfInputKind::Event,
            IsfInputKind::Image => IsfInputKind::Image,
        }
    }
}

/// One declared input of an effect.
#[derive(Debug)]
pub struct IsfInput {
    pub name: String,
    pub label: Option<String>,
    pub kind: IsfInputKind,
}

/// The mathematical content of an [`IsfInput`].
pub struct IsfInputModel {
    pub name: Seq<char>,
    pub label: Option<Seq<char>>,
    pub kind: IsfInputKindModel,
}

impl View for IsfInput {
    type V = IsfInputModel;

    open spec fn view(&self) -> IsfInputModel {
        IsfInputModel { name: self.name@, label: view_opt(self.label), kind: self.kind@ }
    }
}

impl Clone for IsfInput {
    fn clone(&self) -> (r: Self)
        ensures
            r@ == self@,
    {
        IsfInput { name: self.name.clone(), label: text_copy(&self.label), kind: self.kind.clone() }
    }
}

} // verus!
