use vstd::prelude::*;
use crate::net::operation::Point3;
use crate::simulation::component::Id;

verus! {

/// The identity component of the action pipeline: which client an entity
/// belongs to.
#[derive(Clone, Copy, Debug, PartialEq, Eq, Structural)]
pub struct Client(pub Id);

/// Hit points.
#[derive(Clone, Copy, Debug, PartialEq, Eq, Structural)]
pub struct Health(pub u64);

/// A display name. No system of this pipeline fills it in.
#[derive(Debug)]
pub struct Name(pub String);

/// The authoritative position component.
#[derive(Clone, Copy, Debug, PartialEq, Eq, Structural)]
pub struct Position(pub Point3);

} // verus!
