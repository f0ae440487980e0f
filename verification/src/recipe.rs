//! Recipe data shapes that the edit dialogs exchange with the service:
//! steps, yield information, and the recipe info block.

use vstd::prelude::*;

verus! {

/// A step of a recipe, as created.
#[derive(Debug, Default, Clone, PartialEq)]
pub struct CreateStep {
    pub title: Option<String>,
    pub description: String,
}

/// A step of a recipe, as updated: every field optional.
#[derive(Debug, Default, Clone, PartialEq)]
pub struct UpdateStep {
    pub title: Option<String>,
    pub description: Option<String>,
}

/// A step of a recipe, as the service reports it.
#[derive(Debug, Default, Clone, PartialEq)]
pub struct Step {
    pub title: Option<String>,
    pub description: String,
}

impl From<Step> for UpdateStep {
    fn from(step: Step) -> (r: Self) {
        Self { title: step.title, description: Some(step.description) }
    }
}

impl vstd::std_specs::convert::FromSpecImpl<Step> for UpdateStep {
    open spec fn obeys_from_spec() -> bool {
        true
    }

    open spec fn from_spec(step: Step) -> Self {
        UpdateStep { title: step.title, description: Some(step.description) }
    }
}

/// How much a recipe yields.
#[derive(Debug, Default, Clone, PartialEq)]
pub struct InfoYields {
    pub value: usize,
    pub unit_type: String,
}

/// The info block of a recipe: yields, times in seconds, and flags.
#[derive(Debug, Default, Clone, PartialEq)]
pub struct Info {
    pub yields: Option<InfoYields>,
    pub cook_time: usize,
    pub prep_time: usize,
    pub freezable: bool,
    pub microwave_only: bool,
    pub source: Option<String>,
}

} // verus!
