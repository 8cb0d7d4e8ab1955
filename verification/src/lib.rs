//! Planning core of the Linexus orchestrator: the resolution of infrastructure
//! intents into ordered transaction plans, the parameter maps that those plans
//! carry, and the bearer-token check that guards the planning service.

pub mod text;
pub mod params;
pub mod plan;
pub mod api;
