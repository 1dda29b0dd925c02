use vstd::prelude::*;

pub mod adjoint_flow;
pub mod answers;
pub mod bingham;
pub mod bingham_flow;
pub mod binary;
pub mod boiling_flow;
pub mod boiling_mixture;
pub mod bounds_flow;
pub mod cavitating_curve;
pub mod cavitating_eos;
pub mod cavitating_flow;
pub mod cavitating_fluid;
pub mod cavitating_nodes;
pub mod cavitating_patch;
pub mod cavitating_rise;
pub mod cavitating_slope;
pub mod cavitating_table;
pub mod corotated;
pub mod elastic;
pub mod eos_flow;
pub mod estimates;
pub mod fluid;
pub mod fluid_flow;
pub mod gas;
pub mod gas_flow;
pub mod granular_flow;
pub mod granular_fluid;
pub mod granular_stress;
pub mod linalg;
pub mod mechanics;
pub mod mechanics_flow;
pub mod model;
pub mod nacc;
pub mod nacc_flow;
pub mod nacc_reload;
pub mod no_compression;
pub mod numerics;
pub mod optical;
pub mod params;
pub mod particle;
pub mod ray_flow;
pub mod rest_flow;
pub mod soil_flow;
pub mod solid_flow;
pub mod state_flow;
pub mod tension_flow;
pub mod wrappers;
pub mod wrappers_flow;
