use vstd::prelude::*;

pub mod lock;
pub mod triangulation;
pub mod triangulation_2;
pub mod boundary_condition;
pub mod text;
pub mod hardware;
pub mod run_state;
pub mod project_list;
pub mod inputs;
pub mod export;
pub mod face_plane;
pub mod material;
pub mod display_names;
pub mod recording;
pub mod boundary_membership;
pub mod mesh_worker;
pub mod containment;
