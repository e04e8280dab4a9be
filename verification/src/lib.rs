pub mod activation_prereq;
pub mod anim_def;
pub mod assertion;
pub mod error;
pub mod flags;
pub mod gamez;
pub mod io_ext;
pub mod nodes;
pub mod pe;
pub mod record;
pub mod sequence_event;
pub mod string;
pub mod types;
