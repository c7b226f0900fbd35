//! The interactive surface: what each command decides and says.
pub mod bugcheck;
pub mod bugcheck_laws;
pub mod commands;
pub mod completion;
pub mod completion_laws;
pub mod context;
pub mod context_laws;
pub mod disasm;
pub mod effect_laws;
pub mod effects;
pub mod listing_laws;
pub mod show_laws;
pub mod stop;
pub mod stop_laws;
pub mod surface;
pub mod surface_laws;
pub mod turn_laws;
