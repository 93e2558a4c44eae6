//! The transform pass: replacing the covered history of a conversation by frozen blocks.

pub mod calls;
pub mod deciding;
pub mod delivery;
pub mod driving;
pub mod errors;
pub mod ingress;
pub mod intake;
pub mod laws;
pub mod led;
pub mod machine;
pub mod output;
pub mod pass;
pub mod reductions;
pub mod repeats;
pub mod runs;
pub mod settling;
pub mod stages;
pub mod stepping;
pub mod todo;
pub mod types;
