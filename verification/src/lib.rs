//! Iron Fauna's game rules: world data, verdicts and relapse, dialogue,
//! the journal, the settlement economy, overworld steps and the plain-value
//! decisions of the battle field, each with a proved contract.

pub mod combat;
pub mod data;
pub mod economy;
pub mod menu;
pub mod model;
pub mod overworld;
pub mod text;
