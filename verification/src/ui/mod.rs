//! What the settings window and the recording overlay present: routes,
//! layout, view models and the wording of states and failures.

pub mod assets;
pub mod route;
pub mod workspace;
pub mod layout;
pub mod history_lane;
pub mod replacements;
pub mod failure;
pub mod overlay;
pub mod model_catalog;
pub mod history;
pub mod setup;
pub mod shortcut;
pub mod wav;
pub mod time_text;
