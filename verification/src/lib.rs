//! Command responses of a terminal-style portfolio page.
//!
//! Every command yields one response envelope, rendered as compact JSON text.

pub mod commands;
pub mod json;
pub mod projects;
pub mod reading;
pub mod response;
pub mod skills;
pub mod text;

pub use commands::{
    handle_about_command, handle_contact_command, handle_help_command, handle_ls_command,
    handle_projects_command, handle_resume_command, handle_skills_command,
    handle_unknown_command,
};
