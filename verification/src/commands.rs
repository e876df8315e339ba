//! The commands: one function each, from the arguments to the JSON text of the
//! response.

use crate::json::EncodeError;
use crate::projects::{project_list, projects};
use crate::response::{envelope_text, CommandResponse, ResponseView};
use crate::skills::{skills_output, skills_text};
use vstd::prelude::*;
use vstd::string::*;

verus! {

/// What `help` shows.
pub const HELP: &'static str = "Terminal Commands & Shortcuts:\n\
\n\
Portfolio Pages:\n\
• about    - Learn about David Cho\n\
• contact  - Get in touch\n\
• projects - View my projects\n\
• skills   - Technical skills\n\
• resume   - Download resume\n\
\n\
Terminal Commands:\n\
• help     - Show this help\n\
• ls       - List all pages\n\
• clear    - Move prompt to top (keep history)\n\
• reset    - Full reset (clear history)\n\
\n\
Keyboard Shortcuts:\n\
\n\
Navigation:\n\
• ↑ / Ctrl+P    - Previous command\n\
• ↓ / Ctrl+N    - Next command\n\
• ← / Ctrl+B    - Move cursor left\n\
• → / Ctrl+F    - Move cursor right\n\
• Ctrl+A        - Beginning of line\n\
• Ctrl+E        - End of line\n\
• Alt+B / Ctrl+Shift+B - Back one word\n\
• Alt+F / Ctrl+Shift+F - Forward one word\n\
\n\
Editing:\n\
• Tab              - Autocomplete command\n\
• Backspace        - Delete character backward\n\
• Ctrl+D           - Delete character forward\n\
• Ctrl+W           - Delete word backward\n\
• Alt+D / Ctrl+Shift+D - Delete word forward\n\
• Ctrl+U           - Delete to beginning\n\
• Ctrl+K           - Delete to end\n\
• Ctrl+L           - Clear to top";

/// What `ls` shows.
pub const PAGES: &'static str = "Available portfolio pages:\n\
\n\
• about    - Learn about David Cho\n\
• contact  - Get in touch\n\
• projects - View my projects\n\
• skills   - Technical skills\n\
• resume   - Download resume\n\
\n\
Type 'help' for commands and shortcuts.";

/// What `about` shows.
pub const ABOUT: &'static str = "Innovative and self-motivated software engineer with 3+ years of professional experience building\n\
high-performance data pipelines, real-time processing systems, data quality frameworks and backend\n\
services. Proven track record optimizing data infrastructure and system architecture with\n\
demonstrated results including 70% storage reduction and 25% cost savings. Strong background in\n\
financial technology, backend development, distributed systems and production infrastructure\n\
supporting mission-critical business decisions.";

/// What `contact` shows.
pub const CONTACT: &'static str = "Contact Information:\n\
\n\
🌐 Website:  https://davcho.com/\n\
\n\
Feel free to reach out for opportunities or collaboration!";

/// What `resume` shows.
pub const RESUME: &'static str = "Resume:";

/// The text of the `projects` response. It asks the reader to show the data of
/// the response in its place.
pub const PROJECTS_MARK: &'static str = "<projects>";

/// What `help` hands out where its response could not be encoded.
pub const HELP_FAILED: &'static str = "Error generating help";

/// What `ls` hands out where its response could not be encoded.
pub const PAGES_FAILED: &'static str = "Error generating page list";

/// What `about` hands out where its response could not be encoded.
pub const ABOUT_FAILED: &'static str = "Error generating about info";

/// What `contact` hands out where its response could not be encoded.
pub const CONTACT_FAILED: &'static str = "Error generating contact info";

/// What `projects` hands out where its response could not be encoded.
pub const PROJECTS_FAILED: &'static str = "Error generating projects";

/// What `skills` hands out where its response could not be encoded.
pub const SKILLS_FAILED: &'static str = "Error generating skills";

/// What `resume` hands out where its response could not be encoded.
pub const RESUME_FAILED: &'static str = "Error generating resume info";

/// What is handed out for a command that does not exist where the response
/// could not be encoded.
pub const UNKNOWN_FAILED: &'static str = "Error generating error message";

/// What is shown for a command that does not exist: its name between single
/// quotes, as it was typed, and a pointer to `help`.
pub open spec fn unknown_text(command: Seq<char>) -> Seq<char> {
    "Command '"@ + command + "' not found. Type 'help' for available commands."@
}

/// The successful response that carries `output` and no data.
pub open spec fn plain(output: Seq<char>) -> ResponseView {
    ResponseView { success: true, output, data: None }
}

/// The text that a command hands out: the encoded response, or `fallback`
/// where encoding failed.
pub open spec fn reply_text(encoded: Result<String, EncodeError>, fallback: Seq<char>) -> Seq<char> {
    match encoded {
        Ok(text) => text@,
        Err(_) => fallback,
    }
}

/// The text that a command hands out: the encoded response, or `fallback`
/// where encoding failed. A failure is not reported in any other way.
pub fn reply(encoded: Result<String, EncodeError>, fallback: &str) -> (r: String)
    ensures
        r@ == reply_text(encoded, fallback@),
{
    match encoded {
        Ok(text) => text,
        Err(_) => String::from_str(fallback),
    }
}

/// The response to `help`: the commands and the keyboard shortcuts.
pub fn handle_help_command() -> (r: String)
    ensures
        r@ == envelope_text(plain(HELP@)),
{
    let response = CommandResponse::success(String::from_str(HELP));
    reply(response.to_json(), HELP_FAILED)
}

/// The response to `ls`: the pages.
pub fn handle_ls_command() -> (r: String)
    ensures
        r@ == envelope_text(plain(PAGES@)),
{
    let response = CommandResponse::success(String::from_str(PAGES));
    reply(response.to_json(), PAGES_FAILED)
}

/// The response to `about`: the biography.
pub fn handle_about_command() -> (r: String)
    ensures
        r@ == envelope_text(plain(ABOUT@)),
{
    let response = CommandResponse::success(String::from_str(ABOUT));
    reply(response.to_json(), ABOUT_FAILED)
}

/// The response to `contact`.
pub fn handle_contact_command() -> (r: String)
    ensures
        r@ == envelope_text(plain(CONTACT@)),
{
    let response = CommandResponse::success(String::from_str(CONTACT));
    reply(response.to_json(), CONTACT_FAILED)
}

/// The response to `projects`: the mark as its text, the project list as its
/// data.
pub fn handle_projects_command() -> (r: String)
    ensures
        r@ == envelope_text(
            ResponseView { success: true, output: PROJECTS_MARK@, data: Some(project_list()) },
        ),
{
    let response = CommandResponse::with_data(String::from_str(PROJECTS_MARK), projects());
    reply(response.to_json(), PROJECTS_FAILED)
}

/// The response to `skills`, with or without a category.
pub fn handle_skills_command(category: Option<String>) -> (r: String)
    ensures
        r@ == envelope_text(
            plain(
                skills_text(
                    match category {
                        None => None,
                        Some(key) => Some(key@),
                    },
                ),
            ),
        ),
{
    let output = match &category {
        None => skills_output(None),
        Some(key) => skills_output(Some(key.as_str())),
    };
    let response = CommandResponse::success(output);
    reply(response.to_json(), SKILLS_FAILED)
}

/// The response to `resume`.
pub fn handle_resume_command() -> (r: String)
    ensures
        r@ == envelope_text(plain(RESUME@)),
{
    let response = CommandResponse::success(String::from_str(RESUME));
    reply(response.to_json(), RESUME_FAILED)
}

/// The response to a command that does not exist.
pub fn handle_unknown_command(command: &str) -> (r: String)
    ensures
        r@ == envelope_text(plain(unknown_text(command@))),
{
    let mut output = String::from_str("Command '");
    output.append(command);
    output.append("' not found. Type 'help' for available commands.");
    let response = CommandResponse::success(output);
    reply(response.to_json(), UNKNOWN_FAILED)
}

} // verus!
