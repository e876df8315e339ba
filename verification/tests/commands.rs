use portfolio_commands::commands::{
    reply, ABOUT, CONTACT, HELP, HELP_FAILED, PAGES, PROJECTS_MARK, RESUME,
};
use portfolio_commands::json::EncodeError;
use portfolio_commands::{
    handle_about_command, handle_contact_command, handle_help_command, handle_ls_command,
    handle_projects_command, handle_resume_command, handle_skills_command,
    handle_unknown_command,
};
use serde_json::Value;

fn parsed(text: &str) -> Value {
    serde_json::from_str(text).expect("the response is JSON text")
}

fn envelope_with_text(output: &str) -> String {
    format!(
        "{{\"success\":true,\"output\":{},\"data\":null}}",
        serde_json::to_string(output).unwrap()
    )
}

fn assert_envelope(text: &str, output: &str) {
    let value = parsed(text);
    let members = value.as_object().expect("the response is an object");
    assert_eq!(members.len(), 3);
    assert_eq!(members["success"], Value::Bool(true));
    assert_eq!(members["output"], Value::String(output.to_string()));
    assert_eq!(members["data"], Value::Null);
}

#[test]
fn help_lists_commands_and_shortcuts() {
    let expected = "Terminal Commands & Shortcuts:\n\nPortfolio Pages:\n• about    - Learn about David Cho\n• contact  - Get in touch\n• projects - View my projects\n• skills   - Technical skills\n• resume   - Download resume\n\nTerminal Commands:\n• help     - Show this help\n• ls       - List all pages\n• clear    - Move prompt to top (keep history)\n• reset    - Full reset (clear history)\n\nKeyboard Shortcuts:\n\nNavigation:\n• ↑ / Ctrl+P    - Previous command\n• ↓ / Ctrl+N    - Next command\n• ← / Ctrl+B    - Move cursor left\n• → / Ctrl+F    - Move cursor right\n• Ctrl+A        - Beginning of line\n• Ctrl+E        - End of line\n• Alt+B / Ctrl+Shift+B - Back one word\n• Alt+F / Ctrl+Shift+F - Forward one word\n\nEditing:\n• Tab              - Autocomplete command\n• Backspace        - Delete character backward\n• Ctrl+D           - Delete character forward\n• Ctrl+W           - Delete word backward\n• Alt+D / Ctrl+Shift+D - Delete word forward\n• Ctrl+U           - Delete to beginning\n• Ctrl+K           - Delete to end\n• Ctrl+L           - Clear to top";
    assert_eq!(HELP, expected);
    let text = handle_help_command();
    assert_envelope(&text, expected);
    assert_eq!(text, envelope_with_text(expected));
    assert_eq!(text, "{\"success\":true,\"output\":\"Terminal Commands & Shortcuts:\\n\\nPortfolio Pages:\\n• about    - Learn about David Cho\\n• contact  - Get in touch\\n• projects - View my projects\\n• skills   - Technical skills\\n• resume   - Download resume\\n\\nTerminal Commands:\\n• help     - Show this help\\n• ls       - List all pages\\n• clear    - Move prompt to top (keep history)\\n• reset    - Full reset (clear history)\\n\\nKeyboard Shortcuts:\\n\\nNavigation:\\n• ↑ / Ctrl+P    - Previous command\\n• ↓ / Ctrl+N    - Next command\\n• ← / Ctrl+B    - Move cursor left\\n• → / Ctrl+F    - Move cursor right\\n• Ctrl+A        - Beginning of line\\n• Ctrl+E        - End of line\\n• Alt+B / Ctrl+Shift+B - Back one word\\n• Alt+F / Ctrl+Shift+F - Forward one word\\n\\nEditing:\\n• Tab              - Autocomplete command\\n• Backspace        - Delete character backward\\n• Ctrl+D           - Delete character forward\\n• Ctrl+W           - Delete word backward\\n• Alt+D / Ctrl+Shift+D - Delete word forward\\n• Ctrl+U           - Delete to beginning\\n• Ctrl+K           - Delete to end\\n• Ctrl+L           - Clear to top\",\"data\":null}");
}

#[test]
fn ls_lists_the_pages() {
    let expected = "Available portfolio pages:\n\n• about    - Learn about David Cho\n• contact  - Get in touch\n• projects - View my projects\n• skills   - Technical skills\n• resume   - Download resume\n\nType 'help' for commands and shortcuts.";
    assert_eq!(PAGES, expected);
    let text = handle_ls_command();
    assert_envelope(&text, expected);
    assert_eq!(text, "{\"success\":true,\"output\":\"Available portfolio pages:\\n\\n• about    - Learn about David Cho\\n• contact  - Get in touch\\n• projects - View my projects\\n• skills   - Technical skills\\n• resume   - Download resume\\n\\nType 'help' for commands and shortcuts.\",\"data\":null}");
}

#[test]
fn about_gives_the_biography() {
    let expected = "Innovative and self-motivated software engineer with 3+ years of professional experience building\nhigh-performance data pipelines, real-time processing systems, data quality frameworks and backend\nservices. Proven track record optimizing data infrastructure and system architecture with\ndemonstrated results including 70% storage reduction and 25% cost savings. Strong background in\nfinancial technology, backend development, distributed systems and production infrastructure\nsupporting mission-critical business decisions.";
    assert_eq!(ABOUT, expected);
    let text = handle_about_command();
    assert_envelope(&text, expected);
    assert_eq!(text, "{\"success\":true,\"output\":\"Innovative and self-motivated software engineer with 3+ years of professional experience building\\nhigh-performance data pipelines, real-time processing systems, data quality frameworks and backend\\nservices. Proven track record optimizing data infrastructure and system architecture with\\ndemonstrated results including 70% storage reduction and 25% cost savings. Strong background in\\nfinancial technology, backend development, distributed systems and production infrastructure\\nsupporting mission-critical business decisions.\",\"data\":null}");
}

#[test]
fn contact_gives_the_address() {
    let expected = "Contact Information:\n\n🌐 Website:  https://davcho.com/\n\nFeel free to reach out for opportunities or collaboration!";
    assert_eq!(CONTACT, expected);
    let text = handle_contact_command();
    assert_envelope(&text, expected);
    assert_eq!(text, "{\"success\":true,\"output\":\"Contact Information:\\n\\n🌐 Website:  https://davcho.com/\\n\\nFeel free to reach out for opportunities or collaboration!\",\"data\":null}");
}

#[test]
fn resume_gives_its_heading() {
    assert_eq!(RESUME, "Resume:");
    let text = handle_resume_command();
    assert_envelope(&text, "Resume:");
    assert_eq!(text, "{\"success\":true,\"output\":\"Resume:\",\"data\":null}");
}

#[test]
fn commands_without_arguments_repeat_themselves() {
    assert_eq!(handle_help_command(), handle_help_command());
    assert_eq!(handle_ls_command(), handle_ls_command());
    assert_eq!(handle_about_command(), handle_about_command());
    assert_eq!(handle_contact_command(), handle_contact_command());
    assert_eq!(handle_projects_command(), handle_projects_command());
    assert_eq!(handle_resume_command(), handle_resume_command());
    assert_eq!(handle_skills_command(None), handle_skills_command(None));
}

#[test]
fn unknown_command_is_echoed() {
    let text = handle_unknown_command("foo");
    assert_envelope(&text, "Command 'foo' not found. Type 'help' for available commands.");
    assert_eq!(
        text,
        "{\"success\":true,\"output\":\"Command 'foo' not found. Type 'help' for available commands.\",\"data\":null}"
    );
}

#[test]
fn unknown_empty_command_is_not_special() {
    let text = handle_unknown_command("");
    assert_envelope(&text, "Command '' not found. Type 'help' for available commands.");
    assert_eq!(
        text,
        "{\"success\":true,\"output\":\"Command '' not found. Type 'help' for available commands.\",\"data\":null}"
    );
}

#[test]
fn unknown_command_with_special_characters() {
    let command = "rm \"x\" \\ \n\t<&>'é\u{1}";
    let text = handle_unknown_command(command);
    let expected = format!("Command '{}' not found. Type 'help' for available commands.", command);
    assert_envelope(&text, &expected);
    assert_eq!(
        text,
        "{\"success\":true,\"output\":\"Command 'rm \\\"x\\\" \\\\ \\n\\t<&>'é\\u0001' not found. Type 'help' for available commands.\",\"data\":null}"
    );
}

fn project_value(name: &str, description: &str, tech: &[&str]) -> Value {
    let mut members = serde_json::Map::new();
    members.insert("name".to_string(), Value::String(name.to_string()));
    members.insert("description".to_string(), Value::String(description.to_string()));
    members.insert(
        "tech".to_string(),
        Value::Array(tech.iter().map(|t| Value::String(t.to_string())).collect()),
    );
    Value::Object(members)
}

fn expected_projects() -> Value {
    Value::Array(vec![
        project_value(
            "Shoepreme",
            "A sneaker based e-commerce site with a fully functional Stripe payment\n                            system. Built using a MERN stack in a team of three while adhering to a\n                            feature-based Git flow.",
            &["MongoDB", "Express", "React", "Node.js", "Stripe"],
        ),
        project_value(
            "book.pile",
            "A reader’s handy book search resource.",
            &["React", "Material UI", "Google Books API"],
        ),
        project_value(
            "Key Smash",
            "An interactive typing test game.",
            &["HTML", "CSS", "JavaScript"],
        ),
    ])
}

#[test]
fn projects_carry_their_data() {
    assert_eq!(PROJECTS_MARK, "<projects>");
    let text = handle_projects_command();
    let value = parsed(&text);
    let members = value.as_object().expect("the response is an object");
    assert_eq!(members.len(), 3);
    assert_eq!(members["success"], Value::Bool(true));
    assert_eq!(members["output"], Value::String("<projects>".to_string()));
    assert_eq!(members["data"], expected_projects());
}

#[test]
fn projects_data_has_three_complete_entries() {
    let value = parsed(&handle_projects_command());
    let entries = value["data"].as_array().expect("the data is an array");
    assert_eq!(entries.len(), 3);
    let names: Vec<&str> = entries.iter().map(|e| e["name"].as_str().unwrap()).collect();
    assert_eq!(names, vec!["Shoepreme", "book.pile", "Key Smash"]);
    for entry in entries {
        let members = entry.as_object().expect("an entry is an object");
        assert_eq!(members.len(), 3);
        assert!(!members["name"].as_str().unwrap().is_empty());
        assert!(!members["description"].as_str().unwrap().is_empty());
        let tech = members["tech"].as_array().unwrap();
        assert!(!tech.is_empty());
        for t in tech {
            assert!(!t.as_str().unwrap().is_empty());
        }
    }
}

#[test]
fn projects_text_is_exact() {
    let text = handle_projects_command();
    let expected = format!(
        "{{\"success\":true,\"output\":\"<projects>\",\"data\":{}}}",
        serde_json::to_string(&expected_projects()).unwrap()
    );
    assert_eq!(text, expected);
    assert_eq!(text, "{\"success\":true,\"output\":\"<projects>\",\"data\":[{\"description\":\"A sneaker based e-commerce site with a fully functional Stripe payment\\n                            system. Built using a MERN stack in a team of three while adhering to a\\n                            feature-based Git flow.\",\"name\":\"Shoepreme\",\"tech\":[\"MongoDB\",\"Express\",\"React\",\"Node.js\",\"Stripe\"]},{\"description\":\"A reader’s handy book search resource.\",\"name\":\"book.pile\",\"tech\":[\"React\",\"Material UI\",\"Google Books API\"]},{\"description\":\"An interactive typing test game.\",\"name\":\"Key Smash\",\"tech\":[\"HTML\",\"CSS\",\"JavaScript\"]}]}");
}

#[test]
fn first_description_keeps_its_line_breaks() {
    let value = parsed(&handle_projects_command());
    let description = value["data"][0]["description"].as_str().unwrap().to_string();
    let lines: Vec<&str> = description.split('\n').collect();
    assert_eq!(lines.len(), 3);
    assert_eq!(lines[0], "A sneaker based e-commerce site with a fully functional Stripe payment");
    assert_eq!(
        lines[1],
        "                            system. Built using a MERN stack in a team of three while adhering to a"
    );
    assert_eq!(lines[2], "                            feature-based Git flow.");
}

#[test]
fn reply_hands_on_the_encoded_text() {
    assert_eq!(reply(Ok("{}".to_string()), HELP_FAILED), "{}");
}

#[test]
fn reply_falls_back_where_encoding_failed() {
    assert_eq!(reply(Err(EncodeError::Rejected), HELP_FAILED), "Error generating help");
    assert_eq!(reply(Err(EncodeError::Rejected), "Error generating skills"), "Error generating skills");
}

#[test]
fn every_response_parses_back() {
    let texts = vec![
        handle_help_command(),
        handle_ls_command(),
        handle_about_command(),
        handle_contact_command(),
        handle_projects_command(),
        handle_resume_command(),
        handle_skills_command(None),
        handle_skills_command(Some("all".to_string())),
        handle_skills_command(Some("cloud".to_string())),
        handle_skills_command(Some("nothing".to_string())),
        handle_unknown_command("foo"),
        handle_unknown_command("\"\\\u{0}\u{1f}\u{7f}"),
    ];
    for text in texts {
        let value = parsed(&text);
        let members = value.as_object().expect("the response is an object");
        let keys: Vec<&str> = members.keys().map(|k| k.as_str()).collect();
        assert_eq!(keys, vec!["data", "output", "success"]);
        assert_eq!(members["success"], Value::Bool(true));
        assert!(members["output"].is_string());
        assert!(members["data"].is_null() || members["data"].is_array());
        assert!(text.starts_with("{\"success\":true,\"output\":\""));
    }
}
