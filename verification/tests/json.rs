use portfolio_commands::json::{array, join, quote, quote_each};
use portfolio_commands::projects::projects;
use portfolio_commands::response::{projects_to_json, CommandResponse, Project};
use portfolio_commands::text::same_text;
use serde_json::Value;

fn strings(items: &[&str]) -> Vec<String> {
    items.iter().map(|s| s.to_string()).collect()
}

#[test]
fn quote_puts_plain_text_between_quotes() {
    assert_eq!(quote("abc").unwrap(), "\"abc\"");
    assert_eq!(quote("").unwrap(), "\"\"");
    assert_eq!(quote("a/b <c> & 'd'").unwrap(), "\"a/b <c> & 'd'\"");
}

#[test]
fn quote_escapes_quote_and_backslash() {
    assert_eq!(quote("a\"b").unwrap(), "\"a\\\"b\"");
    assert_eq!(quote("a\\b").unwrap(), "\"a\\\\b\"");
}

#[test]
fn quote_escapes_the_named_controls() {
    assert_eq!(quote("\u{8}").unwrap(), "\"\\b\"");
    assert_eq!(quote("\t").unwrap(), "\"\\t\"");
    assert_eq!(quote("\n").unwrap(), "\"\\n\"");
    assert_eq!(quote("\u{c}").unwrap(), "\"\\f\"");
    assert_eq!(quote("\r").unwrap(), "\"\\r\"");
}

#[test]
fn quote_escapes_other_controls_by_number() {
    assert_eq!(quote("\u{0}").unwrap(), "\"\\u0000\"");
    assert_eq!(quote("\u{1}").unwrap(), "\"\\u0001\"");
    assert_eq!(quote("\u{b}").unwrap(), "\"\\u000b\"");
    assert_eq!(quote("\u{e}").unwrap(), "\"\\u000e\"");
    assert_eq!(quote("\u{10}").unwrap(), "\"\\u0010\"");
    assert_eq!(quote("\u{1a}").unwrap(), "\"\\u001a\"");
    assert_eq!(quote("\u{1f}").unwrap(), "\"\\u001f\"");
}

#[test]
fn quote_escapes_every_control_as_stated() {
    let digits: Vec<char> = "0123456789abcdef".chars().collect();
    for code in 0u32..0x20 {
        let c = char::from_u32(code).unwrap();
        let expected = match c {
            '\u{8}' => "\"\\b\"".to_string(),
            '\t' => "\"\\t\"".to_string(),
            '\n' => "\"\\n\"".to_string(),
            '\u{c}' => "\"\\f\"".to_string(),
            '\r' => "\"\\r\"".to_string(),
            _ => format!(
                "\"\\u00{}{}\"",
                digits[(code / 16) as usize],
                digits[(code % 16) as usize]
            ),
        };
        assert_eq!(quote(&c.to_string()).unwrap(), expected, "code {}", code);
    }
}

#[test]
fn quote_leaves_the_rest_as_it_is() {
    assert_eq!(quote(" ").unwrap(), "\" \"");
    assert_eq!(quote("\u{7f}").unwrap(), "\"\u{7f}\"");
    assert_eq!(quote("\u{80}").unwrap(), "\"\u{80}\"");
    assert_eq!(quote("é•↑🌐’").unwrap(), "\"é•↑🌐’\"");
    assert_eq!(quote("\u{2028}\u{2029}").unwrap(), "\"\u{2028}\u{2029}\"");
    for code in 0x20u32..0x80 {
        let c = char::from_u32(code).unwrap();
        if c != '"' && c != '\\' {
            assert_eq!(quote(&c.to_string()).unwrap(), format!("\"{}\"", c));
        }
    }
}

#[test]
fn quote_reads_back() {
    for text in ["", "plain", "a\"b\\c", "\u{0}\u{1}\n\r\t\u{8}\u{c}\u{1f}", "\\u0041", "é•↑🌐’", "\\\"", "b\\"] {
        let literal = quote(text).unwrap();
        let back: Value = serde_json::from_str(&literal).expect("a string literal");
        assert_eq!(back, Value::String(text.to_string()));
    }
}

#[test]
fn quote_each_keeps_the_order() {
    assert_eq!(quote_each(&strings(&["a", "b\"", ""])).unwrap(), strings(&["\"a\"", "\"b\\\"\"", "\"\""]));
    assert_eq!(quote_each(&Vec::new()).unwrap(), Vec::<String>::new());
}

#[test]
fn join_puts_the_separator_between() {
    assert_eq!(join(&strings(&[]), ","), "");
    assert_eq!(join(&strings(&["a"]), ","), "a");
    assert_eq!(join(&strings(&["a", "b"]), ","), "a,b");
    assert_eq!(join(&strings(&["a", "b", "c"]), "\n• "), "a\n• b\n• c");
    assert_eq!(join(&strings(&["", "", ""]), "-"), "--");
    assert_eq!(join(&strings(&["a", "b"]), ""), "ab");
}

#[test]
fn array_brackets_the_elements() {
    assert_eq!(array(&strings(&[])), "[]");
    assert_eq!(array(&strings(&["1"])), "[1]");
    assert_eq!(array(&strings(&["\"a\"", "\"b\""])), "[\"a\",\"b\"]");
}

#[test]
fn same_text_compares_the_characters() {
    assert!(same_text("", ""));
    assert!(same_text("all", "all"));
    assert!(same_text("é🌐", "é🌐"));
    assert!(!same_text("all", "al"));
    assert!(!same_text("al", "all"));
    assert!(!same_text("all", "alL"));
    assert!(!same_text("xyz", "all"));
    assert!(!same_text("", "a"));
    assert!(!same_text("é", "e"));
}

#[test]
fn project_object_has_sorted_keys() {
    let project = Project {
        name: "n\"1".to_string(),
        description: "two\nlines".to_string(),
        tech: strings(&["x", "y"]),
    };
    assert_eq!(
        project.to_json().unwrap(),
        "{\"description\":\"two\\nlines\",\"name\":\"n\\\"1\",\"tech\":[\"x\",\"y\"]}"
    );
    let empty = Project { name: String::new(), description: String::new(), tech: Vec::new() };
    assert_eq!(empty.to_json().unwrap(), "{\"description\":\"\",\"name\":\"\",\"tech\":[]}");
}

#[test]
fn projects_array_text() {
    assert_eq!(projects_to_json(&Vec::new()).unwrap(), "[]");
    let one = vec![Project { name: "a".to_string(), description: "b".to_string(), tech: strings(&["c"]) }];
    assert_eq!(
        projects_to_json(&one).unwrap(),
        "[{\"description\":\"b\",\"name\":\"a\",\"tech\":[\"c\"]}]"
    );
    let two = vec![
        Project { name: "a".to_string(), description: "b".to_string(), tech: strings(&["c"]) },
        Project { name: "d".to_string(), description: "e".to_string(), tech: strings(&[]) },
    ];
    assert_eq!(
        projects_to_json(&two).unwrap(),
        "[{\"description\":\"b\",\"name\":\"a\",\"tech\":[\"c\"]},{\"description\":\"e\",\"name\":\"d\",\"tech\":[]}]"
    );
}

#[test]
fn project_list_has_three_entries() {
    let list = projects();
    assert_eq!(list.len(), 3);
    assert_eq!(list[0].name, "Shoepreme");
    assert_eq!(list[0].tech, strings(&["MongoDB", "Express", "React", "Node.js", "Stripe"]));
    assert_eq!(list[1].name, "book.pile");
    assert_eq!(list[1].description, "A reader’s handy book search resource.");
    assert_eq!(list[1].tech, strings(&["React", "Material UI", "Google Books API"]));
    assert_eq!(list[2].name, "Key Smash");
    assert_eq!(list[2].description, "An interactive typing test game.");
    assert_eq!(list[2].tech, strings(&["HTML", "CSS", "JavaScript"]));
    for project in &list {
        assert!(!project.name.is_empty());
        assert!(!project.description.is_empty());
        assert!(!project.tech.is_empty());
    }
}

#[test]
fn success_response_has_no_data() {
    let response = CommandResponse::success("hi".to_string());
    assert!(response.success);
    assert_eq!(response.output, "hi");
    assert!(response.data.is_none());
    assert_eq!(response.to_json().unwrap(), "{\"success\":true,\"output\":\"hi\",\"data\":null}");
}

#[test]
fn response_with_data_carries_it() {
    let data = vec![Project { name: "a".to_string(), description: "b".to_string(), tech: strings(&["c"]) }];
    let response = CommandResponse::with_data("<x>".to_string(), data);
    assert!(response.success);
    assert_eq!(response.output, "<x>");
    assert_eq!(response.data.as_ref().map(|d| d.len()), Some(1));
    assert_eq!(
        response.to_json().unwrap(),
        "{\"success\":true,\"output\":\"<x>\",\"data\":[{\"description\":\"b\",\"name\":\"a\",\"tech\":[\"c\"]}]}"
    );
}

#[test]
fn failed_response_says_so() {
    let response = CommandResponse { success: false, output: String::new(), data: Some(Vec::new()) };
    assert_eq!(response.to_json().unwrap(), "{\"success\":false,\"output\":\"\",\"data\":[]}");
}
