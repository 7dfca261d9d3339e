use checklist::markdown::events_of;
use checklist::{
    extract_checklist, extract_checklist_name, Checklist, ChecklistError, ChecklistItem,
    MarkdownEvent,
};

fn entry(text: &str, optional: bool) -> ChecklistItem {
    ChecklistItem { text: text.to_string(), optional, resolved: false }
}

#[test]
fn create_new_checklist_from_markdown_simple_single_item() {
    let markdown_input = r#"
# Example Heading
Example paragraph with **lorem** _ipsum_ text.
<!-- checklist -->
- [x] test checklist item
        "#;
    let checklist = Checklist::from_markdown(String::from(markdown_input)).unwrap();
    let mut test_checklist = Checklist { name: "checklist".to_string(), items: Vec::new() };
    test_checklist.items.push(ChecklistItem {
        text: "test checklist item".to_string(),
        optional: false,
        resolved: false,
    });
    assert_eq!(test_checklist.name, checklist.name);
    assert_eq!(test_checklist.items, checklist.items)
}

#[test]
fn create_new_checklist_from_markdown_simple_single_optional_item() {
    let markdown_input = r#"
# Example Heading
Example paragraph with **lorem** _ipsum_ text.
<!-- checklist -->
- [x] test checklist item [OPTIONAL]
        "#;
    let checklist = Checklist::from_markdown(String::from(markdown_input)).unwrap();
    let mut test_checklist = Checklist { name: "checklist".to_string(), items: Vec::new() };
    test_checklist.items.push(ChecklistItem {
        text: "test checklist item [OPTIONAL]".to_string(),
        optional: true,
        resolved: false,
    });
    assert_eq!(test_checklist.name, checklist.name);
    assert_eq!(test_checklist.items, checklist.items);
}

#[test]
fn create_new_checklist_from_markdown_simple_multiple_items() {
    let markdown_input = r#"
# Example Heading
Example paragraph with **lorem** _ipsum_ text.
<!-- checklist - name -->
- [x] test checklist item 1
- [x] test checklist item 2
        "#;
    let checklist = Checklist::from_markdown(String::from(markdown_input)).unwrap();
    let mut test_checklist = Checklist { name: "checklist".to_string(), items: Vec::new() };
    test_checklist.items.push(ChecklistItem {
        text: "test checklist item 1".to_string(),
        optional: false,
        resolved: false,
    });
    test_checklist.items.push(ChecklistItem {
        text: "test checklist item 2".to_string(),
        optional: false,
        resolved: false,
    });
    assert_eq!(test_checklist.name, checklist.name);
    assert_eq!(test_checklist.items, checklist.items)
}

#[test]
fn create_new_checklist_from_markdown_mixed_lists_multiple_items() {
    let markdown_input = r#"
# Example Heading
Example paragraph with **lorem** _ipsum_ text.
<!-- checklist -->
- [x] test checklist item 1
- [x] test checklist item 2
<!-- checklist -->
- [x] test not checklist item 1
- [x] test not checklist item 2
        "#;
    let checklist = Checklist::from_markdown(String::from(markdown_input)).unwrap();
    let mut test_checklist = Checklist { name: "".to_string(), items: Vec::new() };
    test_checklist.items.push(ChecklistItem {
        text: "test checklist item 1".to_string(),
        optional: false,
        resolved: false,
    });
    test_checklist.items.push(ChecklistItem {
        text: "test checklist item 2".to_string(),
        optional: false,
        resolved: false,
    });
    assert_eq!(test_checklist.items, checklist.items)
}

#[test]
fn create_new_checklist_from_markdown_with_nested_items() {
    let markdown_input = r#"
<!-- checklist -->
- [ ] test checklist item
    - [ ] test checklist nested item
<!-- checklist -->
        "#;
    let checklist = Checklist::from_markdown(String::from(markdown_input)).unwrap();
    let mut test_checklist = Checklist { name: "".to_string(), items: Vec::new() };
    test_checklist.items.push(ChecklistItem {
        text: "test checklist item".to_string(),
        optional: false,
        resolved: false,
    });
    test_checklist.items.push(ChecklistItem {
        text: "test checklist nested item".to_string(),
        optional: false,
        resolved: false,
    });
    assert_eq!(test_checklist.items, checklist.items)
}

#[test]
fn create_new_checklist_from_markdown_single_item_containing_markdown_formating() {
    let markdown_input = r#"
# Example Heading
Example paragraph with **lorem** _ipsum_ text.
<!-- checklist -->
- [x] Example paragraph with **lorem** _ipsum_ text.
        "#;
    let checklist = Checklist::from_markdown(String::from(markdown_input)).unwrap();
    let mut test_checklist = Checklist { name: "checklist".to_string(), items: Vec::new() };
    test_checklist.items.push(ChecklistItem {
        text: "Example paragraph with lorem ipsum text.".to_string(),
        optional: false,
        resolved: false,
    });
    assert_eq!(test_checklist.items, checklist.items)
}

#[test]
#[should_panic]
fn create_new_checklist_from_markdown_no_checklist() {
    let markdown_input = r#"
# Example Heading
Example paragraph with **lorem** _ipsum_ text.
- [x] test not checklist item 1
- [x] test not checklist item 2
- [x] test not checklist item 3
- [x] test not checklist item 4
        "#;
    let _checklist = Checklist::from_markdown(String::from(markdown_input)).unwrap();
}

#[test]
fn extract_checklist_name_no_name() {
    let markdown_input = "<!-- checklist -->";
    let checklist_name = extract_checklist_name(String::from(markdown_input));
    assert_eq!("checklist", checklist_name)
}

#[test]
fn extract_checklist_name_name_following_spec() {
    let markdown_input = "<!-- checklist = 'test_name' -->";
    let checklist_name = extract_checklist_name(String::from(markdown_input));
    assert_eq!("test_name", checklist_name)
}

#[test]
fn extract_checklist_name_name_not_following_spec() {
    let markdown_input = "<!-- blah = 'test_name' -->";
    let checklist_name = extract_checklist_name(String::from(markdown_input));
    assert_eq!("checklist", checklist_name)
}

fn texts(checklist: &Checklist) -> Vec<String> {
    let mut found = Vec::new();
    for item in &checklist.items {
        found.push(item.text.clone());
    }
    found
}

#[test]
fn extract_checklist_from_markdown_simple_single_item() {
    let markdown_input = "# Example Heading\nExample paragraph with **lorem** _ipsum_ text.\n<!-- checklist - name -->\n - [x] test checklist item";
    let check_list = extract_checklist(String::from(markdown_input)).unwrap();
    let mut test_list: Vec<String> = Vec::new();
    test_list.push("test checklist item".to_string());
    assert_eq!(test_list, texts(&check_list))
}

#[test]
fn extract_checklist_from_markdown_simple_multiple_items() {
    let markdown_input = "# Example Heading\nExample paragraph with **lorem** _ipsum_ text.\n<!-- checklist - name -->\n - [x] test checklist item 1\n- [x] test checklist item 2";
    let check_list = extract_checklist(String::from(markdown_input)).unwrap();
    let mut test_list: Vec<String> = Vec::new();
    test_list.push("test checklist item 1".to_string());
    test_list.push("test checklist item 2".to_string());
    assert_eq!(test_list, texts(&check_list))
}

#[test]
fn extract_checklist_from_markdown_mixed_lists_multiple_items() {
    let markdown_input = r#"
# Example Heading
Example paragraph with **lorem** _ipsum_ text.
<!-- checklist - name -->
- [x] test checklist item 1
- [x] test checklist item 2
<!-- checklist - name -->
- [x] test not checklist item 1
- [x] test not checklist item 2
        "#;
    let check_list = extract_checklist(String::from(markdown_input)).unwrap();
    let mut test_list: Vec<String> = Vec::new();
    test_list.push("test checklist item 1".to_string());
    test_list.push("test checklist item 2".to_string());
    assert_eq!(test_list, texts(&check_list))
}

#[test]
fn extract_checklist_from_markdown_no_checklist() {
    let markdown_input = r#"
# Example Heading
Example paragraph with **lorem** _ipsum_ text.
- [x] test not checklist item 1
- [x] test not checklist item 2
- [x] test not checklist item 3
- [x] test not checklist item 4
        "#;
    let check_list = extract_checklist(String::from(markdown_input));
    assert_eq!(check_list.err(), Some(ChecklistError::EmptyChecklist))
}

#[test]
fn checklist_extract_checklist_from_markdown_simple_single_item() {
    let markdown_input = r#"
# Example Heading
Example paragraph with **lorem** _ipsum_ text.
<!-- checklist -->
- [x] test checklist item
        "#;
    let checklist = extract_checklist(String::from(markdown_input)).unwrap();
    let mut test_checklist = Checklist { name: "checklist".to_string(), items: Vec::new() };
    test_checklist.items.push(ChecklistItem {
        text: "test checklist item".to_string(),
        optional: false,
        resolved: false,
    });
    assert_eq!(test_checklist.name, checklist.name);
    assert_eq!(test_checklist.items, checklist.items)
}

#[test]
fn extract_checklist_from_markdown_simple_single_optional_item() {
    let markdown_input = r#"
# Example Heading
Example paragraph with **lorem** _ipsum_ text.
<!-- checklist -->
- [x] test checklist item [OPTIONAL]
        "#;
    let checklist = extract_checklist(String::from(markdown_input)).unwrap();
    let mut test_checklist = Checklist { name: "checklist".to_string(), items: Vec::new() };
    test_checklist.items.push(ChecklistItem {
        text: "test checklist item [OPTIONAL]".to_string(),
        optional: true,
        resolved: false,
    });
    assert_eq!(test_checklist.name, checklist.name);
    assert_eq!(test_checklist.items, checklist.items);
}

#[test]
fn checklist_extract_checklist_from_markdown_simple_multiple_items() {
    let markdown_input = r#"
# Example Heading
Example paragraph with **lorem** _ipsum_ text.
<!-- checklist - name -->
- [x] test checklist item 1
- [x] test checklist item 2
        "#;
    let checklist = extract_checklist(String::from(markdown_input)).unwrap();
    let mut test_checklist = Checklist { name: "checklist".to_string(), items: Vec::new() };
    test_checklist.items.push(ChecklistItem {
        text: "test checklist item 1".to_string(),
        optional: false,
        resolved: false,
    });
    test_checklist.items.push(ChecklistItem {
        text: "test checklist item 2".to_string(),
        optional: false,
        resolved: false,
    });
    assert_eq!(test_checklist.name, checklist.name);
    assert_eq!(test_checklist.items, checklist.items)
}

#[test]
fn checklist_extract_checklist_from_markdown_mixed_lists_multiple_items() {
    let markdown_input = r#"
# Example Heading
Example paragraph with **lorem** _ipsum_ text.
<!-- checklist -->
- [x] test checklist item 1
- [x] test checklist item 2
<!-- checklist -->
- [x] test not checklist item 1
- [x] test not checklist item 2
        "#;
    let checklist = extract_checklist(String::from(markdown_input)).unwrap();
    let mut test_checklist = Checklist { name: "".to_string(), items: Vec::new() };
    test_checklist.items.push(ChecklistItem {
        text: "test checklist item 1".to_string(),
        optional: false,
        resolved: false,
    });
    test_checklist.items.push(ChecklistItem {
        text: "test checklist item 2".to_string(),
        optional: false,
        resolved: false,
    });
    assert_eq!(test_checklist.items, checklist.items)
}

#[test]
fn extract_checklist_from_markdown_single_item_containing_markdown_formating() {
    let markdown_input = r#"
# Example Heading
Example paragraph with **lorem** _ipsum_ text.
<!-- checklist -->
- [x] Example paragraph with **lorem** _ipsum_ text.
        "#;
    let checklist = extract_checklist(String::from(markdown_input)).unwrap();
    let mut test_checklist = Checklist { name: "checklist".to_string(), items: Vec::new() };
    test_checklist.items.push(ChecklistItem {
        text: "Example paragraph with lorem ipsum text.".to_string(),
        optional: false,
        resolved: false,
    });
    assert_eq!(test_checklist.items, checklist.items)
}

#[test]
fn checklist_extract_checklist_from_markdown_no_checklist() {
    let markdown_input = r#"
# Example Heading
Example paragraph with **lorem** _ipsum_ text.
- [x] test not checklist item 1
- [x] test not checklist item 2
- [x] test not checklist item 3
- [x] test not checklist item 4
        "#;
    let checklist = extract_checklist(String::from(markdown_input));
    assert_eq!(checklist.err(), Some(ChecklistError::EmptyChecklist));
}

#[test]
fn document_without_delimiter_is_an_empty_checklist() {
    let found = Checklist::from_markdown("- [ ] one\n- [ ] two\n".to_string());
    assert_eq!(found.err(), Some(ChecklistError::EmptyChecklist));
}

#[test]
fn section_without_items_is_an_empty_checklist() {
    let found = Checklist::from_markdown("<!-- checklist -->\n\nno list here\n".to_string());
    assert_eq!(found.err(), Some(ChecklistError::EmptyChecklist));
    let closed = "<!-- checklist -->\n\ntext\n\n<!-- checklist -->\n\n- [ ] outside\n";
    let found = Checklist::from_markdown(closed.to_string());
    assert_eq!(found.err(), Some(ChecklistError::EmptyChecklist));
}

#[test]
fn single_item_document() {
    let list = Checklist::from_markdown("<!-- checklist -->\n- [x] test checklist item\n".to_string()).unwrap();
    assert_eq!(list.name, "checklist");
    assert_eq!(list.items, vec![entry("test checklist item", false)]);
}

#[test]
fn single_optional_item_document() {
    let list =
        Checklist::from_markdown("<!-- checklist -->\n- [x] test checklist item [OPTIONAL]\n".to_string()).unwrap();
    assert_eq!(list.items, vec![entry("test checklist item [OPTIONAL]", true)]);
}

#[test]
fn checked_boxes_do_not_resolve() {
    let list = Checklist::from_markdown("<!-- checklist -->\n- [x] done\n- [ ] open\n".to_string()).unwrap();
    assert_eq!(list.items, vec![entry("done", false), entry("open", false)]);
}

#[test]
fn delimiter_names_the_checklist() {
    let double = "<!-- checklist = \"release\" -->\n- [ ] tag\n";
    assert_eq!(Checklist::from_markdown(double.to_string()).unwrap().name, "release");
    let single = "<!-- checklist = 'release' -->\n- [ ] tag\n";
    assert_eq!(Checklist::from_markdown(single.to_string()).unwrap().name, "release");
}

#[test]
fn name_falls_back_to_the_default() {
    assert_eq!(extract_checklist_name("<!-- checklist = '' -->".to_string()), "checklist");
    assert_eq!(extract_checklist_name("<!-- checklist = 5 -->".to_string()), "checklist");
    assert_eq!(extract_checklist_name("<!-- checklist = -->".to_string()), "checklist");
    assert_eq!(extract_checklist_name("".to_string()), "checklist");
}

#[test]
fn comment_characters_leave_the_name() {
    assert_eq!(extract_checklist_name("<!-- checklist = 'a-b<c>!' -->".to_string()), "abc");
}

#[test]
fn item_without_text_is_kept() {
    let list = Checklist::from_markdown("<!-- checklist -->\n- one\n-\n- three\n".to_string()).unwrap();
    assert_eq!(list.items, vec![entry("one", false), entry("", false), entry("three", false)]);
}

#[test]
fn items_after_a_nested_list_are_outside_every_list() {
    let markdown = "<!-- checklist -->\n- outer\n    - inner\n- after\n";
    let list = Checklist::from_markdown(markdown.to_string()).unwrap();
    assert_eq!(list.items, vec![entry("outer", false), entry("inner", false)]);
}

#[test]
fn events_follow_the_document() {
    let events = events_of("<!-- checklist -->\n- [x] a *b*\n");
    assert_eq!(
        events,
        vec![
            MarkdownEvent::Other,
            MarkdownEvent::Html("<!-- checklist -->\n".to_string()),
            MarkdownEvent::Other,
            MarkdownEvent::ListStart,
            MarkdownEvent::ItemStart,
            MarkdownEvent::Other,
            MarkdownEvent::Text("a ".to_string()),
            MarkdownEvent::Other,
            MarkdownEvent::Text("b".to_string()),
            MarkdownEvent::Other,
            MarkdownEvent::ItemEnd,
            MarkdownEvent::ListEnd,
        ]
    );
    assert!(events_of("").is_empty());
}

#[test]
fn events_make_the_checklist() {
    let events = vec![
        MarkdownEvent::Html("<!-- checklist = 'todo' -->".to_string()),
        MarkdownEvent::ListStart,
        MarkdownEvent::ItemStart,
        MarkdownEvent::Text("one ".to_string()),
        MarkdownEvent::Other,
        MarkdownEvent::Text("[OPTIONAL]".to_string()),
        MarkdownEvent::ListStart,
        MarkdownEvent::ItemStart,
        MarkdownEvent::Text("two".to_string()),
        MarkdownEvent::ItemEnd,
        MarkdownEvent::ListEnd,
        MarkdownEvent::ItemEnd,
        MarkdownEvent::ItemStart,
        MarkdownEvent::Text("lost".to_string()),
        MarkdownEvent::ItemEnd,
        MarkdownEvent::ListEnd,
        MarkdownEvent::Html("<p>checklist</p>".to_string()),
        MarkdownEvent::ListStart,
        MarkdownEvent::ItemStart,
        MarkdownEvent::Text("three".to_string()),
        MarkdownEvent::ItemEnd,
        MarkdownEvent::Html("<!-- checklist -->".to_string()),
        MarkdownEvent::ItemStart,
        MarkdownEvent::Text("outside".to_string()),
        MarkdownEvent::ItemEnd,
        MarkdownEvent::ListEnd,
    ];
    let list = Checklist::from_events(&events).unwrap();
    assert_eq!(list.name, "checklist");
    assert_eq!(
        list.items,
        vec![entry("one [OPTIONAL]", true), entry("two", false), entry("three", false)]
    );
    assert_eq!(Checklist::from_events(&Vec::new()).err(), Some(ChecklistError::EmptyChecklist));
}

#[test]
fn text_outside_an_item_is_not_kept() {
    let events = vec![
        MarkdownEvent::Html("<!-- checklist -->".to_string()),
        MarkdownEvent::Text("before".to_string()),
        MarkdownEvent::ListStart,
        MarkdownEvent::Text("between".to_string()),
        MarkdownEvent::ItemStart,
        MarkdownEvent::ItemEnd,
        MarkdownEvent::ListEnd,
    ];
    let list = Checklist::from_events(&events).unwrap();
    assert_eq!(list.items, vec![entry("", false)]);
}

#[test]
fn comment_inside_a_paragraph_is_no_delimiter() {
    let markdown = "see <!-- checklist --> here\n\n- [ ] one\n";
    let found = Checklist::from_markdown(markdown.to_string());
    assert_eq!(found.err(), Some(ChecklistError::EmptyChecklist));
}

#[test]
fn last_delimiter_names_the_checklist() {
    let markdown = "<!-- checklist = 'first' -->\n- [ ] one\n\n<!-- checklist = 'second' -->\n";
    let list = Checklist::from_markdown(markdown.to_string()).unwrap();
    assert_eq!(list.name, "second");
    assert_eq!(list.items, vec![entry("one", false)]);
}

#[test]
fn sections_may_open_again() {
    let markdown = "<!-- checklist -->\n- one\n\n<!-- checklist -->\n- two\n\n<!-- checklist -->\n- three\n";
    let list = Checklist::from_markdown(markdown.to_string()).unwrap();
    assert_eq!(list.items, vec![entry("one", false), entry("three", false)]);
}
