//! Tests of the immediate-mode builder: ids, event classification, value
//! write-back, and grouping.

use plugin_host::ui::{Context, CreationContext, Response, Ui, UiComponentType};

#[test]
fn widget_ids_carry_kind_prefix_and_position() {
    let mut ui = Ui::new("inst".to_string());
    ui.label("hello world");
    let button = ui.button("Send Now");
    let mut text = String::new();
    let edit = ui.text_edit_singleline(&mut text);
    let mut on = false;
    let toggle = ui.toggle(&mut on);

    assert_eq!(ui.get_components()[0].id, "label_0");
    assert_eq!(button.component_id.as_deref(), Some("button_1_Send_Now"));
    assert_eq!(edit.component_id.as_deref(), Some("textedit_2"));
    assert_eq!(toggle.component_id.as_deref(), Some("toggle_3"));
}

#[test]
fn button_reports_click_from_the_event_record() {
    let mut ui = Ui::new("inst".to_string());
    assert!(ui.handle_ui_event("button_0_Go", ""));
    let first = ui.button("Go");
    assert!(first.clicked());
    assert!(!first.changed());
    // a button drawn at another position has another id and saw no click
    let second = ui.button("Go");
    assert!(!second.clicked());
}

#[test]
fn text_edit_applies_the_submitted_value() {
    let mut ui = Ui::new("inst".to_string());
    assert!(ui.handle_ui_event("textedit_0", "typed text"));
    let mut value = "old".to_string();
    let response = ui.text_edit_singleline(&mut value);
    assert!(response.changed());
    assert_eq!(value, "typed text");
    match &ui.get_components()[0].component {
        UiComponentType::TextEdit { value, hint } => {
            assert_eq!(value, "typed text");
            assert_eq!(hint, "");
        }
        _ => panic!("expected a text editor"),
    }
}

#[test]
fn toggle_applies_the_submitted_boolean() {
    let mut ui = Ui::new("inst".to_string());
    assert!(ui.handle_ui_event("toggle_0", "true"));
    let mut on = false;
    let response = ui.toggle(&mut on);
    assert!(response.clicked());
    assert!(response.changed());
    assert!(on);
    // an unparseable value leaves the binding alone
    ui.clear();
    assert!(ui.handle_ui_event("toggle_0", "maybe"));
    let mut still = true;
    let _ = ui.toggle(&mut still);
    assert!(still);
}

#[test]
fn combo_box_selection_follows_the_submitted_index() {
    let options = vec!["red".to_string(), "green".to_string(), "blue".to_string()];
    let mut ui = Ui::new("inst".to_string());
    assert!(ui.handle_ui_event("combo_0_Pick", "2"));
    let mut selected: Option<String> = None;
    let response = ui.combo_box(options.clone(), &mut selected, "Pick");
    assert!(response.clicked());
    assert!(response.changed());
    assert_eq!(selected.as_deref(), Some("blue"));
    match &ui.get_components()[0].component {
        UiComponentType::ComboBox { selected, placeholder, .. } => {
            assert_eq!(*selected, Some(2));
            assert_eq!(placeholder, "Pick");
        }
        _ => panic!("expected a combo box"),
    }

    // an out-of-range index clears the selection
    ui.clear();
    assert!(ui.handle_ui_event("combo_0_Pick", "9"));
    let mut selected = Some("red".to_string());
    let _ = ui.combo_box(options.clone(), &mut selected, "Pick");
    assert_eq!(selected, None);

    // a prior selection that is not among the options is cleared too
    ui.clear();
    let mut selected = Some("violet".to_string());
    let _ = ui.combo_box(options, &mut selected, "Pick");
    assert_eq!(selected, None);
}

#[test]
fn unknown_event_ids_are_recorded_but_not_classified() {
    let mut ui = Ui::new("inst".to_string());
    assert!(!ui.handle_ui_event("slider_0", "5"));
    let mut value = String::new();
    let edit = ui.text_edit_singleline(&mut value);
    assert!(!edit.changed());
}

#[test]
fn groups_wrap_their_children_in_issue_order() {
    let mut ui = Ui::new("inst".to_string());
    ui.label("above");
    ui.begin_horizontal();
    ui.label("left");
    ui.label("right");
    ui.end_group();
    ui.begin_vertical();
    ui.label("below");
    ui.end_group();

    let components = ui.get_components();
    assert_eq!(components.len(), 3);
    match &components[1].component {
        UiComponentType::Horizontal { children } => {
            assert_eq!(children.len(), 2);
            match &children[0].component {
                UiComponentType::Label { text } => assert_eq!(text, "left"),
                _ => panic!("expected a label"),
            }
        }
        _ => panic!("expected a horizontal group"),
    }
    match &components[2].component {
        UiComponentType::Vertical { children } => assert_eq!(children.len(), 1),
        _ => panic!("expected a vertical group"),
    }
    // an empty group and a stray end are both harmless
    ui.begin_horizontal();
    ui.end_group();
    ui.end_group();
    assert_eq!(ui.get_components().len(), 3);
}

#[test]
fn clearing_drops_the_frame_state() {
    let mut ui = Ui::new("inst".to_string());
    assert!(ui.handle_ui_event("button_0_Go", ""));
    ui.label("something");
    ui.clear();
    assert!(ui.get_components().is_empty());
    let button = ui.button("Go");
    // the recorded click was cleared with the rest of the frame
    assert!(!button.clicked());
}

#[test]
fn responses_report_what_they_were_built_with() {
    let r = Response::new();
    assert!(!r.clicked() && !r.changed() && !r.hovered());
    assert!(r.component_id.is_none());
    let r = Response::with_clicked();
    assert!(r.clicked() && !r.changed());
    let r = Response::with_changed();
    assert!(!r.clicked() && r.changed());
    let r = Response::new_with_component_and_state("id_1".to_string(), true, false);
    assert_eq!(r.component_id.as_deref(), Some("id_1"));
    assert!(r.clicked());
}

#[test]
fn contexts_carry_event_data() {
    let ctx = Context::new("inst".to_string());
    assert!(ctx.get_ui_event_data("x").is_none());
    let data = vec![("field".to_string(), "7".to_string())];
    let ctx = Context::with_ui_event_data("inst".to_string(), data);
    assert_eq!(ctx.get_ui_event_data("field").map(|s| s.as_str()), Some("7"));
    assert!(ctx.get_ui_event_data("other").is_none());
    assert!(!ctx.theme.is_dark);

    let creation = CreationContext::new("plugin");
    assert_eq!(creation.plugin_id, "plugin");
    assert!(creation.config.is_empty());
    let creation = CreationContext::with_config(
        "plugin",
        vec![("key".to_string(), "value".to_string())],
    );
    assert_eq!(creation.config.len(), 1);
}
