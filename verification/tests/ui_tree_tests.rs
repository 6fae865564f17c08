//! Tests of the retained component tree: builders, typed references, and
//! containers.

use plugin_host::components::{ComponentType, ContainerLayout, PluginUi};

#[test]
fn test_text_component_creation() {
    let mut ui = PluginUi::new();
    let _text_ref = ui.text("测试文本");

    assert_eq!(ui.get_components().len(), 1);

    let component = &ui.get_components()[0];
    match &component.component {
        ComponentType::Text { value } => {
            assert_eq!(value, "测试文本");
        }
        _ => panic!("Expected Text component"),
    }
}

#[test]
fn test_text_component_set_value() {
    let mut ui = PluginUi::new();
    let text_ref = ui.text("初始文本");

    let success = text_ref.set_value(&mut ui, "更新后的文本");
    assert!(success);

    let component = &ui.get_components()[0];
    match &component.component {
        ComponentType::Text { value } => {
            assert_eq!(value, "更新后的文本");
        }
        _ => panic!("Expected Text component"),
    }
}

#[test]
fn test_type_safety() {
    let mut ui = PluginUi::new();
    let text_ref = ui.text("测试文本");
    let button_ref = ui.button("按钮", None, true);
    let textfield_ref = ui.textfield("提示");
    let select_ref = ui.select(vec!["选项1", "选项2"]);

    let success = text_ref.set_value(&mut ui, "新文本");
    assert!(success);

    let success = button_ref.set_label(&mut ui, "新标签");
    assert!(success);
    let success = button_ref.set_enabled(&mut ui, false);
    assert!(success);

    let success = textfield_ref.set_value(&mut ui, "新值");
    assert!(success);
    let success = textfield_ref.set_hint(&mut ui, "新提示");
    assert!(success);

    let success = select_ref.set_value(&mut ui, vec!["新选项1", "新选项2", "新选项3"]);
    assert!(success);
    let success = select_ref.set_selected(&mut ui, Some("新选项2"));
    assert!(success);

    let _container_ref = PluginUi::build_horizontal_container(&mut ui)
        .add_text(&mut ui, "左侧")
        .add_button(&mut ui, "右侧", None, true)
        .build();
}

#[test]
fn test_container() {
    let mut ui = PluginUi::new();

    let _container_ref = PluginUi::build_horizontal_container(&mut ui)
        .add_text(&mut ui, "测试文本")
        .add_button(&mut ui, "测试按钮", Some("refresh"), true)
        .build();

    let components = ui.get_components();
    assert_eq!(components.len(), 1);

    match &components[0].component {
        ComponentType::Container { layout, children } => {
            match layout {
                ContainerLayout::Horizontal => {}
                _ => panic!("Expected Horizontal layout"),
            }

            assert_eq!(children.len(), 2);

            match &children[0].component {
                ComponentType::Text { value } => {
                    assert_eq!(value, "测试文本");
                }
                _ => panic!("Expected Text component"),
            }

            match &children[1].component {
                ComponentType::Button { label, icon, enabled, .. } => {
                    assert_eq!(label, "测试按钮");
                    assert_eq!(icon, &Some("refresh".to_string()));
                    assert!(enabled);
                }
                _ => panic!("Expected Button component"),
            }
        }
        _ => panic!("Expected Container component"),
    }
}

#[test]
fn test_nested_containers() {
    let mut ui = PluginUi::new();

    let _outer_container = PluginUi::build_vertical_container(&mut ui)
        .add_text(&mut ui, "顶部文本")
        .add_container(&mut ui, ContainerLayout::Horizontal)
        .add_button(&mut ui, "左按钮", None, true)
        .add_button(&mut ui, "右按钮", None, true)
        .build();

    let components = ui.get_components();
    assert_eq!(components.len(), 1);

    match &components[0].component {
        ComponentType::Container { layout, children } => {
            match layout {
                ContainerLayout::Vertical => {}
                _ => panic!("Expected Vertical layout"),
            }

            assert_eq!(children.len(), 2);

            match &children[0].component {
                ComponentType::Text { value } => {
                    assert_eq!(value, "顶部文本");
                }
                _ => panic!("Expected Text component"),
            }

            match &children[1].component {
                ComponentType::Container { layout: inner_layout, children: inner_children } => {
                    match inner_layout {
                        ContainerLayout::Horizontal => {}
                        _ => panic!("Expected Horizontal layout for inner container"),
                    }

                    assert_eq!(inner_children.len(), 2);

                    for (i, child) in inner_children.iter().enumerate() {
                        match &child.component {
                            ComponentType::Button { label, .. } => {
                                let expected_label = if i == 0 { "左按钮" } else { "右按钮" };
                                assert_eq!(label, expected_label);
                            }
                            _ => panic!("Expected Button component"),
                        }
                    }
                }
                _ => panic!("Expected Container component"),
            }
        }
        _ => panic!("Expected Container component"),
    }
}

#[test]
fn test_grid_container() {
    let mut ui = PluginUi::new();

    let _grid_container = PluginUi::build_grid_container(&mut ui, 2)
        .add_text(&mut ui, "项目1")
        .add_text(&mut ui, "项目2")
        .add_button(&mut ui, "按钮1", None, true)
        .add_button(&mut ui, "按钮2", None, true)
        .build();

    let components = ui.get_components();
    assert_eq!(components.len(), 1);

    match &components[0].component {
        ComponentType::Container { layout, children } => {
            match layout {
                ContainerLayout::Grid { columns } => {
                    assert_eq!(*columns, 2);
                }
                _ => panic!("Expected Grid layout"),
            }

            assert_eq!(children.len(), 4);
        }
        _ => panic!("Expected Container component"),
    }
}

#[test]
fn test_mixed_components() {
    let mut ui = PluginUi::new();

    let _text_ref = ui.text("文本组件");
    let _button_ref = ui.button("按钮", None, true);
    let _textfield_ref = ui.textfield("提示");

    assert_eq!(ui.get_components().len(), 3);

    let components = ui.get_components();
    match &components[0].component {
        ComponentType::Text { .. } => {}
        _ => panic!("Expected Text component at index 0"),
    }
    match &components[1].component {
        ComponentType::Button { .. } => {}
        _ => panic!("Expected Button component at index 1"),
    }
    match &components[2].component {
        ComponentType::TextField { .. } => {}
        _ => panic!("Expected TextField component at index 2"),
    }
}

#[test]
fn fresh_component_ids_carry_kind_prefix() {
    let mut ui = PluginUi::new();
    let button_ref = ui.button("go", None, true);
    assert!(button_ref.id.starts_with("btn_"));
    // the uuid tail of an id is 36 characters long
    assert_eq!(button_ref.id.len(), "btn_".len() + 36);
    let text_ref = ui.text("hello");
    assert!(text_ref.id.starts_with("text_"));
    assert_ne!(button_ref.id, text_ref.id);
}

#[test]
fn handle_event_reports_registered_actions() {
    let mut ui = PluginUi::new();
    let button_ref = ui.button("go", None, true);
    let text_ref = ui.text("hello");
    assert!(ui.handle_event(&button_ref.id, ""));
    assert!(!ui.handle_event(&text_ref.id, ""));
    ui.clear_components();
    assert_eq!(ui.get_components().len(), 0);
    assert!(!ui.handle_event(&button_ref.id, ""));
}

#[test]
fn container_child_operations() {
    let mut ui = PluginUi::new();
    let container = ui.horizontal_container();
    assert_eq!(container.child_count(&ui), 0);
    let text_ref = ui.text("inside");
    // move the text into the container, as the builders do
    let child = ui.components.pop().unwrap();
    assert!(container.add_child(&mut ui, child));
    assert_eq!(container.child_count(&ui), 1);
    let _ = text_ref;
    assert!(!container.remove_child(&mut ui, 5));
    assert!(container.remove_child(&mut ui, 0));
    assert_eq!(container.child_count(&ui), 0);
    assert!(container.clear_children(&mut ui));
}

#[test]
fn update_counter_counts_successful_mutations() {
    let mut ui = PluginUi::new();
    assert_eq!(ui.update_count, 0);
    let text_ref = ui.text("first");
    // builders only append; they do not notify
    assert_eq!(ui.update_count, 0);
    assert!(text_ref.set_value(&mut ui, "second"));
    assert_eq!(ui.update_count, 1);
    let container = ui.horizontal_container();
    assert!(container.clear_children(&mut ui));
    assert_eq!(ui.update_count, 2);
    // a failing mutation does not notify
    let bogus = plugin_host::components::TextRef { id: "absent".to_string() };
    assert!(!bogus.set_value(&mut ui, "third"));
    assert_eq!(ui.update_count, 2);
}

#[test]
fn container_button_action_routes_by_its_id() {
    let mut ui = PluginUi::new();
    let _container = PluginUi::build_horizontal_container(&mut ui)
        .add_button(&mut ui, "go", None, true)
        .build();
    let child_id = match &ui.get_components()[0].component {
        ComponentType::Container { children, .. } => children[0].id.clone(),
        _ => panic!("expected the container"),
    };
    // the child button's own id is its registered action id
    assert!(ui.handle_event(&child_id, ""));
    // and the tree still holds exactly the one top-level container
    assert_eq!(ui.get_components().len(), 1);
}
