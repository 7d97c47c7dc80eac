use niri_tools::kdl_doc::{ConfigDoc, ConfigEntry, ConfigNode, ConfigValue, Number};
use niri_tools::style::{parse_style_hints, style_hints};

#[test]
fn parse_border_with_active_color() {
    let content = r##"
layout {
    border {
        width 2
        active-color "#ff0000"
    }
}
"##;
    let hints = parse_style_hints(content);
    assert_eq!(hints.accent_color.as_deref(), Some("#ff0000"));
    assert_eq!(hints.border_width, Some(Number::Int(2)));
}

#[test]
fn parse_border_with_gradient() {
    let content = r##"
layout {
    border {
        width 1
        active-gradient from="#9074ff" to="#6627ff" angle=45
    }
}
"##;
    let hints = parse_style_hints(content);
    assert_eq!(hints.accent_color.as_deref(), Some("#9074ff"));
    assert_eq!(hints.border_width, Some(Number::Int(1)));
}

#[test]
fn parse_focus_ring_fallback() {
    let content = r##"
layout {
    focus-ring {
        width 3
        active-color "#00ff00"
    }
}
"##;
    let hints = parse_style_hints(content);
    assert_eq!(hints.accent_color.as_deref(), Some("#00ff00"));
    assert_eq!(hints.border_width, Some(Number::Int(3)));
}

#[test]
fn parse_empty_config() {
    let hints = parse_style_hints("");
    assert!(hints.accent_color.is_none());
    assert!(hints.border_width.is_none());
}

#[test]
fn parse_no_layout() {
    let content = r#"input { keyboard { numlock; } }"#;
    let hints = parse_style_hints(content);
    assert!(hints.accent_color.is_none());
    assert!(hints.border_width.is_none());
}

#[test]
fn style_hints_decimal_width_and_mixed_blocks() {
    let hints = parse_style_hints(
        "layout { border { width 1.5; }; focus-ring { width 4; active-color \"#123456\"; } }",
    );
    // the border's width wins; the colour comes from the focus ring
    assert_eq!(hints.border_width, Some(Number::Float("1.5".to_string())));
    assert_eq!(hints.accent_color.as_deref(), Some("#123456"));
}

#[test]
fn style_hints_unparsable_text_gives_nothing() {
    let hints = parse_style_hints("layout {");
    assert!(hints.accent_color.is_none());
    assert!(hints.border_width.is_none());
}

#[test]
fn style_hints_from_a_built_document() {
    let node = |name: &str, entries: Vec<ConfigEntry>, children: Option<ConfigDoc>| ConfigNode {
        name: name.to_string(),
        entries,
        children,
    };
    let arg = |v: ConfigValue| ConfigEntry { name: None, value: v };
    let border = node(
        "border",
        vec![],
        Some(ConfigDoc {
            nodes: vec![
                node("width", vec![arg(ConfigValue::Str("wide".to_string()))], None),
                node(
                    "active-gradient",
                    vec![
                        ConfigEntry { name: Some("from".to_string()), value: ConfigValue::Str("#111111".to_string()) },
                        ConfigEntry { name: Some("from".to_string()), value: ConfigValue::Str("#222222".to_string()) },
                    ],
                    None,
                ),
            ],
        }),
    );
    let doc = ConfigDoc { nodes: vec![node("layout", vec![], Some(ConfigDoc { nodes: vec![border] }))] };
    let hints = style_hints(&doc);
    // a string width is no width; the last `from` property counts
    assert_eq!(hints.border_width, None);
    assert_eq!(hints.accent_color.as_deref(), Some("#222222"));
}
