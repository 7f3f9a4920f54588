use magento_static_deploy::theme::{
    detect_theme_type, is_hyva_theme, parse_theme_xml, resolve_parent_chain, Area, LocaleCode,
    Theme, ThemeCode, ThemeType,
};
use magento_static_deploy::xml::{parent_from_events, read_events, XmlEvent};

fn theme(vendor: &str, name: &str, area: Area, path: &str, parent: Option<&str>) -> Theme {
    Theme {
        vendor: vendor.to_string(),
        name: name.to_string(),
        area,
        path: path.to_string(),
        parent: parent.map(|p| ThemeCode::parse(p).unwrap()),
        theme_type: ThemeType::Hyva,
    }
}

#[test]
fn test_theme_code_new() {
    let code = ThemeCode::new("Hyva", "default");
    assert_eq!(code.as_str(), "Hyva/default");
    assert_eq!(code.vendor(), "Hyva");
    assert_eq!(code.name(), "default");
}

#[test]
fn test_theme_code_parse_valid() {
    let parsed = ThemeCode::parse("Magento/blank");
    assert!(parsed.is_some());
    let code = parsed.unwrap();
    assert_eq!(code.vendor(), "Magento");
    assert_eq!(code.name(), "blank");
}

#[test]
fn test_theme_code_parse_invalid() {
    assert!(ThemeCode::parse("invalid").is_none());
    assert!(ThemeCode::parse("too/many/slashes").is_none());
    assert!(ThemeCode::parse("").is_none());
}

#[test]
fn test_theme_code_display() {
    let code = ThemeCode::new("Hyva", "reset");
    assert_eq!(code.to_string(), "Hyva/reset");
}

#[test]
fn test_theme_code_from_str() {
    let code: ThemeCode = "Magento/luma".into();
    assert_eq!(code.as_str(), "Magento/luma");
}

#[test]
fn test_theme_code_equality() {
    let code1 = ThemeCode::new("Hyva", "default");
    let code2 = ThemeCode::parse("Hyva/default").unwrap();
    assert_eq!(code1, code2);
}

#[test]
fn test_locale_code_new() {
    let locale = LocaleCode::new("en_US");
    assert_eq!(locale.as_str(), "en_US");
}

#[test]
fn test_locale_code_validated_success() {
    let result = LocaleCode::validated("en_US");
    assert!(result.is_ok());
    assert_eq!(result.unwrap().as_str(), "en_US");

    let result = LocaleCode::validated("nl_NL");
    assert!(result.is_ok());

    let result = LocaleCode::validated("de_DE");
    assert!(result.is_ok());
}

#[test]
fn test_locale_code_validated_failure() {
    assert!(LocaleCode::validated("english").is_err());
    assert!(LocaleCode::validated("en").is_err());
    assert!(LocaleCode::validated("").is_err());

    assert!(LocaleCode::validated("EN_US").is_err());
    assert!(LocaleCode::validated("en_us").is_err());
    assert!(LocaleCode::validated("enUS_").is_err());
}

#[test]
fn test_locale_code_is_valid_format() {
    assert!(LocaleCode::new("en_US").is_valid_format());
    assert!(LocaleCode::new("nl_NL").is_valid_format());
    assert!(!LocaleCode::new("invalid").is_valid_format());
    assert!(!LocaleCode::new("EN_US").is_valid_format());
}

#[test]
fn test_locale_code_display() {
    let locale = LocaleCode::new("de_DE");
    assert_eq!(locale.to_string(), "de_DE");
}

#[test]
fn test_locale_code_from_str() {
    let locale: LocaleCode = "fr_FR".into();
    assert_eq!(locale.as_str(), "fr_FR");
}

#[test]
fn test_locale_code_from_string() {
    let locale: LocaleCode = String::from("it_IT").into();
    assert_eq!(locale.as_str(), "it_IT");
}

#[test]
fn test_area_as_str() {
    assert_eq!(Area::Frontend.as_str(), "frontend");
    assert_eq!(Area::Adminhtml.as_str(), "adminhtml");
}

#[test]
fn test_area_parse() {
    assert_eq!(Area::parse("frontend"), Some(Area::Frontend));
    assert_eq!(Area::parse("adminhtml"), Some(Area::Adminhtml));
    assert_eq!(Area::parse("invalid"), None);
    assert_eq!(Area::parse(""), None);
}

#[test]
fn test_theme_code_method() {
    let theme = Theme {
        vendor: "Hyva".to_string(),
        name: "default".to_string(),
        area: Area::Frontend,
        path: "/app/design/frontend/Hyva/default".to_string(),
        parent: None,
        theme_type: ThemeType::Hyva,
    };
    assert_eq!(theme.code().as_str(), "Hyva/default");
}

#[test]
fn test_theme_full_name() {
    let theme = Theme {
        vendor: "Magento".to_string(),
        name: "blank".to_string(),
        area: Area::Frontend,
        path: "/app/design/frontend/Magento/blank".to_string(),
        parent: None,
        theme_type: ThemeType::Luma,
    };
    assert_eq!(theme.full_name(), "Magento/blank");
}

#[test]
fn test_parse_theme_xml_with_parent() {
    let xml = r#"<?xml version="1.0"?>
<theme xmlns:xsi="http://www.w3.org/2001/XMLSchema-instance">
    <title>My Theme</title>
    <parent>Hyva/reset</parent>
</theme>"#;

    let result = parse_theme_xml(xml);
    assert!(result.is_some());
    assert_eq!(result.unwrap().as_str(), "Hyva/reset");
}

#[test]
fn test_parse_theme_xml_no_parent() {
    let xml = r#"<?xml version="1.0"?>
<theme xmlns:xsi="http://www.w3.org/2001/XMLSchema-instance">
    <title>Root Theme</title>
</theme>"#;

    let result = parse_theme_xml(xml);
    assert!(result.is_none());
}

#[test]
fn test_parse_theme_xml_empty_parent() {
    let xml = r#"<theme><parent></parent></theme>"#;
    let result = parse_theme_xml(xml);
    assert!(result.is_none());
}

#[test]
fn test_parse_theme_xml_malformed() {
    let xml = "not xml at all";
    let result = parse_theme_xml(xml);
    assert!(result.is_none());
}

#[test]
fn test_is_hyva_theme_by_content() {
    let xml_with_hyva = "<module name=\"Hyva_Theme\"/>";
    assert!(is_hyva_theme(xml_with_hyva, &[]));
}

#[test]
fn test_is_hyva_theme_by_parent() {
    let xml_without = "<theme/>";
    assert!(is_hyva_theme(xml_without, &["Hyva/reset".to_string()]));
    assert!(is_hyva_theme(xml_without, &["Hyva/default".to_string()]));
}

#[test]
fn test_is_not_hyva_theme() {
    let xml = "<theme/>";
    assert!(!is_hyva_theme(xml, &[]));
    assert!(!is_hyva_theme(xml, &["Magento/blank".to_string()]));
}

#[test]
fn test_detect_theme_type_hyva() {
    let xml = "<module name=\"Hyva_Theme\"/>";
    assert_eq!(detect_theme_type(xml, &[]), ThemeType::Hyva);
}

#[test]
fn test_detect_theme_type_luma() {
    let xml = "<theme/>";
    assert_eq!(detect_theme_type(xml, &[]), ThemeType::Luma);
}

#[test]
fn test_resolve_parent_chain_no_parent() {
    let theme = Theme {
        vendor: "Hyva".to_string(),
        name: "reset".to_string(),
        area: Area::Frontend,
        path: "/theme".to_string(),
        parent: None,
        theme_type: ThemeType::Hyva,
    };

    let chain = resolve_parent_chain(&theme, &[]);
    assert!(chain.is_empty());
}

#[test]
fn test_resolve_parent_chain_with_parent() {
    let parent_theme = Theme {
        vendor: "Hyva".to_string(),
        name: "reset".to_string(),
        area: Area::Frontend,
        path: "/parent".to_string(),
        parent: None,
        theme_type: ThemeType::Hyva,
    };

    let child_theme = Theme {
        vendor: "Custom".to_string(),
        name: "child".to_string(),
        area: Area::Frontend,
        path: "/child".to_string(),
        parent: Some(ThemeCode::parse("Hyva/reset").unwrap()),
        theme_type: ThemeType::Hyva,
    };

    let all_themes = vec![parent_theme];
    let chain = resolve_parent_chain(&child_theme, &all_themes);

    assert_eq!(chain.len(), 1);
    assert_eq!(chain[0].full_name(), "Hyva/reset");
}

#[test]
fn test_resolve_parent_chain_missing_parent() {
    let theme = Theme {
        vendor: "Custom".to_string(),
        name: "orphan".to_string(),
        area: Area::Frontend,
        path: "/orphan".to_string(),
        parent: Some(ThemeCode::parse("Missing/parent").unwrap()),
        theme_type: ThemeType::Hyva,
    };

    let chain = resolve_parent_chain(&theme, &[]);
    assert!(chain.is_empty());
}

#[test]
fn test_resolve_parent_chain_different_area() {
    let parent_theme = Theme {
        vendor: "Hyva".to_string(),
        name: "reset".to_string(),
        area: Area::Adminhtml,
        path: "/parent".to_string(),
        parent: None,
        theme_type: ThemeType::Hyva,
    };

    let child_theme = Theme {
        vendor: "Custom".to_string(),
        name: "child".to_string(),
        area: Area::Frontend,
        path: "/child".to_string(),
        parent: Some(ThemeCode::parse("Hyva/reset").unwrap()),
        theme_type: ThemeType::Hyva,
    };

    let all_themes = vec![parent_theme];
    let chain = resolve_parent_chain(&child_theme, &all_themes);

    assert!(chain.is_empty());
}

#[test]
fn theme_code_parse_rejects_empty_parts() {
    assert!(ThemeCode::parse("/name").is_none());
    assert!(ThemeCode::parse("Vendor/").is_none());
    assert!(ThemeCode::parse("/").is_none());
    assert!(ThemeCode::parse("A/b").is_some());
}

#[test]
fn theme_code_parts_without_slash() {
    let code = ThemeCode::from("plain");
    assert_eq!(code.vendor(), "plain");
    assert_eq!(code.name(), "");
    let code = ThemeCode::from("a/b/c");
    assert_eq!(code.vendor(), "a");
    assert_eq!(code.name(), "b");
}

#[test]
fn locale_validation_message_names_the_input() {
    let err = LocaleCode::validated("xx-YY").unwrap_err();
    assert_eq!(err, "invalid locale format 'xx-YY': expected xx_YY (e.g., en_US)");
    assert!(LocaleCode::validated("aa_BB").is_ok());
    assert!(LocaleCode::validated("a1_BB").is_err());
    assert!(LocaleCode::validated("aa_B1").is_err());
    assert!(LocaleCode::validated("ab_CDE").is_err());
}

#[test]
fn area_parse_is_case_sensitive() {
    assert_eq!(Area::parse("Frontend"), None);
    assert_eq!(Area::parse("ADMINHTML"), None);
    assert_eq!(Area::parse("frontend "), None);
}

#[test]
fn parse_theme_xml_trims_unicode_whitespace() {
    let xml = "<theme><parent>\u{a0} Hyva/reset\u{3000}\n</parent></theme>";
    assert_eq!(parse_theme_xml(xml).unwrap().as_str(), "Hyva/reset");
}

#[test]
fn parse_theme_xml_rejects_malformed_code() {
    assert!(parse_theme_xml("<theme><parent>Hyva</parent></theme>").is_none());
    assert!(parse_theme_xml("<theme><parent>a/b/c</parent></theme>").is_none());
    assert!(parse_theme_xml("<theme><parent/><title>Hyva/reset</title></theme>").is_none());
}

#[test]
fn parse_theme_xml_unescapes_text() {
    let xml = "<theme><parent>Ven&amp;dor/name</parent></theme>";
    assert_eq!(parse_theme_xml(xml).unwrap().as_str(), "Ven&dor/name");
}

#[test]
fn read_events_converts_reader_events() {
    let events = read_events("<a name=\"n\" x=\"1\">t</a><b/>");
    assert_eq!(events.len(), 5);
    match &events[0] {
        XmlEvent::Element { name, attributes, self_closing } => {
            assert_eq!(name, b"a");
            assert_eq!(
                attributes,
                &vec![(b"name".to_vec(), Some("n".to_string())), (b"x".to_vec(), Some("1".to_string()))]
            );
            assert!(!self_closing);
        }
        other => panic!("unexpected {:?}", other),
    }
    match &events[1] {
        XmlEvent::Text { content } => assert_eq!(content, &Some("t".to_string())),
        other => panic!("unexpected {:?}", other),
    }
    match &events[2] {
        XmlEvent::End { name } => assert_eq!(name, b"a"),
        other => panic!("unexpected {:?}", other),
    }
    match &events[3] {
        XmlEvent::Element { name, attributes, self_closing } => {
            assert_eq!(name, b"b");
            assert!(attributes.is_empty());
            assert!(self_closing);
        }
        other => panic!("unexpected {:?}", other),
    }
    assert!(matches!(events[4], XmlEvent::Eof));
}

#[test]
fn read_events_stops_at_error() {
    let events = read_events("<a></b>");
    assert!(matches!(events.last(), Some(XmlEvent::Malformed)));
}

fn open(tag: &str) -> XmlEvent {
    XmlEvent::Element { name: tag.as_bytes().to_vec(), attributes: vec![], self_closing: false }
}

fn close(tag: &str) -> XmlEvent {
    XmlEvent::End { name: tag.as_bytes().to_vec() }
}

#[test]
fn parent_from_events_takes_first_text_in_parent() {
    let events = vec![
        XmlEvent::Text { content: Some("Outside/text".to_string()) },
        open("parent"),
        XmlEvent::Text { content: Some(" Hyva/reset ".to_string()) },
        close("parent"),
        XmlEvent::Eof,
    ];
    assert_eq!(parent_from_events(&events).unwrap().as_str(), "Hyva/reset");

    let closed = vec![
        open("parent"),
        close("parent"),
        XmlEvent::Text { content: Some("Hyva/reset".to_string()) },
        XmlEvent::Eof,
    ];
    assert!(parent_from_events(&closed).is_none());

    let unreadable = vec![
        open("parent"),
        XmlEvent::Text { content: None },
        XmlEvent::Text { content: Some("Hyva/reset".to_string()) },
    ];
    assert!(parent_from_events(&unreadable).is_none());

    let errored = vec![
        XmlEvent::Malformed,
        open("parent"),
        XmlEvent::Text { content: Some("Hyva/reset".to_string()) },
    ];
    assert!(parent_from_events(&errored).is_none());

    let malformed_later = vec![
        open("parent"),
        XmlEvent::Text { content: Some("Hyva/reset".to_string()) },
        XmlEvent::Malformed,
    ];
    assert!(parent_from_events(&malformed_later).is_none());
}

#[test]
fn parse_theme_xml_malformed_after_parent_declares_none() {
    assert!(parse_theme_xml("<theme><parent>Hyva/reset</parent></oops>").is_none());
    assert!(parse_theme_xml("<theme><parent>A/b</theme>").is_none());
    assert_eq!(parse_theme_xml("<theme><parent>A/b</parent></theme>").unwrap().as_str(), "A/b");
}

#[test]
fn is_hyva_theme_needs_exact_prefix() {
    assert!(!is_hyva_theme("<theme/>", &["hyva/reset".to_string()]));
    assert!(!is_hyva_theme("<theme/>", &["Hyva".to_string()]));
    assert!(is_hyva_theme("<theme/>", &["Magento/blank".to_string(), "Hyva/x".to_string()]));
    assert!(is_hyva_theme("<x>Hyva_Theme_Extra</x>", &[]));
    assert!(!is_hyva_theme("<x>Hyva_Them</x>", &[]));
}

#[test]
fn resolve_parent_chain_three_levels() {
    let child = theme("C", "child", Area::Frontend, "/c", Some("B/mid"));
    let all = vec![
        theme("A", "root", Area::Frontend, "/a", None),
        theme("B", "mid", Area::Adminhtml, "/b-admin", Some("X/none")),
        theme("B", "mid", Area::Frontend, "/b", Some("A/root")),
    ];
    let chain = resolve_parent_chain(&child, &all);
    assert_eq!(chain.len(), 2);
    assert_eq!(chain[0].path, "/b");
    assert_eq!(chain[1].path, "/a");
}

#[test]
fn resolve_parent_chain_cycle_is_bounded() {
    let a = theme("A", "one", Area::Frontend, "/a", Some("B/two"));
    let all = vec![a.clone(), theme("B", "two", Area::Frontend, "/b", Some("A/one"))];
    let chain = resolve_parent_chain(&a, &all);
    assert_eq!(chain.len(), 2);
    assert_eq!(chain[0].path, "/b");
    assert_eq!(chain[1].path, "/a");
}
