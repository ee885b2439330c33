use ddoc::attribute::{AttributeValue, Attributes};
use ddoc::composite_element::{build_element, CompositeElement, ElementPayload};
use ddoc::element::ElementContent;
use ddoc::element_key::{ElementKey, ElementType};
use ddoc::error::DdError;
use ddoc::text::Text;

fn attrs(entries: &[(&str, &str)]) -> Attributes {
    Attributes {
        entries: entries
            .iter()
            .map(|(k, v)| (k.to_string(), AttributeValue::String(v.to_string())))
            .collect(),
    }
}

#[test]
fn element_key_parses_pseudo_tags_and_classes() {
    let key = ElementKey::parse("ddoc-link.home-link.external");
    assert!(matches!(key.etype, ElementType::Link));
    assert_eq!(key.classes, vec!["home-link".to_string(), "external".to_string()]);
    let html = ElementKey::parse("nav.before-menu");
    match html.etype {
        ElementType::HtmlTag(tag) => assert_eq!(tag, "nav"),
        other => panic!("expected an html tag, got {:?}", other),
    }
}

#[test]
fn nav_link_reads_attribute_aliases() {
    let link = ddoc::nav_link::NavLink::from_attributes(&attrs(&[
        ("img", "img/logo.svg"),
        ("alt", "logo"),
        ("url", "/index.md"),
        ("label", "home"),
    ]));
    assert_eq!(link.href.as_deref(), Some("/index.md"));
    assert_eq!(link.content.len(), 2);
    match &link.content[0] {
        ddoc::nav_link::NavLinkPart::Img { src, alt } => {
            assert_eq!(src, "img/logo.svg");
            assert_eq!(alt.as_deref(), Some("logo"));
        }
        other => panic!("expected an image part, got {:?}", other),
    }
    match &link.content[1] {
        ddoc::nav_link::NavLinkPart::Label(Text::String(s)) => assert_eq!(s, "home"),
        other => panic!("expected a label part, got {:?}", other),
    }
}

#[test]
fn text_recognizes_placeholders() {
    assert!(matches!(
        Text::from_cow("--previous-page-title"),
        Text::PreviousPageTitle
    ));
    match Text::from_cow("plain") {
        Text::String(s) => assert_eq!(s, "plain"),
        other => panic!("expected a literal, got {:?}", other),
    }
    assert_eq!(Text::NextPageTitle.as_str(), "--next-page-title");
}

#[test]
fn build_element_rejects_mismatched_payloads() {
    let key = ElementKey::parse("div");
    let r = build_element(
        key,
        ElementPayload::Attributes(attrs(&[("href", "x")])),
        &mut Vec::new(),
    );
    assert!(matches!(r, Err(DdError::InvalidElement { .. })));
    let link_key = ElementKey::parse("ddoc-link");
    let r2 = build_element(
        link_key,
        ElementPayload::Composite(CompositeElement { children: Vec::new() }),
        &mut Vec::new(),
    );
    assert!(matches!(r2, Err(DdError::InvalidElement { .. })));
}

#[test]
fn build_element_accepts_matching_payloads() {
    let menu_key = ElementKey::parse("ddoc-menu");
    let menu_attrs = Attributes {
        entries: vec![(
            "hamburger_checkbox".to_string(),
            AttributeValue::Bool(false),
        )],
    };
    let menu = build_element(
        menu_key,
        ElementPayload::Attributes(menu_attrs),
        &mut Vec::new(),
    )
    .unwrap();
    match menu.content {
        ElementContent::Menu(m) => assert!(!m.hamburger_checkbox),
        other => panic!("expected a menu, got {:?}", other),
    }
    let toc_key = ElementKey::parse("ddoc-toc");
    let toc = build_element(
        toc_key,
        ElementPayload::Composite(CompositeElement { children: Vec::new() }),
        &mut Vec::new(),
    )
    .unwrap();
    assert!(toc.is_toc());
}

#[test]
fn composite_queries_see_nested_links() {
    let key = ElementKey::parse("header");
    let link = build_element(
        ElementKey::parse("ddoc-link"),
        ElementPayload::Attributes(attrs(&[("href", "--search")])),
        &mut Vec::new(),
    )
    .unwrap();
    let header = build_element(
        key,
        ElementPayload::Composite(CompositeElement { children: vec![link] }),
        &mut Vec::new(),
    )
    .unwrap();
    let body = CompositeElement { children: vec![header] };
    assert!(body.has_href("--search"));
    assert!(!body.has_href("--previous"));
}

#[test]
fn escape_functions_rewrite_special_characters() {
    assert_eq!(ddoc::html::escape_text("<a & b>"), "&lt;a &amp; b&gt;");
    assert_eq!(ddoc::html::escape_attr("say \"hi\""), "say &quot;hi&quot;");
    assert_eq!(ddoc::init::escape_hjson_string("a\"b\\c"), "\"a\\\"b\\\\c\"");
    // control characters take escapes too, so the quoted text reads back
    assert_eq!(
        ddoc::init::escape_hjson_string("a\u{1}b\nc"),
        "\"a\\u0001b\\nc\""
    );
}

#[test]
fn old_nav_link_converts_to_parts() {
    let old = ddoc::old_nav_link::OldNavLink {
        img: Some("img/x.svg".to_string()),
        inline: None,
        label: Some(Text::from_cow("ddoc")),
        alt: Some("x".to_string()),
        href: Some("https://example.org".to_string()),
        class: Some("home".to_string()),
        target: None,
    };
    let link = old.to_nav_link();
    assert_eq!(link.href.as_deref(), Some("https://example.org"));
    assert_eq!(link.content.len(), 2);
    assert_eq!(old.classes(), vec!["home".to_string()]);
}

#[test]
fn unknown_link_attributes_earn_warnings() {
    let mut warnings = Vec::new();
    let link = build_element(
        ElementKey::parse("ddoc-link"),
        ElementPayload::Attributes(attrs(&[
            ("href", "/index.md"),
            ("tooltip", "home"),
            ("label", "home"),
        ])),
        &mut warnings,
    )
    .unwrap();
    // the unrecognized key is named once and otherwise ignored
    assert_eq!(warnings, vec!["unknown link attribute: tooltip".to_string()]);
    assert!(link.is_link());
}

