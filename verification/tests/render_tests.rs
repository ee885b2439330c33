use ddoc::attribute::{AttributeValue, Attributes};
use ddoc::composite_element::{build_element, CompositeElement, ElementPayload};
use ddoc::config::Config;
use ddoc::element::Element;
use ddoc::element_key::ElementKey;
use ddoc::nav_component::{NavComponents, NavDir, UiOptions};
use ddoc::page_list::{ListItem, PageList};
use ddoc::page_path::PagePath;
use ddoc::page_writer::PageWriter;
use ddoc::project::Project;
use ddoc::statics::StaticEntry;

fn stem_path(stem: &str) -> PagePath {
    PagePath {
        dir: Vec::new(),
        stem: stem.to_string(),
    }
}

fn leaf(title: &str, stem: &str) -> (String, ListItem) {
    (title.to_string(), ListItem::Page(stem_path(stem)))
}

fn element(key: &str, payload: ElementPayload) -> Element {
    build_element(ElementKey::parse(key), payload, &mut Vec::new()).unwrap()
}

fn empty_composite() -> ElementPayload {
    ElementPayload::Composite(CompositeElement {
        children: Vec::new(),
    })
}

fn one_attr(key: &str, value: &str) -> ElementPayload {
    ElementPayload::Attributes(Attributes {
        entries: vec![(key.to_string(), AttributeValue::String(value.to_string()))],
    })
}

fn body_with_link(href: Option<&str>) -> CompositeElement {
    let mut children = Vec::new();
    if let Some(href) = href {
        children.push(element("ddoc-link.search-opener", one_attr("href", href)));
    }
    children.push(element("ddoc-main", empty_composite()));
    CompositeElement { children }
}

fn project_with_body(body: CompositeElement) -> Project {
    let config = Config {
        title: "Site".to_string(),
        description: Some("a small site".to_string()),
        site_map: PageList {
            items: vec![leaf("Home", "index"), leaf("Guide", "guide")],
        },
        favicon: None,
        old: NavComponents {
            header: NavDir { components: Vec::new() },
            footer: NavDir { components: Vec::new() },
            ui: UiOptions {
                hamburger_checkbox: true,
            },
        },
        body,
    };
    let mut project = Project::from_config(
        "/r".to_string(),
        config,
        "/r/ddoc.hjson".to_string(),
    );
    project.js_entries = vec![StaticEntry {
        filename: "site.js".to_string(),
        mtime: 17,
    }];
    project.css_entries = vec![StaticEntry {
        filename: "site.css".to_string(),
        mtime: 4,
    }];
    project
}

fn render(project: &Project, stem: &str, md: &str) -> (String, Vec<String>) {
    let mut warnings = Vec::new();
    let page = project
        .pages
        .iter()
        .find(|p| p.page_path == stem_path(stem))
        .expect("page is tracked");
    let writer = PageWriter::new(page, project, md, &mut warnings);
    let mut html = String::new();
    writer.write_html(&mut html, &mut warnings);
    (html, warnings)
}

#[test]
fn rendering_twice_gives_identical_bytes() {
    // rendering the same sources twice produces byte-identical output
    let project = project_with_body(body_with_link(Some("--search")));
    let md = "# Title\n\nSome *text* with a [link](guide.md).\n";
    let (first, w1) = render(&project, "index", md);
    let (second, w2) = render(&project, "index", md);
    assert_eq!(first, second);
    assert_eq!(w1, w2);
}

#[test]
fn search_link_injects_the_search_script_everywhere() {
    // with one link element pointing at the search opener, every
    // rendered page's head carries the search script
    let with = project_with_body(body_with_link(Some("--search")));
    let (home, _) = render(&with, "index", "hello\n");
    let (guide, _) = render(&with, "guide", "hello\n");
    assert!(home.contains("js/ddoc-search.js"));
    assert!(guide.contains("../js/ddoc-search.js"));
    // without it, no page carries the script
    let without = project_with_body(body_with_link(None));
    let (home2, _) = render(&without, "index", "hello\n");
    assert!(!home2.contains("ddoc-search.js"));
}

#[test]
fn previous_link_renders_to_neighbour_href() {
    // guide.md holds a link to --previous: the rendered page links back
    // to the home page, with the same URL the path algebra gives
    let project = project_with_body(body_with_link(None));
    let md = "[back](--previous)\n";
    let (html, warnings) = render(&project, "guide", md);
    let expected = stem_path("guide").link_to(&stem_path("index"));
    assert_eq!(expected, "../");
    assert!(html.contains("<a href=\"../\">back</a>"));
    assert!(warnings.is_empty());
    // on the first page the token stays as written
    let (first, _) = render(&project, "index", md);
    assert!(first.contains("--previous"));
}

#[test]
fn broken_markdown_link_warns_once_but_renders() {
    let project = project_with_body(body_with_link(None));
    let (html, warnings) = render(&project, "index", "[gone](missing.md)\n");
    assert!(html.contains("<a href=\"missing\">gone</a>"));
    assert_eq!(warnings.len(), 1);
}

#[test]
fn headings_get_slug_ids_and_a_toc() {
    let body = CompositeElement {
        children: vec![
            element("ddoc-toc", empty_composite()),
            element("ddoc-main", empty_composite()),
        ],
    };
    let project = project_with_body(body);
    let md = "# Getting Started!\n\ntext\n\n# Getting Started!\n";
    let (html, _) = render(&project, "index", md);
    assert!(html.contains("<h1 id=\"getting-started\">"));
    // the second identical heading is disambiguated in order
    assert!(html.contains("<h1 id=\"getting-started-2\">"));
    assert!(html.contains("<li class=\"toc-item h1\"><a href=#getting-started>Getting Started!</a></li>"));
}

#[test]
fn slugs_keep_letters_and_digits_only() {
    assert_eq!(ddoc::markdown::slugify("Getting Started!"), "getting-started");
    assert_eq!(ddoc::markdown::slugify("A+B 2"), "ab-2");
}

#[test]
fn head_carries_assets_and_metadata() {
    let project = project_with_body(body_with_link(None));
    let (html, _) = render(&project, "guide", "hello\n");
    assert!(html.contains("<title>Guide - Site</title>"));
    assert!(html.contains("<meta name=\"description\" content=\"a small site\">"));
    assert!(html.contains("<script src=\"../js/site.js?m=17\"></script>"));
    assert!(html.contains("<link href=\"../css/site.css?m=4\" rel=stylesheet>"));
    assert!(html.contains("<body class=\"page-guide\">"));
}

#[test]
fn menu_element_renders_the_site_nav() {
    let body = CompositeElement {
        children: vec![
            element("ddoc-menu", empty_composite()),
            element("ddoc-main", empty_composite()),
        ],
    };
    let project = project_with_body(body);
    let (html, _) = render(&project, "guide", "hello\n");
    assert!(html.contains("nav-item selected\"><a href=\"../guide/\">Guide</a>"));
}

#[test]
fn historical_configurations_get_a_generated_body() {
    let mut config = Config {
        title: "Site".to_string(),
        description: None,
        site_map: PageList {
            items: vec![leaf("Home", "index")],
        },
        favicon: None,
        old: NavComponents {
            header: NavDir {
                components: vec![(
                    "middle".to_string(),
                    ddoc::nav_component::NavComponent::Menu,
                )],
            },
            footer: NavDir { components: Vec::new() },
            ui: UiOptions {
                hamburger_checkbox: false,
            },
        },
        body: CompositeElement { children: Vec::new() },
    };
    config.fix_old();
    assert_eq!(config.body.children.len(), 2);
    assert!(config.body.children[0].is_html());
    let article = &config.body.children[1];
    match article.children() {
        Some(children) => {
            assert_eq!(children.len(), 2);
            assert!(children[0].is_html());
            assert!(children[1].is_main());
        }
        None => panic!("expected the article container"),
    }
}

#[test]
fn inline_images_embed_stripped_file_content() {
    let body = CompositeElement {
        children: vec![
            element("ddoc-link", one_attr("inline", "img/mark.svg")),
            element("ddoc-main", empty_composite()),
        ],
    };
    let mut project = project_with_body(body);
    project.inline_files = vec![(
        "img/mark.svg".to_string(),
        "<?xml version=\"1.0\"?>\n<svg><circle/></svg>".to_string(),
    )];
    let (html, _) = render(&project, "index", "hello\n");
    // the XML preamble is stripped, the drawing is embedded
    assert!(html.contains("<svg><circle/></svg>"));
    assert!(!html.contains("<?xml"));
}
