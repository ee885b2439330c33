use ddoc::page::Page;
use ddoc::page_list::{ListItem, PageList};
use ddoc::page_path::PagePath;

fn leaf(title: &str, stem: &str) -> (String, ListItem) {
    (
        title.to_string(),
        ListItem::Page(PagePath {
            dir: Vec::new(),
            stem: stem.to_string(),
        }),
    )
}

fn stem_path(stem: &str) -> PagePath {
    PagePath {
        dir: Vec::new(),
        stem: stem.to_string(),
    }
}

#[test]
fn first_page_path_finds_leftmost_leaf() {
    let tree = PageList {
        items: vec![
            (
                "Intro".to_string(),
                ListItem::List(PageList { items: Vec::new() }),
            ),
            leaf("Home", "index"),
            leaf("Guide", "guide"),
        ],
    };
    assert_eq!(tree.first_page_path(), Some(stem_path("index")));
    let empty = PageList { items: Vec::new() };
    assert_eq!(empty.first_page_path(), None);
}

#[test]
fn previous_and_next_follow_insertion_order() {
    let tree = PageList {
        items: vec![leaf("Home", "index"), leaf("Guide", "guide"), leaf("End", "end")],
    };
    assert_eq!(tree.previous(&stem_path("index")), None);
    assert_eq!(tree.previous(&stem_path("guide")), Some(stem_path("index")));
    assert_eq!(tree.next(&stem_path("guide")), Some(stem_path("end")));
    assert_eq!(tree.next(&stem_path("end")), None);
    assert_eq!(tree.next(&stem_path("absent")), None);
}

#[test]
fn next_and_previous_agree() {
    // whenever next(a) == b, previous(b) == a
    let tree = PageList {
        items: vec![
            leaf("Home", "index"),
            (
                "Sub".to_string(),
                ListItem::List(PageList {
                    items: vec![leaf("A", "a"), leaf("Home again", "index"), leaf("B", "b")],
                }),
            ),
        ],
    };
    let a = stem_path("a");
    let b = tree.next(&a).expect("a has a successor");
    assert_eq!(tree.previous(&b), Some(a));
}

#[test]
fn add_pages_registers_each_path_once() {
    let tree = PageList {
        items: vec![
            leaf("Home", "index"),
            leaf("Guide", "guide"),
            // a second reference to the same page: the first registration wins
            leaf("Also home", "index"),
        ],
    };
    let mut pages: Vec<Page> = Vec::new();
    tree.add_pages(&mut pages, "/r/src");
    assert_eq!(pages.len(), 2);
    assert_eq!(pages[0].title, "Home");
    assert_eq!(pages[0].md_file_path, "/r/src/index.md");
    assert_eq!(pages[1].title, "Guide");
}

#[test]
fn nav_markup_marks_the_hosting_page() {
    let tree = PageList {
        items: vec![leaf("Home", "index"), leaf("Guide", "guide")],
    };
    let mut html = String::new();
    let menu = ddoc::menu::Menu {
        hamburger_checkbox: false,
    };
    tree.push_nav(&mut html, &Vec::new(), &menu, &stem_path("guide"));
    assert!(html.contains("<li class=\"nav-item selected\"><a href=\"../guide/\">Guide</a>"));
    assert!(html.contains("<li class=\"nav-item not-selected\"><a href=\"../\">Home</a>"));
    assert!(!html.contains("nav-toggle"));
    let mut with_toggle = String::new();
    let menu_on = ddoc::menu::Menu {
        hamburger_checkbox: true,
    };
    tree.push_nav(&mut with_toggle, &Vec::new(), &menu_on, &stem_path("guide"));
    assert!(with_toggle.contains("nav-toggle"));
}
