use ddoc::composite_element::CompositeElement;
use ddoc::config::Config;
use ddoc::nav_component::{NavComponents, NavDir, UiOptions};
use ddoc::page_list::{ListItem, PageList};
use ddoc::page_path::PagePath;
use ddoc::project::{Project, UpdateAction};
use ddoc::watcher::{classify_raw_event, FileChange, RawEventKind};

fn stem_path(stem: &str) -> PagePath {
    PagePath {
        dir: Vec::new(),
        stem: stem.to_string(),
    }
}

fn leaf(title: &str, stem: &str) -> (String, ListItem) {
    (title.to_string(), ListItem::Page(stem_path(stem)))
}

fn small_config(items: Vec<(String, ListItem)>, body: CompositeElement) -> Config {
    Config {
        title: "Site".to_string(),
        description: None,
        site_map: PageList { items },
        favicon: None,
        old: NavComponents {
            header: NavDir { components: Vec::new() },
            footer: NavDir { components: Vec::new() },
            ui: UiOptions {
                hamburger_checkbox: true,
            },
        },
        body,
    }
}

fn small_project() -> Project {
    let config = small_config(
        vec![leaf("Home", "index"), leaf("Guide", "guide")],
        CompositeElement { children: Vec::new() },
    );
    Project::from_config(
        "/r".to_string(),
        config,
        "/r/ddoc.hjson".to_string(),
    )
}

#[test]
fn project_load_derives_paths_and_pages() {
    let project = small_project();
    assert_eq!(project.src_path, "/r/src");
    assert_eq!(project.build_path, "/r/site");
    assert_eq!(project.pages.len(), 2);
    assert_eq!(project.pages[1].md_file_path, "/r/src/guide.md");
    assert_eq!(
        project.page_path_of("/r/src/guide.md"),
        Some(stem_path("guide"))
    );
    assert_eq!(project.page_path_of("/r/src/readme.md"), None);
}

#[test]
fn previous_token_resolves_to_neighbour_link() {
    // a site map {Home: index.md, Guide: guide.md}: from the guide page,
    // `--previous` resolves to the link back to the home page
    let project = small_project();
    let mut warnings = Vec::new();
    let r = project.maybe_rewrite_link_url("--previous", &stem_path("guide"), &mut warnings);
    assert_eq!(r, Some("../".to_string()));
    assert_eq!(stem_path("guide").link_to(&stem_path("index")), "../");
    // from the first page there is no previous page: no rewrite
    let r2 = project.maybe_rewrite_link_url("--previous", &stem_path("index"), &mut warnings);
    assert_eq!(r2, None);
    let r3 = project.maybe_rewrite_link_url("--next", &stem_path("index"), &mut warnings);
    assert_eq!(r3, Some("guide/".to_string()));
    assert!(warnings.is_empty());
}

#[test]
fn search_token_resolves_to_script_call() {
    let project = small_project();
    let mut warnings = Vec::new();
    let r = project.maybe_rewrite_link_url("--search", &stem_path("index"), &mut warnings);
    assert_eq!(r, Some("javascript:ddoc_search.open();".to_string()));
}

#[test]
fn absolute_links_are_rerooted() {
    let project = small_project();
    let mut warnings = Vec::new();
    let host = PagePath {
        dir: vec!["a".to_string()],
        stem: "b".to_string(),
    };
    let r = project.maybe_rewrite_link_url("/guide.md#setup", &host, &mut warnings);
    assert_eq!(r, Some("../../guide#setup".to_string()));
    // the guide page is tracked: no warning
    assert!(warnings.is_empty());
    let r2 = project.maybe_rewrite_link_url("/index.md", &host, &mut warnings);
    assert_eq!(r2, Some("../../".to_string()));
}

#[test]
fn relative_links_are_normalized() {
    let project = small_project();
    let mut warnings = Vec::new();
    let r = project.maybe_rewrite_link_url("guide.md", &stem_path("index"), &mut warnings);
    assert_eq!(r, Some("guide".to_string()));
    assert!(warnings.is_empty());
    // index stems are stripped from the emitted tail
    let r2 = project.maybe_rewrite_link_url("../index.md", &stem_path("guide"), &mut warnings);
    assert_eq!(r2, Some("../".to_string()));
}

#[test]
fn external_urls_pass_through() {
    let project = small_project();
    let mut warnings = Vec::new();
    for src in ["https://example.org", "mailto:x@example.org", "#anchor"] {
        let r = project.maybe_rewrite_link_url(src, &stem_path("index"), &mut warnings);
        assert_eq!(r, None);
        assert_eq!(project.link_url(src, &stem_path("index"), &mut warnings), src);
    }
    assert!(warnings.is_empty());
}

#[test]
fn broken_link_warns_exactly_once_and_still_resolves() {
    // a link to a page outside the page set: the build goes on, the
    // best-effort URL is emitted, and exactly one warning is logged
    let project = small_project();
    let mut warnings = Vec::new();
    let r = project.maybe_rewrite_link_url("missing.md", &stem_path("index"), &mut warnings);
    assert_eq!(r, Some("missing".to_string()));
    assert_eq!(warnings.len(), 1);
    assert!(warnings[0].contains("missing.md"));
}

#[test]
fn img_urls_gain_the_page_ascent() {
    let mut project = small_project();
    project.src_files = vec!["img/x.png".to_string()];
    let mut warnings = Vec::new();
    let host = PagePath {
        dir: vec!["a".to_string()],
        stem: "b".to_string(),
    };
    let r = project.maybe_rewrite_img_url("img/x.png", &host, &mut warnings);
    assert_eq!(r, Some("../../img/x.png".to_string()));
    assert!(warnings.is_empty());
    // on the root page an unprefixed reference needs no rewrite
    let r2 = project.maybe_rewrite_img_url("img/x.png", &stem_path("index"), &mut warnings);
    assert_eq!(r2, None);
    // a missing image earns one warning, and the URL is still emitted
    let r3 = project.maybe_rewrite_img_url("../img/y.png", &host, &mut warnings);
    assert_eq!(r3, Some("../../img/y.png".to_string()));
    assert_eq!(warnings.len(), 1);
    // something that is no image reference is left alone
    assert_eq!(
        project.maybe_rewrite_img_url("logo.png", &host, &mut warnings),
        None
    );
}

#[test]
fn update_decisions_follow_the_change_table() {
    let project = small_project();
    // an unclassified change reloads and rebuilds
    assert!(matches!(
        project.update_action(&FileChange::Other),
        UpdateAction::ReloadAndRebuild
    ));
    // a write to a tracked page's source re-renders that one page only
    match project.update_action(&FileChange::Write("/r/src/guide.md".to_string())) {
        UpdateAction::BuildPage(p) => assert_eq!(p, stem_path("guide")),
        other => panic!("expected a single-page rebuild, got {:?}", other),
    }
    // a new or untracked markdown file may change the page set: full rebuild
    assert!(matches!(
        project.update_action(&FileChange::Write("/r/src/notes.md".to_string())),
        UpdateAction::ReloadAndRebuild
    ));
    // a written image is copied alone
    match project.update_action(&FileChange::Write("/r/src/img/a/logo.png".to_string())) {
        UpdateAction::CopyImage(rel) => assert_eq!(rel, "a/logo.png"),
        other => panic!("expected an image copy, got {:?}", other),
    }
    // a style or script write regenerates everything
    assert!(matches!(
        project.update_action(&FileChange::Write("/r/src/css/site.css".to_string())),
        UpdateAction::ReloadAndRebuild
    ));
    // removals matter only under the style and script trees
    assert!(matches!(
        project.update_action(&FileChange::Removal("/r/src/js/x.js".to_string())),
        UpdateAction::ReloadAndRebuild
    ));
    assert!(matches!(
        project.update_action(&FileChange::Removal("/r/src/img/x.png".to_string())),
        UpdateAction::Nothing
    ));
    assert!(matches!(
        project.update_action(&FileChange::Removal("/elsewhere/x.css".to_string())),
        UpdateAction::Nothing
    ));
}

#[test]
fn raw_events_classify_into_changes() {
    assert!(classify_raw_event(RawEventKind::MetadataModify, vec!["/p".to_string()]).is_none());
    assert!(matches!(
        classify_raw_event(RawEventKind::RenameFrom, vec!["/p".to_string()]),
        Some(FileChange::Removal(_))
    ));
    assert!(matches!(
        classify_raw_event(RawEventKind::CloseWrite, vec!["/p".to_string()]),
        Some(FileChange::Write(_))
    ));
    assert!(matches!(
        classify_raw_event(RawEventKind::ContentModify, Vec::new()),
        Some(FileChange::Other)
    ));
}
