use ddoc::page_path::PagePath;

fn path(dir: &[&str], stem: &str) -> PagePath {
    PagePath {
        dir: dir.iter().map(|s| s.to_string()).collect(),
        stem: stem.to_string(),
    }
}

#[test]
fn from_path_stem_splits_and_defaults() {
    let p = PagePath::from_path_stem("a//b/", "c");
    assert_eq!(p, path(&["a", "b"], "c"));
    let q = PagePath::from_path_stem("", "");
    assert_eq!(q, path(&[], "index"));
}

#[test]
fn depth_counts_root_and_segments() {
    // the root index page has depth 0
    assert_eq!(path(&[], "index").depth(), 0);
    // any other page is one deeper than its directory
    assert_eq!(path(&[], "guide").depth(), 1);
    assert_eq!(path(&["a", "b"], "index").depth(), 3);
    assert_eq!(path(&["a"], "c").depth(), 2);
}

#[test]
fn link_to_builds_relative_urls() {
    let root = path(&[], "index");
    let guide = path(&[], "guide");
    let deep = path(&["a", "b"], "c");
    assert_eq!(guide.link_to(&root), "../");
    assert_eq!(root.link_to(&guide), "guide/");
    assert_eq!(deep.link_to(&guide), "../../../guide/");
    assert_eq!(root.link_to(&root), "");
    assert_eq!(guide.link_to(&guide), "../guide/");
}

#[test]
fn self_link_ends_with_stem_slash() {
    let p = path(&["dir"], "leaf");
    let link = p.link_to(&p);
    assert!(link.ends_with("leaf/"));
    // after the ascent prefix, no dot-dot step remains
    assert!(!link["../".repeat(p.depth()).len()..].contains("../"));
}

#[test]
fn follow_relative_link_resolves_steps() {
    let host = path(&["guide"], "install");
    let dst = host.follow_relative_link("../../intro/", "first");
    assert_eq!(dst, path(&["intro"], "first"));
    // ascent clamps at the root instead of failing
    let clamped = path(&[], "index").follow_relative_link("../../x", "");
    assert_eq!(clamped, path(&["x"], "index"));
    let dotted = host.follow_relative_link("./sub", "page");
    assert_eq!(dotted, path(&["guide", "install", "sub"], "page"));
}

#[test]
fn link_round_trip_returns_to_target() {
    let host = path(&["guide"], "install");
    let dst = path(&["intro"], "first");
    let link = host.link_to(&dst);
    // the directory part of the link is everything through its last slash
    let dir_part = &link[..link.rfind('/').map(|i| i + 1).unwrap_or(0)];
    let dir_part = &dir_part[..dir_part.len() - dst.stem.len() - 1];
    let back = host.follow_relative_link(dir_part, &dst.stem);
    assert_eq!(back, dst);
}

#[test]
fn path_bufs_lay_files_out() {
    let p = path(&["guide"], "install");
    assert_eq!(p.md_path_buf("/r/src"), "/r/src/guide/install.md");
    assert_eq!(p.html_path_buf("/r/site"), "/r/site/guide/install/index.html");
    assert_eq!(path(&[], "index").html_path_buf("/r/site"), "/r/site/index.html");
    assert_eq!(p.to_path_buf("/r", None), "/r/guide/install");
    assert_eq!(p.display_string(), "guide/install");
}

#[test]
fn parse_reads_the_page_path_grammar() {
    assert_eq!(
        PagePath::parse("guide/install.md").unwrap(),
        path(&["guide"], "install")
    );
    assert_eq!(PagePath::parse("index.md").unwrap(), path(&[], "index"));
    assert_eq!(PagePath::parse("a/b/c").unwrap(), path(&["a", "b"], "c"));
    // names may use any script
    assert_eq!(PagePath::parse("caf\u{e9}.md").unwrap(), path(&[], "caf\u{e9}"));
    // outside the grammar: the input is named in the error
    for bad in ["", "a//b", "a/", "a.b", "../x", "a b"] {
        match PagePath::parse(bad) {
            Err(ddoc::error::DdError::InvalidPagePath { path }) => assert_eq!(path, bad),
            other => panic!("expected a rejected page path, got {:?}", other),
        }
    }
}

