use vstd::prelude::*;
use crate::page_path::{PagePath, PagePathView};

verus! {

/// One page of the site: its display title, its canonical path, and the
/// location of its Markdown source.
#[derive(Debug)]
pub struct Page {
    pub title: String,
    pub page_path: PagePath,
    pub md_file_path: String,
}

/// Spec-level shape of a page.
#[verifier::ext_equal]
pub struct PageView {
    pub title: Seq<char>,
    pub page_path: PagePathView,
    pub md_file_path: Seq<char>,
}

impl View for Page {
    type V = PageView;

    open spec fn view(&self) -> PageView {
        PageView {
            title: self.title@,
            page_path: self.page_path@,
            md_file_path: self.md_file_path@,
        }
    }
}

impl Page {
    pub fn new(title: String, page_path: PagePath, md_file_path: String) -> (r: Self)
        ensures
            r.title == title,
            r.page_path == page_path,
            r.md_file_path == md_file_path,
    {
        Self { title, page_path, md_file_path }
    }
}

} // verus!
