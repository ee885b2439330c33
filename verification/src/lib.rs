pub mod attribute;
pub mod cli;
pub mod composite_element;
pub mod config;
pub mod element;
pub mod element_key;
pub mod error;
pub mod html;
pub mod init;
pub mod markdown;
pub mod menu;
pub mod menu_insert;
pub mod menu_link_config;
pub mod nav_component;
pub mod nav_link;
pub mod old_nav_link;
pub mod page;
pub mod page_list;
pub mod page_path;
pub mod page_writer;
pub mod path_laws;
pub mod project;
pub mod statics;
pub mod strutil;
pub mod text;
pub mod toc;
pub mod version;
pub mod watcher;
