pub mod args;
pub mod compare_functions;
pub mod composer;
pub mod config;
pub mod controller;
pub mod event;
pub mod pager;
pub mod path_node;
pub mod text;
pub mod tree;
pub mod tree_index;
