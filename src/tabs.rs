pub mod add_release_tab;
pub mod tabs_controller;
pub mod title_bar;
