pub mod context_menu;
pub mod font_atlas;
