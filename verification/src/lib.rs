//! Verified core of a terminal browser for Civitai models, images and downloads:
//! status reporting, download bookkeeping, path naming, media sizing and the
//! text helpers the screens are drawn with.

pub mod chars;
pub mod status;
pub mod app;
pub mod downloads;
pub mod active;
pub mod render;
pub mod paths;
pub mod text;
pub mod forms;
pub mod image;
pub mod sorting;
pub mod catalog;
pub mod templates;
pub mod metadata;
pub mod keys;
pub mod markup;
pub mod tags;
pub mod description;
pub mod searchform;
pub mod models;
pub mod liked;
pub mod layout;
pub mod imageform;
pub mod tabkeys;
pub mod lists;
pub mod boxes;
pub mod downloadtab;
pub mod settings;
pub mod covers;
pub mod savedmodels;
pub mod enterkey;
pub mod browse;
pub mod results;
pub mod picks;
pub mod pathprompt;
pub mod savedimages;
pub mod media;
pub mod searchkeys;
pub mod selection;
pub mod sidebar;
pub mod popups;
pub mod screen;
