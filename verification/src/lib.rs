pub mod text;
pub mod media;
pub mod settings;
pub mod playback;
pub mod youtube;
pub mod paths;
pub mod order;
pub mod facets;
pub mod library;
pub mod recent;
pub mod thumbnails;
pub mod web;
pub mod tui;
pub mod tui_view;
pub mod desktop;
pub mod playlist_edit;
pub mod channel_import;
pub mod external;
pub mod scan_report;
