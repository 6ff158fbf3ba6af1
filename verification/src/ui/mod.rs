//! View logic, split by screen region.
pub mod about;
pub mod bottom_tabs;
pub mod connlog_window;
pub mod gga_section;
pub mod log_pane;
pub mod main_window;
pub mod ntrip_block;
pub mod options_dialog;
pub mod plot_panel;
pub mod profiles_dialog;
pub mod rtcm_inspector;
pub mod serial_block;
pub mod sourcetable_browser;
pub mod status_strip;
pub mod stream_summary;
pub mod text;
pub mod theme;
