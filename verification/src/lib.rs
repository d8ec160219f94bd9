pub mod activation;
pub mod background_effect;
pub mod bar;
pub mod bar_visibility;
pub mod battery;
pub mod battery_alert;
pub mod compositor;
pub mod config;
pub mod dbus;
pub mod desktop_notification;
pub mod gpu;
pub mod hashed;
pub mod json;
pub mod media;
pub mod media_ipc;
pub mod network;
pub mod notification;
pub mod order;
pub mod paths;
pub mod popover_tracker;
pub mod popup_tracker;
pub mod surfaces;
pub mod table;
pub mod text;
