pub mod geoip;
pub mod home;
pub mod home_events;
pub mod network;
pub mod settings;
pub mod settings_events;
pub mod settings_typing;
