pub mod args;
pub mod bitrate;
pub mod capture;
pub mod capture_session;
pub mod config;
pub mod decimal;
pub mod encode;
pub mod frame_sender;
pub mod gui;
pub mod json;
pub mod media;
pub mod messages;
pub mod nv12;
pub mod pacing;
pub mod pipeline;
pub mod ratelimit;
pub mod roomcode;
pub mod rooms;
pub mod rounding;
pub mod signaling;
pub mod site;
pub mod status;
pub mod table;
pub mod text;
pub mod thumbnail;
pub mod transport;
pub mod upnp;
pub mod urls;
pub mod version;
