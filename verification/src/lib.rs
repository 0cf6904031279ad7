//! The logic of a peer-to-peer client: rooms, direct links, chat, file transfer and remote desktop.
pub mod candidates;
pub mod canvas_laws;
pub mod capture;
pub mod chat;
pub mod chat_canvas;
pub mod chat_commands;
pub mod chat_desktop;
pub mod chat_events;
pub mod chat_view;
pub mod connection;
pub mod desktop_session;
pub mod digest;
pub mod direct;
pub mod dispatch;
pub mod encoding;
pub mod fit;
pub mod frames;
pub mod injection;
pub mod labels;
pub mod link;
pub mod link_laws;
pub mod mac_injection;
pub mod p2p_proto;
pub mod paths;
pub mod png;
pub mod random;
pub mod ranges;
pub mod remote_desktop;
pub mod rooms;
pub mod rounding;
pub mod scan_codes;
pub mod screen;
pub mod session;
pub mod settings;
pub mod signaling;
pub mod text;
pub mod text_map;
pub mod tiles;
pub mod transfer;
pub mod transfer_session;
pub mod window_laws;
