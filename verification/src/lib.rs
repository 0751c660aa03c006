pub mod auth;
pub mod control;
pub mod hexadecimal;
pub mod mac;
pub mod onion;
pub mod process;
pub mod protocol_info;
pub mod reply;
pub mod text;
pub mod utils;
