//! An SMS to mail gateway: the modem's AT commands and answers, the routing of
//! received messages to mail addresses, and the settings that drive both.
pub mod config;
pub mod email;
pub mod modem;
pub mod router;
pub mod text;
