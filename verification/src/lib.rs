//! Remote access framework: accounts, credentials, wire protocols and the
//! decisions of host, client and file explorer, with their contracts.

pub mod accounts;
pub mod agreement;
pub mod audio;
pub mod bitrate;
pub mod browser;
pub mod bytes;
pub mod cipher;
pub mod cli;
pub mod client;
pub mod client_session;
pub mod clock;
pub mod creds;
pub mod datalink;
pub mod digest;
pub mod explorer;
pub mod explorer_round;
pub mod h264;
pub mod host;
pub mod host_session;
pub mod icons;
pub mod input;
pub mod laws;
pub mod listing;
pub mod message;
pub mod mux;
pub mod proto;
pub mod random;
pub mod resume;
pub mod sessions;
pub mod state_cut;
pub mod state_file;
pub mod table;
pub mod text;
pub mod throttle;
pub mod token;
pub mod transfer;
pub mod tunnel;
pub mod video;
pub mod video_decoder;
pub mod video_window;
pub mod viewer;
