//! Verified core of a live translation relay: framing of the TCP text feed,
//! the packets that flow between the HTTP front end, DeepL and the websocket
//! clients, and the decisions around speech synthesis.

pub mod cli;
pub mod db;
pub mod framing;
pub mod http;
pub mod query;
pub mod relay;
pub mod tts;
