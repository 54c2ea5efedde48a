//! Client side of a small length-prefixed binary protocol: frame encoding and
//! decoding, the authentication and heartbeat rules layered on frames, and the
//! lifecycle state machine of a long-lived upstream connection.

pub mod buffer;
pub mod codec;
pub mod conf;
pub mod connection;
pub mod data;
pub mod error;
pub mod http_route;
pub mod json;
pub mod switchboard;

pub use buffer::buffer_bytes;
pub use codec::AppCodec;
pub use conf::SwitchboardConfig;
pub use connection::{Action, ConnectionState, Credentials, Event, Phase};
pub use data::Data;
pub use error::AppError;
pub use http_route::{
    BaseResponse, CountResponse, JoinRoomData, JoinRoomResponse, PlayData, RegisterData,
};
pub use switchboard::{Session, Switchboard};
