//! Requests and responses of the HTTP front end, and what each request does to
//! the session table.
use vstd::prelude::*;

use crate::switchboard::{Session, Switchboard};

verus! {

#[derive(Debug)]
pub struct RegisterData {
    pub user_id: u64,
    pub user_name: String,
}

#[derive(Debug)]
pub struct JoinRoomData {
    pub session_id: u64,
}

#[derive(Debug)]
pub struct PlayData {
    pub session_id: u64,
    pub room_id: u64,
    pub x: u16,
    pub y: u16,
}

#[derive(Debug)]
pub struct BaseResponse {
    pub rc: u16,
    pub rd: String,
}

#[derive(Debug)]
pub struct CountResponse {
    pub count: u16,
}

#[derive(Debug)]
pub struct JoinRoomResponse {
    pub rc: u16,
    pub rd: String,
    pub room_id: u64,
}

/// Registers a session whose id is the user's id, replacing any session with
/// that id.
pub fn register(switchboard: &mut Switchboard, item: RegisterData) -> (r: BaseResponse)
    ensures
        final(switchboard).sessions() == old(switchboard).sessions().insert(
            item.user_id,
            Session { id: item.user_id, user_id: item.user_id, user_name: item.user_name },
        ),
        final(switchboard).config() == old(switchboard).config(),
        r.rc == 0,
        r.rd@ == "Register succeed!"@,
{
    let user_id = item.user_id;
    switchboard.insert_new_session(Session { id: user_id, user_id, user_name: item.user_name });
    BaseResponse { rc: 0, rd: "Register succeed!".to_owned() }
}

/// The number of sessions, cut to 16 bits.
pub fn count_sessions(switchboard: &Switchboard) -> (r: CountResponse)
    ensures
        r.count == switchboard.sessions().len() as u16,
{
    let count = switchboard.sessions_count();
    CountResponse { count: count as u16 }
}

/// Answers a join request; rooms are not assigned yet.
pub fn join_room(item: &JoinRoomData) -> (r: JoinRoomResponse)
    ensures
        r.rc == 0,
        r.rd@.len() == 0,
        r.room_id == 0,
{
    JoinRoomResponse { rc: 0, rd: String::new(), room_id: 0 }
}

/// Answers a move; moves are not checked yet.
pub fn play(item: &PlayData) -> (r: BaseResponse)
    ensures
        r.rc == 0,
        r.rd@.len() == 0,
{
    BaseResponse { rc: 0, rd: String::new() }
}

} // verus!
