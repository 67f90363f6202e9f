use vstd::prelude::*;

use crate::dispatch::{dispatch, dispatch_spec};
use crate::schema::{server_error_text, Response, ResponseModel, ServerError};
use crate::wire::{decode, encode, encoded, frame_request};

verus! {

/// An inbound frame of the connection.
pub enum Frame {
    Ping(Vec<u8>),
    Pong(Vec<u8>),
    Text(String),
    Binary(Vec<u8>),
    Close(Option<String>),
}

/// What the transport is to do after a frame.
pub enum Action {
    Pong(Vec<u8>),
    Text(String),
    Binary(Vec<u8>),
    /// Close the connection.
    Stop,
    /// Send nothing.
    Nothing,
}

/// One connection: open until a close frame arrives.
pub struct WebSocket {
    open: bool,
}

/// The response that a binary frame calls for, before it is encoded.
pub open spec fn frame_outcome(bytes: Seq<u8>) -> Result<ResponseModel, ServerError> {
    match frame_request(bytes) {
        Err(e) => Err(ServerError::Decode(e)),
        Ok(q) => match dispatch_spec(q) {
            Ok(t) => Ok(ResponseModel::Login(t)),
            Err(e) => Err(e),
        },
    }
}

/// The packed error response that carries `e`'s description.
pub open spec fn error_frame(e: ServerError) -> Option<Seq<u8>> {
    encoded(ResponseModel::Error(server_error_text(e)))
}

/// The frame that answers a binary frame: the encoded response or, where it cannot be
/// encoded, the encoded error; `None` when that cannot be encoded either.
pub open spec fn binary_reply(bytes: Seq<u8>) -> Option<Seq<u8>> {
    match frame_outcome(bytes) {
        Ok(resp) => match encoded(resp) {
            Some(b) => Some(b),
            None => error_frame(ServerError::Encoding),
        },
        Err(e) => error_frame(e),
    }
}

/// A frame that does not decode to a request is answered with an error response that
/// carries the decode error's description.
pub proof fn lemma_malformed_frame_answered(bytes: Seq<u8>)
    requires
        frame_request(bytes) is Err,
    ensures
        frame_outcome(bytes) == Err::<ResponseModel, ServerError>(
            ServerError::Decode(frame_request(bytes)->Err_0),
        ),
        binary_reply(bytes) == error_frame(ServerError::Decode(frame_request(bytes)->Err_0)),
{
}

impl View for WebSocket {
    type V = bool;

    closed spec fn view(&self) -> bool {
        self.open
    }
}

impl WebSocket {
    pub fn new() -> (r: WebSocket)
        ensures
            r@,
    {
        WebSocket { open: true }
    }

    pub fn is_open(&self) -> (r: bool)
        ensures
            r == self@,
    {
        self.open
    }

    /// Answers the request in a binary frame with the encoded response.
    pub fn handle_request(&self, data: &[u8]) -> (r: Result<Vec<u8>, ServerError>)
        ensures
            match frame_outcome(data@) {
                Ok(resp) => match r {
                    Ok(b) => encoded(resp) == Some(b@),
                    Err(e) => e == ServerError::Encoding && encoded(resp) is None,
                },
                Err(e) => r == Err::<Vec<u8>, ServerError>(e),
            },
    {
        let request = match decode(data) {
            Ok(q) => q,
            Err(e) => return Err(ServerError::Decode(e)),
        };
        let response = dispatch(&request)?;
        match encode(&response) {
            Some(b) => Ok(b),
            None => Err(ServerError::Encoding),
        }
    }

    /// Encodes an error response with the given description.
    pub fn create_error_response(&self, description: &String) -> (r: Option<Vec<u8>>)
        ensures
            match (r, encoded(ResponseModel::Error(description@))) {
                (Some(v), Some(w)) => v@ == w,
                (None, None) => true,
                _ => false,
            },
    {
        let response = Response::Error { description: description.clone() };
        encode(&response)
    }

    /// Handles one frame. A closed connection ignores every frame; a binary frame never
    /// closes the connection.
    pub fn handle(&mut self, frame: Frame) -> (r: Action)
        ensures
            !old(self)@ ==> r is Nothing && !final(self)@,
            old(self)@ ==> match frame {
                Frame::Ping(d) => final(self)@ && (match r {
                    Action::Pong(p) => p@ == d@,
                    _ => false,
                }),
                Frame::Text(t) => final(self)@ && (match r {
                    Action::Text(s) => s@ == t@,
                    _ => false,
                }),
                Frame::Binary(b) => final(self)@ && match r {
                    Action::Binary(s) => binary_reply(b@) == Some(s@),
                    Action::Nothing => binary_reply(b@) is None,
                    _ => false,
                },
                Frame::Close(_) => !final(self)@ && r is Stop,
                Frame::Pong(_) => final(self)@ && r is Nothing,
            },
    {
        if !self.open {
            return Action::Nothing;
        }
        match frame {
            Frame::Ping(d) => Action::Pong(d),
            Frame::Text(t) => Action::Text(t),
            Frame::Binary(b) => match self.handle_request(b.as_slice()) {
                Ok(d) => Action::Binary(d),
                Err(e) => {
                    let description = e.description();
                    match self.create_error_response(&description) {
                        Some(d) => Action::Binary(d),
                        None => Action::Nothing,
                    }
                },
            },
            Frame::Close(_) => {
                self.open = false;
                Action::Stop
            },
            Frame::Pong(_) => Action::Nothing,
        }
    }
}

} // verus!
