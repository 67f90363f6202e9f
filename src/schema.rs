use vstd::prelude::*;

verus! {

/// The two ways of logging in.
pub enum LoginRequest {
    Credentials { username: String, password: String },
    Token { token: String },
}

/// A decoded request; exactly one case is active.
pub enum Request {
    Login(LoginRequest),
    /// Declared in the schema for a later version, not handled yet.
    Logout,
}

/// A response sent back on the connection.
pub enum Response {
    Login { token: String },
    Error { description: String },
}

/// Why a binary frame is not a well-formed request.
#[derive(Debug, Clone, Copy, PartialEq, Eq, Structural)]
pub enum DecodeError {
    /// The packed framing or the segment table is malformed.
    Framing,
    /// A pointer or a struct lies outside the segment.
    OutOfBounds,
    /// A pointer of the wrong kind where a struct or a text was expected.
    WrongPointerKind,
    /// A text that is not a NUL terminated byte list of valid UTF-8.
    InvalidText,
    /// A union discriminant that the schema does not know.
    NotInSchema(u16),
}

/// Every error that a binary frame can end in.
#[derive(Debug, Clone, Copy, PartialEq, Eq, Structural)]
pub enum ServerError {
    UnimplementedRequest,
    WrongUsernamePassword,
    Decode(DecodeError),
    /// The response could not be serialised.
    Encoding,
}

pub open spec fn decode_error_text(e: DecodeError) -> Seq<char> {
    match e {
        DecodeError::Framing => "malformed message framing"@,
        DecodeError::OutOfBounds => "pointer out of bounds"@,
        DecodeError::WrongPointerKind => "unexpected pointer kind"@,
        DecodeError::InvalidText => "invalid text field"@,
        DecodeError::NotInSchema(_) => "union discriminant not present in the schema"@,
    }
}

pub open spec fn server_error_text(e: ServerError) -> Seq<char> {
    match e {
        ServerError::UnimplementedRequest => "unimplemented request message"@,
        ServerError::WrongUsernamePassword => "wrong username or password"@,
        ServerError::Decode(d) => decode_error_text(d),
        ServerError::Encoding => "unable to encode the response"@,
    }
}

impl DecodeError {
    pub fn description(&self) -> (r: String)
        ensures
            r@ == decode_error_text(*self),
    {
        let s: &str = match self {
            DecodeError::Framing => "malformed message framing",
            DecodeError::OutOfBounds => "pointer out of bounds",
            DecodeError::WrongPointerKind => "unexpected pointer kind",
            DecodeError::InvalidText => "invalid text field",
            DecodeError::NotInSchema(_) => "union discriminant not present in the schema",
        };
        s.to_string()
    }
}

impl ServerError {
    /// The text sent to the peer in an error response.
    pub fn description(&self) -> (r: String)
        ensures
            r@ == server_error_text(*self),
    {
        match self {
            ServerError::UnimplementedRequest => "unimplemented request message".to_string(),
            ServerError::WrongUsernamePassword => "wrong username or password".to_string(),
            ServerError::Decode(d) => d.description(),
            ServerError::Encoding => "unable to encode the response".to_string(),
        }
    }
}

/// What a decoded request holds, as plain values.
pub enum RequestModel {
    Credentials(Seq<char>, Seq<char>),
    Token(Seq<char>),
    Logout,
}

impl View for Request {
    type V = RequestModel;

    open spec fn view(&self) -> RequestModel {
        match self {
            Request::Login(LoginRequest::Credentials { username, password }) => RequestModel::Credentials(
                username@,
                password@,
            ),
            Request::Login(LoginRequest::Token { token }) => RequestModel::Token(token@),
            Request::Logout => RequestModel::Logout,
        }
    }
}

pub open spec fn result_view(r: Result<Request, DecodeError>) -> Result<RequestModel, DecodeError> {
    match r {
        Ok(q) => Ok(q@),
        Err(e) => Err(e),
    }
}

/// What a response holds, as plain values.
pub enum ResponseModel {
    Login(Seq<char>),
    Error(Seq<char>),
}

impl View for Response {
    type V = ResponseModel;

    open spec fn view(&self) -> ResponseModel {
        match self {
            Response::Login { token } => ResponseModel::Login(token@),
            Response::Error { description } => ResponseModel::Error(description@),
        }
    }
}

} // verus!
