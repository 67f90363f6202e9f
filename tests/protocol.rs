use backend::{
    decode, decode_segments, dispatch, encode, login_with_credentials, renew_token,
    response_segment, Action, DecodeError, Frame, LoginRequest, Request, Response, ServerError,
    WebSocket,
};

fn word(v: u64) -> Vec<u8> {
    v.to_le_bytes().to_vec()
}

fn struct_ptr(offset: u64, data: u64, ptrs: u64) -> u64 {
    (offset << 2) | (data << 32) | (ptrs << 48)
}

fn text_ptr(offset: u64, len: usize) -> u64 {
    1 | (offset << 2) | (2 << 32) | (((len as u64) + 1) << 35)
}

fn text_words(s: &str) -> Vec<u8> {
    let mut v = s.as_bytes().to_vec();
    v.push(0);
    while v.len() % 8 != 0 {
        v.push(0);
    }
    v
}

fn pack(seg: &[u8]) -> Vec<u8> {
    let mut words = capnp::Word::allocate_zeroed_vec(seg.len() / 8);
    capnp::Word::words_to_bytes_mut(&mut words).copy_from_slice(seg);
    let segments: [&[u8]; 1] = [capnp::Word::words_to_bytes(&words)];
    let array = capnp::message::SegmentArray::new(&segments);
    let reader = capnp::message::Reader::new(array, capnp::message::ReaderOptions::new());
    let root: capnp::any_pointer::Reader = reader.get_root().unwrap();
    let mut builder = capnp::message::Builder::new_default();
    builder.set_root(root).unwrap();
    let mut out = Vec::new();
    capnp::serialize_packed::write_message(&mut out, &builder).unwrap();
    out
}

fn unpack(bytes: &[u8]) -> Vec<u8> {
    let mut input = bytes;
    let reader =
        capnp::serialize_packed::read_message(&mut input, capnp::message::ReaderOptions::new())
            .unwrap();
    let segments = reader.into_segments();
    let root = capnp::message::ReaderSegments::get_segment(&segments, 0).unwrap();
    root.to_vec()
}

fn credentials_segment(username: &str, password: &str) -> Vec<u8> {
    let user = text_words(username);
    let mut seg = Vec::new();
    seg.extend(word(struct_ptr(0, 1, 1)));
    seg.extend(word(0));
    seg.extend(word(struct_ptr(0, 1, 1)));
    seg.extend(word(0));
    seg.extend(word(struct_ptr(0, 0, 2)));
    seg.extend(word(text_ptr(1, username.len())));
    seg.extend(word(text_ptr((user.len() / 8) as u64, password.len())));
    seg.extend(user);
    seg.extend(text_words(password));
    seg
}

fn token_segment(token: &str) -> Vec<u8> {
    let mut seg = Vec::new();
    seg.extend(word(struct_ptr(0, 1, 1)));
    seg.extend(word(0));
    seg.extend(word(struct_ptr(0, 1, 1)));
    seg.extend(word(1));
    seg.extend(word(text_ptr(0, token.len())));
    seg.extend(text_words(token));
    seg
}

fn logout_segment() -> Vec<u8> {
    let mut seg = Vec::new();
    seg.extend(word(struct_ptr(0, 1, 1)));
    seg.extend(word(1));
    seg.extend(word(0));
    seg
}

fn reply(frame_bytes: Vec<u8>) -> (Vec<u8>, bool) {
    let mut ws = WebSocket::new();
    match ws.handle(Frame::Binary(frame_bytes)) {
        Action::Binary(d) => (unpack(&d), ws.is_open()),
        _ => panic!("a binary frame must be answered with a binary frame"),
    }
}

fn login_segment(token: &str) -> Vec<u8> {
    response_segment(&Response::Login { token: token.to_string() }).unwrap()
}

fn error_segment(description: &str) -> Vec<u8> {
    response_segment(&Response::Error { description: description.to_string() }).unwrap()
}

#[test]
fn matching_credentials_get_secret_token() {
    let (seg, open) = reply(pack(&credentials_segment("alice", "alice")));
    assert_eq!(seg, login_segment("secret_token"));
    assert!(open);
}

#[test]
fn mismatched_credentials_get_error() {
    let (seg, open) = reply(pack(&credentials_segment("alice", "bob")));
    assert_eq!(seg, error_segment("wrong username or password"));
    assert!(open);
}

#[test]
fn token_is_renewed_unchanged() {
    let (seg, _) = reply(pack(&token_segment("abc123")));
    assert_eq!(seg, login_segment("abc123"));
}

#[test]
fn reserved_request_is_unimplemented() {
    let (seg, _) = reply(pack(&logout_segment()));
    assert_eq!(seg, error_segment("unimplemented request message"));
}

#[test]
fn garbage_bytes_get_error_and_keep_connection() {
    let garbage = vec![0x13u8, 0xfe, 0x07];
    let err = decode(&garbage).err().unwrap();
    let expected = error_segment(&ServerError::Decode(err).description());
    let mut ws = WebSocket::new();
    match ws.handle(Frame::Binary(garbage)) {
        Action::Binary(d) => assert_eq!(unpack(&d), expected),
        _ => panic!("expected an error response"),
    }
    assert!(ws.is_open());
}

#[test]
fn decode_reads_credentials() {
    match decode(&pack(&credentials_segment("carol", "pw"))) {
        Ok(Request::Login(LoginRequest::Credentials { username, password })) => {
            assert_eq!(username, "carol");
            assert_eq!(password, "pw");
        }
        _ => panic!("expected credentials"),
    }
}

#[test]
fn decode_segment_reads_token() {
    match decode_segments(&vec![token_segment("t0k3n-with-more-than-eight")]) {
        Ok(Request::Login(LoginRequest::Token { token })) => {
            assert_eq!(token, "t0k3n-with-more-than-eight")
        }
        _ => panic!("expected a token"),
    }
}

#[test]
fn decode_segment_empty_is_out_of_bounds() {
    assert_eq!(decode_segments(&Vec::new()).err(), Some(DecodeError::OutOfBounds));
}

#[test]
fn decode_segment_unknown_discriminant() {
    let mut seg = logout_segment();
    seg[8] = 7;
    assert_eq!(decode_segments(&vec![seg]).err(), Some(DecodeError::NotInSchema(7)));
}

fn far_ptr(double: bool, offset: u64, segment: u64) -> u64 {
    2 | ((double as u64) << 2) | (offset << 3) | (segment << 32)
}

#[test]
fn decode_segments_follows_single_far_pointer() {
    // The root points to a landing pad in segment 1, which holds the struct pointer.
    let first = word(far_ptr(false, 0, 1));
    let mut second = word(struct_ptr(0, 1, 1));
    second.extend(word(1));
    second.extend(word(0));
    assert!(matches!(decode_segments(&vec![first, second]), Ok(Request::Logout)));
}

#[test]
fn decode_segments_follows_double_far_pointer() {
    // The token text lives in segment 2; segment 1 holds the double-far landing pad.
    let mut first = word(struct_ptr(0, 1, 1));
    first.extend(word(0));
    first.extend(word(struct_ptr(0, 1, 1)));
    first.extend(word(1));
    first.extend(word(far_ptr(true, 0, 1)));
    let mut pad = word(far_ptr(false, 0, 2));
    pad.extend(word(text_ptr(0, 5)));
    let third = text_words("hello");
    match decode_segments(&vec![first, pad, third]) {
        Ok(Request::Login(LoginRequest::Token { token })) => assert_eq!(token, "hello"),
        _ => panic!("expected a token"),
    }
}

#[test]
fn decode_segments_far_pointer_to_missing_segment() {
    let mut seg = word(far_ptr(false, 0, 3));
    seg.extend(word(0));
    assert_eq!(decode_segments(&vec![seg]).err(), Some(DecodeError::OutOfBounds));
}

#[test]
fn decode_segments_landing_pad_of_wrong_kind() {
    let first = word(far_ptr(false, 0, 1));
    let second = word(far_ptr(false, 0, 0));
    assert_eq!(decode_segments(&vec![first, second]).err(), Some(DecodeError::WrongPointerKind));
}

#[test]
fn decode_segment_struct_past_end() {
    let seg = word(struct_ptr(0, 4, 0));
    assert_eq!(decode_segments(&vec![seg]).err(), Some(DecodeError::OutOfBounds));
}

#[test]
fn decode_segment_wrong_pointer_kind() {
    let mut seg = token_segment("x");
    let bad = word(struct_ptr(0, 1, 0));
    seg[32..40].copy_from_slice(&bad);
    assert_eq!(decode_segments(&vec![seg]).err(), Some(DecodeError::WrongPointerKind));
}

#[test]
fn decode_segment_text_without_nul() {
    let mut seg = token_segment("abc");
    seg[43] = b'd';
    assert_eq!(decode_segments(&vec![seg]).err(), Some(DecodeError::InvalidText));
}

#[test]
fn decode_segment_text_invalid_utf8() {
    let mut seg = token_segment("abc");
    seg[40] = 0xff;
    assert_eq!(decode_segments(&vec![seg]).err(), Some(DecodeError::InvalidText));
}

#[test]
fn decode_framing_error_on_empty_input() {
    assert_eq!(decode(&[]).err(), Some(DecodeError::Framing));
}

#[test]
fn null_login_reads_as_empty_credentials() {
    let mut seg = Vec::new();
    seg.extend(word(struct_ptr(0, 1, 1)));
    seg.extend(word(0));
    seg.extend(word(0));
    match decode_segments(&vec![seg]) {
        Ok(Request::Login(LoginRequest::Credentials { username, password })) => {
            assert_eq!(username, "");
            assert_eq!(password, "");
        }
        _ => panic!("expected empty credentials"),
    }
}

#[test]
fn response_segment_exact_bytes() {
    let seg = login_segment("abc");
    let mut expected = word(0x0001_0001_0000_0000);
    expected.extend(word(0));
    expected.extend(word(1 | (2 << 32) | (4 << 35)));
    expected.extend(vec![b'a', b'b', b'c', 0, 0, 0, 0, 0]);
    assert_eq!(seg, expected);
    let err = error_segment("12345678");
    assert_eq!(err.len(), 40);
    assert_eq!(err[8], 1);
}

#[test]
fn encode_is_deterministic() {
    let r = Response::Login { token: "secret_token".to_string() };
    let a = encode(&r).unwrap();
    let b = encode(&r).unwrap();
    assert_eq!(a, b);
    assert_eq!(unpack(&a), login_segment("secret_token"));
    assert_ne!(a, login_segment("secret_token"));
}

#[test]
fn dispatch_cases() {
    let same = Request::Login(LoginRequest::Credentials {
        username: "u".to_string(),
        password: "u".to_string(),
    });
    match dispatch(&same) {
        Ok(Response::Login { token }) => assert_eq!(token, "secret_token"),
        _ => panic!("expected a token"),
    }
    let other = Request::Login(LoginRequest::Credentials {
        username: "u".to_string(),
        password: "v".to_string(),
    });
    assert!(matches!(dispatch(&other), Err(ServerError::WrongUsernamePassword)));
    assert!(matches!(dispatch(&Request::Logout), Err(ServerError::UnimplementedRequest)));
}

#[test]
fn auth_handler_entry_points() {
    assert_eq!(login_with_credentials(&"a".to_string(), &"a".to_string()).unwrap(), "secret_token");
    assert_eq!(
        login_with_credentials(&"a".to_string(), &"b".to_string()).err(),
        Some(ServerError::WrongUsernamePassword)
    );
    assert_eq!(renew_token(&"abc123".to_string()).unwrap(), "abc123");
}

#[test]
fn error_descriptions() {
    assert_eq!(ServerError::UnimplementedRequest.description(), "unimplemented request message");
    assert_eq!(ServerError::WrongUsernamePassword.description(), "wrong username or password");
    assert_eq!(
        ServerError::Decode(DecodeError::Framing).description(),
        "malformed message framing"
    );
}

#[test]
fn control_frames() {
    let mut ws = WebSocket::new();
    assert!(matches!(ws.handle(Frame::Ping(vec![1, 2])), Action::Pong(ref p) if *p == vec![1, 2]));
    assert!(matches!(ws.handle(Frame::Text("hi".to_string())), Action::Text(ref t) if t == "hi"));
    assert!(matches!(ws.handle(Frame::Pong(vec![])), Action::Nothing));
    assert!(matches!(ws.handle(Frame::Close(None)), Action::Stop));
    assert!(!ws.is_open());
    assert!(matches!(ws.handle(Frame::Ping(vec![1])), Action::Nothing));
}
