//! HTTP/2 settings, frame and error codes, server push and stream priority.
use vstd::prelude::*;
use std::collections::HashMap;
use crate::text::{owned, str_eq};

verus! {

/// Connection settings.
#[derive(Debug, Clone)]
pub struct Http2Settings {
    pub max_concurrent_streams: u32,
    pub initial_window_size: u32,
    pub max_frame_size: u32,
    pub max_header_list_size: u32,
    pub enable_push: bool,
    pub enable_connect_protocol: bool,
}

impl Default for Http2Settings {
    fn default() -> (r: Http2Settings)
        ensures
            r.max_concurrent_streams == 100,
            r.initial_window_size == 65535,
            r.max_frame_size == 16384,
            r.max_header_list_size == 16384,
            r.enable_push,
            !r.enable_connect_protocol,
    {
        Http2Settings {
            max_concurrent_streams: 100,
            initial_window_size: 65535,
            max_frame_size: 16384,
            max_header_list_size: 16384,
            enable_push: true,
            enable_connect_protocol: false,
        }
    }
}

impl Http2Settings {
    pub fn max_concurrent_streams(self, max: u32) -> (r: Http2Settings)
        ensures
            r == (Http2Settings { max_concurrent_streams: max, ..self }),
    {
        Http2Settings { max_concurrent_streams: max, ..self }
    }

    pub fn initial_window_size(self, size: u32) -> (r: Http2Settings)
        ensures
            r == (Http2Settings { initial_window_size: size, ..self }),
    {
        Http2Settings { initial_window_size: size, ..self }
    }

    pub fn max_frame_size(self, size: u32) -> (r: Http2Settings)
        ensures
            r == (Http2Settings { max_frame_size: size, ..self }),
    {
        Http2Settings { max_frame_size: size, ..self }
    }

    pub fn enable_push(self, enabled: bool) -> (r: Http2Settings)
        ensures
            r == (Http2Settings { enable_push: enabled, ..self }),
    {
        Http2Settings { enable_push: enabled, ..self }
    }
}

/// A resource the server pushes ahead of the client's request.
#[derive(Debug, Clone)]
pub struct PushPromise {
    pub path: String,
    pub method: String,
    pub authority: Option<String>,
    pub headers: HashMap<String, String>,
}

impl PushPromise {
    /// A `GET` promise for `path`, with no authority and no headers.
    pub fn new(path: &str) -> (r: PushPromise)
        ensures
            r.path@ == path@,
            r.method@ == seq!['G', 'E', 'T'],
            r.authority is None,
    {
        let method = owned("GET");
        proof {
            reveal_strlit("GET");
            assert("GET"@ =~= seq!['G', 'E', 'T']);
        }
        PushPromise { path: owned(path), method, authority: None, headers: HashMap::new() }
    }

    pub fn method(self, method: &str) -> (r: PushPromise)
        ensures
            r.method@ == method@,
            r.path == self.path,
            r.authority == self.authority,
    {
        PushPromise { method: owned(method), ..self }
    }

    pub fn authority(self, authority: &str) -> (r: PushPromise)
        ensures
            r.authority is Some && r.authority->0@ == authority@,
            r.path == self.path,
            r.method == self.method,
    {
        PushPromise { authority: Some(owned(authority)), ..self }
    }

    /// Adds a header to the promised request.
    pub fn header(self, key: &str, value: &str) -> (r: PushPromise)
        ensures
            r.path == self.path,
            r.method == self.method,
            r.authority == self.authority,
    {
        let mut p = self;
        p.headers.insert(owned(key), owned(value));
        p
    }
}

/// Stream priority: dependency, weight and exclusivity.
#[derive(Debug, Clone, Copy, PartialEq, Eq, Structural)]
pub struct Priority {
    pub dependency: u32,
    pub weight: u8,
    pub exclusive: bool,
}

impl Default for Priority {
    fn default() -> (r: Priority)
        ensures
            r == (Priority { dependency: 0, weight: 16, exclusive: false }),
    {
        Priority { dependency: 0, weight: 16, exclusive: false }
    }
}

impl Priority {
    /// The default priority with the given weight, at least 1.
    pub fn with_weight(weight: u8) -> (r: Priority)
        ensures
            r == (Priority { dependency: 0, weight: if weight >= 1 { weight } else { 1 }, exclusive: false }),
    {
        Priority { dependency: 0, weight: if weight >= 1 { weight } else { 1 }, exclusive: false }
    }

    pub fn depends_on(self, stream_id: u32) -> (r: Priority)
        ensures
            r == (Priority { dependency: stream_id, ..self }),
    {
        Priority { dependency: stream_id, ..self }
    }

    pub fn exclusive(self) -> (r: Priority)
        ensures
            r == (Priority { exclusive: true, ..self }),
    {
        Priority { exclusive: true, ..self }
    }
}

/// HTTP/2 frame types.
#[derive(Debug, Clone, Copy, PartialEq, Eq, Structural)]
pub enum FrameType {
    Data,
    Headers,
    Priority,
    RstStream,
    Settings,
    PushPromise,
    Ping,
    GoAway,
    WindowUpdate,
    Continuation,
}

impl FrameType {
    /// The type byte of the frame type.
    pub open spec fn code(self) -> u8 {
        match self {
            FrameType::Data => 0,
            FrameType::Headers => 1,
            FrameType::Priority => 2,
            FrameType::RstStream => 3,
            FrameType::Settings => 4,
            FrameType::PushPromise => 5,
            FrameType::Ping => 6,
            FrameType::GoAway => 7,
            FrameType::WindowUpdate => 8,
            FrameType::Continuation => 9,
        }
    }

    pub fn from_u8(byte: u8) -> (r: Option<FrameType>)
        ensures
            match r {
                Some(t) => t.code() == byte,
                None => byte > 9,
            },
    {
        match byte {
            0 => Some(FrameType::Data),
            1 => Some(FrameType::Headers),
            2 => Some(FrameType::Priority),
            3 => Some(FrameType::RstStream),
            4 => Some(FrameType::Settings),
            5 => Some(FrameType::PushPromise),
            6 => Some(FrameType::Ping),
            7 => Some(FrameType::GoAway),
            8 => Some(FrameType::WindowUpdate),
            9 => Some(FrameType::Continuation),
            _ => None,
        }
    }
}

/// HTTP/2 error codes.
#[derive(Debug, Clone, Copy, PartialEq, Eq, Structural)]
pub enum ErrorCode {
    NoError,
    ProtocolError,
    InternalError,
    FlowControlError,
    SettingsTimeout,
    StreamClosed,
    FrameSizeError,
    RefusedStream,
    Cancel,
    CompressionError,
    ConnectError,
    EnhanceYourCalm,
    InadequateSecurity,
    Http11Required,
}

impl ErrorCode {
    /// The wire value of the error code.
    pub open spec fn code(self) -> u32 {
        match self {
            ErrorCode::NoError => 0,
            ErrorCode::ProtocolError => 1,
            ErrorCode::InternalError => 2,
            ErrorCode::FlowControlError => 3,
            ErrorCode::SettingsTimeout => 4,
            ErrorCode::StreamClosed => 5,
            ErrorCode::FrameSizeError => 6,
            ErrorCode::RefusedStream => 7,
            ErrorCode::Cancel => 8,
            ErrorCode::CompressionError => 9,
            ErrorCode::ConnectError => 10,
            ErrorCode::EnhanceYourCalm => 11,
            ErrorCode::InadequateSecurity => 12,
            ErrorCode::Http11Required => 13,
        }
    }

    pub fn as_u32(&self) -> (r: u32)
        ensures
            r == self.code(),
    {
        match self {
            ErrorCode::NoError => 0,
            ErrorCode::ProtocolError => 1,
            ErrorCode::InternalError => 2,
            ErrorCode::FlowControlError => 3,
            ErrorCode::SettingsTimeout => 4,
            ErrorCode::StreamClosed => 5,
            ErrorCode::FrameSizeError => 6,
            ErrorCode::RefusedStream => 7,
            ErrorCode::Cancel => 8,
            ErrorCode::CompressionError => 9,
            ErrorCode::ConnectError => 10,
            ErrorCode::EnhanceYourCalm => 11,
            ErrorCode::InadequateSecurity => 12,
            ErrorCode::Http11Required => 13,
        }
    }

    pub fn from_u32(code: u32) -> (r: Option<ErrorCode>)
        ensures
            match r {
                Some(e) => e.code() == code,
                None => code > 13,
            },
    {
        match code {
            0 => Some(ErrorCode::NoError),
            1 => Some(ErrorCode::ProtocolError),
            2 => Some(ErrorCode::InternalError),
            3 => Some(ErrorCode::FlowControlError),
            4 => Some(ErrorCode::SettingsTimeout),
            5 => Some(ErrorCode::StreamClosed),
            6 => Some(ErrorCode::FrameSizeError),
            7 => Some(ErrorCode::RefusedStream),
            8 => Some(ErrorCode::Cancel),
            9 => Some(ErrorCode::CompressionError),
            10 => Some(ErrorCode::ConnectError),
            11 => Some(ErrorCode::EnhanceYourCalm),
            12 => Some(ErrorCode::InadequateSecurity),
            13 => Some(ErrorCode::Http11Required),
            _ => None,
        }
    }
}

/// What is known about a connection's protocol.
#[derive(Debug, Clone)]
pub struct ConnectionInfo {
    pub secure: bool,
    pub alpn_protocol: Option<String>,
    pub settings: Http2Settings,
    pub active_streams: u32,
}

impl ConnectionInfo {
    /// A connection with no negotiated protocol and default settings.
    pub fn new(secure: bool) -> (r: ConnectionInfo)
        ensures
            r.secure == secure,
            r.alpn_protocol is None,
            r.active_streams == 0,
    {
        ConnectionInfo { secure, alpn_protocol: None, settings: Http2Settings::default(), active_streams: 0 }
    }

    /// Whether the protocol negotiated is exactly `p`.
    pub open spec fn alpn_is(&self, p: Seq<char>) -> bool {
        self.alpn_protocol is Some && self.alpn_protocol->0@ == p
    }

    fn alpn_equals(&self, p: &str) -> (r: bool)
        ensures
            r == self.alpn_is(p@),
    {
        match &self.alpn_protocol {
            Some(a) => str_eq(a.as_str(), p),
            None => false,
        }
    }

    /// HTTP/2 over TLS: secure, and `h2` was negotiated.
    pub fn is_h2(&self) -> (r: bool)
        ensures
            r == (self.secure && self.alpn_is(seq!['h', '2'])),
    {
        proof {
            reveal_strlit("h2");
            assert("h2"@ =~= seq!['h', '2']);
        }
        self.secure && self.alpn_equals("h2")
    }

    /// Cleartext HTTP/2: not secure, or `h2c` was negotiated.
    pub fn is_h2c(&self) -> (r: bool)
        ensures
            r == (!self.secure || self.alpn_is(seq!['h', '2', 'c'])),
    {
        proof {
            reveal_strlit("h2c");
            assert("h2c"@ =~= seq!['h', '2', 'c']);
        }
        !self.secure || self.alpn_equals("h2c")
    }
}

} // verus!
