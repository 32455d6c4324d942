//! The nine HTTP request methods.
use vstd::prelude::*;
use crate::bytes::bytes_eq;
use crate::error::Error;
use crate::text::{chars_of, chars_eq, push_chars, to_upper, upper_of};

verus! {

/// An HTTP request method.
#[derive(Debug, Clone, Copy, PartialEq, Eq, Hash, Structural)]
pub enum Method {
    Get,
    Post,
    Put,
    Delete,
    Patch,
    Head,
    Options,
    Connect,
    Trace,
}

impl Method {
    /// The exact uppercase token that names this method on the wire.
    pub open spec fn token(self) -> Seq<u8> {
        match self {
            Method::Get => seq![71, 69, 84],
            Method::Post => seq![80, 79, 83, 84],
            Method::Put => seq![80, 85, 84],
            Method::Delete => seq![68, 69, 76, 69, 84, 69],
            Method::Patch => seq![80, 65, 84, 67, 72],
            Method::Head => seq![72, 69, 65, 68],
            Method::Options => seq![79, 80, 84, 73, 79, 78, 83],
            Method::Connect => seq![67, 79, 78, 78, 69, 67, 84],
            Method::Trace => seq![84, 82, 65, 67, 69],
        }
    }

    /// The numeric code of the method, in declaration order.
    pub open spec fn code(self) -> u8 {
        match self {
            Method::Get => 0,
            Method::Post => 1,
            Method::Put => 2,
            Method::Delete => 3,
            Method::Patch => 4,
            Method::Head => 5,
            Method::Options => 6,
            Method::Connect => 7,
            Method::Trace => 8,
        }
    }

    /// The method whose token is exactly `t`, if any.
    pub open spec fn from_token(t: Seq<u8>) -> Option<Method> {
        if t == Method::Get.token() {
            Some(Method::Get)
        } else if t == Method::Post.token() {
            Some(Method::Post)
        } else if t == Method::Put.token() {
            Some(Method::Put)
        } else if t == Method::Delete.token() {
            Some(Method::Delete)
        } else if t == Method::Patch.token() {
            Some(Method::Patch)
        } else if t == Method::Head.token() {
            Some(Method::Head)
        } else if t == Method::Options.token() {
            Some(Method::Options)
        } else if t == Method::Connect.token() {
            Some(Method::Connect)
        } else if t == Method::Trace.token() {
            Some(Method::Trace)
        } else {
            None
        }
    }

    /// The token as an owned byte vector.
    pub fn token_bytes(&self) -> (r: Vec<u8>)
        ensures
            r@ == self.token(),
    {
        let r = match self {
            Method::Get => vec![71, 69, 84],
            Method::Post => vec![80, 79, 83, 84],
            Method::Put => vec![80, 85, 84],
            Method::Delete => vec![68, 69, 76, 69, 84, 69],
            Method::Patch => vec![80, 65, 84, 67, 72],
            Method::Head => vec![72, 69, 65, 68],
            Method::Options => vec![79, 80, 84, 73, 79, 78, 83],
            Method::Connect => vec![67, 79, 78, 78, 69, 67, 84],
            Method::Trace => vec![84, 82, 65, 67, 69],
        };
        assert(r@ =~= self.token());
        r
    }

    /// Recognises a method token; the match is exact and case-sensitive.
    pub fn parse(bytes: &[u8]) -> (r: Option<Method>)
        ensures
            r == Method::from_token(bytes@),
    {
        if bytes.len() == 0 {
            return None;
        }
        let first = bytes[0];
        let candidates: Vec<Method> = if first == 71 {
            vec![Method::Get]
        } else if first == 80 {
            vec![Method::Post, Method::Put, Method::Patch]
        } else if first == 68 {
            vec![Method::Delete]
        } else if first == 72 {
            vec![Method::Head]
        } else if first == 79 {
            vec![Method::Options]
        } else if first == 67 {
            vec![Method::Connect]
        } else if first == 84 {
            vec![Method::Trace]
        } else {
            vec![]
        };
        let mut i: usize = 0;
        while i < candidates.len()
            invariant
                bytes@.len() > 0,
                bytes@[0] == first,
                i <= candidates@.len(),
                forall|j: int| 0 <= j < i ==> bytes@ != (#[trigger] candidates@[j]).token(),
                forall|m: Method| bytes@ == m.token() ==> #[trigger] candidates@.contains(m),
            decreases candidates@.len() - i,
        {
            let m = candidates[i];
            let t = m.token_bytes();
            if bytes_eq(bytes, t.as_slice()) {
                return Some(m);
            }
            i += 1;
        }
        assert forall|m: Method| bytes@ != m.token() by {
            if bytes@ == m.token() {
                let k = choose|k: int| 0 <= k < candidates@.len() && candidates@[k] == m;
                assert(bytes@ != candidates@[k].token());
            }
        }
        None
    }

    /// The method's name as text.
    pub open spec fn name(self) -> Seq<char> {
        match self {
            Method::Get => seq!['G', 'E', 'T'],
            Method::Post => seq!['P', 'O', 'S', 'T'],
            Method::Put => seq!['P', 'U', 'T'],
            Method::Delete => seq!['D', 'E', 'L', 'E', 'T', 'E'],
            Method::Patch => seq!['P', 'A', 'T', 'C', 'H'],
            Method::Head => seq!['H', 'E', 'A', 'D'],
            Method::Options => seq!['O', 'P', 'T', 'I', 'O', 'N', 'S'],
            Method::Connect => seq!['C', 'O', 'N', 'N', 'E', 'C', 'T'],
            Method::Trace => seq!['T', 'R', 'A', 'C', 'E'],
        }
    }

    /// The method named exactly `t`, if any.
    pub open spec fn from_name(t: Seq<char>) -> Option<Method> {
        if t == Method::Get.name() {
            Some(Method::Get)
        } else if t == Method::Post.name() {
            Some(Method::Post)
        } else if t == Method::Put.name() {
            Some(Method::Put)
        } else if t == Method::Delete.name() {
            Some(Method::Delete)
        } else if t == Method::Patch.name() {
            Some(Method::Patch)
        } else if t == Method::Head.name() {
            Some(Method::Head)
        } else if t == Method::Options.name() {
            Some(Method::Options)
        } else if t == Method::Connect.name() {
            Some(Method::Connect)
        } else if t == Method::Trace.name() {
            Some(Method::Trace)
        } else {
            None
        }
    }

    /// The method's name.
    pub fn as_str(&self) -> (r: &'static str)
        ensures
            r@ == self.name(),
    {
        match self {
            Method::Get => {
                proof { reveal_strlit("GET"); }
                "GET"
            },
            Method::Post => {
                proof { reveal_strlit("POST"); }
                "POST"
            },
            Method::Put => {
                proof { reveal_strlit("PUT"); }
                "PUT"
            },
            Method::Delete => {
                proof { reveal_strlit("DELETE"); }
                "DELETE"
            },
            Method::Patch => {
                proof { reveal_strlit("PATCH"); }
                "PATCH"
            },
            Method::Head => {
                proof { reveal_strlit("HEAD"); }
                "HEAD"
            },
            Method::Options => {
                proof { reveal_strlit("OPTIONS"); }
                "OPTIONS"
            },
            Method::Connect => {
                proof { reveal_strlit("CONNECT"); }
                "CONNECT"
            },
            Method::Trace => {
                proof { reveal_strlit("TRACE"); }
                "TRACE"
            },
        }
    }

    /// Recognises an exact, already uppercase method name.
    pub fn from_upper(s: &str) -> (r: Option<Method>)
        ensures
            r == Method::from_name(s@),
    {
        let cs = chars_of(s);
        let all = vec![
            Method::Get,
            Method::Post,
            Method::Put,
            Method::Delete,
            Method::Patch,
            Method::Head,
            Method::Options,
            Method::Connect,
            Method::Trace,
        ];
        let mut i: usize = 0;
        while i < all.len()
            invariant
                cs@ == s@,
                all@ == seq![
                    Method::Get,
                    Method::Post,
                    Method::Put,
                    Method::Delete,
                    Method::Patch,
                    Method::Head,
                    Method::Options,
                    Method::Connect,
                    Method::Trace,
                ],
                i <= all@.len(),
                forall|j: int| 0 <= j < i ==> s@ != (#[trigger] all@[j]).name(),
            decreases all@.len() - i,
        {
            let m = all[i];
            let name = chars_of(m.as_str());
            if chars_eq(&cs, &name) {
                return Some(m);
            }
            i += 1;
        }
        assert(s@ != all@[0].name());
        assert(s@ != all@[8].name());
        None
    }

    /// Recognises a method name without regard to case.
    pub fn from_str(s: &str) -> (r: Result<Method, Error>)
        ensures
            match Method::from_name(upper_of(s@)) {
                Some(m) => r == Ok::<Method, Error>(m),
                None => r is Err && r->Err_0 is InvalidMethod && r->Err_0->InvalidMethod_0@ == s@,
            },
    {
        let upper = to_upper(s);
        match Method::from_upper(upper.as_str()) {
            Some(m) => Ok(m),
            None => {
                let mut msg = String::new();
                push_chars(&mut msg, s);
                Err(Error::InvalidMethod(msg))
            },
        }
    }

    /// Recognises a method from its numeric code.
    pub fn from_u8(code: u8) -> (r: Option<Method>)
        ensures
            match r {
                Some(m) => m.code() == code,
                None => code > 8,
            },
    {
        match code {
            0 => Some(Method::Get),
            1 => Some(Method::Post),
            2 => Some(Method::Put),
            3 => Some(Method::Delete),
            4 => Some(Method::Patch),
            5 => Some(Method::Head),
            6 => Some(Method::Options),
            7 => Some(Method::Connect),
            8 => Some(Method::Trace),
            _ => None,
        }
    }
}

} // verus!
