//! Security response headers: frame options and strict transport security.
use vstd::prelude::*;
use crate::text::{owned, push_chars, push_decimal, decimal};

verus! {

/// The `X-Frame-Options` policy.
#[derive(Debug, Clone)]
pub enum FrameOptions {
    Deny,
    SameOrigin,
    AllowFrom(String),
    /// Send no header.
    Omit,
}

impl FrameOptions {
    /// The header value, or `None` when no header is sent.
    pub fn as_header_value(&self) -> (r: Option<String>)
        ensures
            match self {
                FrameOptions::Deny => r is Some && r->0@ == "DENY"@,
                FrameOptions::SameOrigin => r is Some && r->0@ == "SAMEORIGIN"@,
                FrameOptions::AllowFrom(uri) => r is Some && r->0@ == "ALLOW-FROM "@ + uri@,
                FrameOptions::Omit => r is None,
            },
    {
        match self {
            FrameOptions::Deny => Some(owned("DENY")),
            FrameOptions::SameOrigin => Some(owned("SAMEORIGIN")),
            FrameOptions::AllowFrom(uri) => {
                let mut s = owned("ALLOW-FROM ");
                push_chars(&mut s, uri.as_str());
                Some(s)
            },
            FrameOptions::Omit => None,
        }
    }
}

/// `Strict-Transport-Security` settings.
#[derive(Debug, Clone)]
pub struct HstsConfig {
    pub max_age: u64,
    pub include_subdomains: bool,
    pub preload: bool,
}

impl Default for HstsConfig {
    fn default() -> (r: HstsConfig)
        ensures
            r.max_age == 31536000,
            r.include_subdomains,
            !r.preload,
    {
        HstsConfig { max_age: 31536000, include_subdomains: true, preload: false }
    }
}

impl HstsConfig {
    /// `max-age=N`, then `includeSubDomains` and `preload` when set, joined
    /// with `; `.
    pub fn as_header_value(&self) -> (r: String)
        ensures
            r@ == "max-age="@ + decimal(self.max_age as nat) + (if self.include_subdomains {
                "; includeSubDomains"@
            } else {
                Seq::empty()
            }) + (if self.preload { "; preload"@ } else { Seq::empty() }),
    {
        let mut s = owned("max-age=");
        push_decimal(&mut s, self.max_age);
        let ghost a = s@;
        if self.include_subdomains {
            push_chars(&mut s, "; includeSubDomains");
        }
        let ghost b = s@;
        if self.preload {
            push_chars(&mut s, "; preload");
        }
        proof {
            if !self.include_subdomains {
                assert(b =~= a + Seq::<char>::empty());
            }
            if !self.preload {
                assert(s@ =~= b + Seq::<char>::empty());
            }
        }
        s
    }
}

} // verus!
