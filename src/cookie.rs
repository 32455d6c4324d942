//! Cookies and their `Set-Cookie` serialization.
use vstd::prelude::*;
use crate::text::{owned, push_chars, push_signed_decimal, signed_decimal};

verus! {

/// The `SameSite` attribute.
#[derive(Debug, Clone, Copy, PartialEq, Eq, Structural)]
pub enum SameSite {
    Strict,
    Lax,
    /// Sent as `SameSite=None`.
    NoRestriction,
}

impl SameSite {
    pub open spec fn name(self) -> Seq<char> {
        match self {
            SameSite::Strict => "Strict"@,
            SameSite::Lax => "Lax"@,
            SameSite::NoRestriction => "None"@,
        }
    }

    pub fn as_str(&self) -> (r: &'static str)
        ensures
            r@ == self.name(),
    {
        match self {
            SameSite::Strict => "Strict",
            SameSite::Lax => "Lax",
            SameSite::NoRestriction => "None",
        }
    }
}

/// A cookie and its attributes.
#[derive(Debug, Clone)]
pub struct Cookie {
    pub name: String,
    pub value: String,
    pub path: Option<String>,
    pub domain: Option<String>,
    /// Unix timestamp.
    pub expires: Option<u64>,
    /// Seconds.
    pub max_age: Option<i64>,
    pub secure: bool,
    pub http_only: bool,
    pub same_site: Option<SameSite>,
}

/// `; ` followed by `label` and the text, when there is one.
pub open spec fn attr(label: Seq<char>, v: Option<Seq<char>>) -> Seq<char> {
    match v {
        Some(t) => "; "@ + label + t,
        None => Seq::empty(),
    }
}

/// `; ` and `flag` when `on`.
pub open spec fn flag(on: bool, f: Seq<char>) -> Seq<char> {
    if on { "; "@ + f } else { Seq::empty() }
}

pub open spec fn opt_view(o: Option<String>) -> Option<Seq<char>> {
    match o {
        Some(s) => Some(s@),
        None => None,
    }
}

impl Cookie {
    /// The `Set-Cookie` value: `name=value`, then each attribute that is set,
    /// joined with `; `.
    pub open spec fn header_value(&self) -> Seq<char> {
        self.name@ + "="@ + self.value@
            + attr("Path="@, opt_view(self.path))
            + attr("Domain="@, opt_view(self.domain))
            + attr("Max-Age="@, match self.max_age {
                Some(a) => Some(signed_decimal(a as int)),
                None => None,
            })
            + flag(self.secure, "Secure"@)
            + flag(self.http_only, "HttpOnly"@)
            + attr("SameSite="@, match self.same_site {
                Some(s) => Some(s.name()),
                None => None,
            })
    }

    /// A cookie with no attributes.
    pub fn new(name: &str, value: &str) -> (r: Cookie)
        ensures
            r.name@ == name@,
            r.value@ == value@,
            r.path is None && r.domain is None && r.expires is None && r.max_age is None,
            !r.secure && !r.http_only && r.same_site is None,
    {
        Cookie {
            name: owned(name),
            value: owned(value),
            path: None,
            domain: None,
            expires: None,
            max_age: None,
            secure: false,
            http_only: false,
            same_site: None,
        }
    }

    pub fn path(self, path: &str) -> (r: Cookie)
        ensures
            r.path is Some && r.path->0@ == path@,
            r.name == self.name && r.value == self.value && r.domain == self.domain,
            r.max_age == self.max_age && r.expires == self.expires,
            r.secure == self.secure && r.http_only == self.http_only && r.same_site == self.same_site,
    {
        Cookie { path: Some(owned(path)), ..self }
    }

    pub fn domain(self, domain: &str) -> (r: Cookie)
        ensures
            r.domain is Some && r.domain->0@ == domain@,
            r.name == self.name && r.value == self.value && r.path == self.path,
            r.max_age == self.max_age && r.expires == self.expires,
            r.secure == self.secure && r.http_only == self.http_only && r.same_site == self.same_site,
    {
        Cookie { domain: Some(owned(domain)), ..self }
    }

    pub fn max_age(self, seconds: i64) -> (r: Cookie)
        ensures
            r.max_age == Some(seconds),
            r.name == self.name && r.value == self.value && r.path == self.path && r.domain == self.domain,
            r.expires == self.expires,
            r.secure == self.secure && r.http_only == self.http_only && r.same_site == self.same_site,
    {
        Cookie { max_age: Some(seconds), ..self }
    }

    pub fn secure(self) -> (r: Cookie)
        ensures
            r.secure,
            r.name == self.name && r.value == self.value && r.path == self.path && r.domain == self.domain,
            r.max_age == self.max_age && r.expires == self.expires,
            r.http_only == self.http_only && r.same_site == self.same_site,
    {
        Cookie { secure: true, ..self }
    }

    pub fn http_only(self) -> (r: Cookie)
        ensures
            r.http_only,
            r.name == self.name && r.value == self.value && r.path == self.path && r.domain == self.domain,
            r.max_age == self.max_age && r.expires == self.expires,
            r.secure == self.secure && r.same_site == self.same_site,
    {
        Cookie { http_only: true, ..self }
    }

    pub fn same_site(self, same_site: SameSite) -> (r: Cookie)
        ensures
            r.same_site == Some(same_site),
            r.name == self.name && r.value == self.value && r.path == self.path && r.domain == self.domain,
            r.max_age == self.max_age && r.expires == self.expires,
            r.secure == self.secure && r.http_only == self.http_only,
    {
        Cookie { same_site: Some(same_site), ..self }
    }

    /// The `Set-Cookie` header value.
    pub fn to_header_value(&self) -> (r: String)
        ensures
            r@ == self.header_value(),
    {
        let mut out = String::new();
        push_chars(&mut out, self.name.as_str());
        push_chars(&mut out, "=");
        push_chars(&mut out, self.value.as_str());
        match &self.path {
            Some(p) => push_attr(&mut out, "Path=", p.as_str()),
            None => {},
        }
        match &self.domain {
            Some(d) => push_attr(&mut out, "Domain=", d.as_str()),
            None => {},
        }
        let ghost s2 = out@;
        match self.max_age {
            Some(a) => {
                let mut n = String::new();
                push_signed_decimal(&mut n, a);
                push_attr(&mut out, "Max-Age=", n.as_str());
            },
            None => {},
        }
        let ghost s3 = out@;
        if self.secure {
            push_chars(&mut out, "; Secure");
            proof {
                reveal_strlit("; Secure");
                reveal_strlit("; ");
                reveal_strlit("Secure");
                assert("; Secure"@ =~= "; "@ + "Secure"@);
            }
        }
        let ghost s4 = out@;
        if self.http_only {
            push_chars(&mut out, "; HttpOnly");
            proof {
                reveal_strlit("; HttpOnly");
                reveal_strlit("; ");
                reveal_strlit("HttpOnly");
                assert("; HttpOnly"@ =~= "; "@ + "HttpOnly"@);
            }
        }
        let ghost s5 = out@;
        match self.same_site {
            Some(s) => push_attr(&mut out, "SameSite=", s.as_str()),
            None => {},
        }
        proof {
            assert(s3 == s2 + attr("Max-Age="@, match self.max_age {
                Some(a) => Some(signed_decimal(a as int)),
                None => None,
            })) by {
                match self.max_age {
                    Some(a) => {},
                    None => {
                        assert(s3 =~= s2 + Seq::<char>::empty());
                    },
                }
            }
            assert(s4 =~= s3 + flag(self.secure, "Secure"@));
            assert(s5 =~= s4 + flag(self.http_only, "HttpOnly"@));
            assert(out@ =~= self.header_value());
        }
        out
    }

    /// A cookie that tells the client to drop `name`: empty value, max-age 0.
    pub fn delete(name: &str) -> (r: Cookie)
        ensures
            r.name@ == name@,
            r.value@.len() == 0,
            r.max_age == Some(0i64),
    {
        proof {
            reveal_strlit("");
        }
        Cookie::new(name, "").max_age(0)
    }
}

/// Appends `; `, the label and the text.
fn push_attr(out: &mut String, label: &str, v: &str)
    ensures
        final(out)@ == old(out)@ + attr(label@, Some(v@)),
{
    push_chars(out, "; ");
    push_chars(out, label);
    push_chars(out, v);
    assert(final(out)@ =~= old(out)@ + attr(label@, Some(v@)));
}

/// The cookie middleware.
pub struct Cookies;

impl Cookies {
    pub fn new() -> (r: Cookies) {
        Cookies
    }
}

} // verus!
