//! Cross-origin resource sharing: allowed origins, methods and headers, and
//! the response headers that announce them.
use vstd::prelude::*;
use crate::method::Method;
use crate::response::Response;
use crate::text::{owned, push_chars, push_decimal, decimal, str_eq};

verus! {

/// CORS settings; no origins means every origin.
#[derive(Debug, Clone)]
pub struct CorsConfig {
    pub origins: Vec<String>,
    pub methods: Vec<Method>,
    pub headers: Vec<String>,
    pub expose_headers: Vec<String>,
    pub credentials: bool,
    pub max_age: u32,
}

pub open spec fn string_views(v: Seq<String>) -> Seq<Seq<char>> {
    v.map_values(|s: String| s@)
}

impl CorsConfig {
    /// Any origin; the seven common methods; `Content-Type`,
    /// `Authorization` and `X-Requested-With`; no credentials; one day.
    pub fn new() -> (r: CorsConfig)
        ensures
            r.origins@.len() == 0,
            r.methods@ == seq![Method::Get, Method::Post, Method::Put, Method::Delete, Method::Patch, Method::Head, Method::Options],
            string_views(r.headers@) == seq!["Content-Type"@, "Authorization"@, "X-Requested-With"@],
            r.expose_headers@.len() == 0,
            !r.credentials,
            r.max_age == 86400,
    {
        let methods = vec![Method::Get, Method::Post, Method::Put, Method::Delete, Method::Patch, Method::Head, Method::Options];
        let headers = vec![owned("Content-Type"), owned("Authorization"), owned("X-Requested-With")];
        assert(string_views(headers@) =~= seq!["Content-Type"@, "Authorization"@, "X-Requested-With"@]);
        CorsConfig { origins: Vec::new(), methods, headers, expose_headers: Vec::new(), credentials: false, max_age: 86400 }
    }

    pub fn allow_origin(self, origin: &str) -> (r: CorsConfig)
        ensures
            string_views(r.origins@) == string_views(self.origins@).push(origin@),
            r.methods == self.methods && r.headers == self.headers && r.max_age == self.max_age,
    {
        let mut c = self;
        c.origins.push(owned(origin));
        assert(string_views(c.origins@) =~= string_views(self.origins@).push(origin@));
        c
    }

    pub fn allow_all_origins(self) -> (r: CorsConfig)
        ensures
            r.origins@.len() == 0,
            r.methods == self.methods && r.headers == self.headers && r.max_age == self.max_age,
    {
        CorsConfig { origins: Vec::new(), ..self }
    }

    /// Adds a method unless it is already allowed.
    pub fn allow_method(self, method: Method) -> (r: CorsConfig)
        ensures
            r.methods@ == (if self.methods@.contains(method) { self.methods@ } else { self.methods@.push(method) }),
            r.origins == self.origins && r.headers == self.headers,
    {
        let mut c = self;
        let mut i: usize = 0;
        while i < c.methods.len()
            invariant
                c.methods@ == self.methods@,
                c.origins == self.origins && c.headers == self.headers,
                i <= c.methods@.len(),
                forall|k: int| 0 <= k < i ==> c.methods@[k] != method,
            decreases c.methods@.len() - i,
        {
            if c.methods[i] == method {
                return c;
            }
            i += 1;
        }
        c.methods.push(method);
        c
    }

    pub fn allow_header(self, header: &str) -> (r: CorsConfig)
        ensures
            string_views(r.headers@) == string_views(self.headers@).push(header@),
            r.origins == self.origins && r.methods == self.methods,
    {
        let mut c = self;
        c.headers.push(owned(header));
        assert(string_views(c.headers@) =~= string_views(self.headers@).push(header@));
        c
    }

    pub fn expose_header(self, header: &str) -> (r: CorsConfig)
        ensures
            string_views(r.expose_headers@) == string_views(self.expose_headers@).push(header@),
            r.origins == self.origins && r.methods == self.methods && r.headers == self.headers,
    {
        let mut c = self;
        c.expose_headers.push(owned(header));
        assert(string_views(c.expose_headers@) =~= string_views(self.expose_headers@).push(header@));
        c
    }

    pub fn allow_credentials(self) -> (r: CorsConfig)
        ensures
            r.credentials,
            r.origins == self.origins && r.methods == self.methods && r.max_age == self.max_age,
    {
        CorsConfig { credentials: true, ..self }
    }

    pub fn max_age(self, seconds: u32) -> (r: CorsConfig)
        ensures
            r.max_age == seconds,
            r.origins == self.origins && r.methods == self.methods && r.credentials == self.credentials,
    {
        CorsConfig { max_age: seconds, ..self }
    }
}

/// Items joined with `, `.
pub open spec fn comma_list(items: Seq<Seq<char>>) -> Seq<char>
    decreases items.len(),
{
    if items.len() == 0 {
        Seq::empty()
    } else if items.len() == 1 {
        items[0]
    } else {
        comma_list(items.drop_last()) + ", "@ + items.last()
    }
}

fn join_list(items: &Vec<String>) -> (r: String)
    ensures
        r@ == comma_list(string_views(items@)),
{
    let ghost v = string_views(items@);
    let mut s = String::new();
    let mut i: usize = 0;
    while i < items.len()
        invariant
            v == string_views(items@),
            i <= items@.len(),
            s@ == comma_list(v.take(i as int)),
        decreases items@.len() - i,
    {
        if i > 0 {
            push_chars(&mut s, ", ");
        }
        push_chars(&mut s, items[i].as_str());
        assert(v.take(i + 1).drop_last() =~= v.take(i as int));
        proof {
            if i == 0 {
                assert(s@ =~= comma_list(v.take(1)));
            } else {
                assert(s@ =~= comma_list(v.take(i + 1)));
            }
        }
        i += 1;
    }
    assert(v.take(v.len() as int) =~= v);
    s
}

/// The CORS middleware.
pub struct Cors {
    pub config: CorsConfig,
}

impl Cors {
    pub fn new(config: CorsConfig) -> (r: Cors)
        ensures
            r.config == config,
    {
        Cors { config }
    }

    /// The defaults, with every origin allowed.
    pub fn permissive() -> (r: Cors)
        ensures
            r.config.origins@.len() == 0,
    {
        Cors::new(CorsConfig::new().allow_all_origins())
    }

    /// Every origin when none is listed; otherwise one listed exactly, or `*`.
    pub fn is_origin_allowed(&self, origin: &str) -> (r: bool)
        ensures
            r == (self.config.origins@.len() == 0 || exists|k: int|
                0 <= k < self.config.origins@.len() && ((#[trigger] self.config.origins@[k])@ == origin@
                    || self.config.origins@[k]@ == "*"@)),
    {
        if self.config.origins.len() == 0 {
            return true;
        }
        let mut i: usize = 0;
        while i < self.config.origins.len()
            invariant
                i <= self.config.origins@.len(),
                forall|k: int| 0 <= k < i ==> (#[trigger] self.config.origins@[k])@ != origin@ && self.config.origins@[k]@ != "*"@,
            decreases self.config.origins@.len() - i,
        {
            if str_eq(self.config.origins[i].as_str(), origin) || str_eq(self.config.origins[i].as_str(), "*") {
                return true;
            }
            i += 1;
        }
        false
    }

    /// The allowed methods' names joined with `, `.
    pub fn methods_string(&self) -> (r: String)
        ensures
            r@ == comma_list(self.config.methods@.map_values(|m: Method| m.name())),
    {
        let mut names: Vec<String> = Vec::new();
        let mut i: usize = 0;
        while i < self.config.methods.len()
            invariant
                i <= self.config.methods@.len(),
                string_views(names@) == self.config.methods@.map_values(|m: Method| m.name()).take(i as int),
            decreases self.config.methods@.len() - i,
        {
            let ghost before = string_views(names@);
            names.push(owned(self.config.methods[i].as_str()));
            assert(string_views(names@) =~= before.push(self.config.methods@[i as int].name()));
            assert(self.config.methods@.map_values(|m: Method| m.name()).take(i + 1) =~= before.push(
                self.config.methods@[i as int].name(),
            ));
            i += 1;
        }
        assert(self.config.methods@.map_values(|m: Method| m.name()).take(self.config.methods@.len() as int)
            =~= self.config.methods@.map_values(|m: Method| m.name()));
        join_list(&names)
    }

    /// The allowed request headers joined with `, `.
    pub fn headers_string(&self) -> (r: String)
        ensures
            r@ == comma_list(string_views(self.config.headers@)),
    {
        join_list(&self.config.headers)
    }

    /// Appends the CORS headers for a request from `origin`: the allowed
    /// origin (`*` when every origin is allowed), methods, request headers
    /// and exposed headers when there are any, credentials when allowed,
    /// and the max age.
    pub fn add_cors_headers(&self, res: &mut Response, origin: &str)
        ensures
            final(res).status == old(res).status,
            final(res).body == old(res).body,
            final(res).headers@.len() >= old(res).headers@.len() + 3,
            final(res).headers@.take(old(res).headers@.len() as int) == old(res).headers@,
    {
        let origin_value = if self.config.origins.len() == 0 { owned("*") } else { owned(origin) };
        res.headers.push((owned("Access-Control-Allow-Origin"), origin_value));
        res.headers.push((owned("Access-Control-Allow-Methods"), self.methods_string()));
        if self.config.headers.len() > 0 {
            res.headers.push((owned("Access-Control-Allow-Headers"), self.headers_string()));
        }
        if self.config.expose_headers.len() > 0 {
            res.headers.push((owned("Access-Control-Expose-Headers"), join_list(&self.config.expose_headers)));
        }
        if self.config.credentials {
            res.headers.push((owned("Access-Control-Allow-Credentials"), owned("true")));
        }
        let mut age = String::new();
        push_decimal(&mut age, self.config.max_age as u64);
        res.headers.push((owned("Access-Control-Max-Age"), age));
        assert(res.headers@.take(old(res).headers@.len() as int) =~= old(res).headers@);
    }
}

} // verus!
