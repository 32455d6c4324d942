//! Static file serving: configuration, request-path sanitizing and media
//! types. Paths are handled as text, `/`-separated.
use vstd::prelude::*;
use std::collections::HashMap;
use crate::text::{owned, push_chars, push_char, chars_of, string_of, split_pieces, pieces, str_eq, to_lower, lower_of};
use crate::compress::starts_with;

verus! {

/// Static file settings.
#[derive(Debug, Clone)]
pub struct StaticFileConfig {
    pub root: String,
    pub index: String,
    pub listing: bool,
    pub max_age: u32,
    pub etag: bool,
    pub last_modified: bool,
    pub headers: HashMap<String, String>,
    pub hidden: bool,
    pub fallback: Option<String>,
}

impl StaticFileConfig {
    /// Serves `root` with `index.html` as index, one day of caching, entity
    /// tags and modification times, no listing, hidden files refused.
    pub fn new(root: &str) -> (r: StaticFileConfig)
        ensures
            r.root@ == root@,
            r.index@ == "index.html"@,
            !r.listing && r.max_age == 86400 && r.etag && r.last_modified && !r.hidden,
            r.fallback is None,
    {
        StaticFileConfig {
            root: owned(root),
            index: owned("index.html"),
            listing: false,
            max_age: 86400,
            etag: true,
            last_modified: true,
            headers: HashMap::new(),
            hidden: false,
            fallback: None,
        }
    }

    pub fn index(self, name: &str) -> (r: StaticFileConfig)
        ensures
            r.index@ == name@,
            r.root == self.root && r.listing == self.listing && r.max_age == self.max_age && r.hidden == self.hidden,
    {
        StaticFileConfig { index: owned(name), ..self }
    }

    pub fn listing(self, enabled: bool) -> (r: StaticFileConfig)
        ensures
            r.listing == enabled,
            r.root == self.root && r.index == self.index && r.max_age == self.max_age && r.hidden == self.hidden,
    {
        StaticFileConfig { listing: enabled, ..self }
    }

    pub fn max_age(self, seconds: u32) -> (r: StaticFileConfig)
        ensures
            r.max_age == seconds,
            r.root == self.root && r.index == self.index && r.listing == self.listing && r.hidden == self.hidden,
    {
        StaticFileConfig { max_age: seconds, ..self }
    }

    pub fn etag(self, enabled: bool) -> (r: StaticFileConfig)
        ensures
            r.etag == enabled,
            r.root == self.root && r.index == self.index && r.max_age == self.max_age && r.hidden == self.hidden,
    {
        StaticFileConfig { etag: enabled, ..self }
    }

    pub fn fallback(self, file: &str) -> (r: StaticFileConfig)
        ensures
            r.fallback is Some && r.fallback->0@ == file@,
            r.root == self.root && r.index == self.index && r.max_age == self.max_age && r.hidden == self.hidden,
    {
        StaticFileConfig { fallback: Some(owned(file)), ..self }
    }

    /// Adds a response header.
    pub fn header(self, key: &str, value: &str) -> (r: StaticFileConfig)
        ensures
            r.root == self.root && r.index == self.index && r.max_age == self.max_age && r.hidden == self.hidden,
    {
        let mut c = self;
        c.headers.insert(owned(key), owned(value));
        c
    }
}

/// `s` without its leading `/` characters.
pub open spec fn strip_slashes(s: Seq<char>) -> Seq<char>
    decreases s.len(),
{
    if s.len() > 0 && s[0] == '/' { strip_slashes(s.drop_first()) } else { s }
}

/// The components kept from path segments: non-empty and not `.`.
pub open spec fn kept(segs: Seq<Seq<char>>) -> Seq<Seq<char>>
    decreases segs.len(),
{
    if segs.len() == 0 {
        Seq::empty()
    } else if segs.last().len() == 0 || segs.last() == "."@ {
        kept(segs.drop_last())
    } else {
        kept(segs.drop_last()).push(segs.last())
    }
}

/// Segments joined with `/`.
pub open spec fn slash_joined(segs: Seq<Seq<char>>) -> Seq<char>
    decreases segs.len(),
{
    if segs.len() == 0 {
        Seq::empty()
    } else if segs.len() == 1 {
        segs[0]
    } else {
        slash_joined(segs.drop_last()) + seq!['/'] + segs.last()
    }
}

/// The safe relative path for a request path: leading slashes dropped;
/// refused when a segment is hidden (unless hidden files are served) or is
/// `..`; empty and `.` segments left out.
pub open spec fn safe_path(path: Seq<char>, hidden: bool) -> Option<Seq<char>> {
    let segs = pieces(strip_slashes(path), '/');
    if !hidden && exists|k: int| 0 <= k < segs.len() && starts_with(#[trigger] segs[k], "."@) {
        None
    } else if exists|k: int| 0 <= k < segs.len() && #[trigger] segs[k] == ".."@ {
        None
    } else {
        Some(slash_joined(kept(segs)))
    }
}

/// The media type for a lowercase file extension.
pub open spec fn file_mime(e: Seq<char>) -> Seq<char> {
    if e == "html"@ || e == "htm"@ {
        "text/html; charset=utf-8"@
    } else if e == "css"@ {
        "text/css; charset=utf-8"@
    } else if e == "js"@ || e == "mjs"@ {
        "text/javascript; charset=utf-8"@
    } else if e == "json"@ {
        "application/json"@
    } else if e == "xml"@ {
        "application/xml"@
    } else if e == "txt"@ {
        "text/plain; charset=utf-8"@
    } else if e == "md"@ {
        "text/markdown; charset=utf-8"@
    } else if e == "csv"@ {
        "text/csv"@
    } else if e == "png"@ {
        "image/png"@
    } else if e == "jpg"@ || e == "jpeg"@ {
        "image/jpeg"@
    } else if e == "gif"@ {
        "image/gif"@
    } else if e == "svg"@ {
        "image/svg+xml"@
    } else if e == "ico"@ {
        "image/x-icon"@
    } else if e == "webp"@ {
        "image/webp"@
    } else if e == "avif"@ {
        "image/avif"@
    } else if e == "mp3"@ {
        "audio/mpeg"@
    } else if e == "ogg"@ {
        "audio/ogg"@
    } else if e == "wav"@ {
        "audio/wav"@
    } else if e == "mp4"@ {
        "video/mp4"@
    } else if e == "webm"@ {
        "video/webm"@
    } else if e == "woff"@ {
        "font/woff"@
    } else if e == "woff2"@ {
        "font/woff2"@
    } else if e == "ttf"@ {
        "font/ttf"@
    } else if e == "otf"@ {
        "font/otf"@
    } else if e == "eot"@ {
        "application/vnd.ms-fontobject"@
    } else if e == "zip"@ {
        "application/zip"@
    } else if e == "gz"@ || e == "gzip"@ {
        "application/gzip"@
    } else if e == "tar"@ {
        "application/x-tar"@
    } else if e == "pdf"@ {
        "application/pdf"@
    } else if e == "wasm"@ {
        "application/wasm"@
    } else {
        "application/octet-stream"@
    }
}

/// The media type for an extension that is already lowercase.
pub fn file_mime_for(e: &str) -> (r: &'static str)
    ensures
        r@ == file_mime(e@),
{
    if str_eq(e, "html") || str_eq(e, "htm") {
        "text/html; charset=utf-8"
    } else if str_eq(e, "css") {
        "text/css; charset=utf-8"
    } else if str_eq(e, "js") || str_eq(e, "mjs") {
        "text/javascript; charset=utf-8"
    } else if str_eq(e, "json") {
        "application/json"
    } else if str_eq(e, "xml") {
        "application/xml"
    } else if str_eq(e, "txt") {
        "text/plain; charset=utf-8"
    } else if str_eq(e, "md") {
        "text/markdown; charset=utf-8"
    } else if str_eq(e, "csv") {
        "text/csv"
    } else if str_eq(e, "png") {
        "image/png"
    } else if str_eq(e, "jpg") || str_eq(e, "jpeg") {
        "image/jpeg"
    } else if str_eq(e, "gif") {
        "image/gif"
    } else if str_eq(e, "svg") {
        "image/svg+xml"
    } else if str_eq(e, "ico") {
        "image/x-icon"
    } else if str_eq(e, "webp") {
        "image/webp"
    } else if str_eq(e, "avif") {
        "image/avif"
    } else if str_eq(e, "mp3") {
        "audio/mpeg"
    } else if str_eq(e, "ogg") {
        "audio/ogg"
    } else if str_eq(e, "wav") {
        "audio/wav"
    } else if str_eq(e, "mp4") {
        "video/mp4"
    } else if str_eq(e, "webm") {
        "video/webm"
    } else if str_eq(e, "woff") {
        "font/woff"
    } else if str_eq(e, "woff2") {
        "font/woff2"
    } else if str_eq(e, "ttf") {
        "font/ttf"
    } else if str_eq(e, "otf") {
        "font/otf"
    } else if str_eq(e, "eot") {
        "application/vnd.ms-fontobject"
    } else if str_eq(e, "zip") {
        "application/zip"
    } else if str_eq(e, "gz") || str_eq(e, "gzip") {
        "application/gzip"
    } else if str_eq(e, "tar") {
        "application/x-tar"
    } else if str_eq(e, "pdf") {
        "application/pdf"
    } else if str_eq(e, "wasm") {
        "application/wasm"
    } else {
        "application/octet-stream"
    }
}

/// The last non-empty segment of a path.
pub open spec fn last_segment(segs: Seq<Seq<char>>) -> Option<Seq<char>>
    decreases segs.len(),
{
    if segs.len() == 0 {
        None
    } else if segs.last().len() == 0 {
        last_segment(segs.drop_last())
    } else {
        Some(segs.last())
    }
}

/// The index of the last `.` in `s`, or -1.
pub open spec fn last_dot(s: Seq<char>) -> int
    decreases s.len(),
{
    if s.len() == 0 {
        -1
    } else if s.last() == '.' {
        s.len() - 1
    } else {
        last_dot(s.drop_last())
    }
}

/// A file name's extension, as `Path::extension` gives it: the text after
/// its last dot, when that dot is not its first character; `..` has none.
pub open spec fn extension(path: Seq<char>) -> Option<Seq<char>> {
    match last_segment(pieces(path, '/')) {
        None => None,
        Some(name) => if name == ".."@ || last_dot(name) <= 0 {
            None
        } else {
            Some(name.skip(last_dot(name) + 1))
        },
    }
}

/// The static file handler.
pub struct StaticFiles {
    pub config: StaticFileConfig,
}

impl StaticFiles {
    pub fn new(config: StaticFileConfig) -> (r: StaticFiles)
        ensures
            r.config == config,
    {
        StaticFiles { config }
    }

    /// Serves `root` with the default settings.
    pub fn serve(root: &str) -> (r: StaticFiles)
        ensures
            r.config.root@ == root@,
            !r.config.hidden,
    {
        StaticFiles::new(StaticFileConfig::new(root))
    }

    /// The relative file path a request path may open, or `None`.
    pub fn sanitize_path(&self, path: &str) -> (r: Option<String>)
        ensures
            match safe_path(path@, self.config.hidden) {
                Some(p) => r is Some && r->0@ == p,
                None => r is None,
            },
    {
        let cs = chars_of(path);
        let mut k: usize = 0;
        assert(cs@.skip(0) =~= cs@);
        while k < cs.len() && cs[k] == '/'
            invariant
                k <= cs@.len(),
                strip_slashes(cs@) == strip_slashes(cs@.skip(k as int)),
            decreases cs@.len() - k,
        {
            assert(cs@.skip(k as int).drop_first() =~= cs@.skip(k + 1));
            k += 1;
        }
        let rest = string_of(&cs.as_slice()[k..cs.len()]);
        assert(rest@ =~= cs@.skip(k as int));
        assert(strip_slashes(rest@) == rest@);
        let segs = split_pieces(rest.as_str(), '/');
        let ghost sv = pieces(strip_slashes(path@), '/');
        proof {
            reveal_strlit(".");
            reveal_strlit("..");
        }
        let mut i: usize = 0;
        let mut parts: Vec<String> = Vec::new();
        while i < segs.len()
            invariant
                sv == pieces(strip_slashes(path@), '/'),
                segs@.len() == sv.len(),
                forall|q: int| 0 <= q < segs@.len() ==> (#[trigger] segs@[q])@ == sv[q],
                i <= segs@.len(),
                !self.config.hidden ==> forall|q: int| 0 <= q < i ==> !starts_with(#[trigger] sv[q], "."@),
                forall|q: int| 0 <= q < i ==> #[trigger] sv[q] != ".."@,
                string_views(parts@) == kept(sv.take(i as int)),
            decreases segs@.len() - i,
        {
            proof {
                reveal_strlit(".");
                reveal_strlit("..");
            }
            let sc = chars_of(segs[i].as_str());
            assert(sc@ == sv[i as int]);
            if !self.config.hidden && sc.len() > 0 && sc[0] == '.' {
                assert(starts_with(sv[i as int], "."@)) by {
                    assert(sv[i as int].take(1) =~= "."@);
                }
                return None;
            }
            if str_eq(segs[i].as_str(), "..") {
                assert(sv[i as int] == ".."@);
                return None;
            }
            assert(sv.take(i + 1).drop_last() =~= sv.take(i as int));
            assert(!self.config.hidden ==> !starts_with(sv[i as int], "."@)) by {
                if !self.config.hidden && starts_with(sv[i as int], "."@) {
                    assert("."@.len() == 1);
                    assert(sv[i as int].take(1)[0] == "."@[0]);
                    assert(sc@[0] == '.');
                }
            }
            if !segs[i].as_str().is_empty() && !str_eq(segs[i].as_str(), ".") {
                let ghost before = string_views(parts@);
                parts.push(segs[i].clone());
                assert(string_views(parts@) =~= before.push(sv[i as int]));
            }
            i += 1;
        }
        assert(sv.take(sv.len() as int) =~= sv);
        let mut out = String::new();
        let mut j: usize = 0;
        let ghost items = string_views(parts@);
        while j < parts.len()
            invariant
                items == string_views(parts@),
                j <= parts@.len(),
                out@ == slash_joined(items.take(j as int)),
            decreases parts@.len() - j,
        {
            if j > 0 {
                push_char(&mut out, '/');
            }
            push_chars(&mut out, parts[j].as_str());
            assert(items.take(j + 1).drop_last() =~= items.take(j as int));
            proof {
                if j == 0 {
                    assert(out@ =~= slash_joined(items.take(1)));
                } else {
                    assert(out@ =~= slash_joined(items.take(j + 1)));
                }
            }
            j += 1;
        }
        assert(items.take(items.len() as int) =~= items);
        Some(out)
    }

    /// The media type for a file path, by its extension in any case.
    pub fn mime_type(&self, path: &str) -> (r: &'static str)
        ensures
            r@ == (match extension(path@) {
                Some(e) => file_mime(lower_of(e)),
                None => file_mime(lower_of(Seq::empty())),
            }),
    {
        let segs = split_pieces(path, '/');
        let ghost sv = pieces(path@, '/');
        let mut n = segs.len();
        assert(sv.take(sv.len() as int) =~= sv);
        while n > 0 && segs[n - 1].as_str().is_empty()
            invariant
                n <= segs@.len(),
                segs@.len() == sv.len(),
                forall|q: int| 0 <= q < segs@.len() ==> (#[trigger] segs@[q])@ == sv[q],
                last_segment(sv) == last_segment(sv.take(n as int)),
            decreases n,
        {
            assert(sv.take(n as int).drop_last() =~= sv.take(n - 1));
            n -= 1;
        }
        let ext: String = if n == 0 {
            String::new()
        } else {
            assert(sv.take(n as int).last() == sv[n - 1]);
            let name = chars_of(segs[n - 1].as_str());
            let mut d = name.len();
            assert(name@.take(name@.len() as int) =~= name@);
            while d > 0 && name[d - 1] != '.'
                invariant
                    d <= name@.len(),
                    last_dot(name@) == last_dot(name@.take(d as int)),
                decreases d,
            {
                assert(name@.take(d as int).drop_last() =~= name@.take(d - 1));
                d -= 1;
            }
            proof {
                reveal_strlit("..");
                if d > 0 {
                    assert(name@.take(d as int).last() == '.');
                    assert(name@.take(d as int).len() == d);
                } else {
                    assert(name@.take(0) =~= Seq::<char>::empty());
                }
            }
            if d <= 1 || str_eq(segs[n - 1].as_str(), "..") {
                String::new()
            } else {
                let e = string_of(&name.as_slice()[d..name.len()]);
                assert(e@ =~= name@.skip(d as int));
                e
            }
        };
        let lower = to_lower(ext.as_str());
        file_mime_for(lower.as_str())
    }
}

pub open spec fn string_views(v: Seq<String>) -> Seq<Seq<char>> {
    v.map_values(|s: String| s@)
}

} // verus!
