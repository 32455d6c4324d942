//! Server-sent events: event formatting and a buffered event stream.
use vstd::prelude::*;
use crate::text::{owned, push_chars, push_char, push_decimal, decimal, split_pieces, pieces, string_of, chars_of};

verus! {

/// `s` without one trailing carriage return.
pub open spec fn strip_cr(s: Seq<char>) -> Seq<char> {
    if s.len() > 0 && s.last() == '\r' { s.drop_last() } else { s }
}

/// The lines of `s` as `str::lines` gives them: split at `\n`, a `\r` before
/// the `\n` dropped, and no empty line after a final `\n`.
pub open spec fn lines_of(s: Seq<char>) -> Seq<Seq<char>> {
    let ps = pieces(s, '\n');
    let init = ps.take(ps.len() - 1).map_values(|p: Seq<char>| strip_cr(p));
    if ps.last().len() == 0 { init } else { init.push(ps.last()) }
}

/// `data: <line>\n` for each line.
pub open spec fn data_block(ls: Seq<Seq<char>>) -> Seq<char>
    decreases ls.len(),
{
    if ls.len() == 0 {
        Seq::empty()
    } else {
        data_block(ls.drop_last()) + "data: "@ + ls.last() + seq!['\n']
    }
}

/// One event.
#[derive(Debug, Clone)]
pub struct SseEvent {
    pub id: Option<String>,
    pub event: Option<String>,
    pub data: String,
    pub retry: Option<u32>,
}

/// `label`, the text and a newline, when there is a text.
pub open spec fn field_line(label: Seq<char>, v: Option<Seq<char>>) -> Seq<char> {
    match v {
        Some(t) => label + t + seq!['\n'],
        None => Seq::empty(),
    }
}

pub open spec fn opt_chars(o: Option<String>) -> Option<Seq<char>> {
    match o {
        Some(s) => Some(s@),
        None => None,
    }
}

impl SseEvent {
    /// The wire form: `id`, `event` and `retry` lines when set, a `data` line
    /// per line of data, and a blank line.
    pub open spec fn wire(&self) -> Seq<char> {
        field_line("id: "@, opt_chars(self.id)) + field_line("event: "@, opt_chars(self.event))
            + field_line("retry: "@, match self.retry {
                Some(r) => Some(decimal(r as nat)),
                None => None,
            }) + data_block(lines_of(self.data@)) + seq!['\n']
    }

    /// An event carrying only data.
    pub fn new(data: &str) -> (r: SseEvent)
        ensures
            r.data@ == data@,
            r.id is None && r.event is None && r.retry is None,
    {
        SseEvent { id: None, event: None, data: owned(data), retry: None }
    }

    pub fn id(self, id: &str) -> (r: SseEvent)
        ensures
            r.id is Some && r.id->0@ == id@,
            r.event == self.event && r.data == self.data && r.retry == self.retry,
    {
        SseEvent { id: Some(owned(id)), ..self }
    }

    pub fn event(self, event: &str) -> (r: SseEvent)
        ensures
            r.event is Some && r.event->0@ == event@,
            r.id == self.id && r.data == self.data && r.retry == self.retry,
    {
        SseEvent { event: Some(owned(event)), ..self }
    }

    pub fn retry(self, ms: u32) -> (r: SseEvent)
        ensures
            r.retry == Some(ms),
            r.id == self.id && r.event == self.event && r.data == self.data,
    {
        SseEvent { retry: Some(ms), ..self }
    }

    /// The event in wire form.
    pub fn to_string(&self) -> (r: String)
        ensures
            r@ == self.wire(),
    {
        let mut out = String::new();
        match &self.id {
            Some(id) => push_field(&mut out, "id: ", id.as_str()),
            None => {},
        }
        match &self.event {
            Some(e) => push_field(&mut out, "event: ", e.as_str()),
            None => {},
        }
        match self.retry {
            Some(r) => {
                let mut n = String::new();
                push_decimal(&mut n, r as u64);
                push_field(&mut out, "retry: ", n.as_str());
            },
            None => {},
        }
        let ghost head = out@;
        let ls = lines(self.data.as_str());
        let mut i: usize = 0;
        while i < ls.len()
            invariant
                i <= ls@.len(),
                ls@.len() == lines_of(self.data@).len(),
                forall|k: int| 0 <= k < ls@.len() ==> (#[trigger] ls@[k])@ == lines_of(self.data@)[k],
                out@ == head + data_block(lines_of(self.data@).take(i as int)),
            decreases ls@.len() - i,
        {
            let ghost before = out@;
            push_chars(&mut out, "data: ");
            push_chars(&mut out, ls[i].as_str());
            push_char(&mut out, '\n');
            assert(lines_of(self.data@).take(i + 1).drop_last() =~= lines_of(self.data@).take(i as int));
            assert(out@ =~= head + data_block(lines_of(self.data@).take(i + 1)));
            i += 1;
        }
        push_char(&mut out, '\n');
        proof {
            assert(lines_of(self.data@).take(ls@.len() as int) =~= lines_of(self.data@));
            assert(out@ =~= self.wire());
        }
        out
    }
}

/// Appends `label`, the text and a newline.
fn push_field(out: &mut String, label: &str, v: &str)
    ensures
        final(out)@ == old(out)@ + field_line(label@, Some(v@)),
{
    push_chars(out, label);
    push_chars(out, v);
    push_char(out, '\n');
    assert(final(out)@ =~= old(out)@ + field_line(label@, Some(v@)));
}

/// The lines of `s`.
pub fn lines(s: &str) -> (r: Vec<String>)
    ensures
        r@.len() == lines_of(s@).len(),
        forall|k: int| 0 <= k < r@.len() ==> (#[trigger] r@[k])@ == lines_of(s@)[k],
{
    let ps = split_pieces(s, '\n');
    let ghost pv = pieces(s@, '\n');
    let mut out: Vec<String> = Vec::new();
    let mut i: usize = 0;
    assert(pv.len() >= 1);
    let last = ps.len() - 1;
    while i < last
        invariant
            pv == pieces(s@, '\n'),
            last == ps@.len() - 1,
            ps@.len() == pv.len(),
            pv.len() >= 1,
            forall|k: int| 0 <= k < ps@.len() ==> (#[trigger] ps@[k])@ == pv[k],
            i <= pv.len() - 1,
            out@.len() == i,
            forall|k: int| 0 <= k < i ==> (#[trigger] out@[k])@ == strip_cr(pv[k]),
        decreases ps@.len() - i,
    {
        let cs = chars_of(ps[i].as_str());
        let line = if cs.len() > 0 && cs[cs.len() - 1] == '\r' {
            string_of(&cs.as_slice()[0..cs.len() - 1])
        } else {
            string_of(cs.as_slice())
        };
        proof {
            if cs@.len() > 0 && cs@.last() == '\r' {
                assert(cs@.subrange(0, cs@.len() - 1) =~= cs@.drop_last());
            }
        }
        out.push(line);
        i += 1;
    }
    if !ps[last].as_str().is_empty() {
        out.push(ps[last].clone());
    }
    proof {
        let init = pv.take(pv.len() - 1).map_values(|p: Seq<char>| strip_cr(p));
        if pv.last().len() == 0 {
            assert(string_views_eq(out@, init));
        } else {
            assert(string_views_eq(out@, init.push(pv.last())));
        }
    }
    out
}

spec fn string_views_eq(v: Seq<String>, w: Seq<Seq<char>>) -> bool {
    v.len() == w.len() && forall|k: int| 0 <= k < v.len() ==> (#[trigger] v[k])@ == w[k]
}

/// A buffer of events waiting to be sent.
pub struct SseStream {
    events: Vec<SseEvent>,
    last_event_id: Option<String>,
}

impl SseStream {
    /// The buffered events, oldest first.
    pub closed spec fn events(&self) -> Seq<SseEvent> {
        self.events@
    }

    /// The id of the last pushed event that had one.
    pub closed spec fn last_id(&self) -> Option<Seq<char>> {
        opt_chars(self.last_event_id)
    }

    pub fn new() -> (r: SseStream)
        ensures
            r.events().len() == 0,
            r.last_id() is None,
    {
        SseStream { events: Vec::new(), last_event_id: None }
    }

    /// Buffers an event, remembering its id when it has one.
    pub fn push(&mut self, event: SseEvent)
        ensures
            final(self).events() == old(self).events().push(event),
            final(self).last_id() == (match event.id {
                Some(id) => Some(id@),
                None => old(self).last_id(),
            }),
    {
        match &event.id {
            Some(id) => {
                self.last_event_id = Some(id.clone());
            },
            None => {},
        }
        self.events.push(event);
    }

    /// Buffers a data-only event.
    pub fn data(&mut self, data: &str)
        ensures
            final(self).events().len() == old(self).events().len() + 1,
            final(self).events().drop_last() == old(self).events(),
            final(self).events().last().data@ == data@,
            final(self).events().last().event is None,
            final(self).last_id() == old(self).last_id(),
    {
        self.events.push(SseEvent::new(data));
        assert(self.events@.drop_last() =~= old(self).events@);
    }

    /// Buffers a named event.
    pub fn event(&mut self, name: &str, data: &str)
        ensures
            final(self).events().len() == old(self).events().len() + 1,
            final(self).events().drop_last() == old(self).events(),
            final(self).events().last().data@ == data@,
            final(self).events().last().event is Some,
            final(self).events().last().event->0@ == name@,
            final(self).last_id() == old(self).last_id(),
    {
        self.events.push(SseEvent::new(data).event(name));
        assert(self.events@.drop_last() =~= old(self).events@);
    }

    /// Buffers a comment line, `: <text>`, as the data of an event.
    pub fn comment(&mut self, text: &str)
        ensures
            final(self).events().len() == old(self).events().len() + 1,
            final(self).events().drop_last() == old(self).events(),
            final(self).events().last().data@ == ": "@ + text@ + seq!['\n'],
            final(self).last_id() == old(self).last_id(),
    {
        let mut output = owned(": ");
        push_chars(&mut output, text);
        push_char(&mut output, '\n');
        self.events.push(SseEvent { id: None, event: None, data: output, retry: None });
        assert(self.events@.drop_last() =~= old(self).events@);
    }

    pub fn last_event_id(&self) -> (r: Option<&str>)
        ensures
            match r {
                Some(s) => self.last_id() == Some(s@),
                None => self.last_id() is None,
            },
    {
        match &self.last_event_id {
            Some(s) => Some(s.as_str()),
            None => None,
        }
    }

    /// Takes the buffered events, leaving none.
    pub fn take(&mut self) -> (r: Vec<SseEvent>)
        ensures
            r@ == old(self).events(),
            final(self).events().len() == 0,
            final(self).last_id() == old(self).last_id(),
    {
        let mut out: Vec<SseEvent> = Vec::new();
        std::mem::swap(&mut out, &mut self.events);
        out
    }

    /// Every buffered event in wire form, in order.
    pub fn to_string(&self) -> (r: String)
        ensures
            r@ == concat_wire(self.events()),
    {
        let mut out = String::new();
        let mut i: usize = 0;
        while i < self.events.len()
            invariant
                i <= self.events@.len(),
                out@ == concat_wire(self.events@.take(i as int)),
            decreases self.events@.len() - i,
        {
            let s = self.events[i].to_string();
            push_chars(&mut out, s.as_str());
            assert(self.events@.take(i + 1).drop_last() =~= self.events@.take(i as int));
            i += 1;
        }
        assert(self.events@.take(self.events@.len() as int) =~= self.events@);
        out
    }
}

/// The wire forms of `es`, concatenated.
pub open spec fn concat_wire(es: Seq<SseEvent>) -> Seq<char>
    decreases es.len(),
{
    if es.len() == 0 {
        Seq::empty()
    } else {
        concat_wire(es.drop_last()) + es.last().wire()
    }
}

/// Helpers for serving server-sent events.
pub struct Sse;

impl Sse {
    /// The response headers of an event stream.
    pub fn headers() -> (r: Vec<(&'static str, &'static str)>)
        ensures
            r@.len() == 4,
            r@[0].0@ == "Content-Type"@ && r@[0].1@ == "text/event-stream"@,
            r@[1].0@ == "Cache-Control"@ && r@[1].1@ == "no-cache"@,
            r@[2].0@ == "Connection"@ && r@[2].1@ == "keep-alive"@,
            r@[3].0@ == "X-Accel-Buffering"@ && r@[3].1@ == "no"@,
    {
        vec![
            ("Content-Type", "text/event-stream"),
            ("Cache-Control", "no-cache"),
            ("Connection", "keep-alive"),
            ("X-Accel-Buffering", "no"),
        ]
    }

    /// A data-only event in wire form.
    pub fn format_event(data: &str) -> (r: String)
        ensures
            r@ == data_block(lines_of(data@)) + seq!['\n'],
    {
        let e = SseEvent::new(data);
        let r = e.to_string();
        assert(e.wire() =~= data_block(lines_of(data@)) + seq!['\n']);
        r
    }

    /// A named event in wire form.
    pub fn format_named_event(event: &str, data: &str) -> (r: String)
        ensures
            r@ == "event: "@ + event@ + seq!['\n'] + data_block(lines_of(data@)) + seq!['\n'],
    {
        let e = SseEvent::new(data).event(event);
        let r = e.to_string();
        assert(e.wire() =~= "event: "@ + event@ + seq!['\n'] + data_block(lines_of(data@)) + seq!['\n']);
        r
    }

    /// A JSON text as a data-only event.
    pub fn format_json_str(json: &str) -> (r: String)
        ensures
            r@ == data_block(lines_of(json@)) + seq!['\n'],
    {
        Sse::format_event(json)
    }

    /// A comment that keeps the connection open.
    pub fn keep_alive() -> (r: String)
        ensures
            r@ == ": keep-alive\n\n"@,
    {
        owned(": keep-alive\n\n")
    }

    /// The `Last-Event-ID` header, owned.
    pub fn parse_last_event_id(header: Option<&str>) -> (r: Option<String>)
        ensures
            match header {
                Some(h) => r is Some && r->0@ == h@,
                None => r is None,
            },
    {
        match header {
            Some(h) => Some(owned(h)),
            None => None,
        }
    }
}

} // verus!
