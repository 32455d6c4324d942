//! Per-method radix-trie router: static segments, `:name` parameters and
//! `*name` wildcards, matched with static-then-parameter-then-wildcard priority.
use vstd::prelude::*;
use crate::text::{chars_of, string_of, push_char, push_chars, to_upper, upper_of};

verus! {

pub const SLASH: char = '/';

/// One step of splitting on `/`: the segments closed so far and the one
/// being read.
pub open spec fn split_step(st: (Seq<Seq<char>>, Seq<char>), c: char) -> (Seq<Seq<char>>, Seq<char>) {
    if c == SLASH {
        (close_segment(st.0, st.1), Seq::empty())
    } else {
        (st.0, st.1.push(c))
    }
}

/// Closes the current segment, dropping it when it is empty.
pub open spec fn close_segment(done: Seq<Seq<char>>, cur: Seq<char>) -> Seq<Seq<char>> {
    if cur.len() > 0 { done.push(cur) } else { done }
}

/// The state after reading all of `p`.
pub open spec fn split_state(p: Seq<char>) -> (Seq<Seq<char>>, Seq<char>)
    decreases p.len(),
{
    if p.len() == 0 {
        (Seq::empty(), Seq::empty())
    } else {
        split_step(split_state(p.drop_last()), p.last())
    }
}

/// The non-empty `/`-separated segments of a path, in order.
pub open spec fn segments(p: Seq<char>) -> Seq<Seq<char>> {
    close_segment(split_state(p).0, split_state(p).1)
}

/// Segments joined with `/`.
pub open spec fn join_segments(segs: Seq<Seq<char>>) -> Seq<char>
    decreases segs.len(),
{
    if segs.len() == 0 {
        Seq::empty()
    } else if segs.len() == 1 {
        segs[0]
    } else {
        join_segments(segs.drop_last()).push(SLASH) + segs.last()
    }
}

/// A leading slash never changes the segments.
pub proof fn lemma_leading_slash(p: Seq<char>)
    ensures
        split_state(seq![SLASH] + p) == split_state(p),
    decreases p.len(),
{
    if p.len() == 0 {
        assert(split_state(seq![SLASH]) == split_step(split_state(seq![SLASH].drop_last()), SLASH));
        assert(seq![SLASH].drop_last() =~= Seq::<char>::empty());
    } else {
        lemma_leading_slash(p.drop_last());
        assert((seq![SLASH] + p).drop_last() =~= seq![SLASH] + p.drop_last());
    }
}

/// Leading and trailing slashes are insignificant: `/users`, `/users/` and
/// `//users//` give the same segments, as `users` does.
pub proof fn lemma_slashes_insignificant(p: Seq<char>)
    ensures
        segments(seq![SLASH] + p) == segments(p),
        segments(p.push(SLASH)) == segments(p),
{
    lemma_leading_slash(p);
    assert(p.push(SLASH).drop_last() =~= p);
}

/// The segments of a path, as strings.
pub fn path_segments(path: &str) -> (r: Vec<String>)
    ensures
        r@.len() == segments(path@).len(),
        forall|i: int| 0 <= i < r@.len() ==> (#[trigger] r@[i])@ == segments(path@)[i],
{
    let cs = chars_of(path);
    let mut done: Vec<String> = Vec::new();
    let mut cur: Vec<char> = Vec::new();
    let mut i: usize = 0;
    while i < cs.len()
        invariant
            cs@ == path@,
            i <= cs@.len(),
            done@.len() == split_state(cs@.take(i as int)).0.len(),
            forall|k: int| 0 <= k < done@.len() ==> (#[trigger] done@[k])@ == split_state(cs@.take(i as int)).0[k],
            cur@ == split_state(cs@.take(i as int)).1,
        decreases cs@.len() - i,
    {
        let c = cs[i];
        assert(cs@.take(i + 1).drop_last() =~= cs@.take(i as int));
        if c == SLASH {
            if cur.len() > 0 {
                let seg = string_of(cur.as_slice());
                done.push(seg);
            }
            cur = Vec::new();
        } else {
            cur.push(c);
        }
        i += 1;
    }
    if cur.len() > 0 {
        let seg = string_of(cur.as_slice());
        done.push(seg);
    }
    assert(cs@.take(cs@.len() as int) =~= cs@);
    done
}

/// A successful lookup: the handler and the captured `(name, value)` pairs,
/// in the order their segments appear in the pattern.
#[derive(Debug, Clone, PartialEq)]
pub struct Match {
    pub handler_id: u32,
    pub params: Vec<(String, String)>,
}

/// The views of captured pairs.
pub open spec fn pair_views(v: Seq<(String, String)>) -> Seq<(Seq<char>, Seq<char>)> {
    v.map_values(|p: (String, String)| (p.0@, p.1@))
}

/// The views of a list of segment strings.
pub open spec fn string_views(v: Seq<String>) -> Seq<Seq<char>> {
    v.map_values(|s: String| s@)
}
/// The trie of one method, held as parallel per-node vectors (node 0 is the
/// root) and a list of static edges `(parent, segment, child)`.
pub struct Trie {
    handler: Vec<Option<u32>>,
    param_child: Vec<Option<usize>>,
    param_name: Vec<String>,
    wild_handler: Vec<Option<u32>>,
    wild_name: Vec<String>,
    edges: Vec<(usize, String, usize)>,
}

/// What a trie holds: per node, its handler, its parameter child and that
/// child's name, its wildcard handler and name; and the static edges
/// `(parent, segment, child)` in order of creation.
pub struct TrieModel {
    pub handler: Seq<Option<u32>>,
    pub param_child: Seq<Option<usize>>,
    pub param_name: Seq<Seq<char>>,
    pub wild_handler: Seq<Option<u32>>,
    pub wild_name: Seq<Seq<char>>,
    pub edges: Seq<(usize, Seq<char>, usize)>,
}

/// A trie with a bare root.
pub open spec fn empty_trie() -> TrieModel {
    TrieModel {
        handler: seq![None],
        param_child: seq![None],
        param_name: seq![Seq::empty()],
        wild_handler: seq![None],
        wild_name: seq![Seq::empty()],
        edges: Seq::empty(),
    }
}

/// Every per-node sequence has one entry per node, and every link points at
/// a node.
pub open spec fn trie_wf(m: TrieModel) -> bool {
    &&& m.handler.len() >= 1
    &&& m.param_child.len() == m.handler.len()
    &&& m.param_name.len() == m.handler.len()
    &&& m.wild_handler.len() == m.handler.len()
    &&& m.wild_name.len() == m.handler.len()
    &&& forall|i: int| 0 <= i < m.param_child.len() && (#[trigger] m.param_child[i]) is Some
        ==> m.param_child[i]->0 < m.handler.len()
    &&& forall|e: int| 0 <= e < m.edges.len() ==> (#[trigger] m.edges[e]).0 < m.handler.len() && m.edges[e].2
        < m.handler.len()
}

/// The first edge at or after `from` that leaves `parent` under `key`, or the
/// number of edges when there is none.
pub open spec fn edge_index(edges: Seq<(usize, Seq<char>, usize)>, parent: int, key: Seq<char>, from: int) -> int
    decreases edges.len() - from,
{
    if from < 0 || from >= edges.len() {
        edges.len() as int
    } else if edges[from].0 == parent && edges[from].1 == key {
        from
    } else {
        edge_index(edges, parent, key, from + 1)
    }
}

/// The static child of node `i` for segment `seg`.
pub open spec fn static_child(m: TrieModel, i: int, seg: Seq<char>) -> Option<int> {
    let e = edge_index(m.edges, i, seg, 0);
    if e < m.edges.len() { Some(m.edges[e].2 as int) } else { None }
}

/// The match for `segs[k..]` starting at node `i`: the static child first,
/// then the parameter child (capturing the segment under its name), then the
/// wildcard (capturing every remaining segment joined by `/`), backtracking
/// when a branch finds nothing.
pub open spec fn find_from(m: TrieModel, i: int, segs: Seq<Seq<char>>, k: int) -> Option<(u32, Seq<(Seq<char>, Seq<char>)>)>
    decreases segs.len() - k,
{
    if i < 0 || i >= m.handler.len() || k < 0 {
        None
    } else if k >= segs.len() {
        match m.handler[i] {
            Some(h) => Some((h, Seq::empty())),
            None => None,
        }
    } else {
        let by_static = match static_child(m, i, segs[k]) {
            Some(c) => find_from(m, c, segs, k + 1),
            None => None,
        };
        let by_param = match m.param_child[i] {
            Some(c) => match find_from(m, c as int, segs, k + 1) {
                Some((h, ps)) => Some((h, seq![(m.param_name[i], segs[k])] + ps)),
                None => None,
            },
            None => None,
        };
        if by_static is Some {
            by_static
        } else if by_param is Some {
            by_param
        } else {
            match m.wild_handler[i] {
                Some(h) => Some((h, seq![(m.wild_name[i], join_segments(segs.subrange(k, segs.len() as int)))])),
                None => None,
            }
        }
    }
}

/// The model with one more node, bare.
pub open spec fn push_node(m: TrieModel) -> TrieModel {
    TrieModel {
        handler: m.handler.push(None),
        param_child: m.param_child.push(None),
        param_name: m.param_name.push(Seq::empty()),
        wild_handler: m.wild_handler.push(None),
        wild_name: m.wild_name.push(Seq::empty()),
        edges: m.edges,
    }
}

/// Registering `h` for `segs[k..]` below node `cur`: a literal segment
/// follows its static child, created when missing; a `:name` segment follows
/// the parameter child, created with that name only when there is none; a
/// `*` or `*name` segment replaces the wildcard (named `*` when bare) and
/// ends the walk; at the end of the segments the node gets the handler.
pub open spec fn insert_from(m: TrieModel, segs: Seq<Seq<char>>, k: int, cur: int, h: u32) -> TrieModel
    decreases segs.len() - k,
{
    if k < 0 || k >= segs.len() {
        TrieModel { handler: m.handler.update(cur, Some(h)), ..m }
    } else {
        let seg = segs[k];
        let n = m.handler.len();
        if seg.len() > 0 && seg[0] == ':' {
            match m.param_child[cur] {
                Some(c) => insert_from(m, segs, k + 1, c as int, h),
                None => {
                    let m1 = push_node(m);
                    insert_from(
                        TrieModel {
                            param_child: m1.param_child.update(cur, Some(n as usize)),
                            param_name: m1.param_name.update(cur, seg.skip(1)),
                            ..m1
                        },
                        segs,
                        k + 1,
                        n as int,
                        h,
                    )
                },
            }
        } else if seg.len() > 0 && seg[0] == '*' {
            TrieModel {
                wild_handler: m.wild_handler.update(cur, Some(h)),
                wild_name: m.wild_name.update(cur, if seg.len() == 1 { seg } else { seg.skip(1) }),
                ..m
            }
        } else {
            let e = edge_index(m.edges, cur, seg, 0);
            if e < m.edges.len() {
                insert_from(m, segs, k + 1, m.edges[e].2 as int, h)
            } else {
                let m1 = push_node(m);
                insert_from(TrieModel { edges: m1.edges.push((cur as usize, seg, n as usize)), ..m1 }, segs, k + 1, n as int, h)
            }
        }
    }
}

/// The trie after registering `h` for the pattern segments `segs`.
pub open spec fn insert_spec(m: TrieModel, segs: Seq<Seq<char>>, h: u32) -> TrieModel {
    insert_from(m, segs, 0, 0, h)
}

impl Trie {
    /// What the trie holds.
    pub closed spec fn model(&self) -> TrieModel {
        TrieModel {
            handler: self.handler@,
            param_child: self.param_child@,
            param_name: self.param_name@.map_values(|s: String| s@),
            wild_handler: self.wild_handler@,
            wild_name: self.wild_name@.map_values(|s: String| s@),
            edges: self.edges@.map_values(|e: (usize, String, usize)| (e.0, e.1@, e.2)),
        }
    }

    /// Number of nodes.
    pub open spec fn size(&self) -> int {
        self.model().handler.len() as int
    }

    pub open spec fn wf(&self) -> bool {
        trie_wf(self.model())
    }

    /// A trie with a bare root.
    pub fn new() -> (r: Trie)
        ensures
            r.model() == empty_trie(),
    {
        let mut handler = Vec::new();
        handler.push(None);
        let mut param_child = Vec::new();
        param_child.push(None);
        let mut param_name = Vec::new();
        param_name.push(String::new());
        let mut wild_handler = Vec::new();
        wild_handler.push(None);
        let mut wild_name = Vec::new();
        wild_name.push(String::new());
        let t = Trie { handler, param_child, param_name, wild_handler, wild_name, edges: Vec::new() };
        assert(t.model().handler =~= empty_trie().handler);
        assert(t.model().param_child =~= empty_trie().param_child);
        assert(t.model().param_name =~= empty_trie().param_name);
        assert(t.model().wild_handler =~= empty_trie().wild_handler);
        assert(t.model().wild_name =~= empty_trie().wild_name);
        assert(t.model().edges =~= empty_trie().edges);
        t
    }

    /// The static child of node `i` for `seg`.
    fn child_of(&self, i: usize, seg: &String) -> (r: Option<usize>)
        requires
            self.wf(),
        ensures
            r == (match static_child(self.model(), i as int, seg@) {
                Some(c) => Some(c as usize),
                None => None,
            }),
            r is Some ==> r->0 < self.size(),
    {
        let ghost m = self.model();
        let mut e: usize = 0;
        while e < self.edges.len()
            invariant
                self.wf(),
                m == self.model(),
                e <= self.edges@.len(),
                edge_index(m.edges, i as int, seg@, 0) == edge_index(m.edges, i as int, seg@, e as int),
            decreases self.edges@.len() - e,
        {
            let edge = &self.edges[e];
            assert(m.edges[e as int] == (edge.0, edge.1@, edge.2));
            if edge.0 == i && edge.1 == *seg {
                return Some(edge.2);
            }
            e += 1;
        }
        None
    }
}

/// Copies the captured pairs.
fn clone_params(v: &Vec<(String, String)>) -> (r: Vec<(String, String)>)
    ensures
        pair_views(r@) == pair_views(v@),
{
    let mut r: Vec<(String, String)> = Vec::new();
    let mut i: usize = 0;
    while i < v.len()
        invariant
            i <= v@.len(),
            pair_views(r@) == pair_views(v@.take(i as int)),
        decreases v@.len() - i,
    {
        let p = &v[i];
        r.push((p.0.clone(), p.1.clone()));
        assert(pair_views(v@.take(i + 1)) =~= pair_views(v@.take(i as int)).push((v@[i as int].0@, v@[i as int].1@)));
        assert(pair_views(r@) =~= pair_views(v@.take(i + 1)));
        i += 1;
    }
    assert(v@.take(v@.len() as int) =~= v@);
    r
}

/// `segs[k..]` joined with `/`.
fn join_from(segs: &Vec<String>, k: usize) -> (r: String)
    requires
        k <= segs@.len(),
    ensures
        r@ == join_segments(string_views(segs@).subrange(k as int, segs@.len() as int)),
{
    let mut r = String::new();
    let mut j: usize = k;
    while j < segs.len()
        invariant
            k <= j <= segs@.len(),
            r@ == join_segments(string_views(segs@).subrange(k as int, j as int)),
        decreases segs@.len() - j,
    {
        let ghost before = string_views(segs@).subrange(k as int, j as int);
        let ghost after = string_views(segs@).subrange(k as int, j + 1);
        assert(after.drop_last() =~= before);
        if j > k {
            push_char(&mut r, SLASH);
        } else {
            assert(after =~= seq![segs@[j as int]@]);
        }
        push_chars(&mut r, segs[j].as_str());
        j += 1;
    }
    r
}

impl Trie {
    /// Looks up `segs[k..]` from node `i`; `params` holds the pairs captured
    /// above `i`, and is left as it was when nothing matches.
    fn find_node(&self, i: usize, segs: &Vec<String>, k: usize, params: &mut Vec<(String, String)>) -> (r: Option<Match>)
        requires
            self.wf(),
            i < self.size(),
            k <= segs@.len(),
        ensures
            match find_from(self.model(), i as int, string_views(segs@), k as int) {
                None => r is None && final(params)@ == old(params)@,
                Some((h, ps)) => r is Some && r->0.handler_id == h && pair_views(r->0.params@)
                    == pair_views(old(params)@) + ps,
            },
        decreases segs@.len() - k,
    {
        let ghost sv = string_views(segs@);
        let ghost m = self.model();
        assert(m.param_name[i as int] == self.param_name@[i as int]@);
        assert(m.wild_name[i as int] == self.wild_name@[i as int]@);
        if k >= segs.len() {
            return match self.handler[i] {
                Some(h) => {
                    assert(pair_views(old(params)@) + Seq::empty() =~= pair_views(old(params)@));
                    Some(Match { handler_id: h, params: clone_params(params) })
                },
                None => None,
            };
        }
        let seg = &segs[k];
        assert(sv[k as int] == seg@);
        match self.child_of(i, seg) {
            Some(c) => {
                match self.find_node(c, segs, k + 1, params) {
                    Some(m) => {
                        return Some(m);
                    },
                    None => {},
                }
            },
            None => {},
        }
        match self.param_child[i] {
            Some(c) => {
                let ghost before = params@;
                params.push((self.param_name[i].clone(), seg.clone()));
                let ghost pushed = params@;
                match self.find_node(c, segs, k + 1, params) {
                    Some(m) => {
                        assert(pair_views(pushed) =~= pair_views(before).push((self.param_name@[i as int]@, sv[k as int])));
                        let ghost ps = (find_from(self.model(), c as int, sv, k + 1)->0).1;
                        assert(pair_views(pushed) + ps =~= pair_views(before) + (seq![(self.param_name@[i as int]@, sv[k as int])] + ps));
                        return Some(m);
                    },
                    None => {
                        params.pop();
                        assert(params@ =~= before);
                    },
                }
            },
            None => {},
        }
        match self.wild_handler[i] {
            Some(h) => {
                let rest = join_from(segs, k);
                let mut out = clone_params(params);
                out.push((self.wild_name[i].clone(), rest));
                assert(pair_views(out@) =~= pair_views(params@) + seq![(self.wild_name@[i as int]@, join_segments(sv.subrange(k as int, sv.len() as int)))]);
                Some(Match { handler_id: h, params: out })
            },
            None => None,
        }
    }
}
/// A segment that is neither a `:` parameter nor a `*` wildcard.
pub open spec fn is_literal(seg: Seq<char>) -> bool {
    seg.len() == 0 || (seg[0] != ':' && seg[0] != '*')
}

proof fn lemma_edge_index_bound(edges: Seq<(usize, Seq<char>, usize)>, p: int, key: Seq<char>, from: int)
    requires
        0 <= from,
    ensures
        from <= edge_index(edges, p, key, from) <= edges.len() || (from > edges.len()),
        edge_index(edges, p, key, from) < edges.len() ==> edges[edge_index(edges, p, key, from)].0 == p,
    decreases edges.len() - from,
{
    if from < edges.len() {
        lemma_edge_index_bound(edges, p, key, from + 1);
    }
}

impl Trie {
    /// Appends a fresh node with no links.
    fn new_node(&mut self) -> (r: usize)
        requires
            old(self).wf(),
        ensures
            final(self).wf(),
            r == old(self).size(),
            final(self).model() == push_node(old(self).model()),
    {
        let r = self.handler.len();
        self.handler.push(None);
        self.param_child.push(None);
        self.param_name.push(String::new());
        self.wild_handler.push(None);
        self.wild_name.push(String::new());
        proof {
            let m = self.model();
            let p = push_node(old(self).model());
            assert(m.param_name =~= p.param_name);
            assert(m.wild_name =~= p.wild_name);
            assert(m.edges =~= p.edges);
            assert(m.handler =~= p.handler);
            assert(m.param_child =~= p.param_child);
            assert(m.wild_handler =~= p.wild_handler);
        }
        r
    }

    /// Registers `handler_id` for the pattern `segs`, as `insert_spec`
    /// describes, when the trie has room for the nodes it may add; otherwise
    /// leaves the trie as it was.
    pub fn insert(&mut self, segs: &Vec<String>, handler_id: u32)
        requires
            old(self).wf(),
        ensures
            final(self).wf(),
            final(self).model() == (if old(self).size() + segs@.len() < usize::MAX {
                insert_spec(old(self).model(), string_views(segs@), handler_id)
            } else {
                old(self).model()
            }),
    {
        let ghost sv = string_views(segs@);
        let ghost goal = insert_spec(self.model(), sv, handler_id);
        if self.handler.len() >= usize::MAX - segs.len() {
            return;
        }
        let mut cur: usize = 0;
        let mut k: usize = 0;
        while k < segs.len()
            invariant
                self.wf(),
                self.size() + segs@.len() - k < usize::MAX,
                cur < self.size(),
                k <= segs@.len(),
                sv == string_views(segs@),
                old(self).size() + segs@.len() < usize::MAX,
                goal == insert_spec(old(self).model(), sv, handler_id),
                insert_from(self.model(), sv, k as int, cur as int, handler_id) == goal,
            decreases segs@.len() - k,
        {
            let seg = &segs[k];
            assert(sv[k as int] == seg@);
            let cs = chars_of(seg.as_str());
            let ghost m = self.model();
            let ghost n = m.handler.len();
            if cs.len() > 0 && cs[0] == ':' {
                let next = match self.param_child[cur] {
                    Some(c) => c,
                    None => {
                        let n = self.new_node();
                        self.param_child.set(cur, Some(n));
                        let name = string_of(&cs.as_slice()[1..cs.len()]);
                        assert(name@ =~= seg@.skip(1));
                        self.param_name.set(cur, name);
                        proof {
                            let m1 = push_node(m);
                            let want = TrieModel {
                                param_child: m1.param_child.update(cur as int, Some(n)),
                                param_name: m1.param_name.update(cur as int, seg@.skip(1)),
                                ..m1
                            };
                            assert(self.model().param_name =~= want.param_name);
                            assert(self.model().param_child =~= want.param_child);
                            assert(self.model().handler =~= want.handler);
                            assert(self.model().wild_name =~= want.wild_name);
                            assert(self.model().wild_handler =~= want.wild_handler);
                            assert(self.model().edges =~= want.edges);
                            assert(self.model() == want);
                        }
                        n
                    },
                };
                cur = next;
            } else if cs.len() > 0 && cs[0] == '*' {
                let name = if cs.len() == 1 {
                    string_of(cs.as_slice())
                } else {
                    string_of(&cs.as_slice()[1..cs.len()])
                };
                assert(cs@.len() > 1 ==> name@ =~= seg@.skip(1));
                self.wild_handler.set(cur, Some(handler_id));
                self.wild_name.set(cur, name);
                proof {
                    let want = TrieModel {
                        wild_handler: m.wild_handler.update(cur as int, Some(handler_id)),
                        wild_name: m.wild_name.update(cur as int, if seg@.len() == 1 { seg@ } else { seg@.skip(1) }),
                        ..m
                    };
                    assert(self.model().wild_name =~= want.wild_name);
                    assert(self.model().wild_handler =~= want.wild_handler);
                    assert(self.model().param_name =~= want.param_name);
                    assert(self.model().edges =~= want.edges);
                    assert(self.model() == want);
                    assert(cs@ == seg@);
                    assert(insert_from(m, sv, k as int, cur as int, handler_id) == want);
                }
                return;
            } else {
                match self.child_of(cur, seg) {
                    Some(c) => {
                        proof {
                            lemma_edge_index_bound(m.edges, cur as int, seg@, 0);
                        }
                        cur = c;
                    },
                    None => {
                        let n = self.new_node();
                        let key = seg.clone();
                        self.edges.push((cur, key, n));
                        proof {
                            let m1 = push_node(m);
                            let want = TrieModel { edges: m1.edges.push((cur, seg@, n)), ..m1 };
                            assert(self.model().edges =~= want.edges);
                            assert(self.model().param_name =~= want.param_name);
                            assert(self.model().wild_name =~= want.wild_name);
                            assert(self.model() == want);
                        }
                        cur = n;
                    },
                }
            }
            k += 1;
        }
        let ghost m = self.model();
        self.handler.set(cur, Some(handler_id));
        proof {
            let want = TrieModel { handler: m.handler.update(cur as int, Some(handler_id)), ..m };
            assert(self.model().handler =~= want.handler);
            assert(self.model().param_name =~= want.param_name);
            assert(self.model().wild_name =~= want.wild_name);
            assert(self.model().edges =~= want.edges);
            assert(self.model() == want);
        }
    }
}

/// The first index at or after `from` whose method key is `key`, or the
/// number of keys when there is none.
pub open spec fn key_index(keys: Seq<Seq<char>>, key: Seq<char>, from: int) -> int
    decreases keys.len() - from,
{
    if from < 0 || from >= keys.len() {
        keys.len() as int
    } else if keys[from] == key {
        from
    } else {
        key_index(keys, key, from + 1)
    }
}

proof fn lemma_key_index_bound(keys: Seq<Seq<char>>, key: Seq<char>, from: int)
    requires
        0 <= from <= keys.len(),
    ensures
        from <= key_index(keys, key, from) <= keys.len(),
        key_index(keys, key, from) < keys.len() ==> keys[key_index(keys, key, from)] == key,
        forall|j: int| from <= j < key_index(keys, key, from) ==> keys[j] != key,
    decreases keys.len() - from,
{
    if from < keys.len() {
        lemma_key_index_bound(keys, key, from + 1);
    }
}

/// Keys are pairwise distinct.
pub open spec fn unique_keys(keys: Seq<Seq<char>>) -> bool {
    forall|a: int, b: int| 0 <= a < keys.len() && 0 <= b < keys.len() && a != b ==> keys[a] != keys[b]
}

proof fn lemma_key_at(keys: Seq<Seq<char>>, key: Seq<char>, j: int)
    requires
        unique_keys(keys),
        0 <= j < keys.len(),
        keys[j] == key,
    ensures
        key_index(keys, key, 0) == j,
{
    lemma_key_index_bound(keys, key, 0);
}

proof fn lemma_key_absent(keys: Seq<Seq<char>>, key: Seq<char>)
    requires
        forall|j: int| 0 <= j < keys.len() ==> keys[j] != key,
    ensures
        key_index(keys, key, 0) == keys.len(),
{
    lemma_key_index_bound(keys, key, 0);
}

/// What a router holds: the method keys in order of first registration, and
/// the trie of each.
pub struct RouterModel {
    pub keys: Seq<Seq<char>>,
    pub tries: Seq<TrieModel>,
}

/// Distinct keys, one well-formed trie per key.
pub open spec fn router_wf(r: RouterModel) -> bool {
    &&& r.keys.len() == r.tries.len()
    &&& unique_keys(r.keys)
    &&& forall|j: int| 0 <= j < r.tries.len() ==> trie_wf(#[trigger] r.tries[j])
}

/// Whether any route is registered under the (normalized) method `key`.
pub open spec fn has_key(r: RouterModel, key: Seq<char>) -> bool {
    key_index(r.keys, key, 0) < r.keys.len()
}

/// The match for the segments `segs` under the method `key`.
pub open spec fn lookup(r: RouterModel, key: Seq<char>, segs: Seq<Seq<char>>) -> Option<(u32, Seq<(Seq<char>, Seq<char>)>)> {
    if has_key(r, key) {
        find_from(r.tries[key_index(r.keys, key, 0)], 0, segs, 0)
    } else {
        None
    }
}

/// The router after registering `h` for the pattern `path` under the method
/// `key`: the method gets a bare trie if it had none, and its trie then takes
/// the pattern as `insert_spec` says, when it has room for the nodes.
pub open spec fn router_insert(r: RouterModel, key: Seq<char>, path: Seq<char>, h: u32) -> RouterModel {
    let r1 = if has_key(r, key) { r } else { RouterModel { keys: r.keys.push(key), tries: r.tries.push(empty_trie()) } };
    let j = key_index(r1.keys, key, 0);
    let t = r1.tries[j];
    let segs = segments(path);
    let t2 = if t.handler.len() + segs.len() < usize::MAX { insert_spec(t, segs, h) } else { t };
    RouterModel { keys: r1.keys, tries: r1.tries.update(j, t2) }
}

/// Routes grouped by method, each method with a trie of its own.
pub struct Router {
    methods: Vec<String>,
    tries: Vec<Trie>,
}

impl Router {
    /// What the router holds.
    pub closed spec fn model(&self) -> RouterModel {
        RouterModel {
            keys: self.methods@.map_values(|s: String| s@),
            tries: self.tries@.map_values(|t: Trie| t.model()),
        }
    }

    pub open spec fn wf(&self) -> bool {
        router_wf(self.model())
    }

    /// What a lookup returns, given the model's outcome.
    pub open spec fn match_of(r: Option<Match>, o: Option<(u32, Seq<(Seq<char>, Seq<char>)>)>) -> bool {
        match o {
            None => r is None,
            Some((h, ps)) => r is Some && r->0.handler_id == h && pair_views(r->0.params@) == ps,
        }
    }

    /// An empty router.
    pub fn new() -> (r: Router)
        ensures
            r.wf(),
            r.model() == (RouterModel { keys: Seq::empty(), tries: Seq::empty() }),
    {
        let r = Router { methods: Vec::new(), tries: Vec::new() };
        assert(r.model().keys =~= Seq::<Seq<char>>::empty());
        assert(r.model().tries =~= Seq::<TrieModel>::empty());
        r
    }

    /// The position of the trie for `key`.
    fn slot_of(&self, key: &String) -> (r: usize)
        requires
            self.wf(),
        ensures
            r == key_index(self.model().keys, key@, 0),
    {
        let ghost keys = self.model().keys;
        let mut j: usize = 0;
        while j < self.methods.len()
            invariant
                keys == self.model().keys,
                j <= self.methods@.len(),
                key_index(keys, key@, 0) == key_index(keys, key@, j as int),
            decreases self.methods@.len() - j,
        {
            assert(keys[j as int] == self.methods@[j as int]@);
            if self.methods[j] == *key {
                return j;
            }
            j += 1;
        }
        j
    }

    /// Registers a route under a method that is already in uppercase.
    pub fn insert_normalized(&mut self, key: &str, path: &str, handler_id: u32)
        requires
            old(self).wf(),
        ensures
            final(self).wf(),
            final(self).model() == router_insert(old(self).model(), key@, path@, handler_id),
    {
        let segs = path_segments(path);
        assert(string_views(segs@) =~= segments(path@));
        let mut name = String::new();
        push_chars(&mut name, key);
        let ghost r0 = self.model();
        let j = self.slot_of(&name);
        proof {
            lemma_key_index_bound(r0.keys, key@, 0);
        }
        if j == self.methods.len() {
            self.methods.push(name);
            self.tries.push(Trie::new());
            proof {
                let r1 = RouterModel { keys: r0.keys.push(key@), tries: r0.tries.push(empty_trie()) };
                assert(self.model().keys =~= r1.keys);
                assert(self.model().tries =~= r1.tries);
                assert forall|a: int, b: int|
                    0 <= a < r1.keys.len() && 0 <= b < r1.keys.len() && a != b implies r1.keys[a] != r1.keys[b] by {
                    if a == r0.keys.len() as int || b == r0.keys.len() as int {
                    }
                }
                lemma_key_at(r1.keys, key@, j as int);
            }
        } else {
            proof {
                lemma_key_at(r0.keys, key@, j as int);
            }
        }
        let ghost mid = self.model();
        let mut t = self.tries.remove(j);
        proof {
            assert(t.model() == mid.tries[j as int]);
        }
        t.insert(&segs, handler_id);
        self.tries.insert(j, t);
        proof {
            let want = router_insert(r0, key@, path@, handler_id);
            assert(self.model().keys =~= want.keys);
            assert(self.model().tries =~= want.tries);
        }
    }

    /// Looks up `path` under a method that is already in uppercase.
    pub fn find_normalized(&self, key: &str, path: &str) -> (r: Option<Match>)
        requires
            self.wf(),
        ensures
            Router::match_of(r, lookup(self.model(), key@, segments(path@))),
    {
        let segs = path_segments(path);
        assert(string_views(segs@) =~= segments(path@));
        let mut name = String::new();
        push_chars(&mut name, key);
        let j = self.slot_of(&name);
        proof {
            lemma_key_index_bound(self.model().keys, key@, 0);
        }
        if j >= self.tries.len() {
            return None;
        }
        let mut params: Vec<(String, String)> = Vec::new();
        proof {
            assert(self.tries@[j as int].model() == self.model().tries[j as int]);
            assert(trie_wf(self.model().tries[j as int]));
            assert(pair_views(params@) =~= Seq::empty());
        }
        let r = self.tries[j].find_node(0, &segs, 0, &mut params);
        proof {
            match lookup(self.model(), key@, segments(path@)) {
                Some((h, ps)) => {
                    assert(Seq::<(Seq<char>, Seq<char>)>::empty() + ps =~= ps);
                },
                None => {},
            }
        }
        r
    }

    /// Registers a route; the method is compared without regard to case.
    pub fn insert(&mut self, method: &str, path: &str, handler_id: u32)
        requires
            old(self).wf(),
        ensures
            final(self).wf(),
            final(self).model() == router_insert(old(self).model(), upper_of(method@), path@, handler_id),
    {
        let key = to_upper(method);
        self.insert_normalized(key.as_str(), path, handler_id);
    }

    /// Finds the route for `path`; the method is compared without regard to case.
    pub fn find(&self, method: &str, path: &str) -> (r: Option<Match>)
        requires
            self.wf(),
        ensures
            Router::match_of(r, lookup(self.model(), upper_of(method@), segments(path@))),
    {
        let key = to_upper(method);
        self.find_normalized(key.as_str(), path)
    }

    /// Whether any route is registered under the method.
    pub fn has_method(&self, method: &str) -> (r: bool)
        requires
            self.wf(),
        ensures
            r == has_key(self.model(), upper_of(method@)),
    {
        let key = to_upper(method);
        let j = self.slot_of(&key);
        proof {
            lemma_key_index_bound(self.model().keys, key@, 0);
        }
        j < self.methods.len()
    }

    /// The methods that have routes, in order of first registration.
    pub fn methods(&self) -> (r: Vec<String>)
        ensures
            string_views(r@) == self.model().keys,
    {
        let mut r: Vec<String> = Vec::new();
        let mut j: usize = 0;
        while j < self.methods.len()
            invariant
                j <= self.methods@.len(),
                string_views(r@) == string_views(self.methods@.take(j as int)),
            decreases self.methods@.len() - j,
        {
            r.push(self.methods[j].clone());
            assert(string_views(self.methods@.take(j + 1)) =~= string_views(self.methods@.take(j as int)).push(self.methods@[j as int]@));
            assert(string_views(r@) =~= string_views(self.methods@.take(j + 1)));
            j += 1;
        }
        assert(self.methods@.take(self.methods@.len() as int) =~= self.methods@);
        assert(string_views(self.methods@) =~= self.model().keys);
        r
    }
}

/// Static segments win over parameters: with `/a/:name` registered and then
/// `/a/b`, the path `/a/b` finds the second route with no captures, and any
/// other `/a/x` finds the first with `name = x`.
pub proof fn lemma_static_over_param(a: Seq<char>, name: Seq<char>, b: Seq<char>, x: Seq<char>, h1: u32, h2: u32)
    requires
        a.len() > 0 && is_literal(a),
        b.len() > 0 && is_literal(b),
    ensures
        ({
            let t1 = insert_spec(empty_trie(), seq![a, seq![':'] + name], h1);
            let t2 = insert_spec(t1, seq![a, b], h2);
            &&& find_from(t2, 0, seq![a, b], 0) == Some((h2, Seq::<(Seq<char>, Seq<char>)>::empty()))
            &&& x != b ==> find_from(t2, 0, seq![a, x], 0) == Some((h1, seq![(name, x)]))
        }),
{
    let p = seq![':'] + name;
    assert(p.skip(1) =~= name);
    let s1 = seq![a, p];
    let e0 = empty_trie();
    assert(edge_index(e0.edges, 0, a, 0) == 0);
    let m1 = push_node(e0);
    let m1e = TrieModel { edges: m1.edges.push((0usize, a, 1usize)), ..m1 };
    assert(insert_from(e0, s1, 0, 0, h1) == insert_from(m1e, s1, 1, 1, h1));
    let m2 = push_node(m1e);
    let m2p = TrieModel { param_child: m2.param_child.update(1, Some(2usize)), param_name: m2.param_name.update(1, name), ..m2 };
    assert(insert_from(m1e, s1, 1, 1, h1) == insert_from(m2p, s1, 2, 2, h1));
    let t1 = TrieModel { handler: m2p.handler.update(2, Some(h1)), ..m2p };
    assert(insert_spec(e0, s1, h1) == t1);
    let s2 = seq![a, b];
    assert(edge_index(t1.edges, 0, a, 0) == 0);
    assert(insert_from(t1, s2, 0, 0, h2) == insert_from(t1, s2, 1, 1, h2));
    assert(edge_index(t1.edges, 1, b, 0) == 1) by {
        assert(edge_index(t1.edges, 1, b, 1) == 1);
    }
    let m3 = push_node(t1);
    let m3e = TrieModel { edges: m3.edges.push((1usize, b, 3usize)), ..m3 };
    assert(insert_from(t1, s2, 1, 1, h2) == insert_from(m3e, s2, 2, 3, h2));
    let t2 = TrieModel { handler: m3e.handler.update(3, Some(h2)), ..m3e };
    assert(insert_spec(t1, s2, h2) == t2);
    assert(static_child(t2, 0, a) == Some(1int));
    assert(edge_index(t2.edges, 1, b, 0) == 1) by {
        assert(edge_index(t2.edges, 1, b, 1) == 1);
    }
    assert(static_child(t2, 1, b) == Some(3int));
    assert(find_from(t2, 3, s2, 2) == Some((h2, Seq::<(Seq<char>, Seq<char>)>::empty())));
    assert(find_from(t2, 1, s2, 1) == Some((h2, Seq::<(Seq<char>, Seq<char>)>::empty())));
    if x != b {
        let sx = seq![a, x];
        assert(edge_index(t2.edges, 1, x, 0) == 2) by {
            assert(t2.edges.len() == 2);
            assert(t2.edges[1] == (1usize, b, 3usize));
            assert(edge_index(t2.edges, 1, x, 2) == 2);
            assert(edge_index(t2.edges, 1, x, 1) == 2);
        }
        assert(static_child(t2, 1, x) is None);
        assert(find_from(t2, 2, sx, 2) == Some((h1, Seq::<(Seq<char>, Seq<char>)>::empty())));
        assert(seq![(name, x)] + Seq::<(Seq<char>, Seq<char>)>::empty() =~= seq![(name, x)]);
        assert(find_from(t2, 1, sx, 1) == Some((h1, seq![(name, x)])));
        assert(find_from(t2, 0, sx, 0) == Some((h1, seq![(name, x)])));
    }
}

/// A wildcard captures one or more remaining segments joined by `/`, under
/// its name, or under `*` when it is bare: with `/a/*name` registered, a path
/// `/a/rest...` finds it, and `/a` alone finds nothing.
pub proof fn lemma_wildcard_capture(a: Seq<char>, name: Seq<char>, rest: Seq<Seq<char>>, h: u32)
    requires
        a.len() > 0 && is_literal(a),
        rest.len() > 0,
    ensures
        ({
            let t = insert_spec(empty_trie(), seq![a, seq!['*'] + name], h);
            let key = if name.len() == 0 { seq!['*'] } else { name };
            &&& find_from(t, 0, seq![a] + rest, 0) == Some((h, seq![(key, join_segments(rest))]))
            &&& find_from(t, 0, seq![a], 0) is None
        }),
{
    let w = seq!['*'] + name;
    let key = if name.len() == 0 { seq!['*'] } else { name };
    assert(w.skip(1) =~= name);
    assert(name.len() == 0 ==> w =~= seq!['*']);
    let s1 = seq![a, w];
    let e0 = empty_trie();
    assert(edge_index(e0.edges, 0, a, 0) == 0);
    let m1 = push_node(e0);
    let m1e = TrieModel { edges: m1.edges.push((0usize, a, 1usize)), ..m1 };
    assert(insert_from(e0, s1, 0, 0, h) == insert_from(m1e, s1, 1, 1, h));
    let t = TrieModel { wild_handler: m1e.wild_handler.update(1, Some(h)), wild_name: m1e.wild_name.update(1, key), ..m1e };
    assert(insert_from(m1e, s1, 1, 1, h) == t);
    assert(insert_spec(e0, s1, h) == t);
    let segs = seq![a] + rest;
    assert(segs[0] == a);
    assert(static_child(t, 0, a) == Some(1int));
    assert(edge_index(t.edges, 1, segs[1], 0) == 1) by {
        assert(edge_index(t.edges, 1, segs[1], 1) == 1);
    }
    assert(segs.subrange(1, segs.len() as int) =~= rest);
    assert(find_from(t, 1, segs, 1) == Some((h, seq![(key, join_segments(rest))])));
    assert(find_from(t, 0, segs, 0) == Some((h, seq![(key, join_segments(rest))])));
    let one = seq![a];
    assert(one[0] == a);
    assert(find_from(t, 1, one, 1) is None);
    assert(find_from(t, 0, one, 0) is None);
}

/// A parameter keeps the name it was first created with: after `/a/:n1`,
/// registering `/a/:n2/c` reuses the parameter node, so `/a/x/c` captures
/// `n1 = x`.
pub proof fn lemma_param_name_kept(a: Seq<char>, n1: Seq<char>, n2: Seq<char>, c: Seq<char>, x: Seq<char>, h1: u32, h2: u32)
    requires
        a.len() > 0 && is_literal(a),
        c.len() > 0 && is_literal(c),
    ensures
        ({
            let t1 = insert_spec(empty_trie(), seq![a, seq![':'] + n1], h1);
            let t2 = insert_spec(t1, seq![a, seq![':'] + n2, c], h2);
            find_from(t2, 0, seq![a, x, c], 0) == Some((h2, seq![(n1, x)]))
        }),
{
    let p1 = seq![':'] + n1;
    let p2 = seq![':'] + n2;
    assert(p1.skip(1) =~= n1);
    let s1 = seq![a, p1];
    let e0 = empty_trie();
    assert(edge_index(e0.edges, 0, a, 0) == 0);
    let m1 = push_node(e0);
    let m1e = TrieModel { edges: m1.edges.push((0usize, a, 1usize)), ..m1 };
    assert(insert_from(e0, s1, 0, 0, h1) == insert_from(m1e, s1, 1, 1, h1));
    let m2 = push_node(m1e);
    let m2p = TrieModel { param_child: m2.param_child.update(1, Some(2usize)), param_name: m2.param_name.update(1, n1), ..m2 };
    assert(insert_from(m1e, s1, 1, 1, h1) == insert_from(m2p, s1, 2, 2, h1));
    let t1 = TrieModel { handler: m2p.handler.update(2, Some(h1)), ..m2p };
    assert(insert_spec(e0, s1, h1) == t1);
    let s2 = seq![a, p2, c];
    assert(edge_index(t1.edges, 0, a, 0) == 0);
    assert(insert_from(t1, s2, 0, 0, h2) == insert_from(t1, s2, 1, 1, h2));
    assert(insert_from(t1, s2, 1, 1, h2) == insert_from(t1, s2, 2, 2, h2));
    assert(edge_index(t1.edges, 2, c, 0) == 1) by {
        assert(edge_index(t1.edges, 2, c, 1) == 1);
    }
    let m3 = push_node(t1);
    let m3e = TrieModel { edges: m3.edges.push((2usize, c, 3usize)), ..m3 };
    assert(insert_from(t1, s2, 2, 2, h2) == insert_from(m3e, s2, 3, 3, h2));
    let t2 = TrieModel { handler: m3e.handler.update(3, Some(h2)), ..m3e };
    assert(insert_spec(t1, s2, h2) == t2);
    let sx = seq![a, x, c];
    assert(static_child(t2, 0, a) == Some(1int));
    assert(t2.edges.len() == 2);
    assert(t2.edges[1] == (2usize, c, 3usize));
    assert(edge_index(t2.edges, 1, x, 0) == 2) by {
        assert(edge_index(t2.edges, 1, x, 2) == 2);
        assert(edge_index(t2.edges, 1, x, 1) == 2);
    }
    assert(edge_index(t2.edges, 2, c, 0) == 1) by {
        assert(edge_index(t2.edges, 2, c, 1) == 1);
    }
    assert(find_from(t2, 3, sx, 3) == Some((h2, Seq::<(Seq<char>, Seq<char>)>::empty())));
    assert(find_from(t2, 2, sx, 2) == Some((h2, Seq::<(Seq<char>, Seq<char>)>::empty())));
    assert(seq![(n1, x)] + Seq::<(Seq<char>, Seq<char>)>::empty() =~= seq![(n1, x)]);
    assert(find_from(t2, 1, sx, 1) == Some((h2, seq![(n1, x)])));
}

/// The first route under a method of a new router is looked up in a bare
/// trie holding that pattern alone.
pub proof fn lemma_first_route(key: Seq<char>, path: Seq<char>, h: u32, segs: Seq<Seq<char>>)
    requires
        1 + segments(path).len() < usize::MAX,
    ensures
        lookup(router_insert(RouterModel { keys: Seq::empty(), tries: Seq::empty() }, key, path, h), key, segs)
            == find_from(insert_spec(empty_trie(), segments(path), h), 0, segs, 0),
{
    let r0 = RouterModel { keys: Seq::<Seq<char>>::empty(), tries: Seq::<TrieModel>::empty() };
    assert(!has_key(r0, key));
    let r1 = RouterModel { keys: r0.keys.push(key), tries: r0.tries.push(empty_trie()) };
    assert(key_index(r1.keys, key, 0) == 0);
    let r2 = router_insert(r0, key, path, h);
    assert(r2.keys =~= seq![key]);
    assert(key_index(r2.keys, key, 0) == 0);
}

/// A static branch that leads nowhere is abandoned for the parameter: with
/// `/a/:n/c` registered and then `/a/b`, the path `/a/b/c` finds the first
/// route with `n = b`, and `/a/b` finds the second.
pub proof fn lemma_backtrack_to_param(a: Seq<char>, n: Seq<char>, b: Seq<char>, c: Seq<char>, h1: u32, h2: u32)
    requires
        a.len() > 0 && is_literal(a),
        b.len() > 0 && is_literal(b),
        c.len() > 0 && is_literal(c),
    ensures
        ({
            let t1 = insert_spec(empty_trie(), seq![a, seq![':'] + n, c], h1);
            let t2 = insert_spec(t1, seq![a, b], h2);
            &&& find_from(t2, 0, seq![a, b, c], 0) == Some((h1, seq![(n, b)]))
            &&& find_from(t2, 0, seq![a, b], 0) == Some((h2, Seq::<(Seq<char>, Seq<char>)>::empty()))
        }),
{
    let p = seq![':'] + n;
    assert(p.skip(1) =~= n);
    let s1 = seq![a, p, c];
    let e0 = empty_trie();
    assert(edge_index(e0.edges, 0, a, 0) == 0);
    let m1 = push_node(e0);
    let m1e = TrieModel { edges: m1.edges.push((0usize, a, 1usize)), ..m1 };
    assert(insert_from(e0, s1, 0, 0, h1) == insert_from(m1e, s1, 1, 1, h1));
    let m2 = push_node(m1e);
    let m2p = TrieModel { param_child: m2.param_child.update(1, Some(2usize)), param_name: m2.param_name.update(1, n), ..m2 };
    assert(insert_from(m1e, s1, 1, 1, h1) == insert_from(m2p, s1, 2, 2, h1));
    assert(edge_index(m2p.edges, 2, c, 0) == 1) by {
        assert(edge_index(m2p.edges, 2, c, 1) == 1);
    }
    let m3 = push_node(m2p);
    let m3e = TrieModel { edges: m3.edges.push((2usize, c, 3usize)), ..m3 };
    assert(insert_from(m2p, s1, 2, 2, h1) == insert_from(m3e, s1, 3, 3, h1));
    let t1 = TrieModel { handler: m3e.handler.update(3, Some(h1)), ..m3e };
    assert(insert_spec(e0, s1, h1) == t1);
    let s2 = seq![a, b];
    assert(edge_index(t1.edges, 0, a, 0) == 0);
    assert(insert_from(t1, s2, 0, 0, h2) == insert_from(t1, s2, 1, 1, h2));
    assert(t1.edges.len() == 2);
    assert(edge_index(t1.edges, 1, b, 0) == 2) by {
        assert(edge_index(t1.edges, 1, b, 2) == 2);
        assert(edge_index(t1.edges, 1, b, 1) == 2);
    }
    let m4 = push_node(t1);
    let m4e = TrieModel { edges: m4.edges.push((1usize, b, 4usize)), ..m4 };
    assert(insert_from(t1, s2, 1, 1, h2) == insert_from(m4e, s2, 2, 4, h2));
    let t2 = TrieModel { handler: m4e.handler.update(4, Some(h2)), ..m4e };
    assert(insert_spec(t1, s2, h2) == t2);
    assert(t2.edges.len() == 3);
    assert(t2.edges[0] == (0usize, a, 1usize));
    assert(t2.edges[1] == (2usize, c, 3usize));
    assert(t2.edges[2] == (1usize, b, 4usize));
    assert(static_child(t2, 0, a) == Some(1int));
    assert(edge_index(t2.edges, 1, b, 0) == 2) by {
        assert(edge_index(t2.edges, 1, b, 2) == 2);
        assert(edge_index(t2.edges, 1, b, 1) == 2);
    }
    assert(edge_index(t2.edges, 4, c, 0) == 3) by {
        assert(edge_index(t2.edges, 4, c, 3) == 3);
        assert(edge_index(t2.edges, 4, c, 2) == 3);
        assert(edge_index(t2.edges, 4, c, 1) == 3);
    }
    assert(edge_index(t2.edges, 2, c, 0) == 1) by {
        assert(edge_index(t2.edges, 2, c, 1) == 1);
    }
    let s3 = seq![a, b, c];
    assert(find_from(t2, 4, s3, 2) is None);
    assert(find_from(t2, 3, s3, 3) == Some((h1, Seq::<(Seq<char>, Seq<char>)>::empty())));
    assert(find_from(t2, 2, s3, 2) == Some((h1, Seq::<(Seq<char>, Seq<char>)>::empty())));
    assert(seq![(n, b)] + Seq::<(Seq<char>, Seq<char>)>::empty() =~= seq![(n, b)]);
    assert(find_from(t2, 1, s3, 1) == Some((h1, seq![(n, b)])));
    assert(find_from(t2, 4, s2, 2) == Some((h2, Seq::<(Seq<char>, Seq<char>)>::empty())));
    assert(find_from(t2, 1, s2, 1) == Some((h2, Seq::<(Seq<char>, Seq<char>)>::empty())));
}

/// A new router finds nothing under any method.
pub proof fn lemma_new_router_empty(key: Seq<char>, segs: Seq<Seq<char>>)
    ensures
        lookup(RouterModel { keys: Seq::empty(), tries: Seq::empty() }, key, segs) is None,
{
}

/// A route registered under one method is invisible under any other:
/// lookups under other methods are what they were, and a method with no
/// routes before still finds nothing.
pub proof fn lemma_method_isolation(r: RouterModel, key: Seq<char>, path: Seq<char>, h: u32, other: Seq<char>, segs: Seq<Seq<char>>)
    requires
        router_wf(r),
        other != key,
    ensures
        lookup(router_insert(r, key, path, h), other, segs) == lookup(r, other, segs),
        !has_key(r, other) ==> lookup(router_insert(r, key, path, h), other, segs) is None,
{
    let r1 = if has_key(r, key) { r } else { RouterModel { keys: r.keys.push(key), tries: r.tries.push(empty_trie()) } };
    let r2 = router_insert(r, key, path, h);
    lemma_key_index_bound(r.keys, key, 0);
    lemma_key_index_bound(r.keys, other, 0);
    lemma_key_index_bound(r1.keys, key, 0);
    lemma_key_index_bound(r1.keys, other, 0);
    let j = key_index(r1.keys, key, 0);
    assert(j < r1.keys.len()) by {
        if !has_key(r, key) {
            assert(r1.keys[r.keys.len() as int] == key);
        }
    }
    assert(r1.tries.len() == r1.keys.len());
    if has_key(r, other) {
        let a = key_index(r.keys, other, 0);
        assert(r1.keys[a] == other);
        assert(key_index(r1.keys, other, 0) == a) by {
            if key_index(r1.keys, other, 0) < a {
                assert(r1.keys[key_index(r1.keys, other, 0)] == r.keys[key_index(r1.keys, other, 0)]);
            }
        }
        assert(a != j);
        let t = r1.tries[j];
        let segs2 = segments(path);
        let t2 = if t.handler.len() + segs2.len() < usize::MAX { insert_spec(t, segs2, h) } else { t };
        assert(r2.tries == r1.tries.update(j, t2));
        assert(a < r1.tries.len());
        assert(r1.tries[a] == r.tries[a]);
        assert(r2.tries[a] == r.tries[a]);
    } else {
        assert(forall|q: int| 0 <= q < r1.keys.len() ==> r1.keys[q] != other) by {
            assert forall|q: int| 0 <= q < r1.keys.len() implies r1.keys[q] != other by {
                if q < r.keys.len() {
                    assert(r1.keys[q] == r.keys[q]);
                }
            }
        }
        lemma_key_absent(r1.keys, other);
    }
}

/// Leading and trailing slashes never change what a lookup finds.
pub proof fn lemma_lookup_ignores_slashes(r: RouterModel, key: Seq<char>, p: Seq<char>)
    ensures
        lookup(r, key, segments(seq![SLASH] + p)) == lookup(r, key, segments(p)),
        lookup(r, key, segments(p.push(SLASH))) == lookup(r, key, segments(p)),
{
    lemma_slashes_insignificant(p);
}

/// Methods that uppercase alike are one method: registering under one and
/// looking up under the other see the same routes.
pub proof fn lemma_method_case(r: RouterModel, a: Seq<char>, b: Seq<char>, path: Seq<char>, h: u32, segs: Seq<Seq<char>>)
    requires
        upper_of(a) == upper_of(b),
    ensures
        lookup(router_insert(r, upper_of(a), path, h), upper_of(b), segs) == lookup(router_insert(r, upper_of(b), path, h), upper_of(b), segs),
        lookup(r, upper_of(a), segs) == lookup(r, upper_of(b), segs),
{
}

/// The map that inserting the pairs in order builds: a later pair with the
/// same name replaces an earlier one.
pub open spec fn pairs_map(ps: Seq<(String, String)>) -> Map<String, String>
    decreases ps.len(),
{
    if ps.len() == 0 {
        Map::empty()
    } else {
        pairs_map(ps.drop_last()).insert(ps.last().0, ps.last().1)
    }
}

impl Match {
    /// The captured parameters as a map from name to value (when names are
    /// hashed as std's key model says).
    pub fn params_map(&self) -> (r: std::collections::HashMap<String, String>)
        ensures
            vstd::std_specs::hash::obeys_key_model::<String>() && vstd::std_specs::hash::builds_valid_hashers::<
                std::collections::hash_map::RandomState,
            >() ==> r@ == pairs_map(self.params@),
    {
        let mut m = std::collections::HashMap::new();
        let mut i: usize = 0;
        while i < self.params.len()
            invariant
                i <= self.params@.len(),
                vstd::std_specs::hash::obeys_key_model::<String>() && vstd::std_specs::hash::builds_valid_hashers::<
                    std::collections::hash_map::RandomState,
                >() ==> m@ == pairs_map(self.params@.take(i as int)),
            decreases self.params@.len() - i,
        {
            let p = &self.params[i];
            let k = p.0.clone();
            let v = p.1.clone();
            m.insert(k, v);
            assert(self.params@.take(i + 1).drop_last() =~= self.params@.take(i as int));
            i += 1;
        }
        proof {
            assert(self.params@.take(self.params@.len() as int) =~= self.params@);
            assert(pairs_map(Seq::<(String, String)>::empty()) =~= Map::<String, String>::empty());
        }
        m
    }
}

} // verus!
