//! Cross-window references: `!!NAME!!` includes the raw source of the
//! editor named NAME, `$$NAME$$` the Pikchr it generates. References are
//! expanded in three passes, so they can nest, and every editor that a text
//! refers to is recorded as something that text depends on.
use vstd::prelude::*;
use crate::text::{chars_of, find_pat_in, find_seq, push_all, replace_all, replace_chars, string_of};

verus! {

/// What the reference logic needs to know of a window: its id, its name,
/// its raw source (editors that have one) and the Pikchr it generates
/// (diagram editors).
#[derive(Debug, Clone)]
pub struct RefSource {
    pub id: u64,
    pub name: String,
    pub raw: Option<String>,
    pub pikchr: Option<String>,
}

/// The mathematical content of a `RefSource`.
pub struct RefSourceV {
    pub id: u64,
    pub name: Seq<char>,
    pub raw: Option<Seq<char>>,
    pub pikchr: Option<Seq<char>>,
}

impl View for RefSource {
    type V = RefSourceV;

    open spec fn view(&self) -> RefSourceV {
        RefSourceV {
            id: self.id,
            name: self.name@,
            raw: crate::help::opt_view(self.raw),
            pikchr: crate::help::opt_view(self.pikchr),
        }
    }
}

impl RefSource {
    /// A copy of the window's reference data.
    pub fn clone_source(&self) -> (r: RefSource)
        ensures
            r == *self,
    {
        RefSource {
            id: self.id,
            name: self.name.clone(),
            raw: match &self.raw {
                Some(t) => Some(t.clone()),
                None => None,
            },
            pikchr: match &self.pikchr {
                Some(t) => Some(t.clone()),
                None => None,
            },
        }
    }
}

/// The views of a sequence of windows.
pub open spec fn sources_view(s: Seq<RefSource>) -> Seq<RefSourceV> {
    s.map_values(|x: RefSource| x@)
}

/// Which windows depend on which: `(source, dependent)` pairs, each held
/// once.
#[derive(Debug, Clone)]
pub struct DepGraph {
    pub edges: Vec<(u64, u64)>,
}

impl View for DepGraph {
    type V = Set<(u64, u64)>;

    open spec fn view(&self) -> Set<(u64, u64)> {
        self.edges@.to_set()
    }
}

/// `s` contains `p`.
pub open spec fn contains(s: Seq<char>, p: Seq<char>) -> bool {
    find_seq(s, p) is Some
}

/// `!!name!!`, which includes the raw source of `name`.
pub open spec fn raw_pattern(name: Seq<char>) -> Seq<char> {
    seq!['!', '!'] + name + seq!['!', '!']
}

/// `$$name$$`, which includes the Pikchr that `name` generates.
pub open spec fn pikchr_pattern(name: Seq<char>) -> Seq<char> {
    seq!['$', '$'] + name + seq!['$', '$']
}

/// `content` refers to the window called `name`, in either form.
pub open spec fn spec_has_dependency(content: Seq<char>, name: Seq<char>) -> bool {
    contains(content, raw_pattern(name)) || contains(content, pikchr_pattern(name))
}

/// `content` with each `(pattern, value)` of `reps` replaced in turn.
pub open spec fn apply_replacements(content: Seq<char>, reps: Seq<(Seq<char>, Seq<char>)>) -> Seq<
    char,
>
    decreases reps.len(),
{
    if reps.len() == 0 {
        content
    } else {
        replace_all(apply_replacements(content, reps.drop_last()), reps.last().0, reps.last().1)
    }
}

/// Three passes of `reps` over `content`, so references can nest three deep.
pub open spec fn three_passes(content: Seq<char>, reps: Seq<(Seq<char>, Seq<char>)>) -> Seq<char> {
    apply_replacements(apply_replacements(apply_replacements(content, reps), reps), reps)
}

/// The raw-source replacements that other windows than `id` offer, in order.
pub open spec fn raw_reps(sources: Seq<RefSourceV>, id: u64) -> Seq<(Seq<char>, Seq<char>)>
    decreases sources.len(),
{
    if sources.len() == 0 {
        Seq::empty()
    } else {
        let prev = raw_reps(sources.drop_last(), id);
        let s = sources.last();
        match s.raw {
            Some(v) => if s.id != id {
                prev.push((raw_pattern(s.name), v))
            } else {
                prev
            },
            None => prev,
        }
    }
}

/// The generated-Pikchr replacements that other diagram editors than `id`
/// offer, in order; each value is followed by `;`.
pub open spec fn pikchr_reps(sources: Seq<RefSourceV>, id: u64) -> Seq<(Seq<char>, Seq<char>)>
    decreases sources.len(),
{
    if sources.len() == 0 {
        Seq::empty()
    } else {
        let prev = pikchr_reps(sources.drop_last(), id);
        let s = sources.last();
        match s.pikchr {
            Some(v) => if s.id != id {
                prev.push((pikchr_pattern(s.name), v.push(';')))
            } else {
                prev
            },
            None => prev,
        }
    }
}

/// The dependencies that `content` of window `id` adds: `(s, id)` for each
/// window `s` other than `id` that offers content of the kind `raw`
/// selects and that `content` refers to.
pub open spec fn new_deps(sources: Seq<RefSourceV>, id: u64, content: Seq<char>, raw: bool) -> Set<
    (u64, u64),
> {
    Set::new(
        |e: (u64, u64)|
            exists|i: int|
                0 <= i < sources.len() && e == (#[trigger] sources[i].id, id) && sources[i].id
                    != id && (if raw {
                    sources[i].raw is Some
                } else {
                    sources[i].pikchr is Some
                }) && spec_has_dependency(content, sources[i].name),
    )
}

/// Whether `content` contains `p`.
fn contains_chars(content: &Vec<char>, p: &Vec<char>) -> (r: bool)
    requires
        p.len() > 0,
    ensures
        r == contains(content@, p@),
{
    assert(content@.subrange(0, content@.len() as int) =~= content@);
    find_pat_in(content, 0, content.len(), p).is_some()
}

/// `open`, `name`, `close` in a row.
fn wrap_name(open: char, name: &str) -> (r: Vec<char>)
    ensures
        r@ == seq![open, open] + name@ + seq![open, open],
{
    let n = chars_of(name);
    let mut r: Vec<char> = Vec::new();
    r.push(open);
    r.push(open);
    push_all(&mut r, &n);
    r.push(open);
    r.push(open);
    assert(r@ =~= seq![open, open] + name@ + seq![open, open]);
    r
}

/// Whether `content` refers to the window called `name`, as `!!name!!` or
/// as `$$name$$`.
pub fn has_dependency(content: &str, name: &str) -> (r: bool)
    ensures
        r == spec_has_dependency(content@, name@),
{
    let c = chars_of(content);
    let raw = wrap_name('!', name);
    let pik = wrap_name('$', name);
    contains_chars(&c, &raw) || contains_chars(&c, &pik)
}

impl DepGraph {
    /// An empty graph.
    pub fn new() -> (g: DepGraph)
        ensures
            g@ == Set::<(u64, u64)>::empty(),
    {
        let g = DepGraph { edges: Vec::new() };
        assert(g@ =~= Set::<(u64, u64)>::empty());
        g
    }

    /// Whether `dependent` depends on `source`.
    pub fn contains(&self, source: u64, dependent: u64) -> (r: bool)
        ensures
            r == self@.contains((source, dependent)),
    {
        let mut k: usize = 0;
        while k < self.edges.len()
            invariant
                0 <= k <= self.edges.len(),
                forall|j: int| 0 <= j < k ==> #[trigger] self.edges@[j] != (source, dependent),
            decreases self.edges.len() - k,
        {
            if self.edges[k].0 == source && self.edges[k].1 == dependent {
                assert(self.edges@.to_set().contains(self.edges@[k as int]));
                return true;
            }
            k = k + 1;
        }
        assert(!self.edges@.contains((source, dependent)));
        false
    }

    /// Records that `dependent` depends on `source`.
    pub fn insert(&mut self, source: u64, dependent: u64)
        ensures
            final(self)@ == old(self)@.insert((source, dependent)),
    {
        if !self.contains(source, dependent) {
            self.edges.push((source, dependent));
            assert(self.edges@.to_set() =~= old(self).edges@.to_set().insert((source, dependent)))
                by {
                assert forall|e: (u64, u64)| #[trigger] self.edges@.contains(e) <==> old(
                    self,
                ).edges@.contains(e) || e == (source, dependent) by {
                    if old(self).edges@.contains(e) {
                        let j = choose|j: int|
                            0 <= j < old(self).edges@.len() && old(self).edges@[j] == e;
                        assert(self.edges@[j] == e);
                    }
                    if e == (source, dependent) {
                        assert(self.edges@[self.edges@.len() - 1] == e);
                    }
                    if self.edges@.contains(e) {
                        let j = choose|j: int| 0 <= j < self.edges@.len() && self.edges@[j] == e;
                        if j < old(self).edges@.len() {
                            assert(old(self).edges@[j] == e);
                        }
                    }
                }
            }
        } else {
            assert(old(self)@.insert((source, dependent)) =~= old(self)@);
        }
    }
}

impl DepGraph {
    /// The windows that depend on `source`, each once, in the order their
    /// dependencies were recorded: those to refresh when `source` changes.
    pub fn dependents_of(&self, source: u64) -> (r: Vec<u64>)
        ensures
            forall|d: u64| r@.contains(d) <==> self@.contains((source, d)),
            r@.no_duplicates(),
    {
        let mut r: Vec<u64> = Vec::new();
        let mut k: usize = 0;
        while k < self.edges.len()
            invariant
                0 <= k <= self.edges.len(),
                forall|d: u64| r@.contains(d) <==> (exists|j: int| 0 <= j < k && #[trigger] self.edges@[j] == (source, d)),
                r@.no_duplicates(),
            decreases self.edges.len() - k,
        {
            let (s, d) = self.edges[k];
            let ghost before = r@;
            if s == source {
                let mut seen = false;
                let mut i: usize = 0;
                while i < r.len()
                    invariant
                        0 <= i <= r.len(),
                        r@ == before,
                        seen == (exists|j: int| 0 <= j < i && r@[j] == d),
                    decreases r.len() - i,
                {
                    if r[i] == d {
                        seen = true;
                    }
                    i = i + 1;
                }
                if !seen {
                    r.push(d);
                }
            }
            assert forall|x: u64| r@.contains(x) <==> (exists|j: int| 0 <= j < k + 1 && #[trigger] self.edges@[j] == (source, x)) by {
                if r@.contains(x) && !before.contains(x) {
                    assert(self.edges@[k as int] == (source, x));
                }
                if exists|j: int| 0 <= j < k + 1 && #[trigger] self.edges@[j] == (source, x) {
                    let j = choose|j: int| 0 <= j < k + 1 && #[trigger] self.edges@[j] == (source, x);
                    if j == k {
                        if !before.contains(x) {
                            assert(r@[r@.len() - 1] == x);
                        }
                    }
                    if before.contains(x) {
                        let m = before.index_of(x);
                        assert(r@[m] == x);
                    }
                }
            }
            k = k + 1;
        }
        assert forall|d: u64| r@.contains(d) <==> self@.contains((source, d)) by {
            if self@.contains((source, d)) {
                let j = choose|j: int| 0 <= j < self.edges@.len() && self.edges@[j] == (source, d);
                assert(self.edges@[j] == (source, d));
            }
        }
        r
    }

    /// Forgets every dependency of the window `id` on others, as when the
    /// window is deleted.
    pub fn forget_dependent(&mut self, id: u64)
        ensures
            final(self)@ == old(self)@.filter(|e: (u64, u64)| e.1 != id),
    {
        let mut kept: Vec<(u64, u64)> = Vec::new();
        let mut k: usize = 0;
        while k < self.edges.len()
            invariant
                0 <= k <= self.edges.len(),
                self.edges == old(self).edges,
                forall|e: (u64, u64)| #[trigger] kept@.contains(e) <==> (exists|j: int| 0 <= j < k && self.edges@[j] == e) && e.1 != id,
            decreases self.edges.len() - k,
        {
            let e = self.edges[k];
            let ghost before = kept@;
            if e.1 != id {
                kept.push(e);
            }
            assert forall|x: (u64, u64)| #[trigger] kept@.contains(x) <==> (exists|j: int| 0 <= j < k + 1 && self.edges@[j] == x) && x.1 != id by {
                if kept@.contains(x) && !before.contains(x) {
                    assert(self.edges@[k as int] == x);
                }
                if (exists|j: int| 0 <= j < k + 1 && self.edges@[j] == x) && x.1 != id {
                    let j = choose|j: int| 0 <= j < k + 1 && self.edges@[j] == x;
                    if j == k && !before.contains(x) {
                        assert(kept@[kept@.len() - 1] == x);
                    }
                    if before.contains(x) {
                        let m = before.index_of(x);
                        assert(kept@[m] == x);
                    }
                }
            }
            k = k + 1;
        }
        self.edges = kept;
        assert(self@ =~= old(self)@.filter(|e: (u64, u64)| e.1 != id)) by {
            assert forall|x: (u64, u64)| #[trigger] self@.contains(x) <==> old(self)@.filter(|e: (u64, u64)| e.1 != id).contains(x) by {
                if old(self).edges@.contains(x) {
                    let j = choose|j: int| 0 <= j < old(self).edges@.len() && old(self).edges@[j] == x;
                    assert(exists|j: int| 0 <= j < k && old(self).edges@[j] == x);
                }
            }
        }
    }
}

/// `content` with every pattern of `reps` replaced by its value, in turn.
fn apply_reps(content: Vec<char>, reps: &Vec<(Vec<char>, Vec<char>)>) -> (r: Vec<char>)
    requires
        forall|k: int| 0 <= k < reps.len() ==> (#[trigger] reps@[k]).0.len() > 0,
    ensures
        r@ == apply_replacements(content@, reps_view(reps@)),
{
    let mut c = content;
    let mut k: usize = 0;
    assert(reps_view(reps@).take(0) =~= Seq::<(Seq<char>, Seq<char>)>::empty());
    while k < reps.len()
        invariant
            0 <= k <= reps.len(),
            forall|j: int| 0 <= j < reps.len() ==> (#[trigger] reps@[j]).0.len() > 0,
            c@ == apply_replacements(content@, reps_view(reps@).take(k as int)),
        decreases reps.len() - k,
    {
        assert(reps@[k as int].0.len() > 0);
        c = replace_chars(&c, &reps[k].0, &reps[k].1);
        assert(reps_view(reps@).take(k + 1).drop_last() =~= reps_view(reps@).take(k as int));
        k = k + 1;
    }
    assert(reps_view(reps@).take(reps.len() as int) =~= reps_view(reps@));
    c
}

/// The views of replacement pairs.
pub open spec fn reps_view(r: Seq<(Vec<char>, Vec<char>)>) -> Seq<(Seq<char>, Seq<char>)> {
    r.map_values(|x: (Vec<char>, Vec<char>)| (x.0@, x.1@))
}

/// The replacements that windows other than `id` offer: raw sources when
/// `raw`, generated Pikchr (followed by `;`) otherwise.
fn collect_reps(sources: &Vec<RefSource>, id: u64, raw: bool) -> (r: Vec<(Vec<char>, Vec<char>)>)
    ensures
        reps_view(r@) == if raw {
            raw_reps(sources_view(sources@), id)
        } else {
            pikchr_reps(sources_view(sources@), id)
        },
        forall|k: int| 0 <= k < r.len() ==> (#[trigger] r@[k]).0.len() > 0,
{
    let ghost sv = sources_view(sources@);
    let mut r: Vec<(Vec<char>, Vec<char>)> = Vec::new();
    let mut k: usize = 0;
    assert(sv.take(0) =~= Seq::<RefSourceV>::empty());
    while k < sources.len()
        invariant
            0 <= k <= sources.len(),
            sv == sources_view(sources@),
            reps_view(r@) == if raw {
                raw_reps(sv.take(k as int), id)
            } else {
                pikchr_reps(sv.take(k as int), id)
            },
            forall|j: int| 0 <= j < r.len() ==> (#[trigger] r@[j]).0.len() > 0,
        decreases sources.len() - k,
    {
        assert(sv.take(k + 1).drop_last() =~= sv.take(k as int));
        assert(sv.take(k + 1).last() == sources@[k as int]@);
        let s = &sources[k];
        let value = if raw {
            &s.raw
        } else {
            &s.pikchr
        };
        if s.id != id {
            match value {
                Some(v) => {
                    let pat = wrap_name(if raw {
                        '!'
                    } else {
                        '$'
                    }, s.name.as_str());
                    let mut val = chars_of(v.as_str());
                    if !raw {
                        val.push(';');
                    }
                    let ghost before = reps_view(r@);
                    r.push((pat, val));
                    assert(reps_view(r@) =~= before.push((pat@, val@)));
                },
                None => {},
            }
        }
        k = k + 1;
    }
    assert(sv.take(sources.len() as int) =~= sv);
    r
}

/// Records the dependencies that `content` of window `id` has on the
/// windows that offer content of the kind `raw` selects.
fn record_deps(sources: &Vec<RefSource>, deps: &mut DepGraph, id: u64, content: &str, raw: bool)
    ensures
        final(deps)@ == old(deps)@.union(new_deps(sources_view(sources@), id, content@, raw)),
{
    let ghost sv = sources_view(sources@);
    let mut k: usize = 0;
    while k < sources.len()
        invariant
            0 <= k <= sources.len(),
            sv == sources_view(sources@),
            deps@ == old(deps)@.union(new_deps(sv.take(k as int), id, content@, raw)),
        decreases sources.len() - k,
    {
        let s = &sources[k];
        let offers = if raw {
            s.raw.is_some()
        } else {
            s.pikchr.is_some()
        };
        let ghost before = deps@;
        if s.id != id && offers && has_dependency(content, s.name.as_str()) {
            deps.insert(s.id, id);
        }
        assert(sv.take(k + 1)[k as int] == sv[k as int]);
        assert(new_deps(sv.take(k + 1), id, content@, raw) =~= new_deps(sv.take(k as int), id, content@, raw).union(
            if s.id != id && offers && spec_has_dependency(content@, s.name@) {
                set![(s.id, id)]
            } else {
                Set::empty()
            },
        )) by {
            assert forall|e: (u64, u64)| #[trigger] new_deps(sv.take(k + 1), id, content@, raw).contains(e) implies new_deps(sv.take(k as int), id, content@, raw).contains(e) || (s.id != id && offers && spec_has_dependency(content@, s.name@) && e == (s.id, id)) by {
                let i = choose|i: int| 0 <= i < sv.take(k + 1).len() && e == (#[trigger] sv.take(k + 1)[i].id, id) && sv.take(k + 1)[i].id != id && (if raw { sv.take(k + 1)[i].raw is Some } else { sv.take(k + 1)[i].pikchr is Some }) && spec_has_dependency(content@, sv.take(k + 1)[i].name);
                if i < k {
                    assert(sv.take(k as int)[i] == sv.take(k + 1)[i]);
                }
            }
            assert forall|e: (u64, u64)| #[trigger] new_deps(sv.take(k as int), id, content@, raw).contains(e) implies new_deps(sv.take(k + 1), id, content@, raw).contains(e) by {
                let i = choose|i: int| 0 <= i < sv.take(k as int).len() && e == (#[trigger] sv.take(k as int)[i].id, id) && sv.take(k as int)[i].id != id && (if raw { sv.take(k as int)[i].raw is Some } else { sv.take(k as int)[i].pikchr is Some }) && spec_has_dependency(content@, sv.take(k as int)[i].name);
                assert(sv.take(k + 1)[i] == sv.take(k as int)[i]);
            }
            if s.id != id && offers && spec_has_dependency(content@, s.name@) {
                let w = sv.take(k + 1)[k as int];
                assert(w == sources@[k as int]@);
                assert(w.id == s.id && w.name == s.name@);
                assert(w.raw is Some <==> s.raw.is_some());
                assert(w.pikchr is Some <==> s.pikchr.is_some());
                assert(new_deps(sv.take(k + 1), id, content@, raw).contains((s.id, id)));
            }
        }
        k = k + 1;
    }
    assert(sv.take(sources.len() as int) =~= sv);
}

/// Expands the `!!NAME!!` references in `content` of window `id` to the raw
/// sources of the other windows, three passes deep, and records the windows
/// that `content` refers to.
pub fn replace_raw_content(sources: &Vec<RefSource>, deps: &mut DepGraph, id: u64, content: &str) -> (r: String)
    ensures
        r@ == three_passes(content@, raw_reps(sources_view(sources@), id)),
        final(deps)@ == old(deps)@.union(new_deps(sources_view(sources@), id, content@, true)),
{
    record_deps(sources, deps, id, content, true);
    let reps = collect_reps(sources, id, true);
    let c = chars_of(content);
    let c = apply_reps(c, &reps);
    let c = apply_reps(c, &reps);
    let c = apply_reps(c, &reps);
    string_of(&c)
}

/// Expands the `$$NAME$$` references in `content` of window `id` to the
/// Pikchr that the other diagram editors generate (each followed by `;`),
/// three passes deep, and records the editors that `content` refers to.
pub fn replace_pikchr_content(sources: &Vec<RefSource>, deps: &mut DepGraph, id: u64, content: &str) -> (r: String)
    ensures
        r@ == three_passes(content@, pikchr_reps(sources_view(sources@), id)),
        final(deps)@ == old(deps)@.union(new_deps(sources_view(sources@), id, content@, false)),
{
    record_deps(sources, deps, id, content, false);
    let reps = collect_reps(sources, id, false);
    let c = chars_of(content);
    let c = apply_reps(c, &reps);
    let c = apply_reps(c, &reps);
    let c = apply_reps(c, &reps);
    string_of(&c)
}

/// Expands both kinds of references in `content` of window `id`: generated
/// Pikchr first, then raw sources.
pub fn replace_content(sources: &Vec<RefSource>, deps: &mut DepGraph, id: u64, content: &str) -> (r: String)
    ensures
        r@ == three_passes(
            three_passes(content@, pikchr_reps(sources_view(sources@), id)),
            raw_reps(sources_view(sources@), id),
        ),
        final(deps)@ == old(deps)@.union(new_deps(sources_view(sources@), id, content@, false)).union(
            new_deps(
                sources_view(sources@),
                id,
                three_passes(content@, pikchr_reps(sources_view(sources@), id)),
                true,
            ),
        ),
{
    let c = replace_pikchr_content(sources, deps, id, content);
    replace_raw_content(sources, deps, id, c.as_str())
}

/// The first window of `sources` with the id `id`.
pub open spec fn find_source(sources: Seq<RefSourceV>, id: u64) -> Option<RefSourceV>
    decreases sources.len(),
{
    if sources.len() == 0 {
        None
    } else if sources[0].id == id {
        Some(sources[0])
    } else {
        find_source(sources.drop_first(), id)
    }
}

/// A text that may be missing, read as empty when it is.
pub open spec fn text_or_empty(t: Option<Seq<char>>) -> Seq<char> {
    match t {
        Some(c) => c,
        None => Seq::empty(),
    }
}

/// The dependency `e` (`e.1` depends on `e.0`) still holds: the window
/// `e.0` has no name to look for, or the generated Pikchr or the raw source
/// of `e.1` still refers to that name. A missing window has neither.
pub open spec fn still_referenced(sources: Seq<RefSourceV>, e: (u64, u64)) -> bool {
    match find_source(sources, e.0) {
        None => true,
        Some(s) => {
            let (pik, raw) = match find_source(sources, e.1) {
                Some(d) => (text_or_empty(d.pikchr), text_or_empty(d.raw)),
                None => (Seq::<char>::empty(), Seq::<char>::empty()),
            };
            spec_has_dependency(pik, s.name) || spec_has_dependency(raw, s.name)
        },
    }
}

/// Finds the first window of `sources` with the id `id`.
fn find_source_at(sources: &Vec<RefSource>, id: u64) -> (r: Option<usize>)
    ensures
        match r {
            Some(k) => k < sources.len() && find_source(sources_view(sources@), id) == Some(
                sources@[k as int]@,
            ),
            None => find_source(sources_view(sources@), id) is None,
        },
{
    let ghost sv = sources_view(sources@);
    let mut k: usize = 0;
    assert(sv.skip(0) =~= sv);
    while k < sources.len()
        invariant
            0 <= k <= sources.len(),
            sv == sources_view(sources@),
            find_source(sv, id) == find_source(sv.skip(k as int), id),
        decreases sources.len() - k,
    {
        assert(sv.skip(k as int)[0] == sources@[k as int]@);
        if sources[k].id == id {
            return Some(k);
        }
        assert(sv.skip(k as int).drop_first() =~= sv.skip(k + 1));
        k = k + 1;
    }
    assert(sv.skip(k as int) =~= Seq::<RefSourceV>::empty());
    None
}

/// Whether the text `t` (empty when missing) refers to `name`.
fn text_refers(t: &Option<String>, name: &str) -> (r: bool)
    ensures
        r == spec_has_dependency(text_or_empty(crate::help::opt_view(*t)), name@),
{
    match t {
        Some(c) => {
            assert(crate::help::opt_view(*t) == Some(c@));
            has_dependency(c.as_str(), name)
        },
        None => {
            proof {
                reveal_strlit("");
            }
            assert(""@ =~= Seq::<char>::empty());
            has_dependency("", name)
        },
    }
}

/// Drops the dependencies whose source window's name no longer occurs, as
/// `!!NAME!!` or `$$NAME$$`, in the dependent window's generated Pikchr or
/// raw source. Dependencies on windows that are gone or have no name stay.
pub fn clean_old_deps(sources: &Vec<RefSource>, deps: &mut DepGraph)
    ensures
        final(deps)@ == old(deps)@.filter(|e: (u64, u64)| still_referenced(sources_view(sources@), e)),
{
    let ghost sv = sources_view(sources@);
    let ghost keep = |e: (u64, u64)| still_referenced(sv, e);
    let mut kept: Vec<(u64, u64)> = Vec::new();
    let mut k: usize = 0;
    while k < deps.edges.len()
        invariant
            0 <= k <= deps.edges.len(),
            sv == sources_view(sources@),
            deps == old(deps),
            forall|e: (u64, u64)| #[trigger] kept@.contains(e) <==> (exists|j: int| 0 <= j < k && deps.edges@[j] == e) && still_referenced(sv, e),
        decreases deps.edges.len() - k,
    {
        let e = deps.edges[k];
        let keep_it = match find_source_at(sources, e.0) {
            None => true,
            Some(si) => {
                let name = sources[si].name.as_str();
                match find_source_at(sources, e.1) {
                    Some(di) => text_refers(&sources[di].pikchr, name) || text_refers(&sources[di].raw, name),
                    None => has_dependency("", name) || has_dependency("", name),
                }
            },
        };
        proof {
            reveal_strlit("");
            assert(""@ =~= Seq::<char>::empty());
        }
        assert(keep_it == still_referenced(sv, e));
        let ghost before = kept@;
        if keep_it {
            kept.push(e);
        }
        assert forall|x: (u64, u64)| #[trigger] kept@.contains(x) <==> (exists|j: int| 0 <= j < k + 1 && deps.edges@[j] == x) && still_referenced(sv, x) by {
            if kept@.contains(x) {
                if before.contains(x) {
                    let j = choose|j: int| 0 <= j < k && deps.edges@[j] == x;
                    assert(0 <= j < k + 1 && deps.edges@[j] == x);
                } else {
                    assert(x == e);
                    assert(deps.edges@[k as int] == x);
                }
            }
            if (exists|j: int| 0 <= j < k + 1 && deps.edges@[j] == x) && still_referenced(sv, x) {
                let j = choose|j: int| 0 <= j < k + 1 && deps.edges@[j] == x;
                if j < k {
                    assert(before.contains(x));
                    assert(kept@ == before || kept@ == before.push(e));
                    if kept@ == before.push(e) {
                        assert(kept@[before.index_of(x)] == x);
                    }
                } else {
                    assert(keep_it);
                    assert(kept@[kept@.len() - 1] == x);
                }
            }
        }
        k = k + 1;
    }
    deps.edges = kept;
    assert(deps@ =~= old(deps)@.filter(keep)) by {
        assert forall|x: (u64, u64)| #[trigger] deps@.contains(x) <==> old(deps)@.filter(keep).contains(x) by {
            if old(deps).edges@.contains(x) {
                let j = choose|j: int| 0 <= j < old(deps).edges@.len() && old(deps).edges@[j] == x;
                assert(exists|j: int| 0 <= j < k && old(deps).edges@[j] == x);
            }
        }
    }
}

} // verus!
