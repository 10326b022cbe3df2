//! The help window's documents: the topics it can show, and the parsed form
//! of the bundled Pikchr grammar reference (blocks of styled spans, a table
//! of contents and the anchors that links point at).
use vstd::prelude::*;
use crate::text::{
    chars_of, count_char, count_in, is_whitespace, push_all, push_range, replace_all,
    replace_chars, spec_is_whitespace, string_of, trim, trim_range, trim_start, trim_start_range,
};

verus! {

/// Which document a help window shows. `Overview` and the per-editor topics
/// show the user guide (with a section for that context); `Grammar` shows the
/// full Pikchr grammar reference with a table of contents.
#[derive(Debug, Clone, Copy, PartialEq, Eq, Structural)]
pub enum HelpTopic {
    Overview,
    Pikchr,
    Prolog,
    Tcl,
    Mruby,
    PlainText,
    Render,
    Grammar,
}

impl Default for HelpTopic {
    fn default() -> (t: Self)
        ensures
            t == HelpTopic::Overview,
    {
        HelpTopic::Overview
    }
}

/// The window title of each topic.
pub open spec fn topic_title(t: HelpTopic) -> Seq<char> {
    match t {
        HelpTopic::Overview => "DiagramIDE Help"@,
        HelpTopic::Pikchr => "Pikchr Help"@,
        HelpTopic::Prolog => "Prolog Help"@,
        HelpTopic::Tcl => "Tcl Help"@,
        HelpTopic::Mruby => "Ruby Help"@,
        HelpTopic::PlainText => "Plain Text Help"@,
        HelpTopic::Render => "Render Window Help"@,
        HelpTopic::Grammar => "Pikchr Grammar"@,
    }
}

impl HelpTopic {
    /// The title of a help window showing this topic.
    pub fn title(self) -> (r: &'static str)
        ensures
            r@ == topic_title(self),
    {
        match self {
            HelpTopic::Overview => "DiagramIDE Help",
            HelpTopic::Pikchr => "Pikchr Help",
            HelpTopic::Prolog => "Prolog Help",
            HelpTopic::Tcl => "Tcl Help",
            HelpTopic::Mruby => "Ruby Help",
            HelpTopic::PlainText => "Plain Text Help",
            HelpTopic::Render => "Render Window Help",
            HelpTopic::Grammar => "Pikchr Grammar",
        }
    }

    /// Whether this topic shows the grammar reference (which needs a table
    /// of contents and a wider window) rather than the user guide.
    pub fn is_grammar(self) -> (r: bool)
        ensures
            r <==> self == HelpTopic::Grammar,
    {
        match self {
            HelpTopic::Grammar => true,
            _ => false,
        }
    }
}

/// A help window: the user guide or the grammar reference, depending on its
/// topic.
#[derive(Debug, Clone)]
pub struct HelpWindow {
    pub id: u64,
    pub visible: bool,
    pub topic: HelpTopic,
    pub index: usize,
    /// The heading that the grammar view should scroll to on its next
    /// frame; consumed when it is reached.
    pub scroll_target: Option<usize>,
}

impl HelpWindow {
    /// A new, shown help window with id `id` on `topic`.
    pub fn new(id: u64, topic: HelpTopic) -> (w: HelpWindow)
        ensures
            w.id == id,
            w.visible,
            w.topic == topic,
            w.index == 0,
            w.scroll_target is None,
    {
        HelpWindow { id, visible: true, topic, index: 0, scroll_target: None }
    }

    /// The window title: the title of its topic.
    pub fn get_title(&self) -> (r: String)
        ensures
            r@ == topic_title(self.topic),
    {
        self.topic.title().to_owned()
    }

    /// The topic that the window's own help button opens: the grammar
    /// reference documents Pikchr, so it opens the Pikchr guide; the guide
    /// opens its overview.
    pub fn help_topic(&self) -> (r: HelpTopic)
        ensures
            r == if self.topic == HelpTopic::Grammar {
                HelpTopic::Pikchr
            } else {
                HelpTopic::Overview
            },
    {
        if self.topic.is_grammar() {
            HelpTopic::Pikchr
        } else {
            HelpTopic::Overview
        }
    }

    /// Asks the grammar view to scroll heading `idx` into view.
    pub fn scroll_to(&mut self, idx: usize)
        ensures
            *final(self) == (HelpWindow { scroll_target: Some(idx), ..*old(self) }),
    {
        self.scroll_target = Some(idx);
    }

    /// Whether the heading `idx` being drawn is the one to scroll to; the
    /// request is consumed when it is.
    pub fn take_scroll_target(&mut self, idx: usize) -> (r: bool)
        ensures
            r == (old(self).scroll_target == Some(idx)),
            *final(self) == (HelpWindow {
                scroll_target: if r {
                    None
                } else {
                    old(self).scroll_target
                },
                ..*old(self)
            }),
    {
        match self.scroll_target {
            Some(t) => {
                if t == idx {
                    self.scroll_target = None;
                    true
                } else {
                    false
                }
            },
            None => false,
        }
    }
}

impl crate::mini_window::Visible for HelpWindow {
    closed spec fn is_visible(&self) -> bool {
        self.visible
    }

    fn visible(&self) -> (b: bool) {
        self.visible
    }

    fn set_visible(&mut self, new: bool) {
        self.visible = new;
    }
}

impl crate::mini_window::Id for HelpWindow {
    closed spec fn id_of(&self) -> u64 {
        self.id
    }

    fn get_id(&self) -> (r: u64) {
        self.id
    }
}

impl crate::mini_window::Indexable for HelpWindow {
    closed spec fn index_of(&self) -> usize {
        self.index
    }

    fn set_index(&mut self, value: usize) {
        self.index = value;
    }

    fn get_index(&self) -> (r: usize) {
        self.index
    }
}

/// A run of text with one style.
#[derive(Debug, Clone, PartialEq, Eq)]
pub struct Span {
    pub text: String,
    pub bold: bool,
    pub italic: bool,
    pub code: bool,
    pub link_target: Option<String>,
}

/// The mathematical content of a `Span`.
pub struct SpanV {
    pub text: Seq<char>,
    pub bold: bool,
    pub italic: bool,
    pub code: bool,
    pub link_target: Option<Seq<char>>,
}

/// The view of an optional string.
pub open spec fn opt_view(o: Option<String>) -> Option<Seq<char>> {
    match o {
        Some(s) => Some(s@),
        None => None,
    }
}

impl View for Span {
    type V = SpanV;

    open spec fn view(&self) -> SpanV {
        SpanV {
            text: self.text@,
            bold: self.bold,
            italic: self.italic,
            code: self.code,
            link_target: opt_view(self.link_target),
        }
    }
}

/// The views of a sequence of spans.
pub open spec fn spans_view(s: Seq<Span>) -> Seq<SpanV> {
    s.map_values(|x: Span| x@)
}

/// The texts of `spans`, concatenated.
pub open spec fn concat_texts(spans: Seq<SpanV>) -> Seq<char>
    decreases spans.len(),
{
    if spans.len() == 0 {
        Seq::empty()
    } else {
        concat_texts(spans.drop_last()) + spans.last().text
    }
}

/// The marker that the grammar uses for links to more information.
pub open spec fn info_marker() -> Seq<char> {
    seq!['\u{25B6}', 'i', 'n', 'f', 'o']
}

/// The table-of-contents text of a heading: its plain text without the
/// `▶info` link markers, trimmed.
pub open spec fn spec_toc_text(spans: Seq<SpanV>) -> Seq<char> {
    trim(replace_all(concat_texts(spans), info_marker(), Seq::empty()))
}

/// The text of `spans`, without styling.
pub fn plain_text_chars(spans: &[Span]) -> (r: Vec<char>)
    ensures
        r@ == concat_texts(spans_view(spans@)),
{
    let mut r: Vec<char> = Vec::new();
    let mut i: usize = 0;
    assert(spans_view(spans@).take(0) =~= Seq::<SpanV>::empty());
    while i < spans.len()
        invariant
            0 <= i <= spans.len(),
            r@ == concat_texts(spans_view(spans@).take(i as int)),
        decreases spans.len() - i,
    {
        let t = chars_of(spans[i].text.as_str());
        push_all(&mut r, &t);
        assert(spans_view(spans@).take(i + 1).drop_last() =~= spans_view(spans@).take(i as int));
        i = i + 1;
    }
    assert(spans_view(spans@).take(spans.len() as int) =~= spans_view(spans@));
    r
}

/// The text of `spans`, without styling.
pub fn plain_text(spans: &[Span]) -> (r: String)
    ensures
        r@ == concat_texts(spans_view(spans@)),
{
    let v = plain_text_chars(spans);
    string_of(&v)
}

/// The table-of-contents text of a heading made of `spans`.
pub fn toc_text(spans: &[Span]) -> (r: String)
    ensures
        r@ == spec_toc_text(spans_view(spans@)),
{
    let text = plain_text_chars(spans);
    let marker: Vec<char> = vec!['\u{25B6}', 'i', 'n', 'f', 'o'];
    let empty: Vec<char> = Vec::new();
    assert(marker@ =~= info_marker());
    assert(empty@ =~= Seq::<char>::empty());
    let replaced = replace_chars(&text, &marker, &empty);
    let (a, b) = trim_range(&replaced, 0, replaced.len());
    assert(replaced@.subrange(0, replaced@.len() as int) =~= replaced@);
    let mut out: Vec<char> = Vec::new();
    push_range(&mut out, &replaced, a, b);
    string_of(&out)
}

/// Whether any span of `spans` is a link.
pub fn has_links(spans: &[Span]) -> (r: bool)
    ensures
        r <==> exists|i: int| 0 <= i < spans@.len() && (#[trigger] spans@[i]).link_target is Some,
{
    let mut i: usize = 0;
    while i < spans.len()
        invariant
            0 <= i <= spans.len(),
            forall|j: int| 0 <= j < i ==> (#[trigger] spans@[j]).link_target is None,
        decreases spans.len() - i,
    {
        if spans[i].link_target.is_some() {
            return true;
        }
        i = i + 1;
    }
    false
}

/// A line written as a table row: after leading whitespace it starts with
/// `|` and holds at least two `|`.
pub open spec fn spec_is_table_row_text(s: Seq<char>) -> bool {
    let t = trim_start(s);
    t.len() > 0 && t[0] == '|' && count_char(t, '|') >= 2
}

/// The underline of an old-style table header: at least three `-` and
/// nothing else once trimmed.
pub open spec fn spec_is_legacy_table_separator(s: Seq<char>) -> bool {
    trim(s).len() >= 3 && all_dashes(trim(s))
}

/// Every character of `t` is `-`.
pub open spec fn all_dashes(t: Seq<char>) -> bool {
    forall|j: int| 0 <= j < t.len() ==> #[trigger] t[j] == '-'
}

/// The number of columns of the table row `s`: one less than its `|`s when
/// it is closed by `|` on both sides, one more otherwise.
pub open spec fn spec_pipe_column_count(s: Seq<char>) -> nat {
    let t = trim(s);
    let n = count_char(t, '|');
    if t.len() > 0 && t[0] == '|' && t.last() == '|' {
        if n > 0 {
            (n - 1) as nat
        } else {
            0
        }
    } else {
        n + 1
    }
}

/// `n` copies of `s`, concatenated.
pub open spec fn repeat(s: Seq<char>, n: nat) -> Seq<char>
    decreases n,
{
    if n == 0 {
        Seq::empty()
    } else {
        repeat(s, (n - 1) as nat) + s
    }
}

/// The GitHub table separator row for a header with the columns of `header`
/// (at least one): `|` followed by ` --- |` per column.
pub open spec fn spec_gfm_table_separator(header: Seq<char>) -> Seq<char> {
    let cols = spec_pipe_column_count(header);
    seq!['|'] + repeat(seq![' ', '-', '-', '-', ' ', '|'], if cols >= 1 {
        cols
    } else {
        1
    })
}

/// `spec_is_table_row_text` on `v[lo..hi]`.
pub fn is_table_row_range(v: &Vec<char>, lo: usize, hi: usize) -> (r: bool)
    requires
        lo <= hi <= v.len(),
    ensures
        r == spec_is_table_row_text(v@.subrange(lo as int, hi as int)),
{
    let a = trim_start_range(v, lo, hi);
    if a < hi && v[a] == '|' {
        assert(v@.subrange(a as int, hi as int)[0] == v@[a as int]);
        count_in(v, a, hi, '|') >= 2
    } else {
        false
    }
}

/// Whether `text` is written as a table row.
pub fn is_table_row_text(text: &str) -> (r: bool)
    ensures
        r == spec_is_table_row_text(text@),
{
    let v = chars_of(text);
    assert(v@.subrange(0, v@.len() as int) =~= v@);
    is_table_row_range(&v, 0, v.len())
}

/// `spec_is_legacy_table_separator` on `v[lo..hi]`.
pub fn is_legacy_separator_range(v: &Vec<char>, lo: usize, hi: usize) -> (r: bool)
    requires
        lo <= hi <= v.len(),
    ensures
        r == spec_is_legacy_table_separator(v@.subrange(lo as int, hi as int)),
{
    let (a, b) = trim_range(v, lo, hi);
    if b - a < 3 {
        return false;
    }
    let ghost t = v@.subrange(a as int, b as int);
    let mut i = a;
    while i < b
        invariant
            a <= i <= b <= v.len(),
            t == v@.subrange(a as int, b as int),
            t == trim(v@.subrange(lo as int, hi as int)),
            b - a >= 3,
            forall|j: int| 0 <= j < i - a ==> #[trigger] t[j] == '-',
        decreases b - i,
    {
        if v[i] != '-' {
            assert(t[i - a] == v@[i as int]);
            assert(!all_dashes(t));
            return false;
        }
        assert(t[i - a] == v@[i as int]);
        i = i + 1;
    }
    true
}

/// Whether `line` underlines an old-style table header.
pub fn is_legacy_table_separator(line: &str) -> (r: bool)
    ensures
        r == spec_is_legacy_table_separator(line@),
{
    let v = chars_of(line);
    assert(v@.subrange(0, v@.len() as int) =~= v@);
    is_legacy_separator_range(&v, 0, v.len())
}

/// `spec_pipe_column_count` on `v[lo..hi]`.
pub fn pipe_column_count_range(v: &Vec<char>, lo: usize, hi: usize) -> (r: usize)
    requires
        lo <= hi <= v.len(),
        hi - lo < usize::MAX,
    ensures
        r == spec_pipe_column_count(v@.subrange(lo as int, hi as int)),
        r <= hi - lo + 1,
{
    let (a, b) = trim_range(v, lo, hi);
    let count = count_in(v, a, b, '|');
    proof {
        crate::text::lemma_count_char_le(v@.subrange(a as int, b as int), '|');
    }
    let ghost t = v@.subrange(a as int, b as int);
    if a < b && v[a] == '|' && v[b - 1] == '|' {
        assert(t[0] == v@[a as int] && t.last() == v@[b - 1]);
        if count > 0 {
            count - 1
        } else {
            0
        }
    } else {
        if a < b {
            assert(t[0] == v@[a as int] && t.last() == v@[b - 1]);
        }
        count + 1
    }
}

/// The number of columns of the table row `row`.
pub fn pipe_column_count(row: &str) -> (r: usize)
    requires
        row@.len() < usize::MAX,
    ensures
        r == spec_pipe_column_count(row@),
{
    let v = chars_of(row);
    assert(v@.subrange(0, v@.len() as int) =~= v@);
    pipe_column_count_range(&v, 0, v.len())
}

/// `spec_gfm_table_separator` of `v[lo..hi]`.
pub fn gfm_table_separator_chars(v: &Vec<char>, lo: usize, hi: usize) -> (r: Vec<char>)
    requires
        lo <= hi <= v.len(),
        hi - lo < usize::MAX,
    ensures
        r@ == spec_gfm_table_separator(v@.subrange(lo as int, hi as int)),
{
    let count = pipe_column_count_range(v, lo, hi);
    let columns = if count >= 1 {
        count
    } else {
        1
    };
    let cell: Vec<char> = vec![' ', '-', '-', '-', ' ', '|'];
    assert(cell@ =~= seq![' ', '-', '-', '-', ' ', '|']);
    let mut out: Vec<char> = Vec::new();
    out.push('|');
    let mut k: usize = 0;
    assert(seq!['|'] + repeat(cell@, 0) =~= out@);
    while k < columns
        invariant
            0 <= k <= columns,
            cell@ == seq![' ', '-', '-', '-', ' ', '|'],
            out@ == seq!['|'] + repeat(cell@, k as nat),
        decreases columns - k,
    {
        push_all(&mut out, &cell);
        k = k + 1;
        assert(seq!['|'] + repeat(cell@, k as nat) =~= seq!['|'] + repeat(cell@, (k - 1) as nat)
            + cell@);
    }
    out
}

/// The GitHub-style separator row for the table header `header`.
pub fn gfm_table_separator(header: &str) -> (r: String)
    requires
        header@.len() < usize::MAX,
    ensures
        r@ == spec_gfm_table_separator(header@),
{
    let v = chars_of(header);
    assert(v@.subrange(0, v@.len() as int) =~= v@);
    let out = gfm_table_separator_chars(&v, 0, v.len());
    string_of(&out)
}

} // verus!
