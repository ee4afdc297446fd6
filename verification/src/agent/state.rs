//! The research state: an outline of paragraphs, each with its search
//! history and current summary.

use vstd::prelude::*;
use crate::text::{byte_len, byte_len_exceeds, char_width, char_width_exec, chars_of, string_of, subvec};

verus! {

/// One search hit.
#[derive(Debug, Clone)]
pub struct SearchResult {
    pub title: String,
    pub url: String,
    pub content: String,
}

/// The texts of a search hit.
pub struct SearchResultView {
    pub title: Seq<char>,
    pub url: Seq<char>,
    pub content: Seq<char>,
}

impl View for SearchResult {
    type V = SearchResultView;

    open spec fn view(&self) -> SearchResultView {
        SearchResultView { title: self.title@, url: self.url@, content: self.content@ }
    }
}

/// Shown in place of an empty title.
pub open spec fn untitled() -> Seq<char> {
    "(无标题)"@
}

/// The title of a hit, or the placeholder when it has none.
pub open spec fn display_title(r: SearchResultView) -> Seq<char> {
    if r.title.len() == 0 {
        untitled()
    } else {
        r.title
    }
}

impl SearchResult {
    /// The title, or a placeholder when the title is empty.
    pub fn title_or_fallback(&self) -> (t: &str)
        ensures
            t@ == display_title(self@),
    {
        if self.title.as_str().is_empty() {
            "(无标题)"
        } else {
            self.title.as_str()
        }
    }

    /// A copy of this hit.
    pub fn duplicate(&self) -> (r: SearchResult)
        ensures
            r@ == self@,
    {
        SearchResult { title: self.title.clone(), url: self.url.clone(), content: self.content.clone() }
    }
}

/// The views of a list of hits.
pub open spec fn results_view(v: Seq<SearchResult>) -> Seq<SearchResultView> {
    v.map_values(|r: SearchResult| r@)
}

/// The research done for one paragraph.
#[derive(Debug, Clone)]
pub struct Research {
    pub search_history: Vec<SearchResult>,
    pub latest_summary: String,
    pub reflection_iteration: u32,
}

/// The research done for one paragraph, as values.
pub struct ResearchView {
    pub search_history: Seq<SearchResultView>,
    pub latest_summary: Seq<char>,
    pub reflection_iteration: u32,
}

impl View for Research {
    type V = ResearchView;

    open spec fn view(&self) -> ResearchView {
        ResearchView {
            search_history: results_view(self.search_history@),
            latest_summary: self.latest_summary@,
            reflection_iteration: self.reflection_iteration,
        }
    }
}

impl Default for Research {
    fn default() -> (r: Research)
        ensures
            r@.search_history == Seq::<SearchResultView>::empty(),
            r@.latest_summary == Seq::<char>::empty(),
            r@.reflection_iteration == 0,
    {
        let r = Research {
            search_history: Vec::new(),
            latest_summary: String::new(),
            reflection_iteration: 0,
        };
        assert(r@.search_history =~= Seq::<SearchResultView>::empty());
        r
    }
}

/// One paragraph of the report.
#[derive(Debug, Clone)]
pub struct Paragraph {
    pub title: String,
    pub content: String,
    pub research: Research,
}

/// One paragraph of the report, as values.
pub struct ParagraphView {
    pub title: Seq<char>,
    pub content: Seq<char>,
    pub research: ResearchView,
}

impl View for Paragraph {
    type V = ParagraphView;

    open spec fn view(&self) -> ParagraphView {
        ParagraphView { title: self.title@, content: self.content@, research: self.research@ }
    }
}

/// The views of a list of paragraphs.
pub open spec fn paragraphs_view(v: Seq<Paragraph>) -> Seq<ParagraphView> {
    v.map_values(|p: Paragraph| p@)
}

/// The whole report state.
#[derive(Debug, Clone)]
pub struct State {
    pub report_title: String,
    pub paragraphs: Vec<Paragraph>,
}

/// The whole report state, as values.
pub struct StateView {
    pub report_title: Seq<char>,
    pub paragraphs: Seq<ParagraphView>,
}

impl View for State {
    type V = StateView;

    open spec fn view(&self) -> StateView {
        StateView { report_title: self.report_title@, paragraphs: paragraphs_view(self.paragraphs@) }
    }
}

impl State {
    /// An empty state for a report titled `report_title`.
    pub fn new(report_title: String) -> (s: State)
        ensures
            s@.report_title == report_title@,
            s@.paragraphs.len() == 0,
    {
        State { report_title, paragraphs: Vec::new() }
    }
}

// ---------------------------------------------------------------------
// Capping search result contents
// ---------------------------------------------------------------------

/// Largest content size, in bytes, kept from a search hit.
pub const CAP_SEARCH_LENGTH: usize = 20000;

/// The first position at or after `i` that is the end of `s` or whose
/// character starts at byte `limit` or later.
pub open spec fn cut_point(s: Seq<char>, limit: nat, i: int) -> int
    decreases s.len() - i,
{
    if i < 0 || i >= s.len() || byte_len(s.take(i)) >= limit {
        i
    } else {
        cut_point(s, limit, i + 1)
    }
}

/// `s` cut down, when it is longer than `limit` bytes, to the characters
/// that start before byte `limit` (the last one may run past it).
pub open spec fn capped(s: Seq<char>, limit: nat) -> Seq<char> {
    if byte_len(s) > limit {
        s.take(cut_point(s, limit, 0))
    } else {
        s
    }
}

/// A hit with its content capped.
pub open spec fn capped_result(r: SearchResultView, limit: nat) -> SearchResultView {
    SearchResultView { title: r.title, url: r.url, content: capped(r.content, limit) }
}

proof fn lemma_cut_point_bounds(s: Seq<char>, limit: nat, i: int)
    requires
        0 <= i <= s.len(),
        i == 0 || byte_len(s.take(i - 1)) < limit,
    ensures
        i <= cut_point(s, limit, i) <= s.len(),
        cut_point(s, limit, i) == 0 || byte_len(s.take(cut_point(s, limit, i) - 1)) < limit,
    decreases s.len() - i,
{
    if i < s.len() && byte_len(s.take(i)) < limit {
        lemma_cut_point_bounds(s, limit, i + 1);
    }
}

/// A capped content is a prefix of the content that ends on a character
/// boundary within three bytes after the limit, and content within the
/// limit is kept whole.
pub proof fn law_capped_is_short_prefix(s: Seq<char>, limit: nat)
    ensures
        s.take(capped(s, limit).len() as int) == capped(s, limit),
        byte_len(capped(s, limit)) <= limit + 3,
        byte_len(s) <= limit ==> capped(s, limit) == s,
{
    if byte_len(s) > limit {
        lemma_cut_point_bounds(s, limit, 0);
        let p = cut_point(s, limit, 0);
        if p > 0 {
            assert(s.take(p).drop_last() =~= s.take(p - 1));
            assert(char_width(s.take(p).last()) <= 4);
        }
    } else {
        assert(s.take(s.len() as int) =~= s);
    }
}

/// Every prefix shorter than the cut point takes fewer than `limit` bytes.
proof fn lemma_cut_point_before(s: Seq<char>, limit: nat, i: int)
    requires
        0 <= i <= s.len(),
    ensures
        forall|j: int| i <= j < cut_point(s, limit, i) ==> byte_len(#[trigger] s.take(j)) < limit,
    decreases s.len() - i,
{
    if i < s.len() && byte_len(s.take(i)) < limit {
        lemma_cut_point_before(s, limit, i + 1);
    }
}

/// Cutting a prefix whose shorter prefixes all stay below the limit runs
/// to its end.
proof fn lemma_cut_point_of_prefix(s: Seq<char>, limit: nat, p: int, i: int)
    requires
        0 <= i <= p <= s.len(),
        forall|j: int| i <= j < p ==> byte_len(#[trigger] s.take(j)) < limit,
    ensures
        cut_point(s.take(p), limit, i) == p,
    decreases p - i,
{
    if i < p {
        assert(s.take(p).take(i) =~= s.take(i));
        lemma_cut_point_of_prefix(s, limit, p, i + 1);
    }
}

/// Capping a capped content again changes nothing.
pub proof fn law_capped_idempotent(s: Seq<char>, limit: nat)
    ensures
        capped(capped(s, limit), limit) == capped(s, limit),
{
    if byte_len(s) > limit {
        lemma_cut_point_bounds(s, limit, 0);
        lemma_cut_point_before(s, limit, 0);
        let p = cut_point(s, limit, 0);
        let t = s.take(p);
        if byte_len(t) > limit {
            lemma_cut_point_of_prefix(s, limit, p, 0);
            assert(t.take(p) =~= t);
        }
    }
}

/// Keeps at most the characters of `s` that start before byte `limit`,
/// when `s` is longer than `limit` bytes.
pub fn cap_text(s: &String, limit: usize) -> (r: String)
    requires
        limit <= usize::MAX - 4,
    ensures
        r@ == capped(s@, limit as nat),
{
    let v = chars_of(s.as_str());
    if !byte_len_exceeds(&v, limit) {
        return s.clone();
    }
    let mut offset: usize = 0;
    let mut i: usize = 0;
    while i < v.len() && offset < limit
        invariant
            limit <= usize::MAX - 4,
            i <= v@.len(),
            offset == byte_len(v@.take(i as int)),
            cut_point(v@, limit as nat, 0) == cut_point(v@, limit as nat, i as int),
        decreases v@.len() - i,
    {
        assert(v@.take(i + 1).drop_last() =~= v@.take(i as int));
        let w = char_width_exec(v[i]);
        offset = offset + w;
        i = i + 1;
    }
    assert(cut_point(v@, limit as nat, i as int) == i);
    let r = string_of(&subvec(&v, 0, i));
    assert(v@.subrange(0, i as int) =~= v@.take(i as int));
    r
}

/// Cuts the content of every hit down to what starts within the first
/// `CAP_SEARCH_LENGTH` bytes, on a character boundary.
pub fn cap_results(results: &mut Vec<SearchResult>)
    ensures
        final(results)@.len() == old(results)@.len(),
        forall|i: int|
            0 <= i < old(results)@.len() ==> #[trigger] final(results)@[i]@ == capped_result(
                old(results)@[i]@,
                CAP_SEARCH_LENGTH as nat,
            ),
{
    let mut out: Vec<SearchResult> = Vec::new();
    let mut i: usize = 0;
    while i < results.len()
        invariant
            i <= results@.len(),
            out@.len() == i,
            forall|j: int|
                0 <= j < i ==> #[trigger] out@[j]@ == capped_result(
                    results@[j]@,
                    CAP_SEARCH_LENGTH as nat,
                ),
        decreases results@.len() - i,
    {
        let r = &results[i];
        let content = cap_text(&r.content, CAP_SEARCH_LENGTH);
        out.push(SearchResult { title: r.title.clone(), url: r.url.clone(), content });
        i = i + 1;
    }
    *results = out;
}

} // verus!
