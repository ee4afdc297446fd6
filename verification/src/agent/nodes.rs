//! Turning model replies into research results: the outline, the search
//! queries, the paragraph summaries and the final report.

use vstd::prelude::*;
use crate::agent::state::{
    Paragraph, ParagraphView, Research, ResearchView, SearchResult, SearchResultView, State, StateView,
    paragraphs_view, results_view,
};
use crate::search_tools::{entries_of, opt_entries, ReplyEntry, ReplyEntryView, SearchReply};
use crate::extract::{code_block, extract_code_block, extract_xml_all, extract_xml_or, strip_thinking_tags, without_thinking, xml_all, xml_content};
use crate::json::{json_records_pretty, pretty_json_records, records_view, JsonField, JsonFieldView};
use crate::text::{append_chars, chars_of, opt_view, decimal, decimal_exec, first_chars, first_chars_exec, res_view, seq_view, string_of, trim, trim_chars};

verus! {

// ---------------------------------------------------------------------
// The outline
// ---------------------------------------------------------------------

/// Most paragraphs an outline may have.
pub const MAX_PARAGRAPHS: usize = 5;

/// Research not yet started.
pub open spec fn fresh_research() -> ResearchView {
    ResearchView { search_history: seq![], latest_summary: seq![], reflection_iteration: 0 }
}

/// Title of the `i`-th outline paragraph: the `i`-th `<title>`, or a
/// numbered placeholder when there are fewer titles.
pub open spec fn outline_title(titles: Seq<Seq<char>>, i: int) -> Seq<char> {
    if i < titles.len() {
        titles[i]
    } else {
        "段落"@ + decimal((i + 1) as nat)
    }
}

/// Description of the `i`-th outline paragraph: the `i`-th `<content>`, or
/// nothing when there are fewer.
pub open spec fn outline_content(contents: Seq<Seq<char>>, i: int) -> Seq<char> {
    if i < contents.len() {
        contents[i]
    } else {
        seq![]
    }
}

/// Number of paragraphs taken from the tags: as many as the longer list
/// of titles or descriptions, but at most `MAX_PARAGRAPHS`.
pub open spec fn outline_count(titles: Seq<Seq<char>>, contents: Seq<Seq<char>>) -> nat {
    let n = if titles.len() >= contents.len() {
        titles.len()
    } else {
        contents.len()
    };
    if n <= MAX_PARAGRAPHS {
        n
    } else {
        MAX_PARAGRAPHS as nat
    }
}

/// The `i`-th paragraph planned from the tags.
pub open spec fn outline_paragraph(titles: Seq<Seq<char>>, contents: Seq<Seq<char>>, i: int) -> ParagraphView {
    ParagraphView {
        title: outline_title(titles, i),
        content: outline_content(contents, i),
        research: fresh_research(),
    }
}

/// The report state planned from the outline reply `response` to `query`:
/// one paragraph per title or description (see `outline_count`); when the
/// reply has none but is not blank, a single paragraph holding the whole
/// trimmed reply, titled after the first 20 characters of the query.
pub open spec fn outline(query: Seq<char>, response: Seq<char>) -> StateView {
    let titles = xml_all(response, "title"@);
    let contents = xml_all(response, "content"@);
    let n = outline_count(titles, contents);
    let paragraphs = if n > 0 {
        Seq::new(n, |i: int| outline_paragraph(titles, contents, i))
    } else if trim(response).len() > 0 {
        seq![
            ParagraphView {
                title: first_chars(query, 20) + "深度分析"@,
                content: trim(response),
                research: fresh_research(),
            },
        ]
    } else {
        seq![]
    };
    StateView { report_title: query, paragraphs }
}

/// An outline has at most `MAX_PARAGRAPHS` paragraphs, each starting with
/// no research done.
pub proof fn law_outline_at_most_five(query: Seq<char>, response: Seq<char>)
    ensures
        outline(query, response).paragraphs.len() <= MAX_PARAGRAPHS,
        forall|i: int|
            0 <= i < outline(query, response).paragraphs.len() ==> (#[trigger] outline(
                query,
                response,
            ).paragraphs[i]).research == fresh_research(),
{
}

/// Builds the report state from the outline reply `response` to `query`.
pub fn outline_from_reply(query: &str, response: &str) -> (s: State)
    ensures
        s@ == outline(query@, response@),
{
    let titles = extract_xml_all(response, "title");
    let contents = extract_xml_all(response, "content");
    let ghost tv = seq_view(titles@);
    let ghost cv = seq_view(contents@);
    let mut state = State::new(query.to_string());
    let longer = if titles.len() >= contents.len() {
        titles.len()
    } else {
        contents.len()
    };
    let count = if longer <= MAX_PARAGRAPHS {
        longer
    } else {
        MAX_PARAGRAPHS
    };
    assert(count == outline_count(tv, cv));
    let mut i: usize = 0;
    while i < count
        invariant
            count == outline_count(tv, cv),
            count <= MAX_PARAGRAPHS,
            tv == seq_view(titles@),
            cv == seq_view(contents@),
            i <= count,
            state@.report_title == query@,
            state@.paragraphs.len() == i,
            forall|j: int|
                0 <= j < i ==> #[trigger] state@.paragraphs[j] == outline_paragraph(tv, cv, j),
        decreases count - i,
    {
        let title = if i < titles.len() {
            titles[i].clone()
        } else {
            let mut t = chars_of("段落");
            append_chars(&mut t, &decimal_exec((i + 1) as u64));
            string_of(&t)
        };
        let content = if i < contents.len() {
            contents[i].clone()
        } else {
            String::new()
        };
        let ghost before = state@.paragraphs;
        let p = Paragraph { title, content, research: Research::default() };
        assert(p@.research == fresh_research());
        assert(p@ == outline_paragraph(tv, cv, i as int));
        state.paragraphs.push(p);
        assert(state@.paragraphs =~= before.push(state@.paragraphs[i as int]));
        i = i + 1;
    }
    if count == 0 {
        let body = trim_chars(&chars_of(response));
        if body.len() > 0 {
            let mut t = first_chars_exec(&chars_of(query), 20);
            append_chars(&mut t, &chars_of("深度分析"));
            state.paragraphs.push(
                Paragraph { title: string_of(&t), content: string_of(&body), research: Research::default() },
            );
        }
    }
    assert(state@.paragraphs =~= outline(query@, response@).paragraphs);
    state
}


// ---------------------------------------------------------------------
// Search queries and summaries
// ---------------------------------------------------------------------

/// The content of the first `<tag>` of `text`, or `default`.
pub open spec fn xml_or(text: Seq<char>, tag: Seq<char>, default: Seq<char>) -> Seq<char> {
    match xml_content(text, tag) {
        Some(c) => c,
        None => default,
    }
}

/// The search query and its reasoning from a search or reflection reply:
/// the `<search_query>` (or the paragraph title when there is none) and
/// the `<reasoning>` (or nothing).
pub open spec fn search_plan(response: Seq<char>, title: Seq<char>) -> (Seq<char>, Seq<char>) {
    (xml_or(response, "search_query"@, title), xml_or(response, "reasoning"@, seq![]))
}

/// Reads the search query and reasoning out of a search or reflection reply.
pub fn search_plan_from_reply(response: &str, paragraph_title: &str) -> (r: (String, String))
    ensures
        (r.0@, r.1@) == search_plan(response@, paragraph_title@),
{
    let search_query = extract_xml_or(response, "search_query", paragraph_title);
    let reasoning = extract_xml_or(response, "reasoning", "");
    proof {
        reveal_strlit("");
    }
    (search_query, reasoning)
}

/// The paragraph text from a first-summary reply: its
/// `<paragraph_latest_state>`, or the whole reply.
pub open spec fn first_summary(response: Seq<char>) -> Seq<char> {
    xml_or(response, "paragraph_latest_state"@, response)
}

/// Reads the paragraph text out of a first-summary reply.
pub fn summary_from_reply(response: &str) -> (r: String)
    ensures
        r@ == first_summary(response@),
{
    extract_xml_or(response, "paragraph_latest_state", response)
}

/// The paragraph text from a reflection-summary reply: its
/// `<updated_paragraph_latest_state>`, or the current summary unchanged.
pub open spec fn updated_summary(response: Seq<char>, latest: Seq<char>) -> Seq<char> {
    xml_or(response, "updated_paragraph_latest_state"@, latest)
}

/// Reads the updated paragraph text out of a reflection-summary reply.
pub fn updated_summary_from_reply(response: &str, latest_summary: &str) -> (r: String)
    ensures
        r@ == updated_summary(response@, latest_summary@),
{
    extract_xml_or(response, "updated_paragraph_latest_state", latest_summary)
}

// ---------------------------------------------------------------------
// The final report
// ---------------------------------------------------------------------

/// The members written for one paragraph in the report data.
pub open spec fn report_record(p: ParagraphView) -> Seq<JsonFieldView> {
    seq![
        JsonFieldView::Text("title"@, p.title),
        JsonFieldView::Text("paragraph_latest_state"@, p.research.latest_summary),
    ]
}

/// The report data handed to the formatting step, or the serialization
/// error prefixed with `序列化失败: `.
pub fn report_message(paragraphs: &[Paragraph]) -> (r: Result<String, String>)
    ensures
        r is Ok,
        r matches Ok(m) ==> m@ == pretty_json_records(
            paragraphs_view(paragraphs@).map_values(|p: ParagraphView| report_record(p)),
        ),
        r matches Err(e) ==> "序列化失败: "@.is_prefix_of(e@),
{
    let mut records: Vec<Vec<JsonField>> = Vec::new();
    let mut i: usize = 0;
    while i < paragraphs.len()
        invariant
            i <= paragraphs@.len(),
            records@.len() == i,
            forall|j: int|
                0 <= j < i ==> #[trigger] records_view(records@)[j] == report_record(
                    paragraphs@[j]@,
                ),
        decreases paragraphs@.len() - i,
    {
        let p = &paragraphs[i];
        let record = vec![
            JsonField::Text("title".to_string(), p.title.clone()),
            JsonField::Text(
                "paragraph_latest_state".to_string(),
                p.research.latest_summary.clone(),
            ),
        ];
        assert(crate::json::fields_view(record@) =~= report_record(p@));
        let ghost before = records@;
        records.push(record);
        assert(records_view(records@) =~= records_view(before).push(report_record(p@)));
        i = i + 1;
    }
    assert(records_view(records@) =~= paragraphs_view(paragraphs@).map_values(
        |p: ParagraphView| report_record(p),
    ));
    match json_records_pretty(&records) {
        Ok(m) => Ok(m),
        Err(e) => {
            let mut msg = chars_of("序列化失败: ");
            append_chars(&mut msg, &chars_of(e.as_str()));
            assert("序列化失败: "@.is_prefix_of(msg@)) by {
                assert(msg@.subrange(0, "序列化失败: "@.len() as int) =~= "序列化失败: "@);
            }
            Err(string_of(&msg))
        },
    }
}

/// The Markdown report from a formatting reply: its `markdown` code block,
/// else its `md` code block, else the reply without thinking blocks.
pub open spec fn markdown_report(response: Seq<char>) -> Seq<char> {
    match code_block(response, "markdown"@) {
        Some(md) => md,
        None => match code_block(response, "md"@) {
            Some(md) => md,
            None => without_thinking(response),
        },
    }
}

/// Reads the Markdown report out of a formatting reply.
pub fn markdown_from_reply(response: &str) -> (r: String)
    ensures
        r@ == markdown_report(response@),
{
    if let Some(md) = extract_code_block(response, "markdown") {
        return md;
    }
    if let Some(md) = extract_code_block(response, "md") {
        return md;
    }
    strip_thinking_tags(response)
}


// ---------------------------------------------------------------------
// Tavily search replies
// ---------------------------------------------------------------------

/// A present text, or nothing.
pub open spec fn text_or_empty(t: Option<Seq<char>>) -> Seq<char> {
    match t {
        Some(x) => x,
        None => seq![],
    }
}

/// The hit a Tavily reply entry gives: its title, address and content,
/// each empty when missing.
pub open spec fn tavily_hit(e: ReplyEntryView) -> SearchResultView {
    SearchResultView {
        title: text_or_empty(e.title),
        url: text_or_empty(e.url),
        content: text_or_empty(e.content),
    }
}

/// The hits of a Tavily reply: one per entry under `results`; a reply
/// without that array is refused.
pub open spec fn tavily_hits(results: Option<Seq<ReplyEntryView>>) -> Result<Seq<SearchResultView>, Seq<char>> {
    match results {
        Some(es) => Ok(es.map_values(|e: ReplyEntryView| tavily_hit(e))),
        None => Err("Tavily返回格式错误"@),
    }
}

fn text_or_empty_exec(t: &Option<String>) -> (r: String)
    ensures
        r@ == text_or_empty(opt_view(*t)),
{
    match t {
        Some(x) => x.clone(),
        None => String::new(),
    }
}

/// Reads the hits of a Tavily search reply (see `tavily_hits`).
pub fn tavily_results(reply: &SearchReply) -> (r: Result<Vec<SearchResult>, String>)
    ensures
        match (r, tavily_hits(opt_entries(reply.results))) {
            (Ok(v), Ok(h)) => results_view(v@) == h,
            (Err(e), Err(m)) => e@ == m,
            _ => false,
        },
{
    let entries = match &reply.results {
        Some(es) => es,
        None => {
            return Err("Tavily返回格式错误".to_string());
        },
    };
    let ghost ev = entries_of(entries@);
    let mut out: Vec<SearchResult> = Vec::new();
    let mut k: usize = 0;
    while k < entries.len()
        invariant
            k <= entries@.len(),
            ev == entries_of(entries@),
            results_view(out@) == ev.take(k as int).map_values(|e: ReplyEntryView| tavily_hit(e)),
        decreases entries@.len() - k,
    {
        let e = &entries[k];
        let hit = SearchResult {
            title: text_or_empty_exec(&e.title),
            url: text_or_empty_exec(&e.url),
            content: text_or_empty_exec(&e.content),
        };
        assert(ev[k as int] == e@);
        assert(hit@ == tavily_hit(e@));
        let ghost before = out@;
        out.push(hit);
        assert(results_view(out@) =~= results_view(before).push(hit@));
        assert(results_view(out@) =~= ev.take(k + 1).map_values(|e: ReplyEntryView| tavily_hit(e)));
        k = k + 1;
    }
    assert(ev.take(entries@.len() as int) =~= ev);
    Ok(out)
}

} // verus!
