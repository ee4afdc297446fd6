//! The decisions of a research run, as a state machine.
//!
//! A run plans an outline, then for each paragraph asks for a search
//! query, searches, summarizes, and reflects `NUM_REFLECTIONS` times (a new
//! query, a new search, an enriched summary), and finally asks for the
//! report formatted as an HTML newspaper and then as a Markdown report. The machine decides what to ask for next from what
//! came back; whoever drives it performs each request and reports the
//! outcome as the next event.

use vstd::prelude::*;
use vstd::pervasive::VecAdditionalExecFns;
use crate::agent::nodes::{
    first_summary, markdown_from_reply, markdown_report, outline, outline_from_reply, report_message,
    report_record, search_plan, search_plan_from_reply, summary_from_reply, updated_summary,
    updated_summary_from_reply,
};
use crate::agent::prompts::{
    first_search_input, first_summary_input, format_html_system, prompt_first_search,
    prompt_first_summary, prompt_format_html, prompt_format_md, prompt_reflection,
    prompt_reflection_summary, reflection_input, reflection_summary_input, FIRST_SEARCH_SYSTEM,
    FIRST_SUMMARY_SYSTEM, FORMAT_MD_SYSTEM, REFLECTION_SUMMARY_SYSTEM, REFLECTION_SYSTEM,
};
use crate::agent::state::{
    cap_results, capped_result, paragraphs_view, results_view, Paragraph, ParagraphView, Research,
    ResearchView, SearchResult, SearchResultView, State, StateView, CAP_SEARCH_LENGTH,
};
use crate::extract::{clean_html_output, cleaned_html, html_reply_cuttable};
use crate::json::pretty_json_records;
use crate::text::{opt_view, res_view};

verus! {

/// Reflection rounds per paragraph.
pub const NUM_REFLECTIONS: u32 = 2;

/// Hits asked for per search.
pub const NUM_RESULTS_PER_SEARCH: u32 = 3;

/// Where a run stands, and what it waits for.
pub enum Phase {
    /// Waiting for the outline.
    Outline,
    /// Waiting for the first query of paragraph `index`.
    FirstQuery { index: usize },
    /// Waiting for the hits of the first query of paragraph `index`.
    FirstResults { index: usize, query: String },
    /// Waiting for the first summary of paragraph `index`.
    FirstSummary { index: usize },
    /// Waiting for the query of reflection `round` of paragraph `index`.
    ReflectQuery { index: usize, round: u32 },
    /// Waiting for the hits of reflection `round` of paragraph `index`.
    ReflectResults { index: usize, round: u32, query: String },
    /// Waiting for the enriched summary of reflection `round` of paragraph `index`.
    ReflectSummary { index: usize, round: u32 },
    /// Waiting for the HTML newspaper.
    FormattingHtml,
    /// Waiting for the Markdown report, the newspaper `html` in hand.
    FormattingMarkdown { html: String },
    /// Finished.
    Done,
}

/// Where a run stands, as values.
pub enum PhaseView {
    Outline,
    FirstQuery { index: int },
    FirstResults { index: int, query: Seq<char> },
    FirstSummary { index: int },
    ReflectQuery { index: int, round: int },
    ReflectResults { index: int, round: int, query: Seq<char> },
    ReflectSummary { index: int, round: int },
    FormattingHtml,
    FormattingMarkdown { html: Seq<char> },
    Done,
}

impl View for Phase {
    type V = PhaseView;

    open spec fn view(&self) -> PhaseView {
        match self {
            Phase::Outline => PhaseView::Outline,
            Phase::FirstQuery { index } => PhaseView::FirstQuery { index: *index as int },
            Phase::FirstResults { index, query } => PhaseView::FirstResults {
                index: *index as int,
                query: query@,
            },
            Phase::FirstSummary { index } => PhaseView::FirstSummary { index: *index as int },
            Phase::ReflectQuery { index, round } => PhaseView::ReflectQuery {
                index: *index as int,
                round: *round as int,
            },
            Phase::ReflectResults { index, round, query } => PhaseView::ReflectResults {
                index: *index as int,
                round: *round as int,
                query: query@,
            },
            Phase::ReflectSummary { index, round } => PhaseView::ReflectSummary {
                index: *index as int,
                round: *round as int,
            },
            Phase::FormattingHtml => PhaseView::FormattingHtml,
            Phase::FormattingMarkdown { html } => PhaseView::FormattingMarkdown { html: html@ },
            Phase::Done => PhaseView::Done,
        }
    }
}

/// What came back from a request.
pub enum AgentEvent {
    /// The model's reply text, or why the call failed.
    ModelReply(Result<String, String>),
    /// The search hits, or why the search failed.
    SearchReply(Result<Vec<SearchResult>, String>),
}

/// What came back from a request, as values.
pub enum AgentEventView {
    ModelReply(Result<Seq<char>, Seq<char>>),
    SearchReply(Result<Seq<SearchResultView>, Seq<char>>),
}

impl View for AgentEvent {
    type V = AgentEventView;

    open spec fn view(&self) -> AgentEventView {
        match self {
            AgentEvent::ModelReply(r) => AgentEventView::ModelReply(res_view(*r)),
            AgentEvent::SearchReply(r) => AgentEventView::SearchReply(
                match r {
                    Ok(v) => Ok(results_view(v@)),
                    Err(e) => Err(e@),
                },
            ),
        }
    }
}

/// What to do next.
pub enum AgentAction {
    /// Ask the model, with this system prompt and user input.
    AskModel { system: String, user: String },
    /// Search the web for `query`, asking for `max_results` hits.
    Search { query: String, max_results: u32 },
    /// The run is over, with the HTML newspaper and the Markdown report, or
    /// an error.
    Finish(Result<(String, String), String>),
}

/// What to do next, as values.
pub enum AgentActionView {
    AskModel { system: Seq<char>, user: Seq<char> },
    Search { query: Seq<char>, max_results: u32 },
    Finish(Result<(Seq<char>, Seq<char>), Seq<char>>),
}

impl View for AgentAction {
    type V = AgentActionView;

    open spec fn view(&self) -> AgentActionView {
        match self {
            AgentAction::AskModel { system, user } => AgentActionView::AskModel {
                system: system@,
                user: user@,
            },
            AgentAction::Search { query, max_results } => AgentActionView::Search {
                query: query@,
                max_results: *max_results,
            },
            AgentAction::Finish(r) => AgentActionView::Finish(reports_view(*r)),
        }
    }
}

/// The texts of a run's outcome.
pub open spec fn reports_view(r: Result<(String, String), String>) -> Result<(Seq<char>, Seq<char>), Seq<char>> {
    match r {
        Ok((h, m)) => Ok((h@, m@)),
        Err(e) => Err(e@),
    }
}

/// A research run.
pub struct DeepSearch {
    topic: String,
    reference: Option<String>,
    research: State,
    phase: Phase,
}

/// A research run, as values.
pub struct DeepSearchView {
    /// The research topic, sent as the outline request.
    pub topic: Seq<char>,
    /// The earlier report whose style the HTML report follows.
    pub reference: Option<Seq<char>>,
    /// The research so far.
    pub state: StateView,
    /// Where the run stands.
    pub phase: PhaseView,
}

impl View for DeepSearch {
    type V = DeepSearchView;

    closed spec fn view(&self) -> DeepSearchView {
        DeepSearchView {
            topic: self.topic@,
            reference: opt_view(self.reference),
            state: self.research@,
            phase: self.phase@,
        }
    }
}

// ---------------------------------------------------------------------
// The transitions, as values
// ---------------------------------------------------------------------

/// The run with another phase.
pub open spec fn with_phase(m: DeepSearchView, phase: PhaseView) -> DeepSearchView {
    DeepSearchView { phase, ..m }
}

/// The run with paragraph `j` replaced.
pub open spec fn with_paragraph(m: DeepSearchView, j: int, p: ParagraphView) -> DeepSearchView {
    DeepSearchView {
        state: StateView { paragraphs: m.state.paragraphs.update(j, p), ..m.state },
        ..m
    }
}

/// A paragraph with more hits in its history.
pub open spec fn with_hits(p: ParagraphView, hits: Seq<SearchResultView>) -> ParagraphView {
    ParagraphView {
        research: ResearchView { search_history: p.research.search_history + hits, ..p.research },
        ..p
    }
}

/// A paragraph with a new summary.
pub open spec fn with_summary(p: ParagraphView, summary: Seq<char>) -> ParagraphView {
    ParagraphView { research: ResearchView { latest_summary: summary, ..p.research }, ..p }
}

/// A paragraph with a new summary after reflection round `round`.
pub open spec fn with_reflection(p: ParagraphView, summary: Seq<char>, round: int) -> ParagraphView {
    ParagraphView {
        research: ResearchView {
            latest_summary: summary,
            reflection_iteration: (round + 1) as u32,
            ..p.research
        },
        ..p
    }
}

/// Hits with their contents capped.
pub open spec fn capped_hits(hits: Seq<SearchResultView>) -> Seq<SearchResultView> {
    hits.map_values(|r: SearchResultView| capped_result(r, CAP_SEARCH_LENGTH as nat))
}

/// The run over, with this outcome.
pub open spec fn finished(m: DeepSearchView, r: Result<(Seq<char>, Seq<char>), Seq<char>>) -> (
    DeepSearchView,
    AgentActionView,
) {
    (with_phase(m, PhaseView::Done), AgentActionView::Finish(r))
}

/// The research handed to the formatting requests: the paragraphs'
/// titles and summaries.
pub open spec fn format_message(m: DeepSearchView) -> Seq<char> {
    pretty_json_records(m.state.paragraphs.map_values(|p: ParagraphView| report_record(p)))
}

/// The request for the HTML newspaper, with the HTML prompt (quoting the
/// reference report).
pub open spec fn ask_format(m: DeepSearchView) -> (DeepSearchView, AgentActionView) {
    (
        with_phase(m, PhaseView::FormattingHtml),
        AgentActionView::AskModel { system: format_html_system(m.reference), user: format_message(m) },
    )
}

/// The request for the Markdown report, once the newspaper `html` is in.
pub open spec fn ask_markdown(m: DeepSearchView, html: Seq<char>) -> (DeepSearchView, AgentActionView) {
    (
        with_phase(m, PhaseView::FormattingMarkdown { html }),
        AgentActionView::AskModel { system: FORMAT_MD_SYSTEM@, user: format_message(m) },
    )
}

/// Start on paragraph `j`: ask for its first query; past the last
/// paragraph, ask for the formatted report.
pub open spec fn begin_paragraph(m: DeepSearchView, j: int) -> (DeepSearchView, AgentActionView) {
    if j < m.state.paragraphs.len() {
        let p = m.state.paragraphs[j];
        (
            with_phase(m, PhaseView::FirstQuery { index: j }),
            AgentActionView::AskModel {
                system: FIRST_SEARCH_SYSTEM@,
                user: first_search_input(p.title, p.content),
            },
        )
    } else {
        ask_format(m)
    }
}

/// Start reflection `round` of paragraph `j`: ask for its query; after the
/// last round, go on to the next paragraph.
pub open spec fn begin_reflection(m: DeepSearchView, j: int, round: int) -> (
    DeepSearchView,
    AgentActionView,
) {
    if round < NUM_REFLECTIONS {
        let p = m.state.paragraphs[j];
        (
            with_phase(m, PhaseView::ReflectQuery { index: j, round }),
            AgentActionView::AskModel {
                system: REFLECTION_SYSTEM@,
                user: reflection_input(p.title, p.content, p.research.latest_summary),
            },
        )
    } else {
        begin_paragraph(m, j + 1)
    }
}

/// A report that must not be empty.
pub open spec fn non_empty(r: Result<Seq<char>, Seq<char>>) -> Result<Seq<char>, Seq<char>> {
    match r {
        Ok(report) => if report.len() == 0 {
            Err("报告内容为空，请重试"@)
        } else {
            Ok(report)
        },
        Err(e) => Err(e),
    }
}

/// The newspaper from the HTML formatting reply: the cleaned HTML; an
/// empty one is an error.
pub open spec fn final_html(reply: Seq<char>) -> Result<Seq<char>, Seq<char>> {
    non_empty(cleaned_html(reply))
}

/// The report from the Markdown formatting reply; an empty one is an error.
pub open spec fn final_markdown(reply: Seq<char>) -> Result<Seq<char>, Seq<char>> {
    non_empty(Ok(markdown_report(reply)))
}

/// A search for `query`.
pub open spec fn search_for(query: Seq<char>) -> AgentActionView {
    AgentActionView::Search { query, max_results: NUM_RESULTS_PER_SEARCH }
}

/// What the run does with an event: a failed request ends the run with its
/// error; otherwise the reply moves the run one step along (see the module
/// documentation), recording hits and summaries in the research state.
pub open spec fn next(m: DeepSearchView, e: AgentEventView) -> (DeepSearchView, AgentActionView) {
    match e {
        AgentEventView::ModelReply(Err(err)) => finished(m, Err(err)),
        AgentEventView::SearchReply(Err(err)) => finished(m, Err(err)),
        AgentEventView::ModelReply(Ok(reply)) => match m.phase {
            PhaseView::Outline => begin_paragraph(
                DeepSearchView { state: outline(m.topic, reply), ..m },
                0,
            ),
            PhaseView::FirstQuery { index } => {
                let query = search_plan(reply, m.state.paragraphs[index].title).0;
                (
                    with_phase(m, PhaseView::FirstResults { index, query }),
                    search_for(query),
                )
            },
            PhaseView::FirstSummary { index } => begin_reflection(
                with_paragraph(
                    m,
                    index,
                    with_summary(m.state.paragraphs[index], first_summary(reply)),
                ),
                index,
                0,
            ),
            PhaseView::ReflectQuery { index, round } => {
                let query = search_plan(reply, m.state.paragraphs[index].title).0;
                (
                    with_phase(m, PhaseView::ReflectResults { index, round, query }),
                    search_for(query),
                )
            },
            PhaseView::ReflectSummary { index, round } => {
                let p = m.state.paragraphs[index];
                begin_reflection(
                    with_paragraph(
                        m,
                        index,
                        with_reflection(
                            p,
                            updated_summary(reply, p.research.latest_summary),
                            round,
                        ),
                    ),
                    index,
                    round + 1,
                )
            },
            PhaseView::FormattingHtml => match final_html(reply) {
                Ok(html) => ask_markdown(m, html),
                Err(e) => finished(m, Err(e)),
            },
            PhaseView::FormattingMarkdown { html } => match final_markdown(reply) {
                Ok(md) => finished(m, Ok((html, md))),
                Err(e) => finished(m, Err(e)),
            },
            _ => (m, AgentActionView::Finish(Err(seq![]))),
        },
        AgentEventView::SearchReply(Ok(hits)) => match m.phase {
            PhaseView::FirstResults { index, query } => {
                let p = m.state.paragraphs[index];
                let capped = capped_hits(hits);
                (
                    with_phase(
                        with_paragraph(m, index, with_hits(p, capped)),
                        PhaseView::FirstSummary { index },
                    ),
                    AgentActionView::AskModel {
                        system: FIRST_SUMMARY_SYSTEM@,
                        user: first_summary_input(p.title, p.content, query, capped),
                    },
                )
            },
            PhaseView::ReflectResults { index, round, query } => {
                let p = m.state.paragraphs[index];
                let capped = capped_hits(hits);
                (
                    with_phase(
                        with_paragraph(m, index, with_hits(p, capped)),
                        PhaseView::ReflectSummary { index, round },
                    ),
                    AgentActionView::AskModel {
                        system: REFLECTION_SUMMARY_SYSTEM@,
                        user: reflection_summary_input(
                            p.title,
                            p.content,
                            query,
                            capped,
                            p.research.latest_summary,
                        ),
                    },
                )
            },
            _ => (m, AgentActionView::Finish(Err(seq![]))),
        },
    }
}

/// The run waits for a reply of this kind: a model reply in the model
/// phases, search hits in the search phases, nothing once done.
pub open spec fn awaits(phase: PhaseView, e: AgentEventView) -> bool {
    match phase {
        PhaseView::FirstResults { .. } | PhaseView::ReflectResults { .. } => e is SearchReply,
        PhaseView::Done => false,
        _ => e is ModelReply,
    }
}

/// The indices a phase names are those of existing paragraphs and rounds,
/// and a newspaper waiting for its Markdown companion is not empty.
pub open spec fn phase_ok(phase: PhaseView, n: int) -> bool {
    match phase {
        PhaseView::FirstQuery { index } => 0 <= index < n,
        PhaseView::FirstResults { index, .. } => 0 <= index < n,
        PhaseView::FirstSummary { index } => 0 <= index < n,
        PhaseView::ReflectQuery { index, round } => 0 <= index < n && 0 <= round < NUM_REFLECTIONS,
        PhaseView::ReflectResults { index, round, .. } => 0 <= index < n && 0 <= round
            < NUM_REFLECTIONS,
        PhaseView::ReflectSummary { index, round } => 0 <= index < n && 0 <= round
            < NUM_REFLECTIONS,
        PhaseView::FormattingMarkdown { html } => html.len() > 0,
        _ => true,
    }
}

/// A formatting reply can be cleaned: only the HTML newspaper reply needs
/// the check of `html_reply_cuttable`.
pub open spec fn reply_handled(m: DeepSearchView, e: AgentEventView) -> bool {
    match e {
        AgentEventView::ModelReply(Ok(reply)) => m.phase is FormattingHtml ==> html_reply_cuttable(
            reply,
        ),
        _ => true,
    }
}

impl DeepSearch {
    /// The run's indices are in range.
    pub open spec fn wf(&self) -> bool {
        phase_ok(self@.phase, self@.state.paragraphs.len() as int)
    }

    /// Starts a run on `topic` that writes an HTML newspaper (in the style
    /// of `reference`) and a Markdown report: the first request asks for the
    /// outline.
    pub fn start(topic: String, reference: Option<String>) -> (r: (
        DeepSearch,
        AgentAction,
    ))
        ensures
            r.0.wf(),
            r.0@.topic == topic@,
            r.0@.reference == opt_view(reference),
            r.0@.state.report_title == topic@,
            r.0@.state.paragraphs.len() == 0,
            r.0@.phase == PhaseView::Outline,
            r.1@ == (AgentActionView::AskModel {
                system: crate::agent::prompts::REPORT_STRUCTURE_SYSTEM@,
                user: topic@,
            }),
    {
        let (system, _) = crate::agent::prompts::prompt_report_structure();
        let user = topic.clone();
        let research = State::new(topic.clone());
        let m = DeepSearch { topic, reference, research, phase: Phase::Outline };
        (m, AgentAction::AskModel { system, user })
    }

    /// The research so far.
    pub fn state(&self) -> (s: &State)
        ensures
            s@ == self@.state,
    {
        &self.research
    }

    /// Where the run stands.
    pub fn phase(&self) -> (p: &Phase)
        ensures
            p@ == self@.phase,
    {
        &self.phase
    }

    /// Whether the run waits for a search (else for the model, unless it is done).
    pub fn awaits_search(&self) -> (b: bool)
        ensures
            b == (self@.phase is FirstResults || self@.phase is ReflectResults),
    {
        match &self.phase {
            Phase::FirstResults { .. } | Phase::ReflectResults { .. } => true,
            _ => false,
        }
    }

    /// Whether the run is over.
    pub fn is_done(&self) -> (b: bool)
        ensures
            b == (self@.phase is Done),
    {
        match &self.phase {
            Phase::Done => true,
            _ => false,
        }
    }

    /// Moves the run along with the outcome `event` of the last request and
    /// says what to do next (see `next`).
    pub fn step(self, event: AgentEvent) -> (r: (DeepSearch, AgentAction))
        requires
            self.wf(),
            awaits(self@.phase, event@),
            reply_handled(self@, event@),
        ensures
            r.0.wf(),
            (r.0@, r.1@) == next(self@, event@),
    {
        let ghost m = self@;
        let DeepSearch { topic, reference, research, phase } = self;
        match event {
            AgentEvent::ModelReply(Err(e)) => {
                let done = DeepSearch { topic, reference, research, phase: Phase::Done };
                (done, AgentAction::Finish(Err(e)))
            },
            AgentEvent::SearchReply(Err(e)) => {
                let done = DeepSearch { topic, reference, research, phase: Phase::Done };
                (done, AgentAction::Finish(Err(e)))
            },
            AgentEvent::ModelReply(Ok(reply)) => match phase {
                Phase::Outline => {
                    let planned = outline_from_reply(topic.as_str(), reply.as_str());
                    let run = DeepSearch { topic, reference, research: planned, phase };
                    run.begin_paragraph(0)
                },
                Phase::FirstQuery { index } => {
                    let (query, _) = search_plan_from_reply(
                        reply.as_str(),
                        research.paragraphs[index].title.as_str(),
                    );
                    let action = AgentAction::Search {
                        query: query.clone(),
                        max_results: NUM_RESULTS_PER_SEARCH,
                    };
                    let run = DeepSearch {
                        topic,
                        reference,
                        research,
                        phase: Phase::FirstResults { index, query },
                    };
                    (run, action)
                },
                Phase::FirstSummary { index } => {
                    let summary = summary_from_reply(reply.as_str());
                    let mut research = research;
                    set_summary(&mut research, index, summary);
                    let run = DeepSearch { topic, reference, research, phase };
                    run.begin_reflection(index, 0)
                },
                Phase::ReflectQuery { index, round } => {
                    let (query, _) = search_plan_from_reply(
                        reply.as_str(),
                        research.paragraphs[index].title.as_str(),
                    );
                    let action = AgentAction::Search {
                        query: query.clone(),
                        max_results: NUM_RESULTS_PER_SEARCH,
                    };
                    let run = DeepSearch {
                        topic,
                        reference,
                        research,
                        phase: Phase::ReflectResults { index, round, query },
                    };
                    (run, action)
                },
                Phase::ReflectSummary { index, round } => {
                    let summary = updated_summary_from_reply(
                        reply.as_str(),
                        research.paragraphs[index].research.latest_summary.as_str(),
                    );
                    let mut research = research;
                    set_reflection(&mut research, index, summary, round);
                    let run = DeepSearch { topic, reference, research, phase };
                    run.begin_reflection(index, round + 1)
                },
                Phase::FormattingHtml => {
                    match non_empty_report(clean_html_output(reply.as_str())) {
                        Ok(html) => {
                            let run = DeepSearch { topic, reference, research, phase };
                            run.ask_markdown(html)
                        },
                        Err(e) => {
                            let done = DeepSearch { topic, reference, research, phase: Phase::Done };
                            (done, AgentAction::Finish(Err(e)))
                        },
                    }
                },
                Phase::FormattingMarkdown { html } => {
                    let outcome = match non_empty_report(Ok(markdown_from_reply(reply.as_str()))) {
                        Ok(md) => Ok((html, md)),
                        Err(e) => Err(e),
                    };
                    let done = DeepSearch { topic, reference, research, phase: Phase::Done };
                    (done, AgentAction::Finish(outcome))
                },
                _ => {
                    assert(false);
                    let run = DeepSearch { topic, reference, research, phase };
                    (run, AgentAction::Finish(Err(String::new())))
                },
            },
            AgentEvent::SearchReply(Ok(hits)) => match phase {
                Phase::FirstResults { index, query } => {
                    let mut capped = hits;
                    cap_results(&mut capped);
                    assert(results_view(capped@) =~= capped_hits(results_view(hits@)));
                    let p = &research.paragraphs[index];
                    let (system, user) = prompt_first_summary(
                        p.title.as_str(),
                        p.content.as_str(),
                        query.as_str(),
                        capped.as_slice(),
                    );
                    let mut research = research;
                    add_hits(&mut research, index, &capped);
                    let run = DeepSearch {
                        topic,
                        reference,
                        research,
                        phase: Phase::FirstSummary { index },
                    };
                    (run, AgentAction::AskModel { system, user })
                },
                Phase::ReflectResults { index, round, query } => {
                    let mut capped = hits;
                    cap_results(&mut capped);
                    assert(results_view(capped@) =~= capped_hits(results_view(hits@)));
                    let p = &research.paragraphs[index];
                    let (system, user) = prompt_reflection_summary(
                        p.title.as_str(),
                        p.content.as_str(),
                        query.as_str(),
                        capped.as_slice(),
                        p.research.latest_summary.as_str(),
                    );
                    let mut research = research;
                    add_hits(&mut research, index, &capped);
                    let run = DeepSearch {
                        topic,
                        reference,
                        research,
                        phase: Phase::ReflectSummary { index, round },
                    };
                    (run, AgentAction::AskModel { system, user })
                },
                _ => {
                    assert(false);
                    let run = DeepSearch { topic, reference, research, phase };
                    (run, AgentAction::Finish(Err(String::new())))
                },
            },
        }
    }

    /// Starts on paragraph `j` (see `begin_paragraph`).
    fn begin_paragraph(self, j: usize) -> (r: (DeepSearch, AgentAction))
        requires
            j <= self@.state.paragraphs.len(),
        ensures
            r.0.wf(),
            (r.0@, r.1@) == begin_paragraph(self@, j as int),
    {
        if j < self.research.paragraphs.len() {
            let p = &self.research.paragraphs[j];
            let (system, user) = prompt_first_search(p.title.as_str(), p.content.as_str());
            let DeepSearch { topic, reference, research, phase } = self;
            let run = DeepSearch { topic, reference, research, phase: Phase::FirstQuery { index: j } };
            (run, AgentAction::AskModel { system, user })
        } else {
            self.ask_format()
        }
    }

    /// Starts reflection `round` of paragraph `j` (see `begin_reflection`).
    fn begin_reflection(self, j: usize, round: u32) -> (r: (DeepSearch, AgentAction))
        requires
            j < self@.state.paragraphs.len(),
            round <= NUM_REFLECTIONS,
        ensures
            r.0.wf(),
            (r.0@, r.1@) == begin_reflection(self@, j as int, round as int),
    {
        if round < NUM_REFLECTIONS {
            let p = &self.research.paragraphs[j];
            let (system, user) = prompt_reflection(
                p.title.as_str(),
                p.content.as_str(),
                p.research.latest_summary.as_str(),
            );
            let DeepSearch { topic, reference, research, phase } = self;
            let run = DeepSearch {
                topic,
                reference,
                research,
                phase: Phase::ReflectQuery { index: j, round },
            };
            (run, AgentAction::AskModel { system, user })
        } else {
            let n = self.research.paragraphs.len();
            assert(j < n);
            self.begin_paragraph(j + 1)
        }
    }

    /// The research handed to the formatting requests (see `format_message`).
    fn format_message(&self) -> (m: String)
        ensures
            m@ == format_message(self@),
    {
        match report_message(self.research.paragraphs.as_slice()) {
            Ok(m) => m,
            Err(e) => e,
        }
    }

    /// Asks for the HTML newspaper (see `ask_format`).
    fn ask_format(self) -> (r: (DeepSearch, AgentAction))
        ensures
            r.0.wf(),
            (r.0@, r.1@) == ask_format(self@),
    {
        let message = self.format_message();
        let system = match &self.reference {
            Some(r) => prompt_format_html(Some(r.as_str())).0,
            None => prompt_format_html(None).0,
        };
        let DeepSearch { topic, reference, research, phase } = self;
        let run = DeepSearch { topic, reference, research, phase: Phase::FormattingHtml };
        (run, AgentAction::AskModel { system, user: message })
    }

    /// Asks for the Markdown report, keeping the newspaper `html` (see
    /// `ask_markdown`).
    fn ask_markdown(self, html: String) -> (r: (DeepSearch, AgentAction))
        requires
            html@.len() > 0,
        ensures
            r.0.wf(),
            (r.0@, r.1@) == ask_markdown(self@, html@),
    {
        let message = self.format_message();
        let system = prompt_format_md().0;
        let DeepSearch { topic, reference, research, phase } = self;
        let run = DeepSearch { topic, reference, research, phase: Phase::FormattingMarkdown { html } };
        (run, AgentAction::AskModel { system, user: message })
    }

    /// Whether the run waits for the HTML newspaper, so that a model reply
    /// must pass `html_reply_is_cuttable` first.
    pub fn awaits_html(&self) -> (b: bool)
        ensures
            b == (self@.phase is FormattingHtml),
    {
        match &self.phase {
            Phase::FormattingHtml => true,
            _ => false,
        }
    }
}


// ---------------------------------------------------------------------
// Laws of a run
// ---------------------------------------------------------------------

/// A failed model call or search ends the run, with exactly its error.
pub proof fn law_failure_ends_run(m: DeepSearchView, e: AgentEventView)
    requires
        e matches AgentEventView::ModelReply(Err(_)) || e matches AgentEventView::SearchReply(Err(_)),
    ensures
        next(m, e).0.phase is Done,
        e matches AgentEventView::ModelReply(Err(err)) ==> next(m, e).1 == AgentActionView::Finish(
            Err(err),
        ),
        e matches AgentEventView::SearchReply(Err(err)) ==> next(m, e).1
            == AgentActionView::Finish(Err(err)),
{
}

/// Every search asks for `NUM_RESULTS_PER_SEARCH` hits.
pub proof fn law_searches_ask_fixed_count(m: DeepSearchView, e: AgentEventView)
    requires
        phase_ok(m.phase, m.state.paragraphs.len() as int),
        awaits(m.phase, e),
    ensures
        next(m, e).1 matches AgentActionView::Search { max_results, .. } ==> max_results
            == NUM_RESULTS_PER_SEARCH,
{
}

/// A run that finishes successfully yields a non-empty report.
pub proof fn law_success_is_nonempty(m: DeepSearchView, e: AgentEventView)
    requires
        phase_ok(m.phase, m.state.paragraphs.len() as int),
        awaits(m.phase, e),
    ensures
        next(m, e).1 matches AgentActionView::Finish(Ok((html, md))) ==> html.len() > 0 && md.len()
            > 0,
{
}

/// Once the outline is planned, research never changes the number of
/// paragraphs, their titles or their descriptions, and a paragraph's
/// search history only grows.
pub proof fn law_research_keeps_outline(m: DeepSearchView, e: AgentEventView)
    requires
        phase_ok(m.phase, m.state.paragraphs.len() as int),
        awaits(m.phase, e),
        !(m.phase is Outline),
    ensures
        next(m, e).0.state.paragraphs.len() == m.state.paragraphs.len(),
        forall|j: int|
            0 <= j < m.state.paragraphs.len() ==> {
                &&& #[trigger] next(m, e).0.state.paragraphs[j].title == m.state.paragraphs[j].title
                &&& next(m, e).0.state.paragraphs[j].content == m.state.paragraphs[j].content
                &&& m.state.paragraphs[j].research.search_history.is_prefix_of(
                    next(m, e).0.state.paragraphs[j].research.search_history,
                )
            },
{
    assert forall|j: int| 0 <= j < m.state.paragraphs.len() implies {
        &&& #[trigger] next(m, e).0.state.paragraphs[j].title == m.state.paragraphs[j].title
        &&& next(m, e).0.state.paragraphs[j].content == m.state.paragraphs[j].content
        &&& m.state.paragraphs[j].research.search_history.is_prefix_of(
            next(m, e).0.state.paragraphs[j].research.search_history,
        )
    } by {
        let h = m.state.paragraphs[j].research.search_history;
        assert(h.is_prefix_of(h)) by {
            assert(h.subrange(0, h.len() as int) =~= h);
        }
        match m.phase {
            PhaseView::FirstResults { index, .. } | PhaseView::ReflectResults { index, .. } => {
                if let AgentEventView::SearchReply(Ok(hits)) = e {
                    let extended = h + capped_hits(hits);
                    assert(h.is_prefix_of(extended)) by {
                        assert(extended.subrange(0, h.len() as int) =~= h);
                    }
                }
            },
            _ => {},
        }
    }
}

/// A paragraph is left behind only after all its reflection rounds: when
/// the run moves from the last reflection of paragraph `j` on, that
/// paragraph records `NUM_REFLECTIONS` rounds.
pub proof fn law_paragraph_left_after_all_reflections(m: DeepSearchView, e: AgentEventView)
    requires
        phase_ok(m.phase, m.state.paragraphs.len() as int),
        m.phase matches PhaseView::ReflectSummary { round, .. } && round + 1 == NUM_REFLECTIONS,
        e matches AgentEventView::ModelReply(Ok(_)),
    ensures
        m.phase matches PhaseView::ReflectSummary { index, .. } && next(
            m,
            e,
        ).0.state.paragraphs[index].research.reflection_iteration == NUM_REFLECTIONS,
        m.phase matches PhaseView::ReflectSummary { index, .. } && (next(m, e).0.phase
            == PhaseView::FirstQuery { index: index + 1 } || next(m, e).0.phase is FormattingHtml),
{
}

/// Every request for a search query is about the paragraph the run moves
/// to: the first-query request carries that paragraph's own title and
/// description, and the reflection request its title, description and
/// current summary.
pub proof fn law_each_request_names_its_paragraph(m: DeepSearchView, e: AgentEventView)
    requires
        phase_ok(m.phase, m.state.paragraphs.len() as int),
        awaits(m.phase, e),
    ensures
        ({
            let m2 = next(m, e).0;
            let a = next(m, e).1;
            &&& (m2.phase matches PhaseView::FirstQuery { index } ==> a == AgentActionView::AskModel {
                system: FIRST_SEARCH_SYSTEM@,
                user: first_search_input(
                    m2.state.paragraphs[index].title,
                    m2.state.paragraphs[index].content,
                ),
            })
            &&& (m2.phase matches PhaseView::ReflectQuery { index, .. } ==> a
                == AgentActionView::AskModel {
                system: REFLECTION_SYSTEM@,
                user: reflection_input(
                    m2.state.paragraphs[index].title,
                    m2.state.paragraphs[index].content,
                    m2.state.paragraphs[index].research.latest_summary,
                ),
            })
        }),
{
}

/// Requests made for one paragraph: its query, search and summary, and
/// the same three for each reflection round.
pub open spec fn steps_per_paragraph() -> int {
    3 + 3 * NUM_REFLECTIONS
}

/// How far a run with `n` paragraphs has come: the requests already
/// answered since the outline, with the two formatting requests last.
pub open spec fn progress(phase: PhaseView, n: int) -> int {
    let k = steps_per_paragraph();
    match phase {
        PhaseView::FirstQuery { index } => index * k,
        PhaseView::FirstResults { index, .. } => index * k + 1,
        PhaseView::FirstSummary { index } => index * k + 2,
        PhaseView::ReflectQuery { index, round } => index * k + 3 + 3 * round,
        PhaseView::ReflectResults { index, round, .. } => index * k + 4 + 3 * round,
        PhaseView::ReflectSummary { index, round } => index * k + 5 + 3 * round,
        PhaseView::FormattingMarkdown { .. } => n * k + 1,
        _ => n * k,
    }
}

/// After the outline, every answered request moves the run strictly
/// forward, never past the Markdown formatting request, or ends it: a run
/// with `n` paragraphs ends after at most `n * steps_per_paragraph() + 2`
/// further requests.
pub proof fn law_run_moves_forward(m: DeepSearchView, e: AgentEventView)
    requires
        phase_ok(m.phase, m.state.paragraphs.len() as int),
        awaits(m.phase, e),
        !(m.phase is Outline),
    ensures
        ({
            let n = m.state.paragraphs.len() as int;
            let m2 = next(m, e).0;
            ||| m2.phase is Done
            ||| {
                &&& m2.state.paragraphs.len() == n
                &&& progress(m.phase, n) < progress(m2.phase, n) <= n * steps_per_paragraph() + 1
                &&& phase_ok(m2.phase, n)
            }
        }),
{
    let n = m.state.paragraphs.len() as int;
    assert(steps_per_paragraph() == 9);
    match m.phase {
        PhaseView::FirstQuery { index } => {
            assert(index * 9 + 1 <= n * 9) by (nonlinear_arith)
                requires
                    0 <= index < n,
            ;
        },
        PhaseView::FirstResults { index, .. } => {
            assert(index * 9 + 2 <= n * 9) by (nonlinear_arith)
                requires
                    0 <= index < n,
            ;
        },
        PhaseView::FirstSummary { index } => {
            assert(index * 9 + 3 <= n * 9) by (nonlinear_arith)
                requires
                    0 <= index < n,
            ;
        },
        PhaseView::ReflectQuery { index, round } => {
            assert(index * 9 + 7 <= n * 9) by (nonlinear_arith)
                requires
                    0 <= index < n,
            ;
        },
        PhaseView::ReflectResults { index, round, .. } => {
            assert(index * 9 + 8 <= n * 9) by (nonlinear_arith)
                requires
                    0 <= index < n,
            ;
        },
        PhaseView::ReflectSummary { index, round } => {
            assert(index * 9 + 9 <= n * 9) by (nonlinear_arith)
                requires
                    0 <= index < n,
            ;
            assert((index + 1) * 9 == index * 9 + 9);
        },
        _ => {},
    }
}

/// A report that must not be empty (see `non_empty`).
fn non_empty_report(r: Result<String, String>) -> (o: Result<String, String>)
    ensures
        res_view(o) == non_empty(res_view(r)),
{
    match r {
        Ok(text) => if text.as_str().is_empty() {
            Err("报告内容为空，请重试".to_string())
        } else {
            Ok(text)
        },
        Err(e) => Err(e),
    }
}

/// Replaces paragraph `j` of `state`, handing the old one back.
fn swap_paragraph(state: &mut State, j: usize, p: Paragraph) -> (old_p: Paragraph)
    requires
        j < old(state)@.paragraphs.len(),
    ensures
        old_p@ == old(state)@.paragraphs[j as int],
        final(state)@.report_title == old(state)@.report_title,
        final(state)@.paragraphs == old(state)@.paragraphs.update(j as int, p@),
{
    let mut p = p;
    state.paragraphs.set_and_swap(j, &mut p);
    assert(paragraphs_view(state.paragraphs@) =~= paragraphs_view(old(state).paragraphs@).update(
        j as int,
        old(state).paragraphs@[j as int]@,
    ).update(j as int, paragraphs_view(state.paragraphs@)[j as int]));
    p
}

/// An empty paragraph, with no research done, held in a slot while the
/// paragraph there is being updated.
fn placeholder() -> (p: Paragraph)
    ensures
        p@.title == Seq::<char>::empty(),
        p@.content == Seq::<char>::empty(),
        p@.research.search_history == Seq::<SearchResultView>::empty(),
        p@.research.latest_summary == Seq::<char>::empty(),
        p@.research.reflection_iteration == 0,
{
    Paragraph { title: String::new(), content: String::new(), research: Research::default() }
}

/// Records a new summary for paragraph `j`.
fn set_summary(state: &mut State, j: usize, summary: String)
    requires
        j < old(state)@.paragraphs.len(),
    ensures
        final(state)@.report_title == old(state)@.report_title,
        final(state)@.paragraphs == old(state)@.paragraphs.update(
            j as int,
            with_summary(old(state)@.paragraphs[j as int], summary@),
        ),
{
    let mut p = swap_paragraph(state, j, placeholder());
    p.research.latest_summary = summary;
    let _ = swap_paragraph(state, j, p);
}

/// Records the summary of reflection `round` for paragraph `j`.
fn set_reflection(state: &mut State, j: usize, summary: String, round: u32)
    requires
        j < old(state)@.paragraphs.len(),
        round < NUM_REFLECTIONS,
    ensures
        final(state)@.report_title == old(state)@.report_title,
        final(state)@.paragraphs == old(state)@.paragraphs.update(
            j as int,
            with_reflection(old(state)@.paragraphs[j as int], summary@, round as int),
        ),
{
    let mut p = swap_paragraph(state, j, placeholder());
    p.research.latest_summary = summary;
    p.research.reflection_iteration = round + 1;
    let _ = swap_paragraph(state, j, p);
}

/// Adds hits to the history of paragraph `j`.
fn add_hits(state: &mut State, j: usize, hits: &Vec<SearchResult>)
    requires
        j < old(state)@.paragraphs.len(),
    ensures
        final(state)@.report_title == old(state)@.report_title,
        final(state)@.paragraphs == old(state)@.paragraphs.update(
            j as int,
            with_hits(old(state)@.paragraphs[j as int], results_view(hits@)),
        ),
{
    let mut p = swap_paragraph(state, j, placeholder());
    let ghost p0 = p@;
    let mut i: usize = 0;
    while i < hits.len()
        invariant
            i <= hits@.len(),
            p@ == with_hits(p0, results_view(hits@).take(i as int)),
        decreases hits@.len() - i,
    {
        let h = hits[i].duplicate();
        let ghost before = p.research.search_history@;
        p.research.search_history.push(h);
        assert(results_view(p.research.search_history@) =~= results_view(before).push(
            hits@[i as int]@,
        ));
        assert(results_view(hits@).take(i + 1) =~= results_view(hits@).take(i as int).push(
            hits@[i as int]@,
        ));
        i = i + 1;
        assert(p@.research.search_history =~= p0.research.search_history + results_view(
            hits@,
        ).take(i as int));
    }
    assert(results_view(hits@).take(hits@.len() as int) =~= results_view(hits@));
    let _ = swap_paragraph(state, j, p);
}

} // verus!
