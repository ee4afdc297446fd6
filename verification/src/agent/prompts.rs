//! The system prompts of each research step and the JSON inputs that go
//! with them.

use vstd::prelude::*;
use crate::agent::state::{display_title, results_view, SearchResult, SearchResultView};
use crate::json::{fields_view, json_object_string, json_object_text, JsonField, JsonFieldView};
use crate::text::{append_chars, chars_of, first_chars, first_chars_exec, string_of};

verus! {

/// System prompt for planning the report outline.
pub const REPORT_STRUCTURE_SYSTEM: &'static str = r#"你是一位深度研究助手。给定一个查询，你需要规划一个报告的结构和其中包含的段落。最多五个段落。
确保段落的排序合理有序。

请输出XML格式：
<paragraphs>
  <paragraph>
    <title>段落标题</title>
    <content>段落的预期内容描述</content>
  </paragraph>
</paragraphs>

只返回XML，不要有解释或额外文本。"#;

/// System prompt for the first search query of a paragraph.
pub const FIRST_SEARCH_SYSTEM: &'static str = r#"你是一位深度研究助手。你将获得报告中的一个段落，请思考这个主题并提供最佳的网络搜索查询。

请输出XML格式：
<search_query>搜索关键词</search_query>
<reasoning>选择这个搜索词的原因</reasoning>

只返回XML，不要有解释或额外文本。"#;

/// System prompt for the first summary of a paragraph.
pub const FIRST_SUMMARY_SYSTEM: &'static str = r#"你是一位深度研究助手。使用搜索结果撰写与段落主题一致的内容，并适当地组织结构以便纳入报告中。

请输出XML格式：
<paragraph_latest_state>段落的完整内容</paragraph_latest_state>

只返回XML，不要有解释或额外文本。"#;

/// System prompt for reflecting on a paragraph.
pub const REFLECTION_SYSTEM: &'static str = r#"你是一位深度研究助手。反思段落文本的当前状态，思考是否遗漏了主题的某些关键方面，并提供最佳的网络搜索查询来丰富最新状态。

请输出XML格式：
<search_query>搜索关键词</search_query>
<reasoning>选择这个搜索词的原因</reasoning>

只返回XML，不要有解释或额外文本。"#;

/// System prompt for enriching a paragraph after reflection.
pub const REFLECTION_SUMMARY_SYSTEM: &'static str = r#"你是一位深度研究助手。根据搜索结果和预期内容丰富段落的当前最新状态。
不要删除最新状态中的关键信息，尽量丰富它，只添加缺失的信息。

请输出XML格式：
<updated_paragraph_latest_state>更新后的段落内容</updated_paragraph_latest_state>

只返回XML，不要有解释或额外文本。"#;

/// System prompt for writing the final HTML report.
pub const FORMAT_HTML_SYSTEM: &'static str = r#"你是一位专业科技新闻编辑。将研究数据格式化为一份科技新闻周报HTML。
参考下方提供的参考HTML格式（如果有的话），生成完全同样风格的HTML。

参考HTML格式要点：
- 顶部报头：kicker + 标题 + 日期 + 元信息（新闻条数、分类数等）
- 分类导航（cat-nav）：每个类别一个锚点链接
- 统计条（stats-bar）：几个数据卡片
- 每个分类一个section，带emoji图标
- 每条新闻是一个news-card，包含编号圆圈、标题、元信息、正文、"值得关注"高亮框、引用角标
- 底部参考来源列表（有序列表，含标题和URL）
- 使用CSS变量定义颜色，内联CSS
- 浅色主题，适合阅读

使用段落标题来创建分类，从研究内容提取关键新闻条目。
如果没有结论段落，请在末尾添加一个结论章节。

只返回完整HTML代码，不要有任何解释、思考过程或额外文本。直接用 ```html 包裹。"#;

/// Header put before the excerpt of the reference report.
pub const REFERENCE_HEADER: &'static str = "\n\n===== 参考HTML格式（前3000字符）=====\n";

/// Number of characters of the reference report quoted in the prompt.
pub const REFERENCE_EXCERPT_CHARS: usize = 3000;

/// System prompt for writing the final Markdown report.
pub const FORMAT_MD_SYSTEM: &'static str = r#"你是一位深度研究助手。将研究数据格式化为美观的Markdown格式。
如果没有结论段落，请根据其他段落的内容在报告末尾添加一个结论。
使用段落标题来创建报告的标题。

只返回Markdown内容，不要有解释或额外文本。用 ```markdown 包裹内容。"#;

/// How one search hit is written into a prompt.
pub open spec fn result_text(r: SearchResultView) -> Seq<char> {
    "标题: "@ + display_title(r) + "\n链接: "@ + r.url + "\n内容: "@ + r.content
}

/// How a list of search hits is written into a prompt.
pub open spec fn results_text(rs: Seq<SearchResultView>) -> Seq<Seq<char>> {
    rs.map_values(|r: SearchResultView| result_text(r))
}

/// The outline prompt: the system prompt and no user input.
pub fn prompt_report_structure() -> (r: (String, String))
    ensures
        r.0@ == REPORT_STRUCTURE_SYSTEM@,
        r.1@ == Seq::<char>::empty(),
{
    (REPORT_STRUCTURE_SYSTEM.to_string(), String::new())
}

/// The user input of the first-search step.
pub open spec fn first_search_input(title: Seq<char>, content: Seq<char>) -> Seq<char> {
    json_object_text(seq![JsonFieldView::Text("title"@, title), JsonFieldView::Text("content"@, content)])
}

/// The first-search prompt for a paragraph.
pub fn prompt_first_search(paragraph_title: &str, paragraph_content: &str) -> (r: (String, String))
    ensures
        r.0@ == FIRST_SEARCH_SYSTEM@,
        r.1@ == first_search_input(paragraph_title@, paragraph_content@),
{
    let fields = vec![
        JsonField::Text("title".to_string(), paragraph_title.to_string()),
        JsonField::Text("content".to_string(), paragraph_content.to_string()),
    ];
    assert(fields_view(fields@) =~= seq![
        JsonFieldView::Text("title"@, paragraph_title@),
        JsonFieldView::Text("content"@, paragraph_content@),
    ]);
    (FIRST_SEARCH_SYSTEM.to_string(), json_object_string(&fields))
}

/// Writes each search hit as prompt text.
pub fn results_lines(search_results: &[SearchResult]) -> (lines: Vec<String>)
    ensures
        lines@.map_values(|s: String| s@) == results_text(results_view(search_results@)),
{
    let mut lines: Vec<String> = Vec::new();
    let mut i: usize = 0;
    while i < search_results.len()
        invariant
            i <= search_results@.len(),
            lines@.len() == i,
            lines@.map_values(|s: String| s@) == results_text(results_view(search_results@)).take(
                i as int,
            ),
        decreases search_results@.len() - i,
    {
        let r = &search_results[i];
        let mut line = chars_of("标题: ");
        append_chars(&mut line, &chars_of(r.title_or_fallback()));
        append_chars(&mut line, &chars_of("\n链接: "));
        append_chars(&mut line, &chars_of(r.url.as_str()));
        append_chars(&mut line, &chars_of("\n内容: "));
        append_chars(&mut line, &chars_of(r.content.as_str()));
        assert(line@ == result_text(search_results@[i as int]@));
        lines.push(string_of(&line));
        i = i + 1;
        assert(lines@.map_values(|s: String| s@) =~= results_text(results_view(search_results@)).take(
            i as int,
        ));
    }
    assert(results_text(results_view(search_results@)).take(i as int) =~= results_text(
        results_view(search_results@),
    ));
    lines
}

/// The user input of the first-summary step.
pub open spec fn first_summary_input(
    title: Seq<char>,
    content: Seq<char>,
    search_query: Seq<char>,
    results: Seq<SearchResultView>,
) -> Seq<char> {
    json_object_text(
        seq![
            JsonFieldView::Text("title"@, title),
            JsonFieldView::Text("content"@, content),
            JsonFieldView::Text("search_query"@, search_query),
            JsonFieldView::List("search_results"@, results_text(results)),
        ],
    )
}

/// The first-summary prompt for a paragraph and its search hits.
pub fn prompt_first_summary(
    title: &str,
    content: &str,
    search_query: &str,
    search_results: &[SearchResult],
) -> (r: (String, String))
    ensures
        r.0@ == FIRST_SUMMARY_SYSTEM@,
        r.1@ == first_summary_input(title@, content@, search_query@, results_view(search_results@)),
{
    let lines = results_lines(search_results);
    let ghost lines_view = lines@.map_values(|s: String| s@);
    let fields = vec![
        JsonField::Text("title".to_string(), title.to_string()),
        JsonField::Text("content".to_string(), content.to_string()),
        JsonField::Text("search_query".to_string(), search_query.to_string()),
        JsonField::List("search_results".to_string(), lines),
    ];
    assert(fields_view(fields@) =~= seq![
        JsonFieldView::Text("title"@, title@),
        JsonFieldView::Text("content"@, content@),
        JsonFieldView::Text("search_query"@, search_query@),
        JsonFieldView::List("search_results"@, results_text(results_view(search_results@))),
    ]);
    (FIRST_SUMMARY_SYSTEM.to_string(), json_object_string(&fields))
}

/// The user input of the reflection step.
pub open spec fn reflection_input(
    title: Seq<char>,
    content: Seq<char>,
    latest_summary: Seq<char>,
) -> Seq<char> {
    json_object_text(
        seq![
            JsonFieldView::Text("title"@, title),
            JsonFieldView::Text("content"@, content),
            JsonFieldView::Text("paragraph_latest_state"@, latest_summary),
        ],
    )
}

/// The reflection prompt for a paragraph and its current summary.
pub fn prompt_reflection(title: &str, content: &str, latest_summary: &str) -> (r: (String, String))
    ensures
        r.0@ == REFLECTION_SYSTEM@,
        r.1@ == reflection_input(title@, content@, latest_summary@),
{
    let fields = vec![
        JsonField::Text("title".to_string(), title.to_string()),
        JsonField::Text("content".to_string(), content.to_string()),
        JsonField::Text("paragraph_latest_state".to_string(), latest_summary.to_string()),
    ];
    assert(fields_view(fields@) =~= seq![
        JsonFieldView::Text("title"@, title@),
        JsonFieldView::Text("content"@, content@),
        JsonFieldView::Text("paragraph_latest_state"@, latest_summary@),
    ]);
    (REFLECTION_SYSTEM.to_string(), json_object_string(&fields))
}

/// The user input of the reflection-summary step.
pub open spec fn reflection_summary_input(
    title: Seq<char>,
    content: Seq<char>,
    search_query: Seq<char>,
    results: Seq<SearchResultView>,
    latest_summary: Seq<char>,
) -> Seq<char> {
    json_object_text(
        seq![
            JsonFieldView::Text("title"@, title),
            JsonFieldView::Text("content"@, content),
            JsonFieldView::Text("search_query"@, search_query),
            JsonFieldView::List("search_results"@, results_text(results)),
            JsonFieldView::Text("paragraph_latest_state"@, latest_summary),
        ],
    )
}

/// The reflection-summary prompt for a paragraph, its new search hits and
/// its current summary.
pub fn prompt_reflection_summary(
    title: &str,
    content: &str,
    search_query: &str,
    search_results: &[SearchResult],
    latest_summary: &str,
) -> (r: (String, String))
    ensures
        r.0@ == REFLECTION_SUMMARY_SYSTEM@,
        r.1@ == reflection_summary_input(
            title@,
            content@,
            search_query@,
            results_view(search_results@),
            latest_summary@,
        ),
{
    let lines = results_lines(search_results);
    let fields = vec![
        JsonField::Text("title".to_string(), title.to_string()),
        JsonField::Text("content".to_string(), content.to_string()),
        JsonField::Text("search_query".to_string(), search_query.to_string()),
        JsonField::List("search_results".to_string(), lines),
        JsonField::Text("paragraph_latest_state".to_string(), latest_summary.to_string()),
    ];
    assert(fields_view(fields@) =~= seq![
        JsonFieldView::Text("title"@, title@),
        JsonFieldView::Text("content"@, content@),
        JsonFieldView::Text("search_query"@, search_query@),
        JsonFieldView::List("search_results"@, results_text(results_view(search_results@))),
        JsonFieldView::Text("paragraph_latest_state"@, latest_summary@),
    ]);
    (REFLECTION_SUMMARY_SYSTEM.to_string(), json_object_string(&fields))
}

/// The HTML formatting system prompt, quoting the first 3000 characters of
/// the reference report when there is one.
pub open spec fn format_html_system(reference: Option<Seq<char>>) -> Seq<char> {
    match reference {
        Some(r) => FORMAT_HTML_SYSTEM@ + REFERENCE_HEADER@ + first_chars(
            r,
            REFERENCE_EXCERPT_CHARS as nat,
        ),
        None => FORMAT_HTML_SYSTEM@,
    }
}

/// The HTML formatting prompt.
pub fn prompt_format_html(reference: Option<&str>) -> (r: (String, String))
    ensures
        r.0@ == format_html_system(
            match reference {
                Some(s) => Some(s@),
                None => None,
            },
        ),
        r.1@ == Seq::<char>::empty(),
{
    let mut system = chars_of(FORMAT_HTML_SYSTEM);
    if let Some(ref_html) = reference {
        let excerpt = first_chars_exec(&chars_of(ref_html), REFERENCE_EXCERPT_CHARS);
        append_chars(&mut system, &chars_of(REFERENCE_HEADER));
        append_chars(&mut system, &excerpt);
    }
    (string_of(&system), String::new())
}

/// The Markdown formatting prompt: the system prompt and no user input.
pub fn prompt_format_md() -> (r: (String, String))
    ensures
        r.0@ == FORMAT_MD_SYSTEM@,
        r.1@ == Seq::<char>::empty(),
{
    (FORMAT_MD_SYSTEM.to_string(), String::new())
}

} // verus!
