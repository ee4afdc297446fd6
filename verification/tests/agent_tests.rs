use tonglan::agent::llm::{
    chat_messages, extract_llm_content, llm_call_step, retry_delay_ms, CallOutcome, CallStep,
    ContentPart, LlmError, LlmReply,
};
use tonglan::agent::machine::{
    AgentAction, AgentEvent, DeepSearch, NUM_REFLECTIONS, NUM_RESULTS_PER_SEARCH,
};
use tonglan::agent::nodes::{
    markdown_from_reply, outline_from_reply, report_message, search_plan_from_reply,
    summary_from_reply, tavily_results, updated_summary_from_reply,
};
use tonglan::agent::prompts::{
    prompt_first_search, prompt_first_summary, prompt_format_html, prompt_format_md,
    prompt_report_structure, results_lines, FORMAT_HTML_SYSTEM, FORMAT_MD_SYSTEM,
    REFERENCE_HEADER, REFLECTION_SYSTEM, REPORT_STRUCTURE_SYSTEM,
};
use tonglan::agent::state::{cap_results, Paragraph, Research, SearchResult, State};
use tonglan::agent::{
    check_generation_setup, completion_message, file_name_on, output_format,
    pick_reference_report, report_file_names, research_topic_on, DateStamp, ReportCandidate,
};
use tonglan::search_config::{SearchConfig, SearchProvider};
use tonglan::search_tools::{ReplyEntry, SearchReply};

fn hit(title: &str, url: &str, content: &str) -> SearchResult {
    SearchResult { title: title.to_string(), url: url.to_string(), content: content.to_string() }
}

fn stamp() -> DateStamp {
    DateStamp {
        yyyy: "2026".to_string(),
        yy: "26".to_string(),
        mm: "06".to_string(),
        dd: "23".to_string(),
    }
}

#[test]
fn test_title_or_fallback() {
    assert_eq!(hit("", "u", "c").title_or_fallback(), "(无标题)");
    assert_eq!(hit("标题", "u", "c").title_or_fallback(), "标题");
}

#[test]
fn test_state_new_and_research_default() {
    let s = State::new("周报".to_string());
    assert_eq!(s.report_title, "周报");
    assert!(s.paragraphs.is_empty());
    let r = Research::default();
    assert!(r.search_history.is_empty());
    assert_eq!(r.latest_summary, "");
    assert_eq!(r.reflection_iteration, 0);
}

#[test]
fn test_cap_results() {
    let mut results = vec![
        hit("a", "u", &"a".repeat(20001)),
        hit("b", "u", &"中".repeat(7000)),
        hit("c", "u", "short"),
    ];
    cap_results(&mut results);
    assert_eq!(results.len(), 3);
    assert_eq!(results[0].content.len(), 20000);
    // The character starting at byte 19998 runs past the limit and is kept.
    assert_eq!(results[1].content.len(), 20001);
    assert_eq!(results[1].content.chars().count(), 6667);
    assert_eq!(results[2].content, "short");
    assert_eq!(results[1].title, "b");
}

#[test]
fn test_outline_from_reply() {
    let reply = "<paragraphs><paragraph><title>一</title><content>甲</content></paragraph>\
                 <paragraph><title>二</title></paragraph></paragraphs>";
    let s = outline_from_reply("科技周报", reply);
    assert_eq!(s.report_title, "科技周报");
    assert_eq!(s.paragraphs.len(), 2);
    assert_eq!(s.paragraphs[0].title, "一");
    assert_eq!(s.paragraphs[0].content, "甲");
    assert_eq!(s.paragraphs[1].title, "二");
    assert_eq!(s.paragraphs[1].content, "");
    assert!(s.paragraphs[1].research.search_history.is_empty());
}

#[test]
fn test_outline_placeholder_titles_and_cap() {
    let reply = "<content>1</content><content>2</content><content>3</content>\
                 <content>4</content><content>5</content><content>6</content>";
    let s = outline_from_reply("q", reply);
    assert_eq!(s.paragraphs.len(), 5);
    assert_eq!(s.paragraphs[0].title, "段落1");
    assert_eq!(s.paragraphs[4].title, "段落5");
    assert_eq!(s.paragraphs[4].content, "5");
}

#[test]
fn test_outline_without_tags() {
    let s = outline_from_reply("一个非常非常非常非常非常非常长的查询主题文本用于测试截断", "  纯文本回答  ");
    assert_eq!(s.paragraphs.len(), 1);
    assert_eq!(s.paragraphs[0].title, "一个非常非常非常非常非常非常长的查询主题深度分析");
    assert_eq!(s.paragraphs[0].content, "纯文本回答");
    let empty = outline_from_reply("q", "   ");
    assert!(empty.paragraphs.is_empty());
}

#[test]
fn test_search_plan_and_summaries() {
    let (q, why) = search_plan_from_reply(
        "<search_query> AI 新闻 </search_query><reasoning>最新</reasoning>",
        "标题",
    );
    assert_eq!(q, "AI 新闻");
    assert_eq!(why, "最新");
    let (q2, why2) = search_plan_from_reply("no tags", "标题");
    assert_eq!(q2, "标题");
    assert_eq!(why2, "");
    assert_eq!(summary_from_reply("<paragraph_latest_state>S</paragraph_latest_state>"), "S");
    assert_eq!(summary_from_reply("plain"), "plain");
    assert_eq!(
        updated_summary_from_reply("<updated_paragraph_latest_state>N</updated_paragraph_latest_state>", "old"),
        "N"
    );
    assert_eq!(updated_summary_from_reply("<updated_paragraph_latest_state> </updated_paragraph_latest_state>", "old"), "old");
}

#[test]
fn test_markdown_from_reply() {
    assert_eq!(markdown_from_reply("```markdown\n# T\n```"), "# T");
    assert_eq!(markdown_from_reply("x ```md\n# M\n``` y"), "# M");
    assert_eq!(markdown_from_reply("<think>hm</think>\n# Plain"), "# Plain");
}

#[test]
fn test_report_message() {
    let p = Paragraph {
        title: "T".to_string(),
        content: "c".to_string(),
        research: Research {
            search_history: Vec::new(),
            latest_summary: "S".to_string(),
            reflection_iteration: 1,
        },
    };
    let m = report_message(&[p]).unwrap();
    assert_eq!(m, "[\n  {\n    \"paragraph_latest_state\": \"S\",\n    \"title\": \"T\"\n  }\n]");
}

#[test]
fn test_prompts() {
    let (system, user) = prompt_report_structure();
    assert_eq!(system, REPORT_STRUCTURE_SYSTEM);
    assert_eq!(user, "");
    let (system, user) = prompt_first_search("标题", "内容");
    assert!(system.contains("<search_query>"));
    assert_eq!(user, "{\"content\":\"内容\",\"title\":\"标题\"}");
    let (_, user) = prompt_first_summary("T", "C", "q", &[hit("", "https://a", "x")]);
    assert_eq!(
        user,
        "{\"content\":\"C\",\"search_query\":\"q\",\"search_results\":[\"标题: (无标题)\\n链接: https://a\\n内容: x\"],\"title\":\"T\"}"
    );
    let (system, user) = prompt_format_md();
    assert_eq!(system, FORMAT_MD_SYSTEM);
    assert_eq!(user, "");
    let (system, _) = prompt_format_html(None);
    assert_eq!(system, FORMAT_HTML_SYSTEM);
    let long = "字".repeat(3005);
    let (system, _) = prompt_format_html(Some(long.as_str()));
    assert!(system.starts_with(FORMAT_HTML_SYSTEM));
    assert!(system.contains("===== 参考HTML格式（前3000字符）====="));
    assert_eq!(system.chars().count(), FORMAT_HTML_SYSTEM.chars().count() + REFERENCE_HEADER.chars().count() + 3000);
}

#[test]
fn test_results_lines() {
    let lines = results_lines(&[hit("A", "u1", "c1"), hit("", "u2", "c2")]);
    assert_eq!(lines, vec!["标题: A\n链接: u1\n内容: c1".to_string(), "标题: (无标题)\n链接: u2\n内容: c2".to_string()]);
}

fn entry(title: Option<&str>, url: Option<&str>, content: Option<&str>) -> ReplyEntry {
    ReplyEntry {
        title: title.map(|s| s.to_string()),
        url: url.map(|s| s.to_string()),
        link: None,
        content: content.map(|s| s.to_string()),
        snippet: None,
        description: None,
    }
}

#[test]
fn test_tavily_results() {
    let reply = SearchReply {
        results: Some(vec![entry(Some("T"), Some("https://t"), None), entry(None, None, Some("c"))]),
        data: None,
        items: None,
    };
    let hits = tavily_results(&reply).unwrap();
    assert_eq!(hits.len(), 2);
    assert_eq!(hits[0].title, "T");
    assert_eq!(hits[0].url, "https://t");
    assert_eq!(hits[0].content, "");
    assert_eq!(hits[1].title, "");
    assert_eq!(hits[1].content, "c");
    let bad = SearchReply { results: None, data: None, items: None };
    assert_eq!(tavily_results(&bad).err().unwrap(), "Tavily返回格式错误");
}

fn empty_reply() -> LlmReply {
    LlmReply {
        error: None,
        content: None,
        content_parts: None,
        reasoning_content: None,
        thinking: None,
        message_text: None,
        choice_text: None,
        top_content: None,
        preview: "{}".to_string(),
    }
}

#[test]
fn test_extract_llm_content() {
    let mut r = empty_reply();
    r.content = Some("hello".to_string());
    assert_eq!(extract_llm_content(&r).unwrap(), "hello");

    let mut r = empty_reply();
    r.content = Some(String::new());
    r.content_parts = Some(vec![
        ContentPart { text: Some("a".to_string()), as_text: None },
        ContentPart { text: None, as_text: None },
        ContentPart { text: None, as_text: Some("b".to_string()) },
    ]);
    assert_eq!(extract_llm_content(&r).unwrap(), "a\nb");

    let mut r = empty_reply();
    r.reasoning_content = Some("think".to_string());
    r.top_content = Some("top".to_string());
    assert_eq!(extract_llm_content(&r).unwrap(), "think");

    let mut r = empty_reply();
    r.top_content = Some("top".to_string());
    assert_eq!(extract_llm_content(&r).unwrap(), "top");

    let mut r = empty_reply();
    r.error = Some(LlmError { message: Some("bad key".to_string()), code: None, kind: Some("auth".to_string()) });
    r.content = Some("ignored".to_string());
    assert_eq!(extract_llm_content(&r).unwrap_err(), "LLM API 返回错误 [auth]: bad key");

    let mut r = empty_reply();
    r.error = Some(LlmError { message: None, code: None, kind: None });
    assert_eq!(extract_llm_content(&r).unwrap_err(), "LLM API 返回错误 [unknown]: 未知错误");

    let r = empty_reply();
    assert_eq!(extract_llm_content(&r).unwrap_err(), "LLM返回内容为空。响应结构预览：\n{}");
}

#[test]
fn test_chat_messages() {
    let m = chat_messages("2026年06月23日", "SYS", "USER");
    assert_eq!(m.len(), 2);
    assert_eq!(m[0].role, "system");
    assert_eq!(m[0].content, "当前日期：2026年06月23日。\n\nSYS");
    assert_eq!(m[1].role, "user");
    assert_eq!(m[1].content, "USER");
    assert_eq!(chat_messages("d", "S", "").len(), 1);
}

#[test]
fn test_retry_delay_and_steps() {
    assert_eq!(retry_delay_ms(0, 1234), 1000 + 34);
    assert_eq!(retry_delay_ms(2, 199), 4000 + 199);
    match llm_call_step(0, CallOutcome::Reply(Ok("x".to_string()))) {
        CallStep::Finish(Ok(s)) => assert_eq!(s, "x"),
        _ => panic!("a reply is returned"),
    }
    match llm_call_step(0, CallOutcome::HttpFailure { status: 401, message: "no".to_string() }) {
        CallStep::Finish(Err(e)) => assert_eq!(e, "no"),
        _ => panic!("a client error is returned"),
    }
    match llm_call_step(1, CallOutcome::HttpFailure { status: 503, message: "busy".to_string() }) {
        CallStep::Retry { delay_ms } => assert!((2000..2200).contains(&delay_ms)),
        _ => panic!("a server error is retried"),
    }
    match llm_call_step(3, CallOutcome::NetworkFailure { message: "down".to_string() }) {
        CallStep::Finish(Err(e)) => assert_eq!(e, "down"),
        _ => panic!("the last failure is returned"),
    }
    match llm_call_step(2, CallOutcome::NetworkFailure { message: "down".to_string() }) {
        CallStep::Retry { delay_ms } => assert!((4000..4200).contains(&delay_ms)),
        _ => panic!("a network failure is retried"),
    }
}

fn ask(action: &AgentAction) -> (String, String) {
    match action {
        AgentAction::AskModel { system, user } => (system.clone(), user.clone()),
        _ => panic!("expected a model request"),
    }
}

#[test]
fn test_deep_search_run() {
    assert_eq!(NUM_REFLECTIONS, 2);
    let (m, action) = DeepSearch::start("主题".to_string(), None);
    assert_eq!(ask(&action), (REPORT_STRUCTURE_SYSTEM.to_string(), "主题".to_string()));
    let (m, action) = m.step(AgentEvent::ModelReply(Ok("<title>A</title><content>a</content>".to_string())));
    assert_eq!(ask(&action).1, "{\"content\":\"a\",\"title\":\"A\"}");
    let (m, action) = m.step(AgentEvent::ModelReply(Ok("<search_query>q1</search_query>".to_string())));
    match &action {
        AgentAction::Search { query, max_results } => {
            assert_eq!(query, "q1");
            assert_eq!(*max_results, NUM_RESULTS_PER_SEARCH);
        },
        _ => panic!("expected a search"),
    }
    assert!(m.awaits_search());
    let (m, action) = m.step(AgentEvent::SearchReply(Ok(vec![hit("H", "https://h", "body")])));
    assert!(ask(&action).1.contains("q1"));
    let (m, _) = m.step(AgentEvent::ModelReply(Ok("<paragraph_latest_state>S1</paragraph_latest_state>".to_string())));
    // Two reflection rounds: each asks for a query, searches and updates the summary.
    let mut m = m;
    for (round, query, summary) in [(1u32, "q2", "S2"), (2u32, "q3", "S3")] {
        let (m1, action) = m.step(AgentEvent::ModelReply(Ok(format!("<search_query>{}</search_query>", query))));
        match &action {
            AgentAction::Search { query: q, .. } => assert_eq!(q, query),
            _ => panic!("expected a search"),
        }
        let (m2, _) = m1.step(AgentEvent::SearchReply(Ok(vec![hit("R", "https://r", "more")])));
        let (m3, action) = m2.step(AgentEvent::ModelReply(Ok(format!(
            "<updated_paragraph_latest_state>{}</updated_paragraph_latest_state>",
            summary
        ))));
        assert_eq!(m3.state().paragraphs[0].research.reflection_iteration, round);
        if round < 2 {
            assert_eq!(ask(&action).0, REFLECTION_SYSTEM);
        }
        m = m3;
    }
    let p = &m.state().paragraphs[0];
    assert_eq!(p.research.latest_summary, "S3");
    assert_eq!(p.research.search_history.len(), 3);
    assert!(m.awaits_html());
    let html = "<!DOCTYPE html><html><body><h1>科技周报</h1><p>内容内容内容</p></body></html>";
    let reply = format!("思考中……\n```html\n{}\n```", html);
    let (m, action) = m.step(AgentEvent::ModelReply(Ok(reply)));
    let (system, user) = ask(&action);
    assert_eq!(system, FORMAT_MD_SYSTEM);
    assert!(user.contains("S3"));
    assert!(!m.is_done());
    let (m, action) = m.step(AgentEvent::ModelReply(Ok("```markdown\n# 周报\n```".to_string())));
    assert!(m.is_done());
    match action {
        AgentAction::Finish(Ok((h, md))) => {
            assert_eq!(h, html);
            assert_eq!(md, "# 周报");
        },
        _ => panic!("expected both reports"),
    }
}

#[test]
fn test_deep_search_failure_ends_run() {
    let (m, _) = DeepSearch::start("t".to_string(), None);
    let (m, action) = m.step(AgentEvent::ModelReply(Err("LLM调用失败: x".to_string())));
    assert!(m.is_done());
    match action {
        AgentAction::Finish(Err(e)) => assert_eq!(e, "LLM调用失败: x"),
        _ => panic!("expected the error"),
    }
}

#[test]
fn test_deep_search_empty_outline_formats_at_once() {
    let (m, _) = DeepSearch::start("t".to_string(), None);
    let (m, action) = m.step(AgentEvent::ModelReply(Ok("   ".to_string())));
    let (system, user) = ask(&action);
    assert_eq!(system, FORMAT_HTML_SYSTEM);
    assert_eq!(user, "[]");
    let (_, action) = m.step(AgentEvent::ModelReply(Ok("  ".to_string())));
    match action {
        AgentAction::Finish(Err(e)) => assert_eq!(e, "LLM返回内容为空"),
        _ => panic!("an empty newspaper is an error"),
    }
}

#[test]
fn test_deep_search_empty_markdown_is_error() {
    let (m, _) = DeepSearch::start("t".to_string(), Some("<html>ref</html>".to_string()));
    let (m, action) = m.step(AgentEvent::ModelReply(Ok("   ".to_string())));
    assert!(ask(&action).0.contains("<html>ref</html>"));
    let (m, _) = m.step(AgentEvent::ModelReply(Ok("```\n<p>newspaper</p>\n```".to_string())));
    let (_, action) = m.step(AgentEvent::ModelReply(Ok("<think>only thoughts</think>".to_string())));
    match action {
        AgentAction::Finish(Err(e)) => assert_eq!(e, "报告内容为空，请重试"),
        _ => panic!("an empty report is an error"),
    }
}

#[test]
fn test_research_topic_and_file_name() {
    let d = stamp();
    assert_eq!(
        research_topic_on("{name}<周期>报 {YYYY}-{MM}-{DD} <报告名称><工作目录><文件名格式>", "通览", &d),
        "通览周报 2026-06-23 通览"
    );
    assert_eq!(file_name_on("通览", "{name}_{YYYY}{MM}{DD}.html", &d), "通览_20260623.html");
    assert_eq!(file_name_on("x", "r_{YY}{MM}{DD}.md", &d), "r_260623.md");
    assert_eq!(file_name_on("x", "plain.html", &d), "plain.html");
}

#[test]
fn test_pick_reference_report() {
    let c = |name: &str, is_file: bool, modified: Option<i128>| ReportCandidate {
        name: name.to_string(),
        is_file,
        modified,
    };
    let cs = vec![
        c("a_20260101.html", true, Some(10)),
        c("a_20260201.html", true, Some(30)),
        c("notes.html", true, Some(50)),
        c("a_20260623.html", true, Some(60)),
        c("a_20260301.html", false, Some(70)),
        c("a_20260401.html", true, Some(30)),
        c("a_20260501.html", true, None),
        c("a_20260601.md", true, Some(80)),
    ];
    let html = "{name}_{YYYY}{MM}{DD}.html";
    assert_eq!(pick_reference_report(&cs, "a_20260623.html", html, "a"), Some(1));
    // A Markdown pattern looks for the HTML newspapers of the same name.
    assert_eq!(pick_reference_report(&cs, "a_20260623.html", "{name}_{YYYY}{MM}{DD}.md", "a"), Some(1));
    let few = vec![c("notes.html", true, Some(50)), c("a_20260623.html", true, Some(60))];
    assert_eq!(pick_reference_report(&few, "a_20260623.html", html, "a"), None);
    assert_eq!(pick_reference_report(&cs, "a_20260623.html", "a_{foo}.html", "a"), None);
}

#[test]
fn test_check_generation_setup() {
    let mut search = SearchConfig::default();
    assert_eq!(check_generation_setup("", "k", "m", "/w", &search).unwrap_err(), "请先配置AI API端点");
    assert_eq!(check_generation_setup("e", "", "m", "/w", &search).unwrap_err(), "请先配置AI API密钥");
    assert_eq!(check_generation_setup("e", "k", "", "/w", &search).unwrap_err(), "请先配置AI模型名称");
    assert_eq!(check_generation_setup("e", "k", "m", "", &search).unwrap_err(), "请先配置工作目录");
    assert_eq!(check_generation_setup("e", "k", "m", "/w", &search).unwrap_err(), "请先配置搜索API密钥");
    search.provider = SearchProvider::Custom;
    assert!(check_generation_setup("e", "k", "m", "/w", &search).is_ok());
}

#[test]
fn test_output_format_and_completion() {
    assert_eq!(output_format("report_{YYYY}.md"), "md");
    assert_eq!(output_format("report_{YYYY}.MD"), "md");
    assert_eq!(output_format("report_{YYYY}.html"), "html");
    assert_eq!(output_format("report"), "html");
    assert_eq!(
        completion_message("/w/a.html", 120, "/w/a.md", 5),
        "✅ 深度研究完成！\n📄 HTML: /w/a.html (共 120 字符)\n📄 Markdown: /w/a.md (共 5 字符)"
    );
}

#[test]
fn test_report_file_names() {
    let (html, md) = report_file_names("通览", "{name}_{YYYY}{MM}{DD}.html");
    assert!(html.starts_with("通览_") && html.ends_with(".html"));
    assert_eq!(md, format!("{}.md", &html[..html.len() - 5]));
    assert_eq!(html.chars().count(), "通览_20260623.html".chars().count());
    let (html, md) = report_file_names("x", "r_{YY}{MM}{DD}.MD");
    assert_eq!(md.len(), "r_260623.MD".len());
    assert!(md.ends_with(".MD"));
    assert_eq!(html, format!("{}.html", &md[..md.len() - 3]));
    let (html, md) = report_file_names("x", "plain");
    assert_eq!((html.as_str(), md.as_str()), ("plain", "plain.md"));
}
