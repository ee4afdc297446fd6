use tonglan::extract::{
    clean_html_output, extract_code_block, extract_xml, extract_xml_all, extract_xml_or,
    has_html_structure, html_reply_is_cuttable, strip_thinking_tags,
};
use tonglan::search_config::{SearchConfig, SearchProvider};
use tonglan::search_tools::{
    collapse_whitespace, custom_request, custom_results, limit_bytes, page_text, ReplyEntry,
    SearchReply, SearchResult, PAGE_TEXT_LIMIT,
};

#[test]
fn test_search_result_structure() {
    let result = SearchResult {
        title: "Test".to_string(),
        url: "https://example.com".to_string(),
        content: "Test content".to_string(),
    };
    assert_eq!(result.title, "Test");
}

#[test]
fn test_extract_xml() {
    assert_eq!(extract_xml("  <title> 标题 </title> ", "title"), Some("标题".to_string()));
    assert_eq!(extract_xml("<a></a>", "a"), None);
    assert_eq!(extract_xml("<a>x", "a"), None);
    assert_eq!(extract_xml("<b>x</b><a>1</a><a>2</a>", "a"), Some("1".to_string()));
    assert_eq!(extract_xml_or("nothing", "a", "默认"), "默认");
    assert_eq!(extract_xml_or("<a> v </a>", "a", "默认"), "v");
}

#[test]
fn test_extract_xml_all() {
    assert_eq!(
        extract_xml_all("<p>1</p><p> </p><p>2</p><p>3", "p"),
        vec!["1".to_string(), "2".to_string()]
    );
    assert!(extract_xml_all("none", "p").is_empty());
}

#[test]
fn test_extract_code_block() {
    assert_eq!(
        extract_code_block("```html\n<div>x</div>\n```", "html"),
        Some("<div>x</div>".to_string())
    );
    assert_eq!(extract_code_block("``` \n```", ""), None);
    assert_eq!(extract_code_block("```html<p>a</p>```", "html"), Some("<p>a</p>".to_string()));
    assert_eq!(extract_code_block("no fence", "html"), None);
    assert_eq!(extract_code_block("```js\na\n```\n```js\nb\n```", "js"), Some("a\n```\n```js\nb".to_string()));
}

#[test]
fn test_strip_thinking_tags() {
    assert_eq!(strip_thinking_tags("<think>abc</think> hello <reasoning>x</reasoning>"), "hello");
    assert_eq!(strip_thinking_tags("<think>a</think><think>b</think>ok"), "ok");
    assert_eq!(strip_thinking_tags("<think>open only"), "<think>open only");
    assert_eq!(strip_thinking_tags("  plain  "), "plain");
}

#[test]
fn test_has_html_structure() {
    assert!(!has_html_structure("<p>short</p>"));
    assert!(has_html_structure(&format!("<p>{}</p>", "x".repeat(50))));
    assert!(!has_html_structure(&"x".repeat(100)));
}

#[test]
fn test_clean_html_output() {
    assert_eq!(clean_html_output("   ").unwrap_err(), "LLM返回内容为空");
    let doc = format!("<!DOCTYPE html><html><body>{}</body></html>", "新闻".repeat(10));
    let reply = format!("好的，这是报告：\n{}\n以上。", doc);
    assert!(html_reply_is_cuttable(&reply));
    assert_eq!(clean_html_output(&reply).unwrap(), doc);
    let fenced = format!("```html\n{}\n```", doc);
    assert_eq!(clean_html_output(&fenced).unwrap(), doc);
    assert_eq!(clean_html_output("```\nplain text\n```").unwrap(), "plain text");
    assert_eq!(
        clean_html_output("hello").unwrap_err(),
        "无法提取有效HTML内容。原始响应前200字符: hello"
    );
    let thinking = format!("<think>{}</think><div>{}</div>", "想".repeat(10), "y".repeat(60));
    assert_eq!(clean_html_output(&thinking).unwrap(), format!("<div>{}</div>", "y".repeat(60)));
}

#[test]
fn test_html_reply_not_cuttable() {
    assert!(!html_reply_is_cuttable("</html> x <html>"));
    assert!(html_reply_is_cuttable(""));
}

fn entry(
    title: Option<&str>,
    url: Option<&str>,
    link: Option<&str>,
    content: Option<&str>,
    snippet: Option<&str>,
    description: Option<&str>,
) -> ReplyEntry {
    let s = |o: Option<&str>| o.map(|x| x.to_string());
    ReplyEntry {
        title: s(title),
        url: s(url),
        link: s(link),
        content: s(content),
        snippet: s(snippet),
        description: s(description),
    }
}

#[test]
fn test_custom_results() {
    let reply = SearchReply {
        results: None,
        data: Some(vec![
            entry(Some("A"), Some("https://a"), None, None, Some("sa"), Some("da")),
            entry(Some("B"), None, Some("https://b"), None, None, Some("db")),
            entry(None, Some("https://c"), None, Some("c"), None, None),
            entry(Some("D"), None, None, Some("d"), None, None),
            entry(Some("E"), Some("https://e"), Some("https://e2"), None, None, None),
        ]),
        items: Some(vec![entry(Some("X"), Some("https://x"), None, None, None, None)]),
    };
    let hits = custom_results(&reply);
    assert_eq!(hits.len(), 3);
    assert_eq!((hits[0].title.as_str(), hits[0].url.as_str(), hits[0].content.as_str()), ("A", "https://a", "sa"));
    assert_eq!((hits[1].title.as_str(), hits[1].url.as_str(), hits[1].content.as_str()), ("B", "https://b", "db"));
    assert_eq!((hits[2].title.as_str(), hits[2].url.as_str(), hits[2].content.as_str()), ("E", "https://e", ""));
    let none = SearchReply { results: None, data: None, items: None };
    assert!(custom_results(&none).is_empty());
}

#[test]
fn test_custom_request() {
    let mut config = SearchConfig::default();
    config.provider = SearchProvider::Custom;
    config.api_key = "k1".to_string();
    assert_eq!(custom_request(&config, "q").err().unwrap(), "自定义API地址未配置");
    config.api_endpoint = "https://s.example.com/search".to_string();
    let req = custom_request(&config, "新闻").ok().unwrap();
    assert_eq!(req.url, "https://s.example.com/search");
    assert_eq!(req.authorization, "Bearer k1");
    assert_eq!(
        req.params,
        vec![("q".to_string(), "新闻".to_string()), ("num".to_string(), "10".to_string())]
    );
}

#[test]
fn test_collapse_whitespace() {
    assert_eq!(collapse_whitespace("  a \n\t b  c "), "a b c");
    assert_eq!(collapse_whitespace(" \u{3000} "), "");
    assert_eq!(collapse_whitespace("one"), "one");
}

#[test]
fn test_limit_bytes() {
    assert_eq!(limit_bytes("abcdef", 4), Some("abcd".to_string()));
    assert_eq!(limit_bytes("abc", 4), Some("abc".to_string()));
    assert_eq!(limit_bytes("中文字", 6), Some("中文".to_string()));
    assert_eq!(limit_bytes("中文字", 4), None);
}

#[test]
fn test_page_text() {
    let html = "<html><head><title>T</title></head>\n<body><p>Hello</p>  <p>world</p></body></html>";
    assert_eq!(page_text(html), Some("T Hello world".to_string()));
    let long = format!("<p>{}</p>", "a".repeat(5000));
    assert_eq!(page_text(&long).unwrap().len(), PAGE_TEXT_LIMIT);
    assert_eq!(page_text("a <> b"), Some("a <> b".to_string()));
    let cut_inside = format!("{}中", "a".repeat(2999));
    assert_eq!(page_text(&cut_inside), None);
}
