//! The deep-research agent: its state, prompts, reply handling and the
//! decisions that drive a research run.

pub mod state;
pub mod prompts;
pub mod nodes;
pub mod llm;
pub mod machine;

use vstd::prelude::*;
use crate::pattern::{regex_compile_error, regex_matches};
use crate::reports::{build_regex, digits_value, is_ascii_digit, is_numeral, regex_source};
use crate::search_config::{SearchConfig, SearchProvider};
use crate::text::{
    append_chars, chars_of, decimal, decimal_exec, find_char, occurs_at, replace_all, replace_exec,
    same_chars, string_of, subvec,
};

verus! {

// ---------------------------------------------------------------------
// Dates in templates and file names
// ---------------------------------------------------------------------

/// Today's date, written the ways templates ask for it.
pub struct DateStamp {
    /// The year, four digits or more (`%Y`).
    pub yyyy: String,
    /// The year within its century, two digits (`%y`).
    pub yy: String,
    /// The month, two digits (`%m`).
    pub mm: String,
    /// The day of the month, two digits (`%d`).
    pub dd: String,
}

/// `s` is two ASCII digits whose value lies in `lo..=hi`.
pub open spec fn two_digits_in(s: Seq<char>, lo: nat, hi: nat) -> bool {
    &&& s.len() == 2
    &&& is_ascii_digit(s[0])
    &&& is_ascii_digit(s[1])
    &&& lo <= digits_value(s) <= hi
}

/// What chrono writes for `%Y` and `%y` of one date: the year as four
/// digits when it lies in 0 to 9999, and otherwise a sign followed by at
/// least four digits; the year modulo 100 as two digits, which are the last
/// two characters of the year when the year is not negative.
pub open spec fn year_fields_ok(yyyy: Seq<char>, yy: Seq<char>) -> bool {
    &&& two_digits_in(yy, 0, 99)
    &&& (yyyy.len() == 4 && is_numeral(yyyy)) || (yyyy.len() >= 5 && (yyyy[0] == '+' || yyyy[0]
        == '-') && is_numeral(yyyy.skip(1)))
    &&& yyyy[0] != '-' ==> yy == yyyy.skip(yyyy.len() - 2)
}

/// The fields of a date as chrono writes them: the year fields as
/// `year_fields_ok` says, the month as two digits from 01 to 12, and the
/// day as two digits from 01 to 31.
pub open spec fn date_stamp_ok(d: DateStamp) -> bool {
    &&& year_fields_ok(d.yyyy@, d.yy@)
    &&& two_digits_in(d.mm@, 1, 12)
    &&& two_digits_in(d.dd@, 1, 31)
}

/// Today's date in the local time zone (chrono `Local::now()`, formatted
/// with `%Y`, `%y`, `%m` and `%d`). Trusted: which date it is depends on
/// the clock and the time zone, so only what chrono's formatting gives for
/// every date is stated (see `date_stamp_ok`).
#[verifier::external_body]
pub(crate) fn today_stamp() -> (d: DateStamp)
    ensures
        date_stamp_ok(d),
{
    let today = chrono::Local::now();
    DateStamp {
        yyyy: today.format("%Y").to_string(),
        yy: today.format("%y").to_string(),
        mm: today.format("%m").to_string(),
        dd: today.format("%d").to_string(),
    }
}

/// `s` with `{YYYY}`, `{YY}`, `{MM}` and `{DD}` replaced, in that order, by
/// the parts of the date.
pub open spec fn fill_date(s: Seq<char>, d: DateStamp) -> Seq<char> {
    let s1 = replace_all(s, "{YYYY}"@, d.yyyy@);
    let s2 = replace_all(s1, "{YY}"@, d.yy@);
    let s3 = replace_all(s2, "{MM}"@, d.mm@);
    replace_all(s3, "{DD}"@, d.dd@)
}

/// The research topic built from a prompt template: the date filled in,
/// `{name}` and `<报告名称>` replaced by the app name, `<周期>` by `周`, and
/// `<工作目录>` and `<文件名格式>` removed.
pub open spec fn research_topic(template: Seq<char>, app_name: Seq<char>, d: DateStamp) -> Seq<char> {
    let s1 = replace_all(fill_date(template, d), "{name}"@, app_name);
    let s2 = replace_all(s1, "<周期>"@, "周"@);
    let s3 = replace_all(s2, "<报告名称>"@, app_name);
    let s4 = replace_all(s3, "<工作目录>"@, seq![]);
    replace_all(s4, "<文件名格式>"@, seq![])
}

/// The file name built from a file name pattern: the date filled in and
/// `{name}` replaced by the app name.
pub open spec fn file_name_for(app_name: Seq<char>, pattern: Seq<char>, d: DateStamp) -> Seq<char> {
    replace_all(fill_date(pattern, d), "{name}"@, app_name)
}

/// Replaces every `pat` in `s` by `to`.
fn replace_text(s: &Vec<char>, pat: &str, to: &str) -> (r: Vec<char>)
    requires
        pat@.len() > 0,
    ensures
        r@ == replace_all(s@, pat@, to@),
{
    replace_exec(s, &chars_of(pat), &chars_of(to))
}

fn fill_date_exec(s: &Vec<char>, d: &DateStamp) -> (r: Vec<char>)
    ensures
        r@ == fill_date(s@, *d),
{
    proof {
        reveal_strlit("{YYYY}");
        reveal_strlit("{YY}");
        reveal_strlit("{MM}");
        reveal_strlit("{DD}");
    }
    let s1 = replace_text(s, "{YYYY}", d.yyyy.as_str());
    let s2 = replace_text(&s1, "{YY}", d.yy.as_str());
    let s3 = replace_text(&s2, "{MM}", d.mm.as_str());
    replace_text(&s3, "{DD}", d.dd.as_str())
}

/// The research topic for `template` on the date `d` (see `research_topic`).
pub fn research_topic_on(template: &str, app_name: &str, d: &DateStamp) -> (r: String)
    ensures
        r@ == research_topic(template@, app_name@, *d),
{
    proof {
        reveal_strlit("{name}");
        reveal_strlit("<周期>");
        reveal_strlit("<报告名称>");
        reveal_strlit("<工作目录>");
        reveal_strlit("<文件名格式>");
        reveal_strlit("");
        assert(""@ =~= Seq::<char>::empty());
    }
    let s0 = fill_date_exec(&chars_of(template), d);
    let s1 = replace_text(&s0, "{name}", app_name);
    let s2 = replace_text(&s1, "<周期>", "周");
    let s3 = replace_text(&s2, "<报告名称>", app_name);
    let s4 = replace_text(&s3, "<工作目录>", "");
    let s5 = replace_text(&s4, "<文件名格式>", "");
    string_of(&s5)
}

/// The research topic for `template`, dated today.
pub fn build_research_topic(template: &str, app_name: &str) -> (r: String)
    ensures
        exists|d: DateStamp|
            #![trigger research_topic(template@, app_name@, d)]
            date_stamp_ok(d) && r@ == research_topic(
                template@,
                app_name@,
                d,
            ),
{
    let d = today_stamp();
    let r = research_topic_on(template, app_name, &d);
    assert(r@ == research_topic(template@, app_name@, d));
    r
}

/// The file name for `file_pattern` on the date `d` (see `file_name_for`).
pub fn file_name_on(app_name: &str, file_pattern: &str, d: &DateStamp) -> (r: String)
    ensures
        r@ == file_name_for(app_name@, file_pattern@, *d),
{
    proof {
        reveal_strlit("{name}");
    }
    let s0 = fill_date_exec(&chars_of(file_pattern), d);
    string_of(&replace_text(&s0, "{name}", app_name))
}

/// The file name for `file_pattern`, dated today.
pub fn resolve_filename(app_name: &str, file_pattern: &str) -> (r: String)
    ensures
        exists|d: DateStamp|
            #![trigger file_name_for(app_name@, file_pattern@, d)]
            date_stamp_ok(d) && r@ == file_name_for(
                app_name@,
                file_pattern@,
                d,
            ),
{
    let d = today_stamp();
    let r = file_name_on(app_name, file_pattern, &d);
    assert(r@ == file_name_for(app_name@, file_pattern@, d));
    r
}

/// Replacing a pattern that does not occur changes nothing.
pub proof fn lemma_replace_absent(s: Seq<char>, pat: Seq<char>, to: Seq<char>)
    requires
        forall|i: int| !occurs_at(s, pat, i),
    ensures
        replace_all(s, pat, to) == s,
    decreases s.len(),
{
    if pat.len() == 0 || s.len() < pat.len() {
    } else {
        assert(s.take(pat.len() as int) =~= s.subrange(0, pat.len() as int));
        assert(!occurs_at(s, pat, 0));
        let t = s.skip(1);
        assert forall|i: int| !occurs_at(t, pat, i) by {
            if occurs_at(t, pat, i) {
                assert(s.subrange(i + 1, i + 1 + pat.len()) =~= t.subrange(i, i + pat.len()));
                assert(occurs_at(s, pat, i + 1));
            }
        }
        lemma_replace_absent(t, pat, to);
        assert(seq![s[0]] + t =~= s);
    }
}

/// A file name pattern without placeholders is used as it is, whatever the date.
pub proof fn law_plain_pattern_is_kept(app_name: Seq<char>, pattern: Seq<char>, d: DateStamp)
    requires
        forall|i: int| !occurs_at(pattern, "{YYYY}"@, i),
        forall|i: int| !occurs_at(pattern, "{YY}"@, i),
        forall|i: int| !occurs_at(pattern, "{MM}"@, i),
        forall|i: int| !occurs_at(pattern, "{DD}"@, i),
        forall|i: int| !occurs_at(pattern, "{name}"@, i),
    ensures
        file_name_for(app_name, pattern, d) == pattern,
{
    lemma_replace_absent(pattern, "{YYYY}"@, d.yyyy@);
    lemma_replace_absent(pattern, "{YY}"@, d.yy@);
    lemma_replace_absent(pattern, "{MM}"@, d.mm@);
    lemma_replace_absent(pattern, "{DD}"@, d.dd@);
    lemma_replace_absent(pattern, "{name}"@, app_name);
}


// ---------------------------------------------------------------------
// The reference report
// ---------------------------------------------------------------------

/// A file in the working directory, as far as choosing a reference goes.
pub struct ReportCandidate {
    pub name: String,
    pub is_file: bool,
    /// When it was last modified, in nanoseconds from the Unix epoch
    /// (negative before it), when that could be read.
    pub modified: Option<i128>,
}

/// `s` ends with `.html`.
pub open spec fn ends_with_html(s: Seq<char>) -> bool {
    s.len() >= 5 && s.skip(s.len() - 5) == ".html"@
}

/// A file that can serve as reference: an HTML file whose name the
/// expression `source` of the naming format matches, other than the one
/// about to be written, whose modification time is known.
pub open spec fn eligible(c: ReportCandidate, current: Seq<char>, source: Seq<char>) -> bool {
    &&& c.is_file
    &&& ends_with_html(c.name@)
    &&& regex_matches(source, c.name@)
    &&& c.name@ != current
    &&& c.modified is Some
}

/// `k` is the newest eligible file, the first such in listing order when
/// several share the newest time.
pub open spec fn newest_eligible(
    cs: Seq<ReportCandidate>,
    current: Seq<char>,
    source: Seq<char>,
    k: int,
) -> bool {
    &&& 0 <= k < cs.len()
    &&& eligible(cs[k], current, source)
    &&& forall|i: int|
        0 <= i < cs.len() && eligible(#[trigger] cs[i], current, source) ==> cs[i].modified->0
            <= cs[k].modified->0
    &&& forall|i: int|
        0 <= i < k && eligible(#[trigger] cs[i], current, source) ==> cs[i].modified->0
            < cs[k].modified->0
}

/// The expression the names of the HTML newspapers match: that of their
/// file name pattern (see `html_pattern`).
pub open spec fn newspaper_source(file_pattern: Seq<char>, app_name: Seq<char>) -> Seq<char> {
    regex_source(html_pattern(file_pattern), app_name)
}

fn ends_with_html_exec(s: &String) -> (b: bool)
    ensures
        b == ends_with_html(s@),
{
    let v = chars_of(s.as_str());
    let suffix = chars_of(".html");
    proof {
        reveal_strlit(".html");
    }
    if v.len() < 5 {
        return false;
    }
    let vl = v.len();
    let tail = subvec(&v, vl - 5, vl);
    assert(tail@ =~= v@.skip(v@.len() - 5));
    same_chars(&tail, &suffix)
}

/// Chooses the style reference for the newspaper about to be written as
/// `current_filename`: the index of the newest HTML newspaper whose name
/// fits the naming format (the HTML form of `file_pattern`, see
/// `html_pattern`, with `app_name`), other than `current_filename`; `None`
/// when there is none, or when the format's expression does not compile.
pub fn pick_reference_report(
    candidates: &Vec<ReportCandidate>,
    current_filename: &str,
    file_pattern: &str,
    app_name: &str,
) -> (r: Option<usize>)
    ensures
        ({
            let source = newspaper_source(file_pattern@, app_name@);
            &&& r matches Some(k) ==> regex_compile_error(source) is None && newest_eligible(
                candidates@,
                current_filename@,
                source,
                k as int,
            )
            &&& r is None ==> regex_compile_error(source) is Some || forall|i: int|
                0 <= i < candidates@.len() ==> !eligible(
                    #[trigger] candidates@[i],
                    current_filename@,
                    source,
                )
        }),
{
    let html_pattern = html_pattern_exec(file_pattern);
    let re = match build_regex(html_pattern.as_str(), app_name) {
        Ok(re) => re,
        Err(_) => {
            return None;
        },
    };
    let ghost source = newspaper_source(file_pattern@, app_name@);
    assert(re@ == source);
    let current = chars_of(current_filename);
    let mut best: Option<usize> = None;
    let mut i: usize = 0;
    while i < candidates.len()
        invariant
            i <= candidates@.len(),
            current@ == current_filename@,
            re@ == source,
            best matches Some(k) ==> {
                &&& k < i
                &&& eligible(candidates@[k as int], current_filename@, source)
                &&& forall|j: int|
                    0 <= j < i && eligible(#[trigger] candidates@[j], current_filename@, source)
                        ==> candidates@[j].modified->0 <= candidates@[k as int].modified->0
                &&& forall|j: int|
                    0 <= j < k && eligible(#[trigger] candidates@[j], current_filename@, source)
                        ==> candidates@[j].modified->0 < candidates@[k as int].modified->0
            },
            best is None ==> forall|j: int|
                0 <= j < i ==> !eligible(#[trigger] candidates@[j], current_filename@, source),
        decreases candidates@.len() - i,
    {
        let c = &candidates[i];
        let ok = c.is_file && ends_with_html_exec(&c.name) && re.is_match(c.name.as_str())
            && !same_chars(&chars_of(c.name.as_str()), &current) && c.modified.is_some();
        if ok {
            let t = c.modified.unwrap();
            match best {
                Some(k) => {
                    if candidates[k].modified.unwrap() < t {
                        best = Some(i);
                    }
                },
                None => {
                    best = Some(i);
                },
            }
        }
        i = i + 1;
    }
    best
}

// ---------------------------------------------------------------------
// Starting a generation
// ---------------------------------------------------------------------

/// The first missing setting, if any, in this order: the model address,
/// key and name, the working directory, and the search key (which a
/// custom search service may do without).
pub open spec fn setup_problem(
    api_endpoint: Seq<char>,
    api_key: Seq<char>,
    model_name: Seq<char>,
    work_dir: Seq<char>,
    search: SearchConfig,
) -> Option<Seq<char>> {
    if api_endpoint.len() == 0 {
        Some("请先配置AI API端点"@)
    } else if api_key.len() == 0 {
        Some("请先配置AI API密钥"@)
    } else if model_name.len() == 0 {
        Some("请先配置AI模型名称"@)
    } else if work_dir.len() == 0 {
        Some("请先配置工作目录"@)
    } else if search.api_key@.len() == 0 && search.provider != SearchProvider::Custom {
        Some("请先配置搜索API密钥"@)
    } else {
        None
    }
}

/// Checks that everything a generation needs is configured.
pub fn check_generation_setup(
    api_endpoint: &str,
    api_key: &str,
    model_name: &str,
    work_dir: &str,
    search: &SearchConfig,
) -> (r: Result<(), String>)
    ensures
        r is Ok <==> setup_problem(api_endpoint@, api_key@, model_name@, work_dir@, *search) is None,
        r matches Err(e) ==> Some(e@) == setup_problem(
            api_endpoint@,
            api_key@,
            model_name@,
            work_dir@,
            *search,
        ),
{
    if api_endpoint.is_empty() {
        return Err("请先配置AI API端点".to_string());
    }
    if api_key.is_empty() {
        return Err("请先配置AI API密钥".to_string());
    }
    if model_name.is_empty() {
        return Err("请先配置AI模型名称".to_string());
    }
    if work_dir.is_empty() {
        return Err("请先配置工作目录".to_string());
    }
    if search.api_key.as_str().is_empty() && search.provider != SearchProvider::Custom {
        return Err("请先配置搜索API密钥".to_string());
    }
    Ok(())
}

/// The text after the last `.` of `s`, or nothing when there is no `.`.
pub open spec fn extension(s: Seq<char>) -> Seq<char> {
    match crate::text::rfind(s, seq!['.']) {
        Some(i) => s.skip(i + 1),
        None => seq![],
    }
}

/// The lower-case form of `s` that `str::to_lowercase` gives.
pub uninterp spec fn lowercase(s: Seq<char>) -> Seq<char>;

/// `str::to_lowercase`. Trusted: the result is a function of the text
/// alone, named `lowercase`; which characters it maps is left to std's
/// Unicode tables.
#[verifier::external_body]
fn to_lowercase(s: &str) -> (r: String)
    ensures
        r@ == lowercase(s@),
{
    s.to_lowercase()
}

/// The report is Markdown when the file name pattern's extension is `md`
/// in any case (as `to_lowercase` sees it), else HTML.
pub open spec fn is_markdown_pattern(file_pattern: Seq<char>) -> bool {
    lowercase(extension(file_pattern)) == "md"@
}

/// The report format for a file name pattern: `md` or `html`.
pub fn output_format(file_pattern: &str) -> (r: &'static str)
    ensures
        r@ == (if is_markdown_pattern(file_pattern@) {
            "md"@
        } else {
            "html"@
        }),
{
    let v = chars_of(file_pattern);
    let dot = vec!['.'];
    assert(dot@ =~= seq!['.']);
    let ext = match crate::text::rfind_exec(&v, &dot) {
        Some(i) => {
            proof {
                crate::text::lemma_rfind(v@, dot@);
            }
            let vl = v.len();
            let e = subvec(&v, i + 1, vl);
            assert(e@ =~= v@.skip(i + 1));
            e
        },
        None => Vec::new(),
    };
    assert(ext@ == extension(file_pattern@));
    let lower = to_lowercase(string_of(&ext).as_str());
    if same_chars(&chars_of(lower.as_str()), &chars_of("md")) {
        "md"
    } else {
        "html"
    }
}

/// `s` with the text after its last `.` replaced by `ext`, or with `.` and
/// `ext` added when it has no `.`.
pub open spec fn with_extension(s: Seq<char>, ext: Seq<char>) -> Seq<char> {
    match crate::text::rfind(s, seq!['.']) {
        Some(i) => s.take(i + 1) + ext,
        None => s + seq!['.'] + ext,
    }
}

/// The file name pattern of the HTML newspapers: the settings' pattern,
/// or, when that names Markdown files, the same pattern with the extension
/// `html`.
pub open spec fn html_pattern(file_pattern: Seq<char>) -> Seq<char> {
    if is_markdown_pattern(file_pattern) {
        with_extension(file_pattern, "html"@)
    } else {
        file_pattern
    }
}

/// The file name pattern of the Markdown reports: the settings' pattern
/// when that names Markdown files, else the same pattern with the
/// extension `md`.
pub open spec fn markdown_pattern(file_pattern: Seq<char>) -> Seq<char> {
    if is_markdown_pattern(file_pattern) {
        file_pattern
    } else {
        with_extension(file_pattern, "md"@)
    }
}

/// `s` with its extension replaced by `ext` (see `with_extension`).
fn with_extension_exec(s: &str, ext: &str) -> (r: String)
    ensures
        r@ == with_extension(s@, ext@),
{
    let v = chars_of(s);
    let dot = vec!['.'];
    assert(dot@ =~= seq!['.']);
    match crate::text::rfind_exec(&v, &dot) {
        Some(i) => {
            proof {
                crate::text::lemma_rfind(v@, dot@);
                assert(crate::text::rfind(v@, dot@)->0 == i);
            }
            let vl = v.len();
            assert(i + 1 <= vl);
            let mut r = subvec(&v, 0, i + 1);
            assert(r@ =~= v@.take(i + 1));
            append_chars(&mut r, &chars_of(ext));
            string_of(&r)
        },
        None => {
            let mut r = v;
            r.push('.');
            append_chars(&mut r, &chars_of(ext));
            string_of(&r)
        },
    }
}

/// The file name pattern of the HTML newspapers (see `html_pattern`).
fn html_pattern_exec(file_pattern: &str) -> (r: String)
    ensures
        r@ == html_pattern(file_pattern@),
{
    proof {
        reveal_strlit("md");
        reveal_strlit("html");
    }
    if same_chars(&chars_of(output_format(file_pattern)), &chars_of("md")) {
        with_extension_exec(file_pattern, "html")
    } else {
        file_pattern.to_string()
    }
}

/// The file name pattern of the Markdown reports (see `markdown_pattern`).
fn markdown_pattern_exec(file_pattern: &str) -> (r: String)
    ensures
        r@ == markdown_pattern(file_pattern@),
{
    proof {
        reveal_strlit("md");
        reveal_strlit("html");
    }
    if same_chars(&chars_of(output_format(file_pattern)), &chars_of("md")) {
        file_pattern.to_string()
    } else {
        with_extension_exec(file_pattern, "md")
    }
}

/// The file names of today's HTML newspaper and Markdown report: the
/// patterns of `html_pattern` and `markdown_pattern`, filled in with one
/// reading of today's date.
pub fn report_file_names(app_name: &str, file_pattern: &str) -> (r: (String, String))
    ensures
        exists|d: DateStamp|
            #![trigger file_name_for(app_name@, html_pattern(file_pattern@), d)]
            date_stamp_ok(d) && r.0@ == file_name_for(app_name@, html_pattern(file_pattern@), d)
                && r.1@ == file_name_for(app_name@, markdown_pattern(file_pattern@), d),
{
    let d = today_stamp();
    let html = file_name_on(app_name, html_pattern_exec(file_pattern).as_str(), &d);
    let md = file_name_on(app_name, markdown_pattern_exec(file_pattern).as_str(), &d);
    (html, md)
}

/// The message shown when the reports have been saved: for each, its kind,
/// where it is, and its size in bytes.
pub open spec fn completion_text(
    html_path: Seq<char>,
    html_bytes: nat,
    markdown_path: Seq<char>,
    markdown_bytes: nat,
) -> Seq<char> {
    "✅ 深度研究完成！\n📄 HTML: "@ + html_path + " (共 "@ + decimal(html_bytes) + " 字符)\n📄 Markdown: "@
        + markdown_path + " (共 "@ + decimal(markdown_bytes) + " 字符)"@
}

/// The message shown when the reports have been saved.
pub fn completion_message(
    html_path: &str,
    html_bytes: usize,
    markdown_path: &str,
    markdown_bytes: usize,
) -> (r: String)
    ensures
        r@ == completion_text(html_path@, html_bytes as nat, markdown_path@, markdown_bytes as nat),
{
    let mut m = chars_of("✅ 深度研究完成！\n📄 HTML: ");
    append_chars(&mut m, &chars_of(html_path));
    append_chars(&mut m, &chars_of(" (共 "));
    append_chars(&mut m, &decimal_exec(html_bytes as u64));
    append_chars(&mut m, &chars_of(" 字符)\n📄 Markdown: "));
    append_chars(&mut m, &chars_of(markdown_path));
    append_chars(&mut m, &chars_of(" (共 "));
    append_chars(&mut m, &decimal_exec(markdown_bytes as u64));
    append_chars(&mut m, &chars_of(" 字符)"));
    assert(m@ =~= completion_text(html_path@, html_bytes as nat, markdown_path@, markdown_bytes as nat));
    string_of(&m)
}

} // verus!
