//! Pulling structured pieces out of model replies: XML-style tags, fenced
//! code blocks, reasoning blocks and HTML documents.

use vstd::prelude::*;
use crate::text::{
    append_chars, byte_len, byte_len_exceeds, chars_of, concat, contains_char, find, find_char,
    find_exec, first_chars, first_chars_exec, lemma_find, lemma_rfind, opt_view, res_view, rfind,
    rfind_exec, seq_view, string_of, subvec, trim, trim_chars, law_trim_idempotent, occurs_at,
    leading_white, trailing_white, trim_start,
};

verus! {

// ---------------------------------------------------------------------
// XML-style tags
// ---------------------------------------------------------------------

/// `<tag>`
pub open spec fn open_tag(tag: Seq<char>) -> Seq<char> {
    seq!['<'] + tag + seq!['>']
}

/// `</tag>`
pub open spec fn close_tag(tag: Seq<char>) -> Seq<char> {
    seq!['<', '/'] + tag + seq!['>']
}

/// The trimmed text between the first `<tag>` of the trimmed `text` and
/// the first `</tag>` after it, when there is such a pair and that text
/// is not empty.
pub open spec fn xml_content(text: Seq<char>, tag: Seq<char>) -> Option<Seq<char>> {
    let t = trim(text);
    let open = open_tag(tag);
    let close = close_tag(tag);
    match find(t, open) {
        Some(start) => {
            let after = t.skip(start + open.len());
            match find(after, close) {
                Some(end) => {
                    let content = trim(after.take(end));
                    if content.len() > 0 {
                        Some(content)
                    } else {
                        None
                    }
                },
                None => None,
            }
        },
        None => None,
    }
}

/// Every non-empty trimmed `<tag>..</tag>` content of `rem`, in order,
/// where each search resumes right after the previous closing tag.
pub open spec fn xml_all_in(rem: Seq<char>, open: Seq<char>, close: Seq<char>) -> Seq<Seq<char>>
    decreases rem.len(),
{
    if open.len() == 0 {
        seq![]
    } else {
        match find(rem, open) {
            None => seq![],
            Some(start) => {
                let after = rem.skip(start + open.len());
                match find(after, close) {
                    None => seq![],
                    Some(end) => {
                        let content = trim(after.take(end));
                        let rest = after.skip(end + close.len());
                        proof {
                            lemma_find(rem, open);
                            lemma_find(after, close);
                        }
                        if content.len() > 0 {
                            seq![content] + xml_all_in(rest, open, close)
                        } else {
                            xml_all_in(rest, open, close)
                        }
                    },
                }
            },
        }
    }
}

/// All tag contents of the trimmed `text`.
pub open spec fn xml_all(text: Seq<char>, tag: Seq<char>) -> Seq<Seq<char>> {
    xml_all_in(trim(text), open_tag(tag), close_tag(tag))
}

/// A tag's extracted content is never empty and has no white space at
/// either end.
pub proof fn law_xml_content_is_trimmed(text: Seq<char>, tag: Seq<char>)
    ensures
        xml_content(text, tag) matches Some(c) ==> c.len() > 0 && trim(c) == c,
{
    let t = trim(text);
    if let Some(start) = find(t, open_tag(tag)) {
        let after = t.skip(start + open_tag(tag).len());
        if let Some(end) = find(after, close_tag(tag)) {
            law_trim_idempotent(after.take(end));
        }
    }
}

/// Every content collected for a tag is non-empty and has no white space
/// at either end.
pub proof fn law_xml_all_trimmed(rem: Seq<char>, open: Seq<char>, close: Seq<char>)
    ensures
        forall|i: int|
            0 <= i < xml_all_in(rem, open, close).len() ==> (#[trigger] xml_all_in(
                rem,
                open,
                close,
            )[i]).len() > 0 && trim(xml_all_in(rem, open, close)[i]) == xml_all_in(
                rem,
                open,
                close,
            )[i],
    decreases rem.len(),
{
    if open.len() > 0 {
        lemma_find(rem, open);
        if let Some(start) = find(rem, open) {
            let after = rem.skip(start + open.len());
            lemma_find(after, close);
            if let Some(end) = find(after, close) {
                let content = trim(after.take(end));
                let rest = after.skip(end + close.len());
                law_xml_all_trimmed(rest, open, close);
                law_trim_idempotent(after.take(end));
                let r = xml_all_in(rem, open, close);
                if content.len() > 0 {
                    assert forall|i: int| 0 <= i < r.len() implies (#[trigger] r[i]).len() > 0
                        && trim(r[i]) == r[i] by {
                        if i > 0 {
                            assert(r[i] == xml_all_in(rest, open, close)[i - 1]);
                        }
                    }
                }
            }
        }
    }
}

/// No thinking or reasoning block is left once they have been stripped.
pub proof fn law_no_thinking_block_left(s: Seq<char>)
    ensures
        block_span(strip_blocks(s), think_open(), think_close()) is None,
        block_span(strip_blocks(s), reasoning_open(), reasoning_close()) is None,
    decreases s.len(),
{
    lemma_block_span(s, think_open(), think_close());
    lemma_block_span(s, reasoning_open(), reasoning_close());
    match block_span(s, think_open(), think_close()) {
        Some((lo, hi)) => law_no_thinking_block_left(cut(s, lo, hi)),
        None => match block_span(s, reasoning_open(), reasoning_close()) {
            Some((lo, hi)) => law_no_thinking_block_left(cut(s, lo, hi)),
            None => {},
        },
    }
}

fn open_tag_exec(tag: &Vec<char>) -> (r: Vec<char>)
    ensures
        r@ == open_tag(tag@),
{
    let mut r = vec!['<'];
    append_chars(&mut r, tag);
    r.push('>');
    assert(r@ =~= open_tag(tag@));
    r
}

fn close_tag_exec(tag: &Vec<char>) -> (r: Vec<char>)
    ensures
        r@ == close_tag(tag@),
{
    let mut r = vec!['<', '/'];
    append_chars(&mut r, tag);
    r.push('>');
    assert(r@ =~= close_tag(tag@));
    r
}

/// The content of the first `<tag>..</tag>` pair of `text`, trimmed, if
/// it is not empty.
pub fn extract_xml(text: &str, tag: &str) -> (r: Option<String>)
    ensures
        opt_view(r) == xml_content(text@, tag@),
{
    let t = trim_chars(&chars_of(text));
    let tagv = chars_of(tag);
    let open = open_tag_exec(&tagv);
    let close = close_tag_exec(&tagv);
    proof {
        lemma_find(t@, open@);
    }
    match find_exec(&t, &open) {
        Some(start) => {
            let tl = t.len();
            let after = subvec(&t, start + open.len(), tl);
            assert(after@ =~= t@.skip(start + open@.len()));
            proof {
                lemma_find(after@, close@);
            }
            match find_exec(&after, &close) {
                Some(end) => {
                    let content = trim_chars(&subvec(&after, 0, end));
                    assert(after@.subrange(0, end as int) =~= after@.take(end as int));
                    if content.len() > 0 {
                        Some(string_of(&content))
                    } else {
                        None
                    }
                },
                None => None,
            }
        },
        None => None,
    }
}

/// The content of the first `<tag>..</tag>` pair of `text`, or `default`.
pub fn extract_xml_or(text: &str, tag: &str, default: &str) -> (r: String)
    ensures
        r@ == (match xml_content(text@, tag@) {
            Some(c) => c,
            None => default@,
        }),
{
    match extract_xml(text, tag) {
        Some(c) => c,
        None => default.to_string(),
    }
}

/// The contents of all `<tag>..</tag>` pairs of `text`, in order, trimmed,
/// leaving out empty ones.
pub fn extract_xml_all(text: &str, tag: &str) -> (r: Vec<String>)
    ensures
        seq_view(r@) == xml_all(text@, tag@),
{
    let mut results: Vec<String> = Vec::new();
    let mut remaining = trim_chars(&chars_of(text));
    let tagv = chars_of(tag);
    let open = open_tag_exec(&tagv);
    let close = close_tag_exec(&tagv);
    let ghost whole = remaining@;
    loop
        invariant
            open@ == open_tag(tagv@),
            close@ == close_tag(tagv@),
            tagv@ == tag@,
            whole == trim(text@),
            seq_view(results@) + xml_all_in(remaining@, open@, close@) == xml_all_in(
                whole,
                open@,
                close@,
            ),
        ensures
            seq_view(results@) == xml_all_in(whole, open@, close@),
        decreases remaining@.len(),
    {
        proof {
            lemma_find(remaining@, open@);
        }
        match find_exec(&remaining, &open) {
            Some(start) => {
                let rl = remaining.len();
                let after = subvec(&remaining, start + open.len(), rl);
                assert(after@ =~= remaining@.skip(start + open@.len()));
                proof {
                    lemma_find(after@, close@);
                }
                match find_exec(&after, &close) {
                    Some(end) => {
                        let content = trim_chars(&subvec(&after, 0, end));
                        assert(after@.subrange(0, end as int) =~= after@.take(end as int));
                        let rest = subvec(&after, end + close.len(), after.len());
                        assert(rest@ =~= after@.skip(end + close@.len()));
                        let ghost before = seq_view(results@);
                        if content.len() > 0 {
                            results.push(string_of(&content));
                            assert(seq_view(results@) =~= before + seq![content@]);
                        }
                        remaining = rest;
                    },
                    None => {
                        assert(xml_all_in(remaining@, open@, close@) =~= Seq::empty());
                        assert(seq_view(results@) + Seq::empty() =~= seq_view(results@));
                        break ;
                    },
                }
            },
            None => {
                assert(xml_all_in(remaining@, open@, close@) =~= Seq::empty());
                assert(seq_view(results@) + Seq::empty() =~= seq_view(results@));
                break ;
            },
        }
    }
    results
}


// ---------------------------------------------------------------------
// Fenced code blocks
// ---------------------------------------------------------------------

/// Three backticks.
pub open spec fn backticks() -> Seq<char> {
    seq!['`', '`', '`']
}

/// The trimmed body of the first code block of the trimmed `text` that is
/// opened by three backticks and `lang`: the body starts after the end of
/// the opening line (or right after the fence when no line break follows)
/// and ends at the last three backticks; an empty body counts as none.
pub open spec fn code_block(text: Seq<char>, lang: Seq<char>) -> Option<Seq<char>> {
    let t = trim(text);
    let fence = backticks() + lang;
    match find(t, fence) {
        Some(start) => {
            let after_start = t.skip(start + fence.len());
            let content_start = match find(after_start, seq!['\n']) {
                Some(i) => i + 1,
                None => 0,
            };
            let after_newline = after_start.skip(content_start);
            match rfind(after_newline, backticks()) {
                Some(end) => {
                    let content = trim(after_newline.take(end));
                    if content.len() > 0 {
                        Some(content)
                    } else {
                        None
                    }
                },
                None => None,
            }
        },
        None => None,
    }
}

/// A code block's body is never empty and has no white space at either
/// end.
pub proof fn law_code_block_is_trimmed(text: Seq<char>, lang: Seq<char>)
    ensures
        code_block(text, lang) matches Some(c) ==> c.len() > 0 && trim(c) == c,
{
    let t = trim(text);
    let fence = backticks() + lang;
    if let Some(start) = find(t, fence) {
        let after_start = t.skip(start + fence.len());
        let content_start = match find(after_start, seq!['\n']) {
            Some(i) => i + 1,
            None => 0,
        };
        let after_newline = after_start.skip(content_start);
        if let Some(end) = rfind(after_newline, backticks()) {
            law_trim_idempotent(after_newline.take(end));
        }
    }
}

/// The body of the first code block fenced as `lang` in `text`.
pub fn extract_code_block(text: &str, lang: &str) -> (r: Option<String>)
    ensures
        opt_view(r) == code_block(text@, lang@),
{
    let t = chars_of(text);
    let langv = chars_of(lang);
    code_block_of(&t, &langv)
}

/// `code_block` on character vectors.
pub fn code_block_of(t: &Vec<char>, lang: &Vec<char>) -> (r: Option<String>)
    ensures
        opt_view(r) == code_block(t@, lang@),
{
    let t = trim_chars(t);
    let ticks = vec!['`', '`', '`'];
    assert(ticks@ =~= backticks());
    let fence = concat(&ticks, lang);
    proof {
        lemma_find(t@, fence@);
    }
    match find_exec(&t, &fence) {
        Some(start) => {
            let tl = t.len();
            let after_start = subvec(&t, start + fence.len(), tl);
            assert(after_start@ =~= t@.skip(start + fence@.len()));
            proof {
                lemma_find(after_start@, seq!['\n']);
            }
            let content_start = match find_char(&after_start, '\n') {
                Some(i) => i + 1,
                None => 0,
            };
            let al = after_start.len();
            let after_newline = subvec(&after_start, content_start, al);
            assert(after_newline@ =~= after_start@.skip(content_start as int));
            proof {
                lemma_rfind(after_newline@, ticks@);
            }
            match rfind_exec(&after_newline, &ticks) {
                Some(end) => {
                    let content = trim_chars(&subvec(&after_newline, 0, end));
                    assert(after_newline@.subrange(0, end as int) =~= after_newline@.take(
                        end as int,
                    ));
                    if content.len() > 0 {
                        Some(string_of(&content))
                    } else {
                        None
                    }
                },
                None => None,
            }
        },
        None => None,
    }
}

// ---------------------------------------------------------------------
// HTML documents
// ---------------------------------------------------------------------

/// Has an opening and a closing angle bracket and is longer than 50 bytes.
pub open spec fn looks_like_html(s: Seq<char>) -> bool {
    s.contains('<') && s.contains('>') && byte_len(s) > 50
}

/// Tests whether `s` has the basic shape of HTML: an opening and a closing
/// angle bracket and more than 50 bytes.
pub fn has_html_structure(s: &str) -> (b: bool)
    ensures
        b == looks_like_html(s@),
{
    let v = chars_of(s);
    has_html_structure_chars(&v)
}

fn has_html_structure_chars(v: &Vec<char>) -> (b: bool)
    ensures
        b == looks_like_html(v@),
{
    contains_char(v, '<') && contains_char(v, '>') && byte_len_exceeds(v, 50)
}

/// `<think>`
pub open spec fn think_open() -> Seq<char> {
    seq!['<', 't', 'h', 'i', 'n', 'k', '>']
}

/// `</think>`
pub open spec fn think_close() -> Seq<char> {
    seq!['<', '/', 't', 'h', 'i', 'n', 'k', '>']
}

/// `<reasoning>`
pub open spec fn reasoning_open() -> Seq<char> {
    seq!['<', 'r', 'e', 'a', 's', 'o', 'n', 'i', 'n', 'g', '>']
}

/// `</reasoning>`
pub open spec fn reasoning_close() -> Seq<char> {
    seq!['<', '/', 'r', 'e', 'a', 's', 'o', 'n', 'i', 'n', 'g', '>']
}

/// The span from the first `open` of `s` through the first `close` that
/// starts at or after it.
pub open spec fn block_span(s: Seq<char>, open: Seq<char>, close: Seq<char>) -> Option<(int, int)> {
    match find(s, open) {
        Some(start) => match find(s.skip(start), close) {
            Some(end) => Some((start, start + end + close.len())),
            None => None,
        },
        None => None,
    }
}

/// `s` without the characters at positions `lo..hi`.
pub open spec fn cut(s: Seq<char>, lo: int, hi: int) -> Seq<char> {
    s.take(lo) + s.skip(hi)
}

pub proof fn lemma_block_span(s: Seq<char>, open: Seq<char>, close: Seq<char>)
    requires
        close.len() > 0,
    ensures
        block_span(s, open, close) matches Some((lo, hi)) ==> 0 <= lo < hi <= s.len(),
{
    lemma_find(s, open);
    if let Some(start) = find(s, open) {
        lemma_find(s.skip(start), close);
    }
}

/// `s` after repeatedly cutting out the first `<think>..</think>` block,
/// or, when there is none, the first `<reasoning>..</reasoning>` block,
/// until neither is left.
pub open spec fn strip_blocks(s: Seq<char>) -> Seq<char>
    decreases s.len(),
{
    proof {
        lemma_block_span(s, think_open(), think_close());
        lemma_block_span(s, reasoning_open(), reasoning_close());
    }
    match block_span(s, think_open(), think_close()) {
        Some((lo, hi)) => strip_blocks(cut(s, lo, hi)),
        None => match block_span(s, reasoning_open(), reasoning_close()) {
            Some((lo, hi)) => strip_blocks(cut(s, lo, hi)),
            None => s,
        },
    }
}

/// `text` without its thinking blocks, trimmed.
pub open spec fn without_thinking(text: Seq<char>) -> Seq<char> {
    trim(strip_blocks(text))
}

/// A piece of a text without a block has no block either.
proof fn lemma_no_block_in_piece(s: Seq<char>, open: Seq<char>, close: Seq<char>, a: int, b: int)
    requires
        0 <= a <= b <= s.len(),
        block_span(s, open, close) is None,
    ensures
        block_span(s.subrange(a, b), open, close) is None,
{
    let t = s.subrange(a, b);
    lemma_find(t, open);
    lemma_find(s, open);
    if let Some(i) = find(t, open) {
        let rest = t.skip(i);
        lemma_find(rest, close);
        if let Some(j) = find(rest, close) {
            assert(s.subrange(a + i, a + i + open.len()) =~= t.subrange(i, i + open.len()));
            assert(occurs_at(s, open, a + i));
            let k = find(s, open)->0;
            assert(k <= a + i);
            let srest = s.skip(k);
            assert(srest.subrange(a + i + j - k, a + i + j - k + close.len()) =~= rest.subrange(
                j,
                j + close.len(),
            ));
            assert(occurs_at(srest, close, a + i + j - k));
            lemma_find(srest, close);
        }
    }
}

/// Stripping leaves no thinking or reasoning block, and stripping again
/// changes nothing.
pub proof fn law_without_thinking_is_final(text: Seq<char>)
    ensures
        block_span(without_thinking(text), think_open(), think_close()) is None,
        block_span(without_thinking(text), reasoning_open(), reasoning_close()) is None,
        without_thinking(without_thinking(text)) == without_thinking(text),
{
    let s = strip_blocks(text);
    law_no_thinking_block_left(text);
    let w = without_thinking(text);
    crate::text::lemma_leading_white_bound(s);
    crate::text::lemma_trailing_white_bound(trim_start(s));
    assert(w =~= s.subrange(
        leading_white(s) as int,
        leading_white(s) + trim_start(s).len() - trailing_white(trim_start(s)),
    ));
    lemma_no_block_in_piece(
        s,
        think_open(),
        think_close(),
        leading_white(s) as int,
        leading_white(s) + trim_start(s).len() - trailing_white(trim_start(s)),
    );
    lemma_no_block_in_piece(
        s,
        reasoning_open(),
        reasoning_close(),
        leading_white(s) as int,
        leading_white(s) + trim_start(s).len() - trailing_white(trim_start(s)),
    );
    assert(strip_blocks(w) == w);
    law_trim_idempotent(s);
}

/// Finds the span of the first `open`..`close` block of `s`.
fn block_span_exec(s: &Vec<char>, open: &Vec<char>, close: &Vec<char>) -> (r: Option<(usize, usize)>)
    requires
        close@.len() > 0,
    ensures
        r matches Some((lo, hi)) ==> block_span(s@, open@, close@) == Some((lo as int, hi as int)),
        r is None ==> block_span(s@, open@, close@) is None,
{
    proof {
        lemma_find(s@, open@);
    }
    match find_exec(s, open) {
        Some(start) => {
            let sl = s.len();
            let tail = subvec(s, start, sl);
            assert(tail@ =~= s@.skip(start as int));
            proof {
                lemma_find(tail@, close@);
            }
            match find_exec(&tail, close) {
                Some(end) => Some((start, start + end + close.len())),
                None => None,
            }
        },
        None => None,
    }
}

/// Removes `<think>..</think>` and `<reasoning>..</reasoning>` blocks, with
/// their contents, from `text`, and trims the rest.
pub fn strip_thinking_tags(text: &str) -> (r: String)
    ensures
        r@ == without_thinking(text@),
{
    let v = chars_of(text);
    let stripped = strip_thinking_chars(&v);
    string_of(&stripped)
}

fn strip_thinking_chars(text: &Vec<char>) -> (r: Vec<char>)
    ensures
        r@ == without_thinking(text@),
{
    let to = vec!['<', 't', 'h', 'i', 'n', 'k', '>'];
    let tc = vec!['<', '/', 't', 'h', 'i', 'n', 'k', '>'];
    let ro = vec!['<', 'r', 'e', 'a', 's', 'o', 'n', 'i', 'n', 'g', '>'];
    let rc = vec!['<', '/', 'r', 'e', 'a', 's', 'o', 'n', 'i', 'n', 'g', '>'];
    assert(to@ =~= think_open());
    assert(tc@ =~= think_close());
    assert(ro@ =~= reasoning_open());
    assert(rc@ =~= reasoning_close());
    let mut result = text.clone();
    assert(result@ =~= text@);
    loop
        invariant
            to@ == think_open(),
            tc@ == think_close(),
            ro@ == reasoning_open(),
            rc@ == reasoning_close(),
            strip_blocks(result@) == strip_blocks(text@),
        ensures
            result@ == strip_blocks(text@),
        decreases result@.len(),
    {
        proof {
            lemma_block_span(result@, think_open(), think_close());
            lemma_block_span(result@, reasoning_open(), reasoning_close());
        }
        let span = match block_span_exec(&result, &to, &tc) {
            Some(sp) => Some(sp),
            None => block_span_exec(&result, &ro, &rc),
        };
        match span {
            Some((lo, hi)) => {
                let head = subvec(&result, 0, lo);
                let rl = result.len();
                let tail = subvec(&result, hi, rl);
                let next = concat(&head, &tail);
                assert(next@ =~= cut(result@, lo as int, hi as int));
                result = next;
            },
            None => {
                break ;
            },
        }
    }
    trim_chars(&result)
}

/// Where the document starts: the first `<!DOCTYPE`, or else the first `<html`.
pub open spec fn doc_start(raw: Seq<char>) -> Option<int> {
    match find(raw, seq!['<', '!', 'D', 'O', 'C', 'T', 'Y', 'P', 'E']) {
        Some(i) => Some(i),
        None => find(raw, seq!['<', 'h', 't', 'm', 'l']),
    }
}

/// `</html>`
pub open spec fn html_close() -> Seq<char> {
    seq!['<', '/', 'h', 't', 'm', 'l', '>']
}

/// The document piece of `raw`: from its start through the last `</html>`,
/// or to the end when there is no `</html>`.
pub open spec fn doc_piece(raw: Seq<char>, start: int) -> Seq<char> {
    match rfind(raw, html_close()) {
        Some(end) => raw.subrange(start, end + 7),
        None => raw.skip(start),
    }
}

/// The `html` code block of the (trimmed) reply, when it looks like HTML.
pub open spec fn html_block(raw: Seq<char>) -> Option<Seq<char>> {
    match code_block(raw, seq!['h', 't', 'm', 'l']) {
        Some(h) => if looks_like_html(h) {
            Some(h)
        } else {
            None
        },
        None => None,
    }
}

/// Whether cleaning the reply `raw0` can cut out its document piece:
/// the piece is only needed when the reply is not empty and has no usable
/// `html` code block, and it can be cut unless the last `</html>` ends
/// before the document start.
pub open spec fn html_reply_cuttable(raw0: Seq<char>) -> bool {
    let raw = trim(raw0);
    raw.len() == 0 || html_block(raw) is Some || match (doc_start(raw), rfind(raw, html_close())) {
        (Some(start), Some(end)) => start <= end + 7,
        _ => true,
    }
}

/// What cleaning the reply `raw0` gives: the first of these that applies,
/// on the trimmed reply: an error when it is empty; its `html` code block
/// when that looks like HTML; its trimmed document piece when that looks
/// like HTML; its first code block of any language; the reply without its
/// thinking blocks when that looks like HTML; the reply itself when it has
/// both angle brackets and more than 100 bytes; else an error quoting the
/// first 200 characters.
pub open spec fn cleaned_html(raw0: Seq<char>) -> Result<Seq<char>, Seq<char>> {
    let raw = trim(raw0);
    if raw.len() == 0 {
        Err("LLM返回内容为空"@)
    } else if html_block(raw) is Some {
        Ok(html_block(raw)->0)
    } else if doc_start(raw) is Some && trim(doc_piece(raw, doc_start(raw)->0)).len() > 0
        && looks_like_html(trim(doc_piece(raw, doc_start(raw)->0))) {
        Ok(trim(doc_piece(raw, doc_start(raw)->0)))
    } else if code_block(raw, seq![]) is Some {
        Ok(code_block(raw, seq![])->0)
    } else if looks_like_html(without_thinking(raw)) {
        Ok(without_thinking(raw))
    } else if raw.contains('<') && raw.contains('>') && byte_len(raw) > 100 {
        Ok(raw)
    } else {
        Err("无法提取有效HTML内容。原始响应前200字符: "@ + first_chars(raw, 200))
    }
}

/// Cleaning never yields an empty document.
pub proof fn law_cleaned_html_nonempty(raw0: Seq<char>)
    ensures
        cleaned_html(raw0) matches Ok(h) ==> h.len() > 0,
{
    let w = without_thinking(trim(raw0));
    if w.len() == 0 {
        assert(byte_len(w) == 0);
    }
}

/// Tests whether `clean_html_output` can handle `raw` (see `html_reply_cuttable`).
pub fn html_reply_is_cuttable(raw: &str) -> (b: bool)
    ensures
        b == html_reply_cuttable(raw@),
{
    let r = trim_chars(&chars_of(raw));
    if r.len() == 0 {
        return true;
    }
    let html = vec!['h', 't', 'm', 'l'];
    if let Some(h) = code_block_of(&r, &html) {
        assert(html@ =~= seq!['h', 't', 'm', 'l']);
        if has_html_structure(h.as_str()) {
            return true;
        }
    } else {
        assert(html@ =~= seq!['h', 't', 'm', 'l']);
    }
    let (start, end) = (doc_start_exec(&r), rfind_html_close(&r));
    match (start, end) {
        (Some(s), Some(e)) => s <= e + 7,
        _ => true,
    }
}

fn doc_start_exec(raw: &Vec<char>) -> (r: Option<usize>)
    ensures
        r matches Some(k) ==> doc_start(raw@) == Some(k as int),
        r is None ==> doc_start(raw@) is None,
{
    let doctype = vec!['<', '!', 'D', 'O', 'C', 'T', 'Y', 'P', 'E'];
    let html = vec!['<', 'h', 't', 'm', 'l'];
    assert(doctype@ =~= seq!['<', '!', 'D', 'O', 'C', 'T', 'Y', 'P', 'E']);
    assert(html@ =~= seq!['<', 'h', 't', 'm', 'l']);
    match find_exec(raw, &doctype) {
        Some(i) => Some(i),
        None => find_exec(raw, &html),
    }
}

fn rfind_html_close(raw: &Vec<char>) -> (r: Option<usize>)
    ensures
        r matches Some(k) ==> rfind(raw@, html_close()) == Some(k as int),
        r is None ==> rfind(raw@, html_close()) is None,
        r matches Some(k) ==> k + 7 <= raw@.len(),
{
    let close = vec!['<', '/', 'h', 't', 'm', 'l', '>'];
    assert(close@ =~= html_close());
    proof {
        lemma_rfind(raw@, close@);
    }
    rfind_exec(raw, &close)
}

/// Pulls a clean HTML document out of a model reply, dropping any
/// surrounding commentary or reasoning (see `cleaned_html`).
pub fn clean_html_output(raw: &str) -> (r: Result<String, String>)
    requires
        html_reply_cuttable(raw@),
    ensures
        res_view(r) == cleaned_html(raw@),
{
    let raw = trim_chars(&chars_of(raw));
    if raw.len() == 0 {
        return Err("LLM返回内容为空".to_string());
    }
    let html = vec!['h', 't', 'm', 'l'];
    assert(html@ =~= seq!['h', 't', 'm', 'l']);
    if let Some(h) = code_block_of(&raw, &html) {
        if has_html_structure(h.as_str()) {
            return Ok(h);
        }
    }
    if let Some(start) = doc_start_exec(&raw) {
        proof {
            lemma_find(raw@, seq!['<', '!', 'D', 'O', 'C', 'T', 'Y', 'P', 'E']);
            lemma_find(raw@, seq!['<', 'h', 't', 'm', 'l']);
        }
        let rl = raw.len();
        let content = match rfind_html_close(&raw) {
            Some(end) => subvec(&raw, start, end + 7),
            None => subvec(&raw, start, rl),
        };
        assert(content@ =~= doc_piece(raw@, start as int));
        let cleaned = trim_chars(&content);
        if cleaned.len() > 0 && has_html_structure_chars(&cleaned) {
            return Ok(string_of(&cleaned));
        }
    }
    let none: Vec<char> = Vec::new();
    assert(none@ =~= seq![]);
    if let Some(h) = code_block_of(&raw, &none) {
        return Ok(h);
    }
    let cleaned = strip_thinking_chars(&raw);
    if has_html_structure_chars(&cleaned) {
        return Ok(string_of(&cleaned));
    }
    if contains_char(&raw, '<') && contains_char(&raw, '>') && byte_len_exceeds(&raw, 100) {
        return Ok(string_of(&raw));
    }
    let head = first_chars_exec(&raw, 200);
    let mut msg = chars_of("无法提取有效HTML内容。原始响应前200字符: ");
    append_chars(&mut msg, &head);
    Err(string_of(&msg))
}

} // verus!
