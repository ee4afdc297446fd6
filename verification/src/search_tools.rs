//! Web search and page reading: the request sent to a custom search
//! service, the hits read from the replies, and the text kept of a page.

use vstd::prelude::*;
use crate::pattern::{compile_pattern, regex_compile_error, regex_replaced};
use crate::search_config::SearchConfig;
use crate::text::{
    append_chars, byte_len, char_width, char_width_exec, chars_of, decimal, decimal_exec,
    is_white, is_white_char, opt_view, string_of,
};

verus! {

/// One hit of a web search.
pub struct SearchResult {
    pub title: String,
    pub url: String,
    pub content: String,
}

/// The texts of a hit.
pub struct SearchHit {
    pub title: Seq<char>,
    pub url: Seq<char>,
    pub content: Seq<char>,
}

impl View for SearchResult {
    type V = SearchHit;

    open spec fn view(&self) -> SearchHit {
        SearchHit { title: self.title@, url: self.url@, content: self.content@ }
    }
}

/// The views of a list of hits.
pub open spec fn hits_view(v: Seq<SearchResult>) -> Seq<SearchHit> {
    v.map_values(|r: SearchResult| r@)
}

// ---------------------------------------------------------------------
// Replies of the search services
// ---------------------------------------------------------------------

/// An entry of a reply's result array, as the fields the search reads:
/// each is the text of the field when it is a string, and `None` when it
/// is missing or not a string.
pub struct ReplyEntry {
    pub title: Option<String>,
    pub url: Option<String>,
    pub link: Option<String>,
    pub content: Option<String>,
    pub snippet: Option<String>,
    pub description: Option<String>,
}

/// The fields of a reply entry, as texts.
pub struct ReplyEntryView {
    pub title: Option<Seq<char>>,
    pub url: Option<Seq<char>>,
    pub link: Option<Seq<char>>,
    pub content: Option<Seq<char>>,
    pub snippet: Option<Seq<char>>,
    pub description: Option<Seq<char>>,
}

impl View for ReplyEntry {
    type V = ReplyEntryView;

    open spec fn view(&self) -> ReplyEntryView {
        ReplyEntryView {
            title: opt_view(self.title),
            url: opt_view(self.url),
            link: opt_view(self.link),
            content: opt_view(self.content),
            snippet: opt_view(self.snippet),
            description: opt_view(self.description),
        }
    }
}

/// A search reply: for each of the keys `results`, `data` and `items`, the
/// entries of the array it holds, or `None` when it holds no array.
pub struct SearchReply {
    pub results: Option<Vec<ReplyEntry>>,
    pub data: Option<Vec<ReplyEntry>>,
    pub items: Option<Vec<ReplyEntry>>,
}

/// The views of a list of entries.
pub open spec fn entries_of(v: Seq<ReplyEntry>) -> Seq<ReplyEntryView> {
    v.map_values(|e: ReplyEntry| e@)
}

/// The first of two optional texts that is there.
pub open spec fn or_else(a: Option<Seq<char>>, b: Option<Seq<char>>) -> Option<Seq<char>> {
    match a {
        Some(t) => Some(t),
        None => b,
    }
}

/// The hit an entry of a custom service's reply gives: it needs a title
/// and an address (`url`, else `link`); its content is `content`, else
/// `snippet`, else `description`, else empty.
pub open spec fn custom_hit(e: ReplyEntryView) -> Option<SearchHit> {
    match (e.title, or_else(e.url, e.link)) {
        (Some(title), Some(url)) => Some(
            SearchHit {
                title,
                url,
                content: match or_else(or_else(e.content, e.snippet), e.description) {
                    Some(c) => c,
                    None => seq![],
                },
            },
        ),
        _ => None,
    }
}

/// The hits of a list of entries, skipping those that give none.
pub open spec fn custom_hits(es: Seq<ReplyEntryView>) -> Seq<SearchHit>
    decreases es.len(),
{
    if es.len() == 0 {
        seq![]
    } else {
        let rest = custom_hits(es.drop_last());
        match custom_hit(es.last()) {
            Some(h) => rest.push(h),
            None => rest,
        }
    }
}

/// The entries a custom service's reply lists: those under `results`,
/// else `data`, else `items`, else none.
pub open spec fn listed_entries(
    results: Option<Seq<ReplyEntryView>>,
    data: Option<Seq<ReplyEntryView>>,
    items: Option<Seq<ReplyEntryView>>,
) -> Seq<ReplyEntryView> {
    match results {
        Some(es) => es,
        None => match data {
            Some(es) => es,
            None => match items {
                Some(es) => es,
                None => seq![],
            },
        },
    }
}

/// The optional entry list, as views.
pub open spec fn opt_entries(v: Option<Vec<ReplyEntry>>) -> Option<Seq<ReplyEntryView>> {
    match v {
        Some(es) => Some(entries_of(es@)),
        None => None,
    }
}

/// The entries of a reply, as views (see `listed_entries`).
pub open spec fn reply_entries(r: SearchReply) -> Seq<ReplyEntryView> {
    listed_entries(opt_entries(r.results), opt_entries(r.data), opt_entries(r.items))
}

/// The entries read from a reply are those under `results` whenever that
/// key holds an array; else those under `data`; else those under `items`;
/// and none when no key holds an array.
pub proof fn law_results_key_comes_first(r: SearchReply)
    ensures
        r.results matches Some(es) ==> reply_entries(r) == entries_of(es@),
        r.results is None ==> (r.data matches Some(es) ==> reply_entries(r) == entries_of(es@)),
        r.results is None && r.data is None ==> (r.items matches Some(es) ==> reply_entries(r)
            == entries_of(es@)),
        r.results is None && r.data is None && r.items is None ==> reply_entries(r).len() == 0,
{
}

fn opt_text(o: &Option<String>) -> (r: Option<String>)
    ensures
        opt_view(r) == opt_view(*o),
{
    match o {
        Some(t) => Some(t.clone()),
        None => None,
    }
}

fn first_text(a: &Option<String>, b: &Option<String>) -> (r: Option<String>)
    ensures
        opt_view(r) == or_else(opt_view(*a), opt_view(*b)),
{
    match a {
        Some(t) => Some(t.clone()),
        None => opt_text(b),
    }
}

/// The hit an entry gives (see `custom_hit`).
fn custom_hit_exec(e: &ReplyEntry) -> (r: Option<SearchResult>)
    ensures
        match r {
            Some(h) => custom_hit(e@) == Some(h@),
            None => custom_hit(e@) is None,
        },
{
    let title = match &e.title {
        Some(t) => t.clone(),
        None => {
            return None;
        },
    };
    let url = match first_text(&e.url, &e.link) {
        Some(u) => u,
        None => {
            return None;
        },
    };
    let content = match first_text(&e.content, &e.snippet) {
        Some(c) => c,
        None => match &e.description {
            Some(d) => d.clone(),
            None => String::new(),
        },
    };
    let h = SearchResult { title, url, content };
    assert(h@.content =~= custom_hit(e@)->0.content);
    Some(h)
}

/// The hits of a custom search service's reply: those of the entries under
/// `results`, else `data`, else `items`, in order, skipping the entries
/// without a title or an address; no hits when none of the keys holds an
/// array.
pub fn custom_results(reply: &SearchReply) -> (r: Vec<SearchResult>)
    ensures
        hits_view(r@) == custom_hits(reply_entries(*reply)),
{
    let empty: Vec<ReplyEntry> = Vec::new();
    let entries: &Vec<ReplyEntry> = match &reply.results {
        Some(es) => es,
        None => match &reply.data {
            Some(es) => es,
            None => match &reply.items {
                Some(es) => es,
                None => &empty,
            },
        },
    };
    let ghost ev = entries_of(entries@);
    assert(ev =~= reply_entries(*reply));
    let mut out: Vec<SearchResult> = Vec::new();
    let mut k: usize = 0;
    while k < entries.len()
        invariant
            k <= entries@.len(),
            ev == entries_of(entries@),
            hits_view(out@) == custom_hits(ev.take(k as int)),
        decreases entries@.len() - k,
    {
        assert(ev.take(k + 1).drop_last() =~= ev.take(k as int));
        assert(ev.take(k + 1).last() == entries@[k as int]@);
        match custom_hit_exec(&entries[k]) {
            Some(h) => {
                let ghost before = out@;
                out.push(h);
                assert(hits_view(out@) =~= hits_view(before).push(h@));
            },
            None => {},
        }
        k = k + 1;
    }
    assert(ev.take(entries@.len() as int) =~= ev);
    out
}

// ---------------------------------------------------------------------
// The request to a custom search service
// ---------------------------------------------------------------------

/// A GET request to a custom search service.
pub struct CustomRequest {
    /// The service's address.
    pub url: String,
    /// The `Authorization` header.
    pub authorization: String,
    /// The query parameters, in order.
    pub params: Vec<(String, String)>,
}

/// The texts of the query parameters.
pub open spec fn params_view(v: Seq<(String, String)>) -> Seq<(Seq<char>, Seq<char>)> {
    v.map_values(|p: (String, String)| (p.0@, p.1@))
}

/// The request for `query`: to the configured address, with the key as a
/// bearer token, asking for the query `q` and `num` hits; an empty address
/// is refused.
pub fn custom_request(config: &SearchConfig, query: &str) -> (r: Result<CustomRequest, String>)
    ensures
        r is Err <==> config.api_endpoint@.len() == 0,
        r matches Err(e) ==> e@ == "自定义API地址未配置"@,
        r matches Ok(req) ==> {
            &&& req.url@ == config.api_endpoint@
            &&& req.authorization@ == "Bearer "@ + config.api_key@
            &&& params_view(req.params@) == seq![
                ("q"@, query@),
                ("num"@, decimal(config.max_results as nat)),
            ]
        },
{
    if config.api_endpoint.as_str().is_empty() {
        return Err("自定义API地址未配置".to_string());
    }
    let mut auth = chars_of("Bearer ");
    append_chars(&mut auth, &chars_of(config.api_key.as_str()));
    let num = string_of(&decimal_exec(config.max_results as u64));
    let mut params: Vec<(String, String)> = Vec::new();
    params.push(("q".to_string(), query.to_string()));
    params.push(("num".to_string(), num));
    let req = CustomRequest {
        url: config.api_endpoint.clone(),
        authorization: string_of(&auth),
        params,
    };
    assert(params_view(req.params@) =~= seq![
        ("q"@, query@),
        ("num"@, decimal(config.max_results as nat)),
    ]);
    Ok(req)
}

// ---------------------------------------------------------------------
// The text of a web page
// ---------------------------------------------------------------------

/// The expression for an HTML tag.
pub open spec fn tag_regex() -> Seq<char> {
    "<[^>]+>"@
}

/// At most this many bytes of a page's text are kept.
pub const PAGE_TEXT_LIMIT: usize = 3000;

/// The words of `s`: its longest runs of characters that are not white
/// space, in order (`str::split_whitespace`).
pub open spec fn words(s: Seq<char>) -> Seq<Seq<char>>
    decreases s.len(),
{
    if s.len() == 0 {
        seq![]
    } else {
        let w = words(s.drop_last());
        let c = s.last();
        if is_white(c) {
            w
        } else if s.len() >= 2 && !is_white(s[s.len() - 2]) {
            w.update(w.len() - 1, w.last().push(c))
        } else {
            w.push(seq![c])
        }
    }
}

/// The words joined by single spaces.
pub open spec fn join_spaced(ws: Seq<Seq<char>>) -> Seq<char>
    decreases ws.len(),
{
    if ws.len() == 0 {
        seq![]
    } else if ws.len() == 1 {
        ws[0]
    } else {
        join_spaced(ws.drop_last()) + seq![' '] + ws.last()
    }
}

/// `s` with its white space runs made single spaces and its ends trimmed.
pub open spec fn collapsed(s: Seq<char>) -> Seq<char> {
    join_spaced(words(s))
}

/// Text that ends with a character that is not white space has words.
proof fn lemma_words_nonempty(s: Seq<char>)
    requires
        s.len() > 0,
        !is_white(s.last()),
    ensures
        words(s).len() > 0,
    decreases s.len(),
{
    if s.len() >= 2 && !is_white(s[s.len() - 2]) {
        assert(s.drop_last().last() == s[s.len() - 2]);
        lemma_words_nonempty(s.drop_last());
    }
}

/// Adding to the last word adds to the end of the joined text.
proof fn lemma_join_extend_last(ws: Seq<Seq<char>>, c: char)
    requires
        ws.len() > 0,
    ensures
        join_spaced(ws.update(ws.len() - 1, ws.last().push(c))) == join_spaced(ws).push(c),
{
    let u = ws.update(ws.len() - 1, ws.last().push(c));
    if ws.len() > 1 {
        assert(u.drop_last() =~= ws.drop_last());
    }
}

/// The words of `text` joined by single spaces (`split_whitespace`, then
/// `join(" ")`).
pub fn collapse_whitespace(text: &str) -> (r: String)
    ensures
        r@ == collapsed(text@),
{
    let v = chars_of(text);
    let ghost s = v@;
    let mut out: Vec<char> = Vec::new();
    let mut any = false;
    let mut in_word = false;
    let mut i: usize = 0;
    assert(s.take(0) =~= Seq::<char>::empty());
    while i < v.len()
        invariant
            i <= s.len(),
            s == v@,
            in_word == (i > 0 && !is_white(s[i - 1])),
            any == (words(s.take(i as int)).len() > 0),
            out@ == join_spaced(words(s.take(i as int))),
        decreases s.len() - i,
    {
        let c = v[i];
        let ghost t = s.take(i + 1);
        assert(t.drop_last() =~= s.take(i as int));
        assert(t.last() == c);
        if is_white_char(c) {
            in_word = false;
        } else if in_word {
            proof {
                assert(t[t.len() - 2] == s[i - 1]);
                assert(s.take(i as int).last() == s[i - 1]);
                lemma_words_nonempty(s.take(i as int));
                lemma_join_extend_last(words(s.take(i as int)), c);
            }
            out.push(c);
        } else {
            if any {
                out.push(' ');
            }
            out.push(c);
            proof {
                if i > 0 {
                    assert(t[t.len() - 2] == s[i - 1]);
                }
                let w = words(s.take(i as int));
                assert(words(t) == w.push(seq![c]));
                if w.len() > 0 {
                    assert(w.push(seq![c]).drop_last() =~= w);
                } else {
                    assert(join_spaced(w.push(seq![c])) =~= seq![c]);
                }
            }
            any = true;
            in_word = true;
        }
        i = i + 1;
    }
    assert(s.take(s.len() as int) =~= s);
    string_of(&out)
}

/// The first characters of `s` that take exactly `limit` bytes, when `s`
/// takes more; `s` itself when it takes at most `limit`; `None` when the
/// byte at `limit` falls inside a character (there the byte slice
/// `&s[..limit]` panics).
pub open spec fn byte_prefix(s: Seq<char>, limit: nat) -> Option<Seq<char>> {
    if byte_len(s) <= limit {
        Some(s)
    } else if exists|k: int| 0 <= k <= s.len() && byte_len(#[trigger] s.take(k)) == limit {
        Some(s.take(choose|k: int| 0 <= k <= s.len() && byte_len(#[trigger] s.take(k)) == limit))
    } else {
        None
    }
}

/// What is kept of a text is a prefix of it within the byte limit.
pub proof fn law_byte_prefix_within_limit(s: Seq<char>, limit: nat)
    ensures
        byte_prefix(s, limit) matches Some(t) ==> byte_len(t) <= limit && t.len() <= s.len() && s.take(
            t.len() as int,
        ) == t,
{
    if byte_len(s) <= limit {
        assert(s.take(s.len() as int) =~= s);
    } else if exists|k: int| 0 <= k <= s.len() && byte_len(#[trigger] s.take(k)) == limit {
        let k = choose|k: int| 0 <= k <= s.len() && byte_len(#[trigger] s.take(k)) == limit;
        assert(s.take(k).len() == k);
        assert(s.take(k).take(k) =~= s.take(k));
    }
}

/// Byte lengths of prefixes grow with the prefix.
proof fn lemma_byte_len_take_mono(s: Seq<char>, i: int, j: int)
    requires
        0 <= i <= j <= s.len(),
    ensures
        byte_len(s.take(i)) <= byte_len(s.take(j)),
        i < j ==> byte_len(s.take(i)) < byte_len(s.take(j)),
    decreases j - i,
{
    if i < j {
        lemma_byte_len_take_mono(s, i, j - 1);
        assert(s.take(j).drop_last() =~= s.take(j - 1));
    }
}

/// Keeps the first `limit` bytes of `text` (see `byte_prefix`).
pub fn limit_bytes(text: &str, limit: usize) -> (r: Option<String>)
    ensures
        opt_view(r) == byte_prefix(text@, limit as nat),
{
    let v = chars_of(text);
    let ghost s = v@;
    let mut total: usize = 0;
    let mut i: usize = 0;
    assert(s.take(0) =~= Seq::<char>::empty());
    while i < v.len()
        invariant
            i <= s.len(),
            s == v@,
            s == text@,
            total == byte_len(s.take(i as int)),
            total <= limit,
        decreases s.len() - i,
    {
        let ghost t = s.take(i + 1);
        assert(t.drop_last() =~= s.take(i as int));
        let w = char_width_exec(v[i]);
        assert(t.last() == v@[i as int]);
        assert(byte_len(t) == total + w);
        if w > limit - total {
            // The prefix of `i` characters is the longest within the limit.
            if total == limit {
                proof {
                    crate::text::lemma_byte_len_prefix_mono(s, i + 1);
                }
                let mut kept: Vec<char> = Vec::new();
                let mut j: usize = 0;
                while j < i
                    invariant
                        j <= i < s.len(),
                        s == v@,
                        kept@ == s.take(j as int),
                    decreases i - j,
                {
                    kept.push(v[j]);
                    assert(kept@ =~= s.take(j + 1));
                    j = j + 1;
                }
                proof {
                    lemma_unique_prefix(s, i as int, limit as nat);
                    assert(byte_len(s) > limit);
                    assert(byte_len(s.take(i as int)) == limit);
                }
                return Some(string_of(&kept));
            } else {
                proof {
                    crate::text::lemma_byte_len_prefix_mono(s, i + 1);
                    assert forall|k: int| 0 <= k <= s.len() implies byte_len(
                        #[trigger] s.take(k),
                    ) != limit by {
                        if k <= i {
                            lemma_byte_len_take_mono(s, k, i as int);
                        } else {
                            lemma_byte_len_take_mono(s, i + 1, k);
                        }
                    }
                    assert(byte_len(s) > limit);
                }
                return None;
            }
        }
        total = total + w;
        i = i + 1;
    }
    assert(s.take(s.len() as int) =~= s);
    Some(string_of(&v))
}

/// Only one prefix takes exactly `limit` bytes.
proof fn lemma_unique_prefix(s: Seq<char>, i: int, limit: nat)
    requires
        0 <= i <= s.len(),
        byte_len(s.take(i)) == limit,
    ensures
        forall|k: int| 0 <= k <= s.len() && byte_len(#[trigger] s.take(k)) == limit ==> k == i,
{
    assert forall|k: int| 0 <= k <= s.len() && byte_len(#[trigger] s.take(k)) == limit implies k
        == i by {
        if k < i {
            lemma_byte_len_take_mono(s, k, i);
        } else if k > i {
            lemma_byte_len_take_mono(s, i, k);
        }
    }
}

/// The text of an HTML page as the research keeps it: each tag replaced by
/// a space (by the `regex` crate), the white space collapsed, and at most
/// the first 3000 bytes kept. `None` when the tag expression is refused or
/// when byte 3000 falls inside a character.
pub fn page_text(html: &str) -> (r: Option<String>)
    ensures
        regex_compile_error(tag_regex()) is Some ==> r is None,
        regex_compile_error(tag_regex()) is None ==> opt_view(r) == byte_prefix(
            collapsed(regex_replaced(tag_regex(), html@, " "@)),
            PAGE_TEXT_LIMIT as nat,
        ),
{
    let re = match compile_pattern("<[^>]+>") {
        Ok(re) => re,
        Err(_) => {
            return None;
        },
    };
    let stripped = re.replace_all(html, " ");
    let text = collapse_whitespace(stripped.as_str());
    limit_bytes(text.as_str(), PAGE_TEXT_LIMIT)
}

} // verus!
