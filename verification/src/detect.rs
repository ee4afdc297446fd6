//! Guessing the file name pattern of the reports in a directory from the
//! names of its files.

use vstd::prelude::*;
use crate::pattern::{compile_pattern, regex_captures, regex_compile_error, CompiledPattern};
use crate::reports::{group_text, literal, placeholder_regex, regex_body, regex_source};
use crate::text::{
    chars_of, contains_exec, contains_seq, find, lemma_find, occurs_at, opt_view, replace_all, replace_exec,
    string_of,
};

verus! {

/// An entry of a directory listing.
pub struct DirEntry {
    pub name: String,
    /// Whether the entry is a plain file.
    pub is_file: bool,
}

/// `name` starts with a dot (a hidden file).
pub open spec fn is_hidden(name: Seq<char>) -> bool {
    name.len() > 0 && name[0] == '.'
}

/// The names the guess looks at: those of plain files that are not hidden,
/// in listing order.
pub open spec fn visible_names(entries: Seq<DirEntry>) -> Seq<Seq<char>>
    decreases entries.len(),
{
    if entries.len() == 0 {
        seq![]
    } else {
        let rest = visible_names(entries.drop_last());
        let e = entries.last();
        if e.is_file && !is_hidden(e.name@) {
            rest.push(e.name@)
        } else {
            rest
        }
    }
}

/// The number of candidate patterns.
pub const CANDIDATES: usize = 6;

/// The expression of candidate `i`, from the most specific to the least.
pub open spec fn candidate_regex(i: int) -> Seq<char> {
    if i == 0 {
        "^(.+)_(\\d{4})(\\d{2})(\\d{2})\\.(.+)$"@
    } else if i == 1 {
        "^(.+)-(\\d{4})-(\\d{2})-(\\d{2})\\.(.+)$"@
    } else if i == 2 {
        "^(.+)_(\\d{4})-(\\d{2})-(\\d{2})\\.(.+)$"@
    } else if i == 3 {
        "^(.+)(\\d{4})(\\d{2})(\\d{2})\\.(.+)$"@
    } else if i == 4 {
        "^(\\d{4})(\\d{2})(\\d{2})_(.+)\\.(.+)$"@
    } else {
        "^(.+)_(\\d{4})_(\\d{2})_(\\d{2})\\.(.+)$"@
    }
}

/// The file name pattern of candidate `i`, with `{prefix}` and `{ext}`
/// still to be filled in.
pub open spec fn candidate_template(i: int) -> Seq<char> {
    if i == 0 {
        "{prefix}_{YYYY}{MM}{DD}.{ext}"@
    } else if i == 1 {
        "{prefix}-{YYYY}-{MM}-{DD}.{ext}"@
    } else if i == 2 {
        "{prefix}_{YYYY}-{MM}-{DD}.{ext}"@
    } else if i == 3 {
        "{prefix}{YYYY}{MM}{DD}.{ext}"@
    } else if i == 4 {
        "{YYYY}{MM}{DD}_{prefix}.{ext}"@
    } else {
        "{prefix}_{YYYY}_{MM}_{DD}.{ext}"@
    }
}

/// A file name pattern's expression with each `{prefix}` and `{ext}` left
/// in it made a group that takes any text (`(.+)`).
pub open spec fn with_groups(s: Seq<char>) -> Seq<char>
    decreases s.len(),
{
    if s.len() == 0 {
        seq![]
    } else if s.len() >= 8 && s.take(8) == seq!['{', 'p', 'r', 'e', 'f', 'i', 'x', '}'] {
        seq!['(', '.', '+', ')'] + with_groups(s.skip(8))
    } else if s.len() >= 5 && s.take(5) == seq!['{', 'e', 'x', 't', '}'] {
        seq!['(', '.', '+', ')'] + with_groups(s.skip(5))
    } else {
        seq![s[0]] + with_groups(s.skip(1))
    }
}

proof fn lemma_groups_empty()
    ensures
        with_groups(Seq::<char>::empty()) == Seq::<char>::empty(),
{
}

proof fn lemma_groups_char(c: char, rest: Seq<char>, second: char)
    requires
        c != '{' || (rest.len() > 0 && rest[0] == second && second != 'p' && second != 'e'),
    ensures
        with_groups(seq![c] + rest) == seq![c] + with_groups(rest),
{
    let s = seq![c] + rest;
    assert(s[0] == c);
    if s.len() >= 8 {
        assert(s.take(8)[0] == c);
        assert(s.take(8)[1] == s[1]);
    }
    if s.len() >= 5 {
        assert(s.take(5)[0] == c);
        assert(s.take(5)[1] == s[1]);
    }
    if rest.len() > 0 {
        assert(s[1] == rest[0]);
    }
    assert(s.skip(1) =~= rest);
}

proof fn lemma_groups_plain(a: Seq<char>, rest: Seq<char>)
    requires
        forall|i: int| 0 <= i < a.len() ==> a[i] != '{',
    ensures
        with_groups(a + rest) == a + with_groups(rest),
    decreases a.len(),
{
    if a.len() > 0 {
        lemma_groups_plain(a.skip(1), rest);
        assert(a + rest =~= seq![a[0]] + (a.skip(1) + rest));
        lemma_groups_char(a[0], a.skip(1) + rest, ' ');
        assert(a =~= seq![a[0]] + a.skip(1));
    }
}

proof fn lemma_groups_digits(d: char, rest: Seq<char>)
    requires
        d == '2' || d == '4',
    ensures
        with_groups(seq!['(', '\\', 'd', '{', d, '}', ')'] + rest) == seq![
            '(',
            '\\',
            'd',
            '{',
            d,
            '}',
            ')',
        ] + with_groups(rest),
{
    let tail = seq![d, '}', ')'] + rest;
    lemma_groups_plain(seq![d, '}', ')'], rest);
    assert(seq!['{'] + tail =~= seq!['{', d, '}', ')'] + rest);
    lemma_groups_char('{', tail, d);
    lemma_groups_plain(seq!['(', '\\', 'd'], seq!['{'] + tail);
    assert(seq!['(', '\\', 'd', '{', d, '}', ')'] + rest =~= seq!['(', '\\', 'd'] + (seq!['{'] + tail));
}

proof fn lemma_groups_prefix(rest: Seq<char>)
    ensures
        with_groups(seq!['{', 'p', 'r', 'e', 'f', 'i', 'x', '}'] + rest) == seq!['(', '.', '+', ')']
            + with_groups(rest),
{
    let s = seq!['{', 'p', 'r', 'e', 'f', 'i', 'x', '}'] + rest;
    assert(s.take(8) =~= seq!['{', 'p', 'r', 'e', 'f', 'i', 'x', '}']);
    assert(s.skip(8) =~= rest);
}

proof fn lemma_groups_ext(rest: Seq<char>)
    ensures
        with_groups(seq!['{', 'e', 'x', 't', '}'] + rest) == seq!['(', '.', '+', ')'] + with_groups(
            rest,
        ),
{
    let s = seq!['{', 'e', 'x', 't', '}'] + rest;
    if s.len() >= 8 {
        assert(s.take(8)[1] == 'e');
    }
    assert(s.take(5) =~= seq!['{', 'e', 'x', 't', '}']);
    assert(s.skip(5) =~= rest);
}

proof fn lemma_body_literal(c: char, rest: Seq<char>, app: Seq<char>)
    requires
        c != '{',
    ensures
        regex_body(seq![c] + rest, app) == literal(c) + regex_body(rest, app),
{
    let p = seq![c] + rest;
    assert(p[0] == c);
    assert(p.skip(1) =~= rest);
}

proof fn lemma_body_placeholder(name: Seq<char>, rest: Seq<char>, app: Seq<char>)
    requires
        forall|i: int| 0 <= i < name.len() ==> name[i] != '}',
    ensures
        regex_body(seq!['{'] + name + seq!['}'] + rest, app) == placeholder_regex(name, app)
            + regex_body(rest, app),
{
    let p = seq!['{'] + name + seq!['}'] + rest;
    let r = p.skip(1);
    assert(p[0] == '{');
    assert(r =~= name + seq!['}'] + rest);
    lemma_find(r, seq!['}']);
    let n = name.len() as int;
    assert(r.subrange(n, n + 1) =~= seq!['}']);
    assert(occurs_at(r, seq!['}'], n));
    assert forall|j: int| 0 <= j < n implies !occurs_at(r, seq!['}'], j) by {
        if occurs_at(r, seq!['}'], j) {
            assert(r.subrange(j, j + 1)[0] == r[j]);
            assert(r[j] == name[j]);
        }
    }
    let k = find(r, seq!['}'])->0;
    if k < n {
        assert(!occurs_at(r, seq!['}'], k));
    }
    assert(find(r, seq!['}']) == Some(n));
    assert(r.take(n) =~= name);
    assert(r.skip(n + 1) =~= rest);
}

/// What the date placeholders of a file name pattern become.
proof fn lemma_date_placeholders(app: Seq<char>)
    ensures
        placeholder_regex(seq!['Y', 'Y', 'Y', 'Y'], app) == seq!['(', '\\', 'd', '{', '4', '}', ')'],
        placeholder_regex(seq!['M', 'M'], app) == seq!['(', '\\', 'd', '{', '2', '}', ')'],
        placeholder_regex(seq!['D', 'D'], app) == seq!['(', '\\', 'd', '{', '2', '}', ')'],
        placeholder_regex(seq!['p', 'r', 'e', 'f', 'i', 'x'], app) == seq![
            '{',
            'p',
            'r',
            'e',
            'f',
            'i',
            'x',
            '}',
        ],
        placeholder_regex(seq!['e', 'x', 't'], app) == seq!['{', 'e', 'x', 't', '}'],
{
    reveal_strlit("YYYY");
    reveal_strlit("YY");
    reveal_strlit("MM");
    reveal_strlit("DD");
    reveal_strlit("name");
    reveal_strlit("(\\d{4})");
    reveal_strlit("(\\d{2})");
    assert("YYYY"@ =~= seq!['Y', 'Y', 'Y', 'Y']);
    assert("MM"@ =~= seq!['M', 'M']);
    assert("DD"@ =~= seq!['D', 'D']);
    assert("name"@[0] == 'n');
    assert("YY"@[0] == 'Y');
    assert("MM"@[0] == 'M');
    assert("(\\d{4})"@ =~= seq!['(', '\\', 'd', '{', '4', '}', ')']);
    assert("(\\d{2})"@ =~= seq!['(', '\\', 'd', '{', '2', '}', ')']);
    assert(seq!['{'] + seq!['p', 'r', 'e', 'f', 'i', 'x'] + seq!['}'] =~= seq![
        '{',
        'p',
        'r',
        'e',
        'f',
        'i',
        'x',
        '}',
    ]);
    assert(seq!['{'] + seq!['e', 'x', 't'] + seq!['}'] =~= seq!['{', 'e', 'x', 't', '}']);
}

proof fn lemma_fits_prefix(rest: Seq<char>, tail: Seq<char>)
    ensures
        with_groups(regex_body(seq!['{', 'p', 'r', 'e', 'f', 'i', 'x', '}'] + rest, seq![]) + tail) == seq!['(', '.', '+', ')']
            + with_groups(regex_body(rest, seq![]) + tail),
{
    let app = Seq::<char>::empty();
    let b = regex_body(rest, app);
    assert(seq!['{', 'p', 'r', 'e', 'f', 'i', 'x', '}'] + rest =~= seq!['{'] + seq!['p', 'r', 'e', 'f', 'i', 'x'] + seq!['}'] + rest);
    lemma_body_placeholder(seq!['p', 'r', 'e', 'f', 'i', 'x'], rest, app);
    lemma_date_placeholders(app);
    assert(regex_body(seq!['{', 'p', 'r', 'e', 'f', 'i', 'x', '}'] + rest, app) + tail =~= seq!['{', 'p', 'r', 'e', 'f', 'i', 'x', '}'] + (b + tail));
    lemma_groups_prefix(b + tail);
}

proof fn lemma_fits_ext(rest: Seq<char>, tail: Seq<char>)
    ensures
        with_groups(regex_body(seq!['{', 'e', 'x', 't', '}'] + rest, seq![]) + tail) == seq!['(', '.', '+', ')']
            + with_groups(regex_body(rest, seq![]) + tail),
{
    let app = Seq::<char>::empty();
    let b = regex_body(rest, app);
    assert(seq!['{', 'e', 'x', 't', '}'] + rest =~= seq!['{'] + seq!['e', 'x', 't'] + seq!['}'] + rest);
    lemma_body_placeholder(seq!['e', 'x', 't'], rest, app);
    lemma_date_placeholders(app);
    assert(regex_body(seq!['{', 'e', 'x', 't', '}'] + rest, app) + tail =~= seq!['{', 'e', 'x', 't', '}'] + (b + tail));
    lemma_groups_ext(b + tail);
}

proof fn lemma_fits_year(rest: Seq<char>, tail: Seq<char>)
    ensures
        with_groups(regex_body(seq!['{', 'Y', 'Y', 'Y', 'Y', '}'] + rest, seq![]) + tail) == seq!['(', '\\', 'd', '{', '4', '}', ')']
            + with_groups(regex_body(rest, seq![]) + tail),
{
    let app = Seq::<char>::empty();
    let b = regex_body(rest, app);
    assert(seq!['{', 'Y', 'Y', 'Y', 'Y', '}'] + rest =~= seq!['{'] + seq!['Y', 'Y', 'Y', 'Y'] + seq!['}'] + rest);
    lemma_body_placeholder(seq!['Y', 'Y', 'Y', 'Y'], rest, app);
    lemma_date_placeholders(app);
    assert(regex_body(seq!['{', 'Y', 'Y', 'Y', 'Y', '}'] + rest, app) + tail =~= seq!['(', '\\', 'd', '{', '4', '}', ')'] + (b + tail));
    lemma_groups_digits('4', b + tail);
}

proof fn lemma_fits_month(rest: Seq<char>, tail: Seq<char>)
    ensures
        with_groups(regex_body(seq!['{', 'M', 'M', '}'] + rest, seq![]) + tail) == seq!['(', '\\', 'd', '{', '2', '}', ')']
            + with_groups(regex_body(rest, seq![]) + tail),
{
    let app = Seq::<char>::empty();
    let b = regex_body(rest, app);
    assert(seq!['{', 'M', 'M', '}'] + rest =~= seq!['{'] + seq!['M', 'M'] + seq!['}'] + rest);
    lemma_body_placeholder(seq!['M', 'M'], rest, app);
    lemma_date_placeholders(app);
    assert(regex_body(seq!['{', 'M', 'M', '}'] + rest, app) + tail =~= seq!['(', '\\', 'd', '{', '2', '}', ')'] + (b + tail));
    lemma_groups_digits('2', b + tail);
}

proof fn lemma_fits_day(rest: Seq<char>, tail: Seq<char>)
    ensures
        with_groups(regex_body(seq!['{', 'D', 'D', '}'] + rest, seq![]) + tail) == seq!['(', '\\', 'd', '{', '2', '}', ')']
            + with_groups(regex_body(rest, seq![]) + tail),
{
    let app = Seq::<char>::empty();
    let b = regex_body(rest, app);
    assert(seq!['{', 'D', 'D', '}'] + rest =~= seq!['{'] + seq!['D', 'D'] + seq!['}'] + rest);
    lemma_body_placeholder(seq!['D', 'D'], rest, app);
    lemma_date_placeholders(app);
    assert(regex_body(seq!['{', 'D', 'D', '}'] + rest, app) + tail =~= seq!['(', '\\', 'd', '{', '2', '}', ')'] + (b + tail));
    lemma_groups_digits('2', b + tail);
}

/// How the separators of the candidates read as expressions.
proof fn lemma_separators()
    ensures
        literal('_') == seq!['_'],
        literal('-') == seq!['-'],
        literal('.') == seq!['\\', '.'],
{
    reveal_strlit(".+*?^$()[]{}|\\");
    let s = ".+*?^$()[]{}|\\"@;
    assert(s =~= seq!['.', '+', '*', '?', '^', '$', '(', ')', '[', ']', '{', '}', '|', '\\']);
    assert(s[0] == '.');
    assert(s.contains('.'));
    assert(!s.contains('_'));
    assert(!s.contains('-'));
}

proof fn lemma_fits_separator(c: char, rest: Seq<char>, tail: Seq<char>)
    requires
        c == '_' || c == '-' || c == '.',
    ensures
        with_groups(regex_body(seq![c] + rest, seq![]) + tail) == literal(c) + with_groups(
            regex_body(rest, seq![]) + tail,
        ),
{
    let app = Seq::<char>::empty();
    let b = regex_body(rest, app);
    lemma_body_literal(c, rest, app);
    lemma_separators();
    assert(regex_body(seq![c] + rest, app) + tail =~= literal(c) + (b + tail));
    lemma_groups_plain(literal(c), b + tail);
}

proof fn lemma_fits_source(t: Seq<char>)
    ensures
        with_groups(regex_source(t, seq![])) == seq!['^'] + with_groups(
            regex_body(t, seq![]) + seq!['$'],
        ),
{
    let b = regex_body(t, seq![]);
    assert(regex_source(t, seq![]) =~= seq!['^'] + (b + seq!['$']));
    lemma_groups_char('^', b + seq!['$'], ' ');
}

proof fn lemma_fits_end()
    ensures
        with_groups(regex_body(Seq::<char>::empty(), seq![]) + seq!['$']) == seq!['$'],
{
    assert(regex_body(Seq::<char>::empty(), seq![]) + seq!['$'] =~= seq!['$'] + Seq::<char>::empty());
    lemma_groups_plain(seq!['$'], Seq::<char>::empty());
    lemma_groups_empty();
}

proof fn lemma_candidate_fits_0()
    ensures
        with_groups(regex_source(candidate_template(0), seq![])) == candidate_regex(0),
{
    reveal_strlit("{prefix}_{YYYY}{MM}{DD}.{ext}");
    reveal_strlit("^(.+)_(\\d{4})(\\d{2})(\\d{2})\\.(.+)$");
    let t7 = Seq::<char>::empty();
    let t6 = seq!['{', 'e', 'x', 't', '}'] + t7;
    let t5 = seq!['.'] + t6;
    let t4 = seq!['{', 'D', 'D', '}'] + t5;
    let t3 = seq!['{', 'M', 'M', '}'] + t4;
    let t2 = seq!['{', 'Y', 'Y', 'Y', 'Y', '}'] + t3;
    let t1 = seq!['_'] + t2;
    let t0 = seq!['{', 'p', 'r', 'e', 'f', 'i', 'x', '}'] + t1;
    assert(candidate_template(0) =~= t0);
    lemma_fits_source(t0);
    lemma_fits_prefix(t1, seq!['$']);
    lemma_fits_separator('_', t2, seq!['$']);
    lemma_fits_year(t3, seq!['$']);
    lemma_fits_month(t4, seq!['$']);
    lemma_fits_day(t5, seq!['$']);
    lemma_fits_separator('.', t6, seq!['$']);
    lemma_fits_ext(t7, seq!['$']);
    lemma_fits_end();
    lemma_separators();
    assert(candidate_regex(0) =~= seq!['^'] + (seq!['(', '.', '+', ')'] + (seq!['_'] + (seq!['(', '\\', 'd', '{', '4', '}', ')'] + (seq!['(', '\\', 'd', '{', '2', '}', ')'] + (seq!['(', '\\', 'd', '{', '2', '}', ')'] + (seq!['\\', '.'] + (seq!['(', '.', '+', ')'] + (seq!['$'])))))))));
}

proof fn lemma_candidate_fits_1()
    ensures
        with_groups(regex_source(candidate_template(1), seq![])) == candidate_regex(1),
{
    reveal_strlit("{prefix}-{YYYY}-{MM}-{DD}.{ext}");
    reveal_strlit("^(.+)-(\\d{4})-(\\d{2})-(\\d{2})\\.(.+)$");
    let t9 = Seq::<char>::empty();
    let t8 = seq!['{', 'e', 'x', 't', '}'] + t9;
    let t7 = seq!['.'] + t8;
    let t6 = seq!['{', 'D', 'D', '}'] + t7;
    let t5 = seq!['-'] + t6;
    let t4 = seq!['{', 'M', 'M', '}'] + t5;
    let t3 = seq!['-'] + t4;
    let t2 = seq!['{', 'Y', 'Y', 'Y', 'Y', '}'] + t3;
    let t1 = seq!['-'] + t2;
    let t0 = seq!['{', 'p', 'r', 'e', 'f', 'i', 'x', '}'] + t1;
    assert(candidate_template(1) =~= t0);
    lemma_fits_source(t0);
    lemma_fits_prefix(t1, seq!['$']);
    lemma_fits_separator('-', t2, seq!['$']);
    lemma_fits_year(t3, seq!['$']);
    lemma_fits_separator('-', t4, seq!['$']);
    lemma_fits_month(t5, seq!['$']);
    lemma_fits_separator('-', t6, seq!['$']);
    lemma_fits_day(t7, seq!['$']);
    lemma_fits_separator('.', t8, seq!['$']);
    lemma_fits_ext(t9, seq!['$']);
    lemma_fits_end();
    lemma_separators();
    assert(candidate_regex(1) =~= seq!['^'] + (seq!['(', '.', '+', ')'] + (seq!['-'] + (seq!['(', '\\', 'd', '{', '4', '}', ')'] + (seq!['-'] + (seq!['(', '\\', 'd', '{', '2', '}', ')'] + (seq!['-'] + (seq!['(', '\\', 'd', '{', '2', '}', ')'] + (seq!['\\', '.'] + (seq!['(', '.', '+', ')'] + (seq!['$'])))))))))));
}

proof fn lemma_candidate_fits_2()
    ensures
        with_groups(regex_source(candidate_template(2), seq![])) == candidate_regex(2),
{
    reveal_strlit("{prefix}_{YYYY}-{MM}-{DD}.{ext}");
    reveal_strlit("^(.+)_(\\d{4})-(\\d{2})-(\\d{2})\\.(.+)$");
    let t9 = Seq::<char>::empty();
    let t8 = seq!['{', 'e', 'x', 't', '}'] + t9;
    let t7 = seq!['.'] + t8;
    let t6 = seq!['{', 'D', 'D', '}'] + t7;
    let t5 = seq!['-'] + t6;
    let t4 = seq!['{', 'M', 'M', '}'] + t5;
    let t3 = seq!['-'] + t4;
    let t2 = seq!['{', 'Y', 'Y', 'Y', 'Y', '}'] + t3;
    let t1 = seq!['_'] + t2;
    let t0 = seq!['{', 'p', 'r', 'e', 'f', 'i', 'x', '}'] + t1;
    assert(candidate_template(2) =~= t0);
    lemma_fits_source(t0);
    lemma_fits_prefix(t1, seq!['$']);
    lemma_fits_separator('_', t2, seq!['$']);
    lemma_fits_year(t3, seq!['$']);
    lemma_fits_separator('-', t4, seq!['$']);
    lemma_fits_month(t5, seq!['$']);
    lemma_fits_separator('-', t6, seq!['$']);
    lemma_fits_day(t7, seq!['$']);
    lemma_fits_separator('.', t8, seq!['$']);
    lemma_fits_ext(t9, seq!['$']);
    lemma_fits_end();
    lemma_separators();
    assert(candidate_regex(2) =~= seq!['^'] + (seq!['(', '.', '+', ')'] + (seq!['_'] + (seq!['(', '\\', 'd', '{', '4', '}', ')'] + (seq!['-'] + (seq!['(', '\\', 'd', '{', '2', '}', ')'] + (seq!['-'] + (seq!['(', '\\', 'd', '{', '2', '}', ')'] + (seq!['\\', '.'] + (seq!['(', '.', '+', ')'] + (seq!['$'])))))))))));
}

proof fn lemma_candidate_fits_3()
    ensures
        with_groups(regex_source(candidate_template(3), seq![])) == candidate_regex(3),
{
    reveal_strlit("{prefix}{YYYY}{MM}{DD}.{ext}");
    reveal_strlit("^(.+)(\\d{4})(\\d{2})(\\d{2})\\.(.+)$");
    let t6 = Seq::<char>::empty();
    let t5 = seq!['{', 'e', 'x', 't', '}'] + t6;
    let t4 = seq!['.'] + t5;
    let t3 = seq!['{', 'D', 'D', '}'] + t4;
    let t2 = seq!['{', 'M', 'M', '}'] + t3;
    let t1 = seq!['{', 'Y', 'Y', 'Y', 'Y', '}'] + t2;
    let t0 = seq!['{', 'p', 'r', 'e', 'f', 'i', 'x', '}'] + t1;
    assert(candidate_template(3) =~= t0);
    lemma_fits_source(t0);
    lemma_fits_prefix(t1, seq!['$']);
    lemma_fits_year(t2, seq!['$']);
    lemma_fits_month(t3, seq!['$']);
    lemma_fits_day(t4, seq!['$']);
    lemma_fits_separator('.', t5, seq!['$']);
    lemma_fits_ext(t6, seq!['$']);
    lemma_fits_end();
    lemma_separators();
    assert(candidate_regex(3) =~= seq!['^'] + (seq!['(', '.', '+', ')'] + (seq!['(', '\\', 'd', '{', '4', '}', ')'] + (seq!['(', '\\', 'd', '{', '2', '}', ')'] + (seq!['(', '\\', 'd', '{', '2', '}', ')'] + (seq!['\\', '.'] + (seq!['(', '.', '+', ')'] + (seq!['$']))))))));
}

proof fn lemma_candidate_fits_4()
    ensures
        with_groups(regex_source(candidate_template(4), seq![])) == candidate_regex(4),
{
    reveal_strlit("{YYYY}{MM}{DD}_{prefix}.{ext}");
    reveal_strlit("^(\\d{4})(\\d{2})(\\d{2})_(.+)\\.(.+)$");
    let t7 = Seq::<char>::empty();
    let t6 = seq!['{', 'e', 'x', 't', '}'] + t7;
    let t5 = seq!['.'] + t6;
    let t4 = seq!['{', 'p', 'r', 'e', 'f', 'i', 'x', '}'] + t5;
    let t3 = seq!['_'] + t4;
    let t2 = seq!['{', 'D', 'D', '}'] + t3;
    let t1 = seq!['{', 'M', 'M', '}'] + t2;
    let t0 = seq!['{', 'Y', 'Y', 'Y', 'Y', '}'] + t1;
    assert(candidate_template(4) =~= t0);
    lemma_fits_source(t0);
    lemma_fits_year(t1, seq!['$']);
    lemma_fits_month(t2, seq!['$']);
    lemma_fits_day(t3, seq!['$']);
    lemma_fits_separator('_', t4, seq!['$']);
    lemma_fits_prefix(t5, seq!['$']);
    lemma_fits_separator('.', t6, seq!['$']);
    lemma_fits_ext(t7, seq!['$']);
    lemma_fits_end();
    lemma_separators();
    assert(candidate_regex(4) =~= seq!['^'] + (seq!['(', '\\', 'd', '{', '4', '}', ')'] + (seq!['(', '\\', 'd', '{', '2', '}', ')'] + (seq!['(', '\\', 'd', '{', '2', '}', ')'] + (seq!['_'] + (seq!['(', '.', '+', ')'] + (seq!['\\', '.'] + (seq!['(', '.', '+', ')'] + (seq!['$'])))))))));
}

proof fn lemma_candidate_fits_5()
    ensures
        with_groups(regex_source(candidate_template(5), seq![])) == candidate_regex(5),
{
    reveal_strlit("{prefix}_{YYYY}_{MM}_{DD}.{ext}");
    reveal_strlit("^(.+)_(\\d{4})_(\\d{2})_(\\d{2})\\.(.+)$");
    let t9 = Seq::<char>::empty();
    let t8 = seq!['{', 'e', 'x', 't', '}'] + t9;
    let t7 = seq!['.'] + t8;
    let t6 = seq!['{', 'D', 'D', '}'] + t7;
    let t5 = seq!['_'] + t6;
    let t4 = seq!['{', 'M', 'M', '}'] + t5;
    let t3 = seq!['_'] + t4;
    let t2 = seq!['{', 'Y', 'Y', 'Y', 'Y', '}'] + t3;
    let t1 = seq!['_'] + t2;
    let t0 = seq!['{', 'p', 'r', 'e', 'f', 'i', 'x', '}'] + t1;
    assert(candidate_template(5) =~= t0);
    lemma_fits_source(t0);
    lemma_fits_prefix(t1, seq!['$']);
    lemma_fits_separator('_', t2, seq!['$']);
    lemma_fits_year(t3, seq!['$']);
    lemma_fits_separator('_', t4, seq!['$']);
    lemma_fits_month(t5, seq!['$']);
    lemma_fits_separator('_', t6, seq!['$']);
    lemma_fits_day(t7, seq!['$']);
    lemma_fits_separator('.', t8, seq!['$']);
    lemma_fits_ext(t9, seq!['$']);
    lemma_fits_end();
    lemma_separators();
    assert(candidate_regex(5) =~= seq!['^'] + (seq!['(', '.', '+', ')'] + (seq!['_'] + (seq!['(', '\\', 'd', '{', '4', '}', ')'] + (seq!['_'] + (seq!['(', '\\', 'd', '{', '2', '}', ')'] + (seq!['_'] + (seq!['(', '\\', 'd', '{', '2', '}', ')'] + (seq!['\\', '.'] + (seq!['(', '.', '+', ')'] + (seq!['$'])))))))))));
}

/// Each candidate's template, read as a file name pattern (its date
/// placeholders becoming digit groups and its separators kept), gives the
/// candidate's own expression once the prefix and extension are groups: the
/// pattern a candidate proposes has the separators of the names it matched.
pub proof fn law_candidate_templates_fit_their_expressions(i: int)
    requires
        0 <= i < CANDIDATES,
    ensures
        with_groups(regex_source(candidate_template(i), seq![])) == candidate_regex(i),
{
    if i == 0 {
        lemma_candidate_fits_0();
    } else if i == 1 {
        lemma_candidate_fits_1();
    } else if i == 2 {
        lemma_candidate_fits_2();
    } else if i == 3 {
        lemma_candidate_fits_3();
    } else if i == 4 {
        lemma_candidate_fits_4();
    } else {
        lemma_candidate_fits_5();
    }
}

/// The capture group of candidate `i` that holds the `{prefix}` part: the
/// group after the date for the date-first candidate, the first group for
/// the others.
pub open spec fn prefix_group(i: int) -> int {
    if i == 4 {
        4
    } else {
        1
    }
}

fn prefix_group_exec(i: usize) -> (g: usize)
    requires
        i < CANDIDATES,
    ensures
        g as int == prefix_group(i as int),
{
    if i == 4 {
        4
    } else {
        1
    }
}

fn candidate(i: usize) -> (r: (&'static str, &'static str))
    requires
        i < CANDIDATES,
    ensures
        r.0@ == candidate_regex(i as int),
        r.1@ == candidate_template(i as int),
{
    if i == 0 {
        ("^(.+)_(\\d{4})(\\d{2})(\\d{2})\\.(.+)$", "{prefix}_{YYYY}{MM}{DD}.{ext}")
    } else if i == 1 {
        ("^(.+)-(\\d{4})-(\\d{2})-(\\d{2})\\.(.+)$", "{prefix}-{YYYY}-{MM}-{DD}.{ext}")
    } else if i == 2 {
        ("^(.+)_(\\d{4})-(\\d{2})-(\\d{2})\\.(.+)$", "{prefix}_{YYYY}-{MM}-{DD}.{ext}")
    } else if i == 3 {
        ("^(.+)(\\d{4})(\\d{2})(\\d{2})\\.(.+)$", "{prefix}{YYYY}{MM}{DD}.{ext}")
    } else if i == 4 {
        ("^(\\d{4})(\\d{2})(\\d{2})_(.+)\\.(.+)$", "{YYYY}{MM}{DD}_{prefix}.{ext}")
    } else {
        ("^(.+)_(\\d{4})_(\\d{2})_(\\d{2})\\.(.+)$", "{prefix}_{YYYY}_{MM}_{DD}.{ext}")
    }
}

/// The text of group `i`, or nothing.
pub open spec fn group_or_empty(caps: Seq<Option<Seq<char>>>, i: int) -> Seq<char> {
    match group_text(caps, i) {
        Some(t) => t,
        None => seq![],
    }
}

/// What a candidate found so far: how many names it matched, and the
/// prefix and extension it read.
pub struct CandidateScan {
    pub count: nat,
    pub prefix: Seq<char>,
    pub ext: Seq<char>,
}

/// The step for one name: a match counts, and while no prefix has been
/// read, the prefix is read from group `pg` and the extension from the last
/// group (each only when the template has a place for it).
pub open spec fn scan_step(
    st: CandidateScan,
    caps: Option<Seq<Option<Seq<char>>>>,
    template: Seq<char>,
    pg: int,
) -> CandidateScan {
    match caps {
        None => st,
        Some(c) => {
            if st.prefix.len() == 0 {
                CandidateScan {
                    count: st.count + 1,
                    prefix: if contains_seq(template, "{prefix}"@) {
                        group_or_empty(c, pg)
                    } else {
                        st.prefix
                    },
                    ext: if contains_seq(template, "{ext}"@) {
                        group_or_empty(c, c.len() - 1)
                    } else {
                        st.ext
                    },
                }
            } else {
                CandidateScan { count: st.count + 1, ..st }
            }
        },
    }
}

/// A candidate run over the names, in order, reading the prefix from group
/// `pg`.
pub open spec fn scan_names(
    source: Seq<char>,
    template: Seq<char>,
    pg: int,
    names: Seq<Seq<char>>,
) -> CandidateScan
    decreases names.len(),
{
    if names.len() == 0 {
        CandidateScan { count: 0, prefix: seq![], ext: seq![] }
    } else {
        scan_step(
            scan_names(source, template, pg, names.drop_last()),
            regex_captures(source, names.last()),
            template,
            pg,
        )
    }
}

/// The pattern a candidate proposes: its template with the prefix and then
/// the extension filled in.
pub open spec fn proposal(template: Seq<char>, st: CandidateScan) -> Seq<char> {
    replace_all(replace_all(template, "{prefix}"@, st.prefix), "{ext}"@, st.ext)
}

/// The best of the first `n` candidates: the first one with the most
/// matches (candidates whose expression does not compile are passed over).
pub struct Guess {
    pub best_count: nat,
    pub best: Option<Seq<char>>,
}

pub open spec fn guess_upto(n: int, names: Seq<Seq<char>>) -> Guess
    decreases n,
{
    if n <= 0 {
        Guess { best_count: 0, best: None }
    } else {
        let g = guess_upto(n - 1, names);
        let source = candidate_regex(n - 1);
        let template = candidate_template(n - 1);
        if regex_compile_error(source) is Some {
            g
        } else {
            let st = scan_names(source, template, prefix_group(n - 1), names);
            if st.count > g.best_count {
                Guess { best_count: st.count, best: Some(proposal(template, st)) }
            } else {
                g
            }
        }
    }
}

/// The guessed pattern: the best candidate's proposal, when it matches at
/// least two names.
pub open spec fn detected_pattern(entries: Seq<DirEntry>) -> Option<Seq<char>> {
    let g = guess_upto(CANDIDATES as int, visible_names(entries));
    if g.best_count >= 2 {
        g.best
    } else {
        None
    }
}

/// The texts of a list of strings.
pub open spec fn strings_view(v: Seq<String>) -> Seq<Seq<char>> {
    v.map_values(|s: String| s@)
}

/// The names of the visible plain files (see `visible_names`).
fn visible_names_exec(entries: &Vec<DirEntry>) -> (r: Vec<String>)
    ensures
        strings_view(r@) == visible_names(entries@),
{
    let mut out: Vec<String> = Vec::new();
    let mut k: usize = 0;
    while k < entries.len()
        invariant
            k <= entries@.len(),
            strings_view(out@) == visible_names(entries@.take(k as int)),
        decreases entries@.len() - k,
    {
        assert(entries@.take(k + 1).drop_last() =~= entries@.take(k as int));
        assert(entries@.take(k + 1).last() == entries@[k as int]);
        let e = &entries[k];
        let chars = chars_of(e.name.as_str());
        let hidden = chars.len() > 0 && chars[0] == '.';
        if e.is_file && !hidden {
            let ghost before = out@;
            out.push(e.name.clone());
            assert(strings_view(out@) =~= strings_view(before).push(e.name@));
        }
        k = k + 1;
    }
    assert(entries@.take(entries@.len() as int) =~= entries@);
    out
}

/// The text of group `i`, or nothing.
fn group_or_empty_exec(caps: &Vec<Option<String>>, i: usize) -> (r: Vec<char>)
    ensures
        r@ == group_or_empty(caps@.map_values(|g: Option<String>| opt_view(g)), i as int),
{
    if i < caps.len() {
        match &caps[i] {
            Some(t) => chars_of(t.as_str()),
            None => Vec::new(),
        }
    } else {
        Vec::new()
    }
}

/// Runs a candidate over the names (see `scan_names`).
fn scan_names_exec(re: &CompiledPattern, template: &str, pg: usize, names: &Vec<String>) -> (r: (
    usize,
    Vec<char>,
    Vec<char>,
))
    ensures
        ({
            let st = scan_names(re@, template@, pg as int, strings_view(names@));
            r.0 as nat == st.count && r.1@ == st.prefix && r.2@ == st.ext
        }),
{
    let ghost nv = strings_view(names@);
    let has_prefix = contains_exec(&chars_of(template), &chars_of("{prefix}"));
    let has_ext = contains_exec(&chars_of(template), &chars_of("{ext}"));
    let mut count: usize = 0;
    let mut prefix: Vec<char> = Vec::new();
    let mut ext: Vec<char> = Vec::new();
    let mut k: usize = 0;
    while k < names.len()
        invariant
            k <= names@.len(),
            nv == strings_view(names@),
            has_prefix == contains_seq(template@, "{prefix}"@),
            has_ext == contains_seq(template@, "{ext}"@),
            count <= k,
            ({
                let st = scan_names(re@, template@, pg as int, nv.take(k as int));
                count as nat == st.count && prefix@ == st.prefix && ext@ == st.ext
            }),
        decreases names@.len() - k,
    {
        assert(nv.take(k + 1).drop_last() =~= nv.take(k as int));
        assert(nv.take(k + 1).last() == names@[k as int]@);
        match re.captures(names[k].as_str()) {
            None => {},
            Some(caps) => {
                if prefix.len() == 0 {
                    if has_prefix {
                        prefix = group_or_empty_exec(&caps, pg);
                    }
                    if has_ext {
                        ext = group_or_empty_exec(&caps, caps.len() - 1);
                    }
                }
                count = count + 1;
            },
        }
        k = k + 1;
    }
    assert(nv.take(names@.len() as int) =~= nv);
    (count, prefix, ext)
}

/// Guesses the file name pattern of the reports among the entries of a
/// directory: each candidate is run over the names of the visible plain
/// files, the first with the most matches proposes its template with the
/// prefix (read from the group that `{prefix}` stands for) and the
/// extension it read, and the proposal is kept when it matched
/// at least two names.
pub fn detect_pattern(entries: &Vec<DirEntry>) -> (r: Option<String>)
    ensures
        opt_view(r) == detected_pattern(entries@),
{
    let names = visible_names_exec(entries);
    let ghost nv = strings_view(names@);
    let mut best_count: usize = 0;
    let mut best: Option<String> = None;
    let mut i: usize = 0;
    proof {
        reveal_strlit("{prefix}");
        reveal_strlit("{ext}");
    }
    while i < CANDIDATES
        invariant
            i <= CANDIDATES,
            nv == strings_view(names@),
            nv == visible_names(entries@),
            "{prefix}"@.len() > 0,
            "{ext}"@.len() > 0,
            ({
                let g = guess_upto(i as int, nv);
                best_count as nat == g.best_count && opt_view(best) == g.best
            }),
        decreases CANDIDATES - i,
    {
        let (source, template) = candidate(i);
        match compile_pattern(source) {
            Err(_) => {},
            Ok(re) => {
                let (count, prefix, ext) = scan_names_exec(&re, template, prefix_group_exec(i), &names);
                if count > best_count {
                    best_count = count;
                    let filled = replace_exec(&chars_of(template), &chars_of("{prefix}"), &prefix);
                    let filled = replace_exec(&filled, &chars_of("{ext}"), &ext);
                    best = Some(string_of(&filled));
                }
            },
        }
        i = i + 1;
    }
    if best_count >= 2 {
        best
    } else {
        None
    }
}

} // verus!
