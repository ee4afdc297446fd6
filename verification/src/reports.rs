//! Report files in the working directory: recognizing their names by the
//! file name pattern, and summarizing what was found.

use vstd::prelude::*;
use crate::pattern::{
    compile_pattern, escape, regex_captures, regex_compile_error, regex_escaped, CompiledPattern,
};
use crate::text::{
    append_chars, chars_of, decimal2, decimal2_exec, find, find_char, lemma_find, opt_view,
    signed_decimal, signed_decimal_exec, string_of, subvec,
};

verus! {

// ---------------------------------------------------------------------
// From file name pattern to regular expression
// ---------------------------------------------------------------------

/// Characters that stand for themselves only when escaped.
pub open spec fn is_special(c: char) -> bool {
    ".+*?^$()[]{}|\\"@.contains(c)
}

/// A literal character of the pattern, escaped when it is special.
pub open spec fn literal(c: char) -> Seq<char> {
    if is_special(c) {
        seq!['\\', c]
    } else {
        seq![c]
    }
}

/// What a placeholder becomes: the escaped app name for `name`, a group of
/// four digits for `YYYY`, a group of two digits for `YY`, `MM` and `DD`,
/// and the placeholder itself, braces included, for anything else.
pub open spec fn placeholder_regex(name: Seq<char>, app_name: Seq<char>) -> Seq<char> {
    if name == "name"@ {
        regex_escaped(app_name)
    } else if name == "YYYY"@ {
        "(\\d{4})"@
    } else if name == "YY"@ || name == "MM"@ || name == "DD"@ {
        "(\\d{2})"@
    } else {
        seq!['{'] + name + seq!['}']
    }
}

/// The regular expression for the pattern text `p`: each `{...}`
/// placeholder (running to the end when unclosed) replaced as
/// `placeholder_regex` says, and every other character taken literally.
pub open spec fn regex_body(p: Seq<char>, app_name: Seq<char>) -> Seq<char>
    decreases p.len(),
{
    if p.len() == 0 {
        seq![]
    } else if p[0] == '{' {
        let rest = p.skip(1);
        proof {
            lemma_find(rest, seq!['}']);
        }
        match find(rest, seq!['}']) {
            Some(k) => placeholder_regex(rest.take(k), app_name) + regex_body(
                rest.skip(k + 1),
                app_name,
            ),
            None => placeholder_regex(rest, app_name),
        }
    } else {
        literal(p[0]) + regex_body(p.skip(1), app_name)
    }
}

/// The regular expression that whole file names must match.
pub open spec fn regex_source(pattern: Seq<char>, app_name: Seq<char>) -> Seq<char> {
    seq!['^'] + regex_body(pattern, app_name) + seq!['$']
}

fn is_special_exec(c: char) -> (b: bool)
    ensures
        b == is_special(c),
{
    let specials = chars_of(".+*?^$()[]{}|\\");
    crate::text::contains_char(&specials, c)
}

fn placeholder_regex_exec(name: &Vec<char>, app_name: &str) -> (r: Vec<char>)
    ensures
        r@ == placeholder_regex(name@, app_name@),
{
    if same(name, "name") {
        chars_of(escape(app_name).as_str())
    } else if same(name, "YYYY") {
        chars_of("(\\d{4})")
    } else if same(name, "YY") || same(name, "MM") || same(name, "DD") {
        chars_of("(\\d{2})")
    } else {
        let mut r = vec!['{'];
        append_chars(&mut r, name);
        r.push('}');
        assert(r@ =~= seq!['{'] + name@ + seq!['}']);
        r
    }
}

/// Tests whether `v` holds the characters of `s`.
fn same(v: &Vec<char>, s: &str) -> (b: bool)
    ensures
        b == (v@ == s@),
{
    crate::text::same_chars(v, &chars_of(s))
}

/// The regular expression for the file name pattern (see `regex_source`).
pub fn file_regex_source(pattern: &str, app_name: &str) -> (r: String)
    ensures
        r@ == regex_source(pattern@, app_name@),
{
    let chars = chars_of(pattern);
    let n = chars.len();
    let mut out: Vec<char> = vec!['^'];
    let mut i: usize = 0;
    assert(chars@.skip(0) =~= chars@);
    while i < n
        invariant
            n == chars@.len(),
            i <= n,
            out@ + regex_body(chars@.skip(i as int), app_name@) == seq!['^'] + regex_body(
                chars@,
                app_name@,
            ),
        decreases n - i,
    {
        let ghost rest_i = chars@.skip(i as int);
        if chars[i] == '{' {
            let rest = subvec(&chars, i + 1, n);
            assert(rest@ =~= rest_i.skip(1));
            proof {
                lemma_find(rest@, seq!['}']);
            }
            match find_char(&rest, '}') {
                Some(k) => {
                    let name = subvec(&rest, 0, k);
                    assert(name@ =~= rest@.take(k as int));
                    append_chars(&mut out, &placeholder_regex_exec(&name, app_name));
                    assert(rest@.skip(k + 1) =~= chars@.skip(i + 1 + k + 1));
                    i = i + 1 + k + 1;
                },
                None => {
                    append_chars(&mut out, &placeholder_regex_exec(&rest, app_name));
                    assert(chars@.skip(n as int) =~= Seq::<char>::empty());
                    i = n;
                },
            }
        } else {
            let c = chars[i];
            if is_special_exec(c) {
                out.push('\\');
            }
            out.push(c);
            assert(rest_i.skip(1) =~= chars@.skip(i + 1));
            i = i + 1;
        }
        assert(out@ + regex_body(chars@.skip(i as int), app_name@) =~= seq!['^'] + regex_body(
            chars@,
            app_name@,
        ));
    }
    assert(chars@.skip(n as int) =~= Seq::<char>::empty());
    out.push('$');
    assert(out@ =~= regex_source(pattern@, app_name@));
    string_of(&out)
}

/// Compiles the regular expression for a file name pattern; a pattern the
/// `regex` crate refuses gives `Invalid file pattern: ` and its message.
pub fn build_regex(pattern: &str, app_name: &str) -> (r: Result<CompiledPattern, String>)
    ensures
        r is Ok <==> regex_compile_error(regex_source(pattern@, app_name@)) is None,
        r matches Ok(p) ==> p@ == regex_source(pattern@, app_name@),
        r matches Err(e) ==> e@ == "Invalid file pattern: "@ + regex_compile_error(
            regex_source(pattern@, app_name@),
        )->0,
{
    let source = file_regex_source(pattern, app_name);
    match compile_pattern(source.as_str()) {
        Ok(p) => Ok(p),
        Err(e) => {
            let mut msg = chars_of("Invalid file pattern: ");
            append_chars(&mut msg, &chars_of(e.as_str()));
            Err(string_of(&msg))
        },
    }
}


// ---------------------------------------------------------------------
// Placeholders of the pattern
// ---------------------------------------------------------------------

/// `c` is a brace.
pub open spec fn is_brace(c: char) -> bool {
    c == '{' || c == '}'
}

/// The first brace of `s` at or after `i`.
pub open spec fn brace_from(s: Seq<char>, i: int) -> Option<int>
    decreases s.len() - i,
{
    if i < 0 || i >= s.len() {
        None
    } else if is_brace(s[i]) {
        Some(i)
    } else {
        brace_from(s, i + 1)
    }
}

pub proof fn lemma_brace_from(s: Seq<char>, i: int)
    requires
        0 <= i,
    ensures
        brace_from(s, i) matches Some(k) ==> i <= k < s.len() && is_brace(s[k]) && forall|j: int|
            i <= j < k ==> !is_brace(#[trigger] s[j]),
        brace_from(s, i) is None ==> forall|j: int| i <= j < s.len() ==> !is_brace(#[trigger] s[j]),
    decreases s.len() - i,
{
    if i < s.len() && !is_brace(s[i]) {
        lemma_brace_from(s, i + 1);
    }
}

/// The pieces of `s` between braces (`str::split` on `{` and `}`).
pub open spec fn split_braces(s: Seq<char>) -> Seq<Seq<char>>
    decreases s.len(),
{
    proof {
        lemma_brace_from(s, 0);
    }
    match brace_from(s, 0) {
        None => seq![s],
        Some(k) => seq![s.take(k)] + split_braces(s.skip(k + 1)),
    }
}

/// The placeholder names of a pattern: every second piece between braces,
/// starting with the second.
pub open spec fn placeholders(pattern: Seq<char>) -> Seq<Seq<char>> {
    let pieces = split_braces(pattern);
    Seq::new(pieces.len() / 2, |k: int| pieces[2 * k + 1])
}

/// The pieces of `s` between braces.
fn split_braces_exec(s: &Vec<char>) -> (r: Vec<Vec<char>>)
    ensures
        r@.map_values(|v: Vec<char>| v@) == split_braces(s@),
{
    let n = s.len();
    let mut pieces: Vec<Vec<char>> = Vec::new();
    let mut start: usize = 0;
    let mut i: usize = 0;
    assert(s@.skip(0) =~= s@);
    while i < n
        invariant
            n == s@.len(),
            start <= i <= n,
            forall|j: int| start <= j < i ==> !is_brace(#[trigger] s@[j]),
            pieces@.map_values(|v: Vec<char>| v@) + split_braces(s@.skip(start as int))
                == split_braces(s@),
        decreases n - i,
    {
        if s[i] == '{' || s[i] == '}' {
            let ghost rest = s@.skip(start as int);
            proof {
                lemma_brace_from(rest, 0);
                assert forall|j: int| 0 <= j < i - start implies !is_brace(#[trigger] rest[j]) by {
                    assert(rest[j] == s@[start + j]);
                }
                assert(rest[i - start] == s@[i as int]);
                assert(brace_from(rest, 0) == Some((i - start) as int)) by {
                    lemma_brace_is_first(rest, (i - start) as int);
                }
                assert(rest.skip(i - start + 1) =~= s@.skip(i + 1));
                assert(rest.take(i - start) =~= s@.subrange(start as int, i as int));
            }
            let piece = subvec(s, start, i);
            let ghost before = pieces@;
            pieces.push(piece);
            assert(pieces@.map_values(|v: Vec<char>| v@) =~= before.map_values(|v: Vec<char>| v@).push(
                piece@,
            ));
            start = i + 1;
        }
        i = i + 1;
    }
    let ghost rest = s@.skip(start as int);
    proof {
        lemma_brace_from(rest, 0);
        assert forall|j: int| 0 <= j < rest.len() implies !is_brace(#[trigger] rest[j]) by {
            assert(rest[j] == s@[start + j]);
        }
        if brace_from(rest, 0) is Some {
            let k = brace_from(rest, 0)->0;
            assert(is_brace(rest[k]));
        }
    }
    let piece = subvec(s, start, n);
    assert(piece@ =~= rest);
    let ghost before = pieces@;
    pieces.push(piece);
    assert(pieces@.map_values(|v: Vec<char>| v@) =~= before.map_values(|v: Vec<char>| v@).push(
        piece@,
    ));
    pieces
}

proof fn lemma_brace_is_first(s: Seq<char>, k: int)
    requires
        0 <= k < s.len(),
        is_brace(s[k]),
        forall|j: int| 0 <= j < k ==> !is_brace(#[trigger] s[j]),
    ensures
        brace_from(s, 0) == Some(k),
{
    lemma_brace_from(s, 0);
    if let Some(k2) = brace_from(s, 0) {
        if k2 < k {
            assert(!is_brace(s[k2]));
        }
    }
}

// ---------------------------------------------------------------------
// Reading numbers
// ---------------------------------------------------------------------

/// `c` is an ASCII digit.
pub open spec fn is_ascii_digit(c: char) -> bool {
    '0' as u32 <= c as u32 <= '9' as u32
}

/// The value of a string of ASCII digits.
pub open spec fn digits_value(s: Seq<char>) -> nat
    decreases s.len(),
{
    if s.len() == 0 {
        0
    } else {
        digits_value(s.drop_last()) * 10 + ((s.last() as u32) - ('0' as u32)) as nat
    }
}

/// `s` is a non-empty string of ASCII digits.
pub open spec fn is_numeral(s: Seq<char>) -> bool {
    s.len() > 0 && forall|i: int| 0 <= i < s.len() ==> is_ascii_digit(#[trigger] s[i])
}

/// `s` without a leading `+`.
pub open spec fn unsigned_body(s: Seq<char>) -> Seq<char> {
    if s.len() > 0 && s[0] == '+' {
        s.skip(1)
    } else {
        s
    }
}

/// What `str::parse::<u32>` gives: an optional `+` then ASCII digits, whose
/// value fits.
pub open spec fn parse_u32(s: Seq<char>) -> Option<u32> {
    let body = unsigned_body(s);
    if is_numeral(body) && digits_value(body) <= u32::MAX {
        Some(digits_value(body) as u32)
    } else {
        None
    }
}

/// What `str::parse::<i32>` gives: an optional `+` or `-` then ASCII
/// digits, whose value fits.
pub open spec fn parse_i32(s: Seq<char>) -> Option<i32> {
    if s.len() > 0 && s[0] == '-' {
        let body = s.skip(1);
        if is_numeral(body) && digits_value(body) <= 0x8000_0000 {
            Some((0 - digits_value(body)) as i32)
        } else {
            None
        }
    } else {
        let body = unsigned_body(s);
        if is_numeral(body) && digits_value(body) <= i32::MAX {
            Some(digits_value(body) as i32)
        } else {
            None
        }
    }
}

/// The value of the digits of `s` from `from` on, when they are all ASCII
/// digits, there is at least one, and the value is at most `limit`.
fn numeral_value(s: &Vec<char>, from: usize, limit: u64) -> (r: Option<u64>)
    requires
        from <= s@.len(),
        limit <= 0x1_0000_0000,
    ensures
        r is Some <==> is_numeral(s@.skip(from as int)) && digits_value(s@.skip(from as int))
            <= limit,
        r matches Some(v) ==> v == digits_value(s@.skip(from as int)),
{
    let n = s.len();
    if from == n {
        return None;
    }
    let mut v: u64 = 0;
    let mut i: usize = from;
    while i < n
        invariant
            from <= i <= n == s@.len(),
            limit <= 0x1_0000_0000,
            v <= limit,
            v == digits_value(s@.subrange(from as int, i as int)),
            forall|j: int| from <= j < i ==> is_ascii_digit(#[trigger] s@[j]),
        decreases n - i,
    {
        let c = s[i];
        assert(s@.subrange(from as int, i + 1).drop_last() =~= s@.subrange(from as int, i as int));
        if !((c as u32) >= 48 && (c as u32) <= 57) {
            assert(s@.skip(from as int)[i - from] == c);
            return None;
        }
        let d = ((c as u32) - 48) as u64;
        let next = v * 10 + d;
        if next > limit {
            proof {
                assert(s@.skip(from as int).take(i + 1 - from) =~= s@.subrange(
                    from as int,
                    i + 1,
                ));
                if is_numeral(s@.skip(from as int)) {
                    lemma_digits_value_prefix(s@.skip(from as int), i + 1 - from);
                }
            }
            return None;
        }
        v = next;
        i = i + 1;
    }
    assert(s@.subrange(from as int, n as int) =~= s@.skip(from as int));
    Some(v)
}

/// A numeral's value is at least that of any of its prefixes.
proof fn lemma_digits_value_prefix(s: Seq<char>, k: int)
    requires
        0 <= k <= s.len(),
        forall|i: int| 0 <= i < s.len() ==> is_ascii_digit(#[trigger] s[i]),
    ensures
        digits_value(s.take(k)) <= digits_value(s),
    decreases s.len() - k,
{
    if k < s.len() {
        lemma_digits_value_prefix(s, k + 1);
        assert(s.take(k + 1).drop_last() =~= s.take(k));
    } else {
        assert(s.take(k) =~= s);
    }
}

/// Reads a `u32` like `str::parse::<u32>`.
pub fn parse_u32_exec(s: &str) -> (r: Option<u32>)
    ensures
        r == parse_u32(s@),
{
    let v = chars_of(s);
    let from: usize = if v.len() > 0 && v[0] == '+' {
        1
    } else {
        0
    };
    assert(unsigned_body(s@) =~= v@.skip(from as int));
    match numeral_value(&v, from, 0xFFFF_FFFF) {
        Some(x) => Some(x as u32),
        None => None,
    }
}

/// Reads an `i32` like `str::parse::<i32>`.
pub fn parse_i32_exec(s: &str) -> (r: Option<i32>)
    ensures
        r == parse_i32(s@),
{
    let v = chars_of(s);
    if v.len() > 0 && v[0] == '-' {
        match numeral_value(&v, 1, 0x8000_0000) {
            Some(x) => {
                let r = (0 - (x as i64)) as i32;
                Some(r)
            },
            None => None,
        }
    } else {
        let from: usize = if v.len() > 0 && v[0] == '+' {
            1
        } else {
            0
        };
        assert(unsigned_body(s@) =~= v@.skip(from as int));
        match numeral_value(&v, from, 0x7FFF_FFFF) {
            Some(x) => Some(x as i32),
            None => None,
        }
    }
}


// ---------------------------------------------------------------------
// Dates from file names
// ---------------------------------------------------------------------

/// The text of capture group `i`, if it exists and took part in the match.
pub open spec fn group_text(caps: Seq<Option<Seq<char>>>, i: int) -> Option<Seq<char>> {
    if 0 <= i < caps.len() {
        caps[i]
    } else {
        None
    }
}

/// A group read as an `i32`, or 0.
pub open spec fn group_i32(caps: Seq<Option<Seq<char>>>, i: int) -> i32 {
    match group_text(caps, i) {
        Some(t) => match parse_i32(t) {
            Some(v) => v,
            None => 0,
        },
        None => 0,
    }
}

/// A group read as a `u32`, or 0.
pub open spec fn group_u32(caps: Seq<Option<Seq<char>>>, i: int) -> u32 {
    match group_text(caps, i) {
        Some(t) => match parse_u32(t) {
            Some(v) => v,
            None => 0,
        },
        None => 0,
    }
}

/// Reading the date from a match: the next group to read, then the year,
/// month and day found so far.
pub struct DateScan {
    pub next_group: int,
    pub year: i32,
    pub month: u32,
    pub day: u32,
}

/// The step for one placeholder, while groups remain (the next group is
/// at most the number of groups): `YYYY` reads the year, `YY` the year
/// after 2000, `MM` the month and `DD` the day, each from the next group;
/// `name` reads nothing; any other placeholder skips a group.
pub open spec fn scan_placeholder(st: DateScan, name: Seq<char>, caps: Seq<Option<Seq<char>>>) -> DateScan {
    let g = st.next_group;
    if g <= caps.len() {
        if name == "YYYY"@ {
            DateScan { next_group: g + 1, year: group_i32(caps, g), ..st }
        } else if name == "YY"@ {
            DateScan { next_group: g + 1, year: group_i32(caps, g).wrapping_add(2000), ..st }
        } else if name == "MM"@ {
            DateScan { next_group: g + 1, month: group_u32(caps, g), ..st }
        } else if name == "DD"@ {
            DateScan { next_group: g + 1, day: group_u32(caps, g), ..st }
        } else if name == "name"@ {
            st
        } else {
            DateScan { next_group: g + 1, ..st }
        }
    } else {
        st
    }
}

/// The date read from a match by the placeholders, in order, starting at
/// group 1 with nothing found.
pub open spec fn scan_date(names: Seq<Seq<char>>, caps: Seq<Option<Seq<char>>>) -> DateScan
    decreases names.len(),
{
    if names.len() == 0 {
        DateScan { next_group: 1, year: 0, month: 0, day: 0 }
    } else {
        scan_placeholder(scan_date(names.drop_last(), caps), names.last(), caps)
    }
}

/// `YYYY-MM-DD`, the year as it is and the month and day with two digits.
pub open spec fn date_text(year: i32, month: u32, day: u32) -> Seq<char> {
    signed_decimal(year as int) + seq!['-'] + decimal2(month as nat) + seq!['-'] + decimal2(
        day as nat,
    )
}

/// A file of the working directory.
pub struct ReportFile {
    pub name: String,
    pub path: String,
    pub is_file: bool,
    pub size: u64,
    /// The size as shown to the user.
    pub size_display: String,
}

/// A recognized report.
#[derive(Debug, Clone)]
pub struct ReportInfo {
    pub filename: String,
    pub path: String,
    /// `YYYY-MM-DD`
    pub date: String,
    pub year: i32,
    pub month: u32,
    pub day: u32,
    pub size: u64,
    pub size_display: String,
}

/// A recognized report, as values.
pub struct ReportView {
    pub filename: Seq<char>,
    pub path: Seq<char>,
    pub date: Seq<char>,
    pub year: i32,
    pub month: u32,
    pub day: u32,
    pub size: u64,
    pub size_display: Seq<char>,
}

impl View for ReportInfo {
    type V = ReportView;

    open spec fn view(&self) -> ReportView {
        ReportView {
            filename: self.filename@,
            path: self.path@,
            date: self.date@,
            year: self.year,
            month: self.month,
            day: self.day,
            size: self.size,
            size_display: self.size_display@,
        }
    }
}

/// The views of a list of reports.
pub open spec fn reports_view(v: Seq<ReportInfo>) -> Seq<ReportView> {
    v.map_values(|r: ReportInfo| r@)
}

/// The report a file stands for: a file whose name the expression `source`
/// matches, with a year, month and day (none of them 0) read from the
/// groups by the placeholders of `pattern`.
pub open spec fn report_of(f: ReportFile, source: Seq<char>, pattern: Seq<char>) -> Option<ReportView> {
    if !f.is_file {
        None
    } else {
        match regex_captures(source, f.name@) {
            None => None,
            Some(caps) => {
                let d = scan_date(placeholders(pattern), caps);
                if d.year == 0 || d.month == 0 || d.day == 0 {
                    None
                } else {
                    Some(
                        ReportView {
                            filename: f.name@,
                            path: f.path@,
                            date: date_text(d.year, d.month, d.day),
                            year: d.year,
                            month: d.month,
                            day: d.day,
                            size: f.size,
                            size_display: f.size_display@,
                        },
                    )
                }
            },
        }
    }
}

/// The reports among the files, in listing order.
pub open spec fn reports_in(files: Seq<ReportFile>, source: Seq<char>, pattern: Seq<char>) -> Seq<ReportView>
    decreases files.len(),
{
    if files.len() == 0 {
        seq![]
    } else {
        let rest = reports_in(files.drop_last(), source, pattern);
        match report_of(files.last(), source, pattern) {
            Some(r) => rest.push(r),
            None => rest,
        }
    }
}

fn group_text_exec(caps: &Vec<Option<String>>, i: usize) -> (r: Option<&String>)
    ensures
        match r {
            Some(t) => group_text(caps@.map_values(|g: Option<String>| opt_view(g)), i as int)
                == Some(t@),
            None => group_text(caps@.map_values(|g: Option<String>| opt_view(g)), i as int) is None,
        },
{
    if i < caps.len() {
        match &caps[i] {
            Some(t) => Some(t),
            None => None,
        }
    } else {
        None
    }
}

/// Reads the date from the groups of a match (see `scan_date`).
fn scan_date_exec(names: &Vec<Vec<char>>, caps: &Vec<Option<String>>) -> (r: (i32, u32, u32))
    ensures
        ({
            let d = scan_date(
                names@.map_values(|v: Vec<char>| v@),
                caps@.map_values(|g: Option<String>| opt_view(g)),
            );
            r == (d.year, d.month, d.day)
        }),
{
    let ghost cv = caps@.map_values(|g: Option<String>| opt_view(g));
    let ghost nv = names@.map_values(|v: Vec<char>| v@);
    let cl = caps.len();
    assert(cl == caps@.len());
    let mut g: u128 = 1;
    let mut year: i32 = 0;
    let mut month: u32 = 0;
    let mut day: u32 = 0;
    let mut k: usize = 0;
    while k < names.len()
        invariant
            k <= names@.len(),
            nv == names@.map_values(|v: Vec<char>| v@),
            cv == caps@.map_values(|g: Option<String>| opt_view(g)),
            g <= k + 1,
            caps@.len() <= usize::MAX,
            scan_date(nv.take(k as int), cv) == (DateScan {
                next_group: g as int,
                year,
                month,
                day,
            }),
        decreases names@.len() - k,
    {
        assert(nv.take(k + 1).drop_last() =~= nv.take(k as int));
        assert(nv.take(k + 1).last() == names@[k as int]@);
        let name = &names[k];
        if g <= caps.len() as u128 {
            if same(name, "YYYY") {
                year = match group_text_exec(caps, g as usize) {
                    Some(t) => match parse_i32_exec(t.as_str()) {
                        Some(v) => v,
                        None => 0,
                    },
                    None => 0,
                };
                g = g + 1;
            } else if same(name, "YY") {
                let yy = match group_text_exec(caps, g as usize) {
                    Some(t) => match parse_i32_exec(t.as_str()) {
                        Some(v) => v,
                        None => 0,
                    },
                    None => 0,
                };
                year = yy.wrapping_add(2000);
                g = g + 1;
            } else if same(name, "MM") {
                month = match group_text_exec(caps, g as usize) {
                    Some(t) => match parse_u32_exec(t.as_str()) {
                        Some(v) => v,
                        None => 0,
                    },
                    None => 0,
                };
                g = g + 1;
            } else if same(name, "DD") {
                day = match group_text_exec(caps, g as usize) {
                    Some(t) => match parse_u32_exec(t.as_str()) {
                        Some(v) => v,
                        None => 0,
                    },
                    None => 0,
                };
                g = g + 1;
            } else if same(name, "name") {
            } else {
                g = g + 1;
            }
        }
        k = k + 1;
    }
    assert(nv.take(names@.len() as int) =~= nv);
    (year, month, day)
}

/// Writes a date as `YYYY-MM-DD` (see `date_text`).
fn date_text_exec(year: i32, month: u32, day: u32) -> (r: String)
    ensures
        r@ == date_text(year, month, day),
{
    let mut t = signed_decimal_exec(year as i64);
    t.push('-');
    append_chars(&mut t, &decimal2_exec(month as u64));
    t.push('-');
    append_chars(&mut t, &decimal2_exec(day as u64));
    assert(t@ =~= date_text(year, month, day));
    string_of(&t)
}

/// The report the file stands for, if any (see `report_of`).
fn report_of_exec(f: &ReportFile, re: &CompiledPattern, names: &Vec<Vec<char>>, pattern: Ghost<Seq<char>>) -> (r: Option<ReportInfo>)
    requires
        names@.map_values(|v: Vec<char>| v@) == placeholders(pattern@),
    ensures
        match r {
            Some(info) => report_of(*f, re@, pattern@) == Some(info@),
            None => report_of(*f, re@, pattern@) is None,
        },
{
    if !f.is_file {
        return None;
    }
    match re.captures(f.name.as_str()) {
        None => None,
        Some(caps) => {
            let (year, month, day) = scan_date_exec(names, &caps);
            if year == 0 || month == 0 || day == 0 {
                None
            } else {
                Some(
                    ReportInfo {
                        filename: f.name.clone(),
                        path: f.path.clone(),
                        date: date_text_exec(year, month, day),
                        year,
                        month,
                        day,
                        size: f.size,
                        size_display: f.size_display.clone(),
                    },
                )
            }
        },
    }
}

/// The placeholder names of a pattern (see `placeholders`).
fn placeholders_exec(pattern: &str) -> (r: Vec<Vec<char>>)
    ensures
        r@.map_values(|v: Vec<char>| v@) == placeholders(pattern@),
{
    let pieces = split_braces_exec(&chars_of(pattern));
    let ghost pv = pieces@.map_values(|v: Vec<char>| v@);
    let mut names: Vec<Vec<char>> = Vec::new();
    let mut idx: usize = 1;
    while idx < pieces.len()
        invariant
            pv == pieces@.map_values(|v: Vec<char>| v@),
            pv == split_braces(pattern@),
            1 <= idx <= pieces@.len() + 1,
            idx % 2 == 1,
            names@.len() == (idx - 1) / 2,
            (idx - 1) / 2 <= pv.len() / 2,
            forall|k: int|
                0 <= k < names@.len() ==> #[trigger] names@[k]@ == pv[2 * k + 1],
        decreases pieces@.len() + 1 - idx,
    {
        names.push(pieces[idx].clone());
        assert(names@[names@.len() - 1]@ == pv[idx as int]);
        idx = idx + 2;
    }
    let r = names;
    assert(r@.map_values(|v: Vec<char>| v@) =~= placeholders(pattern@));
    r
}


// ---------------------------------------------------------------------
// Collecting, ordering and summarizing reports
// ---------------------------------------------------------------------

/// Collects the reports among the files (see `reports_in`).
fn reports_in_exec(files: &Vec<ReportFile>, re: &CompiledPattern, pattern: &str) -> (r: Vec<ReportInfo>)
    ensures
        reports_view(r@) == reports_in(files@, re@, pattern@),
{
    let names = placeholders_exec(pattern);
    let mut found: Vec<ReportInfo> = Vec::new();
    let mut i: usize = 0;
    while i < files.len()
        invariant
            i <= files@.len(),
            names@.map_values(|v: Vec<char>| v@) == placeholders(pattern@),
            reports_view(found@) == reports_in(files@.take(i as int), re@, pattern@),
        decreases files@.len() - i,
    {
        assert(files@.take(i + 1).drop_last() =~= files@.take(i as int));
        assert(files@.take(i + 1).last() == files@[i as int]);
        match report_of_exec(&files[i], re, &names, Ghost(pattern@)) {
            Some(info) => {
                let ghost before = found@;
                found.push(info);
                assert(reports_view(found@) =~= reports_view(before).push(info@));
            },
            None => {},
        }
        i = i + 1;
    }
    assert(files@.take(files@.len() as int) =~= files@);
    found
}

/// `a` comes before `b` in the order of `String`'s `Ord` (code point by
/// code point, a proper prefix first).
pub open spec fn text_less(a: Seq<char>, b: Seq<char>) -> bool
    decreases a.len(),
{
    if a.len() == 0 {
        b.len() > 0
    } else if b.len() == 0 {
        false
    } else if (a[0] as u32) < (b[0] as u32) {
        true
    } else if (a[0] as u32) > (b[0] as u32) {
        false
    } else {
        text_less(a.skip(1), b.skip(1))
    }
}

fn text_less_exec(a: &String, b: &String) -> (r: bool)
    ensures
        r == text_less(a@, b@),
{
    let x = chars_of(a.as_str());
    let y = chars_of(b.as_str());
    let mut i: usize = 0;
    assert(x@.skip(0) =~= a@);
    assert(y@.skip(0) =~= b@);
    while i < x.len() && i < y.len() && (x[i] as u32) == (y[i] as u32)
        invariant
            i <= x@.len(),
            i <= y@.len(),
            text_less(a@, b@) == text_less(x@.skip(i as int), y@.skip(i as int)),
        decreases x@.len() - i,
    {
        assert(x@.skip(i as int).skip(1) =~= x@.skip(i + 1));
        assert(y@.skip(i as int).skip(1) =~= y@.skip(i + 1));
        i = i + 1;
    }
    let ghost xs = x@.skip(i as int);
    let ghost ys = y@.skip(i as int);
    if i == x.len() {
        assert(xs.len() == 0);
        assert(text_less(xs, ys) == (ys.len() > 0));
        i < y.len()
    } else if i == y.len() {
        assert(ys.len() == 0 && xs.len() > 0);
        assert(!text_less(xs, ys));
        false
    } else {
        let c = x[i];
        let d = y[i];
        assert(xs[0] == c && ys[0] == d && c as u32 != d as u32);
        assert(text_less(xs, ys) == ((c as u32) < (d as u32)));
        (c as u32) < (d as u32)
    }
}

/// Where `x` goes among reports already in order: before the first one
/// at or after `i` with an earlier date.
pub open spec fn insert_at(t: Seq<ReportView>, x: ReportView, i: int) -> int
    decreases t.len() - i,
{
    if i < 0 || i >= t.len() || text_less(t[i].date, x.date) {
        i
    } else {
        insert_at(t, x, i + 1)
    }
}

/// The reports, newest date first, reports with equal dates in their
/// listed order (a stable sort by date, descending).
pub open spec fn newest_first(s: Seq<ReportView>) -> Seq<ReportView>
    decreases s.len(),
{
    if s.len() == 0 {
        seq![]
    } else {
        let t = newest_first(s.drop_last());
        t.insert(insert_at(t, s.last(), 0), s.last())
    }
}

proof fn lemma_insert_at_bounds(t: Seq<ReportView>, x: ReportView, i: int)
    requires
        0 <= i <= t.len(),
    ensures
        i <= insert_at(t, x, i) <= t.len(),
    decreases t.len() - i,
{
    if i < t.len() && !text_less(t[i].date, x.date) {
        lemma_insert_at_bounds(t, x, i + 1);
    }
}

/// A copy of a report.
fn copy_report(x: &ReportInfo) -> (c: ReportInfo)
    ensures
        c@ == x@,
{
    ReportInfo {
        filename: x.filename.clone(),
        path: x.path.clone(),
        date: x.date.clone(),
        year: x.year,
        month: x.month,
        day: x.day,
        size: x.size,
        size_display: x.size_display.clone(),
    }
}

/// Where `x` goes among the reports of `out` (see `insert_at`).
fn insert_position(out: &Vec<ReportInfo>, x: &ReportInfo) -> (p: usize)
    ensures
        p as int == insert_at(reports_view(out@), x@, 0),
{
    let ghost t = reports_view(out@);
    let mut p: usize = 0;
    while p < out.len() && !text_less_exec(&out[p].date, &x.date)
        invariant
            p <= out@.len(),
            t == reports_view(out@),
            insert_at(t, x@, 0) == insert_at(t, x@, p as int),
        decreases out@.len() - p,
    {
        assert(t[p as int] == out@[p as int]@);
        p = p + 1;
    }
    if p < out.len() {
        assert(t[p as int] == out@[p as int]@);
    }
    p
}

/// Every report before the insertion point has a date at or after that of
/// `x`; the report at the insertion point, if any, an earlier one.
proof fn lemma_insert_at(t: Seq<ReportView>, x: ReportView, i: int)
    requires
        0 <= i <= t.len(),
    ensures
        i <= insert_at(t, x, i) <= t.len(),
        forall|k: int| i <= k < insert_at(t, x, i) ==> !text_less(#[trigger] t[k].date, x.date),
        insert_at(t, x, i) < t.len() ==> text_less(t[insert_at(t, x, i)].date, x.date),
    decreases t.len() - i,
{
    if i < t.len() && !text_less(t[i].date, x.date) {
        lemma_insert_at(t, x, i + 1);
    }
}

/// No text comes before itself.
pub proof fn lemma_text_less_irreflexive(a: Seq<char>)
    ensures
        !text_less(a, a),
    decreases a.len(),
{
    if a.len() > 0 {
        lemma_text_less_irreflexive(a.skip(1));
    }
}

/// The order of texts is transitive.
pub proof fn lemma_text_less_transitive(a: Seq<char>, b: Seq<char>, c: Seq<char>)
    requires
        text_less(a, b),
        text_less(b, c),
    ensures
        text_less(a, c),
    decreases a.len(),
{
    if a.len() > 0 && b.len() > 0 && c.len() > 0 {
        if a[0] as u32 == b[0] as u32 && b[0] as u32 == c[0] as u32 {
            lemma_text_less_transitive(a.skip(1), b.skip(1), c.skip(1));
        }
    }
}

/// The reports newest first are the same reports, and no report comes
/// before one with a later date.
pub proof fn law_newest_first_is_sorted(s: Seq<ReportView>)
    ensures
        newest_first(s).to_multiset() == s.to_multiset(),
        forall|i: int, j: int|
            0 <= i < j < newest_first(s).len() ==> !text_less(
                #[trigger] newest_first(s)[i].date,
                #[trigger] newest_first(s)[j].date,
            ),
    decreases s.len(),
{
    if s.len() > 0 {
        let t = newest_first(s.drop_last());
        let x = s.last();
        law_newest_first_is_sorted(s.drop_last());
        lemma_insert_at(t, x, 0);
        let p = insert_at(t, x, 0);
        let u = t.insert(p, x);
        assert(u == newest_first(s));
        vstd::seq_lib::to_multiset_insert(t, p, x);
        vstd::seq_lib::to_multiset_build(s.drop_last(), x);
        assert(s.drop_last().push(x) =~= s);
        assert(u.to_multiset() =~= s.to_multiset());
        assert forall|i: int, j: int| 0 <= i < j < u.len() implies !text_less(
            #[trigger] u[i].date,
            #[trigger] u[j].date,
        ) by {
            if j < p {
                assert(u[i] == t[i] && u[j] == t[j]);
            } else if j == p {
                assert(u[i] == t[i] && u[j] == x);
            } else if i < p {
                assert(u[i] == t[i] && u[j] == t[j - 1]);
            } else if i == p {
                assert(u[i] == x && u[j] == t[j - 1]);
                assert(text_less(t[p].date, x.date));
                if text_less(x.date, t[j - 1].date) {
                    lemma_text_less_transitive(t[p].date, x.date, t[j - 1].date);
                    if j - 1 == p {
                        lemma_text_less_irreflexive(t[p].date);
                    } else {
                        assert(!text_less(t[p].date, t[j - 1].date));
                    }
                }
            } else {
                assert(u[i] == t[i - 1] && u[j] == t[j - 1]);
            }
        }
    } else {
        assert(newest_first(s) =~= s);
    }
}

/// The reports of `s` dated `d`, in order.
pub open spec fn dated(s: Seq<ReportView>, d: Seq<char>) -> Seq<ReportView>
    decreases s.len(),
{
    if s.len() == 0 {
        seq![]
    } else if s.last().date == d {
        dated(s.drop_last(), d).push(s.last())
    } else {
        dated(s.drop_last(), d)
    }
}

proof fn lemma_dated_concat(a: Seq<ReportView>, b: Seq<ReportView>, d: Seq<char>)
    ensures
        dated(a + b, d) == dated(a, d) + dated(b, d),
    decreases b.len(),
{
    if b.len() == 0 {
        assert(a + b =~= a);
        assert(dated(a, d) + dated(b, d) =~= dated(a, d));
    } else {
        lemma_dated_concat(a, b.drop_last(), d);
        assert((a + b).drop_last() =~= a + b.drop_last());
        if b.last().date == d {
            assert(dated(a, d) + dated(b.drop_last(), d).push(b.last()) =~= (dated(a, d) + dated(
                b.drop_last(),
                d,
            )).push(b.last()));
        }
    }
}

proof fn lemma_dated_none(s: Seq<ReportView>, d: Seq<char>)
    requires
        forall|i: int| 0 <= i < s.len() ==> (#[trigger] s[i]).date != d,
    ensures
        dated(s, d) == Seq::<ReportView>::empty(),
    decreases s.len(),
{
    if s.len() > 0 {
        lemma_dated_none(s.drop_last(), d);
    }
}

/// Ordering newest first keeps the reports of each date in the order they
/// were listed (the sort is stable).
pub proof fn law_newest_first_is_stable(s: Seq<ReportView>, d: Seq<char>)
    ensures
        dated(newest_first(s), d) == dated(s, d),
    decreases s.len(),
{
    if s.len() > 0 {
        let t = newest_first(s.drop_last());
        let x = s.last();
        law_newest_first_is_stable(s.drop_last(), d);
        law_newest_first_is_sorted(s.drop_last());
        lemma_insert_at(t, x, 0);
        let p = insert_at(t, x, 0);
        let u = t.insert(p, x);
        assert(u =~= t.take(p) + seq![x] + t.skip(p));
        assert(t =~= t.take(p) + t.skip(p));
        let rest = t.skip(p);
        assert forall|i: int| 0 <= i < rest.len() implies (#[trigger] rest[i]).date != x.date by {
            assert(rest[i] == t[p + i]);
            assert(text_less(t[p].date, x.date));
            if t[p + i].date == x.date {
                if i == 0 {
                    lemma_text_less_irreflexive(x.date);
                } else {
                    assert(!text_less(t[p].date, t[p + i].date));
                }
            }
        }
        lemma_dated_concat(t.take(p) + seq![x], rest, d);
        lemma_dated_concat(t.take(p), seq![x], d);
        lemma_dated_concat(t.take(p), rest, d);
        assert(seq![x].drop_last() =~= Seq::<ReportView>::empty());
        assert(seq![x].last() == x);
        assert(dated(Seq::<ReportView>::empty(), d) == Seq::<ReportView>::empty());
        if x.date == d {
            lemma_dated_none(rest, d);
            assert(dated(seq![x], d) =~= seq![x]);
            assert(dated(u, d) =~= dated(t, d).push(x));
        } else {
            assert(dated(seq![x], d) =~= Seq::<ReportView>::empty());
            assert(dated(u, d) =~= dated(t, d));
        }
    }
}

/// Orders the reports newest first (see `newest_first`).
fn sort_newest_first(reports: &Vec<ReportInfo>) -> (r: Vec<ReportInfo>)
    ensures
        reports_view(r@) == newest_first(reports_view(reports@)),
{
    let ghost input = reports_view(reports@);
    let mut out: Vec<ReportInfo> = Vec::new();
    let n = reports.len();
    let mut k: usize = 0;
    assert(input.take(0) =~= Seq::<ReportView>::empty());
    while k < n
        invariant
            n == reports@.len(),
            k <= n,
            input == reports_view(reports@),
            reports_view(out@) == newest_first(input.take(k as int)),
        decreases n - k,
    {
        let x = copy_report(&reports[k]);
        let ghost t = reports_view(out@);
        let p = insert_position(&out, &x);
        proof {
            lemma_insert_at_bounds(t, x@, 0);
            assert(input.take(k + 1).drop_last() =~= input.take(k as int));
            assert(input.take(k + 1).last() == x@);
        }
        out.insert(p, x);
        assert(reports_view(out@) =~= t.insert(p as int, x@));
        k = k + 1;
    }
    assert(input.take(n as int) =~= input);
    out
}


// ---------------------------------------------------------------------
// Years and months
// ---------------------------------------------------------------------

/// The first index at or after `i` whose value is at least `x`.
pub open spec fn first_at_least(t: Seq<int>, x: int, i: int) -> int
    decreases t.len() - i,
{
    if i < 0 || i >= t.len() || x <= t[i] {
        i
    } else {
        first_at_least(t, x, i + 1)
    }
}

/// `x` put in its place in the increasing list `t`, unless it is there.
pub open spec fn add_sorted(t: Seq<int>, x: int) -> Seq<int> {
    let p = first_at_least(t, x, 0);
    if p < t.len() && t[p] == x {
        t
    } else {
        t.insert(p, x)
    }
}

/// The values of `s` in increasing order, each once (a sort and a dedup).
pub open spec fn sorted_distinct(s: Seq<int>) -> Seq<int>
    decreases s.len(),
{
    if s.len() == 0 {
        seq![]
    } else {
        add_sorted(sorted_distinct(s.drop_last()), s.last())
    }
}

/// `t` is strictly increasing.
pub open spec fn strictly_increasing(t: Seq<int>) -> bool {
    forall|i: int, j: int| 0 <= i < j < t.len() ==> t[i] < t[j]
}

proof fn lemma_first_at_least(t: Seq<int>, x: int, i: int)
    requires
        0 <= i <= t.len(),
    ensures
        i <= first_at_least(t, x, i) <= t.len(),
        forall|k: int| i <= k < first_at_least(t, x, i) ==> #[trigger] t[k] < x,
        first_at_least(t, x, i) < t.len() ==> x <= t[first_at_least(t, x, i)],
    decreases t.len() - i,
{
    if i < t.len() && t[i] < x {
        lemma_first_at_least(t, x, i + 1);
    }
}

/// Sorting and removing duplicates gives a strictly increasing list of
/// exactly the values of the input.
pub proof fn law_sorted_distinct(s: Seq<int>)
    ensures
        strictly_increasing(sorted_distinct(s)),
        forall|x: int| #[trigger] sorted_distinct(s).contains(x) <==> s.contains(x),
    decreases s.len(),
{
    if s.len() > 0 {
        let t = sorted_distinct(s.drop_last());
        let x = s.last();
        law_sorted_distinct(s.drop_last());
        lemma_first_at_least(t, x, 0);
        let p = first_at_least(t, x, 0);
        if !(p < t.len() && t[p] == x) {
            let u = t.insert(p, x);
            assert forall|i: int, j: int| 0 <= i < j < u.len() implies u[i] < u[j] by {
                if j < p {
                    assert(u[i] == t[i] && u[j] == t[j]);
                } else if j == p {
                    assert(u[i] == t[i] && u[j] == x);
                } else if i < p {
                    assert(u[i] == t[i] && u[j] == t[j - 1]);
                } else if i == p {
                    assert(u[i] == x && u[j] == t[j - 1]);
                    assert(x <= t[p]);
                    assert(t[p] <= t[j - 1]);
                } else {
                    assert(u[i] == t[i - 1] && u[j] == t[j - 1]);
                }
            }
            assert forall|y: int| #[trigger] u.contains(y) <==> s.contains(y) by {
                if u.contains(y) {
                    let k = choose|k: int| 0 <= k < u.len() && u[k] == y;
                    if k < p {
                        assert(t[k] == y);
                        assert(t.contains(y));
                        assert(s.drop_last().contains(y));
                        let m = choose|m: int| 0 <= m < s.len() - 1 && s.drop_last()[m] == y;
                        assert(s[m] == y);
                    } else if k == p {
                        assert(s[s.len() - 1] == y);
                    } else {
                        assert(t[k - 1] == y);
                        assert(t.contains(y));
                        assert(s.drop_last().contains(y));
                        let m = choose|m: int| 0 <= m < s.len() - 1 && s.drop_last()[m] == y;
                        assert(s[m] == y);
                    }
                }
                if s.contains(y) {
                    let k = choose|k: int| 0 <= k < s.len() && s[k] == y;
                    if k == s.len() - 1 {
                        assert(u[p] == y);
                    } else {
                        assert(s.drop_last()[k] == y);
                        assert(t.contains(y));
                        let m = choose|m: int| 0 <= m < t.len() && t[m] == y;
                        if m < p {
                            assert(u[m] == y);
                        } else {
                            assert(u[m + 1] == y);
                        }
                    }
                }
            }
        } else {
            assert forall|y: int| #[trigger] t.contains(y) <==> s.contains(y) by {
                if s.contains(y) {
                    let k = choose|k: int| 0 <= k < s.len() && s[k] == y;
                    if k < s.len() - 1 {
                        assert(s.drop_last()[k] == y);
                    }
                }
                if t.contains(y) {
                    assert(s.drop_last().contains(y));
                    let k = choose|k: int| 0 <= k < s.len() - 1 && s.drop_last()[k] == y;
                    assert(s[k] == y);
                }
            }
        }
    }
}

/// The values of an `i64` list.
pub open spec fn ints_of(v: Seq<i64>) -> Seq<int> {
    v.map_values(|x: i64| x as int)
}

/// Puts `x` in its place in the increasing list `t`, unless it is there.
fn add_sorted_exec(t: &mut Vec<i64>, x: i64)
    ensures
        ints_of(final(t)@) == add_sorted(ints_of(old(t)@), x as int),
{
    let ghost t0 = ints_of(t@);
    let mut p: usize = 0;
    while p < t.len() && t[p] < x
        invariant
            p <= t@.len(),
            t0 == ints_of(t@),
            first_at_least(t0, x as int, 0) == first_at_least(t0, x as int, p as int),
        decreases t@.len() - p,
    {
        p = p + 1;
    }
    if p < t.len() && t[p] == x {
        return;
    }
    t.insert(p, x);
    assert(ints_of(t@) =~= t0.insert(p as int, x as int));
}


/// The years of the reports.
pub open spec fn report_years(r: Seq<ReportView>) -> Seq<int> {
    r.map_values(|v: ReportView| v.year as int)
}

/// The months of the reports of year `y`, in order.
pub open spec fn months_of_year(r: Seq<ReportView>, y: int) -> Seq<int>
    decreases r.len(),
{
    if r.len() == 0 {
        seq![]
    } else {
        let rest = months_of_year(r.drop_last(), y);
        if r.last().year as int == y {
            rest.push(r.last().month as int)
        } else {
            rest
        }
    }
}

/// The Chinese name of month `m` (1 to 12).
pub open spec fn month_name(m: int) -> Seq<char> {
    if m == 1 {
        "一月"@
    } else if m == 2 {
        "二月"@
    } else if m == 3 {
        "三月"@
    } else if m == 4 {
        "四月"@
    } else if m == 5 {
        "五月"@
    } else if m == 6 {
        "六月"@
    } else if m == 7 {
        "七月"@
    } else if m == 8 {
        "八月"@
    } else if m == 9 {
        "九月"@
    } else if m == 10 {
        "十月"@
    } else if m == 11 {
        "十一月"@
    } else {
        "十二月"@
    }
}

/// The Chinese numerals one to ten.
pub open spec fn chinese_digits() -> Seq<char> {
    seq!['一', '二', '三', '四', '五', '六', '七', '八', '九', '十']
}

/// The name of each month is its number written in Chinese numerals
/// (one to ten as single numerals, eleven and twelve as ten followed by
/// one and two) and then `月`; so the twelve names are all different.
pub proof fn law_month_names_follow_the_calendar(m: int)
    requires
        1 <= m <= 12,
    ensures
        month_name(m) == (if m <= 10 {
            seq![chinese_digits()[m - 1]]
        } else {
            seq!['十', chinese_digits()[m - 11]]
        }) + seq!['月'],
        forall|k: int| 1 <= k <= 12 && k != m ==> month_name(k) != month_name(m),
{
    reveal_strlit("一月");
    reveal_strlit("二月");
    reveal_strlit("三月");
    reveal_strlit("四月");
    reveal_strlit("五月");
    reveal_strlit("六月");
    reveal_strlit("七月");
    reveal_strlit("八月");
    reveal_strlit("九月");
    reveal_strlit("十月");
    reveal_strlit("十一月");
    reveal_strlit("十二月");
    assert(month_name(m) =~= (if m <= 10 {
        seq![chinese_digits()[m - 1]]
    } else {
        seq!['十', chinese_digits()[m - 11]]
    }) + seq!['月']);
    assert forall|k: int| 1 <= k <= 12 && k != m implies month_name(k) != month_name(m) by {
        if month_name(k) == month_name(m) {
            if month_name(k).len() == 2 && month_name(m).len() == 2 {
                assert(month_name(k)[0] == month_name(m)[0]);
            } else if month_name(k).len() == 3 && month_name(m).len() == 3 {
                assert(month_name(k)[1] == month_name(m)[1]);
            }
        }
    }
}

/// The label of month `m` of year `y`: the year, `年`, a space and the
/// month's name.
pub open spec fn month_label(y: int, m: int) -> Seq<char> {
    signed_decimal(y) + "年 "@ + month_name(m)
}

/// The month entries of year `y` for the months `ms`.
pub open spec fn year_month_entries(y: int, ms: Seq<int>) -> Seq<(Seq<char>, u32)> {
    ms.map_values(|m: int| (month_label(y, m), m as u32))
}

/// For each year in turn, the months in which it has reports, in
/// increasing order, each with its label.
pub open spec fn month_entries(years: Seq<int>, r: Seq<ReportView>) -> Seq<(Seq<char>, u32)>
    decreases years.len(),
{
    if years.len() == 0 {
        seq![]
    } else {
        month_entries(years.drop_last(), r) + year_month_entries(
            years.last(),
            sorted_distinct(months_of_year(r, years.last())),
        )
    }
}

/// The sum of the sizes of the reports.
pub open spec fn size_total(r: Seq<ReportView>) -> int
    decreases r.len(),
{
    if r.len() == 0 {
        0
    } else {
        size_total(r.drop_last()) + r.last().size
    }
}

/// Every report's month is between 1 and 12.
pub open spec fn months_in_range(r: Seq<ReportView>) -> bool {
    forall|i: int| 0 <= i < r.len() ==> 1 <= #[trigger] r[i].month <= 12
}

/// What was found in the working directory.
pub struct ReportsData {
    /// The reports, newest first.
    pub reports: Vec<ReportInfo>,
    pub total_count: usize,
    pub total_size: u64,
    /// The total size as shown to the user.
    pub total_size_display: String,
    /// The years with reports, in increasing order.
    pub years: Vec<i32>,
    /// For each year, the months with reports: label and month number.
    pub months: Vec<(String, u32)>,
    pub earliest_date: String,
    pub latest_date: String,
}

/// The values of a list of month entries.
pub open spec fn entries_view(v: Seq<(String, u32)>) -> Seq<(Seq<char>, u32)> {
    v.map_values(|e: (String, u32)| (e.0@, e.1))
}

/// The values of an `i32` list.
pub open spec fn ints_of_i32(v: Seq<i32>) -> Seq<int> {
    v.map_values(|x: i32| x as int)
}

proof fn lemma_size_total_prefix(r: Seq<ReportView>, k: int)
    requires
        0 <= k <= r.len(),
    ensures
        0 <= size_total(r.take(k)) <= size_total(r),
    decreases r.len() - k,
{
    if k < r.len() {
        lemma_size_total_prefix(r, k + 1);
        assert(r.take(k + 1).drop_last() =~= r.take(k));
    } else {
        assert(r.take(k) =~= r);
    }
    lemma_size_total_nonneg(r.take(k));
}

proof fn lemma_size_total_nonneg(r: Seq<ReportView>)
    ensures
        0 <= size_total(r),
    decreases r.len(),
{
    if r.len() > 0 {
        lemma_size_total_nonneg(r.drop_last());
    }
}

/// Every month listed for a year is the month of some report.
proof fn lemma_months_of_year_from(r: Seq<ReportView>, y: int)
    ensures
        forall|k: int|
            0 <= k < months_of_year(r, y).len() ==> exists|i: int|
                0 <= i < r.len() && r[i].month as int == #[trigger] months_of_year(r, y)[k],
    decreases r.len(),
{
    if r.len() > 0 {
        lemma_months_of_year_from(r.drop_last(), y);
        let rest = months_of_year(r.drop_last(), y);
        assert forall|k: int| 0 <= k < months_of_year(r, y).len() implies exists|i: int|
            0 <= i < r.len() && r[i].month as int == #[trigger] months_of_year(r, y)[k] by {
            if k < rest.len() {
                assert(months_of_year(r, y)[k] == rest[k]);
                let i = choose|i: int| 0 <= i < r.drop_last().len() && r.drop_last()[i].month as int == rest[k];
                assert(r[i] == r.drop_last()[i]);
            } else {
                assert(r[r.len() - 1].month as int == months_of_year(r, y)[k]);
            }
        }
    }
}

/// The sum of the report sizes (see `size_total`).
fn total_size_exec(found: &Vec<ReportInfo>) -> (t: u64)
    requires
        size_total(reports_view(found@)) <= u64::MAX,
    ensures
        t == size_total(reports_view(found@)),
{
    let ghost r = reports_view(found@);
    let mut t: u64 = 0;
    let mut k: usize = 0;
    while k < found.len()
        invariant
            k <= found@.len(),
            r == reports_view(found@),
            size_total(r) <= u64::MAX,
            t == size_total(r.take(k as int)),
        decreases found@.len() - k,
    {
        proof {
            lemma_size_total_prefix(r, k + 1);
            assert(r.take(k + 1).drop_last() =~= r.take(k as int));
        }
        t = t + found[k].size;
        k = k + 1;
    }
    assert(r.take(found@.len() as int) =~= r);
    t
}


/// The name of month `m`.
fn month_name_exec(m: u32) -> (r: &'static str)
    requires
        1 <= m <= 12,
    ensures
        r@ == month_name(m as int),
{
    if m == 1 {
        "一月"
    } else if m == 2 {
        "二月"
    } else if m == 3 {
        "三月"
    } else if m == 4 {
        "四月"
    } else if m == 5 {
        "五月"
    } else if m == 6 {
        "六月"
    } else if m == 7 {
        "七月"
    } else if m == 8 {
        "八月"
    } else if m == 9 {
        "九月"
    } else if m == 10 {
        "十月"
    } else if m == 11 {
        "十一月"
    } else {
        "十二月"
    }
}

/// The label of a month (see `month_label`).
fn month_label_exec(y: i32, m: u32) -> (r: String)
    requires
        1 <= m <= 12,
    ensures
        r@ == month_label(y as int, m as int),
{
    let mut t = signed_decimal_exec(y as i64);
    append_chars(&mut t, &chars_of("年 "));
    append_chars(&mut t, &chars_of(month_name_exec(m)));
    string_of(&t)
}

/// The years of the reports, increasing, each once.
fn years_exec(sorted: &Vec<ReportInfo>) -> (ys: Vec<i32>)
    ensures
        ints_of_i32(ys@) == sorted_distinct(report_years(reports_view(sorted@))),
{
    let ghost r = report_years(reports_view(sorted@));
    let mut acc: Vec<i64> = Vec::new();
    let mut k: usize = 0;
    assert(r.take(0) =~= Seq::<int>::empty());
    assert(ints_of(acc@) =~= Seq::<int>::empty());
    while k < sorted.len()
        invariant
            k <= sorted@.len(),
            r == report_years(reports_view(sorted@)),
            ints_of(acc@) == sorted_distinct(r.take(k as int)),
        decreases sorted@.len() - k,
    {
        assert(r.take(k + 1).drop_last() =~= r.take(k as int));
        assert(r.take(k + 1).last() == sorted@[k as int].year as int);
        add_sorted_exec(&mut acc, sorted[k].year as i64);
        k = k + 1;
    }
    assert(r.take(sorted@.len() as int) =~= r);
    proof {
        law_sorted_distinct(r);
    }
    let mut ys: Vec<i32> = Vec::new();
    let mut i: usize = 0;
    while i < acc.len()
        invariant
            i <= acc@.len(),
            ints_of(acc@) == sorted_distinct(r),
            r == report_years(reports_view(sorted@)),
            forall|x: int| #[trigger] sorted_distinct(r).contains(x) <==> r.contains(x),
            ints_of_i32(ys@) == ints_of(acc@).take(i as int),
        decreases acc@.len() - i,
    {
        let ghost v = acc@[i as int] as int;
        assert(ints_of(acc@)[i as int] == v);
        assert(sorted_distinct(r).contains(v));
        proof {
            let j = choose|j: int| 0 <= j < r.len() && r[j] == v;
            assert(r[j] == sorted@[j]@.year as int);
            assert(i32::MIN <= v <= i32::MAX);
        }
        let w = acc[i] as i32;
        assert(w as int == v);
        let ghost before = ys@;
        ys.push(w);
        assert(ints_of_i32(ys@) =~= ints_of_i32(before).push(v));
        assert(ints_of_i32(ys@) =~= ints_of(acc@).take(i + 1));
        i = i + 1;
    }
    assert(ints_of(acc@).take(acc@.len() as int) =~= ints_of(acc@));
    ys
}


/// The months of year `y` among the reports, increasing, each once.
fn year_months_exec(sorted: &Vec<ReportInfo>, y: i32) -> (ms: Vec<i64>)
    requires
        months_in_range(reports_view(sorted@)),
    ensures
        ints_of(ms@) == sorted_distinct(months_of_year(reports_view(sorted@), y as int)),
        forall|j: int| 0 <= j < ms@.len() ==> 1 <= #[trigger] ms@[j] <= 12,
{
    let ghost r = reports_view(sorted@);
    let mut acc: Vec<i64> = Vec::new();
    let mut k: usize = 0;
    assert(r.take(0) =~= Seq::<ReportView>::empty());
    assert(ints_of(acc@) =~= Seq::<int>::empty());
    while k < sorted.len()
        invariant
            k <= sorted@.len(),
            r == reports_view(sorted@),
            ints_of(acc@) == sorted_distinct(months_of_year(r.take(k as int), y as int)),
        decreases sorted@.len() - k,
    {
        assert(r.take(k + 1).drop_last() =~= r.take(k as int));
        assert(r.take(k + 1).last() == sorted@[k as int]@);
        let ghost rest = months_of_year(r.take(k as int), y as int);
        if sorted[k].year == y {
            assert(months_of_year(r.take(k + 1), y as int) == rest.push(sorted@[k as int].month as int));
            assert(rest.push(sorted@[k as int].month as int).drop_last() =~= rest);
            add_sorted_exec(&mut acc, sorted[k].month as i64);
        } else {
            assert(months_of_year(r.take(k + 1), y as int) == rest);
        }
        k = k + 1;
    }
    assert(r.take(sorted@.len() as int) =~= r);
    proof {
        let m = months_of_year(r, y as int);
        law_sorted_distinct(m);
        lemma_months_of_year_from(r, y as int);
        assert forall|j: int| 0 <= j < acc@.len() implies 1 <= #[trigger] acc@[j] <= 12 by {
            assert(ints_of(acc@)[j] == acc@[j] as int);
            assert(sorted_distinct(m).contains(acc@[j] as int));
            let q = choose|q: int| 0 <= q < m.len() && m[q] == acc@[j] as int;
            let i = choose|i: int| 0 <= i < r.len() && r[i].month as int == #[trigger] m[q];
            assert(1 <= r[i].month <= 12);
        }
    }
    acc
}

/// The month entries of the given years (see `month_entries`).
fn months_exec(sorted: &Vec<ReportInfo>, years: &Vec<i32>) -> (out: Vec<(String, u32)>)
    requires
        months_in_range(reports_view(sorted@)),
    ensures
        entries_view(out@) == month_entries(ints_of_i32(years@), reports_view(sorted@)),
{
    let ghost r = reports_view(sorted@);
    let ghost yv = ints_of_i32(years@);
    let mut out: Vec<(String, u32)> = Vec::new();
    let mut yi: usize = 0;
    assert(yv.take(0) =~= Seq::<int>::empty());
    assert(entries_view(out@) =~= Seq::<(Seq<char>, u32)>::empty());
    while yi < years.len()
        invariant
            yi <= years@.len(),
            r == reports_view(sorted@),
            yv == ints_of_i32(years@),
            months_in_range(r),
            entries_view(out@) == month_entries(yv.take(yi as int), r),
        decreases years@.len() - yi,
    {
        let y = years[yi];
        assert(yv.take(yi + 1).drop_last() =~= yv.take(yi as int));
        assert(yv.take(yi + 1).last() == y as int);
        let ms = year_months_exec(sorted, y);
        let ghost start = entries_view(out@);
        let mut j: usize = 0;
        assert(start =~= start + year_month_entries(y as int, ints_of(ms@).take(0)));
        while j < ms.len()
            invariant
                j <= ms@.len(),
                forall|q: int| 0 <= q < ms@.len() ==> 1 <= #[trigger] ms@[q] <= 12,
                entries_view(out@) == start + year_month_entries(y as int, ints_of(ms@).take(j as int)),
            decreases ms@.len() - j,
        {
            let m = ms[j] as u32;
            assert(m as int == ms@[j as int]);
            let label = month_label_exec(y, m);
            let ghost before = entries_view(out@);
            out.push((label, m));
            assert(entries_view(out@) =~= before.push((label@, m)));
            assert(ints_of(ms@).take(j + 1) =~= ints_of(ms@).take(j as int).push(m as int));
            assert(year_month_entries(y as int, ints_of(ms@).take(j + 1)) =~= year_month_entries(
                y as int,
                ints_of(ms@).take(j as int),
            ).push((month_label(y as int, m as int), m)));
            assert(entries_view(out@) =~= start + year_month_entries(
                y as int,
                ints_of(ms@).take(j + 1),
            ));
            j = j + 1;
        }
        assert(ints_of(ms@).take(ms@.len() as int) =~= ints_of(ms@));
        yi = yi + 1;
    }
    assert(yv.take(years@.len() as int) =~= yv);
    out
}


/// What was found, as values.
pub struct ReportsDataView {
    pub reports: Seq<ReportView>,
    pub total_count: nat,
    pub total_size: int,
    pub total_size_display: Seq<char>,
    pub years: Seq<int>,
    pub months: Seq<(Seq<char>, u32)>,
    pub earliest_date: Seq<char>,
    pub latest_date: Seq<char>,
}

impl View for ReportsData {
    type V = ReportsDataView;

    open spec fn view(&self) -> ReportsDataView {
        ReportsDataView {
            reports: reports_view(self.reports@),
            total_count: self.total_count as nat,
            total_size: self.total_size as int,
            total_size_display: self.total_size_display@,
            years: ints_of_i32(self.years@),
            months: entries_view(self.months@),
            earliest_date: self.earliest_date@,
            latest_date: self.latest_date@,
        }
    }
}

/// The summary of the reports found: the reports newest first, how many
/// there are and their total size, the years with reports in increasing
/// order, the month entries of those years, and the dates of the oldest and
/// the newest report (empty when there is none). The total size is shown
/// by the caller, which formats sizes; it is left empty here.
pub open spec fn summary(found: Seq<ReportView>) -> ReportsDataView {
    let sorted = newest_first(found);
    let years = sorted_distinct(report_years(sorted));
    ReportsDataView {
        reports: sorted,
        total_count: found.len(),
        total_size: size_total(found),
        total_size_display: seq![],
        years,
        months: month_entries(years, sorted),
        earliest_date: if sorted.len() == 0 {
            seq![]
        } else {
            sorted.last().date
        },
        latest_date: if sorted.len() == 0 {
            seq![]
        } else {
            sorted[0].date
        },
    }
}

/// Summarizes the reports found (see `summary`).
pub fn summarize_reports(found: &Vec<ReportInfo>) -> (d: ReportsData)
    requires
        months_in_range(reports_view(found@)),
        size_total(reports_view(found@)) <= u64::MAX,
    ensures
        d@ == summary(reports_view(found@)),
{
    let ghost fv = reports_view(found@);
    let sorted = sort_newest_first(found);
    let ghost sv = reports_view(sorted@);
    proof {
        law_newest_first_is_sorted(fv);
        vstd::seq_lib::to_multiset_len(fv);
        vstd::seq_lib::to_multiset_len(sv);
        assert forall|i: int| 0 <= i < sv.len() implies 1 <= #[trigger] sv[i].month <= 12 by {
            vstd::seq_lib::to_multiset_contains(sv, sv[i]);
            vstd::seq_lib::to_multiset_contains(fv, sv[i]);
            let j = choose|j: int| 0 <= j < fv.len() && fv[j] == sv[i];
        }
    }
    let total_size = total_size_exec(found);
    let years = years_exec(&sorted);
    let months = months_exec(&sorted, &years);
    let n = sorted.len();
    let earliest_date = if n == 0 {
        String::new()
    } else {
        sorted[n - 1].date.clone()
    };
    let latest_date = if n == 0 {
        String::new()
    } else {
        sorted[0].date.clone()
    };
    let d = ReportsData {
        reports: sorted,
        total_count: n,
        total_size,
        total_size_display: String::new(),
        years,
        months,
        earliest_date,
        latest_date,
    };
    assert(d@.total_size_display =~= Seq::<char>::empty());
    assert(d@.earliest_date =~= summary(fv).earliest_date);
    assert(d@.latest_date =~= summary(fv).latest_date);
    d
}

/// Recognizes the reports among the files of the working directory and
/// summarizes them. A pattern whose expression the `regex` crate refuses
/// gives `Invalid file pattern: ` and its message; `Ok(None)` when some
/// report has a month above 12 or the sizes add up past `u64::MAX`.
pub fn scan_report_files(files: &Vec<ReportFile>, file_pattern: &str, app_name: &str) -> (r: Result<
    Option<ReportsData>,
    String,
>)
    ensures
        ({
            let source = regex_source(file_pattern@, app_name@);
            let found = reports_in(files@, source, file_pattern@);
            &&& r is Err <==> regex_compile_error(source) is Some
            &&& r matches Err(e) ==> e@ == "Invalid file pattern: "@ + regex_compile_error(
                source,
            )->0
            &&& r matches Ok(o) ==> (o is Some <==> months_in_range(found) && size_total(found)
                <= u64::MAX)
            &&& r matches Ok(o) ==> (o matches Some(d) ==> d@ == summary(found))
        }),
{
    let re = match build_regex(file_pattern, app_name) {
        Ok(re) => re,
        Err(e) => {
            return Err(e);
        },
    };
    let found = reports_in_exec(files, &re, file_pattern);
    let ghost fv = reports_view(found@);
    let ghost source = regex_source(file_pattern@, app_name@);
    assert(fv == reports_in(files@, source, file_pattern@));
    let mut k: usize = 0;
    while k < found.len()
        invariant
            k <= found@.len(),
            fv == reports_view(found@),
            source == regex_source(file_pattern@, app_name@),
            fv == reports_in(files@, source, file_pattern@),
            regex_compile_error(source) is None,
            forall|i: int| 0 <= i < k ==> 1 <= #[trigger] fv[i].month <= 12,
        decreases found@.len() - k,
    {
        assert(fv[k as int] == found@[k as int]@);
        if found[k].month < 1 || found[k].month > 12 {
            assert(!(1 <= fv[k as int].month <= 12));
            assert(!months_in_range(fv));
            return Ok(None);
        }
        k = k + 1;
    }
    let mut total: u64 = 0;
    let mut i: usize = 0;
    while i < found.len()
        invariant
            i <= found@.len(),
            fv == reports_view(found@),
            source == regex_source(file_pattern@, app_name@),
            fv == reports_in(files@, source, file_pattern@),
            regex_compile_error(source) is None,
            months_in_range(fv),
            total == size_total(fv.take(i as int)),
        decreases found@.len() - i,
    {
        assert(fv.take(i + 1).drop_last() =~= fv.take(i as int));
        assert(fv.take(i + 1).last() == found@[i as int]@);
        match total.checked_add(found[i].size) {
            Some(t) => {
                total = t;
            },
            None => {
                proof {
                    lemma_size_total_prefix(fv, i + 1);
                }
                return Ok(None);
            },
        }
        i = i + 1;
    }
    assert(fv.take(found@.len() as int) =~= fv);
    Ok(Some(summarize_reports(&found)))
}

} // verus!
