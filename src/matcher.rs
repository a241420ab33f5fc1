//! Assembly of the composite expression and line-by-line matching.
use vstd::prelude::*;
use vstd::string::StringSliceAdditionalSpecFns;
use vstd::utf8::{encode_utf8, is_char_boundary};
use crate::error::ConfigError;
use crate::options::{Options, OptionsView};
use crate::text::{split_on, split_text, views};

verus! {

#[verifier::external_type_specification]
#[verifier::external_body]
pub struct ExRegex(regex::Regex);

#[verifier::external_type_specification]
#[verifier::external_body]
pub struct ExRegexError(regex::Error);

/// A half-open byte range `[start, end)` of one line that a pattern matched.
#[derive(Clone, Copy, Debug, PartialEq, Eq)]
pub struct MatchSpan {
    /// The first byte of the match.
    pub start: usize,
    /// The byte after the last byte of the match.
    pub end: usize,
}

/// Whether `spans` can be the matches in a line whose UTF-8 bytes are
/// `bytes`: each a range within the line whose ends fall between
/// characters, in order and without overlap.
pub open spec fn spans_fit(spans: Seq<MatchSpan>, bytes: Seq<u8>) -> bool {
    &&& forall|i: int|
        0 <= i < spans.len() ==> {
            &&& (#[trigger] spans[i]).start <= spans[i].end <= bytes.len()
            &&& is_char_boundary(bytes, spans[i].start as int)
            &&& is_char_boundary(bytes, spans[i].end as int)
        }
    &&& forall|i: int| 0 <= i < spans.len() - 1 ==> (#[trigger] spans[i]).end <= spans[i + 1].start
}

/// A pattern that only matches a whole line.
pub open spec fn line_wrapped(p: Seq<char>) -> Seq<char> {
    "^("@ + p + ")$"@
}

/// A pattern that only matches a whole word.
pub open spec fn word_wrapped(p: Seq<char>) -> Seq<char> {
    "\\b"@ + p + "\\b"@
}

/// One pattern as the composite expression holds it: whole-line matching
/// wins over whole-word matching.
pub open spec fn wrapped(o: OptionsView, p: Seq<char>) -> Seq<char> {
    if o.line_match {
        line_wrapped(p)
    } else if o.word_match {
        word_wrapped(p)
    } else {
        p
    }
}

/// The pieces joined with `sep` between each two.
pub open spec fn joined(pieces: Seq<Seq<char>>, sep: Seq<char>) -> Seq<char>
    decreases pieces.len(),
{
    if pieces.len() == 0 {
        Seq::empty()
    } else if pieces.len() == 1 {
        pieces[0]
    } else {
        joined(pieces.drop_last(), sep) + sep + pieces.last()
    }
}

/// The alternation of all wrapped patterns.
pub open spec fn pattern_string(o: OptionsView) -> Seq<char> {
    joined(o.patterns.map_values(|p: Seq<char>| wrapped(o, p)), "|"@)
}

/// The inline flags of the composite expression.
pub open spec fn flags(o: OptionsView) -> Seq<char> {
    if o.ignore_case {
        "(?i)"@
    } else {
        Seq::empty()
    }
}

/// The composite expression handed to the matcher.
pub open spec fn composite(o: OptionsView) -> Seq<char> {
    flags(o) + pattern_string(o)
}

/// Whether the matcher compiles `expression`.
pub uninterp spec fn accepts(expression: Seq<char>) -> bool;

/// The successive non-overlapping matches of `expression` in `line`.
pub uninterp spec fn spans_of(expression: Seq<char>, line: Seq<char>) -> Seq<MatchSpan>;

/// A compiled expression together with the text it was compiled from.
pub struct Matcher {
    regex: regex::Regex,
    expression: Ghost<Seq<char>>,
}

impl Matcher {
    /// The text this matcher was compiled from.
    pub closed spec fn expression(&self) -> Seq<char> {
        self.expression@
    }
}

/// Relies on `regex::Regex::new`, which compiles an expression or refuses
/// it; whether it does depends on the expression alone.
#[verifier::external_body]
fn compile(expression: &str) -> (r: Result<Matcher, regex::Error>)
    ensures
        r is Ok <==> accepts(expression@),
        r matches Ok(m) ==> m.expression() == expression@,
{
    regex::Regex::new(expression).map(|regex| Matcher { regex, expression: Ghost(expression@) })
}

/// Relies on `regex::Regex::find_iter`, which yields successive
/// non-overlapping matches of the expression in the line, each with
/// `start <= end` and both offsets on character boundaries of the line.
#[verifier::external_body]
fn find_spans(matcher: &Matcher, line: &str) -> (r: Vec<MatchSpan>)
    ensures
        r@ == spans_of(matcher.expression(), line@),
        spans_fit(r@, line.spec_bytes()),
{
    matcher.regex.find_iter(line).map(|m| MatchSpan { start: m.start(), end: m.end() }).collect()
}

/// Each pattern wrapped so that it only matches a whole line.
pub fn apply_line_matching(patterns: &Vec<String>) -> (r: Vec<String>)
    ensures
        views(r@) == views(patterns@).map_values(|p: Seq<char>| line_wrapped(p)),
{
    let mut r: Vec<String> = Vec::new();
    let mut i: usize = 0;
    while i < patterns.len()
        invariant
            i <= patterns@.len(),
            views(r@) == views(patterns@).subrange(0, i as int).map_values(|p: Seq<char>| line_wrapped(p)),
        decreases patterns.len() - i,
    {
        let ghost prior = views(r@);
        let w = String::from_str("^(").concat(patterns[i].as_str()).concat(")$");
        r.push(w);
        assert(views(r@) =~= prior.push(line_wrapped(patterns@[i as int]@)));
        assert(views(patterns@).subrange(0, i + 1).map_values(|p: Seq<char>| line_wrapped(p)) =~= views(
            patterns@,
        ).subrange(0, i as int).map_values(|p: Seq<char>| line_wrapped(p)).push(line_wrapped(patterns@[i as int]@)));
        i = i + 1;
    }
    assert(views(patterns@).subrange(0, i as int) =~= views(patterns@));
    r
}

/// Each pattern wrapped so that it only matches a whole word.
pub fn apply_word_matching(patterns: &Vec<String>) -> (r: Vec<String>)
    ensures
        views(r@) == views(patterns@).map_values(|p: Seq<char>| word_wrapped(p)),
{
    let mut r: Vec<String> = Vec::new();
    let mut i: usize = 0;
    while i < patterns.len()
        invariant
            i <= patterns@.len(),
            views(r@) == views(patterns@).subrange(0, i as int).map_values(|p: Seq<char>| word_wrapped(p)),
        decreases patterns.len() - i,
    {
        let ghost prior = views(r@);
        let w = String::from_str("\\b").concat(patterns[i].as_str()).concat("\\b");
        r.push(w);
        assert(views(r@) =~= prior.push(word_wrapped(patterns@[i as int]@)));
        assert(views(patterns@).subrange(0, i + 1).map_values(|p: Seq<char>| word_wrapped(p)) =~= views(
            patterns@,
        ).subrange(0, i as int).map_values(|p: Seq<char>| word_wrapped(p)).push(word_wrapped(patterns@[i as int]@)));
        i = i + 1;
    }
    assert(views(patterns@).subrange(0, i as int) =~= views(patterns@));
    r
}

/// The pieces joined with `|` between each two.
fn join_alternatives(pieces: &Vec<String>) -> (r: String)
    ensures
        r@ == joined(views(pieces@), "|"@),
{
    let mut r = String::new();
    if pieces.len() == 0 {
        return r;
    }
    r.append(pieces[0].as_str());
    let mut i: usize = 1;
    while i < pieces.len()
        invariant
            1 <= i <= pieces@.len(),
            r@ == joined(views(pieces@).subrange(0, i as int), "|"@),
        decreases pieces.len() - i,
    {
        r.append("|");
        r.append(pieces[i].as_str());
        let ghost next = views(pieces@).subrange(0, i + 1);
        assert(next.drop_last() =~= views(pieces@).subrange(0, i as int));
        i = i + 1;
    }
    assert(views(pieces@).subrange(0, i as int) =~= views(pieces@));
    r
}

/// The alternation of all patterns, each wrapped for whole-line or
/// whole-word matching as the options ask.
pub fn build_pattern_string(options: &Options) -> (r: String)
    ensures
        r@ == pattern_string(options@),
{
    let o = options;
    let wrapped_patterns = if o.line_match {
        apply_line_matching(&o.patterns)
    } else if o.word_match {
        apply_word_matching(&o.patterns)
    } else {
        o.patterns.clone()
    };
    assert(views(wrapped_patterns@) =~= o@.patterns.map_values(|p: Seq<char>| wrapped(o@, p)));
    join_alternatives(&wrapped_patterns)
}

/// The inline flags: `(?i)` when case is ignored, else nothing.
pub fn build_flags(options: &Options) -> (r: String)
    ensures
        r@ == flags(options@),
{
    if options.ignore_case {
        String::from_str("(?i)")
    } else {
        String::new()
    }
}

/// The composite expression: the flags, then the alternation of patterns.
pub fn build_expression(options: &Options) -> (r: String)
    ensures
        r@ == composite(options@),
{
    let f = build_flags(options);
    let p = build_pattern_string(options);
    f.concat(p.as_str())
}

/// Compiles the composite expression of `options` (see `build_expression`);
/// an expression the matcher refuses is a configuration error.
pub fn build_regex(options: &Options) -> (r: Result<Matcher, ConfigError>)
    ensures
        r is Ok <==> accepts(composite(options@)),
        r matches Ok(m) ==> m.expression() == composite(options@),
        r is Err ==> r matches Err(ConfigError::InvalidExpression(_)),
{
    let expression = build_expression(options);
    match compile(expression.as_str()) {
        Ok(m) => Ok(m),
        Err(e) => Err(ConfigError::InvalidExpression(e)),
    }
}

/// Whether a line is selected: it has a match and matching is not
/// inverted, or it has none, matching is inverted and the line is not empty.
pub open spec fn included(line: Seq<char>, spans: Seq<MatchSpan>, invert: bool) -> bool {
    if spans.len() > 0 {
        !invert
    } else {
        invert && line.len() > 0
    }
}

/// The number of selected lines among the first `n` lines.
pub open spec fn included_count(lines: Seq<Seq<char>>, spans: Seq<Seq<MatchSpan>>, invert: bool, n: int) -> nat
    decreases n,
{
    if n <= 0 {
        0
    } else {
        included_count(lines, spans, invert, n - 1) + if included(lines[n - 1], spans[n - 1], invert) {
            1nat
        } else {
            0nat
        }
    }
}

/// The number of lines that have spans, pairing lines with spans in order.
pub open spec fn paired(lines: Seq<Seq<char>>, spans: Seq<Seq<MatchSpan>>) -> int {
    if lines.len() <= spans.len() {
        lines.len() as int
    } else {
        spans.len() as int
    }
}

/// The span lists of a vector of them.
pub open spec fn span_views(v: Seq<Vec<MatchSpan>>) -> Seq<Seq<MatchSpan>> {
    v.map_values(|s: Vec<MatchSpan>| s@)
}

/// Whether each span list fits the line it is paired with.
#[verifier::opaque]
pub open spec fn all_fit(lines: Seq<Seq<char>>, spans: Seq<Seq<MatchSpan>>) -> bool {
    forall|i: int| 0 <= i < paired(lines, spans) ==> spans_fit(#[trigger] spans[i], encode_utf8(lines[i]))
}

proof fn lemma_included_count_bound(lines: Seq<Seq<char>>, spans: Seq<Seq<MatchSpan>>, invert: bool, n: int)
    requires
        n >= 0,
    ensures
        included_count(lines, spans, invert, n) <= n,
    decreases n,
{
    if n > 0 {
        lemma_included_count_bound(lines, spans, invert, n - 1);
    }
}

/// The matches of `expression` in each of `lines`.
pub open spec fn line_spans(expression: Seq<char>, lines: Seq<Seq<char>>) -> Seq<Seq<MatchSpan>> {
    lines.map_values(|l: Seq<char>| spans_of(expression, l))
}

/// The matches of `matcher` in each line of `data`, one list per line.
pub fn search_lines(matcher: &Matcher, data: &String) -> (r: Vec<Vec<MatchSpan>>)
    ensures
        span_views(r@) == line_spans(matcher.expression(), split_on(data@, '\n')),
        all_fit(split_on(data@, '\n'), span_views(r@)),
{
    let lines = split_text(data.as_str(), '\n');
    let ghost lv = views(lines@);
    let mut r: Vec<Vec<MatchSpan>> = Vec::new();
    let mut i: usize = 0;
    while i < lines.len()
        invariant
            lv == views(lines@),
            i <= lines@.len(),
            r@.len() == i,
            forall|j: int| 0 <= j < i ==> spans_fit(#[trigger] r@[j]@, encode_utf8(lv[j])),
            forall|j: int| 0 <= j < i ==> #[trigger] r@[j]@ == spans_of(matcher.expression(), lv[j]),
        decreases lines.len() - i,
    {
        let spans = find_spans(matcher, lines[i].as_str());
        r.push(spans);
        i = i + 1;
    }
    assert(span_views(r@) =~= line_spans(matcher.expression(), lv));
    reveal(all_fit);
    assert forall|j: int| 0 <= j < paired(lv, span_views(r@)) implies spans_fit(
        #[trigger] span_views(r@)[j],
        encode_utf8(lv[j]),
    ) by {
        assert(span_views(r@)[j] == r@[j]@);
    }
    r
}

/// The number of selected lines (see `included`) among the lines of `data`
/// paired in order with `matches`.
pub fn count_included(data: &String, matches: &Vec<Vec<MatchSpan>>, invert_match: bool) -> (r: usize)
    ensures
        r == included_count(split_on(data@, '\n'), span_views(matches@), invert_match, paired(split_on(data@, '\n'), span_views(matches@))),
{
    let lines = split_text(data.as_str(), '\n');
    let ghost lv = views(lines@);
    let ghost sv = span_views(matches@);
    let n = if lines.len() <= matches.len() { lines.len() } else { matches.len() };
    let mut count: usize = 0;
    let mut i: usize = 0;
    while i < n
        invariant
            lv == views(lines@),
            sv == span_views(matches@),
            n == paired(lv, sv),
            n <= lines@.len(),
            n <= matches@.len(),
            i <= n,
            count == included_count(lv, sv, invert_match, i as int),
        decreases n - i,
    {
        proof {
            lemma_included_count_bound(lv, sv, invert_match, i as int);
        }
        assert(sv[i as int] == matches@[i as int]@);
        let has_match = matches[i].len() > 0;
        if (has_match && !invert_match) || (!has_match && invert_match && !lines[i].as_str().is_empty()) {
            count = count + 1;
        }
        i = i + 1;
    }
    count
}

/// The number of selected lines of `data` when matched against `matcher`.
pub fn count_matching_lines(matcher: &Matcher, data: &String, invert_match: bool) -> (r: usize)
    ensures
        r == included_count(
            split_on(data@, '\n'),
            line_spans(matcher.expression(), split_on(data@, '\n')),
            invert_match,
            split_on(data@, '\n').len() as int,
        ),
{
    let matches = search_lines(matcher, data);
    count_included(data, &matches, invert_match)
}

} // verus!
