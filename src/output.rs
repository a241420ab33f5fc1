//! Rendering of selected lines, with color, into a buffered output.
use vstd::prelude::*;
use vstd::string::StringSliceAdditionalSpecFns;
use vstd::utf8::{
    decode_utf8, encode_utf8, encode_utf8_decode_utf8, encode_utf8_valid_utf8, is_char_boundary,
    is_char_boundary_start_end_of_seq,
};
use crate::colors::{Colors, ColorsView};
use crate::matcher::{all_fit, count_included, included, included_count, paired, span_views, spans_fit, MatchSpan};
use crate::options::{Options, OptionsView};
use crate::source::{display_name, Source};
use crate::text::{chars_of, decimal, push_decimal, same_text, split_on, split_text, views};

verus! {

broadcast use {encode_utf8_decode_utf8, encode_utf8_valid_utf8, is_char_boundary_start_end_of_seq};

/// The length, in bytes, at which the buffer is handed to its destination.
pub const BUFFER_SIZE: usize = 4096;

/// `content` between the escape that selects `code` and the reset escape.
pub open spec fn ansi(code: Seq<char>, content: Seq<char>) -> Seq<char> {
    "\x1b["@ + code + "m"@ + content + "\x1b[0m"@
}

/// The escape that selects `code`.
pub open spec fn ansi_open(code: Seq<char>) -> Seq<char> {
    "\x1b["@ + code + "m"@
}

/// The characters of the bytes `[from, to)` of an encoded line.
pub open spec fn piece(bytes: Seq<u8>, from: int, to: int) -> Seq<char> {
    decode_utf8(bytes.subrange(from, to))
}

/// The end of the span before span `k`, or 0 for the first.
pub open spec fn end_before(spans: Seq<MatchSpan>, k: int) -> int {
    if k <= 0 {
        0
    } else {
        spans[k - 1].end as int
    }
}

/// The colored text up to the end of span `k - 1`: the text between matches
/// as it is, each match in the selected-match color, and the selected-line
/// color selected again after each match when there is one.
pub open spec fn colored_prefix(bytes: Seq<u8>, spans: Seq<MatchSpan>, k: int, c: ColorsView) -> Seq<char>
    decreases k,
{
    if k <= 0 {
        Seq::empty()
    } else {
        let m = spans[k - 1];
        colored_prefix(bytes, spans, k - 1, c) + piece(bytes, end_before(spans, k - 1), m.start as int)
            + ansi(c.selected_match, piece(bytes, m.start as int, m.end as int)) + if c.selected_line.len() > 0 {
            ansi_open(c.selected_line)
        } else {
            Seq::empty()
        }
    }
}

/// A line with every match colored (see `colored_prefix`).
#[verifier::opaque]
pub open spec fn colored_line(line: Seq<char>, spans: Seq<MatchSpan>, c: ColorsView) -> Seq<char> {
    let bytes = encode_utf8(line);
    colored_prefix(bytes, spans, spans.len() as int, c) + piece(bytes, end_before(spans, spans.len() as int), bytes.len() as int)
}

/// The text of a selected line before any prefix: matches colored when
/// output is colored, then the whole line in the selected-line color when
/// output is colored and that color is set.
pub open spec fn line_body(o: OptionsView, line: Seq<char>, spans: Seq<MatchSpan>) -> Seq<char> {
    let body = if o.color_output && spans.len() > 0 {
        colored_line(line, spans, o.colors)
    } else {
        line
    };
    if o.color_output && o.colors.selected_line.len() > 0 {
        ansi(o.colors.selected_line, body)
    } else {
        body
    }
}

/// The name of a source as a prefix, colored when output is colored.
pub open spec fn path_part(path: Seq<char>, color: bool, c: ColorsView) -> Seq<char> {
    if color {
        ansi(c.file_name, display_name(path))
    } else {
        display_name(path)
    }
}

/// The separator between a prefix and a line, colored when output is colored.
pub open spec fn separator_part(color: bool, c: ColorsView) -> Seq<char> {
    if color {
        ansi(c.separator, ":\t"@)
    } else {
        ":\t"@
    }
}

/// One line of output: the prefix when file prefixes are on, the line, and
/// a newline when the result does not end in one.
pub open spec fn output_line(o: OptionsView, path: Seq<char>, line: Seq<char>) -> Seq<char> {
    let prefix = if o.file_prefix {
        path_part(path, o.color_output, o.colors) + separator_part(o.color_output, o.colors)
    } else {
        Seq::empty()
    };
    let t = prefix + line;
    if t.len() > 0 && t.last() == '\n' {
        t
    } else {
        t.push('\n')
    }
}

/// The output of the selected lines among the first `n` pairs of lines and spans.
pub open spec fn rendered(o: OptionsView, path: Seq<char>, lines: Seq<Seq<char>>, spans: Seq<Seq<MatchSpan>>, n: int) -> Seq<char>
    decreases n,
{
    if n <= 0 {
        Seq::empty()
    } else {
        rendered(o, path, lines, spans, n - 1) + if included(lines[n - 1], spans[n - 1], o.invert_match) {
            output_line(o, path, line_body(o, lines[n - 1], spans[n - 1]))
        } else {
            Seq::empty()
        }
    }
}

/// Whether any of the first `n` lines is selected.
pub open spec fn any_included(lines: Seq<Seq<char>>, spans: Seq<Seq<MatchSpan>>, invert: bool, n: int) -> bool
    decreases n,
{
    n > 0 && (any_included(lines, spans, invert, n - 1) || included(lines[n - 1], spans[n - 1], invert))
}

proof fn lemma_any_included_grows(lines: Seq<Seq<char>>, spans: Seq<Seq<MatchSpan>>, invert: bool, k: int, n: int)
    requires
        k <= n,
        any_included(lines, spans, invert, k),
    ensures
        any_included(lines, spans, invert, n),
    decreases n - k,
{
    if k < n {
        lemma_any_included_grows(lines, spans, invert, k, n - 1);
    }
}

/// Output gathered in a buffer and handed on to a destination text in pieces.
pub struct OutputBuffer {
    /// Output not yet handed on.
    pub buffer: String,
    /// Output handed on, to be written out by the owner of the run.
    pub destination: String,
    /// Whether some source's output has been written, so that the next
    /// one's is set apart by a blank line when lines are prefixed.
    pub wrote_source: bool,
}

/// The length in bytes of the UTF-8 encoding of `s`, as `str::len` gives it.
pub open spec fn byte_len(s: Seq<char>) -> usize {
    encode_utf8(s).len() as usize
}

/// Whether `after` is `before` with `t` written: when the buffer then holds
/// `BUFFER_SIZE` bytes or more, it is handed on whole and emptied;
/// otherwise the buffer alone grows.
pub open spec fn appended(before: OutputBuffer, after: OutputBuffer, t: Seq<char>) -> bool {
    &&& after.wrote_source == before.wrote_source
    &&& if byte_len(before.buffer@ + t) >= BUFFER_SIZE {
        &&& after.destination@ == before.destination@ + before.buffer@ + t
        &&& after.buffer@ == Seq::<char>::empty()
    } else {
        &&& after.destination@ == before.destination@
        &&& after.buffer@ == before.buffer@ + t
    }
}

/// Relies on `String::with_capacity`, which gives an empty string.
#[verifier::external_body]
fn empty_with_capacity(capacity: usize) -> (r: String)
    ensures
        r@ == Seq::<char>::empty(),
{
    String::with_capacity(capacity)
}

/// Relies on indexing a `str` by a byte range, which gives the bytes of
/// that range when both ends fall on character boundaries.
#[verifier::external_body]
fn byte_slice<'a>(s: &'a str, from: usize, to: usize) -> (r: &'a str)
    requires
        from <= to <= s.spec_bytes().len(),
        is_char_boundary(s.spec_bytes(), from as int),
        is_char_boundary(s.spec_bytes(), to as int),
    ensures
        r.spec_bytes() == s.spec_bytes().subrange(from as int, to as int),
{
    &s[from..to]
}

/// Everything written to an output so far: what was handed on, then what is buffered.
pub open spec fn written(b: OutputBuffer) -> Seq<char> {
    b.destination@ + b.buffer@
}

/// Whatever is handed on, writing `t` adds exactly `t` to what was written.
pub proof fn lemma_appended_written(before: OutputBuffer, after: OutputBuffer, t: Seq<char>)
    requires
        appended(before, after, t),
    ensures
        written(after) == written(before) + t,
{
    assert(written(after) =~= written(before) + t);
}

/// What the run does after one source: report its read error, and stop.
pub struct SourceStep {
    /// Whether the source could not be read and that is to be reported.
    pub report_error: bool,
    /// Whether the run ends here, in silent mode, as a line was selected.
    pub stop: bool,
}

/// The output of one readable source outside silent mode: the count of its
/// selected lines when counting, else its selected lines rendered.
pub open spec fn source_text(o: OptionsView, path: Seq<char>, lines: Seq<Seq<char>>, spans: Seq<Seq<MatchSpan>>) -> Seq<char> {
    let n = paired(lines, spans);
    if o.count_lines {
        output_line(o, path, decimal(included_count(lines, spans, o.invert_match, n)).push('\n'))
    } else {
        rendered(o, path, lines, spans, n)
    }
}

/// What is written before a source's output: a blank line when lines are
/// prefixed and an earlier source's output was written.
pub open spec fn source_break(o: OptionsView, wrote_source: bool) -> Seq<char> {
    if o.file_prefix && wrote_source {
        seq!['\n']
    } else {
        Seq::empty()
    }
}

impl OutputBuffer {
    /// An empty buffer with an empty destination.
    pub fn default() -> (r: OutputBuffer)
        ensures
            r.buffer@ == Seq::<char>::empty(),
            r.destination@ == Seq::<char>::empty(),
            !r.wrote_source,
    {
        OutputBuffer { buffer: empty_with_capacity(BUFFER_SIZE), destination: String::new(), wrote_source: false }
    }

    /// Renders the selected lines of `source`, paired in order with their
    /// matches. In silent mode nothing is written, and the answer is whether
    /// some line was selected, which ends the run; otherwise the answer is
    /// false.
    pub fn append_source_matches(&mut self, options: &Options, source: &Source, source_matches: Vec<Vec<MatchSpan>>) -> (stop: bool)
        requires
            all_fit(split_on(source.data@, '\n'), span_views(source_matches@)),
        ensures
            ({
                let lines = split_on(source.data@, '\n');
                let spans = span_views(source_matches@);
                let n = paired(lines, spans);
                if options.silent {
                    &&& stop == any_included(lines, spans, options.invert_match, n)
                    &&& final(self).buffer@ == old(self).buffer@
                    &&& final(self).destination@ == old(self).destination@
                } else {
                    !stop && written(*final(self)) == written(*old(self)) + rendered(options@, source.path@, lines, spans, n)
                }
            }),
            final(self).wrote_source == old(self).wrote_source,
    {
        let lines = split_text(source.data.as_str(), '\n');
        let ghost lv = views(lines@);
        let ghost sv = span_views(source_matches@);
        let n = if lines.len() <= source_matches.len() { lines.len() } else { source_matches.len() };
        let ghost start = written(*self);
        let mut i: usize = 0;
        while i < n
            invariant
                lv == views(lines@),
                lv == split_on(source.data@, '\n'),
                sv == span_views(source_matches@),
                all_fit(lv, sv),
                n == paired(lv, sv),
                n <= lines@.len(),
                n <= source_matches@.len(),
                i <= n,
                options.silent ==> !any_included(lv, sv, options.invert_match, i as int),
                written(*self) == start + rendered(options@, source.path@, lv, sv, i as int),
                options.silent ==> self.buffer@ == old(self).buffer@ && self.destination@ == old(self).destination@,
                self.wrote_source == old(self).wrote_source,
                start == written(*old(self)),
            decreases n - i,
        {
            let spans = &source_matches[i];
            let line = lines[i].as_str();
            proof {
                assert(sv[i as int] == spans@);
                assert(line@ == lv[i as int]);
                reveal(all_fit);
                assert(spans_fit(sv[i as int], encode_utf8(lv[i as int])));
            }
            let selected = Self::is_selected(line, spans, options.invert_match);
            if selected && options.silent {
                proof {
                    assert(included(lv[i as int], sv[i as int], options.invert_match));
                    assert(any_included(lv, sv, options.invert_match, i as int + 1));
                    lemma_any_included_grows(lv, sv, options.invert_match, i as int + 1, n as int);
                }
                return true;
            }
            if selected {
                self.append_selected(options, source.path.as_str(), line, spans);
            }
            proof {
                assert(written(*self) == start + rendered(options@, source.path@, lv, sv, i + 1));
            }
            i = i + 1;
        }
        false
    }

    /// Whether a line with these matches is selected (see `included`).
    fn is_selected(line: &str, spans: &Vec<MatchSpan>, invert_match: bool) -> (r: bool)
        ensures
            r == included(line@, spans@, invert_match),
    {
        let has_match = spans.len() > 0;
        (has_match && !invert_match) || (!has_match && invert_match && !line.is_empty())
    }

    /// Writes one selected line as an output line.
    fn append_selected(&mut self, options: &Options, path: &str, line: &str, spans: &Vec<MatchSpan>)
        requires
            spans_fit(spans@, encode_utf8(line@)),
        ensures
            written(*final(self)) == written(*old(self)) + output_line(options@, path@, line_body(options@, line@, spans@)),
            final(self).wrote_source == old(self).wrote_source,
    {
        let body = Self::render_body(options, line, spans);
        self.append_line(options, path, body.as_str());
        proof {
            lemma_appended_written(*old(self), *self, output_line(options@, path@, line_body(options@, line@, spans@)));
        }
    }

    /// The text of one selected line before any prefix (see `line_body`).
    fn render_body(options: &Options, line: &str, spans: &Vec<MatchSpan>) -> (r: String)
        requires
            spans_fit(spans@, encode_utf8(line@)),
        ensures
            r@ == line_body(options@, line@, spans@),
    {
        let body = if options.color_output && spans.len() > 0 {
            Self::apply_match_color(line, spans, &options.colors)
        } else {
            String::from_str(line)
        };
        if options.color_output && !options.colors.selected_line.as_str().is_empty() {
            Self::apply_ansi_code(body.as_str(), options.colors.selected_line.as_str())
        } else {
            body
        }
    }

    /// Writes the number of selected lines of `source` as one output line.
    pub fn append_source_counts(&mut self, options: &Options, source: &Source, matching_lines: usize)
        ensures
            appended(*old(self), *final(self), output_line(options@, source.path@, decimal(matching_lines as nat).push('\n'))),
    {
        let mut line = String::new();
        push_decimal(&mut line, matching_lines);
        line.append("\n");
        assert(line@ == decimal(matching_lines as nat).push('\n')) by {
            reveal_strlit("\n");
        }
        self.append_line(options, source.path.as_str(), line.as_str());
    }

    /// Hands the buffered output on to the destination and empties the buffer.
    pub fn write_and_flush(&mut self)
        ensures
            final(self).destination@ == old(self).destination@ + old(self).buffer@,
            final(self).buffer@ == Seq::<char>::empty(),
            final(self).wrote_source == old(self).wrote_source,
    {
        self.destination.append(self.buffer.as_str());
        self.buffer = empty_with_capacity(BUFFER_SIZE);
    }

    /// Writes one line, prefixed when file prefixes are on and ended with a
    /// newline when it lacks one (see `output_line`); hands the buffer on
    /// once it holds `BUFFER_SIZE` bytes or more.
    pub fn append_line(&mut self, options: &Options, path: &str, line: &str)
        ensures
            appended(*old(self), *final(self), output_line(options@, path@, line@)),
    {
        let mut text = OutputBuffer { buffer: String::new(), destination: String::new(), wrote_source: false };
        if options.file_prefix {
            text.append_file_path(path, options.color_output, &options.colors);
            text.append_separator(options.color_output, &options.colors);
        }
        text.buffer.append(line);
        let chars = chars_of(text.buffer.as_str());
        if chars.len() == 0 || chars[chars.len() - 1] != '\n' {
            text.buffer.append("\n");
            assert(text.buffer@ == chars@.push('\n')) by {
                reveal_strlit("\n");
            }
        }
        self.append_text(text.buffer.as_str());
    }

    /// Writes `text`, handing the buffer on once it holds `BUFFER_SIZE`
    /// bytes or more.
    pub fn append_text(&mut self, text: &str)
        ensures
            appended(*old(self), *final(self), text@),
    {
        let ghost d = self.destination@;
        let ghost b = self.buffer@;
        self.buffer.append(text);
        if self.buffer.as_str().len() >= BUFFER_SIZE {
            self.write_and_flush();
            assert(self.destination@ =~= d + b + text@);
        }
    }

    /// Writes the display name of `path`: `(standard input)` for `-`,
    /// colored with the file-name color when `color` is set.
    pub fn append_file_path(&mut self, path: &str, color: bool, colors: &Colors)
        ensures
            final(self).destination@ == old(self).destination@,
            final(self).wrote_source == old(self).wrote_source,
            final(self).buffer@ == old(self).buffer@ + path_part(path@, color, colors@),
    {
        let name = if same_text(path, "-") {
            String::from_str("(standard input)")
        } else {
            String::from_str(path)
        };
        if color {
            let colored = Self::apply_ansi_code(name.as_str(), colors.file_name.as_str());
            self.buffer.append(colored.as_str());
        } else {
            self.buffer.append(name.as_str());
        }
    }

    /// Colors each match of `line` with the selected-match color, selecting
    /// the selected-line color again after each match when it is set.
    pub fn apply_match_color(line: &str, spans: &Vec<MatchSpan>, colors: &Colors) -> (r: String)
        requires
            spans_fit(spans@, line.spec_bytes()),
        ensures
            r@ == colored_line(line@, spans@, colors@),
    {
        let ghost bytes = line.spec_bytes();
        let mut out = String::new();
        let mut previous: usize = 0;
        let mut i: usize = 0;
        while i < spans.len()
            invariant
                bytes == line.spec_bytes(),
                bytes == encode_utf8(line@),
                spans_fit(spans@, bytes),
                i <= spans@.len(),
                previous == end_before(spans@, i as int),
                previous <= bytes.len(),
                is_char_boundary(bytes, previous as int),
                out@ == colored_prefix(bytes, spans@, i as int, colors@),
            decreases spans.len() - i,
        {
            let m = spans[i];
            assert(i > 0 ==> spans@[i - 1].end <= spans@[i as int].start);
            let before = byte_slice(line, previous, m.start);
            out.append(before);
            let matched = byte_slice(line, m.start, m.end);
            let colored = Self::apply_ansi_code(matched, colors.selected_match.as_str());
            out.append(colored.as_str());
            if !colors.selected_line.as_str().is_empty() {
                out.append("\x1b[");
                out.append(colors.selected_line.as_str());
                out.append("m");
            }
            previous = m.end;
            i = i + 1;
        }
        let (_head, rest) = line.split_at(previous);
        out.append(rest);
        assert(rest@ == piece(bytes, previous as int, bytes.len() as int));
        proof {
            reveal(colored_line);
        }
        out
    }

    /// Writes the separator `:` and a tab, colored with the separator color
    /// when `color` is set.
    pub fn append_separator(&mut self, color: bool, colors: &Colors)
        ensures
            final(self).destination@ == old(self).destination@,
            final(self).wrote_source == old(self).wrote_source,
            final(self).buffer@ == old(self).buffer@ + separator_part(color, colors@),
    {
        if color {
            let colored = Self::apply_ansi_code(":\t", colors.separator.as_str());
            self.buffer.append(colored.as_str());
        } else {
            self.buffer.append(":\t");
        }
    }

    /// `content` between the escape selecting `ansi_code` and the reset escape.
    pub fn apply_ansi_code(content: &str, ansi_code: &str) -> (r: String)
        ensures
            r@ == ansi(ansi_code@, content@),
    {
        String::from_str("\x1b[").concat(ansi_code).concat("m").concat(content).concat("\x1b[0m")
    }

    /// Handles one source of a run. A source that could not be read writes
    /// nothing, and its error is reported unless messages are suppressed. In
    /// silent mode nothing is written and the run stops at a selected line.
    /// Otherwise the source's output (see `source_text`) is written, set
    /// apart from an earlier source's output (see `source_break`).
    pub fn process_source(&mut self, options: &Options, source: &Source, read_ok: bool, spans: Vec<Vec<MatchSpan>>) -> (r: SourceStep)
        requires
            read_ok ==> all_fit(split_on(source.data@, '\n'), span_views(spans@)),
        ensures
            ({
                let lines = split_on(source.data@, '\n');
                let sv = span_views(spans@);
                let text = source_text(options@, source.path@, lines, sv);
                if !read_ok {
                    &&& r == (SourceStep { report_error: !options.no_messages, stop: false })
                    &&& *final(self) == *old(self)
                } else if options.silent {
                    &&& r == (SourceStep { report_error: false, stop: any_included(lines, sv, options.invert_match, paired(lines, sv)) })
                    &&& final(self).buffer@ == old(self).buffer@
                    &&& final(self).destination@ == old(self).destination@
                    &&& final(self).wrote_source == old(self).wrote_source
                } else {
                    &&& r == (SourceStep { report_error: false, stop: false })
                    &&& written(*final(self)) == written(*old(self)) + if text.len() > 0 {
                        source_break(options@, old(self).wrote_source) + text
                    } else {
                        Seq::empty()
                    }
                    &&& final(self).wrote_source == (old(self).wrote_source || text.len() > 0)
                }
            }),
    {
        if !read_ok {
            return SourceStep { report_error: !options.no_messages, stop: false };
        }
        if options.silent {
            let stop = self.append_source_matches(options, source, spans);
            return SourceStep { report_error: false, stop };
        }
        let mut part = OutputBuffer { buffer: String::new(), destination: String::new(), wrote_source: false };
        let ghost empty_part = part;
        if options.count_lines {
            let count = count_included(&source.data, &spans, options.invert_match);
            part.append_source_counts(options, source, count);
            proof {
                lemma_appended_written(
                    empty_part,
                    part,
                    source_text(options@, source.path@, split_on(source.data@, '\n'), span_views(spans@)),
                );
            }
        } else {
            part.append_source_matches(options, source, spans);
        }
        let ghost text = written(part);
        assert(text =~= source_text(options@, source.path@, split_on(source.data@, '\n'), span_views(spans@)));
        if part.destination.as_str().is_empty() && part.buffer.as_str().is_empty() {
            assert(text.len() == 0);
            return SourceStep { report_error: false, stop: false };
        }
        let ghost before = written(*self);
        if options.file_prefix && self.wrote_source {
            self.append_text("\n");
            proof {
                reveal_strlit("\n");
                lemma_appended_written(*old(self), *self, "\n"@);
            }
        }
        let ghost mid = *self;
        self.append_text(part.destination.as_str());
        let ghost mid2 = *self;
        self.append_text(part.buffer.as_str());
        proof {
            lemma_appended_written(mid, mid2, part.destination@);
            lemma_appended_written(mid2, *self, part.buffer@);
            assert(written(*self) =~= before + source_break(options@, old(self).wrote_source) + text);
        }
        self.wrote_source = true;
        SourceStep { report_error: false, stop: false }
    }
}

} // verus!
