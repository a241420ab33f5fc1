//! Run settings and the resolver that applies one option token to them.
use vstd::prelude::*;
use crate::colors::{Colors, ColorsView, default_colors};
use crate::error::ConfigError;
use crate::text::{
    chars_of, find_char, index_of, index_of_from, lemma_index_of_from_bounds, same_text, split_on, split_text,
    starts_with_text, string_of, views,
};

verus! {

/// Settings for one run.
#[derive(PartialEq, Eq, Debug, Clone)]
pub struct Options {
    /// Patterns to find matches for, in the order given.
    pub patterns: Vec<String>,
    /// Whether output is colored.
    pub color_output: bool,
    /// The palette used when output is colored.
    pub colors: Colors,
    /// Whether each output line is prefixed with its source's name.
    pub file_prefix: bool,
    /// Whether matching ignores case.
    pub ignore_case: bool,
    /// Whether lines without a match are selected instead.
    pub invert_match: bool,
    /// Whether a pattern must match a whole line.
    pub line_match: bool,
    /// Whether a pattern must match a whole word.
    pub word_match: bool,
    /// Whether nothing is written to the output.
    pub silent: bool,
    /// Whether error messages about sources are suppressed.
    pub no_messages: bool,
    /// Whether a count of selected lines replaces the lines themselves.
    pub count_lines: bool,
}

/// The settings of a run as values.
pub struct OptionsView {
    pub patterns: Seq<Seq<char>>,
    pub color_output: bool,
    pub colors: ColorsView,
    pub file_prefix: bool,
    pub ignore_case: bool,
    pub invert_match: bool,
    pub line_match: bool,
    pub word_match: bool,
    pub silent: bool,
    pub no_messages: bool,
    pub count_lines: bool,
}

impl View for Options {
    type V = OptionsView;

    open spec fn view(&self) -> OptionsView {
        OptionsView {
            patterns: views(self.patterns@),
            color_output: self.color_output,
            colors: self.colors@,
            file_prefix: self.file_prefix,
            ignore_case: self.ignore_case,
            invert_match: self.invert_match,
            line_match: self.line_match,
            word_match: self.word_match,
            silent: self.silent,
            no_messages: self.no_messages,
            count_lines: self.count_lines,
        }
    }
}

/// The settings before any option is applied.
pub open spec fn default_options() -> OptionsView {
    OptionsView {
        patterns: Seq::empty(),
        color_output: false,
        colors: default_colors(),
        file_prefix: false,
        ignore_case: false,
        invert_match: false,
        line_match: false,
        word_match: false,
        silent: false,
        no_messages: false,
        count_lines: false,
    }
}

/// Silence implies that messages are suppressed too.
pub open spec fn silence_is_quiet(o: OptionsView) -> bool {
    o.silent ==> o.no_messages
}

/// An option token split into its name and value: at the first `=`; else,
/// for a short option longer than two characters, after the second
/// character; else the whole token with an empty value.
pub open spec fn split_option(arg: Seq<char>) -> (Seq<char>, Seq<char>) {
    let k = index_of(arg, '=');
    if k < arg.len() {
        (arg.subrange(0, k), arg.subrange(k + 1, arg.len() as int))
    } else if !"--"@.is_prefix_of(arg) && arg.len() > 2 {
        (arg.subrange(0, 2), arg.subrange(2, arg.len() as int))
    } else {
        (arg, Seq::empty())
    }
}

/// A pattern value without one enclosing pair of double quotes.
pub open spec fn unquoted(v: Seq<char>) -> Seq<char> {
    if v.len() >= 2 && v[0] == '"' && v.last() == '"' {
        v.subrange(1, v.len() - 1)
    } else {
        v
    }
}

/// The patterns that one pattern value stands for: one per line.
pub open spec fn value_patterns(v: Seq<char>) -> Seq<Seq<char>> {
    split_on(unquoted(v), '\n')
}

/// Whether `name` asks for patterns to be read from a named source.
pub open spec fn is_file_option(name: Seq<char>) -> bool {
    name == "-f"@ || name == "--file"@
}

/// Whether `name` gives patterns directly.
pub open spec fn is_pattern_option(name: Seq<char>) -> bool {
    name == "-e"@ || name == "--regexp"@
}

/// The settings after the option `name` with `value` is applied, or `None`
/// when no rule recognises `name`. A pattern-file option is not applied here:
/// its patterns come from the source it names.
pub open spec fn applied(o: OptionsView, name: Seq<char>, value: Seq<char>) -> Option<OptionsView> {
    if is_pattern_option(name) {
        Some(OptionsView { patterns: o.patterns + value_patterns(value), ..o })
    } else if name == "-h"@ || name == "--no-filename"@ {
        Some(OptionsView { file_prefix: false, ..o })
    } else if name == "-H"@ || name == "--with-filename"@ {
        Some(OptionsView { file_prefix: true, ..o })
    } else if name == "-i"@ || name == "-y"@ || name == "--ignore-case"@ {
        Some(OptionsView { ignore_case: true, ..o })
    } else if name == "--no-ignore-case"@ {
        Some(OptionsView { ignore_case: false, ..o })
    } else if name == "-v"@ || name == "--invert-match"@ {
        Some(OptionsView { invert_match: true, ..o })
    } else if name == "-x"@ || name == "--line-regexp"@ {
        Some(OptionsView { line_match: true, ..o })
    } else {
        applied_more(o, name, value)
    }
}

/// The rest of `applied`: the output and reporting switches.
pub open spec fn applied_more(o: OptionsView, name: Seq<char>, value: Seq<char>) -> Option<OptionsView> {
    if name == "-w"@ || name == "--word-regexp"@ {
        Some(OptionsView { word_match: true, ..o })
    } else if name == "-q"@ || name == "--quiet"@ || name == "--silent"@ {
        Some(OptionsView { silent: true, no_messages: true, ..o })
    } else if name == "-s"@ || name == "--no-messages"@ {
        Some(OptionsView { no_messages: true, ..o })
    } else if name == "-c"@ || name == "--count"@ {
        Some(OptionsView { count_lines: true, ..o })
    } else if name == "--color"@ || name == "--colour"@ {
        if value == "always"@ {
            Some(OptionsView { color_output: true, ..o })
        } else if value == "never"@ {
            Some(OptionsView { color_output: false, ..o })
        } else {
            Some(o)
        }
    } else {
        None
    }
}

/// The settings after the token `arg` is applied (see `applied`).
pub open spec fn option_result(o: OptionsView, arg: Seq<char>) -> Option<OptionsView> {
    applied(o, split_option(arg).0, split_option(arg).1)
}

/// Applying a token that sets switches, rather than adding patterns, a second
/// time leaves the settings as one application left them.
pub proof fn lemma_switch_idempotent(o: OptionsView, arg: Seq<char>)
    requires
        !is_pattern_option(split_option(arg).0),
        option_result(o, arg) is Some,
    ensures
        option_result(option_result(o, arg)->0, arg) == option_result(o, arg),
{
}

/// A value bundled after `-e` is the same value as one given after `-e=`,
/// whenever the value holds no `=`.
pub proof fn lemma_bundled_value(v: Seq<char>)
    requires
        !v.contains('='),
    ensures
        split_option("-e"@ + v) == split_option("-e="@ + v),
        split_option("-e"@ + v) == ("-e"@, v),
{
    reveal_strlit("-e");
    reveal_strlit("-e=");
    reveal_strlit("--");
    let a = "-e"@ + v;
    let b = "-e="@ + v;
    lemma_index_of_from_bounds(a, '=', 0);
    if index_of(a, '=') < a.len() {
        let k = index_of(a, '=');
        assert(k >= 2 ==> a[k] == v[k - 2]);
        assert(v.contains('='));
    }
    assert(index_of_from(b, '=', 2) == 2);
    assert(index_of_from(b, '=', 1) == 2);
    assert(index_of(b, '=') == 2);
    assert(b.subrange(0, 2) =~= "-e"@);
    assert(b.subrange(3, b.len() as int) =~= v);
    assert(!"--"@.is_prefix_of(a)) by {
        assert(a[1] == 'e');
        assert("--"@[1] == '-');
        if "--"@.is_prefix_of(a) {
            assert(a.subrange(0, 2)[1] == "--"@[1]);
        }
    }
    if v.len() > 0 {
        assert(a.subrange(0, 2) =~= "-e"@);
        assert(a.subrange(2, a.len() as int) =~= v);
    } else {
        assert(a =~= "-e"@);
    }
}

/// Whether `s` is `a` or `b`.
fn either(s: &str, a: &str, b: &str) -> (r: bool)
    ensures
        r == (s@ == a@ || s@ == b@),
{
    let x = same_text(s, a);
    let y = same_text(s, b);
    x || y
}

impl Options {
    /// The built-in settings: no patterns, no color, the built-in palette
    /// and every switch off.
    pub fn default() -> (r: Options)
        ensures
            r@ == default_options(),
    {
        let r = Options {
            patterns: Vec::new(),
            color_output: false,
            colors: Colors::default(),
            file_prefix: false,
            ignore_case: false,
            invert_match: false,
            line_match: false,
            word_match: false,
            silent: false,
            no_messages: false,
            count_lines: false,
        };
        assert(r@.patterns =~= Seq::<Seq<char>>::empty());
        r
    }

    /// Applies one option token. A pattern-file option changes nothing and
    /// hands back the name of the source to read, whose text then goes to
    /// `handle_pattern_file`; any other known option is applied; an unknown
    /// one is refused and changes nothing.
    pub fn parse_option(&mut self, arg: String) -> (r: Result<Option<String>, ConfigError>)
        ensures
            ({
                let (name, value) = split_option(arg@);
                if is_file_option(name) {
                    &&& r matches Ok(Some(path)) && path@ == value
                    &&& final(self)@ == old(self)@
                } else {
                    match applied(old(self)@, name, value) {
                        Some(next) => r matches Ok(None) && final(self)@ == next,
                        None => r matches Err(ConfigError::UnknownOption(n)) && n@ == name
                            && final(self)@ == old(self)@,
                    }
                }
            }),
            silence_is_quiet(old(self)@) ==> silence_is_quiet(final(self)@),
    {
        let (option, value) = Self::split_option(arg.as_str());
        let o = option.as_str();
        if either(o, "-f", "--file") {
            return Ok(Some(value));
        }
        if self.apply_named(o, value.as_str()) {
            Ok(None)
        } else {
            Err(ConfigError::UnknownOption(option))
        }
    }

    /// Applies the option `name` with `value` as `applied` says; false when
    /// no rule recognises `name`, and then nothing changes.
    fn apply_named(&mut self, name: &str, value: &str) -> (known: bool)
        requires
            !is_file_option(name@),
        ensures
            known == applied(old(self)@, name@, value@) is Some,
            known ==> final(self)@ == applied(old(self)@, name@, value@)->0,
            !known ==> final(self)@ == old(self)@,
    {
        let o = name;
        if either(o, "-e", "--regexp") {
            self.handle_pattern(value);
        } else if either(o, "-h", "--no-filename") || either(o, "-H", "--with-filename") {
            self.handle_prefix(o);
        } else if either(o, "-i", "-y") || either(o, "--ignore-case", "--no-ignore-case") {
            self.handle_ignore_case(o);
        } else if either(o, "-v", "--invert-match") {
            self.invert_match = true;
        } else if either(o, "-x", "--line-regexp") {
            self.line_match = true;
        } else {
            return self.apply_more(o, value);
        }
        true
    }

    /// Applies the option `name` with `value` as `applied_more` says.
    fn apply_more(&mut self, name: &str, value: &str) -> (known: bool)
        ensures
            known == applied_more(old(self)@, name@, value@) is Some,
            known ==> final(self)@ == applied_more(old(self)@, name@, value@)->0,
            !known ==> final(self)@ == old(self)@,
    {
        let o = name;
        if either(o, "-w", "--word-regexp") {
            self.word_match = true;
        } else if either(o, "-q", "--quiet") || same_text(o, "--silent") {
            self.silent = true;
            self.no_messages = true;
        } else if either(o, "-s", "--no-messages") {
            self.no_messages = true;
        } else if either(o, "-c", "--count") {
            self.count_lines = true;
        } else if either(o, "--color", "--colour") {
            self.handle_color(value);
        } else {
            return false;
        }
        true
    }

    /// Appends each piece, in order, as a pattern.
    fn append_patterns(&mut self, pieces: Vec<String>)
        ensures
            final(self)@ == (OptionsView { patterns: old(self)@.patterns + views(pieces@), ..old(self)@ }),
    {
        let mut i: usize = 0;
        while i < pieces.len()
            invariant
                i <= pieces@.len(),
                self@ == (OptionsView {
                    patterns: old(self)@.patterns + views(pieces@).subrange(0, i as int),
                    ..old(self)@
                }),
            decreases pieces.len() - i,
        {
            let ghost before = self@.patterns;
            self.patterns.push(pieces[i].clone());
            assert(self@.patterns =~= before.push(pieces@[i as int]@));
            assert(views(pieces@).subrange(0, i + 1) =~= views(pieces@).subrange(0, i as int).push(
                pieces@[i as int]@,
            ));
            i = i + 1;
        }
        assert(views(pieces@).subrange(0, i as int) =~= views(pieces@));
    }

    /// Adds the patterns of one pattern value: one enclosing pair of double
    /// quotes is dropped and each line of the rest is one pattern.
    fn handle_pattern(&mut self, patterns: &str)
        ensures
            final(self)@ == (OptionsView {
                patterns: old(self)@.patterns + value_patterns(patterns@),
                ..old(self)@
            }),
    {
        let chars = chars_of(patterns);
        let n = chars.len();
        let inner = if n >= 2 && chars[0] == '"' && chars[n - 1] == '"' {
            string_of(&chars, 1, n - 1)
        } else {
            string_of(&chars, 0, n)
        };
        assert(chars@.subrange(0, n as int) == chars@);
        let pieces = split_text(inner.as_str(), '\n');
        self.append_patterns(pieces);
    }

    /// Adds each line of the text of a pattern source as a pattern.
    pub fn handle_pattern_file(&mut self, data: &str)
        ensures
            final(self)@ == (OptionsView {
                patterns: old(self)@.patterns + split_on(data@, '\n'),
                ..old(self)@
            }),
    {
        let pieces = split_text(data, '\n');
        self.append_patterns(pieces);
    }

    /// Sets `file_prefix`: off for `-h` and `--no-filename`, on otherwise.
    fn handle_prefix(&mut self, option: &str)
        ensures
            final(self)@ == (OptionsView {
                file_prefix: !(option@ == "-h"@ || option@ == "--no-filename"@),
                ..old(self)@
            }),
    {
        if same_text(option, "-h") || same_text(option, "--no-filename") {
            self.file_prefix = false;
        } else {
            self.file_prefix = true;
        }
    }

    /// Sets `ignore_case`: on for `-i`, `-y` and `--ignore-case`, off otherwise.
    fn handle_ignore_case(&mut self, option: &str)
        ensures
            final(self)@ == (OptionsView {
                ignore_case: option@ == "-i"@ || option@ == "-y"@ || option@ == "--ignore-case"@,
                ..old(self)@
            }),
    {
        if same_text(option, "-i") || same_text(option, "-y") || same_text(option, "--ignore-case") {
            self.ignore_case = true;
        } else {
            self.ignore_case = false;
        }
    }

    /// Sets `color_output` from `always` or `never`; any other value changes nothing.
    fn handle_color(&mut self, value: &str)
        ensures
            final(self)@ == (if value@ == "always"@ {
                OptionsView { color_output: true, ..old(self)@ }
            } else if value@ == "never"@ {
                OptionsView { color_output: false, ..old(self)@ }
            } else {
                old(self)@
            }),
    {
        if same_text(value, "always") {
            self.color_output = true;
        } else if same_text(value, "never") {
            self.color_output = false;
        }
    }

    /// Splits an option token into its name and value (see `split_option`).
    pub(crate) fn split_option(arg: &str) -> (r: (String, String))
        ensures
            r.0@ == split_option(arg@).0,
            r.1@ == split_option(arg@).1,
    {
        let chars = chars_of(arg);
        let n = chars.len();
        let k = find_char(&chars, '=');
        proof {
            lemma_index_of_from_bounds(chars@, '=', 0);
        }
        if k < n {
            (string_of(&chars, 0, k), string_of(&chars, k + 1, n))
        } else if !starts_with_text(arg, "--") && n > 2 {
            (string_of(&chars, 0, 2), string_of(&chars, 2, n))
        } else {
            assert(chars@.subrange(0, n as int) == chars@);
            (string_of(&chars, 0, n), String::new())
        }
    }
}

} // verus!
