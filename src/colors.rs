//! The palette of ANSI parameter strings used to highlight output.
use vstd::prelude::*;
use vstd::utf8::is_ascii_chars;
use crate::text::{chars_of, same_text, split_on, split_text, string_of, views};

verus! {

/// Defines the ANSI parameters used for each kind of output highlight.
#[derive(PartialEq, Eq, Debug, Clone)]
pub struct Colors {
    /// Matching text in selected lines. Defaults to bold yellow.
    pub selected_match: String,
    /// Matching text in context lines. Defaults to bold yellow.
    pub context_match: String,
    /// Whole selected lines. Defaults to the terminal's own style.
    pub selected_line: String,
    /// Whole context lines. Defaults to the terminal's own style.
    pub context_line: String,
    /// File name prefixes. Defaults to green.
    pub file_name: String,
    /// Line numbers. Defaults to red.
    pub line_number: String,
    /// Byte offsets. Defaults to cyan.
    pub byte_offset: String,
    /// Separators between prefixes and content. Defaults to magenta.
    pub separator: String,
}

/// The characters of each entry of a palette.
pub struct ColorsView {
    pub selected_match: Seq<char>,
    pub context_match: Seq<char>,
    pub selected_line: Seq<char>,
    pub context_line: Seq<char>,
    pub file_name: Seq<char>,
    pub line_number: Seq<char>,
    pub byte_offset: Seq<char>,
    pub separator: Seq<char>,
}

impl View for Colors {
    type V = ColorsView;

    open spec fn view(&self) -> ColorsView {
        ColorsView {
            selected_match: self.selected_match@,
            context_match: self.context_match@,
            selected_line: self.selected_line@,
            context_line: self.context_line@,
            file_name: self.file_name@,
            line_number: self.line_number@,
            byte_offset: self.byte_offset@,
            separator: self.separator@,
        }
    }
}

/// The built-in palette.
pub open spec fn default_colors() -> ColorsView {
    ColorsView {
        selected_match: "1;33"@,
        context_match: "1:33"@,
        selected_line: ""@,
        context_line: ""@,
        file_name: "32"@,
        line_number: "31"@,
        byte_offset: "36"@,
        separator: "35"@,
    }
}

/// Whether `key` names an entry of the palette.
pub open spec fn known_key(key: Seq<char>) -> bool {
    key == "mt"@ || key == "ms"@ || key == "mc"@ || key == "sl"@ || key == "cx"@ || key == "fn"@
        || key == "ln"@ || key == "bn"@ || key == "se"@
}

/// Whether an entry has the form `key=code`: a two-character key, `=`, and
/// a code of at least one character.
pub open spec fn well_formed_entry(entry: Seq<char>) -> bool {
    entry.len() > 3 && entry[2] == '='
}

/// Whether an entry is ignored: malformed, or naming no palette entry.
pub open spec fn rejected_entry(entry: Seq<char>) -> bool {
    !(well_formed_entry(entry) && known_key(entry.subrange(0, 2)))
}

/// The ignored entries among `entries`, in order.
pub open spec fn rejected_entries(entries: Seq<Seq<char>>) -> Seq<Seq<char>>
    decreases entries.len(),
{
    if entries.len() == 0 {
        Seq::empty()
    } else {
        let rest = rejected_entries(entries.drop_last());
        if rejected_entry(entries.last()) {
            rest.push(entries.last())
        } else {
            rest
        }
    }
}

/// The parts of a palette description that select nothing: the ignored
/// entries, or the whole description when it is not all ASCII.
pub open spec fn rejected_colors(s: Seq<char>) -> Seq<Seq<char>> {
    if is_ascii_chars(s) {
        rejected_entries(split_on(s, ':'))
    } else {
        seq![s]
    }
}

/// The effect of one `key=code` entry of a palette description. The key is
/// the first two characters and the code everything after the `=`; a
/// malformed entry, or one with an unknown key, changes nothing.
pub open spec fn color_entry(c: ColorsView, entry: Seq<char>) -> ColorsView {
    if well_formed_entry(entry) {
        let key = entry.subrange(0, 2);
        let code = entry.subrange(3, entry.len() as int);
        if key == "mt"@ {
            ColorsView { selected_match: code, context_match: code, ..c }
        } else if key == "ms"@ {
            ColorsView { selected_match: code, ..c }
        } else if key == "mc"@ {
            ColorsView { context_match: code, ..c }
        } else if key == "sl"@ {
            ColorsView { selected_line: code, ..c }
        } else if key == "cx"@ {
            ColorsView { context_line: code, ..c }
        } else if key == "fn"@ {
            ColorsView { file_name: code, ..c }
        } else if key == "ln"@ {
            ColorsView { line_number: code, ..c }
        } else if key == "bn"@ {
            ColorsView { byte_offset: code, ..c }
        } else if key == "se"@ {
            ColorsView { separator: code, ..c }
        } else {
            c
        }
    } else {
        c
    }
}

/// The built-in palette with the given entries applied from first to last.
pub open spec fn colors_from(entries: Seq<Seq<char>>) -> ColorsView
    decreases entries.len(),
{
    if entries.len() == 0 {
        default_colors()
    } else {
        color_entry(colors_from(entries.drop_last()), entries.last())
    }
}

/// The palette that a colon-separated description selects; a description
/// that is not all ASCII selects the built-in palette.
pub open spec fn parsed_colors(s: Seq<char>) -> ColorsView {
    if is_ascii_chars(s) {
        colors_from(split_on(s, ':'))
    } else {
        default_colors()
    }
}

impl Colors {
    /// The built-in palette.
    pub fn default() -> (r: Colors)
        ensures
            r@ == default_colors(),
    {
        Colors {
            selected_match: String::from_str("1;33"),
            context_match: String::from_str("1:33"),
            selected_line: String::from_str(""),
            context_line: String::from_str(""),
            file_name: String::from_str("32"),
            line_number: String::from_str("31"),
            byte_offset: String::from_str("36"),
            separator: String::from_str("35"),
        }
    }

    /// Applies one `key=code` entry to this palette.
    fn apply_entry(&mut self, entry: &str)
        ensures
            final(self)@ == color_entry(old(self)@, entry@),
    {
        let chars = chars_of(entry);
        if chars.len() <= 3 || chars[2] != '=' {
            return;
        }
        let key = string_of(&chars, 0, 2);
        let code = string_of(&chars, 3, chars.len());
        let key = key.as_str();
        if same_text(key, "mt") {
            self.selected_match = code.clone();
            self.context_match = code;
        } else if same_text(key, "ms") {
            self.selected_match = code;
        } else if same_text(key, "mc") {
            self.context_match = code;
        } else if same_text(key, "sl") {
            self.selected_line = code;
        } else if same_text(key, "cx") {
            self.context_line = code;
        } else if same_text(key, "fn") {
            self.file_name = code;
        } else if same_text(key, "ln") {
            self.line_number = code;
        } else if same_text(key, "bn") {
            self.byte_offset = code;
        } else if same_text(key, "se") {
            self.separator = code;
        }
    }

    /// Builds a palette from a colon-separated list of `key=code` entries,
    /// keeping the built-in value of every entry not given or malformed.
    pub fn parse_colors(colors_str: String) -> (r: Colors)
        ensures
            r@ == parsed_colors(colors_str@),
    {
        let mut colors = Colors::default();
        if !colors_str.is_ascii() {
            return colors;
        }
        let entries = split_text(colors_str.as_str(), ':');
        let mut i: usize = 0;
        while i < entries.len()
            invariant
                i <= entries@.len(),
                colors@ == colors_from(views(entries@).subrange(0, i as int)),
            decreases entries.len() - i,
        {
            colors.apply_entry(entries[i].as_str());
            proof {
                let seen = views(entries@).subrange(0, i + 1);
                assert(seen.drop_last() == views(entries@).subrange(0, i as int));
            }
            i = i + 1;
        }
        assert(views(entries@).subrange(0, i as int) == views(entries@));
        colors
    }

    /// The parts of a palette description that `parse_colors` ignores, so
    /// that they can be reported.
    pub fn rejected_colors(colors_str: &String) -> (r: Vec<String>)
        ensures
            views(r@) == rejected_colors(colors_str@),
    {
        let mut r: Vec<String> = Vec::new();
        if !colors_str.is_ascii() {
            r.push(colors_str.clone());
            assert(views(r@) =~= seq![colors_str@]);
            return r;
        }
        let entries = split_text(colors_str.as_str(), ':');
        let mut i: usize = 0;
        while i < entries.len()
            invariant
                i <= entries@.len(),
                views(r@) == rejected_entries(views(entries@).subrange(0, i as int)),
            decreases entries.len() - i,
        {
            let entry = entries[i].as_str();
            let chars = chars_of(entry);
            let mut rejected = true;
            if chars.len() > 3 && chars[2] == '=' {
                let key = string_of(&chars, 0, 2);
                let k = key.as_str();
                let known = same_text(k, "mt") || same_text(k, "ms") || same_text(k, "mc") || same_text(k, "sl")
                    || same_text(k, "cx") || same_text(k, "fn") || same_text(k, "ln") || same_text(k, "bn")
                    || same_text(k, "se");
                rejected = !known;
            }
            let ghost prior = views(r@);
            if rejected {
                r.push(entries[i].clone());
                assert(views(r@) =~= prior.push(entries@[i as int]@));
            }
            proof {
                let seen = views(entries@).subrange(0, i + 1);
                assert(seen.drop_last() == views(entries@).subrange(0, i as int));
            }
            i = i + 1;
        }
        assert(views(entries@).subrange(0, i as int) == views(entries@));
        r
    }
}

} // verus!
