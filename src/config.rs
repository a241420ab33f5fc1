//! Turning command-line arguments into one run configuration.
use vstd::prelude::*;
use crate::error::ConfigError;
use crate::colors::{Colors, ColorsView};
use crate::options::{is_file_option, is_pattern_option, applied, default_options, silence_is_quiet, split_option, Options, OptionsView};
use crate::source::Source;
use crate::text::{chars_of, split_on, starts_with_text, views};

verus! {

/// The sources and options of one run.
#[derive(Clone, Debug, Eq, PartialEq)]
pub struct Config {
    /// The sources to search, in order.
    pub sources: Vec<Source>,
    /// The settings of the run.
    pub options: Options,
}

/// Arguments sorted so far: source operands, option tokens, and whether a
/// pattern was given explicitly.
pub struct Sorted {
    pub sources: Seq<Seq<char>>,
    pub options: Seq<Seq<char>>,
    pub explicit: bool,
}

/// Whether an option takes its value bundled or from the next argument.
pub open spec fn needs_value(a: Seq<char>) -> bool {
    "-e"@.is_prefix_of(a) || "-f"@.is_prefix_of(a)
}

/// Whether an option token gives a pattern explicitly.
pub open spec fn gives_pattern(a: Seq<char>) -> bool {
    "-e"@.is_prefix_of(a) || split_option(a).0 == "--regexp"@
}

/// Whether an argument is an option: it starts with `-` and is longer than
/// that (a bare `-` names standard input).
pub open spec fn is_option(a: Seq<char>) -> bool {
    a.len() > 1 && a[0] == '-'
}

/// Sorts `args[i..]` onto `acc`; a short option that needs a value and
/// stands alone takes the next argument as its value, and fails with its own
/// text when it is the last argument.
pub open spec fn sort_args(args: Seq<Seq<char>>, i: int, acc: Sorted) -> Result<Sorted, Seq<char>>
    decreases args.len() - i,
{
    if i >= args.len() || i < 0 {
        Ok(acc)
    } else {
        let a = args[i];
        if needs_value(a) && a.len() == 2 {
            if i + 1 >= args.len() {
                Err(a)
            } else {
                sort_args(
                    args,
                    i + 2,
                    Sorted { options: acc.options.push(a + args[i + 1]), explicit: acc.explicit || gives_pattern(a), ..acc },
                )
            }
        } else if is_option(a) {
            sort_args(
                args,
                i + 1,
                Sorted { options: acc.options.push(a), explicit: acc.explicit || gives_pattern(a), ..acc },
            )
        } else {
            sort_args(args, i + 1, Sorted { sources: acc.sources.push(a), ..acc })
        }
    }
}

/// What sorting the arguments after the program name gives: the sources and
/// the option tokens, where, absent an explicit pattern, the first source
/// becomes a `--regexp=` token at the end. `Err(Some(a))`: option `a` lacks
/// its value; `Err(None)`: no pattern at all.
pub open spec fn preprocessed(args: Seq<Seq<char>>) -> Result<(Seq<Seq<char>>, Seq<Seq<char>>), Option<Seq<char>>> {
    match sort_args(args, 1, Sorted { sources: Seq::empty(), options: Seq::empty(), explicit: false }) {
        Err(a) => Err(Some(a)),
        Ok(s) => if s.explicit {
            Ok((s.sources, s.options))
        } else if s.sources.len() == 0 {
            Err(None)
        } else {
            Ok((s.sources.drop_first(), s.options.push("--regexp="@ + s.sources[0])))
        },
    }
}

/// The sorted view of the exec state of `preprocess_args`.
pub open spec fn sorted_of(sources: Seq<String>, options: Seq<String>, explicit: bool) -> Sorted {
    Sorted { sources: views(sources), options: views(options), explicit }
}

/// Whether `preprocess_args` answered `r` to arguments whose views are `args`.
pub open spec fn preprocess_result(
    args: Seq<Seq<char>>,
    r: Result<(Vec<String>, Vec<String>), ConfigError>,
) -> bool {
    match preprocessed(args) {
        Ok((s, o)) => r matches Ok((rs, ro)) && views(rs@) == s && views(ro@) == o,
        Err(Some(a)) => r matches Err(ConfigError::MissingValue(m)) && m@ == a,
        Err(None) => r matches Err(ConfigError::MissingPattern),
    }
}

/// The settings after the option tokens are applied in order to `o`; the
/// lines of `texts[i]` are the patterns of a pattern-file token at `i`.
/// `Err(name)`: the first token that no rule recognises.
pub open spec fn resolved(o: OptionsView, tokens: Seq<Seq<char>>, texts: Seq<Seq<char>>) -> Result<OptionsView, Seq<char>>
    decreases tokens.len(),
{
    if tokens.len() == 0 {
        Ok(o)
    } else {
        match resolved(o, tokens.drop_last(), texts) {
            Err(name) => Err(name),
            Ok(p) => {
                let (name, value) = split_option(tokens.last());
                if is_file_option(name) {
                    Ok(OptionsView { patterns: p.patterns + split_on(texts[tokens.len() - 1], '\n'), ..p })
                } else {
                    match applied(p, name, value) {
                        Some(q) => Ok(q),
                        None => Err(name),
                    }
                }
            },
        }
    }
}

/// Whether `texts` holds, at each pattern-file token, what `load` gave for
/// the source that the token names.
pub open spec fn loaded_by<F: Fn(String) -> String>(load: F, tokens: Seq<Seq<char>>, texts: Seq<Seq<char>>) -> bool {
    &&& texts.len() == tokens.len()
    &&& forall|i: int|
        0 <= i < tokens.len() && is_file_option(#[trigger] split_option(tokens[i]).0) ==> exists|p: String, t: String|
            p@ == split_option(tokens[i]).1 && t@ == texts[i] && load.ensures((p,), t)
}

/// The settings a run starts from: the built-in ones with the color
/// settings of the environment, and file prefixes on exactly when there is
/// more than one source.
pub open spec fn starting_options(color_output: bool, colors: ColorsView, n_sources: int) -> OptionsView {
    OptionsView { color_output, colors, file_prefix: n_sources > 1, ..default_options() }
}

/// The source paths of a run: the operands, or `-` when there are none.
pub open spec fn source_paths(operands: Seq<Seq<char>>) -> Seq<Seq<char>> {
    if operands.len() == 0 {
        seq!["-"@]
    } else {
        operands
    }
}

proof fn lemma_resolved_prefix(o: OptionsView, toks: Seq<Seq<char>>, texts: Seq<Seq<char>>, k: int)
    requires
        0 <= k <= toks.len(),
        resolved(o, toks.subrange(0, k), texts) is Err,
    ensures
        resolved(o, toks, texts) == resolved(o, toks.subrange(0, k), texts),
    decreases toks.len(),
{
    if k == toks.len() {
        assert(toks.subrange(0, k) == toks);
    } else {
        assert(toks.drop_last().subrange(0, k) == toks.subrange(0, k));
        lemma_resolved_prefix(o, toks.drop_last(), texts, k);
    }
}

proof fn lemma_resolved_texts(o: OptionsView, toks: Seq<Seq<char>>, texts: Seq<Seq<char>>, more: Seq<Seq<char>>)
    requires
        toks.len() <= texts.len() <= more.len(),
        more.subrange(0, texts.len() as int) == texts,
    ensures
        resolved(o, toks, more) == resolved(o, toks, texts),
    decreases toks.len(),
{
    if toks.len() > 0 {
        lemma_resolved_texts(o, toks.drop_last(), texts, more);
        assert(more[toks.len() - 1] == more.subrange(0, texts.len() as int)[toks.len() - 1]);
    }
}

/// Whether an option name sets file prefixes on or off explicitly.
pub open spec fn sets_prefix(name: Seq<char>) -> bool {
    name == "-h"@ || name == "--no-filename"@ || name == "-H"@ || name == "--with-filename"@
}

/// File prefixes are on exactly when there is more than one source, unless a
/// token sets them explicitly: resolving tokens that do not keeps the default.
pub proof fn lemma_prefix_default(
    color_output: bool,
    colors: ColorsView,
    n_sources: int,
    tokens: Seq<Seq<char>>,
    texts: Seq<Seq<char>>,
)
    requires
        forall|i: int| 0 <= i < tokens.len() ==> !sets_prefix(#[trigger] split_option(tokens[i]).0),
        resolved(starting_options(color_output, colors, n_sources), tokens, texts) is Ok,
    ensures
        resolved(starting_options(color_output, colors, n_sources), tokens, texts)->Ok_0.file_prefix == (n_sources > 1),
    decreases tokens.len(),
{
    if tokens.len() > 0 {
        let rest = tokens.drop_last();
        assert forall|i: int| 0 <= i < rest.len() implies !sets_prefix(#[trigger] split_option(rest[i]).0) by {
            assert(rest[i] == tokens[i]);
        }
        assert(!sets_prefix(split_option(tokens[tokens.len() - 1]).0));
        lemma_prefix_default(color_output, colors, n_sources, rest, texts);
    }
}

/// An explicit prefix option overrides the default: the last token that
/// sets file prefixes decides them, `-H` and `--with-filename` on, `-h` and
/// `--no-filename` off, whatever the number of sources.
pub proof fn lemma_prefix_override(o: OptionsView, tokens: Seq<Seq<char>>, texts: Seq<Seq<char>>, k: int)
    requires
        0 <= k < tokens.len(),
        sets_prefix(split_option(tokens[k]).0),
        forall|i: int| k < i < tokens.len() ==> !sets_prefix(#[trigger] split_option(tokens[i]).0),
        resolved(o, tokens, texts) is Ok,
    ensures
        resolved(o, tokens, texts)->Ok_0.file_prefix == (split_option(tokens[k]).0 == "-H"@
            || split_option(tokens[k]).0 == "--with-filename"@),
    decreases tokens.len(),
{
    reveal_strlit("-h");
    reveal_strlit("-H");
    reveal_strlit("--no-filename");
    reveal_strlit("--with-filename");
    reveal_strlit("-e");
    reveal_strlit("--regexp");
    reveal_strlit("-f");
    reveal_strlit("--file");
    let rest = tokens.drop_last();
    let name = split_option(tokens[k]).0;
    assert(!is_file_option(name) && !is_pattern_option(name)) by {
        assert("-h"@[1] != "-e"@[1] && "-h"@[1] != "-f"@[1]);
        assert("-H"@[1] != "-e"@[1] && "-H"@[1] != "-f"@[1]);
        assert("--no-filename"@.len() != "--regexp"@.len() && "--no-filename"@.len() != "--file"@.len());
        assert("--with-filename"@.len() != "--regexp"@.len() && "--with-filename"@.len() != "--file"@.len());
        assert("--no-filename"@.len() != "-e"@.len() && "--no-filename"@.len() != "-f"@.len());
        assert("--with-filename"@.len() != "-e"@.len() && "--with-filename"@.len() != "-f"@.len());
        assert("-h"@.len() != "--regexp"@.len() && "-h"@.len() != "--file"@.len());
        assert("-H"@.len() != "--regexp"@.len() && "-H"@.len() != "--file"@.len());
    }
    assert("-h"@[1] != "-H"@[1]);
    assert("--no-filename"@.len() != "--with-filename"@.len());
    assert("-h"@.len() != "--with-filename"@.len());
    assert("-H"@.len() != "--no-filename"@.len());
    if resolved(o, rest, texts) is Err {
    } else if k == tokens.len() - 1 {
        assert(tokens.last() == tokens[k]);
    } else {
        assert forall|i: int| k < i < rest.len() implies !sets_prefix(#[trigger] split_option(rest[i]).0) by {
            assert(rest[i] == tokens[i]);
        }
        assert(rest[k] == tokens[k]);
        assert(!sets_prefix(split_option(tokens[tokens.len() - 1]).0));
        lemma_prefix_override(o, rest, texts, k);
    }
}

/// Resolving tokens keeps silence implying that messages are suppressed.
pub proof fn lemma_resolved_quiet(o: OptionsView, tokens: Seq<Seq<char>>, texts: Seq<Seq<char>>)
    requires
        silence_is_quiet(o),
        resolved(o, tokens, texts) is Ok,
    ensures
        silence_is_quiet(resolved(o, tokens, texts)->Ok_0),
    decreases tokens.len(),
{
    if tokens.len() > 0 {
        lemma_resolved_quiet(o, tokens.drop_last(), texts);
    }
}

impl Config {
    /// Whether `a` gives a pattern explicitly.
    fn gives_pattern(a: &str) -> (r: bool)
        ensures
            r == gives_pattern(a@),
    {
        if starts_with_text(a, "-e") {
            return true;
        }
        let (name, _value) = Options::split_option(a);
        crate::text::same_text(name.as_str(), "--regexp")
    }

    /// Separates source operands from option tokens (see `preprocessed`):
    /// a value-taking short option standing alone is joined with the next
    /// argument, and without an explicit pattern the first operand becomes
    /// the pattern.
    pub fn preprocess_args(args: Vec<String>) -> (r: Result<(Vec<String>, Vec<String>), ConfigError>)
        ensures
            preprocess_result(views(args@), r),
    {
        let ghost v = views(args@);
        let mut sources: Vec<String> = Vec::new();
        let mut options: Vec<String> = Vec::new();
        let mut explicit = false;
        let n = args.len();
        let mut i: usize = 1;
        proof {
            assert(sorted_of(sources@, options@, explicit) == (Sorted {
                sources: Seq::empty(),
                options: Seq::empty(),
                explicit: false,
            })) by {
                assert(views(sources@) =~= Seq::empty());
                assert(views(options@) =~= Seq::empty());
            }
        }
        if n == 0 {
            i = 0;
        }
        while i < n
            invariant
                v == views(args@),
                n == args@.len(),
                i <= n,
                sort_args(v, 1, Sorted { sources: Seq::empty(), options: Seq::empty(), explicit: false })
                    == sort_args(v, i as int, sorted_of(sources@, options@, explicit)),
            decreases n - i,
        {
            let a = &args[i];
            let ghost before = sorted_of(sources@, options@, explicit);
            let takes_value = starts_with_text(a.as_str(), "-e") || starts_with_text(a.as_str(), "-f");
            let len = a.as_str().unicode_len();
            let chars = chars_of(a.as_str());
            if takes_value && len == 2 {
                if i + 1 >= n {
                    return Err(ConfigError::MissingValue(a.clone()));
                }
                let joined = a.clone().concat(args[i + 1].as_str());
                let ghost prior = views(options@);
                options.push(joined);
                assert(views(options@) =~= prior.push(v[i as int] + v[i + 1]));
                explicit = explicit || Self::gives_pattern(a.as_str());
                i = i + 2;
            } else if len > 1 && chars[0] == '-' {
                let ghost prior = views(options@);
                options.push(a.clone());
                assert(views(options@) =~= prior.push(v[i as int]));
                explicit = explicit || Self::gives_pattern(a.as_str());
                i = i + 1;
            } else {
                let ghost prior = views(sources@);
                sources.push(a.clone());
                assert(views(sources@) =~= prior.push(v[i as int]));
                i = i + 1;
            }
        }
        if !explicit {
            if sources.len() == 0 {
                return Err(ConfigError::MissingPattern);
            }
            let ghost all = views(sources@);
            let first = sources.remove(0);
            assert(views(sources@) =~= all.drop_first());
            let token = String::from_str("--regexp=").concat(first.as_str());
            let ghost prior = views(options@);
            options.push(token);
            assert(views(options@) =~= prior.push("--regexp="@ + all[0]));
        }
        Ok((sources, options))
    }

    /// Builds the configuration of a run from its arguments (the first is the
    /// program's name). Settings start from the built-in ones with the color
    /// settings of the environment (`color_output`, `colors`); `load` gives the text of
    /// the source that a pattern-file option names.
    #[verifier::loop_isolation(false)]
    pub fn new<F: Fn(String) -> String>(
        args: Vec<String>,
        color_output: bool,
        colors: Colors,
        load: F,
    ) -> (r: Result<Config, ConfigError>)
        requires
            forall|p: String| load.requires((p,)),
        ensures
            match preprocessed(views(args@)) {
                Err(Some(a)) => r matches Err(ConfigError::MissingValue(m)) && m@ == a,
                Err(None) => r matches Err(ConfigError::MissingPattern),
                Ok((operands, tokens)) => exists|texts: Seq<Seq<char>>|
                    texts.len() == tokens.len() && match #[trigger] resolved(starting_options(color_output, colors@, operands.len() as int), tokens, texts) {
                        Err(name) => r matches Err(ConfigError::UnknownOption(n)) && n@ == name,
                        Ok(o) => loaded_by(load, tokens, texts) && (r matches Ok(c) && c.options@ == o
                            && c.sources@.map_values(|s: Source| s.path@) == source_paths(operands)
                            && forall|i: int| 0 <= i < c.sources@.len() ==> (#[trigger] c.sources@[i]).data@.len() == 0),
                    },
            },
            r matches Ok(c) ==> silence_is_quiet(c.options@),
    {
        let ghost av = views(args@);
        let ghost cv = colors@;
        let (mut operands, tokens) = match Self::preprocess_args(args) {
            Ok(sorted) => sorted,
            Err(e) => return Err(e),
        };
        let ghost ops = views(operands@);
        let ghost toks = views(tokens@);
        assert(preprocessed(av) == Ok::<(Seq<Seq<char>>, Seq<Seq<char>>), Option<Seq<char>>>((ops, toks)));
        let mut options = Options::default();
        options.color_output = color_output;
        options.colors = colors;
        options.file_prefix = operands.len() > 1;
        let ghost start = options@;
        let ghost mut texts: Seq<Seq<char>> = Seq::empty();
        let ghost mut paths: Seq<String> = Seq::empty();
        let ghost mut outs: Seq<String> = Seq::empty();
        let mut i: usize = 0;
        while i < tokens.len()
            invariant
                toks == views(tokens@),
                start == starting_options(color_output, cv, ops.len() as int),
                preprocessed(av) == Ok::<(Seq<Seq<char>>, Seq<Seq<char>>), Option<Seq<char>>>((ops, toks)),
                i <= tokens@.len(),
                texts.len() == i,
                paths.len() == i,
                outs.len() == i,
                resolved(start, toks.subrange(0, i as int), texts) == Ok::<OptionsView, Seq<char>>(options@),
                forall|j: int| 0 <= j < i && is_file_option(#[trigger] split_option(toks[j]).0) ==>
                    paths[j]@ == split_option(toks[j]).1 && outs[j]@ == texts[j] && load.ensures((paths[j],), outs[j]),
                forall|p: String| load.requires((p,)),
            decreases tokens.len() - i,
        {
            let ghost before = options@;
            let ghost old_texts = texts;
            let ghost prefix = toks.subrange(0, i + 1);
            assert(prefix.drop_last() == toks.subrange(0, i as int));
            assert(prefix.last() == toks[i as int]);
            let token = tokens[i].clone();
            assert(token@ == toks[i as int]);
            match options.parse_option(token) {
                Err(e) => {
                    proof {
                        let full = old_texts + Seq::new((toks.len() - i) as nat, |j: int| Seq::<char>::empty());
                        assert(full.subrange(0, i as int) == old_texts);
                        lemma_resolved_texts(start, toks.subrange(0, i as int), old_texts, full);
                        let name = split_option(toks[i as int]).0;
                        assert(resolved(start, prefix, full) == Err::<OptionsView, Seq<char>>(name));
                        lemma_resolved_prefix(start, toks, full, i as int + 1);
                        assert(full.len() == toks.len());
                        assert(resolved(starting_options(color_output, cv, ops.len() as int), toks, full) == Err::<OptionsView, Seq<char>>(name));
                    }
                    return Err(e);
                },
                Ok(Some(path)) => {
                    let ghost p = path;
                    let text = load(path);
                    options.handle_pattern_file(text.as_str());
                    proof {
                        texts = texts.push(text@);
                        paths = paths.push(p);
                        outs = outs.push(text);
                    }
                },
                Ok(None) => {
                    proof {
                        texts = texts.push(Seq::empty());
                        paths = paths.push(arbitrary());
                        outs = outs.push(arbitrary());
                    }
                },
            }
            proof {
                assert(texts.subrange(0, i as int) == old_texts);
                lemma_resolved_texts(start, toks.subrange(0, i as int), old_texts, texts);
                assert(resolved(start, prefix, texts) == Ok::<OptionsView, Seq<char>>(options@));
            }
            i = i + 1;
        }
        proof {
            assert(toks.subrange(0, i as int) == toks);
            assert(loaded_by(load, toks, texts)) by {
                assert forall|j: int|
                    0 <= j < toks.len() && is_file_option(#[trigger] split_option(toks[j]).0) implies exists|p: String, t: String|
                        p@ == split_option(toks[j]).1 && t@ == texts[j] && load.ensures((p,), t) by {
                    assert(paths[j]@ == split_option(toks[j]).1 && outs[j]@ == texts[j] && load.ensures((paths[j],), outs[j]));
                }
            }
        }
        if operands.len() == 0 {
            operands.push(String::from_str("-"));
        }
        let ghost paths_in = views(operands@);
        assert(paths_in == source_paths(ops));
        let mut sources: Vec<Source> = Vec::new();
        let mut k: usize = 0;
        while k < operands.len()
            invariant
                k <= operands@.len(),
                sources@.len() == k,
                forall|j: int| 0 <= j < k ==> (#[trigger] sources@[j]).path@ == operands@[j]@ && sources@[j].data@.len() == 0,
            decreases operands.len() - k,
        {
            sources.push(Source::new(operands[k].clone()));
            k = k + 1;
        }
        proof {
            lemma_resolved_quiet(start, toks, texts);
        }
        let r = Config { sources, options };
        assert(resolved(starting_options(color_output, cv, ops.len() as int), toks, texts) == Ok::<OptionsView, Seq<char>>(r.options@));
        assert(r.sources@.map_values(|s: Source| s.path@) =~= source_paths(ops));
        Ok(r)
    }
}

} // verus!
