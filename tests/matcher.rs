use greprs::colors::Colors;
use greprs::config::Config;
use greprs::error::ConfigError;
use greprs::matcher::{
    apply_line_matching, apply_word_matching, build_expression, build_flags, build_pattern_string, build_regex,
    count_included, count_matching_lines, search_lines, MatchSpan,
};
use greprs::options::Options;

#[test]
fn ignore_case_flag() {
    let mut options = Options::default();
    options.ignore_case = true;
    let regex_flags = build_flags(&options);
    assert_eq!(regex_flags, String::from("(?i)"));
}

#[test]
fn line_matching_patterns() {
    let mut options = Options::default();
    options.line_match = true;
    let patterns = vec!(String::from("[^z]"), String::from("Hello, World!"));
    let line_patterns = apply_line_matching(&patterns);
    assert_eq!(line_patterns, vec!(String::from("^([^z])$"), String::from("^(Hello, World!)$")));
}

#[test]
fn word_matching_patterns() {
    let mut options = Options::default();
    options.word_match = true;
    let patterns = vec!(String::from("[a-zA-Z]"), String::from("\\d"));
    let word_patterns = apply_word_matching(&patterns);
    assert_eq!(word_patterns, vec!(String::from("\\b[a-zA-Z]\\b"), String::from("\\b\\d\\b")));
}

#[test]
fn build_pattern_string_from_options() {
    let mut options = Options::default();
    options.patterns = vec!(String::from("[xyz]"), String::from("orchestra"));
    let pattern = build_pattern_string(&options);
    assert_eq!(pattern, String::from("[xyz]|orchestra"));

    options.line_match = true;
    let pattern = build_pattern_string(&options);
    assert_eq!(pattern, String::from("^([xyz])$|^(orchestra)$"));
    options.line_match = false;

    options.word_match = true;
    let pattern = build_pattern_string(&options);
    assert_eq!(pattern, String::from("\\b[xyz]\\b|\\borchestra\\b"));
    options.word_match = false;

    // word matching should have no effect
    // when line matching is also applied
    options.line_match = true;
    options.word_match = true;
    let pattern = build_pattern_string(&options);
    assert_eq!(pattern, String::from("^([xyz])$|^(orchestra)$"));
}

const HAIKU: &str = "This world of dew,\nis a world of dew,\nand yet, and yet.";

fn no_pattern_sources(_path: String) -> String {
    String::new()
}

#[test]
fn ignore_case() {
    let args = vec!(String::from("./target"), String::from("t"), String::from("res/test/haiku.txt"), String::from("-i"));
    let mut config = Config::new(args, false, Colors::default(), no_pattern_sources).unwrap();
    config.sources[0].data = String::from(HAIKU);
    let regex = build_regex(&config.options).unwrap();
    let matches = search_lines(&regex, &config.sources[0].data);
    assert_eq!(matches.len(), 3);
    assert_eq!(matches[0][0], MatchSpan { start: 0, end: 1 });
}

#[test]
fn counting_search() {
    let args = vec!(
        String::from("./target"),
        String::from("[da]"),
        String::from("res/test/haiku.txt"),
        String::from("--count"),
    );
    let mut config = Config::new(args, false, Colors::default(), no_pattern_sources).unwrap();
    config.sources[0].data = String::from(HAIKU);
    let regex = build_regex(&config.options).unwrap();
    let source_counts = count_matching_lines(&regex, &config.sources[0].data, config.options.invert_match);
    assert_eq!(source_counts, 3);

    let args = vec!(
        String::from("./target"),
        String::from("[da]"),
        String::from("res/test/haiku.txt"),
        String::from("--count"),
        String::from("--invert-match"),
    );
    let mut config = Config::new(args, false, Colors::default(), no_pattern_sources).unwrap();
    config.sources[0].data = String::from(HAIKU);
    let regex = build_regex(&config.options).unwrap();
    let source_counts = count_matching_lines(&regex, &config.sources[0].data, config.options.invert_match);
    assert_eq!(source_counts, 0);
}

#[test]
fn expression_has_flags_then_alternatives() {
    let mut options = Options::default();
    options.patterns = vec!(String::from("a"), String::from("b"));
    options.ignore_case = true;
    options.word_match = true;
    assert_eq!(build_expression(&options), "(?i)\\ba\\b|\\bb\\b");
    options.patterns = Vec::new();
    options.ignore_case = false;
    assert_eq!(build_expression(&options), "");
}

#[test]
fn invalid_expression_is_refused() {
    let mut options = Options::default();
    options.patterns = vec!(String::from("(unclosed"));
    assert!(matches!(build_regex(&options), Err(ConfigError::InvalidExpression(_))));
}

#[test]
fn spans_are_byte_ranges() {
    let mut options = Options::default();
    options.patterns = vec!(String::from("é+"));
    let regex = build_regex(&options).unwrap();
    let matches = search_lines(&regex, &String::from("aéé b\n\néx"));
    assert_eq!(matches.len(), 3);
    assert_eq!(matches[0], vec!(MatchSpan { start: 1, end: 5 }));
    assert!(matches[1].is_empty());
    assert_eq!(matches[2], vec!(MatchSpan { start: 0, end: 2 }));
}

#[test]
fn line_match_only_matches_whole_lines() {
    let mut options = Options::default();
    options.patterns = vec!(String::from("dew"), String::from("a.c"));
    options.line_match = true;
    let regex = build_regex(&options).unwrap();
    let matches = search_lines(&regex, &String::from("dew\ndews\nabc\nxabc"));
    assert_eq!(matches[0], vec!(MatchSpan { start: 0, end: 3 }));
    assert!(matches[1].is_empty());
    assert_eq!(matches[2], vec!(MatchSpan { start: 0, end: 3 }));
    assert!(matches[3].is_empty());
}

#[test]
fn word_match_only_matches_whole_words() {
    let mut options = Options::default();
    options.patterns = vec!(String::from("dew"));
    options.word_match = true;
    let regex = build_regex(&options).unwrap();
    let matches = search_lines(&regex, &String::from("dew\na dew,\ndewy"));
    assert_eq!(matches[0], vec!(MatchSpan { start: 0, end: 3 }));
    assert_eq!(matches[1], vec!(MatchSpan { start: 2, end: 5 }));
    assert!(matches[2].is_empty());
}

#[test]
fn count_included_skips_empty_lines_when_inverted() {
    let data = String::from("a\n\nb\n");
    let spans = vec!(vec!(MatchSpan { start: 0, end: 1 }), vec!(), vec!(), vec!());
    assert_eq!(count_included(&data, &spans, false), 1);
    assert_eq!(count_included(&data, &spans, true), 1);
    assert_eq!(count_included(&data, &vec!(), true), 0);
}
