use greprs::colors::Colors;
use greprs::config::Config;
use greprs::error::ConfigError;
use greprs::options::Options;

fn no_pattern_sources(_path: String) -> String {
    String::new()
}

fn args(list: &[&str]) -> Vec<String> {
    list.iter().map(|a| String::from(*a)).collect()
}

#[test]
fn single_pattern_and_file() {
    let args = vec!(String::from("./target"), String::from("dew"), String::from("res/test/haiku.txt"));
    let config = Config::new(args, false, Colors::default(), no_pattern_sources).unwrap();
    assert_eq!(config.sources.len(), 1);
    assert_eq!(config.options.patterns, vec!(String::from("dew")));
}

#[test]
fn explicit_pattern_and_file() {
    let args = vec!(String::from("./target"), String::from("-e"), String::from("dew"), String::from("res/test/haiku.txt"));
    let config = Config::new(args, false, Colors::default(), no_pattern_sources).unwrap();
    assert_eq!(config.sources.len(), 1);
    assert_eq!(config.options.patterns, vec!(String::from("dew")));
}

#[test]
fn explicit_patterns_newline() {
    let args = vec!(String::from("./target"), String::from("-e"), String::from("dew\nis"), String::from("res/test/haiku.txt"));
    let config = Config::new(args, false, Colors::default(), no_pattern_sources).unwrap();
    assert_eq!(config.options.patterns, vec!(String::from("dew"), String::from("is")));
}

#[test]
fn explicit_patterns_quoted_newline() {
    let args = vec!(String::from("./target"), String::from("-e"), String::from("\"dew\nis\""), String::from("res/test/haiku.txt"));
    let config = Config::new(args, false, Colors::default(), no_pattern_sources).unwrap();
    assert_eq!(config.options.patterns, vec!(String::from("dew"), String::from("is")));
}

#[test]
fn patterns_newline_separators_single_file() {
    let args = vec!(String::from("./target"), String::from("dew\nis"), String::from("res/test/haiku.txt"));
    let config = Config::new(args, false, Colors::default(), no_pattern_sources).unwrap();
    assert_eq!(config.sources.len(), 1);
    assert_eq!(config.options.patterns, vec!(String::from("dew"), String::from("is")));
}

#[test]
fn patterns_quoted_newline_separators_single_file() {
    let args = vec!(String::from("./target"), String::from("\"dew\nis\""), String::from("res/test/haiku.txt"));
    let config = Config::new(args, false, Colors::default(), no_pattern_sources).unwrap();
    assert_eq!(config.sources.len(), 1);
    assert_eq!(config.options.patterns, vec!(String::from("dew"), String::from("is")));
}

#[test]
fn single_pattern_no_file() {
    let args = vec!(String::from("./target"), String::from("dew"));
    let config = Config::new(args, false, Colors::default(), no_pattern_sources).unwrap();
    assert_eq!(config.sources.len(), 1);
    assert_eq!(config.options.patterns, vec!(String::from("dew")));
}

#[test]
fn single_pattern_stdin() {
    let args = vec!(String::from("./target"), String::from("dew"), String::from("-"));
    let config = Config::new(args, false, Colors::default(), no_pattern_sources).unwrap();
    assert_eq!(config.sources.len(), 1);
    assert_eq!(config.options.patterns, vec!(String::from("dew")));
}

#[test]
fn single_pattern_no_space() {
    let args = vec!(String::from("./target"), String::from("-edew"));
    let config = Config::new(args, false, Colors::default(), no_pattern_sources).unwrap();
    assert_eq!(config.sources.len(), 1);
    assert_eq!(config.options.patterns, vec!(String::from("dew")));
}

#[test]
fn multiple_source_file_prefix() {
    let args = vec!(
        String::from("./target"),
        String::from("pattern"),
        String::from("file1"),
        String::from("file2"),
    );
    let config = Config::new(args, false, Colors::default(), no_pattern_sources).unwrap();
    assert_eq!(config.sources.len(), 2);
    assert_eq!(config.options.file_prefix, true);

    // disable file prefix
    let args = vec!(
        String::from("./target"),
        String::from("--no-filename"),
        String::from("pattern"),
        String::from("file1"),
        String::from("file2"),
    );
    let config = Config::new(args, false, Colors::default(), no_pattern_sources).unwrap();
    assert_eq!(config.sources.len(), 2);
    assert_eq!(config.options.file_prefix, false);
}

#[test]
fn config_from_arguments() {
    let args = vec!(String::from("./target"), String::from("dew"), String::from("res/test/haiku.txt"));
    let config = Config::new(args, false, Colors::default(), no_pattern_sources).unwrap();
    let expected_source = greprs::source::Source::new(String::from("res/test/haiku.txt"));
    let mut expected_options = Options::default();
    expected_options.patterns = vec!(String::from("dew"));
    let config_colored = Config::new(
        vec!(String::from("./target"), String::from("dew")),
        true,
        Colors::parse_colors(String::from("fn=94")),
        no_pattern_sources,
    ).unwrap();
    assert!(config_colored.options.color_output);
    assert_eq!(config_colored.options.colors.file_name, "94");
    assert!(!config_colored.options.file_prefix);
    assert_eq!(config, Config { sources: vec!(expected_source), options: expected_options });
}

#[test]
fn one_source_keeps_prefix_off_unless_asked() {
    let config = Config::new(args(&["g", "dew", "a"]), false, Colors::default(), no_pattern_sources).unwrap();
    assert_eq!(config.options.file_prefix, false);
    let config = Config::new(args(&["g", "-H", "dew", "a"]), false, Colors::default(), no_pattern_sources).unwrap();
    assert_eq!(config.options.file_prefix, true);
    let config = Config::new(args(&["g", "dew", "a", "b", "-h"]), false, Colors::default(), no_pattern_sources).unwrap();
    assert_eq!(config.options.file_prefix, false);
}

#[test]
fn bare_dash_is_a_source() {
    let config = Config::new(args(&["g", "dew", "-", "b"]), false, Colors::default(), no_pattern_sources).unwrap();
    let paths: Vec<String> = config.sources.iter().map(|s| s.path.clone()).collect();
    assert_eq!(paths, vec!(String::from("-"), String::from("b")));
    assert!(config.sources.iter().all(|s| s.data.is_empty()));
}

#[test]
fn explicit_pattern_keeps_first_operand_as_source() {
    let config = Config::new(args(&["g", "--regexp=dew", "a"]), false, Colors::default(), no_pattern_sources).unwrap();
    assert_eq!(config.options.patterns, vec!(String::from("dew")));
    assert_eq!(config.sources.len(), 1);
    assert_eq!(config.sources[0].path, "a");
}

#[test]
fn pattern_file_lines_become_patterns() {
    let load = |path: String| {
        if path == "pats" { String::from("dew\ns") } else { String::new() }
    };
    let config = Config::new(args(&["g", "-e", "x", "-f", "pats", "a"]), false, Colors::default(), load).unwrap();
    assert_eq!(config.options.patterns, vec!(String::from("x"), String::from("dew"), String::from("s")));
    assert_eq!(config.sources.len(), 1);
}

#[test]
fn missing_value_is_refused() {
    let r = Config::new(args(&["g", "dew", "-e"]), false, Colors::default(), no_pattern_sources);
    assert!(matches!(r, Err(ConfigError::MissingValue(ref o)) if o == "-e"));
}

#[test]
fn missing_pattern_is_refused() {
    let r = Config::new(args(&["g", "-i"]), false, Colors::default(), no_pattern_sources);
    assert!(matches!(r, Err(ConfigError::MissingPattern)));
}

#[test]
fn unknown_option_is_refused() {
    let r = Config::new(args(&["g", "--bogus", "dew"]), false, Colors::default(), no_pattern_sources);
    assert!(matches!(r, Err(ConfigError::UnknownOption(ref o)) if o == "--bogus"));
}

#[test]
fn preprocess_joins_values_and_moves_pattern() {
    let (sources, options) = Config::preprocess_args(args(&["g", "-e", "a", "x", "-i", "-fp"])).unwrap();
    assert_eq!(sources, vec!(String::from("x")));
    assert_eq!(options, vec!(String::from("-ea"), String::from("-i"), String::from("-fp")));
    let (sources, options) = Config::preprocess_args(args(&["g", "pat", "x", "y"])).unwrap();
    assert_eq!(sources, vec!(String::from("x"), String::from("y")));
    assert_eq!(options, vec!(String::from("--regexp=pat")));
}

#[test]
fn quiet_options_suppress_messages() {
    let config = Config::new(args(&["g", "-q", "dew"]), false, Colors::default(), no_pattern_sources).unwrap();
    assert!(config.options.silent && config.options.no_messages);
}
