use pet::braces::{MAX_BRACE_EXPANSIONS, MAX_BRACE_EXPANSION_STEPS};
use pet::glob::{
    expand_braces, expand_braces_bounded, is_glob_pattern, is_recursive_glob_pattern,
    GlobExpansionError,
};

fn sorted(mut v: Vec<String>) -> Vec<String> {
    v.sort();
    v
}

#[test]
fn bounded_braces_deduplicate_before_cartesian_expansion() {
    assert_eq!(
        expand_braces_bounded(&"{a,a}".repeat(64), 1).unwrap(),
        vec!["a".repeat(64)]
    );
    assert!(matches!(
        expand_braces_bounded(&"{a}".repeat(MAX_BRACE_EXPANSION_STEPS), 1),
        Err(GlobExpansionError::BraceWorkLimitExceeded { .. })
    ));
}

#[test]
fn test_is_glob_pattern_with_asterisk() {
    assert!(is_glob_pattern("/home/user/*"));
    assert!(is_glob_pattern("**/*.py"));
    assert!(is_glob_pattern("*.txt"));
}

#[test]
fn test_is_recursive_glob_pattern() {
    assert!(is_recursive_glob_pattern("**/.venv"));
    assert!(is_recursive_glob_pattern("/home/user/**/venv"));
    assert!(!is_recursive_glob_pattern(".venv"));
    assert!(!is_recursive_glob_pattern("*/.venv"));
    assert!(!is_recursive_glob_pattern("foo**bar/.venv"));
    assert!(is_recursive_glob_pattern("C:\\workspace\\**\\.venv"));
    assert!(is_recursive_glob_pattern("{foo,**}/.venv"));
}

#[test]
fn test_is_glob_pattern_with_question_mark() {
    assert!(is_glob_pattern("/home/user/file?.txt"));
    assert!(is_glob_pattern("test?"));
}

#[test]
fn test_is_glob_pattern_with_brackets() {
    assert!(is_glob_pattern("/home/user/[abc]"));
    assert!(is_glob_pattern("file[0-9].txt"));
}

#[test]
fn test_is_glob_pattern_no_metacharacters() {
    assert!(!is_glob_pattern("/home/user/envs"));
    assert!(!is_glob_pattern("simple_path"));
    assert!(!is_glob_pattern("/usr/local/bin/python3"));
}

#[test]
fn test_expand_braces_no_braces() {
    assert_eq!(expand_braces("no_braces"), vec!["no_braces"]);
    assert_eq!(expand_braces("/usr/bin/python"), vec!["/usr/bin/python"]);
}

#[test]
fn test_expand_braces_single_group() {
    assert_eq!(
        sorted(expand_braces("{bin,Scripts}/python")),
        vec!["Scripts/python", "bin/python"]
    );
}

#[test]
fn test_expand_braces_empty_alternative() {
    assert_eq!(sorted(expand_braces("python{,.exe}")), vec!["python", "python.exe"]);
}

#[test]
fn test_expand_braces_multiple_groups() {
    assert_eq!(
        sorted(expand_braces("{a,b}/{c,d}")),
        vec!["a/c", "a/d", "b/c", "b/d"]
    );
}

#[test]
fn test_expand_braces_unmatched_brace() {
    assert_eq!(expand_braces("{unmatched"), vec!["{unmatched"]);
}

#[test]
fn test_expand_braces_real_pattern() {
    assert_eq!(
        sorted(expand_braces("./**/{bin,Scripts}/python{,.exe}")),
        vec![
            "./**/Scripts/python",
            "./**/Scripts/python.exe",
            "./**/bin/python",
            "./**/bin/python.exe",
        ]
    );
}

#[test]
fn test_is_glob_pattern_with_braces() {
    assert!(is_glob_pattern("{bin,Scripts}/python"));
    assert!(is_glob_pattern("python{,.exe}"));
    assert!(is_glob_pattern("./**/{bin,Scripts}/python{,.exe}"));
}

#[test]
fn test_is_glob_pattern_lone_brace_not_detected() {
    assert!(!is_glob_pattern("/home/user/my{project"));
    assert!(!is_glob_pattern("{nocomma}"));
    assert!(is_glob_pattern("{a,b}"));
}

#[test]
fn test_is_glob_pattern_brace_after_non_brace() {
    assert!(is_glob_pattern("{nocomma}/path/{a,b}"));
}

#[test]
fn test_expand_braces_empty_braces() {
    assert_eq!(expand_braces("prefix{}suffix"), vec!["prefixsuffix"]);
}

#[test]
fn test_expand_braces_single_alternative() {
    assert_eq!(expand_braces("{a}"), vec!["a"]);
}

#[test]
fn test_expand_braces_capped() {
    let pattern = "{a,b}/{a,b}/{a,b}/{a,b}/{a,b}/{a,b}/{a,b}/{a,b}/{a,b}/{a,b}/{a,b}/{a,b}/{a,b}/{a,b}/{a,b}/{a,b}/{a,b}/{a,b}/{a,b}/{a,b}";
    let result = expand_braces(pattern);
    assert_eq!(result.len(), MAX_BRACE_EXPANSIONS);
}

#[test]
fn test_expand_braces_three_alternatives() {
    assert_eq!(sorted(expand_braces("{a,b,c}")), vec!["a", "b", "c"]);
}

#[test]
fn test_expand_braces_preserves_surrounding_text() {
    assert_eq!(
        sorted(expand_braces("prefix/{a,b}/suffix")),
        vec!["prefix/a/suffix", "prefix/b/suffix"]
    );
}

#[test]
fn test_expand_braces_adjacent_groups() {
    assert_eq!(sorted(expand_braces("{a,b}{c,d}")), vec!["ac", "ad", "bc", "bd"]);
}

#[test]
fn test_expand_braces_with_dots_and_extensions() {
    assert_eq!(
        sorted(expand_braces("file{.txt,.md,.rs}")),
        vec!["file.md", "file.rs", "file.txt"]
    );
}

#[test]
fn test_expand_braces_empty_in_middle() {
    assert_eq!(sorted(expand_braces("x{a,,b}y")), vec!["xay", "xby", "xy"]);
}

#[test]
fn test_expand_braces_single_char_alternatives() {
    assert_eq!(sorted(expand_braces("{x,y,z}")), vec!["x", "y", "z"]);
}

#[test]
fn test_expand_braces_path_separators() {
    assert_eq!(
        sorted(expand_braces("/home/{user1,user2}/.local/bin")),
        vec!["/home/user1/.local/bin", "/home/user2/.local/bin"]
    );
}

#[test]
fn test_expand_braces_windows_style_paths() {
    assert_eq!(
        sorted(expand_braces("C:\\envs\\{venv1,venv2}\\{Scripts,bin}\\python.exe")),
        vec![
            "C:\\envs\\venv1\\Scripts\\python.exe",
            "C:\\envs\\venv1\\bin\\python.exe",
            "C:\\envs\\venv2\\Scripts\\python.exe",
            "C:\\envs\\venv2\\bin\\python.exe",
        ]
    );
}

#[test]
fn test_expand_braces_only_empty_alternatives() {
    assert_eq!(expand_braces("a{,}b"), vec!["ab", "ab"]);
}

#[test]
fn test_expand_braces_mixed_with_glob_chars() {
    assert_eq!(sorted(expand_braces("{*.py,*.rs}")), vec!["*.py", "*.rs"]);
}

#[test]
fn test_is_glob_not_glob_empty_string() {
    assert!(!is_glob_pattern(""));
}

#[test]
fn test_is_glob_brace_no_close() {
    assert!(!is_glob_pattern("path/{open,but,no,close"));
}

#[test]
fn test_is_glob_close_before_open() {
    assert!(!is_glob_pattern("path}/no/braces"));
    assert!(is_glob_pattern("path}/then/{a,b}"));
}

#[test]
fn test_is_glob_multiple_groups_only_second_valid() {
    assert!(is_glob_pattern("{single}/{a,b}"));
}

#[test]
fn test_expand_braces_cap_stops_at_limit() {
    let pattern = "{a,b,c}/{a,b,c}/{a,b,c}/{a,b,c}/{a,b,c}/{a,b,c}/{a,b,c}";
    let result = expand_braces(pattern);
    assert_eq!(result.len(), MAX_BRACE_EXPANSIONS);
    assert!(result.iter().all(|s| s.contains('/')));
}

#[test]
fn test_expand_braces_just_under_cap() {
    let pattern = "{a,b}/{a,b}/{a,b}/{a,b}/{a,b}/{a,b}/{a,b}/{a,b}/{a,b}/{a,b}";
    assert_eq!(expand_braces(pattern).len(), MAX_BRACE_EXPANSIONS);
}

#[test]
fn test_expand_braces_well_under_cap() {
    assert_eq!(expand_braces("{a,b}/{a,b}/{a,b}").len(), 8);
}

#[test]
fn test_expand_braces_performance_many_alternatives() {
    let alts: Vec<String> = (0..100).map(|i| format!("alt{i}")).collect();
    let pattern = format!("{{{}}}", alts.join(","));
    let start = std::time::Instant::now();
    let result = expand_braces(&pattern);
    let elapsed = start.elapsed();
    assert_eq!(result.len(), 100);
    assert!(elapsed.as_millis() < 100, "took {:?}", elapsed);
}

#[test]
fn test_expand_braces_performance_multiple_groups() {
    let pattern = "{a,b,c,d}/{e,f,g,h}/{i,j,k,l}/{m,n,o,p}";
    let start = std::time::Instant::now();
    let result = expand_braces(pattern);
    let elapsed = start.elapsed();
    assert_eq!(result.len(), 256);
    assert!(elapsed.as_millis() < 100, "took {:?}", elapsed);
}

#[test]
fn test_expand_braces_performance_cap_is_fast() {
    let pattern = "{a,b}/{a,b}/{a,b}/{a,b}/{a,b}/{a,b}/{a,b}/{a,b}/{a,b}/{a,b}/{a,b}/{a,b}/{a,b}/{a,b}/{a,b}/{a,b}/{a,b}/{a,b}/{a,b}/{a,b}";
    let start = std::time::Instant::now();
    let result = expand_braces(pattern);
    let elapsed = start.elapsed();
    assert_eq!(result.len(), MAX_BRACE_EXPANSIONS);
    assert!(elapsed.as_millis() < 100, "took {:?}", elapsed);
}

#[test]
fn bounded_expansion_counts_distinct_variants_against_the_limit() {
    assert_eq!(
        expand_braces_bounded("{a,b}/{c,d}", 4).unwrap(),
        vec!["a/c", "a/d", "b/c", "b/d"]
    );
    assert_eq!(
        expand_braces_bounded("{a,b}/{c,d}", 3).unwrap_err(),
        GlobExpansionError::PatternLimitExceeded { limit: 3 }
    );
}
