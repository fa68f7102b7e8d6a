use pet::braces::MAX_BRACE_EXPANSION_STEPS;
use pet::glob::{GlobExpansionError, GlobExpansionLimits};
use pet::walk::{
    expand_glob_pattern, expand_glob_patterns, expand_glob_patterns_bounded, GlobSearch,
    WalkFileSystem,
};
use std::collections::{BTreeMap, BTreeSet};

/// An in-memory tree of folders, files and symbolic links.
#[derive(Default)]
struct MemFs {
    dirs: BTreeSet<String>,
    files: BTreeSet<String>,
    links: BTreeMap<String, String>,
}

impl MemFs {
    fn dir(mut self, p: &str) -> Self {
        let mut cur = String::new();
        for piece in p.split('/').filter(|s| !s.is_empty()) {
            cur.push('/');
            cur.push_str(piece);
            self.dirs.insert(cur.clone());
        }
        self
    }
    fn file(mut self, p: &str) -> Self {
        self.files.insert(p.to_string());
        self
    }
    fn link(mut self, p: &str, target: &str) -> Self {
        self.links.insert(p.to_string(), target.to_string());
        self
    }
    fn resolve(&self, p: &str) -> String {
        let p = p.trim_end_matches('/');
        match self.links.get(p) {
            Some(t) => t.clone(),
            None => p.to_string(),
        }
    }
    fn parent(p: &str) -> &str {
        match p.rfind('/') {
            Some(0) => "/",
            Some(i) => &p[..i],
            None => "",
        }
    }
}

impl WalkFileSystem for MemFs {
    fn metadata_is_dir(&self, path: &str) -> Result<Option<bool>, String> {
        let p = self.resolve(path);
        if p == "/" || self.dirs.contains(&p) {
            Ok(Some(true))
        } else if self.files.contains(&p) {
            Ok(Some(false))
        } else {
            Ok(None)
        }
    }
    fn symlink_kind(&self, path: &str) -> Result<Option<(bool, bool)>, String> {
        let p = path.trim_end_matches('/');
        if self.links.contains_key(p) {
            Ok(Some((false, true)))
        } else {
            Ok(self.metadata_is_dir(p)?.map(|d| (d, false)))
        }
    }
    fn list_directory(&self, path: &str) -> Result<Option<Vec<Result<String, String>>>, String> {
        let dir = self.resolve(path);
        if !(dir == "/" || self.dirs.contains(&dir)) {
            return Ok(None);
        }
        let mut names = Vec::new();
        for p in self.dirs.iter().chain(self.files.iter()).chain(self.links.keys()) {
            if MemFs::parent(p) == dir {
                names.push(Ok(p[p.rfind('/').unwrap() + 1..].to_string()));
            }
        }
        Ok(Some(names))
    }
}

fn bounded_limits(max_patterns: usize, max_candidates: usize) -> GlobExpansionLimits {
    GlobExpansionLimits {
        max_patterns,
        max_candidates,
    }
}

fn strings(v: &[&str]) -> Vec<String> {
    v.iter().map(|s| s.to_string()).collect()
}

#[test]
fn duplicate_brace_alternatives_count_toward_work_limit() {
    let within_limit = format!("{{{}}}", vec!["a"; MAX_BRACE_EXPANSION_STEPS - 2].join(","));
    assert_eq!(
        pet::glob::expand_braces_bounded(&within_limit, 1).unwrap(),
        vec!["a"]
    );

    let over_limit = format!("{{{}}}", vec!["a"; MAX_BRACE_EXPANSION_STEPS].join(","));
    assert_eq!(
        pet::glob::expand_braces_bounded(&over_limit, 1).unwrap_err(),
        GlobExpansionError::BraceWorkLimitExceeded {
            limit: MAX_BRACE_EXPANSION_STEPS
        },
    );
    assert_eq!(
        expand_glob_patterns_bounded(&MemFs::default(), &[over_limit], bounded_limits(1, 1))
            .unwrap_err(),
        GlobExpansionError::BraceWorkLimitExceeded {
            limit: MAX_BRACE_EXPANSION_STEPS
        },
    );
}

#[test]
fn bounded_expansion_enforces_exact_candidate_budget() {
    let paths = strings(&["one", "two"]);
    assert_eq!(
        expand_glob_patterns_bounded(&MemFs::default(), &paths, bounded_limits(2, 2)).unwrap(),
        paths
    );
    assert_eq!(
        expand_glob_patterns_bounded(&MemFs::default(), &paths, bounded_limits(2, 1)).unwrap_err(),
        GlobExpansionError::CandidateLimitExceeded { limit: 1 },
    );
}

#[test]
fn bounded_expansion_reports_malformed_and_limited_patterns() {
    let fs = MemFs::default();
    assert!(matches!(
        expand_glob_patterns_bounded(&fs, &strings(&["malformed["]), bounded_limits(2, 2)),
        Err(GlobExpansionError::InvalidPattern { .. })
    ));
    assert_eq!(
        expand_glob_patterns_bounded(&fs, &strings(&["{one,two,three}"]), bounded_limits(2, 10))
            .unwrap_err(),
        GlobExpansionError::PatternLimitExceeded { limit: 2 }
    );

    let files = MemFs::default()
        .dir("/t")
        .file("/t/one")
        .file("/t/two")
        .file("/t/three");
    assert_eq!(
        expand_glob_patterns_bounded(&files, &strings(&["/t/*"]), bounded_limits(2, 2))
            .unwrap_err(),
        GlobExpansionError::CandidateLimitExceeded { limit: 2 }
    );

    let recursive = MemFs::default().dir("/r/alpha/nested").dir("/r/beta/nested");
    assert_eq!(
        expand_glob_patterns_bounded(&recursive, &strings(&["/r/**/missing"]), bounded_limits(2, 2))
            .unwrap_err(),
        GlobExpansionError::CandidateLimitExceeded { limit: 2 }
    );
}

#[test]
fn bounded_expansion_preserves_symlink_spelling() {
    let fs = MemFs::default()
        .dir("/t/target")
        .file("/t/target/python")
        .link("/t/link", "/t/target");
    assert_eq!(
        expand_glob_patterns_bounded(&fs, &strings(&["/t/link/*"]), bounded_limits(2, 32)).unwrap(),
        vec!["/t/link/python".to_string()]
    );
}

#[test]
fn bounded_expansion_walks_patterns_and_recursive_components() {
    let fs = MemFs::default()
        .dir("/r/EnvOne/nested")
        .dir("/r/Other")
        .dir("/r/.hidden")
        .file("/r/EnvOne/python.exe")
        .file("/r/.hidden/python.exe")
        .file("/r/root-file");
    let run = |p: &str| {
        expand_glob_patterns_bounded(&fs, &strings(&[p]), bounded_limits(16, 1024)).unwrap()
    };
    assert_eq!(run("/r/Env*"), vec!["/r/EnvOne"]);
    assert_eq!(
        run("/r/*/python.exe"),
        vec!["/r/.hidden/python.exe", "/r/EnvOne/python.exe"]
    );
    assert_eq!(
        run("/r/**/python.exe"),
        vec!["/r/.hidden/python.exe", "/r/EnvOne/python.exe"]
    );
    assert_eq!(run("/r/*/"), vec!["/r/.hidden", "/r/EnvOne", "/r/Other"]);
    assert_eq!(run("/r/{EnvOne,Other}"), vec!["/r/EnvOne", "/r/Other"]);
    assert!(run("/r/missing*").is_empty());
    assert_eq!(
        expand_glob_patterns_bounded(
            &fs,
            &strings(&["literal{brace}", "{one,one,one}"]),
            bounded_limits(2, 2)
        )
        .unwrap(),
        vec!["literal{brace}".to_string(), "one".to_string()]
    );
}

#[test]
fn bounded_expansion_reports_traversal_failures_for_the_pattern() {
    struct Failing;
    impl WalkFileSystem for Failing {
        fn metadata_is_dir(&self, _path: &str) -> Result<Option<bool>, String> {
            Err("denied".to_string())
        }
        fn symlink_kind(&self, _path: &str) -> Result<Option<(bool, bool)>, String> {
            Err("denied".to_string())
        }
        fn list_directory(
            &self,
            _path: &str,
        ) -> Result<Option<Vec<Result<String, String>>>, String> {
            Err("denied".to_string())
        }
    }
    assert_eq!(
        expand_glob_patterns_bounded(&Failing, &strings(&["root/**"]), bounded_limits(2, 10))
            .unwrap_err(),
        GlobExpansionError::Traversal {
            pattern: "root/**".to_string(),
            message: "denied".to_string()
        }
    );
}

/// Glob matching on the real file system.
struct DiskGlob;

impl GlobSearch for DiskGlob {
    fn glob_paths(&self, pattern: &str) -> Vec<String> {
        match glob::glob(pattern) {
            Ok(paths) => paths
                .filter_map(Result::ok)
                .map(|p| p.to_string_lossy().into_owned())
                .collect(),
            Err(_) => Vec::new(),
        }
    }
}

#[test]
fn test_expand_non_glob_path() {
    let path = "/some/literal/path";
    let result = expand_glob_pattern(&DiskGlob, path);
    assert_eq!(result.len(), 1);
    assert_eq!(result[0], path.to_string());
}

#[test]
fn test_expand_glob_pattern_no_matches() {
    let pattern = "/this/path/definitely/does/not/exist/*";
    let result = expand_glob_pattern(&DiskGlob, pattern);
    assert!(result.is_empty());
}

#[test]
fn test_expand_glob_brace_only_pattern_returns_literals() {
    let result = expand_glob_pattern(&DiskGlob, "{python,python3}");
    assert_eq!(result.len(), 2);
    assert!(result.contains(&"python".to_string()));
    assert!(result.contains(&"python3".to_string()));
}

#[test]
fn expand_glob_patterns_keeps_literals_in_order() {
    let result = expand_glob_patterns(&DiskGlob, &strings(&["/literal/path", "{a,b}"]));
    assert_eq!(result, strings(&["/literal/path", "a", "b"]));
}
