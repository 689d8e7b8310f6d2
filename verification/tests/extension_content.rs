use vex_browser::extensions::content::{
    scripts_for_url, sort_by_injection_time, wrap_extension_script, ContentScript, InjectionTime, MatchPattern,
};

#[test]
fn injection_time_from_str() {
    assert_eq!(InjectionTime::parse_str("document_start"), InjectionTime::DocumentStart);
    assert_eq!(InjectionTime::parse_str("document_end"), InjectionTime::DocumentEnd);
    assert_eq!(InjectionTime::parse_str("document_idle"), InjectionTime::DocumentIdle);
    assert_eq!(InjectionTime::parse_str("unknown"), InjectionTime::DocumentIdle);
}

#[test]
fn injection_time_roundtrip() {
    let times = [
        InjectionTime::DocumentStart,
        InjectionTime::DocumentEnd,
        InjectionTime::DocumentIdle,
    ];
    for t in times {
        assert_eq!(InjectionTime::parse_str(t.as_str()), t);
    }
}

#[test]
fn parse_all_urls() {
    let pattern = MatchPattern::parse("<all_urls>").unwrap();
    assert!(pattern.all_urls);
    assert!(pattern.matches("https://example.com/"));
    assert!(pattern.matches("http://anything.test/path"));
    assert!(!pattern.matches("ftp://example.com/"));
}

#[test]
fn parse_specific_pattern() {
    let pattern = MatchPattern::parse("https://example.com/path/*").unwrap();
    assert!(!pattern.all_urls);
    assert_eq!(pattern.scheme, "https");
    assert_eq!(pattern.host, "example.com");
    assert_eq!(pattern.path, "/path/*");
}

#[test]
fn parse_pattern_without_path_defaults() {
    let pattern = MatchPattern::parse("https://example.com").unwrap();
    assert_eq!(pattern.host, "example.com");
    assert_eq!(pattern.path, "/*");
    assert_eq!(pattern.raw, "https://example.com");
}

#[test]
fn wildcard_scheme() {
    let pattern = MatchPattern::parse("*://example.com/*").unwrap();
    assert!(pattern.matches("http://example.com/"));
    assert!(pattern.matches("https://example.com/page"));
    assert!(!pattern.matches("ftp://example.com/page"));
}

#[test]
fn subdomain_wildcard() {
    let pattern = MatchPattern::parse("*://*.example.com/*").unwrap();
    assert!(pattern.matches("https://www.example.com/"));
    assert!(pattern.matches("https://sub.example.com/page"));
    assert!(pattern.matches("https://example.com/"));
    assert!(!pattern.matches("https://notexample.com/"));
}

#[test]
fn exact_host() {
    let pattern = MatchPattern::parse("https://specific.com/*").unwrap();
    assert!(pattern.matches("https://specific.com/"));
    assert!(pattern.matches("https://specific.com/path/to/page"));
    assert!(!pattern.matches("https://sub.specific.com/"));
    assert!(!pattern.matches("http://specific.com/"));
}

#[test]
fn path_matching() {
    let pattern = MatchPattern::parse("https://example.com/api/*").unwrap();
    assert!(pattern.matches("https://example.com/api/users"));
    assert!(pattern.matches("https://example.com/api/"));
    assert!(!pattern.matches("https://example.com/other"));
}

#[test]
fn middle_wildcard_path() {
    let pattern = MatchPattern::parse("https://example.com/a/*/c").unwrap();
    assert!(pattern.matches("https://example.com/a/b/c"));
    assert!(!pattern.matches("https://example.com/x/a/b/c"));
}

#[test]
fn parse_invalid_pattern() {
    assert!(MatchPattern::parse("not-a-pattern").is_none());
}

fn script(id: &str, patterns: &[&str], run_at: InjectionTime) -> ContentScript {
    ContentScript {
        extension_id: id.to_owned(),
        patterns: patterns.iter().map(|p| MatchPattern::parse(p).unwrap()).collect(),
        source: String::new(),
        run_at,
    }
}

#[test]
fn content_script_matches() {
    let script = ContentScript {
        extension_id: "test".to_owned(),
        patterns: vec![
            MatchPattern::parse("*://*.example.com/*").unwrap(),
            MatchPattern::parse("https://other.test/*").unwrap(),
        ],
        source: "console.log('injected')".to_owned(),
        run_at: InjectionTime::DocumentIdle,
    };
    assert!(script.matches_url("https://www.example.com/page"));
    assert!(script.matches_url("https://other.test/api"));
    assert!(!script.matches_url("https://unrelated.com/"));
}

#[test]
fn filter_scripts_for_url() {
    let scripts = vec![
        script("ext1", &["*://*.example.com/*"], InjectionTime::DocumentIdle),
        script("ext2", &["https://other.test/*"], InjectionTime::DocumentStart),
    ];
    let matching = scripts_for_url(&scripts, "https://www.example.com/page");
    assert_eq!(matching.len(), 1);
    assert_eq!(matching[0].extension_id, "ext1");
}

#[test]
fn sort_scripts_by_time() {
    let scripts = vec![
        script("idle", &["<all_urls>"], InjectionTime::DocumentIdle),
        script("start", &["<all_urls>"], InjectionTime::DocumentStart),
        script("end", &["<all_urls>"], InjectionTime::DocumentEnd),
    ];
    let mut refs: Vec<&ContentScript> = scripts.iter().collect();
    sort_by_injection_time(&mut refs);
    assert_eq!(refs[0].run_at, InjectionTime::DocumentStart);
    assert_eq!(refs[1].run_at, InjectionTime::DocumentEnd);
    assert_eq!(refs[2].run_at, InjectionTime::DocumentIdle);
}

#[test]
fn sort_keeps_order_within_same_time() {
    let scripts = vec![
        script("a", &["<all_urls>"], InjectionTime::DocumentIdle),
        script("b", &["<all_urls>"], InjectionTime::DocumentStart),
        script("c", &["<all_urls>"], InjectionTime::DocumentIdle),
    ];
    let mut refs: Vec<&ContentScript> = scripts.iter().collect();
    sort_by_injection_time(&mut refs);
    let ids: Vec<&str> = refs.iter().map(|s| s.extension_id.as_str()).collect();
    assert_eq!(ids, vec!["b", "a", "c"]);
}

#[test]
fn pattern_path_without_wildcard_matches_whole_path() {
    let p = MatchPattern::parse("https://example.com/api").unwrap();
    assert!(p.matches("https://example.com/api"));
    assert!(!p.matches("https://example.com/api/users"));
    let mid = MatchPattern::parse("https://example.com/a*b").unwrap();
    assert!(mid.matches("https://example.com/ab"));
    assert!(mid.matches("https://example.com/abxb"));
    assert!(!mid.matches("https://example.com/abx"));
    let tail = MatchPattern::parse("https://example.com/*.js").unwrap();
    assert!(tail.matches("https://example.com/lib/app.js"));
    assert!(!tail.matches("https://example.com/app.json"));
    let prefix = MatchPattern::parse("https://example.com/api/*").unwrap();
    assert!(prefix.matches("https://example.com/api/users"));
}

#[test]
fn wrapped_script_carries_the_quoted_id() {
    let w = wrap_extension_script("ext\"1\n", "console.log(1);");
    assert!(w.starts_with("(function() {\n            const __vigoExtId = \"ext\\\"1\\n\";"));
    assert!(w.contains("\n            console.log(1);\n        })();"));
    assert!(w.ends_with("})();"));
    let ctl = wrap_extension_script("a\u{1}b\\", "");
    assert!(ctl.contains("\"a\\u0001b\\\\\""));
}
