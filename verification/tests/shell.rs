use vex_browser::shell::{clamp_title_for_chip, is_download_url, parse_launch_args, platform_to_shortcut, vk_to_char, Key, Shortcut};

fn args(a: &[&str]) -> Vec<String> {
    a.iter().map(|s| s.to_string()).collect()
}

#[test]
fn download_urls_by_ending() {
    assert!(is_download_url("https://x.com/file.zip"));
    assert!(is_download_url("https://x.com/Setup.EXE?token=1"));
    assert!(is_download_url("https://x.com/a.tar.gz"));
    assert!(is_download_url("https://x.com/doc.pdf"));
    assert!(!is_download_url("https://x.com/page.html"));
    assert!(!is_download_url("https://x.com/page?file=a.zip"));
    assert!(!is_download_url(""));
}

#[test]
fn short_titles_stay() {
    assert_eq!(clamp_title_for_chip("Rust"), "Rust");
    assert_eq!(clamp_title_for_chip("exactly16bytes!!"), "exactly16bytes!!");
}

#[test]
fn long_titles_are_cut() {
    assert_eq!(clamp_title_for_chip("The Rust Programming Language"), "The Rust Progra…");
}

#[test]
fn letter_and_digit_keys() {
    assert_eq!(vk_to_char(0x41, false), Some('a'));
    assert_eq!(vk_to_char(0x41, true), Some('A'));
    assert_eq!(vk_to_char(0x5A, false), Some('z'));
    assert_eq!(vk_to_char(0x30, false), Some('0'));
    assert_eq!(vk_to_char(0x31, true), Some('!'));
    assert_eq!(vk_to_char(0x30, true), Some(')'));
    assert_eq!(vk_to_char(0x39, true), Some('('));
}

#[test]
fn punctuation_keys() {
    assert_eq!(vk_to_char(0xBE, false), Some('.'));
    assert_eq!(vk_to_char(0xBA, true), Some(':'));
    assert_eq!(vk_to_char(0xBF, false), Some('/'));
    assert_eq!(vk_to_char(0xBD, true), Some('_'));
    assert_eq!(vk_to_char(0xBB, false), Some('='));
    assert_eq!(vk_to_char(0xBC, true), Some('<'));
    assert_eq!(vk_to_char(0x20, false), Some(' '));
    assert_eq!(vk_to_char(0x0D, false), None);
}

#[test]
fn launch_options_fresh_disables_session_restore() {
    let launch = parse_launch_args(&args(&["--fresh"]));
    assert!(!launch.restore_session);
    assert!(launch.target.is_none());
    assert!(!parse_launch_args(&args(&["--no-session-restore"])).restore_session);
}

#[test]
fn launch_options_url_flag_sets_startup_target() {
    let launch = parse_launch_args(&args(&["--url", "https://example.com"]));
    assert!(launch.restore_session);
    assert_eq!(launch.target.as_deref(), Some("https://example.com"));
}

#[test]
fn launch_options_new_tab_overrides_positional_target() {
    let launch = parse_launch_args(&args(&["--new-tab", "https://example.com"]));
    assert!(launch.target.is_none());
}

#[test]
fn startup_target_skips_empty_input() {
    assert!(parse_launch_args(&args(&["   "])).target.is_none());
    assert!(parse_launch_args(&args(&[])).target.is_none());
}

#[test]
fn positional_words_are_joined() {
    let launch = parse_launch_args(&args(&["rust", "browser", " engine "]));
    assert_eq!(launch.target.as_deref(), Some("rust browser  engine"));
    let launch = parse_launch_args(&args(&["a", "--url", "x", "--url", "y", "b"]));
    assert_eq!(launch.target.as_deref(), Some("y"));
    assert!(parse_launch_args(&args(&["--url"])).target.is_none());
}

#[test]
fn platform_keys_make_shortcuts() {
    let s = platform_to_shortcut(0x54, 0x01).unwrap();
    assert_eq!(s, Shortcut { ctrl: true, shift: false, alt: false, key: Key::Char('T') });
    let f5 = platform_to_shortcut(0x74, 0x06).unwrap();
    assert_eq!(f5, Shortcut { ctrl: false, shift: true, alt: true, key: Key::F(5) });
    assert_eq!(platform_to_shortcut(0x0D, 0).unwrap().key, Key::Enter);
    assert_eq!(platform_to_shortcut(0xBB, 0).unwrap().key, Key::Plus);
    assert_eq!(platform_to_shortcut(0x20, 0x01), None);
}
