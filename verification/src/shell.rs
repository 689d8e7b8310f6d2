//! Small decisions of the browser window: the launch arguments, which
//! links are downloads, how a bookmark title is shortened for its chip, and
//! which character a key types.
use vstd::prelude::*;
use vstd::utf8::{encode_utf8, is_char_boundary};
use vstd::string::StringExecFns;
use crate::text::{
    chars_ends_with, chars_find, chars_of, chars_trim, find_first, has_suffix, push_char, str_eq,
    string_from_chars, sub_chars, to_lowercase, trim_ws, unicode_lower,
};

verus! {

/// The part of a URL before its first `?`.
pub open spec fn before_query(url: Seq<char>) -> Seq<char> {
    match find_first(url, seq!['?']) {
        Some(i) => url.take(i),
        None => url,
    }
}

/// The file endings that mark a download.
pub open spec fn download_endings() -> Seq<Seq<char>> {
    seq![".zip"@, ".exe"@, ".msi"@, ".pdf"@, ".tar.gz"@, ".7z"@, ".dmg"@]
}

/// Whether a URL names a download: its path (the part before `?`),
/// lowercased, ends with one of the download endings.
pub open spec fn is_download(url: Seq<char>) -> bool {
    exists|i: int| 0 <= i < download_endings().len() && has_suffix(unicode_lower(before_query(url)), #[trigger] download_endings()[i])
}

/// Whether a URL names a download: its path (the part before `?`),
/// lowercased, ends with `.zip`, `.exe`, `.msi`, `.pdf`, `.tar.gz`, `.7z` or
/// `.dmg`.
pub fn is_download_url(url: &str) -> (r: bool)
    ensures
        r == is_download(url@),
{
    let cs = chars_of(url);
    let q = chars_of("?");
    proof {
        reveal_strlit("?");
        assert(q@ =~= seq!['?']);
    }
    let path = match chars_find(cs.as_slice(), q.as_slice()) {
        Some(i) => sub_chars(cs.as_slice(), 0, i),
        None => cs,
    };
    assert(path@ =~= before_query(url@));
    let path_str = string_from_chars(path.as_slice());
    let lower = to_lowercase(path_str.as_str());
    let lc = chars_of(lower.as_str());
    let endings = [".zip", ".exe", ".msi", ".pdf", ".tar.gz", ".7z", ".dmg"];
    proof {
        reveal_strlit(".zip");
        reveal_strlit(".exe");
        reveal_strlit(".msi");
        reveal_strlit(".pdf");
        reveal_strlit(".tar.gz");
        reveal_strlit(".7z");
        reveal_strlit(".dmg");
    }
    let mut k: usize = 0;
    while k < 7
        invariant
            k <= 7,
            endings@.len() == 7,
            forall|j: int| 0 <= j < 7 ==> (#[trigger] endings@[j])@ == download_endings()[j],
            lc@ == unicode_lower(before_query(url@)),
            forall|j: int| 0 <= j < k ==> !has_suffix(lc@, #[trigger] download_endings()[j]),
        decreases 7 - k,
    {
        let e = chars_of(endings[k]);
        if chars_ends_with(lc.as_slice(), e.as_slice()) {
            assert(has_suffix(unicode_lower(before_query(url@)), download_endings()[k as int]));
            return true;
        }
        k += 1;
    }
    false
}

/// How many bytes a bookmark title keeps on its chip before it is cut.
pub open spec fn chip_cut_allowed(title: Seq<char>) -> bool {
    encode_utf8(title).len() <= 16 || is_char_boundary(encode_utf8(title), 15)
}

/// A bookmark title as its chip shows it: titles of more than 16 bytes keep
/// their first 15 bytes and end with `…`.
pub fn clamp_title_for_chip(title: &str) -> (r: String)
    requires
        chip_cut_allowed(title@),
    ensures
        encode_utf8(title@).len() <= 16 ==> r@ == title@,
        encode_utf8(title@).len() > 16 ==> r@.len() > 0 && r@.last() == '…' && encode_utf8(
            r@.drop_last(),
        ) == encode_utf8(title@).subrange(0, 15),
{
    if title.as_bytes().len() > 16 {
        let (head, _tail) = title.split_at(15);
        let mut r = head.to_owned();
        push_char(&mut r, '…');
        assert(r@.drop_last() =~= head@);
        r
    } else {
        title.to_owned()
    }
}

/// The character a key types: letters (lowercase, uppercase with shift),
/// digits (with shift the symbols above them), a few punctuation keys and
/// the space bar; `None` for any other key.
pub open spec fn key_char(keycode: u32, shift: bool) -> Option<char> {
    if 0x41 <= keycode && keycode <= 0x5A {
        Some(
            if shift {
                (keycode as int) as char
            } else {
                (keycode as int + 32) as char
            },
        )
    } else if 0x30 <= keycode && keycode <= 0x39 {
        if shift {
            Some(")!@#$%^&*("@[keycode - 0x30])
        } else {
            Some((keycode as int) as char)
        }
    } else if keycode == 0xBE {
        Some('.')
    } else if keycode == 0xBA {
        Some(if shift { ':' } else { ';' })
    } else if keycode == 0xBF {
        Some(if shift { '?' } else { '/' })
    } else if keycode == 0xBD {
        Some(if shift { '_' } else { '-' })
    } else if keycode == 0xBB {
        Some(if shift { '+' } else { '=' })
    } else if keycode == 0xBC {
        Some(if shift { '<' } else { ',' })
    } else if keycode == 0x20 {
        Some(' ')
    } else {
        None
    }
}

/// The character a key (a Windows virtual-key code) types.
pub fn vk_to_char(keycode: u32, shift: bool) -> (r: Option<char>)
    ensures
        r == key_char(keycode, shift),
{
    proof {
        reveal_strlit(")!@#$%^&*(");
    }
    if 0x41 <= keycode && keycode <= 0x5A {
        let b: u8 = if shift { keycode as u8 } else { (keycode + 32) as u8 };
        Some(b as char)
    } else if 0x30 <= keycode && keycode <= 0x39 {
        if shift {
            let symbols = chars_of(")!@#$%^&*(");
            Some(symbols[(keycode - 0x30) as usize])
        } else {
            Some((keycode as u8) as char)
        }
    } else if keycode == 0xBE {
        Some('.')
    } else if keycode == 0xBA {
        Some(if shift { ':' } else { ';' })
    } else if keycode == 0xBF {
        Some(if shift { '?' } else { '/' })
    } else if keycode == 0xBD {
        Some(if shift { '_' } else { '-' })
    } else if keycode == 0xBB {
        Some(if shift { '+' } else { '=' })
    } else if keycode == 0xBC {
        Some(if shift { '<' } else { ',' })
    } else if keycode == 0x20 {
        Some(' ')
    } else {
        None
    }
}

// ── Launch arguments ─────────────────────────────────────────────────────────

/// What the launch arguments ask for.
#[derive(Debug, Clone, PartialEq, Eq)]
pub struct LaunchArgs {
    /// The text to open at startup (a URL or a search), trimmed; none for a
    /// new tab.
    pub target: Option<String>,
    /// Whether the previous session is restored.
    pub restore_session: bool,
}

/// The arguments read so far.
pub struct LaunchScan {
    pub restore_session: bool,
    pub force_new_tab: bool,
    pub explicit: Option<Seq<char>>,
    pub positional: Seq<Seq<char>>,
}

/// Reads the arguments from position `i` on: `--fresh` and
/// `--no-session-restore` turn session restore off, `--new-tab` asks for
/// a new tab, `--url` takes the next argument as the target (the last one
/// given wins), and anything else is a word of the target.
pub open spec fn scan_args(args: Seq<Seq<char>>, i: int, st: LaunchScan) -> LaunchScan
    decreases args.len() - i,
{
    if i < 0 || i >= args.len() {
        st
    } else if args[i] == "--fresh"@ || args[i] == "--no-session-restore"@ {
        scan_args(args, i + 1, LaunchScan { restore_session: false, ..st })
    } else if args[i] == "--new-tab"@ {
        scan_args(args, i + 1, LaunchScan { force_new_tab: true, ..st })
    } else if args[i] == "--url"@ {
        if i + 1 < args.len() {
            scan_args(args, i + 2, LaunchScan { explicit: Some(args[i + 1]), ..st })
        } else {
            scan_args(args, i + 1, st)
        }
    } else {
        scan_args(args, i + 1, LaunchScan { positional: st.positional.push(args[i]), ..st })
    }
}

/// Words joined with single spaces.
pub open spec fn join_words(words: Seq<Seq<char>>) -> Seq<char>
    decreases words.len(),
{
    if words.len() == 0 {
        seq![]
    } else if words.len() == 1 {
        words[0]
    } else {
        join_words(words.drop_last()) + seq![' '] + words.last()
    }
}

/// A startup text, trimmed; none when nothing is left.
pub open spec fn startup_text(input: Seq<char>) -> Option<Seq<char>> {
    if trim_ws(input).len() == 0 {
        None
    } else {
        Some(trim_ws(input))
    }
}

/// The target the arguments ask for.
pub open spec fn launch_target(st: LaunchScan) -> Option<Seq<char>> {
    if st.force_new_tab {
        None
    } else {
        match st.explicit {
            Some(t) => startup_text(t),
            None => if st.positional.len() == 0 {
                None
            } else {
                startup_text(join_words(st.positional))
            },
        }
    }
}

/// The state before any argument.
pub open spec fn scan_start() -> LaunchScan {
    LaunchScan { restore_session: true, force_new_tab: false, explicit: None, positional: Seq::empty() }
}

/// Reads the launch arguments (without the program name).
pub fn parse_launch_args(args: &[String]) -> (r: LaunchArgs)
    ensures
        r.restore_session == scan_args(args@.map_values(|a: String| a@), 0, scan_start()).restore_session,
        match (r.target, launch_target(scan_args(args@.map_values(|a: String| a@), 0, scan_start()))) {
            (Some(t), Some(u)) => t@ == u,
            (None, None) => true,
            _ => false,
        },
{
    let ghost av = args@.map_values(|a: String| a@);
    let mut restore_session = true;
    let mut force_new_tab = false;
    let mut explicit: Option<String> = None;
    let mut positional: Vec<String> = Vec::new();
    let mut i: usize = 0;
    proof {
        reveal_strlit("--fresh");
        reveal_strlit("--no-session-restore");
        reveal_strlit("--new-tab");
        reveal_strlit("--url");
    }
    assert(positional@.map_values(|p: String| p@) =~= Seq::<Seq<char>>::empty());
    while i < args.len()
        invariant
            i <= args@.len(),
            av == args@.map_values(|a: String| a@),
            scan_args(av, 0, scan_start()) == scan_args(av, i as int, LaunchScan {
                restore_session,
                force_new_tab,
                explicit: match explicit {
                    Some(e) => Some(e@),
                    None => None,
                },
                positional: positional@.map_values(|p: String| p@),
            }),
        decreases args.len() - i,
    {
        let a = args[i].as_str();
        assert(av[i as int] == a@);
        if str_eq(a, "--fresh") || str_eq(a, "--no-session-restore") {
            restore_session = false;
            i += 1;
        } else if str_eq(a, "--new-tab") {
            force_new_tab = true;
            i += 1;
        } else if str_eq(a, "--url") {
            if i + 1 < args.len() {
                explicit = Some(args[i + 1].clone());
                assert(av[i + 1] == args@[i + 1]@);
                i += 2;
            } else {
                i += 1;
            }
        } else {
            let ghost before = positional@;
            positional.push(args[i].clone());
            assert(positional@.map_values(|p: String| p@) =~= before.map_values(|p: String| p@).push(a@));
            i += 1;
        }
    }
    let target = if force_new_tab {
        None
    } else {
        match explicit {
            Some(t) => startup_target(t.as_str()),
            None => if positional.len() == 0 {
                None
            } else {
                let joined = join_with_spaces(&positional);
                startup_target(joined.as_str())
            },
        }
    };
    LaunchArgs { target, restore_session }
}

fn startup_target(input: &str) -> (r: Option<String>)
    ensures
        match (r, startup_text(input@)) {
            (Some(t), Some(u)) => t@ == u,
            (None, None) => true,
            _ => false,
        },
{
    let cs = chars_of(input);
    let t = chars_trim(cs.as_slice());
    if t.len() == 0 {
        None
    } else {
        Some(string_from_chars(t.as_slice()))
    }
}

fn join_with_spaces(words: &Vec<String>) -> (r: String)
    ensures
        r@ == join_words(words@.map_values(|w: String| w@)),
{
    let ghost wv = words@.map_values(|w: String| w@);
    let mut out = String::new();
    let mut i: usize = 0;
    while i < words.len()
        invariant
            i <= words@.len(),
            wv == words@.map_values(|w: String| w@),
            out@ == join_words(wv.take(i as int)),
        decreases words.len() - i,
    {
        if i > 0 {
            push_char(&mut out, ' ');
        }
        out.append(words[i].as_str());
        proof {
            let t = wv.take(i + 1);
            assert(t.drop_last() =~= wv.take(i as int));
            assert(t.last() == words@[i as int]@);
            if i == 0 {
                assert(t.len() == 1);
                assert(out@ =~= t[0]);
            }
        }
        i += 1;
    }
    assert(wv.take(words@.len() as int) =~= wv);
    out
}

/// A key that a keyboard shortcut names.
#[derive(Debug, Clone, Copy, PartialEq, Eq, Structural)]
pub enum Key {
    Tab,
    Enter,
    Escape,
    Backspace,
    Left,
    Right,
    Plus,
    Minus,
    Zero,
    /// A letter key, by its uppercase letter.
    Char(char),
    /// A function key F1 to F12, by its number.
    F(u8),
}

/// A key with the modifiers held.
#[derive(Debug, Clone, Copy, PartialEq, Eq, Structural)]
pub struct Shortcut {
    pub ctrl: bool,
    pub shift: bool,
    pub alt: bool,
    pub key: Key,
}

/// The key a Win32 virtual-key code names, if a shortcut can use it.
pub open spec fn vk_key(keycode: u32) -> Option<Key> {
    if keycode == 0x09 {
        Some(Key::Tab)
    } else if keycode == 0x0D {
        Some(Key::Enter)
    } else if keycode == 0x1B {
        Some(Key::Escape)
    } else if keycode == 0x08 {
        Some(Key::Backspace)
    } else if keycode == 0x25 {
        Some(Key::Left)
    } else if keycode == 0x27 {
        Some(Key::Right)
    } else if keycode == 0xBB {
        Some(Key::Plus)
    } else if keycode == 0xBD {
        Some(Key::Minus)
    } else if keycode == 0x30 {
        Some(Key::Zero)
    } else if 0x41 <= keycode <= 0x5A {
        Some(Key::Char(keycode as char))
    } else if 0x70 <= keycode <= 0x7B {
        Some(Key::F((keycode - 0x70 + 1) as u8))
    } else {
        None
    }
}

/// The shortcut a Win32 virtual-key code and modifier bits make (bit 0
/// Ctrl, bit 1 Shift, bit 2 Alt); `None` for a key no shortcut uses.
pub fn platform_to_shortcut(keycode: u32, modifiers: u32) -> (r: Option<Shortcut>)
    ensures
        vk_key(keycode) is None ==> r is None,
        vk_key(keycode) matches Some(k) ==> r == Some(
            Shortcut {
                ctrl: modifiers & 0x01 != 0,
                shift: modifiers & 0x02 != 0,
                alt: modifiers & 0x04 != 0,
                key: k,
            },
        ),
{
    let key = if keycode == 0x09 {
        Key::Tab
    } else if keycode == 0x0D {
        Key::Enter
    } else if keycode == 0x1B {
        Key::Escape
    } else if keycode == 0x08 {
        Key::Backspace
    } else if keycode == 0x25 {
        Key::Left
    } else if keycode == 0x27 {
        Key::Right
    } else if keycode == 0xBB {
        Key::Plus
    } else if keycode == 0xBD {
        Key::Minus
    } else if keycode == 0x30 {
        Key::Zero
    } else if 0x41 <= keycode && keycode <= 0x5A {
        Key::Char(keycode as u8 as char)
    } else if 0x70 <= keycode && keycode <= 0x7B {
        Key::F((keycode - 0x70 + 1) as u8)
    } else {
        return None;
    };
    Some(Shortcut { ctrl: modifiers & 0x01 != 0, shift: modifiers & 0x02 != 0, alt: modifiers & 0x04 != 0, key })
}

} // verus!
