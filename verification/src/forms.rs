//! Form handling: the submission method, keys that edit inputs, focus, and
//! the encoding of form data into a query string and a submission URL.
use vstd::prelude::*;
use vstd::utf8::{encode_scalar, encode_utf8};
use vstd::string::StringExecFns;
use crate::node::VexId;
use crate::text::{ascii_lower, chars_of, push_char, str_eq_ignore_ascii_case, str_to_bytes};

verus! {

/// What a keyboard event on a form element led to.
#[derive(Debug, Clone, PartialEq)]
pub enum FormEditResult {
    /// The input's text changed.
    Changed,
    /// Nothing changed.
    NoChange,
    /// Enter in a text input submits the form.
    Submit { action: String, method: FormMethod },
}

/// The HTTP method of a form submission.
#[derive(Debug, Clone, Copy, PartialEq, Eq, Structural)]
pub enum FormMethod {
    Get,
    Post,
}

impl FormMethod {
    /// The method named by an HTML `method` attribute: `post` in any case
    /// is POST, everything else GET.
    pub fn from_attr(s: &str) -> (r: Self)
        ensures
            r == (if ascii_lower(s@) == "post"@ {
                FormMethod::Post
            } else {
                FormMethod::Get
            }),
    {
        proof {
            reveal_strlit("post");
        }
        if str_eq_ignore_ascii_case(s, "post") {
            assert(ascii_lower("post"@) =~= "post"@);
            FormMethod::Post
        } else {
            assert(ascii_lower("post"@) =~= "post"@);
            FormMethod::Get
        }
    }
}

/// Keys with a meaning of their own in form inputs.
#[derive(Debug, Clone, Copy, PartialEq, Eq, Structural)]
pub enum FormKey {
    Backspace,
    Delete,
    Left,
    Right,
    Home,
    End,
    SelectAll,
    Space,
}

/// Which form element has the focus.
#[derive(Debug)]
pub struct FormHandler {
    focused: Option<VexId>,
}

impl FormHandler {
    /// The element that has the focus, if any.
    pub closed spec fn focus(&self) -> Option<VexId> {
        self.focused
    }

    /// A handler with no focused element.
    pub fn new() -> (r: Self)
        ensures
            r.focus() is None,
    {
        FormHandler { focused: None }
    }

    /// Gives the focus to an element.
    pub fn set_focus(&mut self, id: VexId)
        ensures
            final(self).focus() == Some(id),
    {
        self.focused = Some(id);
    }

    /// Takes the focus away.
    pub fn clear_focus(&mut self)
        ensures
            final(self).focus() is None,
    {
        self.focused = None;
    }

    /// The element that has the focus, if any.
    pub fn focused(&self) -> (r: Option<VexId>)
        ensures
            r == self.focus(),
    {
        self.focused
    }
}

impl Default for FormHandler {
    fn default() -> (r: Self)
        ensures
            r.focus() is None,
    {
        Self::new()
    }
}

// ── Form data encoding ───────────────────────────────────────────────────────

/// Characters that form encoding keeps as they are.
pub open spec fn is_unreserved(c: char) -> bool {
    ||| ('A' <= c && c <= 'Z')
    ||| ('a' <= c && c <= 'z')
    ||| ('0' <= c && c <= '9')
    ||| c == '-'
    ||| c == '_'
    ||| c == '.'
    ||| c == '~'
}

/// A lowercase hexadecimal digit.
pub open spec fn lower_hex(d: int) -> char {
    if d < 10 {
        (48 + d) as char
    } else {
        (87 + d) as char
    }
}

/// Each byte written as `%` and two lowercase hexadecimal digits.
pub open spec fn pct_bytes(b: Seq<u8>) -> Seq<char>
    decreases b.len(),
{
    if b.len() == 0 {
        seq![]
    } else {
        pct_bytes(b.drop_last()) + seq!['%', lower_hex((b.last() / 16) as int), lower_hex((b.last() % 16) as int)]
    }
}

/// The form encoding of one character: unreserved characters stay, a space
/// becomes `+`, anything else is its UTF-8 bytes percent-encoded.
pub open spec fn pct_char(c: char) -> Seq<char> {
    if is_unreserved(c) {
        seq![c]
    } else if c == ' ' {
        seq!['+']
    } else {
        pct_bytes(encode_scalar(c as u32))
    }
}

/// The form encoding of a text, character by character.
pub open spec fn form_encoded(s: Seq<char>) -> Seq<char>
    decreases s.len(),
{
    if s.len() == 0 {
        seq![]
    } else {
        form_encoded(s.drop_last()) + pct_char(s.last())
    }
}

/// One `name=value` pair, both encoded.
pub open spec fn pair_text(p: (String, String)) -> Seq<char> {
    form_encoded(p.0@) + seq!['='] + form_encoded(p.1@)
}

/// The pairs, encoded and joined with `&`.
pub open spec fn form_data(pairs: Seq<(String, String)>) -> Seq<char>
    decreases pairs.len(),
{
    if pairs.len() == 0 {
        seq![]
    } else if pairs.len() == 1 {
        pair_text(pairs[0])
    } else {
        form_data(pairs.drop_last()) + seq!['&'] + pair_text(pairs.last())
    }
}

fn hex_lower(d: u8) -> (c: char)
    requires
        d < 16,
    ensures
        c == lower_hex(d as int),
{
    if d < 10 {
        (48 + d) as char
    } else {
        (87 + d) as char
    }
}

fn unreserved(c: char) -> (r: bool)
    ensures
        r == is_unreserved(c),
{
    ('A' <= c && c <= 'Z') || ('a' <= c && c <= 'z') || ('0' <= c && c <= '9') || c == '-'
        || c == '_' || c == '.' || c == '~'
}

/// Appends the percent-encoded UTF-8 bytes of one character.
fn push_pct_char(out: &mut String, c: char)
    ensures
        final(out)@ == old(out)@ + pct_bytes(encode_scalar(c as u32)),
{
    let mut one = String::new();
    push_char(&mut one, c);
    let bytes = str_to_bytes(one.as_str());
    proof {
        assert(one@ =~= seq![c]);
        assert(seq![c].drop_first() =~= Seq::<char>::empty());
        assert(encode_utf8(seq![c]) =~= encode_scalar(c as u32) + encode_utf8(
            Seq::<char>::empty(),
        ));
        assert(bytes@ =~= encode_scalar(c as u32));
    }
    let ghost start = out@;
    let mut j: usize = 0;
    while j < bytes.len()
        invariant
            j <= bytes@.len(),
            out@ == start + pct_bytes(bytes@.take(j as int)),
        decreases bytes.len() - j,
    {
        let b = bytes[j];
        push_char(out, '%');
        push_char(out, hex_lower(b / 16));
        push_char(out, hex_lower(b % 16));
        proof {
            let t = bytes@.take(j + 1);
            assert(t.drop_last() =~= bytes@.take(j as int));
            assert(t.last() == b);
        }
        j += 1;
    }
    assert(bytes@.take(bytes@.len() as int) =~= bytes@);
}

/// Form encoding: letters, digits and `-_.~` stay, a space becomes `+`,
/// every other character becomes its UTF-8 bytes as `%xx` in lowercase
/// hexadecimal.
pub fn percent_encode(s: &str) -> (r: String)
    ensures
        r@ == form_encoded(s@),
{
    let cs = chars_of(s);
    let mut out = String::new();
    let mut i: usize = 0;
    while i < cs.len()
        invariant
            i <= cs@.len(),
            cs@ == s@,
            out@ == form_encoded(cs@.take(i as int)),
        decreases cs.len() - i,
    {
        let c = cs[i];
        if unreserved(c) {
            push_char(&mut out, c);
        } else if c == ' ' {
            push_char(&mut out, '+');
        } else {
            push_pct_char(&mut out, c);
        }
        proof {
            let t = cs@.take(i + 1);
            assert(t.drop_last() =~= cs@.take(i as int));
            assert(t.last() == c);
        }
        i += 1;
    }
    assert(cs@.take(cs@.len() as int) =~= s@);
    out
}

/// The query string of name-value pairs: `name=value` for each pair, both
/// form-encoded, joined with `&`.
pub fn encode_form_data(pairs: &[(String, String)]) -> (r: String)
    ensures
        r@ == form_data(pairs@),
{
    let mut out = String::new();
    let mut i: usize = 0;
    while i < pairs.len()
        invariant
            i <= pairs@.len(),
            out@ == form_data(pairs@.take(i as int)),
        decreases pairs.len() - i,
    {
        if i > 0 {
            push_char(&mut out, '&');
        }
        let name = percent_encode(pairs[i].0.as_str());
        let value = percent_encode(pairs[i].1.as_str());
        out.append(name.as_str());
        push_char(&mut out, '=');
        out.append(value.as_str());
        proof {
            let t = pairs@.take(i + 1);
            assert(t.drop_last() =~= pairs@.take(i as int));
            assert(t.last() == pairs@[i as int]);
            if i == 0 {
                assert(t.len() == 1 && t[0] == pairs@[0]);
            }
        }
        i += 1;
    }
    assert(pairs@.take(pairs@.len() as int) =~= pairs@);
    out
}

// ── Submission URL ───────────────────────────────────────────────────────────

/// The serialised URL that `url::Url::join` resolves a reference to,
/// against a base that `url::Url::parse` reads; `None` where either fails.
pub uninterp spec fn resolved_url(base: Seq<char>, reference: Seq<char>) -> Option<Seq<char>>;

/// The serialised URL after `url::Url::set_query` puts a query on a URL
/// that `url::Url::parse` reads; `None` where the URL does not parse.
pub uninterp spec fn url_with_query(url: Seq<char>, query: Seq<char>) -> Option<Seq<char>>;

/// The text of an optional string.
pub open spec fn opt_text(o: Option<String>) -> Option<Seq<char>> {
    match o {
        Some(s) => Some(s@),
        None => None,
    }
}

/// Resolves `reference` against `base` (`Url::parse`, then `Url::join`)
/// and serialises the result. The contract only names the result.
#[verifier::external_body]
fn join_url(base: &str, reference: &str) -> (r: Option<String>)
    ensures
        opt_text(r) == resolved_url(base@, reference@),
{
    match url::Url::parse(base) {
        Ok(b) => match b.join(reference) {
            Ok(u) => Some(u.as_str().to_string()),
            Err(_) => None,
        },
        Err(_) => None,
    }
}

/// Puts a query on a URL (`Url::parse`, then `Url::set_query`) and
/// serialises the result. The contract only names the result.
#[verifier::external_body]
fn set_url_query(url: &str, query: &str) -> (r: Option<String>)
    ensures
        opt_text(r) == url_with_query(url@, query@),
{
    match url::Url::parse(url) {
        Ok(mut u) => {
            u.set_query(Some(query));
            Some(u.as_str().to_string())
        },
        Err(_) => None,
    }
}

/// The URL a form submits to: the action resolved against the page's URL;
/// for GET, with the encoded pairs as its query when there are any.
pub open spec fn submission_url(
    action: Seq<char>,
    base: Seq<char>,
    method: FormMethod,
    pairs: Seq<(String, String)>,
) -> Option<Seq<char>> {
    match resolved_url(base, action) {
        None => None,
        Some(u) => match method {
            FormMethod::Post => Some(u),
            FormMethod::Get => if form_data(pairs).len() == 0 {
                Some(u)
            } else {
                url_with_query(u, form_data(pairs))
            },
        },
    }
}

/// The URL a form submits to. For GET the encoded pairs become the query
/// (left alone when there are none); for POST the resolved action is
/// returned as it is. `None` when the action does not resolve.
pub fn build_submission_url(
    action: &str,
    base_url: &str,
    method: FormMethod,
    pairs: &[(String, String)],
) -> (r: Option<String>)
    ensures
        opt_text(r) == submission_url(action@, base_url@, method, pairs@),
{
    let resolved = join_url(base_url, action);
    match resolved {
        None => None,
        Some(u) => match method {
            FormMethod::Post => Some(u),
            FormMethod::Get => {
                let query = encode_form_data(pairs);
                if query.as_str().unicode_len() == 0 {
                    Some(u)
                } else {
                    set_url_query(u.as_str(), query.as_str())
                }
            },
        },
    }
}

/// What kind of form field has the focus, as typing sees it.
#[derive(Debug, Clone, Copy, PartialEq, Eq, Structural)]
pub enum FieldKind {
    /// A text-like input or a textarea.
    TextLike,
    /// A checkbox.
    Checkbox,
    /// Any other field (radio, select, button, ...).
    Other,
}

/// The edit a key press makes to the focused field.
#[derive(Debug, Clone, Copy, PartialEq, Eq, Structural)]
pub enum FormEdit {
    /// Nothing happens.
    Nothing,
    /// A character is typed at the cursor.
    Insert(char),
    DeleteBackward,
    DeleteForward,
    MoveLeft,
    MoveRight,
    MoveHome,
    MoveEnd,
    SelectAll,
    /// The checkbox flips.
    ToggleChecked,
    /// Enter: the enclosing form is submitted.
    Submit,
}

/// The edit a typed character makes: only a text-like field takes one;
/// Enter (CR or LF) submits the form and Tab does nothing.
pub open spec fn char_edit_spec(field: Option<FieldKind>, ch: char) -> FormEdit {
    match field {
        Some(FieldKind::TextLike) => if ch == '\r' || ch == '\n' {
            FormEdit::Submit
        } else if ch == '\t' {
            FormEdit::Nothing
        } else {
            FormEdit::Insert(ch)
        },
        _ => FormEdit::Nothing,
    }
}

/// The edit a special key makes: in a text-like field each key edits or
/// moves the cursor (Space types a space); Space flips a checkbox; nothing
/// happens otherwise.
pub open spec fn key_edit_spec(field: Option<FieldKind>, key: FormKey) -> FormEdit {
    match field {
        Some(FieldKind::TextLike) => match key {
            FormKey::Backspace => FormEdit::DeleteBackward,
            FormKey::Delete => FormEdit::DeleteForward,
            FormKey::Left => FormEdit::MoveLeft,
            FormKey::Right => FormEdit::MoveRight,
            FormKey::Home => FormEdit::MoveHome,
            FormKey::End => FormEdit::MoveEnd,
            FormKey::SelectAll => FormEdit::SelectAll,
            FormKey::Space => FormEdit::Insert(' '),
        },
        Some(FieldKind::Checkbox) => if key == FormKey::Space {
            FormEdit::ToggleChecked
        } else {
            FormEdit::Nothing
        },
        _ => FormEdit::Nothing,
    }
}

/// The edit a typed character makes to the focused field (`None` when no
/// field has the focus or it has no form state).
pub fn char_edit(field: Option<FieldKind>, ch: char) -> (r: FormEdit)
    ensures
        r == char_edit_spec(field, ch),
{
    match field {
        Some(FieldKind::TextLike) => {
            if ch == '\r' || ch == '\n' {
                FormEdit::Submit
            } else if ch == '\t' {
                FormEdit::Nothing
            } else {
                FormEdit::Insert(ch)
            }
        },
        _ => FormEdit::Nothing,
    }
}

/// The edit a special key makes to the focused field (`None` when no field
/// has the focus or it has no form state).
pub fn key_edit(field: Option<FieldKind>, key: FormKey) -> (r: FormEdit)
    ensures
        r == key_edit_spec(field, key),
{
    match field {
        Some(FieldKind::TextLike) => match key {
            FormKey::Backspace => FormEdit::DeleteBackward,
            FormKey::Delete => FormEdit::DeleteForward,
            FormKey::Left => FormEdit::MoveLeft,
            FormKey::Right => FormEdit::MoveRight,
            FormKey::Home => FormEdit::MoveHome,
            FormKey::End => FormEdit::MoveEnd,
            FormKey::SelectAll => FormEdit::SelectAll,
            FormKey::Space => FormEdit::Insert(' '),
        },
        Some(FieldKind::Checkbox) => {
            if key == FormKey::Space {
                FormEdit::ToggleChecked
            } else {
                FormEdit::Nothing
            }
        },
        _ => FormEdit::Nothing,
    }
}

} // verus!
