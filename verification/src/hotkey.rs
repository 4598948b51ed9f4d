//! The global shortcut as the settings store it: "Option+Space", "Command+Shift+K".
//! Modifier names map to Alt/Meta/Control/Shift; the key goes by its
//! `KeyboardEvent.code`-style name.

use vstd::prelude::*;
use crate::text::{trim, lower, lower_char, trim_str, lower_eq, lower_char_exec};

verus! {

/// A key that the shortcut can use.
#[derive(Debug, Clone, Copy, PartialEq, Eq, Structural)]
pub enum KeyCode {
    Space,
    Enter,
    Tab,
    Backspace,
    Escape,
    ArrowUp,
    ArrowDown,
    ArrowLeft,
    ArrowRight,
    Home,
    End,
    PageUp,
    PageDown,
    Delete,
    CapsLock,
    Minus,
    Equal,
    Comma,
    Period,
    Slash,
    Semicolon,
    Quote,
    Backquote,
    BracketLeft,
    BracketRight,
    Backslash,
    /// F1 to F24.
    Function(u8),
    /// `KeyA` to `KeyZ`, by the lower-case letter.
    Letter(char),
    /// `Digit0` to `Digit9`, by the digit.
    Digit(char),
}

/// Modifier set of a shortcut.
#[derive(Debug, Clone, Copy, PartialEq, Eq, Structural)]
pub struct Modifiers {
    pub alt: bool,
    pub meta: bool,
    pub control: bool,
    pub shift: bool,
}

/// A parsed global shortcut.
#[derive(Debug, Clone, Copy, PartialEq, Eq, Structural)]
pub struct Hotkey {
    pub modifiers: Modifiers,
    pub key: KeyCode,
}

pub open spec fn no_modifiers() -> Modifiers {
    Modifiers { alt: false, meta: false, control: false, shift: false }
}

/// The named keys, punctuation included (the settings also store bare characters).
pub open spec fn named_key(l: Seq<char>) -> Option<KeyCode> {
    if l == "space"@ {
        Some(KeyCode::Space)
    } else if l == "enter"@ || l == "return"@ {
        Some(KeyCode::Enter)
    } else if l == "tab"@ {
        Some(KeyCode::Tab)
    } else if l == "backspace"@ {
        Some(KeyCode::Backspace)
    } else if l == "escape"@ || l == "esc"@ {
        Some(KeyCode::Escape)
    } else if l == "up"@ || l == "arrowup"@ {
        Some(KeyCode::ArrowUp)
    } else if l == "down"@ || l == "arrowdown"@ {
        Some(KeyCode::ArrowDown)
    } else if l == "left"@ || l == "arrowleft"@ {
        Some(KeyCode::ArrowLeft)
    } else if l == "right"@ || l == "arrowright"@ {
        Some(KeyCode::ArrowRight)
    } else if l == "home"@ {
        Some(KeyCode::Home)
    } else if l == "end"@ {
        Some(KeyCode::End)
    } else if l == "pageup"@ {
        Some(KeyCode::PageUp)
    } else if l == "pagedown"@ {
        Some(KeyCode::PageDown)
    } else if l == "delete"@ {
        Some(KeyCode::Delete)
    } else if l == "capslock"@ {
        Some(KeyCode::CapsLock)
    } else if l == "-"@ || l == "minus"@ {
        Some(KeyCode::Minus)
    } else if l == "="@ || l == "equal"@ {
        Some(KeyCode::Equal)
    } else if l == ","@ || l == "comma"@ {
        Some(KeyCode::Comma)
    } else if l == "."@ || l == "period"@ {
        Some(KeyCode::Period)
    } else if l == "/"@ || l == "slash"@ {
        Some(KeyCode::Slash)
    } else if l == ";"@ || l == "semicolon"@ {
        Some(KeyCode::Semicolon)
    } else if l == "'"@ || l == "quote"@ {
        Some(KeyCode::Quote)
    } else if l == "`"@ || l == "backquote"@ {
        Some(KeyCode::Backquote)
    } else if l == "["@ || l == "bracketleft"@ {
        Some(KeyCode::BracketLeft)
    } else if l == "]"@ || l == "bracketright"@ {
        Some(KeyCode::BracketRight)
    } else if l == "\\"@ || l == "backslash"@ {
        Some(KeyCode::Backslash)
    } else {
        None
    }
}

pub open spec fn is_digit(c: char) -> bool {
    '0' <= c && c <= '9'
}

/// Value of an all-digit string.
pub open spec fn digits_value(s: Seq<char>) -> nat
    decreases s.len(),
{
    if s.len() == 0 {
        0
    } else {
        digits_value(s.drop_last()) * 10 + ((s.last() as u32) - ('0' as u32)) as nat
    }
}

/// The digits part of an unsigned number: an optional leading '+' is dropped.
pub open spec fn unsigned_body(s: Seq<char>) -> Seq<char> {
    if s.len() > 0 && s[0] == '+' {
        s.drop_first()
    } else {
        s
    }
}

pub open spec fn all_digits(s: Seq<char>) -> bool {
    forall|i: int| 0 <= i < s.len() ==> is_digit(#[trigger] s[i])
}

/// What `u8::from_str` accepts: an optional '+', then at least one digit, at most 255.
pub open spec fn parse_u8(s: Seq<char>) -> Option<u8> {
    let body = unsigned_body(s);
    if body.len() == 0 || !all_digits(body) {
        None
    } else if digits_value(body) > 255 {
        None
    } else {
        Some(digits_value(body) as u8)
    }
}

/// "f1" to "f24".
pub open spec fn function_key(l: Seq<char>) -> Option<KeyCode> {
    if l.len() >= 1 && l[0] == 'f' {
        match parse_u8(l.drop_first()) {
            Some(n) => if 1 <= n && n <= 24 {
                Some(KeyCode::Function(n))
            } else {
                None
            },
            None => None,
        }
    } else {
        None
    }
}

pub open spec fn letter_key_spec(c: char) -> Option<KeyCode> {
    if 'a' <= c && c <= 'z' {
        Some(KeyCode::Letter(c))
    } else {
        None
    }
}

pub open spec fn digit_key_spec(c: char) -> Option<KeyCode> {
    if is_digit(c) {
        Some(KeyCode::Digit(c))
    } else {
        None
    }
}

/// The key a token names, case-insensitively: a named key, then F1–F24, then one
/// letter or digit.
pub open spec fn key_of(token: Seq<char>) -> Option<KeyCode> {
    let l = lower(token);
    if named_key(l) is Some {
        named_key(l)
    } else if function_key(l) is Some {
        function_key(l)
    } else if l.len() == 1 {
        if letter_key_spec(l[0]) is Some {
            letter_key_spec(l[0])
        } else {
            digit_key_spec(l[0])
        }
    } else {
        None
    }
}

pub open spec fn unsupported_key_message(token: Seq<char>) -> Seq<char> {
    "unsupported hotkey key: \""@ + token + "\""@
}

pub open spec fn invalid_message(spec: Seq<char>, reason: Seq<char>) -> Seq<char> {
    "invalid hotkey \""@ + spec + reason
}

/// The part of `s` from `start` up to the next separator (or the end), then the rest.
pub open spec fn sep_index(s: Seq<char>, sep: char, i: int) -> int
    decreases s.len() - i,
{
    if i < 0 || i >= s.len() {
        s.len() as int
    } else if s[i] == sep {
        i
    } else {
        sep_index(s, sep, i + 1)
    }
}

/// `str::split(sep)` of the suffix of `s` that starts at `start`.
pub open spec fn split_from(s: Seq<char>, sep: char, start: int) -> Seq<Seq<char>>
    decreases s.len() - start,
{
    let i = sep_index(s, sep, start);
    if start < 0 || start > s.len() || i >= s.len() || i < start {
        seq![s.subrange(start, s.len() as int)]
    } else {
        seq![s.subrange(start, i)].add(split_from(s, sep, i + 1))
    }
}

/// State of the left-to-right pass over the parts.
pub enum ParseState {
    Going { modifiers: Modifiers, key: Option<KeyCode> },
    Failed { message: Seq<char> },
}

/// One part of the shortcut text.
pub open spec fn parse_step(spec: Seq<char>, st: ParseState, part: Seq<char>) -> ParseState {
    match st {
        ParseState::Failed { message } => ParseState::Failed { message },
        ParseState::Going { modifiers, key } => {
            let t = trim(part);
            let l = lower(t);
            if t.len() == 0 {
                ParseState::Failed { message: invalid_message(spec, "\" (empty part)"@) }
            } else if l == "option"@ || l == "alt"@ {
                ParseState::Going { modifiers: Modifiers { alt: true, ..modifiers }, key }
            } else if l == "command"@ || l == "cmd"@ || l == "meta"@ {
                ParseState::Going { modifiers: Modifiers { meta: true, ..modifiers }, key }
            } else if l == "control"@ || l == "ctrl"@ {
                ParseState::Going { modifiers: Modifiers { control: true, ..modifiers }, key }
            } else if l == "shift"@ {
                ParseState::Going { modifiers: Modifiers { shift: true, ..modifiers }, key }
            } else if key is Some {
                ParseState::Failed { message: invalid_message(spec, "\" (more than one key)"@) }
            } else {
                match key_of(t) {
                    Some(k) => ParseState::Going { modifiers, key: Some(k) },
                    None => ParseState::Failed { message: unsupported_key_message(t) },
                }
            }
        },
    }
}

pub open spec fn parse_parts(spec: Seq<char>, st: ParseState, parts: Seq<Seq<char>>) -> ParseState
    decreases parts.len(),
{
    if parts.len() == 0 {
        st
    } else {
        parse_parts(spec, parse_step(spec, st, parts[0]), parts.drop_first())
    }
}

/// What `parse_hotkey` gives for the shortcut text `spec`.
pub open spec fn parse_hotkey_spec(spec: Seq<char>) -> Result<Hotkey, Seq<char>> {
    match parse_parts(
        spec,
        ParseState::Going { modifiers: no_modifiers(), key: None },
        split_from(spec, '+', 0),
    ) {
        ParseState::Failed { message } => Err(message),
        ParseState::Going { modifiers, key } => match key {
            Some(k) => Ok(Hotkey { modifiers, key: k }),
            None => Err(invalid_message(spec, "\" (no key)"@)),
        },
    }
}

/// F1..F24 in order; anything past 23 is F24.
pub fn f_key(num: u8) -> (k: KeyCode)
    ensures
        k == KeyCode::Function(
            if 1 <= num && num <= 23 {
                num
            } else {
                24
            },
        ),
{
    if 1 <= num && num <= 23 {
        KeyCode::Function(num)
    } else {
        KeyCode::Function(24)
    }
}

/// A single letter a–z.
pub fn letter_key(c: char) -> (k: Option<KeyCode>)
    ensures
        k == letter_key_spec(c),
{
    if 'a' <= c && c <= 'z' {
        Some(KeyCode::Letter(c))
    } else {
        None
    }
}

/// A single digit 0–9.
pub fn digit_key(c: char) -> (k: Option<KeyCode>)
    ensures
        k == digit_key_spec(c),
{
    if '0' <= c && c <= '9' {
        Some(KeyCode::Digit(c))
    } else {
        None
    }
}

fn named_key_exec(t: &str) -> (k: Option<KeyCode>)
    ensures
        k == named_key(lower(t@)),
{
    if lower_eq(t, "space") {
        Some(KeyCode::Space)
    } else if lower_eq(t, "enter") || lower_eq(t, "return") {
        Some(KeyCode::Enter)
    } else if lower_eq(t, "tab") {
        Some(KeyCode::Tab)
    } else if lower_eq(t, "backspace") {
        Some(KeyCode::Backspace)
    } else if lower_eq(t, "escape") || lower_eq(t, "esc") {
        Some(KeyCode::Escape)
    } else if lower_eq(t, "up") || lower_eq(t, "arrowup") {
        Some(KeyCode::ArrowUp)
    } else if lower_eq(t, "down") || lower_eq(t, "arrowdown") {
        Some(KeyCode::ArrowDown)
    } else if lower_eq(t, "left") || lower_eq(t, "arrowleft") {
        Some(KeyCode::ArrowLeft)
    } else if lower_eq(t, "right") || lower_eq(t, "arrowright") {
        Some(KeyCode::ArrowRight)
    } else if lower_eq(t, "home") {
        Some(KeyCode::Home)
    } else if lower_eq(t, "end") {
        Some(KeyCode::End)
    } else if lower_eq(t, "pageup") {
        Some(KeyCode::PageUp)
    } else if lower_eq(t, "pagedown") {
        Some(KeyCode::PageDown)
    } else if lower_eq(t, "delete") {
        Some(KeyCode::Delete)
    } else if lower_eq(t, "capslock") {
        Some(KeyCode::CapsLock)
    } else if lower_eq(t, "-") || lower_eq(t, "minus") {
        Some(KeyCode::Minus)
    } else if lower_eq(t, "=") || lower_eq(t, "equal") {
        Some(KeyCode::Equal)
    } else if lower_eq(t, ",") || lower_eq(t, "comma") {
        Some(KeyCode::Comma)
    } else if lower_eq(t, ".") || lower_eq(t, "period") {
        Some(KeyCode::Period)
    } else if lower_eq(t, "/") || lower_eq(t, "slash") {
        Some(KeyCode::Slash)
    } else if lower_eq(t, ";") || lower_eq(t, "semicolon") {
        Some(KeyCode::Semicolon)
    } else if lower_eq(t, "'") || lower_eq(t, "quote") {
        Some(KeyCode::Quote)
    } else if lower_eq(t, "`") || lower_eq(t, "backquote") {
        Some(KeyCode::Backquote)
    } else if lower_eq(t, "[") || lower_eq(t, "bracketleft") {
        Some(KeyCode::BracketLeft)
    } else if lower_eq(t, "]") || lower_eq(t, "bracketright") {
        Some(KeyCode::BracketRight)
    } else if lower_eq(t, "\\") || lower_eq(t, "backslash") {
        Some(KeyCode::Backslash)
    } else {
        None
    }
}

/// `u8::from_str` of the lower-cased characters of `t` from index `from` on.
fn parse_u8_lowered(t: &str, from: usize) -> (r: Option<u8>)
    requires
        from <= t@.len(),
    ensures
        r == parse_u8(lower(t@).subrange(from as int, t@.len() as int)),
{
    let n = t.unicode_len();
    let ghost s = lower(t@).subrange(from as int, n as int);
    let mut k: usize = from;
    if k < n && lower_char_exec(t.get_char(k)) == '+' {
        k = k + 1;
    }
    let ghost body = lower(t@).subrange(k as int, n as int);
    proof {
        assert(lower(t@).len() == n);
        if s.len() > 0 {
            assert(s[0] == lower_char(t@[from as int]));
        }
        if s.len() > 0 && s[0] == '+' {
            assert(s.drop_first() =~= body);
        } else {
            assert(s =~= body);
        }
    }
    assert(body == unsigned_body(s));
    if k == n {
        return None;
    }
    let start = k;
    let mut v: u32 = 0;
    while k < n
        invariant
            from <= start <= k <= n,
            n == t@.len(),
            s == lower(t@).subrange(from as int, n as int),
            body == unsigned_body(s),
            body.len() > 0,
            body == lower(t@).subrange(start as int, n as int),
            forall|i: int| start <= i < k ==> is_digit(lower(t@)[i]),
            v as nat == (if digits_value(body.subrange(0, (k - start) as int)) < 256 {
                digits_value(body.subrange(0, (k - start) as int))
            } else {
                256
            }),
        decreases n - k,
    {
        let c = lower_char_exec(t.get_char(k));
        if !('0' <= c && c <= '9') {
            assert(!is_digit(body[(k - start) as int]));
            assert(!all_digits(body));
            return None;
        }
        let d = (c as u32) - ('0' as u32);
        proof {
            let p = body.subrange(0, (k + 1 - start) as int);
            assert(p.drop_last() =~= body.subrange(0, (k - start) as int));
            assert(p.last() == c);
        }
        v = if v * 10 + d < 256 {
            v * 10 + d
        } else {
            256
        };
        k = k + 1;
    }
    assert(body.subrange(0, (n - start) as int) =~= body);
    if v > 255 {
        None
    } else {
        Some(v as u8)
    }
}

/// The key named by one token: named keys, F1–F24, one letter a–z or digit 0–9,
/// all case-insensitive.
pub fn parse_key(token: &str) -> (r: Result<KeyCode, String>)
    ensures
        r matches Ok(k) ==> key_of(token@) == Some(k),
        r is Err ==> key_of(token@) is None,
        r matches Err(m) ==> m@ == unsupported_key_message(token@),
{
    let named = named_key_exec(token);
    if let Some(k) = named {
        return Ok(k);
    }
    let n = token.unicode_len();
    let ghost l = lower(token@);
    if n >= 1 && lower_char_exec(token.get_char(0)) == 'f' {
        let num = parse_u8_lowered(token, 1);
        assert(l.drop_first() =~= l.subrange(1, n as int));
        if let Some(x) = num {
            if 1 <= x && x <= 24 {
                return Ok(f_key(x));
            }
        }
    }
    assert(function_key(l) is None);
    if n == 1 {
        let c = lower_char_exec(token.get_char(0));
        if let Some(k) = letter_key(c) {
            return Ok(k);
        }
        if let Some(k) = digit_key(c) {
            return Ok(k);
        }
    }
    let mut msg = String::from_str("unsupported hotkey key: \"");
    msg.append(token);
    msg.append("\"");
    Err(msg)
}

proof fn lemma_failed_stays(spec: Seq<char>, message: Seq<char>, parts: Seq<Seq<char>>)
    ensures
        parse_parts(spec, ParseState::Failed { message }, parts) == (ParseState::Failed { message }),
    decreases parts.len(),
{
    if parts.len() > 0 {
        lemma_failed_stays(spec, message, parts.drop_first());
    }
}

proof fn lemma_sep_index_at(s: Seq<char>, sep: char, start: int, i: int)
    requires
        0 <= start <= i <= s.len(),
        forall|k: int| start <= k < i ==> s[k] != sep,
        i == s.len() || s[i] == sep,
    ensures
        sep_index(s, sep, start) == i,
    decreases i - start,
{
    if start < i {
        lemma_sep_index_at(s, sep, start + 1, i);
    }
}

fn invalid(spec: &str, reason: &str) -> (m: String)
    ensures
        m@ == invalid_message(spec@, reason@),
{
    let mut m = String::from_str("invalid hotkey \"");
    m.append(spec);
    m.append(reason);
    m
}

/// Parses the stored shortcut text: '+'-separated parts, each trimmed; modifier
/// names (option/alt, command/cmd/meta, control/ctrl, shift) in any case and
/// order, and exactly one key.
pub fn parse_hotkey(spec: &str) -> (r: Result<Hotkey, String>)
    ensures
        r matches Ok(h) ==> parse_hotkey_spec(spec@) == Ok::<Hotkey, Seq<char>>(h),
        r matches Err(m) ==> parse_hotkey_spec(spec@) == Err::<Hotkey, Seq<char>>(m@),
{
    let n = spec.unicode_len();
    let ghost s = spec@;
    let ghost goal = parse_parts(
        s,
        ParseState::Going { modifiers: no_modifiers(), key: None },
        split_from(s, '+', 0),
    );
    let mut modifiers = Modifiers { alt: false, meta: false, control: false, shift: false };
    let mut key: Option<KeyCode> = None;
    let mut start: usize = 0;
    let mut i: usize = 0;
    loop
        invariant_except_break
            goal == parse_parts(
                s,
                ParseState::Going { modifiers, key },
                split_from(s, '+', start as int),
            ),
        invariant
            goal == parse_parts(
                s,
                ParseState::Going { modifiers: no_modifiers(), key: None },
                split_from(s, '+', 0),
            ),
            n == s.len(),
            s == spec@,
            start <= i <= n,
            forall|k: int| start <= k < i ==> s[k] != '+',
        ensures
            goal == parse_parts(
                s,
                ParseState::Going { modifiers: no_modifiers(), key: None },
                split_from(s, '+', 0),
            ),
            goal == (ParseState::Going { modifiers, key }),
        decreases n - i,
    {
        let at_end = i == n;
        if !at_end && spec.get_char(i) != '+' {
            i = i + 1;
            continue;
        }
        proof {
            lemma_sep_index_at(s, '+', start as int, i as int);
        }
        let ghost rest = split_from(s, '+', start as int);
        let part = spec.substring_char(start, i);
        assert(rest[0] == part@);
        let ghost st = ParseState::Going { modifiers, key };
        let ghost next = parse_step(s, st, part@);
        assert(goal == parse_parts(s, next, rest.drop_first()));
        let token = trim_str(part);
        if token.unicode_len() == 0 {
            let m = invalid(spec, "\" (empty part)");
            proof {
                assert(next == (ParseState::Failed { message: m@ }));
                lemma_failed_stays(s, m@, rest.drop_first());
                assert(goal == (ParseState::Failed { message: m@ }));
            }
            return Err(m);
        }
        if lower_eq(token, "option") || lower_eq(token, "alt") {
            modifiers.alt = true;
        } else if lower_eq(token, "command") || lower_eq(token, "cmd") || lower_eq(token, "meta") {
            modifiers.meta = true;
        } else if lower_eq(token, "control") || lower_eq(token, "ctrl") {
            modifiers.control = true;
        } else if lower_eq(token, "shift") {
            modifiers.shift = true;
        } else if key.is_some() {
            let m = invalid(spec, "\" (more than one key)");
            proof {
                assert(next == (ParseState::Failed { message: m@ }));
                lemma_failed_stays(s, m@, rest.drop_first());
            }
            return Err(m);
        } else {
            match parse_key(token) {
                Ok(k) => {
                    key = Some(k);
                },
                Err(m) => {
                    proof {
                        lemma_failed_stays(s, m@, rest.drop_first());
                    }
                    return Err(m);
                },
            }
        }
        assert(next == (ParseState::Going { modifiers, key }));
        if at_end {
            assert(rest.drop_first().len() == 0);
            break;
        }
        assert(rest.drop_first() =~= split_from(s, '+', i as int + 1));
        i = i + 1;
        start = i;
    }
    match key {
        Some(k) => Ok(Hotkey { modifiers, key: k }),
        None => Err(invalid(spec, "\" (no key)")),
    }
}

/// Two texts that agree after ASCII lower-casing.
pub open spec fn same_ignoring_case(a: Seq<char>, b: Seq<char>) -> bool {
    lower(a) == lower(b)
}

proof fn lemma_lower_pointwise(a: Seq<char>, b: Seq<char>)
    requires
        same_ignoring_case(a, b),
    ensures
        a.len() == b.len(),
        forall|i: int| 0 <= i < a.len() ==> lower_char(#[trigger] a[i]) == lower_char(b[i]),
{
    assert(lower(a).len() == a.len());
    assert(lower(b).len() == b.len());
    assert forall|i: int| 0 <= i < a.len() implies lower_char(#[trigger] a[i]) == lower_char(b[i]) by {
        assert(lower(a)[i] == lower(b)[i]);
    }
}

proof fn lemma_pointwise_lower(a: Seq<char>, b: Seq<char>)
    requires
        a.len() == b.len(),
        forall|i: int| 0 <= i < a.len() ==> lower_char(#[trigger] a[i]) == lower_char(b[i]),
    ensures
        same_ignoring_case(a, b),
{
    assert(lower(a) =~= lower(b));
}

proof fn lemma_sub_same_case(a: Seq<char>, b: Seq<char>, i: int, j: int)
    requires
        same_ignoring_case(a, b),
        0 <= i <= j <= a.len(),
    ensures
        same_ignoring_case(a.subrange(i, j), b.subrange(i, j)),
{
    lemma_lower_pointwise(a, b);
    let x = a.subrange(i, j);
    let y = b.subrange(i, j);
    assert forall|k: int| 0 <= k < x.len() implies lower_char(#[trigger] x[k]) == lower_char(y[k]) by {
        assert(x[k] == a[i + k]);
        assert(y[k] == b[i + k]);
    }
    lemma_pointwise_lower(x, y);
}

proof fn lemma_sep_index_same_case(a: Seq<char>, b: Seq<char>, i: int)
    requires
        same_ignoring_case(a, b),
        0 <= i <= a.len(),
    ensures
        sep_index(a, '+', i) == sep_index(b, '+', i),
    decreases a.len() - i,
{
    lemma_lower_pointwise(a, b);
    if i < a.len() {
        assert(lower_char(a[i]) == lower_char(b[i]));
        assert((a[i] == '+') == (b[i] == '+'));
        lemma_sep_index_same_case(a, b, i + 1);
    }
}

proof fn lemma_sep_index_ge(s: Seq<char>, sep: char, i: int)
    requires
        0 <= i <= s.len(),
    ensures
        i <= sep_index(s, sep, i) <= s.len(),
    decreases s.len() - i,
{
    if i < s.len() && s[i] != sep {
        lemma_sep_index_ge(s, sep, i + 1);
    }
}

/// The parts of two case-equal texts agree part by part up to case.
proof fn lemma_split_same_case(a: Seq<char>, b: Seq<char>, start: int)
    requires
        same_ignoring_case(a, b),
        0 <= start <= a.len(),
    ensures
        split_from(a, '+', start).len() == split_from(b, '+', start).len(),
        forall|k: int|
            0 <= k < split_from(a, '+', start).len() ==> same_ignoring_case(
                #[trigger] split_from(a, '+', start)[k],
                split_from(b, '+', start)[k],
            ),
    decreases a.len() - start,
{
    lemma_lower_pointwise(a, b);
    lemma_sep_index_same_case(a, b, start);
    lemma_sep_index_ge(a, '+', start);
    let i = sep_index(a, '+', start);
    let pa = split_from(a, '+', start);
    let pb = split_from(b, '+', start);
    if i >= a.len() {
        lemma_sub_same_case(a, b, start, a.len() as int);
    } else {
        lemma_sub_same_case(a, b, start, i);
        lemma_split_same_case(a, b, i + 1);
        let ra = split_from(a, '+', i + 1);
        let rb = split_from(b, '+', i + 1);
        assert forall|k: int| 0 <= k < pa.len() implies same_ignoring_case(#[trigger] pa[k], pb[k]) by {
            if k > 0 {
                assert(pa[k] == ra[k - 1]);
                assert(pb[k] == rb[k - 1]);
            }
        }
    }
}

proof fn lemma_space_same_case(c: char, d: char)
    requires
        lower_char(c) == lower_char(d),
    ensures
        crate::text::is_space(c) == crate::text::is_space(d),
{
}

proof fn lemma_trim_front_same_case(a: Seq<char>, b: Seq<char>)
    requires
        same_ignoring_case(a, b),
    ensures
        same_ignoring_case(crate::text::trim_front(a), crate::text::trim_front(b)),
    decreases a.len(),
{
    lemma_lower_pointwise(a, b);
    if a.len() > 0 {
        lemma_space_same_case(a[0], b[0]);
        if crate::text::is_space(a[0]) {
            lemma_sub_same_case(a, b, 1, a.len() as int);
            assert(a.drop_first() =~= a.subrange(1, a.len() as int));
            assert(b.drop_first() =~= b.subrange(1, b.len() as int));
            lemma_trim_front_same_case(a.drop_first(), b.drop_first());
        }
    }
}

proof fn lemma_trim_back_same_case(a: Seq<char>, b: Seq<char>)
    requires
        same_ignoring_case(a, b),
    ensures
        same_ignoring_case(crate::text::trim_back(a), crate::text::trim_back(b)),
    decreases a.len(),
{
    lemma_lower_pointwise(a, b);
    if a.len() > 0 {
        lemma_space_same_case(a.last(), b.last());
        if crate::text::is_space(a.last()) {
            lemma_sub_same_case(a, b, 0, a.len() - 1);
            assert(a.drop_last() =~= a.subrange(0, a.len() - 1));
            assert(b.drop_last() =~= b.subrange(0, b.len() - 1));
            lemma_trim_back_same_case(a.drop_last(), b.drop_last());
        }
    }
}

/// Two parse states that agree on success and, on success, on everything.
pub open spec fn same_outcome(x: ParseState, y: ParseState) -> bool {
    match x {
        ParseState::Going { .. } => x == y,
        ParseState::Failed { .. } => y is Failed,
    }
}

proof fn lemma_step_same_case(sa: Seq<char>, sb: Seq<char>, x: ParseState, y: ParseState, pa: Seq<char>, pb: Seq<char>)
    requires
        same_outcome(x, y),
        same_ignoring_case(pa, pb),
    ensures
        same_outcome(parse_step(sa, x, pa), parse_step(sb, y, pb)),
{
    lemma_trim_front_same_case(pa, pb);
    lemma_trim_back_same_case(crate::text::trim_front(pa), crate::text::trim_front(pb));
    let ta = trim(pa);
    let tb = trim(pb);
    assert(lower(ta).len() == ta.len());
    assert(lower(tb).len() == tb.len());
}

proof fn lemma_parts_same_case(
    sa: Seq<char>,
    sb: Seq<char>,
    x: ParseState,
    y: ParseState,
    pa: Seq<Seq<char>>,
    pb: Seq<Seq<char>>,
)
    requires
        same_outcome(x, y),
        pa.len() == pb.len(),
        forall|k: int| 0 <= k < pa.len() ==> same_ignoring_case(#[trigger] pa[k], pb[k]),
    ensures
        same_outcome(parse_parts(sa, x, pa), parse_parts(sb, y, pb)),
    decreases pa.len(),
{
    if pa.len() > 0 {
        lemma_step_same_case(sa, sb, x, y, pa[0], pb[0]);
        assert forall|k: int| 0 <= k < pa.drop_first().len() implies same_ignoring_case(
            #[trigger] pa.drop_first()[k],
            pb.drop_first()[k],
        ) by {
            assert(pa.drop_first()[k] == pa[k + 1]);
            assert(pb.drop_first()[k] == pb[k + 1]);
        }
        lemma_parts_same_case(
            sa,
            sb,
            parse_step(sa, x, pa[0]),
            parse_step(sb, y, pb[0]),
            pa.drop_first(),
            pb.drop_first(),
        );
    }
}

/// Shortcut names are case-insensitive: two texts that differ only in ASCII case
/// are both accepted, as the same shortcut, or both refused.
pub proof fn law_hotkey_ignores_case(a: Seq<char>, b: Seq<char>)
    requires
        same_ignoring_case(a, b),
    ensures
        parse_hotkey_spec(a) is Ok <==> parse_hotkey_spec(b) is Ok,
        parse_hotkey_spec(a) is Ok ==> parse_hotkey_spec(a) == parse_hotkey_spec(b),
{
    lemma_lower_pointwise(a, b);
    lemma_split_same_case(a, b, 0);
    let init = ParseState::Going { modifiers: no_modifiers(), key: None };
    lemma_parts_same_case(a, b, init, init, split_from(a, '+', 0), split_from(b, '+', 0));
}

/// A modifier name, already lower-cased.
pub open spec fn is_modifier_name(l: Seq<char>) -> bool {
    l == "option"@ || l == "alt"@ || l == "command"@ || l == "cmd"@ || l == "meta"@ || l
        == "control"@ || l == "ctrl"@ || l == "shift"@
}

/// A part that names a modifier, in any case and with any surrounding whitespace.
pub open spec fn is_modifier_part(part: Seq<char>) -> bool {
    is_modifier_name(lower(trim(part)))
}

/// No part is empty after trimming.
pub open spec fn all_parts_nonempty(parts: Seq<Seq<char>>) -> bool {
    forall|i: int| 0 <= i < parts.len() ==> trim(#[trigger] parts[i]).len() > 0
}

/// The parts that are not modifiers, in order.
pub open spec fn key_parts(parts: Seq<Seq<char>>) -> Seq<Seq<char>>
    decreases parts.len(),
{
    if parts.len() == 0 {
        Seq::empty()
    } else if is_modifier_part(parts[0]) {
        key_parts(parts.drop_first())
    } else {
        seq![parts[0]] + key_parts(parts.drop_first())
    }
}

/// The pass over the parts from a going state: it stays going exactly when no part is
/// empty and the key parts, with the key already found, make at most one valid key.
proof fn lemma_parse_parts_closed(
    spec: Seq<char>,
    m: Modifiers,
    key: Option<KeyCode>,
    parts: Seq<Seq<char>>,
)
    ensures
        ({
            let r = parse_parts(spec, ParseState::Going { modifiers: m, key }, parts);
            let kp = key_parts(parts);
            &&& r is Going <==> all_parts_nonempty(parts) && (if key is Some {
                kp.len() == 0
            } else {
                kp.len() == 0 || (kp.len() == 1 && key_of(trim(kp[0])) is Some)
            })
            &&& r matches ParseState::Going { key: k2, .. } ==> k2 == (if kp.len() == 0 {
                key
            } else {
                key_of(trim(kp[0]))
            })
        }),
    decreases parts.len(),
{
    if parts.len() > 0 {
        let p0 = parts[0];
        let rest = parts.drop_first();
        let t = trim(p0);
        let st = ParseState::Going { modifiers: m, key };
        let next = parse_step(spec, st, p0);
        assert(all_parts_nonempty(parts) <==> t.len() > 0 && all_parts_nonempty(rest)) by {
            if t.len() > 0 && all_parts_nonempty(rest) {
                assert forall|i: int| 0 <= i < parts.len() implies trim(#[trigger] parts[i]).len()
                    > 0 by {
                    if i > 0 {
                        assert(parts[i] == rest[i - 1]);
                    }
                }
            }
            if all_parts_nonempty(parts) {
                assert(trim(parts[0]).len() > 0);
                assert forall|i: int| 0 <= i < rest.len() implies trim(#[trigger] rest[i]).len()
                    > 0 by {
                    assert(rest[i] == parts[i + 1]);
                }
            }
        }
        match next {
            ParseState::Failed { message } => {
                lemma_parse_parts_failed(spec, message, rest);
            },
            ParseState::Going { modifiers: m2, key: k2 } => {
                lemma_parse_parts_closed(spec, m2, k2, rest);
            },
        }
    }
}

proof fn lemma_parse_parts_failed(spec: Seq<char>, message: Seq<char>, parts: Seq<Seq<char>>)
    ensures
        parse_parts(spec, ParseState::Failed { message }, parts) == (ParseState::Failed {
            message,
        }),
    decreases parts.len(),
{
    if parts.len() > 0 {
        lemma_parse_parts_failed(spec, message, parts.drop_first());
    }
}

/// A shortcut text is valid exactly when every '+'-separated part is non-empty after
/// trimming, exactly one part is not a modifier name, and that part names a key; the
/// shortcut's key is then that key.
pub proof fn law_hotkey_valid_exactly_when(spec: Seq<char>)
    ensures
        ({
            let parts = split_from(spec, '+', 0);
            let kp = key_parts(parts);
            &&& parse_hotkey_spec(spec) is Ok <==> all_parts_nonempty(parts) && kp.len() == 1
                && key_of(trim(kp[0])) is Some
            &&& parse_hotkey_spec(spec) matches Ok(h) ==> Some(h.key) == key_of(trim(kp[0]))
        }),
{
    lemma_parse_parts_closed(spec, no_modifiers(), None, split_from(spec, '+', 0));
}

/// Some part, trimmed and lower-cased, is one of `names`.
pub open spec fn some_part_is(parts: Seq<Seq<char>>, names: Seq<Seq<char>>) -> bool {
    exists|i: int| 0 <= i < parts.len() && names.contains(lower(trim(#[trigger] parts[i])))
}

pub open spec fn alt_names() -> Seq<Seq<char>> {
    seq!["option"@, "alt"@]
}

pub open spec fn meta_names() -> Seq<Seq<char>> {
    seq!["command"@, "cmd"@, "meta"@]
}

pub open spec fn control_names() -> Seq<Seq<char>> {
    seq!["control"@, "ctrl"@]
}

pub open spec fn shift_names() -> Seq<Seq<char>> {
    seq!["shift"@]
}

proof fn lemma_some_part_is_split(parts: Seq<Seq<char>>, names: Seq<Seq<char>>)
    requires
        parts.len() > 0,
    ensures
        some_part_is(parts, names) <==> names.contains(lower(trim(parts[0]))) || some_part_is(
            parts.drop_first(),
            names,
        ),
{
    let rest = parts.drop_first();
    if some_part_is(parts, names) {
        let i = choose|i: int| 0 <= i < parts.len() && names.contains(lower(trim(#[trigger] parts[i])));
        if i > 0 {
            assert(rest[i - 1] == parts[i]);
        }
    }
    if some_part_is(rest, names) {
        let i = choose|i: int| 0 <= i < rest.len() && names.contains(lower(trim(#[trigger] rest[i])));
        assert(parts[i + 1] == rest[i]);
    }
    if names.contains(lower(trim(parts[0]))) {
        assert(names.contains(lower(trim(parts[0]))));
    }
}

proof fn lemma_modifier_names()
    ensures
        forall|l: Seq<char>| alt_names().contains(l) <==> (l == "option"@ || l == "alt"@),
        forall|l: Seq<char>|
            meta_names().contains(l) <==> (l == "command"@ || l == "cmd"@ || l == "meta"@),
        forall|l: Seq<char>| control_names().contains(l) <==> (l == "control"@ || l == "ctrl"@),
        forall|l: Seq<char>| shift_names().contains(l) <==> l == "shift"@,
{
    reveal_strlit("option");
    reveal_strlit("alt");
    reveal_strlit("command");
    reveal_strlit("cmd");
    reveal_strlit("meta");
    reveal_strlit("control");
    reveal_strlit("ctrl");
    reveal_strlit("shift");
    assert forall|l: Seq<char>| alt_names().contains(l) <==> (l == "option"@ || l == "alt"@) by {
        if l == "option"@ {
            assert(alt_names()[0] == l);
        }
        if l == "alt"@ {
            assert(alt_names()[1] == l);
        }
    }
    assert forall|l: Seq<char>|
        meta_names().contains(l) <==> (l == "command"@ || l == "cmd"@ || l == "meta"@) by {
        if l == "command"@ {
            assert(meta_names()[0] == l);
        }
        if l == "cmd"@ {
            assert(meta_names()[1] == l);
        }
        if l == "meta"@ {
            assert(meta_names()[2] == l);
        }
    }
    assert forall|l: Seq<char>| control_names().contains(l) <==> (l == "control"@ || l == "ctrl"@) by {
        if l == "control"@ {
            assert(control_names()[0] == l);
        }
        if l == "ctrl"@ {
            assert(control_names()[1] == l);
        }
    }
    assert forall|l: Seq<char>| shift_names().contains(l) <==> l == "shift"@ by {
        if l == "shift"@ {
            assert(shift_names()[0] == l);
        }
    }
}

/// The modifiers after the pass over the parts: each one set before, or named by a part.
proof fn lemma_parse_parts_modifiers(
    spec: Seq<char>,
    m: Modifiers,
    key: Option<KeyCode>,
    parts: Seq<Seq<char>>,
)
    ensures
        parse_parts(spec, ParseState::Going { modifiers: m, key }, parts) matches ParseState::Going {
            modifiers: m2,
            ..
        } ==> {
            &&& m2.alt == (m.alt || some_part_is(parts, alt_names()))
            &&& m2.meta == (m.meta || some_part_is(parts, meta_names()))
            &&& m2.control == (m.control || some_part_is(parts, control_names()))
            &&& m2.shift == (m.shift || some_part_is(parts, shift_names()))
        },
    decreases parts.len(),
{
    if parts.len() > 0 {
        let p0 = parts[0];
        let rest = parts.drop_first();
        reveal_strlit("option");
        reveal_strlit("alt");
        reveal_strlit("command");
        reveal_strlit("cmd");
        reveal_strlit("meta");
        reveal_strlit("control");
        reveal_strlit("ctrl");
        reveal_strlit("shift");
        lemma_modifier_names();
        lemma_some_part_is_split(parts, alt_names());
        lemma_some_part_is_split(parts, meta_names());
        lemma_some_part_is_split(parts, control_names());
        lemma_some_part_is_split(parts, shift_names());
        let next = parse_step(spec, ParseState::Going { modifiers: m, key }, p0);
        match next {
            ParseState::Failed { message } => {
                lemma_parse_parts_failed(spec, message, rest);
            },
            ParseState::Going { modifiers: m1, key: k1 } => {
                lemma_parse_parts_modifiers(spec, m1, k1, rest);
            },
        }
    }
}

/// Each modifier name sets its own modifier: the modifiers of a parsed shortcut are
/// exactly those named by its parts (option/alt → alt, command/cmd/meta → meta,
/// control/ctrl → control, shift → shift), in any case and order.
pub proof fn law_hotkey_modifiers_are_named(spec: Seq<char>)
    ensures
        ({
            let parts = split_from(spec, '+', 0);
            parse_hotkey_spec(spec) matches Ok(h) ==> {
                &&& h.modifiers.alt == some_part_is(parts, alt_names())
                &&& h.modifiers.meta == some_part_is(parts, meta_names())
                &&& h.modifiers.control == some_part_is(parts, control_names())
                &&& h.modifiers.shift == some_part_is(parts, shift_names())
            }
        }),
{
    lemma_parse_parts_modifiers(spec, no_modifiers(), None, split_from(spec, '+', 0));
}

/// The name a key is stored under: its `KeyboardEvent.code` name, lower-cased.
pub open spec fn key_name(k: KeyCode) -> Seq<char> {
    match k {
        KeyCode::Space => "space"@,
        KeyCode::Enter => "enter"@,
        KeyCode::Tab => "tab"@,
        KeyCode::Backspace => "backspace"@,
        KeyCode::Escape => "escape"@,
        KeyCode::ArrowUp => "arrowup"@,
        KeyCode::ArrowDown => "arrowdown"@,
        KeyCode::ArrowLeft => "arrowleft"@,
        KeyCode::ArrowRight => "arrowright"@,
        KeyCode::Home => "home"@,
        KeyCode::End => "end"@,
        KeyCode::PageUp => "pageup"@,
        KeyCode::PageDown => "pagedown"@,
        KeyCode::Delete => "delete"@,
        KeyCode::CapsLock => "capslock"@,
        KeyCode::Minus => "minus"@,
        KeyCode::Equal => "equal"@,
        KeyCode::Comma => "comma"@,
        KeyCode::Period => "period"@,
        KeyCode::Slash => "slash"@,
        KeyCode::Semicolon => "semicolon"@,
        KeyCode::Quote => "quote"@,
        KeyCode::Backquote => "backquote"@,
        KeyCode::BracketLeft => "bracketleft"@,
        KeyCode::BracketRight => "bracketright"@,
        KeyCode::Backslash => "backslash"@,
        KeyCode::Function(n) => "f"@ + crate::text::decimal(n as nat),
        KeyCode::Letter(c) => seq![c],
        KeyCode::Digit(c) => seq![c],
    }
}

/// The second name the settings may store for a key: the short arrow and key names,
/// and the bare punctuation characters.
pub open spec fn other_key_name(k: KeyCode) -> Option<Seq<char>> {
    match k {
        KeyCode::Enter => Some("return"@),
        KeyCode::Escape => Some("esc"@),
        KeyCode::ArrowUp => Some("up"@),
        KeyCode::ArrowDown => Some("down"@),
        KeyCode::ArrowLeft => Some("left"@),
        KeyCode::ArrowRight => Some("right"@),
        KeyCode::Minus => Some("-"@),
        KeyCode::Equal => Some("="@),
        KeyCode::Comma => Some(","@),
        KeyCode::Period => Some("."@),
        KeyCode::Slash => Some("/"@),
        KeyCode::Semicolon => Some(";"@),
        KeyCode::Quote => Some("'"@),
        KeyCode::Backquote => Some("`"@),
        KeyCode::BracketLeft => Some("["@),
        KeyCode::BracketRight => Some("]"@),
        KeyCode::Backslash => Some("\\"@),
        _ => None,
    }
}

/// A named key that `named_key` knows (every key but F-keys, letters and digits).
pub open spec fn is_named(k: KeyCode) -> bool {
    !(k is Function || k is Letter || k is Digit)
}

/// Lengths of the key names, and a differing character for names of equal length:
/// enough to tell every two names apart.
proof fn lemma_key_names_differ()
    ensures
        "space"@.len() == 5,
        "enter"@.len() == 5,
        "return"@.len() == 6,
        "tab"@.len() == 3,
        "backspace"@.len() == 9,
        "escape"@.len() == 6,
        "esc"@.len() == 3,
        "arrowup"@.len() == 7,
        "up"@.len() == 2,
        "arrowdown"@.len() == 9,
        "down"@.len() == 4,
        "arrowleft"@.len() == 9,
        "left"@.len() == 4,
        "arrowright"@.len() == 10,
        "right"@.len() == 5,
        "home"@.len() == 4,
        "end"@.len() == 3,
        "pageup"@.len() == 6,
        "pagedown"@.len() == 8,
        "delete"@.len() == 6,
        "capslock"@.len() == 8,
        "-"@.len() == 1,
        "minus"@.len() == 5,
        "="@.len() == 1,
        "equal"@.len() == 5,
        ","@.len() == 1,
        "comma"@.len() == 5,
        "."@.len() == 1,
        "period"@.len() == 6,
        "/"@.len() == 1,
        "slash"@.len() == 5,
        ";"@.len() == 1,
        "semicolon"@.len() == 9,
        "'"@.len() == 1,
        "quote"@.len() == 5,
        "`"@.len() == 1,
        "backquote"@.len() == 9,
        "["@.len() == 1,
        "bracketleft"@.len() == 11,
        "]"@.len() == 1,
        "bracketright"@.len() == 12,
        "\\"@.len() == 1,
        "backslash"@.len() == 9,
        "enter"@[0] != "space"@[0],
        "escape"@[0] != "return"@[0],
        "esc"@[0] != "tab"@[0],
        "arrowdown"@[0] != "backspace"@[0],
        "arrowleft"@[0] != "backspace"@[0],
        "arrowleft"@[5] != "arrowdown"@[5],
        "left"@[0] != "down"@[0],
        "right"@[0] != "space"@[0],
        "right"@[0] != "enter"@[0],
        "home"@[0] != "down"@[0],
        "home"@[0] != "left"@[0],
        "end"@[0] != "tab"@[0],
        "end"@[1] != "esc"@[1],
        "pageup"@[0] != "return"@[0],
        "pageup"@[0] != "escape"@[0],
        "delete"@[0] != "return"@[0],
        "delete"@[0] != "escape"@[0],
        "delete"@[0] != "pageup"@[0],
        "capslock"@[0] != "pagedown"@[0],
        "minus"@[0] != "space"@[0],
        "minus"@[0] != "enter"@[0],
        "minus"@[0] != "right"@[0],
        "="@[0] != "-"@[0],
        "equal"@[0] != "space"@[0],
        "equal"@[1] != "enter"@[1],
        "equal"@[0] != "right"@[0],
        "equal"@[0] != "minus"@[0],
        ","@[0] != "-"@[0],
        ","@[0] != "="@[0],
        "comma"@[0] != "space"@[0],
        "comma"@[0] != "enter"@[0],
        "comma"@[0] != "right"@[0],
        "comma"@[0] != "minus"@[0],
        "comma"@[0] != "equal"@[0],
        "."@[0] != "-"@[0],
        "."@[0] != "="@[0],
        "."@[0] != ","@[0],
        "period"@[0] != "return"@[0],
        "period"@[0] != "escape"@[0],
        "period"@[1] != "pageup"@[1],
        "period"@[0] != "delete"@[0],
        "/"@[0] != "-"@[0],
        "/"@[0] != "="@[0],
        "/"@[0] != ","@[0],
        "/"@[0] != "."@[0],
        "slash"@[1] != "space"@[1],
        "slash"@[0] != "enter"@[0],
        "slash"@[0] != "right"@[0],
        "slash"@[0] != "minus"@[0],
        "slash"@[0] != "equal"@[0],
        "slash"@[0] != "comma"@[0],
        ";"@[0] != "-"@[0],
        ";"@[0] != "="@[0],
        ";"@[0] != ","@[0],
        ";"@[0] != "."@[0],
        ";"@[0] != "/"@[0],
        "semicolon"@[0] != "backspace"@[0],
        "semicolon"@[0] != "arrowdown"@[0],
        "semicolon"@[0] != "arrowleft"@[0],
        "'"@[0] != "-"@[0],
        "'"@[0] != "="@[0],
        "'"@[0] != ","@[0],
        "'"@[0] != "."@[0],
        "'"@[0] != "/"@[0],
        "'"@[0] != ";"@[0],
        "quote"@[0] != "space"@[0],
        "quote"@[0] != "enter"@[0],
        "quote"@[0] != "right"@[0],
        "quote"@[0] != "minus"@[0],
        "quote"@[0] != "equal"@[0],
        "quote"@[0] != "comma"@[0],
        "quote"@[0] != "slash"@[0],
        "`"@[0] != "-"@[0],
        "`"@[0] != "="@[0],
        "`"@[0] != ","@[0],
        "`"@[0] != "."@[0],
        "`"@[0] != "/"@[0],
        "`"@[0] != ";"@[0],
        "`"@[0] != "'"@[0],
        "backquote"@[4] != "backspace"@[4],
        "backquote"@[0] != "arrowdown"@[0],
        "backquote"@[0] != "arrowleft"@[0],
        "backquote"@[0] != "semicolon"@[0],
        "["@[0] != "-"@[0],
        "["@[0] != "="@[0],
        "["@[0] != ","@[0],
        "["@[0] != "."@[0],
        "["@[0] != "/"@[0],
        "["@[0] != ";"@[0],
        "["@[0] != "'"@[0],
        "["@[0] != "`"@[0],
        "]"@[0] != "-"@[0],
        "]"@[0] != "="@[0],
        "]"@[0] != ","@[0],
        "]"@[0] != "."@[0],
        "]"@[0] != "/"@[0],
        "]"@[0] != ";"@[0],
        "]"@[0] != "'"@[0],
        "]"@[0] != "`"@[0],
        "]"@[0] != "["@[0],
        "\\"@[0] != "-"@[0],
        "\\"@[0] != "="@[0],
        "\\"@[0] != ","@[0],
        "\\"@[0] != "."@[0],
        "\\"@[0] != "/"@[0],
        "\\"@[0] != ";"@[0],
        "\\"@[0] != "'"@[0],
        "\\"@[0] != "`"@[0],
        "\\"@[0] != "["@[0],
        "\\"@[0] != "]"@[0],
        "backslash"@[5] != "backspace"@[5],
        "backslash"@[0] != "arrowdown"@[0],
        "backslash"@[0] != "arrowleft"@[0],
        "backslash"@[0] != "semicolon"@[0],
        "backslash"@[4] != "backquote"@[4],
{
    reveal_strlit("space");
    reveal_strlit("enter");
    reveal_strlit("return");
    reveal_strlit("tab");
    reveal_strlit("backspace");
    reveal_strlit("escape");
    reveal_strlit("esc");
    reveal_strlit("arrowup");
    reveal_strlit("up");
    reveal_strlit("arrowdown");
    reveal_strlit("down");
    reveal_strlit("arrowleft");
    reveal_strlit("left");
    reveal_strlit("arrowright");
    reveal_strlit("right");
    reveal_strlit("home");
    reveal_strlit("end");
    reveal_strlit("pageup");
    reveal_strlit("pagedown");
    reveal_strlit("delete");
    reveal_strlit("capslock");
    reveal_strlit("-");
    reveal_strlit("minus");
    reveal_strlit("=");
    reveal_strlit("equal");
    reveal_strlit(",");
    reveal_strlit("comma");
    reveal_strlit(".");
    reveal_strlit("period");
    reveal_strlit("/");
    reveal_strlit("slash");
    reveal_strlit(";");
    reveal_strlit("semicolon");
    reveal_strlit("'");
    reveal_strlit("quote");
    reveal_strlit("`");
    reveal_strlit("backquote");
    reveal_strlit("[");
    reveal_strlit("bracketleft");
    reveal_strlit("]");
    reveal_strlit("bracketright");
    reveal_strlit("\\");
    reveal_strlit("backslash");
}

/// Every named key is found under its own name and under its other name.
pub proof fn law_named_keys_found_by_name(k: KeyCode)
    requires
        is_named(k),
    ensures
        named_key(key_name(k)) == Some(k),
        other_key_name(k) matches Some(n) ==> named_key(n) == Some(k),
{
    lemma_key_names_differ();
    match k {
        KeyCode::Space => {},
        KeyCode::Enter => {},
        KeyCode::Tab => {},
        KeyCode::Backspace => {},
        KeyCode::Escape => {},
        KeyCode::ArrowUp => {},
        KeyCode::ArrowDown => {},
        KeyCode::ArrowLeft => {},
        KeyCode::ArrowRight => {},
        KeyCode::Home => {},
        KeyCode::End => {},
        KeyCode::PageUp => {},
        KeyCode::PageDown => {},
        KeyCode::Delete => {},
        KeyCode::CapsLock => {},
        KeyCode::Minus => {},
        KeyCode::Equal => {},
        KeyCode::Comma => {},
        KeyCode::Period => {},
        KeyCode::Slash => {},
        KeyCode::Semicolon => {},
        KeyCode::Quote => {},
        KeyCode::Backquote => {},
        KeyCode::BracketLeft => {},
        KeyCode::BracketRight => {},
        KeyCode::Backslash => {},
        _ => {},
    }
}

/// Each name stands for its own key: a name that `named_key` accepts is the key's own
/// name or its listed other name, so two names share a key only as listed aliases.
pub proof fn law_named_key_names_its_key(l: Seq<char>)
    ensures
        named_key(l) matches Some(k) ==> is_named(k) && (l == key_name(k)
            || other_key_name(k) == Some(l)),
{
}

/// The decimal rendering of a number is all digits and reads back as the number.
proof fn lemma_decimal_digits(n: nat)
    ensures
        crate::text::decimal(n).len() > 0,
        all_digits(crate::text::decimal(n)),
        digits_value(crate::text::decimal(n)) == n,
    decreases n,
{
    let d = crate::text::decimal(n);
    let r = n % 10;
    assert((crate::text::digit_char(r) as u32) - ('0' as u32) == r) by {
        if r == 0 {
        } else if r == 1 {
        } else if r == 2 {
        } else if r == 3 {
        } else if r == 4 {
        } else if r == 5 {
        } else if r == 6 {
        } else if r == 7 {
        } else if r == 8 {
        } else {
        }
    }
    if n < 10 {
        assert(d.drop_last() =~= Seq::<char>::empty());
        assert(d.last() == crate::text::digit_char(r));
        assert(digits_value(d) == digits_value(d.drop_last()) * 10 + ((d.last() as u32) - ('0' as u32)) as nat);
        assert(digits_value(Seq::<char>::empty()) == 0);
    } else {
        lemma_decimal_digits(n / 10);
        let p = crate::text::decimal(n / 10);
        assert(d.drop_last() =~= p);
        assert(d.last() == crate::text::digit_char(r));
        assert(digits_value(d) == digits_value(p) * 10 + ((d.last() as u32) - ('0' as u32)) as nat);
        assert((n / 10) * 10 + n % 10 == n);
        assert forall|i: int| 0 <= i < d.len() implies is_digit(#[trigger] d[i]) by {
            if i < p.len() {
                assert(d[i] == p[i]);
            }
        }
    }
}

/// A key that a shortcut can hold: a named key, F1 to F24, a lower-case letter or a digit.
pub open spec fn is_valid_key(k: KeyCode) -> bool {
    match k {
        KeyCode::Function(n) => 1 <= n <= 24,
        KeyCode::Letter(c) => 'a' <= c <= 'z',
        KeyCode::Digit(c) => '0' <= c <= '9',
        _ => true,
    }
}

/// Every F-key, letter and digit is found under its own name: "f1" to "f24", the
/// letter, the digit.
pub proof fn law_plain_keys_found_by_name(k: KeyCode)
    requires
        is_valid_key(k),
        !is_named(k),
    ensures
        key_of(key_name(k)) == Some(k),
{
    lemma_key_names_differ();
    reveal_strlit("f");
    reveal_strlit("up");
    reveal_strlit("tab");
    reveal_strlit("esc");
    reveal_strlit("end");
    reveal_strlit("-");
    reveal_strlit("=");
    reveal_strlit(",");
    reveal_strlit(".");
    reveal_strlit("/");
    reveal_strlit(";");
    reveal_strlit("'");
    reveal_strlit("`");
    reveal_strlit("[");
    reveal_strlit("]");
    reveal_strlit("\\");
    let t = key_name(k);
    match k {
        KeyCode::Function(n) => {
            let d = crate::text::decimal(n as nat);
            lemma_decimal_digits(n as nat);
            crate::text::lemma_decimal_len(n as nat);
            assert(t =~= seq!['f'] + d);
            assert(lower(t) =~= t) by {
                assert forall|i: int| 0 <= i < t.len() implies lower_char(t[i]) == t[i] by {
                    if i > 0 {
                        assert(t[i] == d[i - 1]);
                        assert(is_digit(d[i - 1]));
                    }
                }
            }
            assert(t.drop_first() =~= d);
            assert(unsigned_body(d) == d);
            assert(t.len() == 2 || t.len() == 3);
            assert(named_key(t) is None);
        },
        KeyCode::Letter(c) => {
            assert(lower(t) =~= t);
            assert(named_key(t) is None);
            if c == 'f' {
                assert(t.drop_first() =~= Seq::<char>::empty());
            }
        },
        KeyCode::Digit(c) => {
            assert(lower(t) =~= t);
            assert(named_key(t) is None);
        },
        _ => {},
    }
}

/// Each accepted key name stands for its own key: a named key under its name or its
/// listed other name, an F-key under "f" and its number, a letter or digit under itself.
pub proof fn law_key_of_names_its_key(t: Seq<char>)
    ensures
        key_of(t) matches Some(k) ==> is_valid_key(k) && match k {
            KeyCode::Function(n) => lower(t).len() >= 2 && lower(t)[0] == 'f' && digits_value(
                unsigned_body(lower(t).drop_first()),
            ) == n,
            KeyCode::Letter(c) => lower(t) == seq![c],
            KeyCode::Digit(c) => lower(t) == seq![c],
            _ => lower(t) == key_name(k) || other_key_name(k) == Some(lower(t)),
        },
{
    let l = lower(t);
    law_named_key_names_its_key(l);
    if named_key(l) is None && function_key(l) is None && l.len() == 1 {
        assert(l =~= seq![l[0]]);
    }
}

} // verus!
