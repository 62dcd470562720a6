//! Recognising a task's domain: prompt keywords, client names, and
//! workspace marker files.
use crate::router_selection::PluginRouterSelectionDomain;
use crate::skills::UserInput;
use crate::text::{
    ascii_digit, ascii_alphanumeric, ascii_lower, chars_equal, chars_of, contains_chars, contains_text,
    is_ascii_alphanumeric, is_ascii_digit, lower_chars, matches_at, occurs_at, slice_chars,
};
use vstd::prelude::*;

verus! {

pub const DESKTOP_CLIENT_SIGNAL: &'static str = "desktop";

// ---------------------------------------------------------------------------
// Prompt keywords

/// Characters that may stand next to a keyword: anything but an ASCII
/// letter or digit.
pub open spec fn is_signal_boundary(c: char) -> bool {
    !is_ascii_alphanumeric(c)
}

/// A missing neighbour (start or end of the text) is a boundary too.
pub open spec fn boundary_or_none(c: Option<char>) -> bool {
    match c {
        Some(ch) => is_signal_boundary(ch),
        None => true,
    }
}

/// The platform keywords `ios` and `macos` may be followed by a version
/// number (`ios26`).
pub open spec fn allows_version_suffix(signal: Seq<char>, after: Option<char>) -> bool {
    (signal == "ios"@ || signal == "macos"@) && match after {
        Some(ch) => is_ascii_digit(ch),
        None => false,
    }
}

/// The character before position `p`, if any.
pub open spec fn char_before(text: Seq<char>, p: int) -> Option<char> {
    if 0 < p <= text.len() {
        Some(text[p - 1])
    } else {
        None
    }
}

/// The character at position `p`, if any.
pub open spec fn char_at(text: Seq<char>, p: int) -> Option<char> {
    if 0 <= p < text.len() {
        Some(text[p])
    } else {
        None
    }
}

/// A match of `signal` at `p` counts when it is a whole token.
pub open spec fn match_is_token(text: Seq<char>, signal: Seq<char>, p: int) -> bool {
    let after = char_at(text, p + signal.len());
    boundary_or_none(char_before(text, p)) && (boundary_or_none(after) || allows_version_suffix(
        signal,
        after,
    ))
}

/// How far the search moves past a match: the match's length, and at least
/// one character (an empty pattern matches at every position).
pub open spec fn match_step(signal: Seq<char>) -> int {
    if signal.len() == 0 {
        1
    } else {
        signal.len() as int
    }
}

/// Whether one of the non-overlapping, left-to-right matches of `signal`
/// found from position `from` on (as `str::match_indices` finds them) is a
/// whole token.
pub open spec fn token_match_from(text: Seq<char>, signal: Seq<char>, from: int) -> bool
    decreases text.len() + 1 - from,
{
    if from < 0 || from > text.len() {
        false
    } else if occurs_at(text, signal, from) {
        match_is_token(text, signal, from) || token_match_from(text, signal, from + match_step(signal))
    } else {
        token_match_from(text, signal, from + 1)
    }
}

/// `text` contains `signal` as a token.
pub open spec fn contains_prompt_signal(text: Seq<char>, signal: Seq<char>) -> bool {
    token_match_from(text, signal, 0)
}

pub fn is_prompt_signal_boundary(ch: char) -> (r: bool)
    ensures
        r == is_signal_boundary(ch),
{
    !ascii_alphanumeric(ch)
}

fn boundary_or_none_exec(ch: Option<char>) -> (r: bool)
    ensures
        r == boundary_or_none(ch),
{
    match ch {
        Some(c) => is_prompt_signal_boundary(c),
        None => true,
    }
}

/// Whether `signal` is a platform keyword that accepts a version suffix and
/// `after` is a digit.
pub fn signal_allows_version_suffix(signal: &Vec<char>, after: Option<char>) -> (r: bool)
    ensures
        r == allows_version_suffix(signal@, after),
{
    let ios = chars_of("ios");
    let macos = chars_of("macos");
    (chars_equal(signal, &ios) || chars_equal(signal, &macos)) && match after {
        Some(ch) => ascii_digit(ch),
        None => false,
    }
}

/// Whether `text` contains `signal` as a whole token (see
/// [`contains_prompt_signal`]).
pub fn text_contains_prompt_signal(text: &Vec<char>, signal: &Vec<char>) -> (r: bool)
    ensures
        r == contains_prompt_signal(text@, signal@),
{
    let n = text.len();
    let step: usize = if signal.len() == 0 {
        1
    } else {
        signal.len()
    };
    let mut i: usize = 0;
    while i < n
        invariant
            n == text@.len(),
            i <= n,
            step == match_step(signal@),
            token_match_from(text@, signal@, i as int) == contains_prompt_signal(text@, signal@),
        decreases n - i,
    {
        if matches_at(text, signal, i) {
            let before = if i > 0 {
                Some(text[i - 1])
            } else {
                None
            };
            let end = i + signal.len();
            let after = if end < n {
                Some(text[end])
            } else {
                None
            };
            if boundary_or_none_exec(before) && (boundary_or_none_exec(after)
                || signal_allows_version_suffix(signal, after)) {
                return true;
            }
            i = i + step;
        } else {
            i = i + 1;
        }
    }
    if matches_at(text, signal, n) {
        let before = if n > 0 {
            Some(text[n - 1])
        } else {
            None
        };
        assert(n + signal@.len() <= n);
        assert(token_match_from(text@, signal@, n + match_step(signal@)) == false);
        boundary_or_none_exec(before) && (boundary_or_none_exec(None)
            || signal_allows_version_suffix(signal, None))
    } else {
        assert(token_match_from(text@, signal@, n + 1) == false);
        assert(token_match_from(text@, signal@, n as int) == false);
        false
    }
}

/// Whether some text input contains one of `prompt_signals`, compared
/// without regard to ASCII case.
pub open spec fn has_prompt_signal(inputs: Seq<UserInput>, prompt_signals: Seq<String>) -> bool {
    exists|i: int, j: int|
        #![trigger inputs[i], prompt_signals[j]]
        0 <= i < inputs.len() && 0 <= j < prompt_signals.len() && match inputs[i] {
            UserInput::Text { text, .. } => contains_prompt_signal(
                ascii_lower(text@),
                ascii_lower(prompt_signals[j]@),
            ),
            _ => false,
        }
}

/// Whether the lowered text `lowered` contains one of `prompt_signals`,
/// lowered too, as a token.
fn text_has_prompt_signal(lowered: &Vec<char>, prompt_signals: &Vec<String>) -> (r: bool)
    ensures
        r == exists|j: int|
            0 <= j < prompt_signals@.len() && contains_prompt_signal(
                lowered@,
                ascii_lower((#[trigger] prompt_signals@[j])@),
            ),
{
    for j in 0..prompt_signals.len()
        invariant
            forall|b: int|
                0 <= b < j ==> !contains_prompt_signal(
                    lowered@,
                    ascii_lower((#[trigger] prompt_signals@[b])@),
                ),
    {
        let signal = lower_chars(prompt_signals[j].as_str());
        if text_contains_prompt_signal(lowered, &signal) {
            assert(contains_prompt_signal(lowered@, ascii_lower(prompt_signals@[j as int]@)));
            return true;
        }
    }
    false
}

pub fn has_configured_prompt_signal(inputs: &[UserInput], prompt_signals: &Vec<String>) -> (r:
    bool)
    ensures
        r == has_prompt_signal(inputs@, prompt_signals@),
{
    for i in 0..inputs.len()
        invariant
            forall|a: int, j: int|
                #![trigger inputs@[a], prompt_signals@[j]]
                0 <= a < i && 0 <= j < prompt_signals@.len() ==> !match inputs@[a] {
                    UserInput::Text { text, .. } => contains_prompt_signal(
                        ascii_lower(text@),
                        ascii_lower(prompt_signals@[j]@),
                    ),
                    _ => false,
                },
    {
        match &inputs[i] {
            UserInput::Text { text, .. } => {
                let lowered = lower_chars(text.as_str());
                if text_has_prompt_signal(&lowered, prompt_signals) {
                    let ghost j = choose|j: int|
                        0 <= j < prompt_signals@.len() && contains_prompt_signal(
                            lowered@,
                            ascii_lower((#[trigger] prompt_signals@[j])@),
                        );
                    assert(inputs@[i as int] == inputs[i as int]);
                    assert(prompt_signals@[j] == prompt_signals@[j]);
                    return true;
                }
            },
            _ => {},
        }
    }
    false
}

// ---------------------------------------------------------------------------
// Client names

/// The client is a desktop client: its name contains `desktop`, in any
/// ASCII case.
pub open spec fn is_desktop(client_name: Option<Seq<char>>) -> bool {
    match client_name {
        Some(name) => contains_text(ascii_lower(name), DESKTOP_CLIENT_SIGNAL@),
        None => false,
    }
}

pub fn is_desktop_client(client_name: Option<&str>) -> (r: bool)
    ensures
        r == is_desktop(opt_view(client_name)),
{
    match client_name {
        Some(name) => {
            let lowered = lower_chars(name);
            let signal = chars_of(DESKTOP_CLIENT_SIGNAL);
            contains_chars(&lowered, &signal)
        },
        None => false,
    }
}

/// The view of an optional string.
pub open spec fn opt_view(s: Option<&str>) -> Option<Seq<char>> {
    match s {
        Some(v) => Some(v@),
        None => None,
    }
}

/// The client's name contains one of `host_scopes`, compared without regard
/// to ASCII case.
pub open spec fn matches_host_scope(client_name: Option<Seq<char>>, host_scopes: Seq<String>) -> bool {
    match client_name {
        Some(name) => exists|j: int|
            0 <= j < host_scopes.len() && contains_text(
                ascii_lower(name),
                ascii_lower(#[trigger] host_scopes[j]@),
            ),
        None => false,
    }
}

pub fn client_matches_any_host_scope(client_name: Option<&str>, host_scopes: &Vec<String>) -> (r:
    bool)
    ensures
        r == matches_host_scope(opt_view(client_name), host_scopes@),
{
    match client_name {
        Some(name) => name_matches_any_host_scope(name, host_scopes),
        None => false,
    }
}

fn name_matches_any_host_scope(name: &str, host_scopes: &Vec<String>) -> (r: bool)
    ensures
        r == matches_host_scope(Some(name@), host_scopes@),
{
    let lowered = lower_chars(name);
    for j in 0..host_scopes.len()
        invariant
            lowered@ == ascii_lower(name@),
            forall|b: int|
                0 <= b < j ==> !contains_text(lowered@, ascii_lower(#[trigger] host_scopes@[b]@)),
    {
        let scope = lower_chars(host_scopes[j].as_str());
        if contains_chars(&lowered, &scope) {
            assert(contains_text(ascii_lower(name@), ascii_lower(host_scopes@[j as int]@)));
            return true;
        }
    }
    false
}

// ---------------------------------------------------------------------------
// Workspace markers

/// Position of the last `c` in `s` before position `j`, if any.
pub open spec fn rfind_char_before(s: Seq<char>, c: char, j: int) -> Option<int>
    decreases j,
{
    if j <= 0 || j > s.len() {
        None
    } else if s[j - 1] == c {
        Some(j - 1)
    } else {
        rfind_char_before(s, c, j - 1)
    }
}

/// `Path::extension` of a file name: the text after the last `.`; none when
/// there is no `.`, when the only `.` starts the name, or for `..`.
pub open spec fn file_extension(name: Seq<char>) -> Option<Seq<char>> {
    if name == seq!['.', '.'] {
        None
    } else {
        match rfind_char_before(name, '.', name.len() as int) {
            Some(k) => if k == 0 {
                None
            } else {
                Some(name.skip(k + 1))
            },
            None => None,
        }
    }
}

pub fn extension_of(name: &Vec<char>) -> (r: Option<Vec<char>>)
    ensures
        match r {
            Some(ext) => file_extension(name@) == Some(ext@),
            None => file_extension(name@) is None,
        },
{
    if name.len() == 2 && name[0] == '.' && name[1] == '.' {
        assert(name@ =~= seq!['.', '.']);
        return None;
    }
    assert(name@ != seq!['.', '.']);
    let mut j: usize = name.len();
    while j > 0
        invariant
            j <= name@.len(),
            name@ != seq!['.', '.'],
            rfind_char_before(name@, '.', j as int) == rfind_char_before(
                name@,
                '.',
                name@.len() as int,
            ),
        decreases j,
    {
        if name[j - 1] == '.' {
            if j - 1 == 0 {
                return None;
            }
            assert(rfind_char_before(name@, '.', j as int) == Some((j - 1) as int));
            let ext = slice_chars(name, j, name.len());
            assert(ext@ == name@.skip(j as int));
            return Some(ext);
        }
        j = j - 1;
    }
    None
}

/// One workspace entry marks `domain`: its name is one of the marker files,
/// or its extension one of the marker extensions. An entry whose name is not
/// valid Unicode (`None`) marks nothing.
pub open spec fn entry_marks_domain(entry: Option<String>, domain: PluginRouterSelectionDomain) -> bool {
    match entry {
        Some(name) => {
            ||| exists|k: int|
                0 <= k < domain.workspace_files@.len() && (#[trigger] domain.workspace_files@[k])@
                    == name@
            ||| match file_extension(name@) {
                Some(ext) => exists|k: int|
                    0 <= k < domain.workspace_extensions@.len()
                        && (#[trigger] domain.workspace_extensions@[k])@ == ext,
                None => false,
            }
        },
        None => false,
    }
}

/// Some entry of the workspace listing marks `domain`.
pub open spec fn has_workspace_signal(
    entries: Seq<Option<String>>,
    domain: PluginRouterSelectionDomain,
) -> bool {
    exists|i: int| 0 <= i < entries.len() && entry_marks_domain(#[trigger] entries[i], domain)
}

/// Whether `value` is one of `candidates`.
fn one_of(candidates: &Vec<String>, value: &Vec<char>) -> (r: bool)
    ensures
        r == exists|k: int| 0 <= k < candidates@.len() && (#[trigger] candidates@[k])@ == value@,
{
    for k in 0..candidates.len()
        invariant
            forall|b: int| 0 <= b < k ==> (#[trigger] candidates@[b])@ != value@,
    {
        let candidate = chars_of(candidates[k].as_str());
        if chars_equal(&candidate, value) {
            return true;
        }
    }
    false
}

/// Whether the workspace listing `workspace_entries` (the names of the
/// entries of the working directory) holds a marker of `domain`.
pub fn has_configured_workspace_signal(
    workspace_entries: &Vec<Option<String>>,
    domain: &PluginRouterSelectionDomain,
) -> (r: bool)
    ensures
        r == has_workspace_signal(workspace_entries@, *domain),
{
    for i in 0..workspace_entries.len()
        invariant
            forall|b: int|
                0 <= b < i ==> !entry_marks_domain(#[trigger] workspace_entries@[b], *domain),
    {
        match &workspace_entries[i] {
            Some(name) => {
                let name_chars = chars_of(name.as_str());
                if one_of(&domain.workspace_files, &name_chars) {
                    return true;
                }
                match extension_of(&name_chars) {
                    Some(ext) => {
                        if one_of(&domain.workspace_extensions, &ext) {
                            return true;
                        }
                    },
                    None => {},
                }
            },
            None => {},
        }
    }
    false
}

// ---------------------------------------------------------------------------
// Laws

proof fn lemma_last_dot(stem: Seq<char>, ext: Seq<char>, j: int)
    requires
        forall|k: int| 0 <= k < ext.len() ==> ext[k] != '.',
        stem.len() + 1 <= j <= stem.len() + 1 + ext.len(),
    ensures
        rfind_char_before(stem + seq!['.'] + ext, '.', j) == Some(stem.len() as int),
    decreases j,
{
    let name = stem + seq!['.'] + ext;
    if j > stem.len() + 1 {
        assert(name[j - 1] == ext[j - 1 - stem.len() - 1]);
        lemma_last_dot(stem, ext, j - 1);
    }
}

/// `Path::extension` of `stem.ext`, where `ext` holds no `.` and `stem` is
/// not empty, is `ext` (`..` aside, which has none).
pub proof fn lemma_file_extension(stem: Seq<char>, ext: Seq<char>)
    requires
        stem.len() > 0,
        forall|k: int| 0 <= k < ext.len() ==> ext[k] != '.',
        stem + seq!['.'] + ext != seq!['.', '.'],
    ensures
        file_extension(stem + seq!['.'] + ext) == Some(ext),
{
    let name = stem + seq!['.'] + ext;
    lemma_last_dot(stem, ext, name.len() as int);
    assert(name.skip(stem.len() + 1int) =~= ext);
}

/// A workspace entry named like any marker file of `domain`, or whose name
/// ends in `.` and any marker extension of `domain` (after a non-empty stem,
/// with no other `.` in the extension), is a workspace signal of `domain`.
pub proof fn lemma_marker_entry_signals(
    entries: Seq<Option<String>>,
    domain: PluginRouterSelectionDomain,
    i: int,
    k: int,
    stem: Seq<char>,
)
    requires
        0 <= i < entries.len(),
        entries[i] matches Some(name) && ((0 <= k < domain.workspace_files@.len()
            && name@ == domain.workspace_files@[k]@) || (0 <= k
            < domain.workspace_extensions@.len() && stem.len() > 0 && name@ == stem + seq!['.']
            + domain.workspace_extensions@[k]@ && name@ != seq!['.', '.'] && forall|c: int|
            0 <= c < domain.workspace_extensions@[k]@.len()
                ==> domain.workspace_extensions@[k]@[c] != '.')),
    ensures
        has_workspace_signal(entries, domain),
{
    let name = entries[i]->0;
    if 0 <= k < domain.workspace_files@.len() && name@ == domain.workspace_files@[k]@ {
        assert(entry_marks_domain(entries[i], domain));
    } else {
        lemma_file_extension(stem, domain.workspace_extensions@[k]@);
        assert(entry_marks_domain(entries[i], domain));
    }
}

} // verus!
