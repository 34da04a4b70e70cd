//! Native window records translated into the platform-neutral selector boundary.
use vstd::prelude::*;
use crate::selector::{ObservationId, ObservedWindow, WindowBounds};
use crate::text;

verus! {

/// The text that some UTF-16 units spell, with every unpaired surrogate replaced.
pub open spec fn utf16_lossy(units: Seq<u16>) -> Seq<char>
    decreases units.len(),
{
    if units.len() == 0 {
        Seq::empty()
    } else if units[0] < 0xD800 || units[0] >= 0xE000 {
        seq![units[0] as char] + utf16_lossy(units.skip(1))
    } else if units[0] < 0xDC00 && units.len() >= 2 && 0xDC00 <= units[1] < 0xE000 {
        seq![(0x10000 + (units[0] - 0xD800) * 0x400 + (units[1] - 0xDC00)) as char] + utf16_lossy(
            units.skip(2),
        )
    } else {
        seq!['\u{FFFD}'] + utf16_lossy(units.skip(1))
    }
}

/// Decodes UTF-16 with `String::from_utf16_lossy`: a unit outside the surrogates is its own
/// character, a high surrogate and the low one behind it make one character, and every other
/// surrogate becomes the replacement character.
#[verifier::external_body]
fn decode_utf16(units: &[u16]) -> (text: String)
    ensures
        text@ == utf16_lossy(units@),
{
    String::from_utf16_lossy(units)
}

/// The units before the first zero, or all of them.
pub open spec fn before_zero(units: Seq<u16>) -> Seq<u16>
    decreases units.len(),
{
    if units.len() == 0 || units[0] == 0 {
        Seq::empty()
    } else {
        seq![units[0]] + before_zero(units.skip(1))
    }
}

proof fn lemma_before_zero(units: Seq<u16>, end: int)
    requires
        0 <= end <= units.len(),
        end < units.len() ==> units[end] == 0,
        forall|k: int| 0 <= k < end ==> units[k] != 0,
    ensures
        before_zero(units) == units.take(end),
    decreases units.len(),
{
    if end == 0 {
        assert(units.take(0) =~= Seq::empty());
    } else {
        assert(units[0] != 0);
        let rest = units.skip(1);
        assert forall|k: int| 0 <= k < end - 1 implies rest[k] != 0 by {
            assert(units[k + 1] != 0);
        }
        lemma_before_zero(rest, end - 1);
        assert(units.take(end) =~= seq![units[0]] + rest.take(end - 1));
    }
}

/// How many units stand before the first zero.
pub fn terminated_length(units: &[u16]) -> (length: usize)
    ensures
        length <= units@.len(),
        units@.take(length as int) == before_zero(units@),
{
    let mut end: usize = 0;
    while end < units.len()
        invariant_except_break
            end <= units@.len(),
            forall|k: int| 0 <= k < end ==> units@[k] != 0,
        ensures
            end <= units@.len(),
            end < units@.len() ==> units@[end as int] == 0,
            forall|k: int| 0 <= k < end ==> units@[k] != 0,
        decreases units@.len() - end,
    {
        if units[end] == 0 {
            break;
        }
        end = end + 1;
    }
    proof {
        lemma_before_zero(units@, end as int);
    }
    end
}

/// Decodes a zero-terminated title or description.
pub fn decode_wide(units: &[u16]) -> (text: String)
    ensures
        text@ == utf16_lossy(before_zero(units@)),
{
    let length: usize = terminated_length(units);
    let terminated = vstd::slice::slice_subrange(units, 0, length);
    assert(terminated@ =~= units@.take(length as int));
    decode_utf16(terminated)
}

/// Native values collected together before translation into selector facts.
#[derive(Debug, Clone, PartialEq, Eq, Hash)]
pub struct WindowInfo {
    /// Window handle represented without giving it cross-layer meaning.
    pub hwnd: u64,
    /// Process that owns the window.
    pub pid: u32,
    /// Lossily decoded top-level window title.
    pub title: String,
    /// Full executable path, or an empty path when access is denied.
    pub executable_path: String,
    /// Client-area width in physical pixels, or zero when unavailable.
    pub width: u32,
    /// Client-area height in physical pixels, or zero when unavailable.
    pub height: u32,
}

/// One selector fact paired with the native handle needed only after selection.
#[derive(Debug, Clone, PartialEq, Eq)]
pub struct NativeObservation {
    /// Plain facts consumed by the deterministic selector.
    pub fact: ObservedWindow,
    /// Ephemeral native handle matching this exact observation snapshot.
    pub hwnd: u64,
}

/// Whether a character separates the components of a path; in a verbatim path only the
/// backslash does.
pub open spec fn is_separator(c: char, verbatim: bool) -> bool {
    c == '\\' || (c == '/' && !verbatim)
}

/// Where the last component of a path begins.
pub open spec fn component_start(path: Seq<char>, verbatim: bool) -> int
    decreases path.len(),
{
    if path.len() == 0 || is_separator(path.last(), verbatim) {
        path.len() as int
    } else {
        component_start(path.drop_last(), verbatim)
    }
}

/// Where the component that begins at an index ends.
pub open spec fn component_end(path: Seq<char>, from: int, verbatim: bool) -> int
    decreases path.len() - from,
{
    if from >= path.len() || is_separator(path[from], verbatim) {
        from
    } else {
        component_end(path, from + 1, verbatim)
    }
}

/// Whether a drive letter and a colon stand at an index.
pub open spec fn has_drive(path: Seq<char>, from: int) -> bool {
    path.len() >= from + 2 && path[from + 1] == ':' && ('a' <= path[from] <= 'z' || 'A'
        <= path[from] <= 'Z')
}

/// Whether a path is verbatim: it begins with `\\?\`, in backslashes.
pub open spec fn is_verbatim(path: Seq<char>) -> bool {
    path.len() >= 4 && path[0] == '\\' && path[1] == '\\' && path[2] == '?' && path[3] == '\\'
}

/// Where a server and the share behind it end; without a share, where the server ends.
pub open spec fn share_end(path: Seq<char>, from: int, verbatim: bool) -> int {
    let server = component_end(path, from, verbatim);
    let share = component_end(path, server + 1, verbatim);
    if share > server + 1 {
        share
    } else {
        server
    }
}

/// Where the prefix of a path ends: a drive, a server and share, a device, or what a verbatim
/// path names in their place.
pub open spec fn prefix_end(path: Seq<char>) -> int {
    if path.len() < 2 || !is_separator(path[0], false) || !is_separator(path[1], false) {
        if has_drive(path, 0) {
            2
        } else {
            0
        }
    } else if is_verbatim(path) {
        if path.len() >= 8 && path[4] == 'U' && path[5] == 'N' && path[6] == 'C' && is_separator(
            path[7],
            false,
        ) {
            share_end(path, 8, true)
        } else if has_drive(path, 4) && (path.len() == 6 || is_separator(path[6], false)) {
            6
        } else {
            component_end(path, 4, true)
        }
    } else if path.len() >= 4 && path[2] == '.' && is_separator(path[3], false) {
        component_end(path, 4, false)
    } else {
        let server = component_end(path, 2, false);
        let share = share_end(path, 2, false);
        if server > 2 && share > server {
            share
        } else {
            0
        }
    }
}

/// The name that ends what stands behind a root, empty if nothing that can be a name does:
/// separators at the end do not count, neither do `.` components where the path is not
/// verbatim, and `..` is no name.
pub open spec fn last_name(path: Seq<char>, verbatim: bool) -> Seq<char>
    decreases path.len(),
{
    if path.len() == 0 {
        Seq::empty()
    } else if is_separator(path.last(), verbatim) {
        last_name(path.drop_last(), verbatim)
    } else {
        let component = path.skip(component_start(path, verbatim));
        if component == seq!['.'] {
            if verbatim {
                Seq::empty()
            } else {
                last_name(path.drop_last(), verbatim)
            }
        } else if component == seq!['.', '.'] {
            Seq::empty()
        } else {
            component
        }
    }
}

/// Where the components of a path begin: behind its prefix and its root. The root is a separator
/// of either kind, in a verbatim path too.
pub open spec fn body_start(path: Seq<char>) -> int {
    let end = prefix_end(path);
    if end < path.len() && is_separator(path[end], false) {
        end + 1
    } else {
        end
    }
}

/// The file name that ends a path, empty if there is none. Neither the prefix nor the root is
/// part of it.
pub open spec fn file_name(path: Seq<char>) -> Seq<char> {
    last_name(path.skip(body_start(path)), is_verbatim(path))
}

proof fn lemma_component_start(path: Seq<char>, verbatim: bool)
    ensures
        0 <= component_start(path, verbatim) <= path.len(),
    decreases path.len(),
{
    if path.len() > 0 && !is_separator(path.last(), verbatim) {
        lemma_component_start(path.drop_last(), verbatim);
    }
}

fn separates(c: char, verbatim: bool) -> (found: bool)
    ensures
        found == is_separator(c, verbatim),
{
    c == '\\' || (c == '/' && !verbatim)
}

fn find_component(path: &[char], verbatim: bool) -> (start: usize)
    ensures
        start == component_start(path@, verbatim),
        start <= path@.len(),
{
    proof {
        lemma_component_start(path@, verbatim);
    }
    let mut start: usize = path.len();
    assert(path@.take(start as int) =~= path@);
    while start > 0 && !separates(path[start - 1], verbatim)
        invariant
            start <= path@.len(),
            component_start(path@.take(start as int), verbatim) == component_start(
                path@,
                verbatim,
            ),
        decreases start,
    {
        assert(path@.take(start as int).drop_last() =~= path@.take(start - 1));
        start = start - 1;
    }
    start
}

fn find_component_end(path: &[char], from: usize, verbatim: bool) -> (end: usize)
    requires
        from <= path@.len(),
    ensures
        end == component_end(path@, from as int, verbatim),
        from <= end <= path@.len(),
{
    let mut end: usize = from;
    while end < path.len() && !separates(path[end], verbatim)
        invariant
            from <= end <= path@.len(),
            component_end(path@, end as int, verbatim) == component_end(
                path@,
                from as int,
                verbatim,
            ),
        decreases path@.len() - end,
    {
        end = end + 1;
    }
    end
}

fn drive_at(path: &[char], from: usize) -> (found: bool)
    ensures
        found == has_drive(path@, from as int),
{
    if path.len() < 2 || path.len() - 2 < from {
        return false;
    }
    let letter = path[from];
    path[from + 1] == ':' && (('a' <= letter && letter <= 'z') || ('A' <= letter && letter <= 'Z'))
}

fn find_share_end(path: &[char], from: usize, verbatim: bool) -> (end: usize)
    requires
        from <= path@.len(),
    ensures
        end == share_end(path@, from as int, verbatim),
        component_end(path@, from as int, verbatim) <= end <= path@.len(),
{
    let server: usize = find_component_end(path, from, verbatim);
    if server == path.len() {
        return server;
    }
    let share: usize = find_component_end(path, server + 1, verbatim);
    if share > server + 1 {
        share
    } else {
        server
    }
}

fn verbatim_path(path: &[char]) -> (found: bool)
    ensures
        found == is_verbatim(path@),
{
    path.len() >= 4 && path[0] == '\\' && path[1] == '\\' && path[2] == '?' && path[3] == '\\'
}

fn find_prefix_end(path: &[char]) -> (end: usize)
    ensures
        end == prefix_end(path@),
        end <= path@.len(),
{
    if path.len() < 2 || !separates(path[0], false) || !separates(path[1], false) {
        return if drive_at(path, 0) {
            2
        } else {
            0
        };
    }
    if verbatim_path(path) {
        if path.len() >= 8 && path[4] == 'U' && path[5] == 'N' && path[6] == 'C' && separates(
            path[7],
            false,
        ) {
            return find_share_end(path, 8, true);
        }
        if drive_at(path, 4) && (path.len() == 6 || separates(path[6], false)) {
            return 6;
        }
        return find_component_end(path, 4, true);
    }
    if path.len() >= 4 && path[2] == '.' && separates(path[3], false) {
        return find_component_end(path, 4, false);
    }
    let server: usize = find_component_end(path, 2, false);
    let share: usize = find_share_end(path, 2, false);
    if server > 2 && share > server {
        share
    } else {
        0
    }
}

fn find_last_name(path: &[char], verbatim: bool) -> (name: String)
    ensures
        name@ == last_name(path@, verbatim),
{
    let mut end: usize = path.len();
    assert(path@.take(end as int) =~= path@);
    while end > 0
        invariant
            end <= path@.len(),
            last_name(path@.take(end as int), verbatim) == last_name(path@, verbatim),
        decreases end,
    {
        let ghost whole = path@.take(end as int);
        proof {
            assert(whole.drop_last() =~= path@.take(end - 1));
            assert(whole.last() == path@[end - 1]);
            lemma_component_start(whole, verbatim);
        }
        if separates(path[end - 1], verbatim) {
            end = end - 1;
            continue;
        }
        let current = vstd::slice::slice_subrange(path, 0, end);
        assert(current@ =~= whole);
        let start: usize = find_component(current, verbatim);
        let ghost component = whole.skip(start as int);
        if end - start == 1 && path[start] == '.' {
            assert(component =~= seq!['.']);
            if verbatim {
                return empty_text();
            }
            end = end - 1;
            continue;
        }
        assert(component != seq!['.']) by {
            if component == seq!['.'] {
                assert(component.len() == 1 && component[0] == '.');
            }
        }
        if end - start == 2 && path[start] == '.' && path[start + 1] == '.' {
            assert(component =~= seq!['.', '.']);
            return empty_text();
        }
        assert(component != seq!['.', '.']) by {
            if component == seq!['.', '.'] {
                assert(component.len() == 2 && component[0] == '.' && component[1] == '.');
            }
        }
        let name = vstd::slice::slice_subrange(path, start, end);
        assert(name@ =~= component);
        return text::string_of(name);
    }
    empty_text()
}

fn empty_text() -> (empty: String)
    ensures
        empty@ == Seq::<char>::empty(),
{
    let chars: Vec<char> = Vec::new();
    let empty = text::string_of(chars.as_slice());
    assert(empty@ =~= Seq::<char>::empty());
    empty
}

/// Returns the file name that ends a path, empty if there is none.
pub fn executable_name(path: &str) -> (name: String)
    ensures
        name@ == file_name(path@),
{
    let chars = text::chars_of(path);
    let mut from: usize = find_prefix_end(chars.as_slice());
    if from < chars.len() && separates(chars[from], false) {
        from = from + 1;
    }
    let body = vstd::slice::slice_subrange(chars.as_slice(), from, chars.len());
    assert(body@ =~= path@.skip(body_start(path@)));
    find_last_name(body, verbatim_path(chars.as_slice()))
}

/// Translate one native observation record into an architecture-safe fact.
pub fn translate_window(window: WindowInfo, foreground: Option<u64>) -> (observation:
    NativeObservation)
    ensures
        observation.hwnd == window.hwnd,
        observation.fact.id.0 == window.hwnd,
        observation.fact.process_id == window.pid,
        observation.fact.executable_name@ == file_name(window.executable_path@),
        match observation.fact.executable_path {
            Some(path) => window.executable_path@.len() > 0 && path@ == window.executable_path@,
            None => window.executable_path@.len() == 0,
        },
        observation.fact.title == window.title,
        observation.fact.visible,
        observation.fact.foreground == (foreground == Some(window.hwnd)),
        observation.fact.bounds == (WindowBounds {
            left: 0,
            top: 0,
            width: window.width,
            height: window.height,
        }),
{
    let name = executable_name(window.executable_path.as_str());
    let chars = text::chars_of(window.executable_path.as_str());
    let executable_path = if chars.len() == 0 {
        None
    } else {
        Some(window.executable_path)
    };
    let is_foreground = match foreground {
        Some(hwnd) => hwnd == window.hwnd,
        None => false,
    };
    NativeObservation {
        fact: ObservedWindow {
            id: ObservationId(window.hwnd),
            process_id: window.pid,
            executable_name: name,
            executable_path,
            title: window.title,
            visible: true,
            foreground: is_foreground,
            bounds: WindowBounds { left: 0, top: 0, width: window.width, height: window.height },
        },
        hwnd: window.hwnd,
    }
}

/// Decide whether a top-level window belongs in the capture candidate set.
pub fn is_capturable(visible: bool, owned: bool, cloaked: bool, title: &str) -> (capturable: bool)
    ensures
        capturable == (visible && !owned && !cloaked && title@.len() > 0),
{
    if !visible || owned || cloaked {
        return false;
    }
    let chars = text::chars_of(title);
    chars.len() > 0
}

/// The windows of other processes, in the order of enumeration.
pub open spec fn foreign(windows: Seq<WindowInfo>, own_process_id: u32) -> Seq<WindowInfo>
    decreases windows.len(),
{
    if windows.len() == 0 {
        Seq::empty()
    } else if windows.last().pid != own_process_id {
        foreign(windows.drop_last(), own_process_id).push(windows.last())
    } else {
        foreign(windows.drop_last(), own_process_id)
    }
}

/// Leaves out the windows of this process.
pub fn retain_foreign(windows: Vec<WindowInfo>, own_process_id: u32) -> (kept: Vec<WindowInfo>)
    ensures
        kept@ == foreign(windows@, own_process_id),
{
    let ghost all = windows@;
    let mut rest = windows;
    let mut reversed: Vec<WindowInfo> = Vec::new();
    let mut kept: Vec<WindowInfo> = Vec::new();
    while rest.len() > 0
        invariant
            all == rest@ + reversed@.reverse(),
        decreases rest@.len(),
    {
        let ghost before = rest@;
        let ghost turned = reversed@;
        if let Some(window) = rest.pop() {
            reversed.push(window);
            assert(reversed@.reverse() =~= seq![window] + turned.reverse());
            assert(all =~= rest@ + reversed@.reverse());
        }
    }
    assert(reversed@.reverse() =~= all);
    assert(all.take(0) =~= Seq::empty());
    let ghost total = reversed@;
    while reversed.len() > 0
        invariant
            reversed@.len() <= all.len(),
            reversed@.reverse() == all.skip(all.len() - reversed@.len()),
            kept@ == foreign(all.take(all.len() - reversed@.len()), own_process_id),
        decreases reversed@.len(),
    {
        let ghost done = all.len() - reversed@.len();
        let ghost before = reversed@;
        if let Some(window) = reversed.pop() {
            proof {
                assert(before.reverse()[0] == window);
                assert(all.skip(done)[0] == all[done]);
                let next = all.take(done + 1);
                assert(next.drop_last() =~= all.take(done));
                assert(next.last() == window);
                assert(reversed@.reverse() =~= before.reverse().skip(1));
                assert(all.skip(done).skip(1) =~= all.skip(done + 1));
            }
            if window.pid != own_process_id {
                kept.push(window);
            }
        }
    }
    assert(all.take(all.len() as int) =~= all);
    kept
}

/// A window is told by its handle, its process, its title and its size; it is in the foreground
/// exactly if its handle is the foreground one, and its path is told where it is known.
pub proof fn law_windows_are_told_as_they_are(
    window: WindowInfo,
    foreground: Option<u64>,
    path: &str,
    name: String,
    observation: NativeObservation,
)
    requires
        path@ == window.executable_path@,
        call_ensures(executable_name, (path,), name),
        call_ensures(translate_window, (window, foreground), observation),
    ensures
        observation.hwnd == window.hwnd && observation.fact.id.0 == window.hwnd,
        observation.fact.process_id == window.pid,
        observation.fact.title@ == window.title@,
        observation.fact.executable_name@ == name@,
        observation.fact.executable_path is Some <==> window.executable_path@.len() > 0,
        observation.fact.executable_path matches Some(told) ==> told@ == window.executable_path@,
        observation.fact.visible,
        observation.fact.foreground <==> foreground is Some && foreground->Some_0 == window.hwnd,
        observation.fact.bounds.width == window.width && observation.fact.bounds.height
            == window.height,
{
}

/// A window is a candidate exactly if it is visible, has a title, and is neither owned nor cloaked.
pub proof fn law_candidates_are_shown(
    visible: bool,
    owned: bool,
    cloaked: bool,
    title: &str,
    capturable: bool,
)
    requires
        call_ensures(is_capturable, (visible, owned, cloaked, title), capturable),
    ensures
        capturable <==> visible && !owned && !cloaked && title@.len() > 0,
{
}

/// The windows of this process are left out, and all others are kept in their order.
pub proof fn law_own_windows_are_left_out(
    windows: Vec<WindowInfo>,
    more: Vec<WindowInfo>,
    own_process_id: u32,
    last: WindowInfo,
    kept: Vec<WindowInfo>,
    kept_more: Vec<WindowInfo>,
)
    requires
        more@ == windows@.push(last),
        call_ensures(retain_foreign, (windows, own_process_id), kept),
        call_ensures(retain_foreign, (more, own_process_id), kept_more),
    ensures
        windows@.len() == 0 ==> kept@.len() == 0,
        last.pid != own_process_id ==> kept_more@ == kept@.push(last),
        last.pid == own_process_id ==> kept_more@ == kept@,
{
    assert(more@.drop_last() =~= windows@);
}

/// Of a path on a drive the executable name is what stands behind the last separator, as long as it
/// is not a dot or two.
pub proof fn law_names_end_their_paths(path: &str, folder: Seq<char>, file: Seq<char>, name: String)
    requires
        folder.len() >= 3,
        'a' <= folder[0] <= 'z' || 'A' <= folder[0] <= 'Z',
        folder[1] == ':',
        folder[2] == '\\' || folder[2] == '/',
        folder.last() == '\\' || folder.last() == '/',
        file.len() > 0,
        forall|i: int| 0 <= i < file.len() ==> #[trigger] file[i] != '\\' && file[i] != '/',
        file != seq!['.'] && file != seq!['.', '.'],
        path@ == folder + file,
        call_ensures(executable_name, (path,), name),
    ensures
        name@ == file,
{
    let whole = path@;
    assert(whole[0] == folder[0] && whole[1] == folder[1] && whole[2] == folder[2]);
    assert(prefix_end(whole) == 2);
    assert(body_start(whole) == 3);
    let body = whole.skip(3);
    let front = folder.skip(3);
    assert(body =~= front + file);
    assert(body.last() == file.last());
    assert(front.len() > 0 ==> front.last() == folder.last());
    lemma_last_component(front, file);
    assert(body.skip(front.len() as int) =~= file);
}

proof fn lemma_last_component(front: Seq<char>, file: Seq<char>)
    requires
        front.len() == 0 || is_separator(front.last(), false),
        forall|i: int| 0 <= i < file.len() ==> #[trigger] file[i] != '\\' && file[i] != '/',
    ensures
        component_start(front + file, false) == front.len(),
    decreases file.len(),
{
    let body = front + file;
    if file.len() == 0 {
        assert(body =~= front);
    } else {
        assert(body.last() == file.last());
        assert(body.drop_last() =~= front + file.drop_last());
        lemma_last_component(front, file.drop_last());
    }
}

/// A path that ends in a separator is named like the path without it.
pub proof fn law_trailing_separators_do_not_count(
    path: &str,
    shorter: &str,
    names: (String, String),
)
    requires
        shorter@.len() > 3,
        'a' <= shorter@[0] <= 'z' || 'A' <= shorter@[0] <= 'Z',
        shorter@[1] == ':',
        shorter@[2] == '\\' || shorter@[2] == '/',
        path@ == shorter@.push('\\') || path@ == shorter@.push('/'),
        call_ensures(executable_name, (path,), names.0),
        call_ensures(executable_name, (shorter,), names.1),
    ensures
        names.0@ == names.1@,
{
    assert(path@[0] == shorter@[0] && path@[1] == shorter@[1] && path@[2] == shorter@[2]);
    assert(path@.skip(3).drop_last() =~= shorter@.skip(3));
    assert(path@.skip(3).last() == path@.last());
}

/// A wide text without surrogates has one character for each unit up to the first zero.
pub proof fn law_wide_texts_end_at_zero(units: &[u16], text: String, length: usize, end: int)
    requires
        0 <= end <= units@.len(),
        end < units@.len() ==> units@[end] == 0,
        forall|i: int| 0 <= i < end ==> 0 < #[trigger] units@[i] < 0xD800,
        call_ensures(decode_wide, (units,), text),
        call_ensures(terminated_length, (units,), length),
    ensures
        length == end,
        text@.len() == end,
        forall|i: int| 0 <= i < end ==> #[trigger] text@[i] as u32 == units@[i],
{
    lemma_before_zero(units@, end);
    lemma_plain_units(units@.take(end));
    assert(units@.take(length as int).len() == length);
    assert forall|i: int| 0 <= i < end implies #[trigger] text@[i] as u32 == units@[i] by {
        assert(units@.take(end)[i] == units@[i]);
    }
}

proof fn lemma_plain_units(units: Seq<u16>)
    requires
        forall|i: int| 0 <= i < units.len() ==> #[trigger] units[i] < 0xD800,
    ensures
        utf16_lossy(units).len() == units.len(),
        forall|i: int| 0 <= i < units.len() ==> #[trigger] utf16_lossy(units)[i] as u32 == units[i],
    decreases units.len(),
{
    if units.len() > 0 {
        let rest = units.skip(1);
        assert forall|i: int| 0 <= i < rest.len() implies #[trigger] rest[i] < 0xD800 by {
            assert(rest[i] == units[i + 1]);
        }
        lemma_plain_units(rest);
        assert(units[0] < 0xD800);
        assert forall|i: int| 0 <= i < units.len() implies #[trigger] utf16_lossy(units)[i] as u32
            == units[i] by {
            if i > 0 {
                assert(utf16_lossy(units)[i] == utf16_lossy(rest)[i - 1]);
                assert(rest[i - 1] == units[i]);
            }
        }
    }
}

/// Of a path without a drive, a server or a device, the executable name is what stands behind the
/// last separator, as long as it is not a dot or two.
pub proof fn law_names_end_relative_paths(
    path: &str,
    folder: Seq<char>,
    file: Seq<char>,
    name: String,
)
    requires
        folder.len() == 0 || folder.last() == '\\' || folder.last() == '/',
        file.len() > 0,
        forall|i: int| 0 <= i < file.len() ==> #[trigger] file[i] != '\\' && file[i] != '/',
        file != seq!['.'] && file != seq!['.', '.'],
        path@ == folder + file,
        path@.len() < 2 || path@[1] != ':',
        path@.len() < 2 || !(path@[0] == '\\' || path@[0] == '/') || !(path@[1] == '\\' || path@[1]
            == '/'),
        call_ensures(executable_name, (path,), name),
    ensures
        name@ == file,
{
    let whole = path@;
    assert(prefix_end(whole) == 0);
    let start = body_start(whole);
    if folder.len() == 0 {
        assert(whole =~= file);
        assert(file[0] != '\\' && file[0] != '/');
        assert(start == 0);
    } else {
        assert(whole[0] == folder[0]);
        assert(start <= folder.len());
    }
    let body = whole.skip(start);
    let front = folder.skip(start);
    assert(body =~= front + file);
    assert(body.last() == file.last());
    assert(front.len() > 0 ==> front.last() == folder.last());
    lemma_last_component(front, file);
    assert(body.skip(front.len() as int) =~= file);
}

/// The server and the share of a network path are no part of a name: the name is what stands behind
/// the last separator behind them, and there is none where nothing does.
pub proof fn law_shares_are_no_names(
    path: &str,
    server: Seq<char>,
    share: Seq<char>,
    folder: Seq<char>,
    file: Seq<char>,
    name: String,
    root: &str,
    none: String,
)
    requires
        server.len() > 0 && share.len() > 0,
        server[0] != '?' && server[0] != '.',
        forall|i: int| 0 <= i < server.len() ==> #[trigger] server[i] != '\\' && server[i] != '/',
        forall|i: int| 0 <= i < share.len() ==> #[trigger] share[i] != '\\' && share[i] != '/',
        folder.len() == 0 || folder.last() == '\\' || folder.last() == '/',
        file.len() > 0,
        forall|i: int| 0 <= i < file.len() ==> #[trigger] file[i] != '\\' && file[i] != '/',
        file != seq!['.'] && file != seq!['.', '.'],
        root@ == seq!['\\', '\\'] + server + seq!['\\'] + share,
        path@ == root@ + seq!['\\'] + folder + file,
        call_ensures(executable_name, (path,), name),
        call_ensures(executable_name, (root,), none),
    ensures
        name@ == file,
        none@.len() == 0,
{
    let end = root@.len() as int;
    lemma_share(root@, server, share, Seq::empty());
    lemma_share(path@, server, share, seq!['\\'] + folder + file);
    assert(path@ =~= seq!['\\', '\\'] + server + seq!['\\'] + share + (seq!['\\'] + folder + file));
    assert(root@ =~= seq!['\\', '\\'] + server + seq!['\\'] + share + Seq::<char>::empty());
    assert(!is_verbatim(path@)) by {
        assert(path@[2] == server[0]);
    }
    assert(!is_verbatim(root@)) by {
        assert(root@[2] == server[0]);
    }
    assert(prefix_end(path@) == end);
    assert(prefix_end(root@) == end);
    assert(path@[end] == '\\');
    let body = path@.skip(end + 1);
    assert(body =~= folder + file);
    assert(body.last() == file.last());
    lemma_last_component(folder, file);
    assert(body.skip(folder.len() as int) =~= file);
    assert(root@.skip(end) =~= Seq::empty());
}

proof fn lemma_share(path: Seq<char>, server: Seq<char>, share: Seq<char>, rest: Seq<char>)
    requires
        server.len() > 0 && share.len() > 0,
        server[0] != '?' && server[0] != '.',
        forall|i: int| 0 <= i < server.len() ==> #[trigger] server[i] != '\\' && server[i] != '/',
        forall|i: int| 0 <= i < share.len() ==> #[trigger] share[i] != '\\' && share[i] != '/',
        rest.len() == 0 || rest[0] == '\\',
        path =~= seq!['\\', '\\'] + server + seq!['\\'] + share + rest,
    ensures
        prefix_end(path) == 3 + server.len() + share.len(),
{
    let at = 2 + server.len() as int;
    let end = at + 1 + share.len();
    assert(path[0] == '\\' && path[1] == '\\' && path[2] == server[0] && path[at] == '\\');
    assert forall|k: int| 2 <= k < at implies !is_separator(#[trigger] path[k], false) by {
        assert(path[k] == server[k - 2]);
    }
    assert forall|k: int| at < k < end implies !is_separator(#[trigger] path[k], false) by {
        assert(path[k] == share[k - at - 1]);
    }
    if rest.len() > 0 {
        assert(path[end] == rest[0]);
    }
    lemma_component_ends(path, 2, at);
    lemma_component_ends(path, at + 1, end);
}

proof fn lemma_component_ends(path: Seq<char>, from: int, to: int)
    requires
        0 <= from <= to <= path.len(),
        forall|k: int| from <= k < to ==> !is_separator(#[trigger] path[k], false),
        to < path.len() ==> is_separator(path[to], false),
    ensures
        component_end(path, from, false) == to,
    decreases to - from,
{
    if from < to {
        assert(!is_separator(path[from], false));
        lemma_component_ends(path, from + 1, to);
    }
}

/// A path that ends in two dots has no name.
pub proof fn law_parents_are_no_names(path: &str, folder: Seq<char>, name: String)
    requires
        folder.len() >= 3,
        'a' <= folder[0] <= 'z' || 'A' <= folder[0] <= 'Z',
        folder[1] == ':',
        folder[2] == '\\' || folder[2] == '/',
        folder.last() == '\\' || folder.last() == '/',
        path@ == folder + seq!['.', '.'],
        call_ensures(executable_name, (path,), name),
    ensures
        name@.len() == 0,
{
    let whole = path@;
    let file = seq!['.', '.'];
    assert(whole[0] == folder[0] && whole[1] == folder[1] && whole[2] == folder[2]);
    let body = whole.skip(3);
    let front = folder.skip(3);
    assert(body =~= front + file);
    assert(body.last() == '.');
    assert(front.len() > 0 ==> front.last() == folder.last());
    lemma_last_component(front, file);
    assert(body.skip(front.len() as int) =~= file);
    assert(file != seq!['.']) by {
        assert(file.len() == 2);
    }
}

} // verus!
