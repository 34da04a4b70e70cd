//! Selector presets: pattern parsing and window matching.
//!
//! Pattern format: `[@mode] <exePath>[@<windowTitle>]`.
use vstd::prelude::*;
use crate::names::{self, NameMap};
use crate::text;

verus! {

/// Named pattern lists with one active preset.
#[derive(Debug, PartialEq, Eq)]
pub struct PresetConfig {
    /// Name of the active entry in `presets`.
    pub preset: String,
    /// Named pattern lists.
    pub presets: NameMap<Vec<String>>,
}

/// What the presets say.
pub struct PresetModel {
    pub preset: Seq<char>,
    pub presets: Seq<(Seq<char>, Seq<String>)>,
}

impl View for PresetConfig {
    type V = PresetModel;

    open spec fn view(&self) -> PresetModel {
        PresetModel { preset: self.preset@, presets: self.presets@ }
    }
}

impl PresetModel {
    /// The patterns of the active preset, if it exists.
    pub open spec fn active(self) -> Option<Seq<Seq<char>>> {
        match names::lookup(self.presets, self.preset) {
            Some(patterns) => Some(text::texts(patterns)),
            None => None,
        }
    }
}

impl PresetConfig {
    /// Return the pattern list for the active preset, or `None` if missing.
    pub fn active_patterns(&self) -> (patterns: Option<&Vec<String>>)
        ensures
            match patterns {
                Some(patterns) => names::lookup(self.presets@, self.preset@) == Some(patterns@),
                None => names::lookup(self.presets@, self.preset@) is None,
            },
    {
        self.presets.get(self.preset.as_str())
    }
}

/// A parsed pattern with optional mode tag and title filter.
#[derive(Debug, Clone, PartialEq, Eq)]
pub struct ParsedPattern {
    /// Mode prefix.
    pub mode: Option<String>,
    /// Executable-path substring.
    pub exe_path: String,
    /// Window-title substring.
    pub title: Option<String>,
}

/// What a parsed pattern says.
pub struct PatternModel {
    pub mode: Option<Seq<char>>,
    pub exe_path: Seq<char>,
    pub title: Option<Seq<char>>,
}

/// What an optional string says.
pub open spec fn optional_string(text: Option<String>) -> Option<Seq<char>> {
    match text {
        Some(text) => Some(text@),
        None => None,
    }
}

impl View for ParsedPattern {
    type V = PatternModel;

    open spec fn view(&self) -> PatternModel {
        PatternModel {
            mode: optional_string(self.mode),
            exe_path: self.exe_path@,
            title: optional_string(self.title),
        }
    }
}

/// Whether a pattern begins with a mode: an at sign, at least one character, and a space.
pub open spec fn has_mode(pattern: Seq<char>) -> bool {
    pattern.len() > 0 && pattern[0] == '@' && 1 < text::position(pattern, ' ') < pattern.len()
}

/// What a pattern says behind its mode.
pub open spec fn body_of(pattern: Seq<char>) -> Seq<char> {
    if has_mode(pattern) {
        pattern.skip(text::position(pattern, ' ') + 1)
    } else {
        pattern
    }
}

/// The parts of a pattern.
pub open spec fn parsed(pattern: Seq<char>) -> PatternModel {
    let body = body_of(pattern);
    let at = text::position(body, '@');
    PatternModel {
        mode: if has_mode(pattern) {
            Some(pattern.subrange(1, text::position(pattern, ' ')))
        } else {
            None
        },
        exe_path: body.take(at),
        title: if at < body.len() {
            Some(body.skip(at + 1))
        } else {
            None
        },
    }
}

/// Parse one pattern without rejecting empty components.
pub fn parse_pattern(pattern: &str) -> (result: ParsedPattern)
    ensures
        result@ == parsed(pattern@),
{
    let chars = text::chars_of(pattern);
    let mut mode: Option<String> = None;
    let mut start: usize = 0;
    if chars.len() > 0 && chars[0] == '@' {
        if let Some(space) = text::find_char(chars.as_slice(), ' ') {
            if space > 1 {
                let tag = vstd::slice::slice_subrange(chars.as_slice(), 1, space);
                mode = Some(text::string_of(tag));
                start = space + 1;
            }
        }
    }
    let body = vstd::slice::slice_subrange(chars.as_slice(), start, chars.len());
    assert(body@ =~= body_of(pattern@));
    match text::find_char(body, '@') {
        Some(at) => {
            let path = vstd::slice::slice_subrange(body, 0, at);
            let title = vstd::slice::slice_subrange(body, at + 1, body.len());
            assert(path@ =~= body@.take(at as int));
            assert(title@ =~= body@.skip(at + 1));
            ParsedPattern {
                mode,
                exe_path: text::string_of(path),
                title: Some(text::string_of(title)),
            }
        },
        None => {
            assert(body@.take(body@.len() as int) =~= body@);
            ParsedPattern { mode, exe_path: text::string_of(body), title: None }
        },
    }
}

impl PatternModel {
    /// Whether an executable path fits: slashes of either kind are alike, and no path fits all.
    pub open spec fn admits_path(self, path: Seq<char>, case_insensitive: bool) -> bool {
        let haystack = text::replaced(path, '\\', '/');
        let needle = text::replaced(self.exe_path, '\\', '/');
        self.exe_path.len() == 0 || if case_insensitive {
            text::has_part(text::lowercase(haystack), text::lowercase(needle))
        } else {
            text::has_part(haystack, needle)
        }
    }

    /// Whether a window title fits, regardless of case.
    pub open spec fn admits_title(self, title: Seq<char>) -> bool {
        match self.title {
            Some(part) => part.len() == 0 || text::has_part(
                text::lowercase(title),
                text::lowercase(part),
            ),
            None => true,
        }
    }

    /// Whether a window fits.
    pub open spec fn admits(self, path: Seq<char>, title: Seq<char>, case_insensitive: bool) -> bool {
        self.admits_path(path, case_insensitive) && self.admits_title(title)
    }

    /// Whether the pattern is a veto.
    pub open spec fn vetoes(self) -> bool {
        self.mode == Some("exclude"@)
    }
}

/// Test whether a window matches a parsed pattern.
///
/// Exclusion rules ignore case so that casing cannot bypass a veto.
pub fn matches_parsed(
    parsed: &ParsedPattern,
    executable_path: &str,
    window_title: &str,
    case_insensitive: bool,
) -> (matched: bool)
    ensures
        matched == parsed@.admits(executable_path@, window_title@, case_insensitive),
{
    if !parsed.exe_path.as_str().is_empty() {
        let haystack = text::replace_char(executable_path, '\\', '/');
        let needle = text::replace_char(parsed.exe_path.as_str(), '\\', '/');
        let fits = if case_insensitive {
            let low_haystack = text::to_lowercase(haystack.as_str());
            let low_needle = text::to_lowercase(needle.as_str());
            text::contains_text(low_haystack.as_str(), low_needle.as_str())
        } else {
            text::contains_text(haystack.as_str(), needle.as_str())
        };
        if !fits {
            return false;
        }
    }
    if let Some(part) = &parsed.title {
        if !part.as_str().is_empty() {
            let low_title = text::to_lowercase(window_title);
            let low_part = text::to_lowercase(part.as_str());
            if !text::contains_text(low_title.as_str(), low_part.as_str()) {
                return false;
            }
        }
    }
    true
}

/// Result of pattern matching.
#[derive(Debug, Clone, PartialEq, Eq)]
pub struct CaptureMatch {
    /// Mode tag from the matched include pattern (e.g. `"code"`, `"game"`).
    pub mode: Option<String>,
}

/// Whether a pattern vetoes a window.
pub open spec fn excludes(pattern: Seq<char>, path: Seq<char>, title: Seq<char>) -> bool {
    parsed(pattern).vetoes() && parsed(pattern).admits(path, title, true)
}

/// Whether a pattern admits a window.
pub open spec fn includes(pattern: Seq<char>, path: Seq<char>, title: Seq<char>) -> bool {
    !parsed(pattern).vetoes() && parsed(pattern).admits(path, title, false)
}

/// Whether some pattern vetoes a window.
pub open spec fn any_excludes(patterns: Seq<Seq<char>>, path: Seq<char>, title: Seq<char>) -> bool {
    exists|i: int| 0 <= i < patterns.len() && excludes(#[trigger] patterns[i], path, title)
}

/// Whether some pattern admits a window.
pub open spec fn any_includes(patterns: Seq<Seq<char>>, path: Seq<char>, title: Seq<char>) -> bool {
    exists|i: int| 0 <= i < patterns.len() && includes(#[trigger] patterns[i], path, title)
}

/// Whether a pattern is the first that admits a window.
pub open spec fn first_including(
    patterns: Seq<Seq<char>>,
    path: Seq<char>,
    title: Seq<char>,
    i: int,
) -> bool {
    &&& 0 <= i < patterns.len()
    &&& includes(patterns[i], path, title)
    &&& forall|k: int| 0 <= k < i ==> !includes(#[trigger] patterns[k], path, title)
}

/// The mode under which a window is captured, if it is.
pub open spec fn capture_mode(
    patterns: Seq<Seq<char>>,
    path: Seq<char>,
    title: Seq<char>,
) -> Option<Option<Seq<char>>> {
    if any_excludes(patterns, path, title) || !any_includes(patterns, path, title) {
        None
    } else {
        Some(parsed(patterns[choose|i: int| first_including(patterns, path, title, i)]).mode)
    }
}

proof fn lemma_first_is_unique(patterns: Seq<Seq<char>>, path: Seq<char>, title: Seq<char>, i: int)
    requires
        first_including(patterns, path, title, i),
    ensures
        i == (choose|k: int| first_including(patterns, path, title, k)),
{
    let k = choose|k: int| first_including(patterns, path, title, k);
    assert(first_including(patterns, path, title, k));
    if k < i {
        assert(!includes(patterns[k], path, title));
    }
    if i < k {
        assert(!includes(patterns[i], path, title));
    }
}

fn is_veto(pattern: &ParsedPattern) -> (veto: bool)
    ensures
        veto == pattern@.vetoes(),
{
    match &pattern.mode {
        Some(mode) => text::same_text(mode.as_str(), "exclude"),
        None => false,
    }
}

/// Determine whether a window should be captured based on the active preset.
///
/// Returns `None` if the window should not be captured: no pattern admits it, or some pattern
/// vetoes it wherever it stands. The mode is that of the first admitting pattern.
pub fn should_capture(patterns: &[String], executable_path: &str, title: &str) -> (result: Option<
    CaptureMatch,
>)
    ensures
        match result {
            Some(found) => capture_mode(text::texts(patterns@), executable_path@, title@) == Some(
                optional_string(found.mode),
            ),
            None => capture_mode(text::texts(patterns@), executable_path@, title@) is None,
        },
{
    let ghost all = text::texts(patterns@);
    let ghost mut first: int = 0;
    let mut result: Option<CaptureMatch> = None;
    let mut i: usize = 0;
    while i < patterns.len()
        invariant
            i <= patterns@.len(),
            all == text::texts(patterns@),
            forall|k: int|
                0 <= k < i ==> !excludes(#[trigger] all[k], executable_path@, title@),
            match result {
                Some(found) => first < i && first_including(
                    all,
                    executable_path@,
                    title@,
                    first,
                ) && optional_string(found.mode) == parsed(all[first]).mode,
                None => forall|k: int|
                    0 <= k < i ==> !includes(#[trigger] all[k], executable_path@, title@),
            },
        decreases patterns@.len() - i,
    {
        assert(all[i as int] == patterns@[i as int]@);
        let pattern = parse_pattern(patterns[i].as_str());
        if is_veto(&pattern) {
            if matches_parsed(&pattern, executable_path, title, true) {
                assert(excludes(all[i as int], executable_path@, title@));
                return None;
            }
        } else if result.is_none() && matches_parsed(&pattern, executable_path, title, false) {
            proof {
                first = i as int;
            }
            result = Some(CaptureMatch { mode: pattern.mode });
        }
        i = i + 1;
    }
    proof {
        if result is Some {
            assert(includes(all[first], executable_path@, title@));
            lemma_first_is_unique(all, executable_path@, title@, first);
        }
    }
    result
}

/// A title part is found without regard to the case of the title, where the title is ASCII.
pub proof fn law_title_case_does_not_matter(
    pattern: PatternModel,
    executable: Seq<char>,
    title: Seq<char>,
    case_insensitive: bool,
)
    requires
        text::is_ascii(title),
    ensures
        pattern.admits(executable, title, case_insensitive) == pattern.admits(
            executable,
            text::ascii_lowercase(title),
            case_insensitive,
        ),
{
    text::lemma_ascii_lowercase_again(title);
}

/// A veto holds wherever it stands among the patterns, and so does an admission: the decision
/// is the same in every order.
pub proof fn law_pattern_order_decides_only_the_mode(
    patterns: Seq<Seq<char>>,
    reordered: Seq<Seq<char>>,
    path: Seq<char>,
    title: Seq<char>,
)
    requires
        patterns.to_multiset() == reordered.to_multiset(),
    ensures
        any_excludes(patterns, path, title) == any_excludes(reordered, path, title),
        any_includes(patterns, path, title) == any_includes(reordered, path, title),
{
    patterns.to_multiset_ensures();
    reordered.to_multiset_ensures();
    assert forall|p: Seq<char>| patterns.contains(p) == #[trigger] reordered.contains(p) by {
        assert(patterns.contains(p) <==> patterns.to_multiset().count(p) > 0);
        assert(reordered.contains(p) <==> reordered.to_multiset().count(p) > 0);
    }
    if any_excludes(patterns, path, title) {
        let i = choose|i: int|
            0 <= i < patterns.len() && excludes(#[trigger] patterns[i], path, title);
        assert(reordered.contains(patterns[i]));
    }
    if any_excludes(reordered, path, title) {
        let i = choose|i: int|
            0 <= i < reordered.len() && excludes(#[trigger] reordered[i], path, title);
        assert(reordered.contains(reordered[i]));
        assert(patterns.contains(reordered[i]));
    }
    if any_includes(patterns, path, title) {
        let i = choose|i: int|
            0 <= i < patterns.len() && includes(#[trigger] patterns[i], path, title);
        assert(reordered.contains(patterns[i]));
    }
    if any_includes(reordered, path, title) {
        let i = choose|i: int|
            0 <= i < reordered.len() && includes(#[trigger] reordered[i], path, title);
        assert(reordered.contains(reordered[i]));
        assert(patterns.contains(reordered[i]));
    }
}

/// A pattern with a mode, an executable part and a title part is taken apart into these, whatever
/// they are, as long as the mode holds no space and the executable part no at sign.
pub proof fn law_patterns_are_taken_apart(
    pattern: &str,
    result: ParsedPattern,
    mode: Seq<char>,
    exe_path: Seq<char>,
    title: Seq<char>,
)
    requires
        call_ensures(parse_pattern, (pattern,), result),
        pattern@ == seq!['@'] + mode + seq![' '] + exe_path + seq!['@'] + title,
        mode.len() > 0,
        !mode.contains(' '),
        !exe_path.contains('@'),
    ensures
        result.mode matches Some(found) && found@ == mode,
        result.exe_path@ == exe_path,
        result.title matches Some(found) && found@ == title,
{
    let whole = pattern@;
    let space = mode.len() + 1;
    assert forall|i: int| 0 <= i < space implies whole[i] != ' ' by {
        if i > 0 {
            assert(whole[i] == mode[i - 1]);
            assert(mode.contains(mode[i - 1]));
        }
    }
    assert(whole[space as int] == ' ');
    text::lemma_position(whole, ' ', space as int);
    let body = whole.skip(space as int + 1);
    assert(body =~= exe_path + seq!['@'] + title);
    assert forall|i: int| 0 <= i < exe_path.len() implies body[i] != '@' by {
        assert(exe_path.contains(exe_path[i]));
    }
    text::lemma_position(body, '@', exe_path.len() as int);
    assert(body_of(whole) == body);
    assert(whole.subrange(1, space as int) =~= mode);
    assert(body.take(exe_path.len() as int) =~= exe_path);
    assert(body.skip(exe_path.len() as int + 1) =~= title);
}

/// A pattern that does not begin with an at sign has no mode, and without any at sign it is all
/// executable part.
pub proof fn law_plain_patterns_have_no_mode(
    pattern: &str,
    result: ParsedPattern,
    exe_path: Seq<char>,
    title: Option<Seq<char>>,
)
    requires
        call_ensures(parse_pattern, (pattern,), result),
        pattern@ == match title {
            Some(title) => exe_path + seq!['@'] + title,
            None => exe_path,
        },
        exe_path.len() > 0 || title is None,
        !exe_path.contains('@'),
    ensures
        result.mode is None,
        result.exe_path@ == exe_path,
        match (result.title, title) {
            (Some(found), Some(title)) => found@ == title,
            (None, None) => true,
            _ => false,
        },
{
    let whole = pattern@;
    assert forall|i: int| 0 <= i < exe_path.len() implies whole[i] != '@' by {
        assert(exe_path.contains(exe_path[i]));
    }
    assert(!has_mode(whole));
    match title {
        Some(title) => {
            text::lemma_position(whole, '@', exe_path.len() as int);
            assert(whole.take(exe_path.len() as int) =~= exe_path);
            assert(whole.skip(exe_path.len() as int + 1) =~= title);
        },
        None => {
            text::lemma_position(whole, '@', whole.len() as int);
            assert(whole.take(exe_path.len() as int) =~= exe_path);
        },
    }
}

/// Whether a path and a title hold what a pattern asks for: slashes of either kind are alike, the
/// case of the path matters unless it is to be ignored, and that of the title never does. What a
/// pattern leaves out or empty is held by everything.
pub open spec fn asked_for(
    pattern: PatternModel,
    path: Seq<char>,
    title: Seq<char>,
    ignore_case: bool,
) -> bool {
    let slashed = text::replaced(path, '\\', '/');
    let wanted = text::replaced(pattern.exe_path, '\\', '/');
    &&& pattern.exe_path.len() != 0 ==> (if ignore_case {
        text::parts_around(text::lowercase(slashed), text::lowercase(wanted))
    } else {
        text::parts_around(slashed, wanted)
    })
    &&& pattern.title matches Some(part) ==> part.len() != 0 ==> text::parts_around(
        text::lowercase(title),
        text::lowercase(part),
    )
}

proof fn lemma_asked_for(
    pattern: PatternModel,
    path: Seq<char>,
    title: Seq<char>,
    ignore_case: bool,
)
    ensures
        pattern.admits(path, title, ignore_case) == asked_for(pattern, path, title, ignore_case),
{
    let slashed = text::replaced(path, '\\', '/');
    let wanted = text::replaced(pattern.exe_path, '\\', '/');
    text::law_parts_stand_between_others(text::lowercase(slashed), text::lowercase(wanted));
    text::law_parts_stand_between_others(slashed, wanted);
    if let Some(part) = pattern.title {
        text::law_parts_stand_between_others(text::lowercase(title), text::lowercase(part));
    }
}

/// A window fits a pattern exactly if its path and its title hold what the pattern asks for.
pub proof fn law_windows_fit_by_their_parts(
    parsed: &ParsedPattern,
    path: &str,
    title: &str,
    ignore_case: bool,
    matched: bool,
)
    requires
        call_ensures(matches_parsed, (parsed, path, title, ignore_case), matched),
    ensures
        matched == asked_for(
            PatternModel {
                mode: None,
                exe_path: parsed.exe_path@,
                title: match parsed.title {
                    Some(title) => Some(title@),
                    None => None,
                },
            },
            path@,
            title@,
            ignore_case,
        ),
{
    lemma_asked_for(parsed@, path@, title@, ignore_case);
}

/// A window is captured exactly if it fits some pattern that is no veto, and no veto fits it, the
/// case of its path aside. The mode is that of the first pattern that is no veto and fits, and
/// where a veto stands does not matter.
pub proof fn law_vetoes_prevent_and_others_admit(
    patterns: &[String],
    path: &str,
    title: &str,
    result: Option<CaptureMatch>,
)
    requires
        call_ensures(should_capture, (patterns, path, title), result),
    ensures
        result is Some <==> {
            &&& exists|i: int|
                0 <= i < patterns@.len() && parsed((#[trigger] patterns@[i])@).mode != Some(
                    "exclude"@,
                ) && asked_for(parsed(patterns@[i]@), path@, title@, false)
            &&& forall|i: int|
                0 <= i < patterns@.len() && parsed((#[trigger] patterns@[i])@).mode == Some(
                    "exclude"@,
                ) ==> !asked_for(parsed(patterns@[i]@), path@, title@, true)
        },
        result matches Some(found) ==> exists|i: int|
            {
                &&& 0 <= i < patterns@.len()
                &&& parsed((#[trigger] patterns@[i])@).mode != Some("exclude"@)
                &&& asked_for(parsed(patterns@[i]@), path@, title@, false)
                &&& optional_string(found.mode) == parsed(patterns@[i]@).mode
                &&& forall|k: int|
                    0 <= k < i && parsed((#[trigger] patterns@[k])@).mode != Some("exclude"@)
                        ==> !asked_for(parsed(patterns@[k]@), path@, title@, false)
            },
{
    let all = text::texts(patterns@);
    assert forall|k: int| 0 <= k < all.len() implies #[trigger] all[k] == patterns@[k]@ && includes(
        all[k],
        path@,
        title@,
    ) == (parsed(all[k]).mode != Some("exclude"@) && asked_for(
        parsed(all[k]),
        path@,
        title@,
        false,
    )) && excludes(all[k], path@, title@) == (parsed(all[k]).mode == Some("exclude"@) && asked_for(
        parsed(all[k]),
        path@,
        title@,
        true,
    )) by {
        lemma_asked_for(parsed(all[k]), path@, title@, false);
        lemma_asked_for(parsed(all[k]), path@, title@, true);
    }
    if any_excludes(all, path@, title@) {
        let i = choose|i: int| 0 <= i < all.len() && excludes(#[trigger] all[i], path@, title@);
        assert(asked_for(parsed(patterns@[i]@), path@, title@, true));
    }
    assert forall|i: int| 0 <= i < patterns@.len() && parsed((#[trigger] patterns@[i])@).mode == Some(
        "exclude"@,
    ) && asked_for(parsed(patterns@[i]@), path@, title@, true) implies any_excludes(
        all,
        path@,
        title@,
    ) by {
        assert(excludes(all[i], path@, title@));
    }
    assert forall|i: int| 0 <= i < patterns@.len() && parsed((#[trigger] patterns@[i])@).mode != Some(
        "exclude"@,
    ) && asked_for(parsed(patterns@[i]@), path@, title@, false) implies any_includes(
        all,
        path@,
        title@,
    ) by {
        assert(includes(all[i], path@, title@));
    }
    if any_includes(all, path@, title@) {
        let i = choose|i: int| 0 <= i < all.len() && includes(#[trigger] all[i], path@, title@);
        let first = lemma_some_pattern_is_first(all, path@, title@, i);
        lemma_first_is_unique(all, path@, title@, first);
        assert(asked_for(parsed(patterns@[first]@), path@, title@, false));
        assert forall|k: int| 0 <= k < first && parsed((#[trigger] patterns@[k])@).mode != Some(
            "exclude"@,
        ) implies !asked_for(parsed(patterns@[k]@), path@, title@, false) by {
            assert(!includes(all[k], path@, title@));
        }
    }
}

proof fn lemma_some_pattern_is_first(
    patterns: Seq<Seq<char>>,
    path: Seq<char>,
    title: Seq<char>,
    i: int,
) -> (first: int)
    requires
        0 <= i < patterns.len(),
        includes(patterns[i], path, title),
    ensures
        first_including(patterns, path, title, first),
    decreases i,
{
    if exists|k: int| 0 <= k < i && includes(#[trigger] patterns[k], path, title) {
        let k = choose|k: int| 0 <= k < i && includes(#[trigger] patterns[k], path, title);
        lemma_some_pattern_is_first(patterns, path, title, k)
    } else {
        i
    }
}

/// The active patterns are those under the name of the active preset.
pub proof fn law_active_patterns_are_found_by_name(
    config: PresetConfig,
    patterns: Option<&Vec<String>>,
)
    requires
        config.presets.well_formed(),
        call_ensures(PresetConfig::active_patterns, (&config,), patterns),
    ensures
        patterns is Some <==> exists|k: int|
            0 <= k < config.presets@.len() && (#[trigger] config.presets@[k]).0 == config.preset@,
        forall|k: int|
            0 <= k < config.presets@.len() && (#[trigger] config.presets@[k]).0 == config.preset@
                ==> text::texts(patterns->Some_0@) == text::texts(config.presets@[k].1),
{
    names::lemma_lookup(config.presets@, config.preset@);
}

} // verus!
