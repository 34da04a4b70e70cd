//! Deterministic target selection over platform-neutral window facts.
use vstd::prelude::*;
use crate::config::{self, IssueModel, RulesModel, SelectionConfig, SelectionModel,
    SelectionProfileConfig, ValidationIssue};
use crate::names::{self, NameMap, Order};
use crate::text;

verus! {

/// Process-local identity assigned by the platform observation boundary.
#[derive(Debug, Clone, Copy, PartialEq, Eq, PartialOrd, Ord, Hash, Structural)]
pub struct ObservationId(pub u64);

/// Platform-neutral rectangle describing an observed window.
#[derive(Debug, Clone, Copy, PartialEq, Eq, Structural)]
pub struct WindowBounds {
    /// Left edge in desktop coordinates.
    pub left: i32,
    /// Top edge in desktop coordinates.
    pub top: i32,
    /// Width in pixels.
    pub width: u32,
    /// Height in pixels.
    pub height: u32,
}

/// Facts observed by a platform host without retaining any native object.
#[derive(Debug, Clone, PartialEq, Eq)]
pub struct ObservedWindow {
    /// Process-local identity used for selection stickiness.
    pub id: ObservationId,
    /// Owning process identifier used only as a deterministic tie-breaker.
    pub process_id: u32,
    /// Executable file name available even when the full path cannot be read.
    pub executable_name: String,
    /// Full executable path when the platform permits observing it.
    pub executable_path: Option<String>,
    /// Current user-visible window title.
    pub title: String,
    /// Whether the platform currently reports the window as visible.
    pub visible: bool,
    /// Whether this is the platform's current foreground window.
    pub foreground: bool,
    /// Current desktop bounds used to reject zero-area observations.
    pub bounds: WindowBounds,
}

/// What one observation says.
pub struct WindowModel {
    pub id: u64,
    pub process_id: u32,
    pub executable: Seq<char>,
    pub title: Seq<char>,
    pub visible: bool,
    pub foreground: bool,
    pub bounds: WindowBounds,
}

impl View for ObservedWindow {
    type V = WindowModel;

    /// The executable is the full path where it is known, the file name otherwise.
    open spec fn view(&self) -> WindowModel {
        WindowModel {
            id: self.id.0,
            process_id: self.process_id,
            executable: match self.executable_path {
                Some(path) => path@,
                None => self.executable_name@,
            },
            title: self.title@,
            visible: self.visible,
            foreground: self.foreground,
            bounds: self.bounds,
        }
    }
}

/// What some observations say.
pub open spec fn window_models(windows: Seq<ObservedWindow>) -> Seq<WindowModel> {
    Seq::new(windows.len(), |i: int| windows[i]@)
}

impl ObservedWindow {
    /// Returns the strongest executable fact available for policy matching.
    fn executable_fact(&self) -> (fact: &str)
        ensures
            fact@ == self@.executable,
    {
        match &self.executable_path {
            Some(path) => path.as_str(),
            None => self.executable_name.as_str(),
        }
    }
}

/// A fact in the form in which rules are matched: forward slashes, lower case.
pub open spec fn normalized(value: Seq<char>) -> Seq<char> {
    text::lowercase(text::replaced(value, '\\', '/'))
}

/// Executable facts that differ only in the case of ASCII letters have one normal form.
pub proof fn law_case_is_normalized_away(path: Seq<char>)
    requires
        text::is_ascii(path),
    ensures
        normalized(text::ascii_lowercase(path)) == normalized(path),
{
    let slashes = text::replaced(path, '\\', '/');
    let other = text::ascii_lowercase(path);
    text::lemma_ascii_lowercase_again(path);
    assert forall|i: int| 0 <= i < slashes.len() implies #[trigger] slashes[i] as u32 <= 0x7F by {
        assert(path[i] as u32 <= 0x7F);
    }
    text::lemma_ascii_lowercase_again(slashes);
    assert(text::replaced(other, '\\', '/') =~= text::ascii_lowercase(slashes));
}

/// Normalizes executable facts for slash- and case-insensitive matching.
pub fn normalize(value: &str) -> (result: String)
    ensures
        result@ == normalized(value@),
{
    let slashes = text::replace_char(value, '\\', '/');
    text::to_lowercase(slashes.as_str())
}

/// One normalized profile retained in declared priority order.
#[derive(Debug, PartialEq, Eq)]
pub struct SelectionProfile {
    name: String,
    include_rules: Vec<String>,
}

/// Validated normalized selection policy.
#[derive(Debug, PartialEq, Eq)]
pub struct SelectorPolicy {
    prefer_foreground: bool,
    profiles: Vec<SelectionProfile>,
    exclude_rules: Vec<String>,
}

/// What one profile admits.
pub struct ProfileModel {
    pub name: Seq<char>,
    pub include_rules: Seq<Seq<char>>,
}

/// What a policy says.
pub struct PolicyModel {
    pub prefer_foreground: bool,
    pub profiles: Seq<ProfileModel>,
    pub exclude_rules: Seq<Seq<char>>,
}

impl View for SelectionProfile {
    type V = ProfileModel;

    closed spec fn view(&self) -> ProfileModel {
        ProfileModel { name: self.name@, include_rules: text::texts(self.include_rules@) }
    }
}

/// What some profiles admit.
pub open spec fn profile_models(profiles: Seq<SelectionProfile>) -> Seq<ProfileModel> {
    Seq::new(profiles.len(), |i: int| profiles[i]@)
}

impl View for SelectorPolicy {
    type V = PolicyModel;

    closed spec fn view(&self) -> PolicyModel {
        PolicyModel {
            prefer_foreground: self.prefer_foreground,
            profiles: profile_models(self.profiles@),
            exclude_rules: text::texts(self.exclude_rules@),
        }
    }
}

impl Clone for SelectionProfile {
    fn clone(&self) -> (copy: SelectionProfile)
        ensures
            copy@ == self@,
    {
        SelectionProfile {
            name: self.name.clone(),
            include_rules: text::clone_texts(&self.include_rules),
        }
    }
}

impl Clone for SelectorPolicy {
    fn clone(&self) -> (copy: SelectorPolicy)
        ensures
            copy@ == self@,
    {
        let mut profiles: Vec<SelectionProfile> = Vec::new();
        let mut i: usize = 0;
        while i < self.profiles.len()
            invariant
                i <= self.profiles@.len(),
                profile_models(profiles@) == profile_models(self.profiles@).take(i as int),
            decreases self.profiles@.len() - i,
        {
            let ghost before = profiles@;
            profiles.push(self.profiles[i].clone());
            i = i + 1;
            assert(profile_models(profiles@) =~= profile_models(before).push(
                profiles@[i - 1]@,
            ));
            assert(profile_models(profiles@) =~= profile_models(self.profiles@).take(i as int));
        }
        assert(profile_models(profiles@) =~= profile_models(self.profiles@));
        SelectorPolicy {
            prefer_foreground: self.prefer_foreground,
            profiles,
            exclude_rules: text::clone_texts(&self.exclude_rules),
        }
    }
}

/// Whether some rule stands in a normalized fact.
pub open spec fn any_rule_matches(rules: Seq<Seq<char>>, fact: Seq<char>) -> bool {
    exists|i: int| 0 <= i < rules.len() && text::has_part(fact, #[trigger] rules[i])
}

impl PolicyModel {
    /// Whether a profile admits an executable.
    pub open spec fn admits(self, profile: int, executable: Seq<char>) -> bool {
        any_rule_matches(self.profiles[profile].include_rules, normalized(executable))
    }

    /// Whether a profile is the first that admits an executable.
    pub open spec fn first_admitting(self, profile: int, executable: Seq<char>) -> bool {
        &&& 0 <= profile < self.profiles.len()
        &&& self.admits(profile, executable)
        &&& forall|k: int| 0 <= k < profile ==> !#[trigger] self.admits(k, executable)
    }

    /// The first profile that admits an executable.
    pub open spec fn profile_of(self, executable: Seq<char>) -> int {
        choose|profile: int| self.first_admitting(profile, executable)
    }

    /// Whether a window may be captured: visible, with an area, under no exclusion and admitted
    /// by some profile.
    pub open spec fn eligible(self, window: WindowModel) -> bool {
        &&& window.visible
        &&& window.bounds.width > 0
        &&& window.bounds.height > 0
        &&& !any_rule_matches(self.exclude_rules, normalized(window.executable))
        &&& exists|profile: int|
            0 <= profile < self.profiles.len() && self.admits(profile, window.executable)
    }

    /// What an eligible window is ranked by.
    pub open spec fn rank(self, window: WindowModel) -> RankModel {
        RankModel {
            profile: self.profile_of(window.executable),
            background: self.prefer_foreground && !window.foreground,
            executable: normalized(window.executable),
            title: normalized(window.title),
            process_id: window.process_id,
            id: window.id,
        }
    }

    /// Whether a window is a candidate: eligible and, where an identity is asked for, of it.
    pub open spec fn candidate(self, window: WindowModel, only: Option<u64>) -> bool {
        self.eligible(window) && (only matches Some(id) ==> window.id == id)
    }

    /// Whether the `i`th window is the first of the best-ranked candidates.
    pub open spec fn best(self, windows: Seq<WindowModel>, only: Option<u64>, i: int) -> bool {
        &&& 0 <= i < windows.len()
        &&& self.candidate(windows[i], only)
        &&& forall|j: int|
            0 <= j < windows.len() && self.candidate(#[trigger] windows[j], only) ==> !outranks(
                self.rank(windows[j]),
                self.rank(windows[i]),
            )
        &&& forall|j: int|
            0 <= j < i && self.candidate(#[trigger] windows[j], only) ==> outranks(
                self.rank(windows[i]),
                self.rank(windows[j]),
            )
    }

    /// Whether there is no candidate at all.
    pub open spec fn none(self, windows: Seq<WindowModel>, only: Option<u64>) -> bool {
        forall|j: int|
            0 <= j < windows.len() ==> !self.candidate(#[trigger] windows[j], only)
    }
}

/// What eligible windows are ranked by, most significant first.
pub struct RankModel {
    pub profile: int,
    pub background: bool,
    pub executable: Seq<char>,
    pub title: Seq<char>,
    pub process_id: u32,
    pub id: u64,
}

/// Whether one rank is strictly better than another.
pub open spec fn outranks(left: RankModel, right: RankModel) -> bool {
    if left.profile != right.profile {
        left.profile < right.profile
    } else if left.background != right.background {
        right.background
    } else if left.executable != right.executable {
        names::precedes(left.executable, right.executable)
    } else if left.title != right.title {
        names::precedes(left.title, right.title)
    } else if left.process_id != right.process_id {
        left.process_id < right.process_id
    } else {
        left.id < right.id
    }
}

/// Of two ranks one is strictly better unless they are the same, and never both are.
pub proof fn lemma_ranking_is_total(left: RankModel, right: RankModel)
    ensures
        outranks(left, right) || left == right || outranks(right, left),
        !(outranks(left, right) && outranks(right, left)),
{
    names::lemma_order_is_total(left.executable, right.executable);
    names::lemma_order_is_total(left.title, right.title);
}

pub proof fn lemma_ranking_is_transitive(first: RankModel, second: RankModel, third: RankModel)
    requires
        outranks(first, second),
        outranks(second, third),
    ensures
        outranks(first, third),
{
    if names::precedes(first.executable, second.executable) && names::precedes(
        second.executable,
        third.executable,
    ) {
        names::lemma_order_is_transitive(first.executable, second.executable, third.executable);
    }
    if names::precedes(first.title, second.title) && names::precedes(second.title, third.title) {
        names::lemma_order_is_transitive(first.title, second.title, third.title);
    }
    names::lemma_order_is_total(first.executable, third.executable);
    names::lemma_order_is_total(first.executable, second.executable);
    names::lemma_order_is_total(second.executable, third.executable);
    names::lemma_order_is_total(first.title, third.title);
    names::lemma_order_is_total(first.title, second.title);
    names::lemma_order_is_total(second.title, third.title);
}

/// A selected observation paired with the profile that admitted it.
#[derive(Debug, Clone, Copy, PartialEq, Eq)]
pub struct Selection<'a> {
    /// Exact observation the platform host should translate to a native target.
    pub window: &'a ObservedWindow,
    /// First matching profile in configured priority order.
    pub profile: &'a str,
}

impl<'a> Selection<'a> {
    /// Whether this is the best-ranked candidate of a snapshot under a policy.
    pub open spec fn is_best(
        self,
        policy: PolicyModel,
        windows: Seq<ObservedWindow>,
        only: Option<u64>,
    ) -> bool {
        exists|i: int|
            #[trigger] policy.best(window_models(windows), only, i) && *self.window == windows[i]
                && policy.first_admitting(
                policy.profile_of(windows[i]@.executable),
                windows[i]@.executable,
            ) && self.profile@ == policy.profiles[policy.profile_of(windows[i]@.executable)].name
    }
}

/// Transition chosen for one complete observation snapshot.
#[derive(Debug, Clone, Copy, PartialEq, Eq)]
pub enum SelectionDecision<'a> {
    /// Continue capturing the still-eligible current target.
    Keep(Selection<'a>),
    /// Replace an absent or ineligible target with this observation.
    Switch(Selection<'a>),
    /// No eligible target exists; the process remains alive and waiting.
    Wait,
}

/// One eligible observation with normalized facts used for total ordering.
struct Candidate<'a> {
    window: &'a ObservedWindow,
    profile_index: usize,
    normalized_executable: String,
    normalized_title: String,
}

pub(crate) fn rule_matches(rules: &Vec<String>, fact: &str) -> (found: bool)
    ensures
        found == any_rule_matches(text::texts(rules@), fact@),
{
    let mut i: usize = 0;
    while i < rules.len()
        invariant
            i <= rules@.len(),
            forall|k: int|
                0 <= k < i ==> !text::has_part(fact@, #[trigger] text::texts(rules@)[k]),
        decreases rules@.len() - i,
    {
        if text::contains_text(fact, rules[i].as_str()) {
            assert(text::has_part(fact@, text::texts(rules@)[i as int]));
            return true;
        }
        i = i + 1;
    }
    false
}

impl<'a> Candidate<'a> {
    /// The candidate stands for an eligible window under a policy.
    spec fn describes(&self, policy: PolicyModel) -> bool {
        &&& policy.eligible(self.window@)
        &&& policy.first_admitting(self.profile_index as int, self.window@.executable)
        &&& self.profile_index == policy.profile_of(self.window@.executable)
        &&& self.normalized_executable@ == normalized(self.window@.executable)
        &&& self.normalized_title@ == normalized(self.window@.title)
    }

    /// Filters and normalizes one observation.
    fn new(policy: &SelectorPolicy, window: &'a ObservedWindow) -> (result: Option<Candidate<'a>>)
        ensures
            match result {
                Some(candidate) => candidate.window == window && candidate.describes(policy@),
                None => !policy@.eligible(window@),
            },
    {
        if !window.visible || window.bounds.width == 0 || window.bounds.height == 0 {
            return None;
        }
        let normalized_executable = normalize(window.executable_fact());
        if rule_matches(&policy.exclude_rules, normalized_executable.as_str()) {
            return None;
        }
        let mut profile_index: usize = 0;
        while profile_index < policy.profiles.len()
            invariant
                profile_index <= policy.profiles@.len(),
                window.visible,
                window.bounds.width > 0,
                window.bounds.height > 0,
                normalized_executable@ == normalized(window@.executable),
                !any_rule_matches(policy@.exclude_rules, normalized(window@.executable)),
                forall|k: int|
                    0 <= k < profile_index ==> !#[trigger] policy@.admits(k, window@.executable),
            decreases policy.profiles@.len() - profile_index,
        {
            let matches = rule_matches(
                &policy.profiles[profile_index].include_rules,
                normalized_executable.as_str(),
            );
            assert(policy@.profiles[profile_index as int]
                == policy.profiles@[profile_index as int]@);
            assert(matches == policy@.admits(profile_index as int, window@.executable));
            if matches {
                assert(policy@.first_admitting(profile_index as int, window@.executable));
                proof {
                    lemma_first_admitting(policy@, profile_index as int, window@.executable);
                }
                return Some(
                    Candidate {
                        window,
                        profile_index,
                        normalized_executable,
                        normalized_title: normalize(window.title.as_str()),
                    },
                );
            }
            profile_index = profile_index + 1;
        }
        None
    }

    /// Converts the ranked candidate into the borrowed result.
    fn selection(&self, policy: &'a SelectorPolicy) -> (selection: Selection<'a>)
        requires
            self.describes(policy@),
        ensures
            selection.window == self.window,
            selection.profile@ == policy@.profiles[policy@.profile_of(
                self.window@.executable,
            )].name,
    {
        assert(policy@.profiles[self.profile_index as int]
            == policy.profiles@[self.profile_index as int]@);
        Selection {
            window: self.window,
            profile: policy.profiles[self.profile_index].name.as_str(),
        }
    }

    /// Whether this candidate is strictly better than another, by every ranking component in
    /// documented priority order.
    fn better_than(&self, other: &Candidate<'a>, prefer_foreground: bool, policy: &SelectorPolicy) -> (better:
        bool)
        requires
            prefer_foreground == policy@.prefer_foreground,
            self.describes(policy@),
            other.describes(policy@),
        ensures
            better == outranks(policy@.rank(self.window@), policy@.rank(other.window@)),
    {
        if self.profile_index != other.profile_index {
            return self.profile_index < other.profile_index;
        }
        let background = prefer_foreground && !self.window.foreground;
        let other_background = prefer_foreground && !other.window.foreground;
        if background != other_background {
            return other_background;
        }
        proof {
            names::lemma_order_is_total(self.normalized_executable@, other.normalized_executable@);
            names::lemma_order_is_total(self.normalized_title@, other.normalized_title@);
        }
        match names::compare_text(
            self.normalized_executable.as_str(),
            other.normalized_executable.as_str(),
        ) {
            Order::Before => {
                return true;
            },
            Order::Behind => {
                return false;
            },
            Order::Same => {},
        }
        match names::compare_text(self.normalized_title.as_str(), other.normalized_title.as_str()) {
            Order::Before => {
                return true;
            },
            Order::Behind => {
                return false;
            },
            Order::Same => {},
        }
        if self.window.process_id != other.window.process_id {
            return self.window.process_id < other.window.process_id;
        }
        self.window.id.0 < other.window.id.0
    }
}

proof fn lemma_first_admitting(policy: PolicyModel, profile: int, executable: Seq<char>)
    requires
        policy.first_admitting(profile, executable),
    ensures
        policy.profile_of(executable) == profile,
{
    let chosen = policy.profile_of(executable);
    assert(policy.first_admitting(chosen, executable));
    if chosen < profile {
        assert(policy.admits(chosen, executable));
    }
    if profile < chosen {
        assert(policy.admits(profile, executable));
    }
}

/// Finds the best-ranked candidate of a snapshot.
fn find_best<'a>(
    policy: &'a SelectorPolicy,
    observations: &'a [ObservedWindow],
    only: Option<ObservationId>,
) -> (result: Option<Selection<'a>>)
    ensures
        match result {
            Some(selection) => selection.is_best(
                policy@,
                observations@,
                match only {
                    Some(id) => Some(id.0),
                    None => None,
                },
            ),
            None => policy@.none(
                window_models(observations@),
                match only {
                    Some(id) => Some(id.0),
                    None => None,
                },
            ),
        },
{
    let ghost windows = window_models(observations@);
    let ghost wanted: Option<u64> = match only {
        Some(id) => Some(id.0),
        None => None,
    };
    let mut best: Option<Candidate<'a>> = None;
    let ghost mut best_at: int = -1;
    let mut i: usize = 0;
    while i < observations.len()
        invariant
            i <= observations@.len(),
            windows == window_models(observations@),
            wanted == (match only {
                Some(id) => Some(id.0),
                None => None,
            }),
            best matches Some(candidate) ==> {
                &&& 0 <= best_at < i
                &&& candidate.describes(policy@)
                &&& *candidate.window == observations@[best_at]
                &&& policy@.best(windows.take(i as int), wanted, best_at)
            },
            best is None ==> policy@.none(windows.take(i as int), wanted),
        decreases observations@.len() - i,
    {
        let window = &observations[i];
        let ghost before = windows.take(i as int);
        let ghost after = windows.take(i + 1);
        assert(after =~= before.push(window@));
        assert(forall|j: int| 0 <= j < i ==> after[j] == before[j]);
        let wanted_here = match only {
            Some(id) => window.id.0 == id.0,
            None => true,
        };
        let candidate = if wanted_here {
            Candidate::new(policy, window)
        } else {
            None
        };
        match candidate {
            None => {
                assert(!policy@.candidate(window@, wanted));
                proof {
                    assert forall|j: int|
                        0 <= j < after.len() && policy@.candidate(#[trigger] after[j], wanted) implies j
                        < i && before[j] == after[j] by {}
                    assert forall|j: int|
                        0 <= j < before.len() implies policy@.candidate(before[j], wanted)
                        == policy@.candidate(#[trigger] after[j], wanted) by {}
                    if best is Some {
                        assert(after[best_at] == before[best_at]);
                        assert(policy@.best(after, wanted, best_at));
                    }
                }
            },
            Some(candidate) => {
                assert(policy@.candidate(window@, wanted));
                let replaces = match &best {
                    None => true,
                    Some(current) => candidate.better_than(current, policy.prefer_foreground, policy),
                };
                proof {
                    let here = policy@.rank(window@);
                    if best is Some {
                        let current = policy@.rank(before[best_at]);
                        assert(after[best_at] == before[best_at]);
                        lemma_ranking_is_total(here, here);
                        if replaces {
                            assert forall|j: int|
                                0 <= j < after.len() && policy@.candidate(
                                    #[trigger] after[j],
                                    wanted,
                                ) implies !outranks(policy@.rank(after[j]), here) && (j < i
                                ==> outranks(here, policy@.rank(after[j]))) by {
                                if j < i {
                                    let other = policy@.rank(before[j]);
                                    assert(!outranks(other, current));
                                    lemma_ranking_is_total(other, current);
                                    if outranks(current, other) {
                                        lemma_ranking_is_transitive(here, current, other);
                                    }
                                    lemma_ranking_is_total(here, other);
                                }
                            }
                            assert(policy@.best(after, wanted, i as int));
                        } else {
                            assert forall|j: int|
                                0 <= j < after.len() && policy@.candidate(
                                    #[trigger] after[j],
                                    wanted,
                                ) implies !outranks(policy@.rank(after[j]), current) by {
                                if j < i {
                                    assert(!outranks(policy@.rank(before[j]), current));
                                }
                            }
                            assert forall|j: int|
                                0 <= j < best_at && policy@.candidate(
                                    #[trigger] after[j],
                                    wanted,
                                ) implies outranks(current, policy@.rank(after[j])) by {
                                assert(policy@.candidate(before[j], wanted));
                            }
                            assert(policy@.best(after, wanted, best_at));
                        }
                    } else {
                        lemma_ranking_is_total(here, here);
                        assert forall|j: int|
                            0 <= j < after.len() && policy@.candidate(
                                #[trigger] after[j],
                                wanted,
                            ) implies j == i by {
                            if j < i {
                                assert(!policy@.candidate(before[j], wanted));
                            }
                        }
                        assert(policy@.best(after, wanted, i as int));
                    }
                    if replaces {
                        best_at = i as int;
                    }
                }
                if replaces {
                    best = Some(candidate);
                }
            },
        }
        i = i + 1;
    }
    assert(windows.take(i as int) =~= windows);
    match best {
        None => None,
        Some(candidate) => {
            let selection = candidate.selection(policy);
            assert(policy@.best(windows, wanted, best_at));
            assert(selection.is_best(policy@, observations@, wanted));
            Some(selection)
        },
    }
}

/// Selects one deterministic target from an unordered observation snapshot.
///
/// A still-eligible current identity wins before ordinary ranking, preserving target stability
/// while focus changes. Otherwise profile order, configured foreground preference, normalized
/// facts, process ID, and observation ID form a total deterministic order.
pub fn select_window<'a>(
    policy: &'a SelectorPolicy,
    observations: &'a [ObservedWindow],
    current: Option<ObservationId>,
) -> (decision: SelectionDecision<'a>)
    ensures
        match decision {
            SelectionDecision::Keep(selection) => current is Some && selection.is_best(
                policy@,
                observations@,
                Some(current->Some_0.0),
            ),
            SelectionDecision::Switch(selection) => {
                &&& current matches Some(id) ==> policy@.none(
                    window_models(observations@),
                    Some(id.0),
                )
                &&& selection.is_best(policy@, observations@, None)
            },
            SelectionDecision::Wait => policy@.none(window_models(observations@), None),
        },
{
    if let Some(id) = current {
        if let Some(selection) = find_best(policy, observations, Some(id)) {
            return SelectionDecision::Keep(selection);
        }
    }
    match find_best(policy, observations, None) {
        Some(selection) => SelectionDecision::Switch(selection),
        None => SelectionDecision::Wait,
    }
}

/// No identity occurs twice in a snapshot.
pub open spec fn distinct_ids(windows: Seq<WindowModel>) -> bool {
    forall|i: int, j: int|
        0 <= i < j < windows.len() ==> (#[trigger] windows[i]).id != (#[trigger] windows[j]).id
}

/// The best candidate does not depend on the order in which windows are enumerated.
pub proof fn law_enumeration_order_is_ignored(
    policy: PolicyModel,
    forward: Seq<WindowModel>,
    reordered: Seq<WindowModel>,
    only: Option<u64>,
    i: int,
    j: int,
)
    requires
        distinct_ids(forward),
        forall|window: WindowModel| forward.contains(window) <==> reordered.contains(window),
        policy.best(forward, only, i),
        policy.best(reordered, only, j),
    ensures
        forward[i] == reordered[j],
{
    let left = forward[i];
    let right = reordered[j];
    assert(forward.contains(left));
    assert(reordered.contains(right));
    let k = choose|k: int| 0 <= k < reordered.len() && reordered[k] == left;
    assert(reordered.contains(left));
    let l = choose|l: int| 0 <= l < forward.len() && forward[l] == right;
    assert(forward.contains(right));
    assert(!outranks(policy.rank(reordered[k]), policy.rank(right)));
    assert(!outranks(policy.rank(forward[l]), policy.rank(left)));
    lemma_ranking_is_total(policy.rank(left), policy.rank(right));
    assert(forward[i].id == forward[l].id);
    if i != l {
        assert(false);
    }
}

/// A snapshot has at most one best candidate.
pub proof fn law_best_candidate_is_unique(
    policy: PolicyModel,
    windows: Seq<WindowModel>,
    only: Option<u64>,
    i: int,
    j: int,
)
    requires
        policy.best(windows, only, i),
        policy.best(windows, only, j),
    ensures
        i == j,
{
    if i < j {
        assert(policy.candidate(windows[i], only));
        assert(outranks(policy.rank(windows[j]), policy.rank(windows[i])));
    } else if j < i {
        assert(policy.candidate(windows[j], only));
        assert(outranks(policy.rank(windows[i]), policy.rank(windows[j])));
    }
}

/// Every text without the white space around it.
pub open spec fn trimmed_all(list: Seq<Seq<char>>) -> Seq<Seq<char>> {
    Seq::new(list.len(), |i: int| text::trimmed(list[i]))
}

/// Every text normalized.
pub open spec fn normalized_all(list: Seq<Seq<char>>) -> Seq<Seq<char>> {
    Seq::new(list.len(), |i: int| normalized(list[i]))
}

/// What is wrong with the `i`th of some authored rules: it is empty, or it repeats one before.
pub open spec fn rule_issue(path: Seq<char>, rules: Seq<Seq<char>>, i: int) -> Seq<IssueModel> {
    let forms = normalized_all(trimmed_all(rules));
    let place = text::indexed(path, i as nat);
    if forms[i].len() == 0 {
        seq![
            config::issue(
                place,
                "empty_selection_rule"@,
                "selection rules must not be empty"@,
            ),
        ]
    } else if exists|j: int| 0 <= j < i && #[trigger] forms[j] == forms[i] {
        seq![
            config::issue(
                place,
                "duplicate_selection_rule"@,
                "normalized rule "@ + text::quoted(forms[i]) + " is duplicated"@,
            ),
        ]
    } else {
        Seq::empty()
    }
}

/// What is wrong with the first `count` of some authored rules.
pub open spec fn rule_issues(path: Seq<char>, rules: Seq<Seq<char>>, count: int) -> Seq<IssueModel>
    decreases count,
{
    if count <= 0 {
        Seq::empty()
    } else {
        rule_issues(path, rules, count - 1) + rule_issue(path, rules, count - 1)
    }
}

/// Trims one rule list while reporting empty and duplicate entries.
fn canonicalize_rules(source: &mut Vec<String>, path: &str, issues: &mut Vec<ValidationIssue>)
    ensures
        text::texts(final(source)@) == trimmed_all(text::texts(old(source)@)),
        config::issue_models(final(issues)@) == config::issue_models(old(issues)@) + rule_issues(
            path@,
            text::texts(old(source)@),
            old(source)@.len() as int,
        ),
{
    let ghost rules = text::texts(source@);
    let ghost forms = normalized_all(trimmed_all(rules));
    let ghost reported = config::issue_models(issues@);
    let mut seen: Vec<String> = Vec::new();
    let mut i: usize = 0;
    assert(reported + rule_issues(path@, rules, 0) =~= reported);
    while i < source.len()
        invariant
            i <= source@.len(),
            source@.len() == rules.len(),
            forms == normalized_all(trimmed_all(rules)),
            seen@.len() == i,
            forall|k: int| 0 <= k < i ==> (#[trigger] source@[k])@ == text::trimmed(rules[k]),
            forall|k: int| i <= k < source@.len() ==> (#[trigger] source@[k])@ == rules[k],
            forall|k: int| 0 <= k < i ==> (#[trigger] text::texts(seen@)[k]) == forms[k],
            config::issue_models(issues@) == reported + rule_issues(path@, rules, i as int),
        decreases source@.len() - i,
    {
        let rule = text::trim(source[i].as_str());
        let form = normalize(rule.as_str());
        assert(form@ == forms[i as int]);
        source[i] = rule;
        let ghost so_far = config::issue_models(issues@);
        let place = text::format_indexed(path, i);
        if form.as_str().is_empty() {
            config::push_issue(
                issues,
                place.as_str(),
                "empty_selection_rule",
                "selection rules must not be empty",
            );
        } else if text::occurs_in(&seen, i, form.as_str()) {
            let message = text::join_quoted("normalized rule ", form.as_str(), " is duplicated");
            config::push_issue(
                issues,
                place.as_str(),
                "duplicate_selection_rule",
                message.as_str(),
            );
            proof {
                let j = choose|j: int| 0 <= j < i && #[trigger] text::texts(seen@)[j] == form@;
                assert(forms[j] == forms[i as int]);
            }
        } else {
            proof {
                assert forall|j: int| 0 <= j < i implies #[trigger] forms[j] != forms[i as int] by {
                    assert(text::texts(seen@)[j] == forms[j]);
                }
                assert(so_far + Seq::<IssueModel>::empty() =~= so_far);
            }
        }
        proof {
            assert(config::issue_models(issues@) =~= so_far + rule_issue(path@, rules, i as int));
            assert(reported + rule_issues(path@, rules, i + 1) =~= (reported + rule_issues(
                path@,
                rules,
                i as int,
            )) + rule_issue(path@, rules, i as int));
        }
        let ghost before = text::texts(seen@);
        seen.push(form);
        assert(text::texts(seen@) =~= before.push(form@));
        i = i + 1;
    }
    assert(text::texts(source@) =~= trimmed_all(rules));
}

/// The configuration path of an authored profile.
pub open spec fn profile_path(name: Seq<char>) -> Seq<char> {
    "selection.profiles["@ + text::quoted(name) + "]"@
}

/// A profile whose rules are trimmed.
pub open spec fn canonical_rules(rules: RulesModel) -> RulesModel {
    RulesModel { includes: trimmed_all(rules.includes), excludes: trimmed_all(rules.excludes) }
}

/// The catalog that the first `count` authored profiles make: trimmed names, the first profile
/// of each name, none without a name.
pub open spec fn catalog(profiles: Seq<(Seq<char>, RulesModel)>, count: int) -> Seq<
    (Seq<char>, RulesModel),
>
    decreases count,
{
    if count <= 0 {
        Seq::empty()
    } else {
        let known = catalog(profiles, count - 1);
        let name = text::trimmed(profiles[count - 1].0);
        if name.len() == 0 || names::lookup(known, name) is Some {
            known
        } else {
            names::with_entry(known, name, canonical_rules(profiles[count - 1].1))
        }
    }
}

/// What is wrong with the name of the `i`th authored profile.
pub open spec fn name_issue(profiles: Seq<(Seq<char>, RulesModel)>, i: int) -> Seq<IssueModel> {
    let name = text::trimmed(profiles[i].0);
    if name.len() == 0 {
        seq![
            config::issue(
                profile_path(profiles[i].0),
                "empty_profile_name"@,
                "profile name must not be empty"@,
            ),
        ]
    } else if names::lookup(catalog(profiles, i), name) is Some {
        seq![
            config::issue(
                profile_path(profiles[i].0),
                "duplicate_profile_name"@,
                "canonical profile name "@ + text::quoted(name) + " is duplicated"@,
            ),
        ]
    } else {
        Seq::empty()
    }
}

/// What is wrong with the first `count` authored profiles.
pub open spec fn profile_issues(profiles: Seq<(Seq<char>, RulesModel)>, count: int) -> Seq<
    IssueModel,
>
    decreases count,
{
    if count <= 0 {
        Seq::empty()
    } else {
        let (name, rules) = profiles[count - 1];
        let path = profile_path(name);
        profile_issues(profiles, count - 1) + rule_issues(
            path + ".include"@,
            rules.includes,
            rules.includes.len() as int,
        ) + rule_issues(path + ".exclude"@, rules.excludes, rules.excludes.len() as int)
            + name_issue(profiles, count - 1)
    }
}

/// Builds the catalog of authored profiles.
fn canonicalize_profiles(
    authored: NameMap<SelectionProfileConfig>,
    issues: &mut Vec<ValidationIssue>,
) -> (result: NameMap<SelectionProfileConfig>)
    ensures
        result@ == catalog(authored@, authored@.len() as int),
        config::issue_models(final(issues)@) == config::issue_models(old(issues)@)
            + profile_issues(authored@, authored@.len() as int),
{
    let ghost profiles = authored@;
    let ghost reported = config::issue_models(issues@);
    let mut entries = authored.into_entries();
    let mut result: NameMap<SelectionProfileConfig> = NameMap::new();
    let ghost total = profiles.len() as int;
    let ghost mut done: int = 0;
    assert(reported + profile_issues(profiles, 0) =~= reported);
    assert(names::entry_views(entries@) =~= profiles.skip(0));
    while entries.len() > 0
        invariant
            0 <= done <= total,
            total == profiles.len(),
            entries@.len() == total - done,
            names::entry_views(entries@) == profiles.skip(done),
            result@ == catalog(profiles, done),
            config::issue_models(issues@) == reported + profile_issues(profiles, done),
        ensures
            done == total,
            result@ == catalog(profiles, done),
            config::issue_models(issues@) == reported + profile_issues(profiles, done),
        decreases entries@.len(),
    {
        let ghost so_far = config::issue_models(issues@);
        let ghost views = names::entry_views(entries@);
        let (authored_name, mut profile) = entries.remove(0);
        proof {
            assert(views[0] == profiles[done]);
            let left = names::entry_views(entries@);
            assert forall|k: int| 0 <= k < left.len() implies left[k] == profiles.skip(done + 1)[k] by {
                assert(left[k] == views[k + 1]);
            }
            assert(left =~= profiles.skip(done + 1));
        }
        let name = text::trim(authored_name.as_str());
        let path = text::join_quoted("selection.profiles[", authored_name.as_str(), "]");
        let include_path = text::join(path.as_str(), ".include");
        canonicalize_rules(&mut profile.includes, include_path.as_str(), issues);
        let exclude_path = text::join(path.as_str(), ".exclude");
        canonicalize_rules(&mut profile.excludes, exclude_path.as_str(), issues);
        let ghost rules_reported = config::issue_models(issues@);
        assert(profile@ == canonical_rules(profiles[done].1));
        if name.as_str().is_empty() {
            config::push_issue(
                issues,
                path.as_str(),
                "empty_profile_name",
                "profile name must not be empty",
            );
        } else if result.contains(name.as_str()) {
            let message = text::join_quoted(
                "canonical profile name ",
                name.as_str(),
                " is duplicated",
            );
            config::push_issue(
                issues,
                path.as_str(),
                "duplicate_profile_name",
                message.as_str(),
            );
        } else {
            result.insert(name, profile);
            assert(rules_reported + Seq::<IssueModel>::empty() =~= rules_reported);
        }
        proof {
            assert(config::issue_models(issues@) =~= rules_reported + name_issue(profiles, done));
            assert(reported + profile_issues(profiles, done + 1) =~= config::issue_models(issues@));
            done = done + 1;
        }
    }
    result
}

impl SelectionModel {
    /// The enabled names, trimmed.
    pub open spec fn enabled_names(self) -> Seq<Seq<char>> {
        trimmed_all(self.enabled)
    }

    /// The catalog of all authored profiles.
    pub open spec fn definitions(self) -> Seq<(Seq<char>, RulesModel)> {
        catalog(self.profiles, self.profiles.len() as int)
    }

    /// Whether the `i`th enabled name repeats one before it.
    pub open spec fn repeats(self, i: int) -> bool {
        exists|j: int| 0 <= j < i && #[trigger] self.enabled_names()[j] == self.enabled_names()[i]
    }

    /// Whether the `i`th enabled name puts a profile into the policy.
    pub open spec fn active(self, i: int) -> bool {
        &&& self.enabled_names()[i].len() > 0
        &&& !self.repeats(i)
        &&& names::lookup(self.definitions(), self.enabled_names()[i]) is Some
    }

    /// The definition of the `i`th enabled name.
    pub open spec fn definition(self, i: int) -> RulesModel {
        names::lookup(self.definitions(), self.enabled_names()[i])->Some_0
    }

    /// What is wrong with the `i`th enabled name.
    pub open spec fn enabled_issue(self, i: int) -> Seq<IssueModel> {
        let name = self.enabled_names()[i];
        let place = text::indexed("selection.enabled"@, i as nat);
        if name.len() == 0 {
            seq![
                config::issue(
                    place,
                    "empty_enabled_profile"@,
                    "enabled profile name must not be empty"@,
                ),
            ]
        } else if self.repeats(i) {
            seq![
                config::issue(
                    place,
                    "duplicate_enabled_profile"@,
                    "profile "@ + text::quoted(name) + " is enabled more than once"@,
                ),
            ]
        } else if !self.active(i) {
            seq![
                config::issue(
                    place,
                    "unknown_enabled_profile"@,
                    "enabled profile "@ + text::quoted(name) + " is not defined"@,
                ),
            ]
        } else {
            Seq::empty()
        }
    }

    /// What is wrong with the first `count` enabled names.
    pub open spec fn enabled_issues(self, count: int) -> Seq<IssueModel>
        decreases count,
    {
        if count <= 0 {
            Seq::empty()
        } else {
            self.enabled_issues(count - 1) + self.enabled_issue(count - 1)
        }
    }

    /// The profiles that the first `count` enabled names put into the policy.
    pub open spec fn policy_profiles(self, count: int) -> Seq<ProfileModel>
        decreases count,
    {
        if count <= 0 {
            Seq::empty()
        } else if self.active(count - 1) {
            self.policy_profiles(count - 1).push(
                ProfileModel {
                    name: self.enabled_names()[count - 1],
                    include_rules: normalized_all(self.definition(count - 1).includes),
                },
            )
        } else {
            self.policy_profiles(count - 1)
        }
    }

    /// The include rules that the first `count` enabled names bring, with repetitions.
    pub open spec fn all_includes(self, count: int) -> Seq<Seq<char>>
        decreases count,
    {
        if count <= 0 {
            Seq::empty()
        } else if self.active(count - 1) {
            self.all_includes(count - 1) + normalized_all(self.definition(count - 1).includes)
        } else {
            self.all_includes(count - 1)
        }
    }

    /// The distinct exclusions that the first `count` enabled names bring.
    pub open spec fn exclude_rules(self, count: int) -> Seq<Seq<char>>
        decreases count,
    {
        if count <= 0 {
            Seq::empty()
        } else if self.active(count - 1) {
            let rules = normalized_all(self.definition(count - 1).excludes);
            extended(self.exclude_rules(count - 1), rules, rules.len() as int)
        } else {
            self.exclude_rules(count - 1)
        }
    }

    /// The policy of this configuration.
    pub open spec fn policy(self) -> PolicyModel {
        let count = self.enabled.len() as int;
        PolicyModel {
            prefer_foreground: self.prefer_foreground,
            profiles: self.policy_profiles(count),
            exclude_rules: self.exclude_rules(count),
        }
    }

    /// This configuration with trimmed names and rules.
    pub open spec fn canonical(self) -> SelectionModel {
        SelectionModel {
            prefer_foreground: self.prefer_foreground,
            enabled: self.enabled_names(),
            profiles: self.definitions(),
        }
    }

    /// Everything that is wrong with this configuration, in order.
    pub open spec fn issues(self) -> Seq<IssueModel> {
        let count = self.enabled.len() as int;
        let includes = self.all_includes(count);
        profile_issues(self.profiles, self.profiles.len() as int) + self.enabled_issues(count)
            + contradictions(includes, self.exclude_rules(count), includes.len() as int)
    }
}

/// A list extended by those of the first `count` rules that it does not hold yet.
pub open spec fn extended(list: Seq<Seq<char>>, rules: Seq<Seq<char>>, count: int) -> Seq<Seq<char>>
    decreases count,
{
    if count <= 0 {
        list
    } else {
        let longer = extended(list, rules, count - 1);
        if longer.contains(rules[count - 1]) {
            longer
        } else {
            longer.push(rules[count - 1])
        }
    }
}

/// The first `count` included rules that are also excluded.
pub open spec fn contradictions(
    includes: Seq<Seq<char>>,
    excludes: Seq<Seq<char>>,
    count: int,
) -> Seq<IssueModel>
    decreases count,
{
    if count <= 0 {
        Seq::empty()
    } else {
        contradictions(includes, excludes, count - 1) + if excludes.contains(includes[count - 1]) {
            seq![
                config::issue(
                    "selection.profiles"@,
                    "contradictory_rule"@,
                    "normalized rule "@ + text::quoted(includes[count - 1])
                        + " is both included and excluded"@,
                ),
            ]
        } else {
            Seq::empty()
        }
    }
}

pub(crate) fn list_contains(list: &Vec<String>, text: &str) -> (found: bool)
    ensures
        found == text::texts(list@).contains(text@),
{
    let found = text::occurs_in(list, list.len(), text);
    proof {
        if found {
            let i = choose|i: int| 0 <= i < list@.len() && #[trigger] text::texts(list@)[i] == text@;
            assert(text::texts(list@).contains(text@));
        } else if text::texts(list@).contains(text@) {
            let i = choose|i: int|
                0 <= i < text::texts(list@).len() && text::texts(list@)[i] == text@;
            assert(text::texts(list@)[i] == text@);
        }
    }
    found
}

fn normalize_all(rules: &Vec<String>) -> (result: Vec<String>)
    ensures
        text::texts(result@) == normalized_all(text::texts(rules@)),
{
    let mut result: Vec<String> = Vec::new();
    let mut i: usize = 0;
    while i < rules.len()
        invariant
            i <= rules@.len(),
            result@.len() == i,
            forall|k: int| 0 <= k < i ==> (#[trigger] result@[k])@ == normalized(rules@[k]@),
        decreases rules@.len() - i,
    {
        result.push(normalize(rules[i].as_str()));
        i = i + 1;
    }
    assert(text::texts(result@) =~= normalized_all(text::texts(rules@)));
    result
}

pub(crate) fn extend_distinct(list: &mut Vec<String>, rules: &Vec<String>)
    ensures
        text::texts(final(list)@) == extended(
            text::texts(old(list)@),
            text::texts(rules@),
            rules@.len() as int,
        ),
{
    let ghost before = text::texts(list@);
    let mut i: usize = 0;
    while i < rules.len()
        invariant
            i <= rules@.len(),
            text::texts(list@) == extended(before, text::texts(rules@), i as int),
        decreases rules@.len() - i,
    {
        if !list_contains(list, rules[i].as_str()) {
            let ghost shorter = text::texts(list@);
            list.push(rules[i].clone());
            assert(text::texts(list@) =~= shorter.push(rules@[i as int]@));
        }
        i = i + 1;
    }
}

pub(crate) fn append_texts(list: &mut Vec<String>, more: &Vec<String>)
    ensures
        text::texts(final(list)@) == text::texts(old(list)@) + text::texts(more@),
{
    let ghost before = text::texts(list@);
    let mut i: usize = 0;
    assert(before + text::texts(more@).take(0) =~= before);
    while i < more.len()
        invariant
            i <= more@.len(),
            text::texts(list@) == before + text::texts(more@).take(i as int),
        decreases more@.len() - i,
    {
        let ghost shorter = text::texts(list@);
        list.push(more[i].clone());
        assert(text::texts(list@) =~= shorter.push(more@[i as int]@));
        assert(before + text::texts(more@).take(i + 1) =~= shorter.push(more@[i as int]@));
        i = i + 1;
    }
    assert(text::texts(more@).take(i as int) =~= text::texts(more@));
}

/// Canonicalizes user-authored rules, reports everything that is wrong with them, and builds
/// the runtime policy.
pub fn validate_selection(
    config: &mut SelectionConfig,
    issues: &mut Vec<ValidationIssue>,
) -> (policy: SelectorPolicy)
    ensures
        policy@ == old(config)@.policy(),
        final(config)@ == old(config)@.canonical(),
        config::issue_models(final(issues)@) == config::issue_models(old(issues)@) + old(
            config,
        )@.issues(),
{
    let ghost model = config@;
    let ghost reported = config::issue_models(issues@);
    let mut authored: NameMap<SelectionProfileConfig> = NameMap::new();
    std::mem::swap(&mut config.profiles, &mut authored);
    config.profiles = canonicalize_profiles(authored, issues);
    let ghost after_profiles = config::issue_models(issues@);
    let mut profiles: Vec<SelectionProfile> = Vec::new();
    let mut exclude_rules: Vec<String> = Vec::new();
    let mut all_includes: Vec<String> = Vec::new();
    let mut i: usize = 0;
    proof {
        assert(after_profiles + model.enabled_issues(0) =~= after_profiles);
        assert(profile_models(profiles@) =~= model.policy_profiles(0));
        assert(text::texts(exclude_rules@) =~= model.exclude_rules(0));
        assert(text::texts(all_includes@) =~= model.all_includes(0));
    }
    while i < config.enabled.len()
        invariant
            i <= config.enabled@.len(),
            config.enabled@.len() == model.enabled.len(),
            config.prefer_foreground == model.prefer_foreground,
            config.profiles@ == model.definitions(),
            forall|k: int|
                0 <= k < i ==> (#[trigger] config.enabled@[k])@ == model.enabled_names()[k],
            forall|k: int|
                i <= k < config.enabled@.len() ==> (#[trigger] config.enabled@[k])@
                    == model.enabled[k],
            config::issue_models(issues@) == after_profiles + model.enabled_issues(i as int),
            profile_models(profiles@) == model.policy_profiles(i as int),
            text::texts(exclude_rules@) == model.exclude_rules(i as int),
            text::texts(all_includes@) == model.all_includes(i as int),
        decreases config.enabled@.len() - i,
    {
        let name = text::trim(config.enabled[i].as_str());
        assert(name@ == model.enabled_names()[i as int]);
        config.enabled[i] = name.clone();
        let ghost so_far = config::issue_models(issues@);
        let place = text::format_indexed("selection.enabled", i);
        let repeated = text::occurs_in(&config.enabled, i, name.as_str());
        proof {
            let written = text::texts(config.enabled@);
            assert(forall|k: int| 0 <= k < i ==> written[k] == #[trigger] model.enabled_names()[k]);
            if repeated {
                let k = choose|k: int| 0 <= k < i && #[trigger] written[k] == name@;
                assert(model.enabled_names()[k] == name@);
            }
            if model.repeats(i as int) {
                let k = choose|k: int|
                    0 <= k < i && #[trigger] model.enabled_names()[k] == model.enabled_names()[i as int];
                assert(written[k] == name@);
            }
            assert(repeated == model.repeats(i as int));
        }
        if name.as_str().is_empty() {
            config::push_issue(
                issues,
                place.as_str(),
                "empty_enabled_profile",
                "enabled profile name must not be empty",
            );
        } else if repeated {
            let message = text::join_quoted("profile ", name.as_str(), " is enabled more than once");
            config::push_issue(
                issues,
                place.as_str(),
                "duplicate_enabled_profile",
                message.as_str(),
            );
        } else {
            match config.profiles.get(name.as_str()) {
                None => {
                    let message = text::join_quoted(
                        "enabled profile ",
                        name.as_str(),
                        " is not defined",
                    );
                    config::push_issue(
                        issues,
                        place.as_str(),
                        "unknown_enabled_profile",
                        message.as_str(),
                    );
                },
                Some(profile) => {
                    let include_rules = normalize_all(&profile.includes);
                    let profile_excludes = normalize_all(&profile.excludes);
                    append_texts(&mut all_includes, &include_rules);
                    extend_distinct(&mut exclude_rules, &profile_excludes);
                    let ghost shorter = profile_models(profiles@);
                    let selected = SelectionProfile { name, include_rules };
                    profiles.push(selected);
                    assert(profile_models(profiles@) =~= shorter.push(selected@));
                    assert(so_far + Seq::<IssueModel>::empty() =~= so_far);
                },
            }
        }
        proof {
            assert(config::issue_models(issues@) =~= so_far + model.enabled_issue(i as int));
            assert(after_profiles + model.enabled_issues(i + 1) =~= config::issue_models(issues@));
        }
        i = i + 1;
    }
    let ghost after_enabled = config::issue_models(issues@);
    let ghost includes = text::texts(all_includes@);
    let ghost excludes = text::texts(exclude_rules@);
    let mut k: usize = 0;
    assert(after_enabled + contradictions(includes, excludes, 0) =~= after_enabled);
    while k < all_includes.len()
        invariant
            k <= all_includes@.len(),
            includes == text::texts(all_includes@),
            excludes == text::texts(exclude_rules@),
            config::issue_models(issues@) == after_enabled + contradictions(
                includes,
                excludes,
                k as int,
            ),
        decreases all_includes@.len() - k,
    {
        let ghost so_far = config::issue_models(issues@);
        if list_contains(&exclude_rules, all_includes[k].as_str()) {
            let message = text::join_quoted(
                "normalized rule ",
                all_includes[k].as_str(),
                " is both included and excluded",
            );
            config::push_issue(
                issues,
                "selection.profiles",
                "contradictory_rule",
                message.as_str(),
            );
        } else {
            assert(so_far + Seq::<IssueModel>::empty() =~= so_far);
        }
        assert(after_enabled + contradictions(includes, excludes, k + 1) =~= config::issue_models(
            issues@,
        ));
        k = k + 1;
    }
    proof {
        assert(text::texts(config.enabled@) =~= model.enabled_names());
        assert(config::issue_models(issues@) =~= reported + model.issues());
    }
    SelectorPolicy { prefer_foreground: config.prefer_foreground, profiles, exclude_rules }
}

proof fn lemma_no_rule_issues(path: Seq<char>, rules: Seq<Seq<char>>, count: int)
    ensures
        rule_issues(path, rules, count).len() == 0 <==> forall|i: int|
            0 <= i < count ==> (#[trigger] rule_issue(path, rules, i)).len() == 0,
    decreases count,
{
    if count > 0 {
        lemma_no_rule_issues(path, rules, count - 1);
        if rule_issues(path, rules, count).len() == 0 {
            assert forall|i: int| 0 <= i < count implies (#[trigger] rule_issue(
                path,
                rules,
                i,
            )).len() == 0 by {}
        }
    }
}

/// Trimmed rules are wrong in the same places as the rules they come from.
proof fn lemma_canonical_rules_are_clean(
    path: Seq<char>,
    other: Seq<char>,
    rules: Seq<Seq<char>>,
)
    requires
        rule_issues(path, rules, rules.len() as int).len() == 0,
    ensures
        rule_issues(other, trimmed_all(rules), rules.len() as int).len() == 0,
        trimmed_all(trimmed_all(rules)) == trimmed_all(rules),
{
    lemma_trimmed_all(rules);
    lemma_no_rule_issues(path, rules, rules.len() as int);
    lemma_no_rule_issues(other, trimmed_all(rules), rules.len() as int);
    assert forall|i: int| 0 <= i < rules.len() implies (#[trigger] rule_issue(
        other,
        trimmed_all(rules),
        i,
    )).len() == 0 by {
        assert(rule_issue(path, rules, i).len() == 0);
    }
}

proof fn lemma_trimmed_all(list: Seq<Seq<char>>)
    ensures
        trimmed_all(trimmed_all(list)) == trimmed_all(list),
{
    assert forall|i: int| 0 <= i < list.len() implies text::trimmed(text::trimmed(list[i]))
        == text::trimmed(list[i]) by {
        text::law_trimming_is_idempotent(list[i]);
    }
    assert(trimmed_all(trimmed_all(list)) =~= trimmed_all(list));
}

/// Where a catalog entry comes from.
spec fn stems_from(
    profiles: Seq<(Seq<char>, RulesModel)>,
    entry: (Seq<char>, RulesModel),
    i: int,
) -> bool {
    &&& 0 <= i < profiles.len()
    &&& entry == (text::trimmed(profiles[i].0), canonical_rules(profiles[i].1))
    &&& entry.0.len() > 0
}

spec fn sourced(profiles: Seq<(Seq<char>, RulesModel)>, entry: (Seq<char>, RulesModel)) -> bool {
    exists|i: int| stems_from(profiles, entry, i)
}

proof fn lemma_catalog(profiles: Seq<(Seq<char>, RulesModel)>, count: int)
    requires
        0 <= count <= profiles.len(),
    ensures
        names::ascending(catalog(profiles, count)),
        forall|k: int|
            0 <= k < catalog(profiles, count).len() ==> sourced(
                profiles,
                #[trigger] catalog(profiles, count)[k],
            ),
    decreases count,
{
    if count > 0 {
        lemma_catalog(profiles, count - 1);
        let known = catalog(profiles, count - 1);
        let all = catalog(profiles, count);
        let name = text::trimmed(profiles[count - 1].0);
        let rules = canonical_rules(profiles[count - 1].1);
        if name.len() > 0 && names::lookup(known, name) is None {
            names::lemma_with_entry_ascending(known, name, rules);
            names::lemma_rank(known, name);
            let at = names::rank(known, name);
            assert forall|k: int| 0 <= k < all.len() implies sourced(profiles, #[trigger] all[k]) by {
                if k == at {
                    assert(stems_from(profiles, all[k], count - 1));
                } else {
                    let from = if k < at {
                        k
                    } else {
                        k - 1
                    };
                    assert(all[k] == known[from]);
                }
            }
        } else {
            assert(all == known);
        }
    } else {
        assert(catalog(profiles, count).len() == 0);
    }
}

/// A catalog is its own catalog.
proof fn lemma_catalog_is_stable(profiles: Seq<(Seq<char>, RulesModel)>, count: int)
    requires
        0 <= count <= catalog(profiles, profiles.len() as int).len(),
    ensures
        ({
            let all = catalog(profiles, profiles.len() as int);
            catalog(all, count) == all.take(count)
        }),
    decreases count,
{
    let all = catalog(profiles, profiles.len() as int);
    lemma_catalog(profiles, profiles.len() as int);
    if count > 0 {
        lemma_catalog_is_stable(profiles, count - 1);
        let known = all.take(count - 1);
        let (name, rules) = all[count - 1];
        let entry = all[count - 1];
        assert(sourced(profiles, entry));
        let i = choose|i: int| stems_from(profiles, entry, i);
        text::law_trimming_is_idempotent(profiles[i].0);
        lemma_trimmed_all(profiles[i].1.includes);
        lemma_trimmed_all(profiles[i].1.excludes);
        assert(canonical_rules(rules) == rules);
        assert(names::ascending(known)) by {
            assert forall|a: int, b: int| 0 <= a < b < known.len() implies names::precedes(
                (#[trigger] known[a]).0,
                (#[trigger] known[b]).0,
            ) by {
                assert(known[a] == all[a]);
                assert(known[b] == all[b]);
            }
        }
        assert forall|a: int| 0 <= a < known.len() implies names::precedes(
            (#[trigger] known[a]).0,
            name,
        ) by {
            assert(known[a] == all[a]);
        }
        names::lemma_rank_unique(known, name, count - 1);
        assert(names::with_entry(known, name, rules) =~= all.take(count));
    } else {
        assert(all.take(0) =~= Seq::empty());
    }
}

proof fn lemma_clean_profiles(profiles: Seq<(Seq<char>, RulesModel)>, count: int, i: int)
    requires
        0 <= i < count <= profiles.len(),
        profile_issues(profiles, count).len() == 0,
    ensures
        rule_issues(
            profile_path(profiles[i].0) + ".include"@,
            profiles[i].1.includes,
            profiles[i].1.includes.len() as int,
        ).len() == 0,
        rule_issues(
            profile_path(profiles[i].0) + ".exclude"@,
            profiles[i].1.excludes,
            profiles[i].1.excludes.len() as int,
        ).len() == 0,
        name_issue(profiles, i).len() == 0,
    decreases count,
{
    if i < count - 1 {
        lemma_clean_profiles(profiles, count - 1, i);
    }
}

proof fn lemma_clean_catalog(profiles: Seq<(Seq<char>, RulesModel)>, count: int)
    requires
        profile_issues(profiles, profiles.len() as int).len() == 0,
        0 <= count <= catalog(profiles, profiles.len() as int).len(),
    ensures
        profile_issues(catalog(profiles, profiles.len() as int), count).len() == 0,
    decreases count,
{
    let all = catalog(profiles, profiles.len() as int);
    if count > 0 {
        lemma_clean_catalog(profiles, count - 1);
        lemma_catalog(profiles, profiles.len() as int);
        lemma_catalog_is_stable(profiles, count - 1);
        let (name, rules) = all[count - 1];
        let entry = all[count - 1];
        assert(sourced(profiles, entry));
        let i = choose|i: int| stems_from(profiles, entry, i);
        lemma_clean_profiles(profiles, profiles.len() as int, i);
        text::law_trimming_is_idempotent(profiles[i].0);
        let path = profile_path(name);
        lemma_canonical_rules_are_clean(
            profile_path(profiles[i].0) + ".include"@,
            path + ".include"@,
            profiles[i].1.includes,
        );
        lemma_canonical_rules_are_clean(
            profile_path(profiles[i].0) + ".exclude"@,
            path + ".exclude"@,
            profiles[i].1.excludes,
        );
        let known = all.take(count - 1);
        assert(names::lookup(known, name) is None) by {
            if names::lookup(known, name) is Some {
                let at = names::rank(known, name);
                assert(names::ascending(known)) by {
                    assert forall|a: int, b: int| 0 <= a < b < known.len() implies names::precedes(
                        (#[trigger] known[a]).0,
                        (#[trigger] known[b]).0,
                    ) by {
                        assert(known[a] == all[a]);
                        assert(known[b] == all[b]);
                    }
                }
                names::lemma_rank(known, name);
                assert(known[at] == all[at]);
                assert(names::precedes(all[at].0, all[count - 1].0));
                names::lemma_order_is_total(name, name);
            }
        }
    }
}

proof fn lemma_clean_enabled(model: SelectionModel, count: int)
    requires
        0 <= count <= model.enabled.len(),
        model.enabled_issues(count).len() == 0,
    ensures
        forall|i: int| 0 <= i < count ==> #[trigger] model.active(i),
        model.policy_profiles(count).len() == count,
        forall|i: int|
            0 <= i < count ==> (#[trigger] model.policy_profiles(count)[i]).name
                == model.enabled_names()[i],
    decreases count,
{
    if count > 0 {
        lemma_clean_enabled(model, count - 1);
        assert(model.active(count - 1));
    }
}

proof fn lemma_no_contradictions(
    includes: Seq<Seq<char>>,
    excludes: Seq<Seq<char>>,
    count: int,
    i: int,
)
    requires
        0 <= i < count <= includes.len(),
        contradictions(includes, excludes, count).len() == 0,
    ensures
        !excludes.contains(includes[i]),
    decreases count,
{
    if i < count - 1 {
        lemma_no_contradictions(includes, excludes, count - 1, i);
    }
}

/// A selection without issues enables only defined profiles, each once and in priority order,
/// and includes nothing that it also excludes.
pub proof fn law_accepted_selections_are_consistent(model: SelectionModel)
    requires
        model.issues().len() == 0,
    ensures
        model.policy().profiles.len() == model.enabled.len(),
        forall|i: int|
            0 <= i < model.enabled.len() ==> #[trigger] model.active(i)
                && model.policy().profiles[i].name == model.enabled_names()[i],
        forall|i: int|
            0 <= i < model.all_includes(model.enabled.len() as int).len()
                ==> !model.policy().exclude_rules.contains(
                #[trigger] model.all_includes(model.enabled.len() as int)[i],
            ),
{
    let count = model.enabled.len() as int;
    lemma_clean_enabled(model, count);
    assert forall|i: int| 0 <= i < count implies #[trigger] model.active(i)
        && model.policy().profiles[i].name == model.enabled_names()[i] by {
        assert(model.policy_profiles(count)[i].name == model.enabled_names()[i]);
    }
    let includes = model.all_includes(count);
    assert forall|i: int| 0 <= i < includes.len() implies !model.policy().exclude_rules.contains(
        #[trigger] includes[i],
    ) by {
        lemma_no_contradictions(includes, model.exclude_rules(count), includes.len() as int, i);
    }
}

proof fn lemma_same_enabled(model: SelectionModel, count: int)
    requires
        0 <= count <= model.enabled.len(),
        model.canonical().definitions() == model.definitions(),
        model.canonical().enabled_names() == model.enabled_names(),
    ensures
        model.canonical().enabled_issues(count) == model.enabled_issues(count),
        model.canonical().policy_profiles(count) == model.policy_profiles(count),
        model.canonical().all_includes(count) == model.all_includes(count),
        model.canonical().exclude_rules(count) == model.exclude_rules(count),
    decreases count,
{
    if count > 0 {
        lemma_same_enabled(model, count - 1);
        assert(model.canonical().repeats(count - 1) == model.repeats(count - 1));
        assert(model.canonical().active(count - 1) == model.active(count - 1));
    }
}

/// The canonical form of a selection stays as it is and makes the same policy, and that of an
/// accepted selection is accepted again.
pub proof fn law_canonical_selections_are_stable(model: SelectionModel)
    ensures
        model.canonical().canonical() == model.canonical(),
        model.canonical().policy() == model.policy(),
        model.issues().len() == 0 ==> model.canonical().issues().len() == 0,
{
    let all = model.definitions();
    lemma_catalog_is_stable(model.profiles, all.len() as int);
    assert(all.take(all.len() as int) =~= all);
    lemma_trimmed_all(model.enabled);
    lemma_same_enabled(model, model.enabled.len() as int);
    if model.issues().len() == 0 {
        lemma_clean_catalog(model.profiles, all.len() as int);
    }
}

/// The executable that a window is judged by: its path, or its name where no path is known.
pub open spec fn judged_by(window: ObservedWindow) -> Seq<char> {
    if window.executable_path is Some {
        window.executable_path->Some_0@
    } else {
        window.executable_name@
    }
}

/// Whether a rule stands somewhere in the normalized executable of a window.
pub open spec fn touches(rule: Seq<char>, window: ObservedWindow) -> bool {
    text::parts_around(normalized(judged_by(window)), rule)
}

proof fn lemma_touches(rules: Seq<Seq<char>>, window: ObservedWindow)
    ensures
        any_rule_matches(rules, normalized(window@.executable)) <==> exists|k: int|
            0 <= k < rules.len() && touches(#[trigger] rules[k], window),
{
    let fact = normalized(window@.executable);
    assert(judged_by(window) == window@.executable);
    assert forall|k: int| 0 <= k < rules.len() implies text::has_part(fact, #[trigger] rules[k])
        == touches(rules[k], window) by {
        text::law_parts_stand_between_others(fact, rules[k]);
    }
}

/// Normalizing an ASCII text turns backslashes into slashes and capital letters into small ones,
/// character by character, and changes nothing else.
pub proof fn law_normalizing_maps_each_character(value: &str, result: String, i: int)
    requires
        call_ensures(normalize, (value,), result),
        text::is_ascii(value@),
        0 <= i < value@.len(),
    ensures
        result@.len() == value@.len(),
        value@[i] == '\\' ==> result@[i] == '/',
        'A' <= value@[i] <= 'Z' ==> result@[i] as u32 == value@[i] as u32 + 32,
        value@[i] != '\\' && !('A' <= value@[i] <= 'Z') ==> result@[i] == value@[i],
{
    let slashes = text::replaced(value@, '\\', '/');
    assert forall|k: int| 0 <= k < slashes.len() implies #[trigger] slashes[k] as u32 <= 0x7F by {
        assert(value@[k] as u32 <= 0x7F);
    }
}

/// A window under an exclusion is neither kept nor switched to, and where every window is under
/// one nothing is captured.
pub proof fn law_excluded_windows_are_never_captured<'a>(
    policy: &'a SelectorPolicy,
    observations: &'a [ObservedWindow],
    current: Option<ObservationId>,
    decision: SelectionDecision<'a>,
)
    requires
        call_ensures(select_window, (policy, observations, current), decision),
    ensures
        decision matches SelectionDecision::Keep(selection) ==> forall|k: int|
            0 <= k < policy@.exclude_rules.len() ==> !touches(
                #[trigger] policy@.exclude_rules[k],
                *selection.window,
            ),
        decision matches SelectionDecision::Switch(selection) ==> forall|k: int|
            0 <= k < policy@.exclude_rules.len() ==> !touches(
                #[trigger] policy@.exclude_rules[k],
                *selection.window,
            ),
        (forall|i: int|
            0 <= i < observations@.len() ==> exists|k: int|
                0 <= k < policy@.exclude_rules.len() && touches(
                    #[trigger] policy@.exclude_rules[k],
                    #[trigger] observations@[i],
                )) ==> decision is Wait,
{
    let rules = policy@.exclude_rules;
    let windows = window_models(observations@);
    assert forall|i: int| 0 <= i < observations@.len() implies (#[trigger] windows[i]
        == observations@[i]@) by {}
    assert forall|i: int| 0 <= i < observations@.len() && policy@.eligible(
        #[trigger] windows[i],
    ) implies forall|k: int|
        0 <= k < rules.len() ==> !touches(#[trigger] rules[k], observations@[i]) by {
        lemma_touches(rules, observations@[i]);
    }
    match decision {
        SelectionDecision::Keep(selection) => {
            let only = Some(current->Some_0.0);
            assert(selection.is_best(policy@, observations@, only));
            let i = choose|i: int|
                #[trigger] policy@.best(windows, only, i) && *selection.window
                    == observations@[i];
            assert(policy@.eligible(windows[i]));
        },
        SelectionDecision::Switch(selection) => {
            let i = choose|i: int|
                #[trigger] policy@.best(windows, None, i) && *selection.window == observations@[i];
            assert(policy@.eligible(windows[i]));
        },
        SelectionDecision::Wait => {},
    }
}

/// Whether a window can be captured: it is shown, has an area, is under no exclusion, and some
/// rule of some profile stands in its executable.
pub open spec fn capturable(policy: PolicyModel, window: ObservedWindow) -> bool {
    &&& window.visible
    &&& window.bounds.width != 0
    &&& window.bounds.height != 0
    &&& forall|k: int|
        0 <= k < policy.exclude_rules.len() ==> !touches(#[trigger] policy.exclude_rules[k], window)
    &&& exists|p: int| 0 <= p < policy.profiles.len() && #[trigger] claims(policy, p, window)
}

/// Whether some rule of a profile stands in the executable of a window.
pub open spec fn claims(policy: PolicyModel, profile: int, window: ObservedWindow) -> bool {
    exists|r: int|
        0 <= r < policy.profiles[profile].include_rules.len() && touches(
            #[trigger] policy.profiles[profile].include_rules[r],
            window,
        )
}

/// Whether a profile claims a window and none before it does.
pub open spec fn claims_first(policy: PolicyModel, profile: int, window: ObservedWindow) -> bool {
    &&& 0 <= profile < policy.profiles.len()
    &&& claims(policy, profile, window)
    &&& forall|k: int| 0 <= k < profile ==> !#[trigger] claims(policy, k, window)
}

proof fn lemma_capturable(policy: PolicyModel, window: ObservedWindow)
    ensures
        policy.eligible(window@) <==> capturable(policy, window),
        forall|p: int|
            0 <= p < policy.profiles.len() ==> #[trigger] policy.admits(p, window@.executable)
                == claims(policy, p, window),
        forall|p: int|
            #[trigger] policy.first_admitting(p, window@.executable) <==> claims_first(
                policy,
                p,
                window,
            ),
{
    lemma_touches(policy.exclude_rules, window);
    assert forall|p: int| 0 <= p < policy.profiles.len() implies #[trigger] policy.admits(
        p,
        window@.executable,
    ) == claims(policy, p, window) by {
        lemma_touches(policy.profiles[p].include_rules, window);
    }
    assert forall|p: int| #[trigger] policy.first_admitting(p, window@.executable) <==> claims_first(
        policy,
        p,
        window,
    ) by {
        if policy.first_admitting(p, window@.executable) {
            assert forall|k: int| 0 <= k < p implies !#[trigger] claims(policy, k, window) by {
                assert(!policy.admits(k, window@.executable));
            }
        }
        if claims_first(policy, p, window) {
            assert forall|k: int| 0 <= k < p implies !#[trigger] policy.admits(
                k,
                window@.executable,
            ) by {
                assert(!claims(policy, k, window));
            }
        }
    }
    if policy.eligible(window@) {
        let p = choose|p: int|
            0 <= p < policy.profiles.len() && policy.admits(p, window@.executable);
        assert(claims(policy, p, window));
    }
    if capturable(policy, window) {
        let p = choose|p: int| 0 <= p < policy.profiles.len() && #[trigger] claims(policy, p, window);
        assert(policy.admits(p, window@.executable));
    }
}

proof fn lemma_some_profile_is_first(policy: PolicyModel, profile: int, window: ObservedWindow) -> (first:
    int)
    requires
        0 <= profile < policy.profiles.len(),
        claims(policy, profile, window),
    ensures
        claims_first(policy, first, window),
        first <= profile,
    decreases profile,
{
    if exists|k: int| 0 <= k < profile && #[trigger] claims(policy, k, window) {
        let k = choose|k: int| 0 <= k < profile && #[trigger] claims(policy, k, window);
        lemma_some_profile_is_first(policy, k, window)
    } else {
        profile
    }
}

proof fn lemma_profile_of(policy: PolicyModel, window: ObservedWindow)
    requires
        capturable(policy, window),
    ensures
        claims_first(policy, policy.profile_of(window@.executable), window),
{
    lemma_capturable(policy, window);
    let p = choose|p: int| 0 <= p < policy.profiles.len() && #[trigger] claims(policy, p, window);
    let first = lemma_some_profile_is_first(policy, p, window);
    assert(policy.first_admitting(first, window@.executable));
    lemma_first_admitting(policy, first, window@.executable);
}

/// Whether a selection is one of the observed windows, can be captured, and is named after the
/// first profile that claims it.
pub open spec fn rightly_chosen<'a>(
    policy: PolicyModel,
    observations: Seq<ObservedWindow>,
    selection: Selection<'a>,
) -> bool {
    &&& observations.contains(*selection.window)
    &&& capturable(policy, *selection.window)
    &&& exists|p: int|
        #[trigger] claims_first(policy, p, *selection.window) && selection.profile@
            == policy.profiles[p].name
}

/// What is captured is one of the observed windows and can be captured, under the first profile
/// that claims it. Nothing is captured only if no window can be.
pub proof fn law_captured_windows_are_claimed<'a>(
    policy: &'a SelectorPolicy,
    observations: &'a [ObservedWindow],
    current: Option<ObservationId>,
    decision: SelectionDecision<'a>,
)
    requires
        call_ensures(select_window, (policy, observations, current), decision),
    ensures
        match decision {
            SelectionDecision::Keep(selection) => rightly_chosen(policy@, observations@, selection),
            SelectionDecision::Switch(selection) => rightly_chosen(
                policy@,
                observations@,
                selection,
            ),
            SelectionDecision::Wait => forall|i: int|
                0 <= i < observations@.len() ==> !capturable(policy@, #[trigger] observations@[i]),
        },
{
    let windows = window_models(observations@);
    match decision {
        SelectionDecision::Keep(selection) => {
            let only = Some(current->Some_0.0);
            assert(selection.is_best(policy@, observations@, only));
            let i = choose|i: int|
                #[trigger] policy@.best(windows, only, i) && *selection.window
                    == observations@[i] && policy@.first_admitting(
                    policy@.profile_of(observations@[i]@.executable),
                    observations@[i]@.executable,
                ) && selection.profile@ == policy@.profiles[policy@.profile_of(
                    observations@[i]@.executable,
                )].name;
            assert(windows[i] == observations@[i]@);
            lemma_capturable(policy@, observations@[i]);
            assert(claims_first(
                policy@,
                policy@.profile_of(observations@[i]@.executable),
                *selection.window,
            ));
            assert(observations@.contains(*selection.window));
            assert(capturable(policy@, *selection.window));
        },
        SelectionDecision::Switch(selection) => {
            let i = choose|i: int|
                #[trigger] policy@.best(windows, None, i) && *selection.window == observations@[i]
                    && policy@.first_admitting(
                    policy@.profile_of(observations@[i]@.executable),
                    observations@[i]@.executable,
                ) && selection.profile@ == policy@.profiles[policy@.profile_of(
                    observations@[i]@.executable,
                )].name;
            assert(windows[i] == observations@[i]@);
            lemma_capturable(policy@, observations@[i]);
            assert(claims_first(
                policy@,
                policy@.profile_of(observations@[i]@.executable),
                *selection.window,
            ));
        },
        SelectionDecision::Wait => {
            assert forall|i: int| 0 <= i < observations@.len() implies !capturable(
                policy@,
                #[trigger] observations@[i],
            ) by {
                lemma_capturable(policy@, observations@[i]);
                assert(!policy@.candidate(windows[i], None));
            }
        },
    }
}

/// The captured window is kept as long as a window of its identity can be captured, and no other
/// window is ever kept.
pub proof fn law_current_windows_are_kept<'a>(
    policy: &'a SelectorPolicy,
    observations: &'a [ObservedWindow],
    current: Option<ObservationId>,
    decision: SelectionDecision<'a>,
)
    requires
        call_ensures(select_window, (policy, observations, current), decision),
    ensures
        decision is Keep <==> exists|i: int|
            0 <= i < observations@.len() && capturable(policy@, #[trigger] observations@[i])
                && current == Some(observations@[i].id),
        decision matches SelectionDecision::Keep(selection) ==> current == Some(
            selection.window.id,
        ),
{
    let windows = window_models(observations@);
    assert forall|i: int| 0 <= i < observations@.len() implies policy@.eligible(windows[i])
        == capturable(policy@, #[trigger] observations@[i]) by {
        lemma_capturable(policy@, observations@[i]);
    }
    if let SelectionDecision::Keep(selection) = decision {
        let only = Some(current->Some_0.0);
        assert(selection.is_best(policy@, observations@, only));
        let i = choose|i: int|
            #[trigger] policy@.best(windows, only, i) && *selection.window
                == observations@[i];
        assert(policy@.candidate(windows[i], Some(current->Some_0.0)));
        assert(capturable(policy@, observations@[i]));
    }
    if exists|i: int|
        0 <= i < observations@.len() && capturable(policy@, #[trigger] observations@[i]) && current
            == Some(observations@[i].id) {
        let i = choose|i: int|
            0 <= i < observations@.len() && capturable(policy@, #[trigger] observations@[i])
                && current == Some(observations@[i].id);
        assert(policy@.candidate(windows[i], Some(current->Some_0.0)));
    }
}

/// Among the windows that can be captured, a new one is of the earliest profile. Of that profile
/// it is the foreground window, where there is one and the foreground is preferred; and among
/// those alike in this its executable, its title, its process and its identity come first, in
/// this order.
pub proof fn law_switches_follow_the_ranking<'a>(
    policy: &'a SelectorPolicy,
    observations: &'a [ObservedWindow],
    current: Option<ObservationId>,
    selection: Selection<'a>,
    profile: int,
    i: int,
    other: int,
)
    requires
        call_ensures(
            select_window,
            (policy, observations, current),
            SelectionDecision::Switch(selection),
        ),
        claims_first(policy@, profile, *selection.window),
        0 <= i < observations@.len(),
        capturable(policy@, observations@[i]),
        claims_first(policy@, other, observations@[i]),
    ensures
        profile <= other,
        profile == other && policy@.prefer_foreground && observations@[i].foreground
            ==> selection.window.foreground,
        profile == other && (policy@.prefer_foreground ==> observations@[i].foreground
            == selection.window.foreground) ==> {
            let chosen = normalized(judged_by(*selection.window));
            let left = normalized(judged_by(observations@[i]));
            &&& !names::precedes(left, chosen)
            &&& left == chosen ==> !names::precedes(
                normalized(observations@[i].title@),
                normalized(selection.window.title@),
            )
            &&& left == chosen && normalized(observations@[i].title@) == normalized(
                selection.window.title@,
            ) ==> selection.window.process_id <= observations@[i].process_id && (
            selection.window.process_id == observations@[i].process_id ==> selection.window.id.0
                <= observations@[i].id.0)
        },
{
    let windows = window_models(observations@);
    let at = choose|at: int|
        #[trigger] policy@.best(windows, None, at) && *selection.window == observations@[at]
            && policy@.first_admitting(
            policy@.profile_of(observations@[at]@.executable),
            observations@[at]@.executable,
        );
    assert(policy@.best(windows, None, at));
    lemma_capturable(policy@, observations@[at]);
    lemma_capturable(policy@, observations@[i]);
    assert(policy@.first_admitting(profile, observations@[at]@.executable));
    assert(policy@.first_admitting(other, observations@[i]@.executable));
    lemma_first_admitting(policy@, profile, observations@[at]@.executable);
    lemma_first_admitting(policy@, other, observations@[i]@.executable);
    assert(policy@.candidate(windows[i], None));
    assert(!outranks(policy@.rank(windows[i]), policy@.rank(windows[at])));
    names::lemma_order_is_total(
        normalized(judged_by(*selection.window)),
        normalized(judged_by(observations@[i])),
    );
    names::lemma_order_is_total(
        normalized(selection.window.title@),
        normalized(observations@[i].title@),
    );
}

/// Extending a list by rules adds exactly these rules to what it holds.
pub proof fn lemma_extended(list: Seq<Seq<char>>, rules: Seq<Seq<char>>, count: int, rule: Seq<char>)
    requires
        0 <= count <= rules.len(),
    ensures
        extended(list, rules, count).contains(rule) <==> list.contains(rule) || exists|k: int|
            0 <= k < count && #[trigger] rules[k] == rule,
    decreases count,
{
    if count > 0 {
        lemma_extended(list, rules, count - 1, rule);
        let longer = extended(list, rules, count - 1);
        let last = rules[count - 1];
        let all = extended(list, rules, count);
        if !longer.contains(last) {
            assert(all == longer.push(last));
            assert(all[longer.len() as int] == last);
            if longer.contains(rule) {
                let k = choose|k: int| 0 <= k < longer.len() && longer[k] == rule;
                assert(all[k] == rule);
            }
            if all.contains(rule) && rule != last {
                let k = choose|k: int| 0 <= k < all.len() && all[k] == rule;
                assert(longer[k] == rule);
            }
        }
        if exists|k: int| 0 <= k < count && #[trigger] rules[k] == rule {
            let k = choose|k: int| 0 <= k < count && #[trigger] rules[k] == rule;
            if k < count - 1 {
                assert(rules[k] == rule);
            }
        }
    }
}

/// How an authored rule is matched: without the white space around it, and normalized.
pub open spec fn matched_form(rule: Seq<char>) -> Seq<char> {
    normalized(text::trimmed(rule))
}

/// Whether the `e`th enabled name is that of the `p`th authored profile, white space aside.
pub open spec fn enables(config: SelectionModel, e: int, p: int) -> bool {
    &&& 0 <= e < config.enabled.len()
    &&& 0 <= p < config.profiles.len()
    &&& text::trimmed(config.enabled[e]) == text::trimmed(config.profiles[p].0)
}

/// Whether some rule of a list has a form.
pub open spec fn lists(rules: Seq<Seq<char>>, form: Seq<char>) -> bool {
    exists|r: int| 0 <= r < rules.len() && matched_form(#[trigger] rules[r]) == form
}

proof fn lemma_normalized_lists(rules: Seq<Seq<char>>, form: Seq<char>)
    ensures
        normalized_all(trimmed_all(rules)).contains(form) <==> lists(rules, form),
{
    let forms = normalized_all(trimmed_all(rules));
    if forms.contains(form) {
        let k = choose|k: int| 0 <= k < forms.len() && forms[k] == form;
        assert(matched_form(rules[k]) == form);
    }
    if lists(rules, form) {
        let r = choose|r: int| 0 <= r < rules.len() && matched_form(#[trigger] rules[r]) == form;
        assert(forms[r] == form);
    }
}

proof fn lemma_clean_definition(profiles: Seq<(Seq<char>, RulesModel)>, count: int, p: int)
    requires
        0 <= p < count <= profiles.len(),
        profile_issues(profiles, count).len() == 0,
    ensures
        text::trimmed(profiles[p].0).len() > 0,
        names::lookup(catalog(profiles, count), text::trimmed(profiles[p].0)) == Some(
            canonical_rules(profiles[p].1),
        ),
    decreases count,
{
    let last = text::trimmed(profiles[count - 1].0);
    let name = text::trimmed(profiles[p].0);
    let known = catalog(profiles, count - 1);
    let (authored, rules) = profiles[count - 1];
    assert(name_issue(profiles, count - 1).len() == 0) by {
        lemma_clean_profiles(profiles, count, count - 1);
    }
    lemma_catalog(profiles, count - 1);
    names::law_reads_follow_writes(known, last, canonical_rules(rules), name);
    if p < count - 1 {
        lemma_clean_definition(profiles, count - 1, p);
    }
}

proof fn lemma_policy_profile(config: SelectionModel, count: int, e: int)
    requires
        0 <= e < count <= config.enabled.len(),
        config.enabled_issues(count).len() == 0,
    ensures
        config.policy_profiles(count).len() == count,
        config.policy_profiles(count)[e] == (ProfileModel {
            name: config.enabled_names()[e],
            include_rules: normalized_all(config.definition(e).includes),
        }),
    decreases count,
{
    lemma_clean_enabled(config, count);
    assert(config.active(count - 1));
    if e < count - 1 {
        lemma_policy_profile(config, count - 1, e);
    } else {
        lemma_clean_enabled(config, count - 1);
    }
}

proof fn lemma_policy_exclusions(config: SelectionModel, count: int, form: Seq<char>)
    requires
        0 <= count <= config.enabled.len(),
        config.enabled_issues(count).len() == 0,
    ensures
        config.exclude_rules(count).contains(form) <==> exists|e: int|
            0 <= e < count && #[trigger] normalized_all(config.definition(e).excludes).contains(
                form,
            ),
    decreases count,
{
    if count > 0 {
        lemma_clean_enabled(config, count);
        assert(config.active(count - 1));
        lemma_policy_exclusions(config, count - 1, form);
        let rules = normalized_all(config.definition(count - 1).excludes);
        lemma_extended(config.exclude_rules(count - 1), rules, rules.len() as int, form);
        if rules.contains(form) {
            let k = choose|k: int| 0 <= k < rules.len() && rules[k] == form;
            assert(rules[k] == form);
            assert(normalized_all(config.definition(count - 1).excludes).contains(form));
        }
        if exists|e: int|
            0 <= e < count && #[trigger] normalized_all(config.definition(e).excludes).contains(
                form,
            ) {
            let e = choose|e: int|
                0 <= e < count && #[trigger] normalized_all(config.definition(e).excludes).contains(
                    form,
                );
            if e == count - 1 {
                let k = choose|k: int| 0 <= k < rules.len() && rules[k] == form;
                assert(rules[k] == form);
            } else {
                assert(normalized_all(config.definition(e).excludes).contains(form));
            }
        }
    }
}

/// What an accepted selection configuration makes: one profile for each enabled name, in order,
/// with exactly the includes authored for it; and exactly the exclusions of all enabled profiles,
/// whatever their order.
pub proof fn law_policies_hold_the_authored_rules(
    config: &mut SelectionConfig,
    issues: &mut Vec<ValidationIssue>,
    policy: SelectorPolicy,
    form: Seq<char>,
)
    requires
        call_ensures(validate_selection, (config, issues), policy),
        final(issues)@.len() == old(issues)@.len(),
    ensures
        policy@.prefer_foreground == old(config).prefer_foreground,
        policy@.profiles.len() == old(config).enabled@.len(),
        forall|e: int|
            0 <= e < old(config).enabled@.len() ==> (#[trigger] policy@.profiles[e]).name
                == text::trimmed(old(config).enabled@[e]@) && exists|p: int|
                #[trigger] enables(old(config)@, e, p),
        forall|e: int, p: int|
            #[trigger] enables(old(config)@, e, p) ==> (policy@.profiles[e].include_rules.contains(
                form,
            ) <==> lists(old(config)@.profiles[p].1.includes, form)),
        policy@.exclude_rules.contains(form) <==> exists|e: int, p: int|
            #[trigger] enables(old(config)@, e, p) && lists(
                old(config)@.profiles[p].1.excludes,
                form,
            ),
{
    let model = old(config)@;
    let count = model.enabled.len() as int;
    let total = model.profiles.len() as int;
    assert(config::issue_models(final(issues)@).len() == config::issue_models(old(issues)@).len()
        + model.issues().len());
    assert(model.issues().len() == 0);
    assert(profile_issues(model.profiles, total).len() == 0);
    assert(model.enabled_issues(count).len() == 0);
    lemma_clean_enabled(model, count);
    lemma_catalog(model.profiles, total);
    assert forall|e: int, p: int| #[trigger] enables(model, e, p) implies model.definition(e)
        == canonical_rules(model.profiles[p].1) by {
        lemma_clean_definition(model.profiles, total, p);
        assert(model.enabled_names()[e] == text::trimmed(model.enabled[e]));
    }
    assert forall|e: int| 0 <= e < count implies (#[trigger] policy@.profiles[e]).name
        == text::trimmed(old(config).enabled@[e]@) && exists|p: int| #[trigger] enables(model, e, p) by {
        lemma_policy_profile(model, count, e);
        assert(model.enabled[e] == old(config).enabled@[e]@);
        assert(model.active(e));
        let all = model.definitions();
        let name = model.enabled_names()[e];
        names::lemma_lookup(all, name);
        let k = choose|k: int| 0 <= k < all.len() && (#[trigger] all[k]).0 == name;
        assert(sourced(model.profiles, all[k]));
        let p = choose|p: int| stems_from(model.profiles, all[k], p);
        assert(enables(model, e, p));
    }
    assert forall|e: int, p: int| #[trigger] enables(model, e, p) implies (
    policy@.profiles[e].include_rules.contains(form) <==> lists(
        model.profiles[p].1.includes,
        form,
    )) by {
        lemma_policy_profile(model, count, e);
        lemma_normalized_lists(model.profiles[p].1.includes, form);
    }
    lemma_policy_exclusions(model, count, form);
    if policy@.exclude_rules.contains(form) {
        let e = choose|e: int|
            0 <= e < count && #[trigger] normalized_all(model.definition(e).excludes).contains(form);
        assert(policy@.profiles[e].name == text::trimmed(old(config).enabled@[e]@));
        let p = choose|p: int| #[trigger] enables(model, e, p);
        lemma_normalized_lists(model.profiles[p].1.excludes, form);
    }
    if exists|e: int, p: int|
        #[trigger] enables(model, e, p) && lists(model.profiles[p].1.excludes, form) {
        let (e, p) = choose|e: int, p: int|
            #[trigger] enables(model, e, p) && lists(model.profiles[p].1.excludes, form);
        lemma_normalized_lists(model.profiles[p].1.excludes, form);
        assert(normalized_all(model.definition(e).excludes).contains(form));
    }
}

/// Whether no rule of a list is empty, and none is matched as another of them is.
pub open spec fn distinct_rules(rules: Seq<Seq<char>>) -> bool {
    &&& forall|i: int| 0 <= i < rules.len() ==> matched_form(#[trigger] rules[i]).len() > 0
    &&& forall|i: int, j: int|
        0 <= i < j < rules.len() ==> matched_form(#[trigger] rules[i]) != matched_form(
            #[trigger] rules[j],
        )
}

/// Whether the authored profiles have different names, none empty, and distinct rules.
pub open spec fn distinct_profiles(profiles: Seq<(Seq<char>, RulesModel)>, count: int) -> bool {
    &&& forall|p: int|
        0 <= p < count ==> text::trimmed((#[trigger] profiles[p]).0).len() > 0 && distinct_rules(
            profiles[p].1.includes,
        ) && distinct_rules(profiles[p].1.excludes)
    &&& forall|p: int, q: int|
        0 <= p < q < count ==> text::trimmed((#[trigger] profiles[p]).0) != text::trimmed(
            (#[trigger] profiles[q]).0,
        )
}

/// Whether every enabled name is that of an authored profile, and none is enabled twice.
pub open spec fn distinctly_enabled(config: SelectionModel) -> bool {
    &&& forall|e: int|
        0 <= e < config.enabled.len() ==> text::trimmed(#[trigger] config.enabled[e]).len() > 0
            && exists|p: int| enables(config, e, p)
    &&& forall|e: int, f: int|
        0 <= e < f < config.enabled.len() ==> text::trimmed(#[trigger] config.enabled[e])
            != text::trimmed(#[trigger] config.enabled[f])
}

/// A selection configuration is found faultless exactly if its profiles have different names and
/// distinct rules, every enabled name is that of a profile and stands once, and no rule that an
/// enabled profile includes is excluded by one.
pub proof fn law_sound_selections_are_accepted(
    config: &mut SelectionConfig,
    issues: &mut Vec<ValidationIssue>,
    policy: SelectorPolicy,
)
    requires
        call_ensures(validate_selection, (config, issues), policy),
    ensures
        final(issues)@.len() == old(issues)@.len() <==> {
            let model = old(config)@;
            &&& distinct_profiles(model.profiles, model.profiles.len() as int)
            &&& distinctly_enabled(model)
            &&& forall|e: int, p: int, f: int, q: int, form: Seq<char>|
                #[trigger] enables(model, e, p) && #[trigger] enables(model, f, q)
                    && #[trigger] lists(model.profiles[p].1.includes, form) ==> !lists(
                    model.profiles[q].1.excludes,
                    form,
                )
        },
{
    let model = old(config)@;
    let count = model.enabled.len() as int;
    let total = model.profiles.len() as int;
    assert(config::issue_models(final(issues)@).len() == config::issue_models(old(issues)@).len()
        + model.issues().len());
    lemma_profile_issues(model.profiles, total);
    if distinct_profiles(model.profiles, total) {
        lemma_enabled_issues(model);
        if distinctly_enabled(model) {
            lemma_contradictions(model);
        }
    }
}

proof fn lemma_rule_issues(path: Seq<char>, rules: Seq<Seq<char>>, count: int)
    requires
        0 <= count <= rules.len(),
    ensures
        rule_issues(path, rules, count).len() == 0 <==> distinct_rules(rules.take(count)),
    decreases count,
{
    let part = rules.take(count);
    if count > 0 {
        let before = rules.take(count - 1);
        let forms = normalized_all(trimmed_all(rules));
        lemma_rule_issues(path, rules, count - 1);
        assert(part.drop_last() =~= before);
        assert(forall|i: int| 0 <= i < count - 1 ==> part[i] == #[trigger] before[i]);
        assert(forall|i: int| 0 <= i < rules.len() ==> #[trigger] forms[i] == matched_form(rules[i]));
        if distinct_rules(part) {
            assert(part[count - 1] == rules[count - 1]);
            assert forall|i: int| 0 <= i < before.len() implies matched_form(
                #[trigger] before[i],
            ).len() > 0 by {
                assert(before[i] == part[i]);
            }
            assert forall|i: int, j: int| 0 <= i < j < before.len() implies matched_form(
                #[trigger] before[i],
            ) != matched_form(#[trigger] before[j]) by {
                assert(before[i] == part[i] && before[j] == part[j]);
            }
            assert forall|j: int| 0 <= j < count - 1 implies #[trigger] forms[j] != forms[count
                - 1] by {
                assert(part[j] == rules[j]);
            }
            assert(rule_issue(path, rules, count - 1).len() == 0);
        }
        if rule_issues(path, rules, count).len() == 0 {
            assert(distinct_rules(before));
            assert(rule_issue(path, rules, count - 1).len() == 0);
            assert forall|i: int| 0 <= i < part.len() implies matched_form(
                #[trigger] part[i],
            ).len() > 0 by {
                if i < count - 1 {
                    assert(before[i] == part[i]);
                }
            }
            assert forall|i: int, j: int| 0 <= i < j < part.len() implies matched_form(
                #[trigger] part[i],
            ) != matched_form(#[trigger] part[j]) by {
                if j < count - 1 {
                    assert(before[i] == part[i] && before[j] == part[j]);
                } else {
                    assert(forms[i] == matched_form(part[i]));
                    assert(forms[j] == matched_form(part[j]));
                }
            }
        }
    }
}

proof fn lemma_catalog_names(profiles: Seq<(Seq<char>, RulesModel)>, count: int, name: Seq<char>)
    requires
        0 <= count <= profiles.len(),
        names::lookup(catalog(profiles, count), name) is Some,
    ensures
        exists|p: int| 0 <= p < count && text::trimmed((#[trigger] profiles[p]).0) == name,
    decreases count,
{
    if count <= 0 {
        assert(catalog(profiles, count).len() == 0);
        names::lemma_lookup(catalog(profiles, count), name);
    } else {
        let known = catalog(profiles, count - 1);
        let last = text::trimmed(profiles[count - 1].0);
        lemma_catalog(profiles, count - 1);
        names::law_reads_follow_writes(known, last, canonical_rules(profiles[count - 1].1), name);
        if names::lookup(known, name) is Some {
            lemma_catalog_names(profiles, count - 1, name);
            let p = choose|p: int|
                0 <= p < count - 1 && text::trimmed((#[trigger] profiles[p]).0) == name;
            assert(text::trimmed(profiles[p].0) == name);
        } else {
            assert(text::trimmed(profiles[count - 1].0) == name);
        }
    }
}

proof fn lemma_profile_issues(profiles: Seq<(Seq<char>, RulesModel)>, count: int)
    requires
        0 <= count <= profiles.len(),
    ensures
        profile_issues(profiles, count).len() == 0 <==> distinct_profiles(profiles, count),
    decreases count,
{
    if count > 0 {
        lemma_profile_issues(profiles, count - 1);
        let (name, rules) = profiles[count - 1];
        let path = profile_path(name);
        let last = text::trimmed(name);
        lemma_rule_issues(path + ".include"@, rules.includes, rules.includes.len() as int);
        lemma_rule_issues(path + ".exclude"@, rules.excludes, rules.excludes.len() as int);
        assert(rules.includes.take(rules.includes.len() as int) =~= rules.includes);
        assert(rules.excludes.take(rules.excludes.len() as int) =~= rules.excludes);
        if distinct_profiles(profiles, count) {
            assert(distinct_profiles(profiles, count - 1));
            if names::lookup(catalog(profiles, count - 1), last) is Some {
                lemma_catalog_names(profiles, count - 1, last);
            }
            assert(name_issue(profiles, count - 1).len() == 0);
        }
        if profile_issues(profiles, count).len() == 0 {
            lemma_clean_profiles(profiles, count, count - 1);
            assert(distinct_profiles(profiles, count - 1));
            assert forall|p: int, q: int| 0 <= p < q < count implies text::trimmed(
                (#[trigger] profiles[p]).0,
            ) != text::trimmed((#[trigger] profiles[q]).0) by {
                if q == count - 1 {
                    lemma_clean_definition(profiles, count - 1, p);
                }
            }
        }
    }
}

proof fn lemma_enabled_issues(model: SelectionModel)
    requires
        distinct_profiles(model.profiles, model.profiles.len() as int),
    ensures
        model.enabled_issues(model.enabled.len() as int).len() == 0 <==> distinctly_enabled(model),
{
    let count = model.enabled.len() as int;
    let total = model.profiles.len() as int;
    let named = model.enabled_names();
    lemma_profile_issues(model.profiles, total);
    assert(forall|e: int| 0 <= e < count ==> #[trigger] named[e] == text::trimmed(model.enabled[e]));
    assert forall|e: int| 0 <= e < count implies (names::lookup(
        model.definitions(),
        #[trigger] named[e],
    ) is Some <==> exists|p: int| enables(model, e, p)) by {
        if names::lookup(model.definitions(), named[e]) is Some {
            lemma_catalog_names(model.profiles, total, named[e]);
            let p = choose|p: int|
                0 <= p < total && text::trimmed((#[trigger] model.profiles[p]).0) == named[e];
            assert(enables(model, e, p));
        }
        if exists|p: int| enables(model, e, p) {
            let p = choose|p: int| enables(model, e, p);
            lemma_clean_definition(model.profiles, total, p);
        }
    }
    if distinctly_enabled(model) {
        assert forall|e: int| 0 <= e < count implies #[trigger] model.active(e) by {
            assert(named[e] == text::trimmed(model.enabled[e]));
            assert forall|j: int| 0 <= j < e implies #[trigger] named[j] != named[e] by {
                assert(text::trimmed(model.enabled[j]) != text::trimmed(model.enabled[e]));
            }
        }
        lemma_active_names(model, count);
    }
    if model.enabled_issues(count).len() == 0 {
        lemma_clean_enabled(model, count);
        assert forall|e: int| 0 <= e < count implies text::trimmed(
            #[trigger] model.enabled[e],
        ).len() > 0 && exists|p: int| enables(model, e, p) by {
            assert(model.active(e));
            assert(named[e] == text::trimmed(model.enabled[e]));
        }
        assert forall|e: int, f: int| 0 <= e < f < count implies text::trimmed(
            #[trigger] model.enabled[e],
        ) != text::trimmed(#[trigger] model.enabled[f]) by {
            assert(model.active(f));
            assert(named[e] == text::trimmed(model.enabled[e]));
            assert(named[f] == text::trimmed(model.enabled[f]));
        }
    }
}

proof fn lemma_active_names(model: SelectionModel, count: int)
    requires
        0 <= count <= model.enabled.len(),
        forall|e: int| 0 <= e < count ==> #[trigger] model.active(e),
    ensures
        model.enabled_issues(count).len() == 0,
    decreases count,
{
    if count > 0 {
        lemma_active_names(model, count - 1);
        assert(model.active(count - 1));
    }
}

proof fn lemma_all_includes(model: SelectionModel, count: int, form: Seq<char>)
    requires
        0 <= count <= model.enabled.len(),
        model.enabled_issues(count).len() == 0,
    ensures
        model.all_includes(count).contains(form) <==> exists|e: int|
            0 <= e < count && #[trigger] normalized_all(model.definition(e).includes).contains(
                form,
            ),
    decreases count,
{
    if count > 0 {
        lemma_clean_enabled(model, count);
        assert(model.active(count - 1));
        lemma_all_includes(model, count - 1, form);
        let rules = normalized_all(model.definition(count - 1).includes);
        let before = model.all_includes(count - 1);
        let all = model.all_includes(count);
        assert(all == before + rules);
        if before.contains(form) {
            let k = choose|k: int| 0 <= k < before.len() && before[k] == form;
            assert(all[k] == form);
        }
        if rules.contains(form) {
            let k = choose|k: int| 0 <= k < rules.len() && rules[k] == form;
            assert(all[before.len() + k] == form);
        }
        if all.contains(form) {
            let k = choose|k: int| 0 <= k < all.len() && all[k] == form;
            if k < before.len() {
                assert(before[k] == form);
            } else {
                assert(rules[k - before.len()] == form);
                assert(normalized_all(model.definition(count - 1).includes).contains(form));
            }
        }
        if exists|e: int|
            0 <= e < count && #[trigger] normalized_all(model.definition(e).includes).contains(
                form,
            ) {
            let e = choose|e: int|
                0 <= e < count && #[trigger] normalized_all(model.definition(e).includes).contains(
                    form,
                );
            if e < count - 1 {
                assert(normalized_all(model.definition(e).includes).contains(form));
            }
        }
    }
}

proof fn lemma_consistent(includes: Seq<Seq<char>>, excludes: Seq<Seq<char>>, count: int)
    requires
        0 <= count <= includes.len(),
        forall|i: int| 0 <= i < count ==> !excludes.contains(#[trigger] includes[i]),
    ensures
        contradictions(includes, excludes, count).len() == 0,
    decreases count,
{
    if count > 0 {
        lemma_consistent(includes, excludes, count - 1);
    }
}

proof fn lemma_contradictions(model: SelectionModel)
    requires
        distinct_profiles(model.profiles, model.profiles.len() as int),
        distinctly_enabled(model),
    ensures
        ({
            let count = model.enabled.len() as int;
            let includes = model.all_includes(count);
            contradictions(includes, model.exclude_rules(count), includes.len() as int).len() == 0
                <==> forall|e: int, p: int, f: int, q: int, form: Seq<char>|
                #[trigger] enables(model, e, p) && #[trigger] enables(model, f, q)
                    && #[trigger] lists(model.profiles[p].1.includes, form) ==> !lists(
                    model.profiles[q].1.excludes,
                    form,
                )
        }),
{
    let count = model.enabled.len() as int;
    let total = model.profiles.len() as int;
    let includes = model.all_includes(count);
    let excludes = model.exclude_rules(count);
    lemma_profile_issues(model.profiles, total);
    lemma_enabled_issues(model);
    assert forall|e: int, p: int| #[trigger] enables(model, e, p) implies model.definition(e)
        == canonical_rules(model.profiles[p].1) by {
        lemma_clean_definition(model.profiles, total, p);
        assert(model.enabled_names()[e] == text::trimmed(model.enabled[e]));
    }
    if contradictions(includes, excludes, includes.len() as int).len() == 0 {
        assert forall|e: int, p: int, f: int, q: int, form: Seq<char>|
            #[trigger] enables(model, e, p) && #[trigger] enables(model, f, q) && #[trigger] lists(
                model.profiles[p].1.includes,
                form,
            ) implies !lists(model.profiles[q].1.excludes, form) by {
            lemma_normalized_lists(model.profiles[p].1.includes, form);
            lemma_normalized_lists(model.profiles[q].1.excludes, form);
            lemma_all_includes(model, count, form);
            lemma_policy_exclusions(model, count, form);
            assert(normalized_all(model.definition(e).includes).contains(form));
            let i = choose|i: int| 0 <= i < includes.len() && includes[i] == form;
            lemma_no_contradictions(includes, excludes, includes.len() as int, i);
            if lists(model.profiles[q].1.excludes, form) {
                assert(normalized_all(model.definition(f).excludes).contains(form));
            }
        }
    }
    if forall|e: int, p: int, f: int, q: int, form: Seq<char>|
        #[trigger] enables(model, e, p) && #[trigger] enables(model, f, q) && #[trigger] lists(
            model.profiles[p].1.includes,
            form,
        ) ==> !lists(model.profiles[q].1.excludes, form) {
        assert forall|i: int| 0 <= i < includes.len() implies !excludes.contains(
            #[trigger] includes[i],
        ) by {
            let form = includes[i];
            lemma_all_includes(model, count, form);
            lemma_policy_exclusions(model, count, form);
            assert(includes.contains(form));
            let e = choose|e: int|
                0 <= e < count && #[trigger] normalized_all(model.definition(e).includes).contains(
                    form,
                );
            assert(text::trimmed(model.enabled[e]).len() > 0);
            let p = choose|p: int| enables(model, e, p);
            assert(enables(model, e, p));
            lemma_normalized_lists(model.profiles[p].1.includes, form);
            if excludes.contains(form) {
                let f = choose|f: int|
                    0 <= f < count && #[trigger] normalized_all(
                        model.definition(f).excludes,
                    ).contains(form);
                assert(text::trimmed(model.enabled[f]).len() > 0);
                let q = choose|q: int| enables(model, f, q);
                assert(enables(model, f, q));
                lemma_normalized_lists(model.profiles[q].1.excludes, form);
            }
        }
        lemma_consistent(includes, excludes, includes.len() as int);
    }
}

/// The definitions of distinct profiles have exactly their trimmed names.
pub proof fn lemma_defined_names(model: SelectionModel, name: Seq<char>)
    requires
        distinct_profiles(model.profiles, model.profiles.len() as int),
    ensures
        names::lookup(model.definitions(), name) is Some <==> exists|p: int|
            0 <= p < model.profiles.len() && text::trimmed((#[trigger] model.profiles[p]).0)
                == name,
{
    let total = model.profiles.len() as int;
    lemma_profile_issues(model.profiles, total);
    if names::lookup(model.definitions(), name) is Some {
        lemma_catalog_names(model.profiles, total, name);
    }
    if exists|p: int|
        0 <= p < total && text::trimmed((#[trigger] model.profiles[p]).0) == name {
        let p = choose|p: int|
            0 <= p < total && text::trimmed((#[trigger] model.profiles[p]).0) == name;
        lemma_clean_definition(model.profiles, total, p);
    }
}

proof fn lemma_held(front: Seq<IssueModel>, back: Seq<IssueModel>, found: IssueModel)
    requires
        front.contains(found) || back.contains(found),
    ensures
        (front + back).contains(found),
{
    if front.contains(found) {
        let i = front.index_of(found);
        assert((front + back)[i] == found);
    } else {
        let i = back.index_of(found);
        assert((front + back)[front.len() + i] == found);
    }
}

proof fn lemma_rules_told(path: Seq<char>, rules: Seq<Seq<char>>, count: int, r: int)
    requires
        0 <= r < count,
        rule_issue(path, rules, r).len() > 0,
    ensures
        rule_issues(path, rules, count).contains(rule_issue(path, rules, r)[0]),
    decreases count,
{
    let last = rule_issue(path, rules, count - 1);
    if r < count - 1 {
        lemma_rules_told(path, rules, count - 1, r);
    } else {
        assert(last.contains(last[0]));
    }
    lemma_held(rule_issues(path, rules, count - 1), last, rule_issue(path, rules, r)[0]);
}

proof fn lemma_profiles_told(
    profiles: Seq<(Seq<char>, RulesModel)>,
    count: int,
    p: int,
    found: IssueModel,
)
    requires
        0 <= p < count,
        ({
            let (name, rules) = profiles[p];
            let path = profile_path(name);
            ||| rule_issues(
                path + ".include"@,
                rules.includes,
                rules.includes.len() as int,
            ).contains(found)
            ||| rule_issues(
                path + ".exclude"@,
                rules.excludes,
                rules.excludes.len() as int,
            ).contains(found)
            ||| name_issue(profiles, p).contains(found)
        }),
    ensures
        profile_issues(profiles, count).contains(found),
    decreases count,
{
    let (name, rules) = profiles[count - 1];
    let path = profile_path(name);
    let before = profile_issues(profiles, count - 1);
    let included = rule_issues(
        path + ".include"@,
        rules.includes,
        rules.includes.len() as int,
    );
    let excluded = rule_issues(
        path + ".exclude"@,
        rules.excludes,
        rules.excludes.len() as int,
    );
    let named = name_issue(profiles, count - 1);
    if p < count - 1 {
        lemma_profiles_told(profiles, count - 1, p, found);
    }
    if before.contains(found) || included.contains(found) {
        lemma_held(before, included, found);
    }
    if (before + included).contains(found) || excluded.contains(found) {
        lemma_held(before + included, excluded, found);
    }
    lemma_held(before + included + excluded, named, found);
}

proof fn lemma_names_told(model: SelectionModel, count: int, e: int)
    requires
        0 <= e < count,
        model.enabled_issue(e).len() > 0,
    ensures
        model.enabled_issues(count).contains(model.enabled_issue(e)[0]),
    decreases count,
{
    let last = model.enabled_issue(count - 1);
    if e < count - 1 {
        lemma_names_told(model, count - 1, e);
    } else {
        assert(last.contains(last[0]));
    }
    lemma_held(model.enabled_issues(count - 1), last, model.enabled_issue(e)[0]);
}

proof fn lemma_reported(
    issues: Seq<ValidationIssue>,
    before: Seq<IssueModel>,
    model: SelectionModel,
    found: IssueModel,
)
    requires
        config::issue_models(issues) == before + model.issues(),
        profile_issues(model.profiles, model.profiles.len() as int).contains(found)
            || model.enabled_issues(model.enabled.len() as int).contains(found),
    ensures
        config::reports(issues, found.path, found.code),
{
    let count = model.enabled.len() as int;
    let first = profile_issues(model.profiles, model.profiles.len() as int);
    let second = model.enabled_issues(count);
    let includes = model.all_includes(count);
    let third = contradictions(includes, model.exclude_rules(count), includes.len() as int);
    lemma_held(first, second, found);
    lemma_held(first + second, third, found);
    lemma_held(before, first + second + third, found);
    let i = config::issue_models(issues).index_of(found);
    assert(issues[i]@ == found);
}

/// An authored profile without a name, and each of its rules that is blank or matches what one
/// before it does, are reported by their path and code.
pub proof fn law_faulty_profiles_are_reported(
    selection: &mut SelectionConfig,
    issues: &mut Vec<ValidationIssue>,
    policy: SelectorPolicy,
    p: int,
    r: int,
)
    requires
        call_ensures(validate_selection, (selection, issues), policy),
        0 <= p < old(selection)@.profiles.len(),
    ensures
        ({
            let (name, rules) = old(selection)@.profiles[p];
            let path = "selection.profiles["@ + text::quoted(name) + "]"@;
            &&& text::trimmed(name).len() == 0 ==> config::reports(
                final(issues)@,
                path,
                "empty_profile_name"@,
            )
            &&& 0 <= r < rules.includes.len() && matched_form(rules.includes[r]).len() == 0
                ==> config::reports(
                final(issues)@,
                path + ".include"@ + "["@ + text::decimal(r as nat) + "]"@,
                "empty_selection_rule"@,
            )
            &&& 0 <= r < rules.excludes.len() && matched_form(rules.excludes[r]).len() == 0
                ==> config::reports(
                final(issues)@,
                path + ".exclude"@ + "["@ + text::decimal(r as nat) + "]"@,
                "empty_selection_rule"@,
            )
            &&& 0 <= r < rules.includes.len() && matched_form(rules.includes[r]).len() > 0 && (
            exists|q: int|
                0 <= q < r && matched_form(#[trigger] rules.includes[q]) == matched_form(
                    rules.includes[r],
                )) ==> config::reports(
                final(issues)@,
                path + ".include"@ + "["@ + text::decimal(r as nat) + "]"@,
                "duplicate_selection_rule"@,
            )
            &&& 0 <= r < rules.excludes.len() && matched_form(rules.excludes[r]).len() > 0 && (
            exists|q: int|
                0 <= q < r && matched_form(#[trigger] rules.excludes[q]) == matched_form(
                    rules.excludes[r],
                )) ==> config::reports(
                final(issues)@,
                path + ".exclude"@ + "["@ + text::decimal(r as nat) + "]"@,
                "duplicate_selection_rule"@,
            )
        }),
{
    let model = old(selection)@;
    let before = config::issue_models(old(issues)@);
    let total = model.profiles.len() as int;
    let (name, rules) = model.profiles[p];
    let path = profile_path(name);
    if text::trimmed(name).len() == 0 {
        let found = name_issue(model.profiles, p)[0];
        assert(name_issue(model.profiles, p).contains(found));
        lemma_profiles_told(model.profiles, total, p, found);
        lemma_reported(final(issues)@, before, model, found);
    }
    lemma_rule_faults(path + ".include"@, rules.includes, r);
    lemma_rule_faults(path + ".exclude"@, rules.excludes, r);
    if 0 <= r < rules.includes.len() {
        let found = rule_issue(path + ".include"@, rules.includes, r);
        if found.len() > 0 {
            lemma_rules_told(path + ".include"@, rules.includes, rules.includes.len() as int, r);
            lemma_profiles_told(model.profiles, total, p, found[0]);
            lemma_reported(final(issues)@, before, model, found[0]);
        }
    }
    if 0 <= r < rules.excludes.len() {
        let found = rule_issue(path + ".exclude"@, rules.excludes, r);
        if found.len() > 0 {
            lemma_rules_told(path + ".exclude"@, rules.excludes, rules.excludes.len() as int, r);
            lemma_profiles_told(model.profiles, total, p, found[0]);
            lemma_reported(final(issues)@, before, model, found[0]);
        }
    }
}

proof fn lemma_rule_faults(path: Seq<char>, rules: Seq<Seq<char>>, r: int)
    ensures
        0 <= r < rules.len() ==> {
            let found = rule_issue(path, rules, r);
            &&& matched_form(rules[r]).len() == 0 ==> found.len() == 1 && found[0].code
                == "empty_selection_rule"@
            &&& matched_form(rules[r]).len() > 0 && (exists|q: int|
                0 <= q < r && matched_form(#[trigger] rules[q]) == matched_form(rules[r]))
                ==> found.len() == 1 && found[0].code == "duplicate_selection_rule"@
            &&& found.len() > 0 ==> found[0].path == path + "["@ + text::decimal(r as nat) + "]"@
        },
{
    if 0 <= r < rules.len() {
        let forms = normalized_all(trimmed_all(rules));
        assert(forall|i: int| 0 <= i < rules.len() ==> #[trigger] forms[i] == matched_form(rules[i]));
        if exists|q: int|
            0 <= q < r && matched_form(#[trigger] rules[q]) == matched_form(rules[r]) {
            let q = choose|q: int|
                0 <= q < r && matched_form(#[trigger] rules[q]) == matched_form(rules[r]);
            assert(forms[q] == forms[r]);
        }
    }
}

proof fn lemma_known_names(profiles: Seq<(Seq<char>, RulesModel)>, count: int, q: int)
    requires
        0 <= q < count <= profiles.len(),
        text::trimmed(profiles[q].0).len() > 0,
    ensures
        names::lookup(catalog(profiles, count), text::trimmed(profiles[q].0)) is Some,
    decreases count,
{
    let name = text::trimmed(profiles[q].0);
    let known = catalog(profiles, count - 1);
    let last = text::trimmed(profiles[count - 1].0);
    lemma_catalog(profiles, count - 1);
    names::law_reads_follow_writes(known, last, canonical_rules(profiles[count - 1].1), name);
    if q < count - 1 {
        lemma_known_names(profiles, count - 1, q);
    }
}

/// A profile with the name of one before it is reported as a duplicate.
pub proof fn law_repeated_profiles_are_reported(
    selection: &mut SelectionConfig,
    issues: &mut Vec<ValidationIssue>,
    policy: SelectorPolicy,
    p: int,
    q: int,
)
    requires
        call_ensures(validate_selection, (selection, issues), policy),
        0 <= q < p < old(selection)@.profiles.len(),
        text::trimmed(old(selection)@.profiles[p].0).len() > 0,
        text::trimmed(old(selection)@.profiles[p].0) == text::trimmed(old(selection)@.profiles[q].0),
    ensures
        config::reports(
            final(issues)@,
            "selection.profiles["@ + text::quoted(old(selection)@.profiles[p].0) + "]"@,
            "duplicate_profile_name"@,
        ),
{
    let model = old(selection)@;
    let before = config::issue_models(old(issues)@);
    lemma_known_names(model.profiles, p, q);
    let found = name_issue(model.profiles, p)[0];
    assert(name_issue(model.profiles, p).contains(found));
    lemma_profiles_told(model.profiles, model.profiles.len() as int, p, found);
    lemma_reported(final(issues)@, before, model, found);
}

/// An enabled name that is blank, was enabled before, or is that of no authored profile is reported
/// by its place and code.
pub proof fn law_faulty_enabled_names_are_reported(
    selection: &mut SelectionConfig,
    issues: &mut Vec<ValidationIssue>,
    policy: SelectorPolicy,
    e: int,
)
    requires
        call_ensures(validate_selection, (selection, issues), policy),
        0 <= e < old(selection)@.enabled.len(),
    ensures
        ({
            let model = old(selection)@;
            let name = text::trimmed(model.enabled[e]);
            let place = "selection.enabled"@ + "["@ + text::decimal(e as nat) + "]"@;
            let repeated = exists|d: int|
                0 <= d < e && text::trimmed(#[trigger] model.enabled[d]) == name;
            &&& name.len() == 0 ==> config::reports(
                final(issues)@,
                place,
                "empty_enabled_profile"@,
            )
            &&& name.len() > 0 && repeated ==> config::reports(
                final(issues)@,
                place,
                "duplicate_enabled_profile"@,
            )
            &&& name.len() > 0 && !repeated && (forall|p: int|
                0 <= p < model.profiles.len() ==> text::trimmed((#[trigger] model.profiles[p]).0)
                    != name) ==> config::reports(
                final(issues)@,
                place,
                "unknown_enabled_profile"@,
            )
        }),
{
    let model = old(selection)@;
    let before = config::issue_models(old(issues)@);
    let total = model.profiles.len() as int;
    let named = model.enabled_names();
    let name = text::trimmed(model.enabled[e]);
    assert(forall|d: int|
        0 <= d < model.enabled.len() ==> #[trigger] named[d] == text::trimmed(model.enabled[d]));
    let found = model.enabled_issue(e);
    if exists|d: int| 0 <= d < e && text::trimmed(#[trigger] model.enabled[d]) == name {
        let d = choose|d: int| 0 <= d < e && text::trimmed(#[trigger] model.enabled[d]) == name;
        assert(named[d] == named[e]);
    }
    if names::lookup(model.definitions(), name) is Some {
        lemma_catalog_names(model.profiles, total, name);
    }
    if found.len() > 0 {
        lemma_names_told(model, model.enabled.len() as int, e);
        lemma_reported(final(issues)@, before, model, found[0]);
    }
}

/// Where authored profiles and enabled names are in order, what is reported is that a rule is both
/// included and excluded.
pub proof fn law_other_faults_are_contradictions(
    selection: &mut SelectionConfig,
    issues: &mut Vec<ValidationIssue>,
    policy: SelectorPolicy,
    i: int,
)
    requires
        call_ensures(validate_selection, (selection, issues), policy),
        distinct_profiles(old(selection)@.profiles, old(selection)@.profiles.len() as int),
        distinctly_enabled(old(selection)@),
        old(issues)@.len() <= i < final(issues)@.len(),
    ensures
        final(issues)@[i].path@ == "selection.profiles"@,
        final(issues)@[i].code@ == "contradictory_rule"@,
{
    let model = old(selection)@;
    let count = model.enabled.len() as int;
    let includes = model.all_includes(count);
    let first = profile_issues(model.profiles, model.profiles.len() as int);
    let second = model.enabled_issues(count);
    let third = contradictions(includes, model.exclude_rules(count), includes.len() as int);
    lemma_profile_issues(model.profiles, model.profiles.len() as int);
    lemma_enabled_issues(model);
    lemma_contradictions_told(includes, model.exclude_rules(count), includes.len() as int);
    let models = config::issue_models(final(issues)@);
    assert(config::issue_models(old(issues)@).len() == old(issues)@.len());
    assert(first + second + third =~= third);
    assert(models.len() == final(issues)@.len());
    assert(models == config::issue_models(old(issues)@) + third);
    assert(models[i] == third[i - old(issues)@.len()]);
    assert(models[i] == final(issues)@[i]@);
}

proof fn lemma_contradictions_told(
    includes: Seq<Seq<char>>,
    excludes: Seq<Seq<char>>,
    count: int,
)
    ensures
        forall|k: int|
            0 <= k < contradictions(includes, excludes, count).len() ==> {
                let found = #[trigger] contradictions(includes, excludes, count)[k];
                found.path == "selection.profiles"@ && found.code == "contradictory_rule"@
            },
    decreases count,
{
    if count > 0 {
        lemma_contradictions_told(includes, excludes, count - 1);
        let before = contradictions(includes, excludes, count - 1);
        assert forall|k: int|
            0 <= k < contradictions(includes, excludes, count).len() implies {
            let found = #[trigger] contradictions(includes, excludes, count)[k];
            found.path == "selection.profiles"@ && found.code == "contradictory_rule"@
        } by {
            if k < before.len() {
                assert(contradictions(includes, excludes, count)[k] == before[k]);
            }
        }
    }
}

} // verus!
