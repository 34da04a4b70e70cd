//! Local selector profiles: validation, matching, and last-valid retention.
//!
//! The accepted policy stores normalized rules, so that foreground polling normalizes only the
//! candidate path.
use vstd::prelude::*;
use crate::config::{RulesModel, SelectionProfileConfig};
use crate::names::{self, NameMap};
use crate::selector::{self, PolicyModel, ProfileModel};
use crate::text;

verus! {

/// Maximum accepted selector document size.
///
/// Profile files are expected to be tiny. Bounding the read prevents a damaged or replaced file
/// from causing an unbounded allocation before parsing.
pub const MAX_CONFIG_BYTES: usize = 1_048_576;

/// Enabled profile names plus dynamically named profile definitions.
#[derive(Debug, PartialEq, Eq)]
pub struct SelectorDocument {
    /// Only these named profiles participate in the active policy.
    pub enabled: Vec<String>,
    /// Every named profile definition.
    pub definitions: NameMap<SelectionProfileConfig>,
}

/// What a selector document says.
pub struct DocumentModel {
    pub enabled: Seq<Seq<char>>,
    pub definitions: Seq<(Seq<char>, RulesModel)>,
}

impl View for SelectorDocument {
    type V = DocumentModel;

    open spec fn view(&self) -> DocumentModel {
        DocumentModel { enabled: text::texts(self.enabled@), definitions: self.definitions@ }
    }
}

/// Why a document is not activated.
#[derive(Debug, Clone, PartialEq, Eq)]
pub enum PolicyError {
    /// No document could be read or parsed.
    Unreadable {
        /// Complete diagnostic.
        reason: String,
    },
    /// The document is larger than is accepted.
    TooLarge {
        /// Where the document was read.
        path: String,
    },
    /// The document is not UTF-8.
    NotUtf8 {
        /// Where the document was read.
        path: String,
    },
    /// Enabled profiles that have no definition.
    UnknownProfiles {
        /// Their names, each once, in ascending order.
        names: Vec<String>,
    },
    /// A rule that would match everything.
    EmptyRule {
        /// The profile that contributes it.
        profile: String,
        /// The list it stands in.
        kind: &'static str,
    },
}

impl PolicyError {
    /// The diagnostic text of this failure.
    pub open spec fn text(self) -> Seq<char> {
        match self {
            PolicyError::Unreadable { reason } => reason@,
            PolicyError::TooLarge { path } => "selector config "@ + path@ + " exceeds the "@
                + text::decimal(MAX_CONFIG_BYTES as nat) + " byte limit"@,
            PolicyError::NotUtf8 { path } => "selector config "@ + path@ + " is not UTF-8"@,
            PolicyError::UnknownProfiles { names } => "unknown enabled profiles: "@ + text::joined(
                text::texts(names@),
                ", "@,
            ),
            PolicyError::EmptyRule { profile, kind } => "profile \""@ + profile@
                + "\" contains an empty "@ + kind@ + " rule"@,
        }
    }

    /// Describes this failure.
    pub fn message(&self) -> (message: String)
        ensures
            message@ == self.text(),
    {
        match self {
            PolicyError::Unreadable { reason } => reason.clone(),
            PolicyError::TooLarge { path } => {
                let mut message = "selector config ".to_owned();
                text::push_text(&mut message, path.as_str());
                text::push_text(&mut message, " exceeds the ");
                text::push_decimal(&mut message, MAX_CONFIG_BYTES as u64);
                text::push_text(&mut message, " byte limit");
                message
            },
            PolicyError::NotUtf8 { path } => {
                let mut message = "selector config ".to_owned();
                text::push_text(&mut message, path.as_str());
                text::push_text(&mut message, " is not UTF-8");
                message
            },
            PolicyError::UnknownProfiles { names } => {
                let mut message = "unknown enabled profiles: ".to_owned();
                let list = text::join_all(names, ", ");
                text::push_text(&mut message, list.as_str());
                message
            },
            PolicyError::EmptyRule { profile, kind } => {
                let mut message = "profile \"".to_owned();
                text::push_text(&mut message, profile.as_str());
                text::push_text(&mut message, "\" contains an empty ");
                text::push_text(&mut message, kind);
                text::push_text(&mut message, " rule");
                message
            },
        }
    }
}

/// Rules in the form in which they are matched.
pub open spec fn rule_forms(rules: Seq<Seq<char>>) -> Seq<Seq<char>> {
    selector::normalized_all(selector::trimmed_all(rules))
}

/// Whether a rule list holds a rule that would match everything.
pub open spec fn holds_empty_rule(rules: Seq<Seq<char>>) -> bool {
    exists|i: int| 0 <= i < rules.len() && (#[trigger] rule_forms(rules)[i]).len() == 0
}

impl DocumentModel {
    /// The rules of a defined profile.
    pub open spec fn rules(self, name: Seq<char>) -> RulesModel {
        names::lookup(self.definitions, name)->Some_0
    }

    /// Whether a profile is defined.
    pub open spec fn defines(self, name: Seq<char>) -> bool {
        names::lookup(self.definitions, name) is Some
    }

    /// The undefined names among the first `count` enabled ones, each once, ascending.
    pub open spec fn unknown(self, count: int) -> Seq<(Seq<char>, bool)>
        decreases count,
    {
        if count <= 0 {
            Seq::empty()
        } else {
            let before = self.unknown(count - 1);
            if self.defines(self.enabled[count - 1]) {
                before
            } else {
                names::with_entry(before, self.enabled[count - 1], true)
            }
        }
    }

    /// The names of all enabled profiles without a definition.
    pub open spec fn unknown_names(self) -> Seq<Seq<char>> {
        let unknown = self.unknown(self.enabled.len() as int);
        Seq::new(unknown.len(), |i: int| unknown[i].0)
    }

    /// The list of an enabled profile that holds an empty rule, the includes first.
    pub open spec fn fault(self, i: int) -> Option<Seq<char>> {
        let rules = self.rules(self.enabled[i]);
        if holds_empty_rule(rules.includes) {
            Some("include"@)
        } else if holds_empty_rule(rules.excludes) {
            Some("exclude"@)
        } else {
            None
        }
    }

    /// The first fault among the first `count` enabled profiles.
    pub open spec fn first_fault(self, count: int) -> Option<(Seq<char>, Seq<char>)>
        decreases count,
    {
        if count <= 0 {
            None
        } else if self.first_fault(count - 1) is Some {
            self.first_fault(count - 1)
        } else {
            match self.fault(count - 1) {
                Some(kind) => Some((self.enabled[count - 1], kind)),
                None => None,
            }
        }
    }

    /// The first `count` enabled profiles with their distinct normalized includes.
    pub open spec fn profiles(self, count: int) -> Seq<ProfileModel>
        decreases count,
    {
        if count <= 0 {
            Seq::empty()
        } else {
            let name = self.enabled[count - 1];
            let forms = rule_forms(self.rules(name).includes);
            self.profiles(count - 1).push(
                ProfileModel {
                    name,
                    include_rules: selector::extended(Seq::empty(), forms, forms.len() as int),
                },
            )
        }
    }

    /// The distinct normalized vetoes of the first `count` enabled profiles.
    pub open spec fn vetoes(self, count: int) -> Seq<Seq<char>>
        decreases count,
    {
        if count <= 0 {
            Seq::empty()
        } else {
            let forms = rule_forms(self.rules(self.enabled[count - 1]).excludes);
            selector::extended(self.vetoes(count - 1), forms, forms.len() as int)
        }
    }

    /// The policy of an acceptable document.
    pub open spec fn policy(self) -> PolicyModel {
        PolicyModel {
            prefer_foreground: false,
            profiles: self.profiles(self.enabled.len() as int),
            exclude_rules: self.vetoes(self.enabled.len() as int),
        }
    }

    /// Whether a document is activated.
    pub open spec fn acceptable(self) -> bool {
        self.unknown_names().len() == 0 && self.first_fault(self.enabled.len() as int) is None
    }

    /// Whether a failure is the one reported for a document.
    pub open spec fn reports(self, error: PolicyError) -> bool {
        match error {
            PolicyError::UnknownProfiles { names } => self.unknown_names().len() > 0 && text::texts(
                names@,
            ) == self.unknown_names(),
            PolicyError::EmptyRule { profile, kind } => self.unknown_names().len() == 0
                && self.first_fault(self.enabled.len() as int) == Some((profile@, kind@)),
            _ => false,
        }
    }
}

/// The reported names are exactly the enabled ones without a definition, each once and in
/// ascending order.
pub proof fn law_unknown_profiles_are_reported_by_name(document: DocumentModel, name: Seq<char>)
    ensures
        names::ascending(document.unknown(document.enabled.len() as int)),
        document.unknown_names().contains(name) <==> document.enabled.contains(name)
            && !document.defines(name),
{
    let count = document.enabled.len() as int;
    lemma_unknown(document, count, name);
    let unknown = document.unknown(count);
    names::lemma_lookup(unknown, name);
    let listed = document.unknown_names();
    if listed.contains(name) {
        let i = choose|i: int| 0 <= i < listed.len() && listed[i] == name;
        assert(unknown[i].0 == name);
        assert(names::lookup(unknown, name) is Some);
        let k = choose|k: int|
            0 <= k < count && #[trigger] document.enabled[k] == name && !document.defines(name);
        assert(document.enabled[k] == name);
    }
    if document.enabled.contains(name) && !document.defines(name) {
        let k = choose|k: int| 0 <= k < document.enabled.len() && document.enabled[k] == name;
        assert(document.enabled[k] == name);
        assert(names::lookup(unknown, name) is Some);
        let at = names::rank(unknown, name);
        assert(unknown[at].0 == name);
        assert(listed[at] == name);
    }
}

proof fn lemma_unknown(document: DocumentModel, count: int, name: Seq<char>)
    requires
        0 <= count <= document.enabled.len(),
    ensures
        names::ascending(document.unknown(count)),
        names::lookup(document.unknown(count), name) is Some <==> exists|k: int|
            0 <= k < count && #[trigger] document.enabled[k] == name && !document.defines(name),
    decreases count,
{
    if count > 0 {
        let last = document.enabled[count - 1];
        lemma_unknown(document, count - 1, name);
        let before = document.unknown(count - 1);
        if !document.defines(last) {
            names::lemma_with_entry_ascending(before, last, true);
            names::law_reads_follow_writes(before, last, true, name);
        }
        if names::lookup(before, name) is Some {
            let k = choose|k: int|
                0 <= k < count - 1 && #[trigger] document.enabled[k] == name && !document.defines(
                    name,
                );
            assert(document.enabled[k] == name);
        }
    } else {
        assert(document.unknown(count) =~= Seq::empty());
    }
}

/// One enabled profile retained so metadata can report the matching policy name.
#[derive(Debug, PartialEq, Eq)]
struct EnabledProfile {
    name: String,
    include_rules: Vec<String>,
}

impl View for EnabledProfile {
    type V = ProfileModel;

    closed spec fn view(&self) -> ProfileModel {
        ProfileModel { name: self.name@, include_rules: text::texts(self.include_rules@) }
    }
}

spec fn enabled_models(profiles: Seq<EnabledProfile>) -> Seq<ProfileModel> {
    Seq::new(profiles.len(), |i: int| profiles[i]@)
}

/// Validated, normalized policy used by foreground matching.
#[derive(Debug, PartialEq, Eq)]
pub struct SelectorPolicy {
    profiles: Vec<EnabledProfile>,
    exclude_rules: Vec<String>,
}

impl View for SelectorPolicy {
    type V = PolicyModel;

    closed spec fn view(&self) -> PolicyModel {
        PolicyModel {
            prefer_foreground: false,
            profiles: enabled_models(self.profiles@),
            exclude_rules: text::texts(self.exclude_rules@),
        }
    }
}

/// Append normalized non-empty rules while preserving declaration order.
fn append_rules(
    destination: &mut Vec<String>,
    rules: &Vec<String>,
    profile_name: &str,
    kind: &'static str,
) -> (result: Result<(), PolicyError>)
    ensures
        match result {
            Ok(()) => {
                let forms = rule_forms(text::texts(rules@));
                &&& !holds_empty_rule(text::texts(rules@))
                &&& text::texts(final(destination)@) == selector::extended(
                    text::texts(old(destination)@),
                    forms,
                    forms.len() as int,
                )
            },
            Err(PolicyError::EmptyRule { profile, kind: found }) => holds_empty_rule(
                text::texts(rules@),
            ) && profile@ == profile_name@ && found == kind,
            Err(_) => false,
        },
{
    let ghost before = text::texts(destination@);
    let ghost forms = rule_forms(text::texts(rules@));
    let mut i: usize = 0;
    while i < rules.len()
        invariant
            i <= rules@.len(),
            forms == rule_forms(text::texts(rules@)),
            text::texts(destination@) == selector::extended(before, forms, i as int),
            forall|k: int| 0 <= k < i ==> (#[trigger] forms[k]).len() > 0,
        decreases rules@.len() - i,
    {
        let trimmed = text::trim(rules[i].as_str());
        let form = selector::normalize(trimmed.as_str());
        assert(form@ == forms[i as int]);
        if form.as_str().is_empty() {
            assert(forms[i as int].len() == 0);
            return Err(PolicyError::EmptyRule { profile: profile_name.to_owned(), kind });
        }
        if !selector::list_contains(destination, form.as_str()) {
            let ghost shorter = text::texts(destination@);
            destination.push(form);
            assert(text::texts(destination@) =~= shorter.push(forms[i as int]));
        }
        i = i + 1;
    }
    Ok(())
}

fn undefined_names(document: &SelectorDocument) -> (found: Vec<String>)
    ensures
        text::texts(found@) == document@.unknown_names(),
{
    let mut map: NameMap<bool> = NameMap::new();
    let mut i: usize = 0;
    while i < document.enabled.len()
        invariant
            i <= document.enabled@.len(),
            map@ == document@.unknown(i as int),
        decreases document.enabled@.len() - i,
    {
        assert(document@.enabled[i as int] == document.enabled@[i as int]@);
        if !document.definitions.contains(document.enabled[i].as_str()) {
            map.insert(document.enabled[i].clone(), true);
        }
        i = i + 1;
    }
    let mut found: Vec<String> = Vec::new();
    let mut k: usize = 0;
    while k < map.len()
        invariant
            k <= map@.len(),
            map@ == document@.unknown(document.enabled@.len() as int),
            text::texts(found@) == document@.unknown_names().take(k as int),
        decreases map@.len() - k,
    {
        let ghost shorter = text::texts(found@);
        found.push(map.name_at(k).to_owned());
        k = k + 1;
        assert(text::texts(found@) =~= shorter.push(map@[k - 1].0));
        assert(text::texts(found@) =~= document@.unknown_names().take(k as int));
    }
    assert(text::texts(found@) =~= document@.unknown_names());
    found
}

impl SelectorPolicy {
    /// Validate one complete selector document.
    ///
    /// Unknown enabled profiles and empty rules are rejected because either can silently weaken
    /// a screen-sharing allowlist. No partially validated policy is returned on error.
    pub fn parse(document: &SelectorDocument) -> (result: Result<SelectorPolicy, PolicyError>)
        ensures
            match result {
                Ok(policy) => document@.acceptable() && policy@ == document@.policy(),
                Err(error) => !document@.acceptable() && document@.reports(error),
            },
    {
        let unknown = undefined_names(document);
        if unknown.len() > 0 {
            assert(text::texts(unknown@).len() > 0);
            return Err(PolicyError::UnknownProfiles { names: unknown });
        }
        assert(document@.unknown_names().len() == 0) by {
            assert(text::texts(unknown@).len() == 0);
        }
        let mut profiles: Vec<EnabledProfile> = Vec::new();
        let mut exclude_rules: Vec<String> = Vec::new();
        assert(enabled_models(profiles@) =~= document@.profiles(0));
        assert(text::texts(exclude_rules@) =~= document@.vetoes(0));
        let mut i: usize = 0;
        while i < document.enabled.len()
            invariant
                i <= document.enabled@.len(),
                document@.unknown_names().len() == 0,
                document@.first_fault(i as int) is None,
                enabled_models(profiles@) == document@.profiles(i as int),
                text::texts(exclude_rules@) == document@.vetoes(i as int),
            decreases document.enabled@.len() - i,
        {
            let name = document.enabled[i].as_str();
            assert(document@.enabled[i as int] == name@);
            match document.definitions.get(name) {
                None => {
                    proof {
                        law_unknown_profiles_are_reported_by_name(document@, name@);
                        assert(document@.enabled.contains(name@));
                        assert(document@.unknown_names().contains(name@));
                    }
                },
                Some(profile) => {
                    let ghost rules = document@.rules(name@);
                    assert(profile@ == rules);
                    let mut include_rules: Vec<String> = Vec::new();
                    assert(text::texts(include_rules@) =~= Seq::empty());
                    if let Err(error) = append_rules(
                        &mut include_rules,
                        &profile.includes,
                        name,
                        "include",
                    ) {
                        proof {
                            lemma_first_fault(document@, i as int);
                        }
                        return Err(error);
                    }
                    if let Err(error) = append_rules(
                        &mut exclude_rules,
                        &profile.excludes,
                        name,
                        "exclude",
                    ) {
                        proof {
                            lemma_first_fault(document@, i as int);
                        }
                        return Err(error);
                    }
                    let ghost shorter = enabled_models(profiles@);
                    profiles.push(EnabledProfile { name: name.to_owned(), include_rules });
                    assert(enabled_models(profiles@) =~= shorter.push(profiles@.last()@));
                },
            }
            i = i + 1;
        }
        Ok(SelectorPolicy { profiles, exclude_rules })
    }

    /// Return the first enabled profile whose include accepts this executable.
    ///
    /// Global exclusions are evaluated first and veto every profile. Preserving the
    /// user-authored enabled order gives overlapping profiles a stable label.
    pub fn matching_profile<'a>(&'a self, executable_path: &str) -> (name: Option<&'a str>)
        ensures
            match name {
                Some(name) => {
                    &&& !selector::any_rule_matches(
                        self@.exclude_rules,
                        selector::normalized(executable_path@),
                    )
                    &&& exists|p: int|
                        #[trigger] self@.first_admitting(p, executable_path@)
                            && self@.profiles[p].name == name@
                },
                None => !allows(self@, executable_path@),
            },
    {
        let candidate = selector::normalize(executable_path);
        if selector::rule_matches(&self.exclude_rules, candidate.as_str()) {
            return None;
        }
        let mut i: usize = 0;
        while i < self.profiles.len()
            invariant
                i <= self.profiles@.len(),
                candidate@ == selector::normalized(executable_path@),
                !selector::any_rule_matches(self@.exclude_rules, candidate@),
                forall|k: int| 0 <= k < i ==> !#[trigger] self@.admits(k, executable_path@),
            decreases self.profiles@.len() - i,
        {
            assert(self@.profiles[i as int] == self.profiles@[i as int]@);
            if selector::rule_matches(&self.profiles[i].include_rules, candidate.as_str()) {
                assert(self@.first_admitting(i as int, executable_path@));
                return Some(self.profiles[i].name.as_str());
            }
            i = i + 1;
        }
        None
    }

    /// Decide whether an executable path is allowed by the active policy.
    ///
    /// Includes form a union, while any exclusion vetoes the candidate. An empty enabled set
    /// naturally has no include match and therefore fails closed.
    pub fn allows_executable(&self, executable_path: &str) -> (allowed: bool)
        ensures
            allowed == allows(self@, executable_path@),
    {
        match self.matching_profile(executable_path) {
            Some(_) => {
                proof {
                    let p = choose|p: int| #[trigger] self@.first_admitting(p, executable_path@);
                    assert(self@.admits(p, executable_path@));
                }
                true
            },
            None => false,
        }
    }

    fn same_as(&self, other: &SelectorPolicy) -> (same: bool)
        ensures
            same == (self@ == other@),
    {
        if self.profiles.len() != other.profiles.len() {
            assert(self@.profiles.len() != other@.profiles.len());
            return false;
        }
        let mut i: usize = 0;
        while i < self.profiles.len()
            invariant
                i <= self.profiles@.len(),
                self.profiles@.len() == other.profiles@.len(),
                forall|k: int|
                    0 <= k < i ==> #[trigger] self@.profiles[k] == other@.profiles[k],
            decreases self.profiles@.len() - i,
        {
            let left = &self.profiles[i];
            let right = &other.profiles[i];
            assert(self@.profiles[i as int] == left@);
            assert(other@.profiles[i as int] == right@);
            if !text::same_text(left.name.as_str(), right.name.as_str()) || !same_texts(
                &left.include_rules,
                &right.include_rules,
            ) {
                return false;
            }
            i = i + 1;
        }
        assert(self@.profiles =~= other@.profiles);
        same_texts(&self.exclude_rules, &other.exclude_rules)
    }
}

fn same_texts(left: &Vec<String>, right: &Vec<String>) -> (same: bool)
    ensures
        same == (text::texts(left@) == text::texts(right@)),
{
    if left.len() != right.len() {
        assert(text::texts(left@).len() != text::texts(right@).len());
        return false;
    }
    let mut i: usize = 0;
    while i < left.len()
        invariant
            i <= left@.len(),
            left@.len() == right@.len(),
            forall|k: int| 0 <= k < i ==> #[trigger] text::texts(left@)[k] == text::texts(right@)[k],
        decreases left@.len() - i,
    {
        if !text::same_text(left[i].as_str(), right[i].as_str()) {
            assert(text::texts(left@)[i as int] != text::texts(right@)[i as int]);
            return false;
        }
        i = i + 1;
    }
    assert(text::texts(left@) =~= text::texts(right@));
    true
}

proof fn lemma_first_fault(document: DocumentModel, i: int)
    requires
        0 <= i < document.enabled.len(),
        document.first_fault(i) is None,
        document.fault(i) is Some,
    ensures
        document.first_fault(document.enabled.len() as int) == Some(
            (document.enabled[i], document.fault(i)->Some_0),
        ),
{
    lemma_fault_stays(document, i + 1, document.enabled.len() as int);
}

proof fn lemma_fault_stays(document: DocumentModel, from: int, to: int)
    requires
        0 <= from <= to,
        document.first_fault(from) is Some,
    ensures
        document.first_fault(to) == document.first_fault(from),
    decreases to - from,
{
    if from < to {
        lemma_fault_stays(document, from, to - 1);
    }
}

/// Whether a policy allows an executable: no exclusion matches, and some profile admits it.
pub open spec fn allows(policy: PolicyModel, executable: Seq<char>) -> bool {
    &&& !selector::any_rule_matches(policy.exclude_rules, selector::normalized(executable))
    &&& exists|p: int| 0 <= p < policy.profiles.len() && #[trigger] policy.admits(p, executable)
}

/// A policy without enabled profiles allows nothing.
pub proof fn law_policies_fail_closed(document: DocumentModel, executable: Seq<char>)
    requires
        document.enabled.len() == 0,
    ensures
        document.acceptable(),
        !allows(document.policy(), executable),
{
    assert(document.unknown(0) =~= Seq::empty());
}

/// An executable is allowed without regard to the case of its path, where the path is ASCII.
pub proof fn law_case_does_not_matter(policy: PolicyModel, path: Seq<char>)
    requires
        text::is_ascii(path),
    ensures
        allows(policy, path) == allows(policy, text::ascii_lowercase(path)),
{
    let other = text::ascii_lowercase(path);
    selector::law_case_is_normalized_away(path);
    assert forall|p: int| policy.admits(p, path) == #[trigger] policy.admits(p, other) by {}
    if allows(policy, path) {
        let p = choose|p: int| 0 <= p < policy.profiles.len() && #[trigger] policy.admits(p, path);
        assert(policy.admits(p, other));
    }
    if allows(policy, other) {
        let p = choose|p: int| 0 <= p < policy.profiles.len() && #[trigger] policy.admits(p, other);
        assert(policy.admits(p, path));
    }
}

/// Matching ignores the kind of slash: paths that differ in nothing else are treated alike.
pub proof fn law_slashes_do_not_matter(policy: PolicyModel, path: Seq<char>)
    ensures
        allows(policy, path) == allows(policy, text::replaced(path, '\\', '/')),
{
    let other = text::replaced(path, '\\', '/');
    assert(text::replaced(other, '\\', '/') =~= other);
    assert forall|p: int| policy.admits(p, path) == #[trigger] policy.admits(p, other) by {}
    if allows(policy, path) {
        let p = choose|p: int| 0 <= p < policy.profiles.len() && #[trigger] policy.admits(p, path);
        assert(policy.admits(p, other));
    }
    if allows(policy, other) {
        let p = choose|p: int| 0 <= p < policy.profiles.len() && #[trigger] policy.admits(p, other);
        assert(policy.admits(p, path));
    }
}

/// Atomically replaceable policy state owned by the selector thread.
///
/// A candidate is validated before assignment, so a failed reload cannot partially mutate or
/// discard the last valid policy.
#[derive(Debug)]
pub struct SelectorPolicyStore {
    active: Option<SelectorPolicy>,
}

impl View for SelectorPolicyStore {
    type V = Option<PolicyModel>;

    closed spec fn view(&self) -> Option<PolicyModel> {
        match self.active {
            Some(policy) => Some(policy@),
            None => None,
        }
    }
}

impl Default for SelectorPolicyStore {
    fn default() -> (store: SelectorPolicyStore)
        ensures
            store@ is None,
    {
        SelectorPolicyStore { active: None }
    }
}

impl SelectorPolicyStore {
    /// Return the active policy, if any configuration has succeeded.
    pub fn active(&self) -> (policy: Option<&SelectorPolicy>)
        ensures
            match policy {
                Some(policy) => self@ == Some(policy@),
                None => self@ is None,
            },
    {
        match &self.active {
            Some(policy) => Some(policy),
            None => None,
        }
    }

    /// Validate a candidate and activate it as one complete value.
    ///
    /// Returns whether the accepted policy differs from the previous one. A document that could
    /// not be read or is refused leaves the active policy unchanged.
    pub fn reload_document(&mut self, document: Result<SelectorDocument, PolicyError>) -> (result:
        Result<bool, PolicyError>)
        ensures
            match document {
                Err(error) => result == Err::<bool, PolicyError>(error) && final(self)@
                    == old(self)@,
                Ok(document) => match result {
                    Ok(changed) => document@.acceptable() && final(self)@ == Some(
                        document@.policy(),
                    ) && changed == (old(self)@ != Some(document@.policy())),
                    Err(error) => !document@.acceptable() && document@.reports(error)
                        && final(self)@ == old(self)@,
                },
            },
    {
        let document = match document {
            Ok(document) => document,
            Err(error) => {
                return Err(error);
            },
        };
        match SelectorPolicy::parse(&document) {
            Err(error) => Err(error),
            Ok(candidate) => {
                let changed = match &self.active {
                    Some(policy) => !policy.same_as(&candidate),
                    None => true,
                };
                self.active = Some(candidate);
                Ok(changed)
            },
        }
    }
}

/// Accepts the bytes read from a config file: at most [`MAX_CONFIG_BYTES`], in UTF-8.
pub fn bounded_document(bytes: Vec<u8>, path: &str) -> (result: Result<String, PolicyError>)
    ensures
        match result {
            Ok(document) => bytes@.len() <= MAX_CONFIG_BYTES && vstd::utf8::valid_utf8(bytes@)
                && document@ == vstd::utf8::decode_utf8(bytes@),
            Err(PolicyError::TooLarge { path: place }) => bytes@.len() > MAX_CONFIG_BYTES && place@
                == path@,
            Err(PolicyError::NotUtf8 { path: place }) => bytes@.len() <= MAX_CONFIG_BYTES
                && !vstd::utf8::valid_utf8(bytes@) && place@ == path@,
            Err(_) => false,
        },
{
    if bytes.len() > MAX_CONFIG_BYTES {
        return Err(PolicyError::TooLarge { path: path.to_owned() });
    }
    match text::decode_utf8(bytes) {
        Ok(document) => Ok(document),
        Err(_) => Err(PolicyError::NotUtf8 { path: path.to_owned() }),
    }
}

/// Whether the `e`th enabled name is that of the `p`th definition.
pub open spec fn enables(document: DocumentModel, e: int, p: int) -> bool {
    &&& 0 <= e < document.enabled.len()
    &&& 0 <= p < document.definitions.len()
    &&& document.enabled[e] == document.definitions[p].0
}

/// Whether some rule of a list, as it is matched, stands in a normalized path.
pub open spec fn reaches(rules: Seq<Seq<char>>, path: Seq<char>) -> bool {
    exists|r: int|
        0 <= r < rules.len() && text::parts_around(
            selector::normalized(path),
            selector::matched_form(#[trigger] rules[r]),
        )
}

proof fn lemma_reaches(rules: Seq<Seq<char>>, path: Seq<char>)
    ensures
        selector::any_rule_matches(rule_forms(rules), selector::normalized(path)) <==> reaches(
            rules,
            path,
        ),
{
    let forms = rule_forms(rules);
    let fact = selector::normalized(path);
    assert forall|r: int| 0 <= r < rules.len() implies text::has_part(fact, #[trigger] forms[r])
        == text::parts_around(fact, selector::matched_form(rules[r])) by {
        text::law_parts_stand_between_others(fact, forms[r]);
    }
    if reaches(rules, path) {
        let r = choose|r: int|
            0 <= r < rules.len() && text::parts_around(
                fact,
                selector::matched_form(#[trigger] rules[r]),
            );
        assert(text::has_part(fact, forms[r]));
    }
    if selector::any_rule_matches(forms, fact) {
        let r = choose|r: int| 0 <= r < forms.len() && text::has_part(fact, #[trigger] forms[r]);
        assert(text::parts_around(fact, selector::matched_form(rules[r])));
    }
}

proof fn lemma_same_rules_match(left: Seq<Seq<char>>, right: Seq<Seq<char>>, fact: Seq<char>)
    requires
        forall|rule: Seq<char>| left.contains(rule) ==> #[trigger] right.contains(rule),
    ensures
        selector::any_rule_matches(left, fact) ==> selector::any_rule_matches(right, fact),
{
    if selector::any_rule_matches(left, fact) {
        let i = choose|i: int| 0 <= i < left.len() && text::has_part(fact, #[trigger] left[i]);
        assert(left.contains(left[i]));
        assert(right.contains(left[i]));
        let k = choose|k: int| 0 <= k < right.len() && right[k] == left[i];
        assert(text::has_part(fact, right[k]));
    }
}

proof fn lemma_distinct_rules_match(list: Seq<Seq<char>>, rules: Seq<Seq<char>>, fact: Seq<char>)
    ensures
        selector::any_rule_matches(selector::extended(list, rules, rules.len() as int), fact) <==> (
        selector::any_rule_matches(list, fact) || selector::any_rule_matches(rules, fact)),
{
    let all = selector::extended(list, rules, rules.len() as int);
    assert forall|rule: Seq<char>| all.contains(rule) <==> #[trigger] (list + rules).contains(
        rule,
    ) by {
        selector::lemma_extended(list, rules, rules.len() as int, rule);
        if list.contains(rule) {
            let k = choose|k: int| 0 <= k < list.len() && list[k] == rule;
            assert((list + rules)[k] == rule);
        }
        if exists|k: int| 0 <= k < rules.len() && #[trigger] rules[k] == rule {
            let k = choose|k: int| 0 <= k < rules.len() && #[trigger] rules[k] == rule;
            assert((list + rules)[list.len() + k] == rule);
        }
        if (list + rules).contains(rule) {
            let k = choose|k: int| 0 <= k < (list + rules).len() && (list + rules)[k] == rule;
            if k >= list.len() {
                assert(rules[k - list.len()] == rule);
            } else {
                assert(list[k] == rule);
            }
        }
    }
    assert forall|rule: Seq<char>| (list + rules).contains(rule) implies #[trigger] all.contains(
        rule,
    ) by {}
    lemma_same_rules_match(all, list + rules, fact);
    lemma_same_rules_match(list + rules, all, fact);
    if selector::any_rule_matches(list + rules, fact) {
        let i = choose|i: int|
            0 <= i < (list + rules).len() && text::has_part(fact, #[trigger] (list + rules)[i]);
        if i < list.len() {
            assert(text::has_part(fact, list[i]));
        } else {
            assert(text::has_part(fact, rules[i - list.len()]));
        }
    }
    if selector::any_rule_matches(list, fact) {
        let i = choose|i: int| 0 <= i < list.len() && text::has_part(fact, #[trigger] list[i]);
        assert((list + rules)[i] == list[i]);
    }
    if selector::any_rule_matches(rules, fact) {
        let i = choose|i: int| 0 <= i < rules.len() && text::has_part(fact, #[trigger] rules[i]);
        assert((list + rules)[list.len() + i] == rules[i]);
    }
}

proof fn lemma_vetoes(document: DocumentModel, count: int, path: Seq<char>)
    requires
        0 <= count <= document.enabled.len(),
    ensures
        selector::any_rule_matches(document.vetoes(count), selector::normalized(path))
            <==> exists|e: int|
            0 <= e < count && reaches(document.rules(#[trigger] document.enabled[e]).excludes, path),
    decreases count,
{
    if count > 0 {
        lemma_vetoes(document, count - 1, path);
        let rules = document.rules(document.enabled[count - 1]).excludes;
        lemma_distinct_rules_match(
            document.vetoes(count - 1),
            rule_forms(rules),
            selector::normalized(path),
        );
        lemma_reaches(rules, path);
    }
}

proof fn lemma_enabled_profiles(document: DocumentModel, count: int, e: int)
    requires
        0 <= e < count <= document.enabled.len(),
    ensures
        document.profiles(count).len() == count,
        document.profiles(count)[e].name == document.enabled[e],
        document.profiles(count)[e].include_rules == selector::extended(
            Seq::empty(),
            rule_forms(document.rules(document.enabled[e]).includes),
            rule_forms(document.rules(document.enabled[e]).includes).len() as int,
        ),
    decreases count,
{
    if count > 1 {
        lemma_enabled_profiles(document, count - 1, if e < count - 1 { e } else { 0 });
    } else {
        assert(document.profiles(0) =~= Seq::empty());
    }
}

proof fn lemma_admits(document: DocumentModel, e: int, path: Seq<char>)
    requires
        0 <= e < document.enabled.len(),
    ensures
        document.policy().admits(e, path) == reaches(
            document.rules(document.enabled[e]).includes,
            path,
        ),
{
    lemma_enabled_profiles(document, document.enabled.len() as int, e);
    let rules = document.rules(document.enabled[e]).includes;
    lemma_distinct_rules_match(Seq::empty(), rule_forms(rules), selector::normalized(path));
    lemma_reaches(rules, path);
}

/// Of an accepted document an executable is allowed exactly if an include of some enabled profile
/// stands in its path and no exclude of any enabled profile does, whatever their order. The path
/// is labelled by the first enabled profile that includes it.
pub proof fn law_any_enabled_exclusion_vetoes(
    document: &SelectorDocument,
    policy: SelectorPolicy,
    path: &str,
    allowed: bool,
    label: Option<&str>,
)
    requires
        document.definitions.well_formed(),
        call_ensures(SelectorPolicy::parse, (document,), Ok::<_, PolicyError>(policy)),
        call_ensures(SelectorPolicy::allows_executable, (&policy, path), allowed),
        call_ensures(SelectorPolicy::matching_profile, (&policy, path), label),
    ensures
        (exists|e: int, p: int|
            #[trigger] enables(document@, e, p) && reaches(
                document@.definitions[p].1.excludes,
                path@,
            )) ==> !allowed && label is None,
        (forall|e: int, p: int|
            #[trigger] enables(document@, e, p) ==> !reaches(
                document@.definitions[p].1.excludes,
                path@,
            )) ==> (allowed <==> exists|e: int, p: int|
            #[trigger] enables(document@, e, p) && reaches(
                document@.definitions[p].1.includes,
                path@,
            )),
        allowed <==> label is Some,
        label matches Some(name) ==> exists|e: int, p: int|
            {
                &&& #[trigger] enables(document@, e, p)
                &&& name@ == document@.enabled[e]
                &&& reaches(document@.definitions[p].1.includes, path@)
                &&& forall|k: int, q: int|
                    k < e && #[trigger] enables(document@, k, q) ==> !reaches(
                        document@.definitions[q].1.includes,
                        path@,
                    )
            },
{
    let model = document@;
    let count = model.enabled.len() as int;
    lemma_vetoes(model, count, path@);
    assert forall|e: int, p: int| #[trigger] enables(model, e, p) implies model.rules(
        model.enabled[e],
    ) == model.definitions[p].1 by {
        names::lemma_lookup(model.definitions, model.enabled[e]);
        assert(model.definitions[p].0 == model.enabled[e]);
    }
    assert forall|e: int| 0 <= e < count implies model.defines(#[trigger] model.enabled[e])
        && exists|p: int| #[trigger] enables(model, e, p) by {
        law_unknown_profiles_are_reported_by_name(model, model.enabled[e]);
        assert(model.enabled.contains(model.enabled[e]));
        if !model.defines(model.enabled[e]) {
            assert(model.unknown_names().contains(model.enabled[e]));
        }
        names::lemma_lookup(model.definitions, model.enabled[e]);
        let p = choose|p: int|
            0 <= p < model.definitions.len() && (#[trigger] model.definitions[p]).0
                == model.enabled[e];
        assert(enables(model, e, p));
    }
    assert(policy@.profiles.len() == count) by {
        if count > 0 {
            lemma_enabled_profiles(model, count, 0);
        }
    }
    assert forall|e: int| 0 <= e < count implies #[trigger] policy@.admits(e, path@) == reaches(
        model.rules(model.enabled[e]).includes,
        path@,
    ) by {
        lemma_admits(model, e, path@);
    }
    if exists|e: int, p: int|
        #[trigger] enables(model, e, p) && reaches(model.definitions[p].1.excludes, path@) {
        let (e, p) = choose|e: int, p: int|
            #[trigger] enables(model, e, p) && reaches(model.definitions[p].1.excludes, path@);
        assert(reaches(model.rules(model.enabled[e]).excludes, path@));
    }
    if selector::any_rule_matches(policy@.exclude_rules, selector::normalized(path@)) {
        let e = choose|e: int|
            0 <= e < count && reaches(model.rules(#[trigger] model.enabled[e]).excludes, path@);
        let p = choose|p: int| #[trigger] enables(model, e, p);
        assert(reaches(model.definitions[p].1.excludes, path@));
    }
    if exists|e: int, p: int|
        #[trigger] enables(model, e, p) && reaches(model.definitions[p].1.includes, path@) {
        let (e, p) = choose|e: int, p: int|
            #[trigger] enables(model, e, p) && reaches(model.definitions[p].1.includes, path@);
        assert(policy@.admits(e, path@));
    }
    if allowed {
        let e = choose|e: int| 0 <= e < policy@.profiles.len() && #[trigger] policy@.admits(e, path@);
        let p = choose|p: int| #[trigger] enables(model, e, p);
        assert(reaches(model.definitions[p].1.includes, path@));
    }
    if let Some(name) = label {
        let e = choose|e: int|
            #[trigger] policy@.first_admitting(e, path@) && policy@.profiles[e].name == name@;
        lemma_enabled_profiles(model, count, e);
        let p = choose|p: int| #[trigger] enables(model, e, p);
        assert(policy@.admits(e, path@));
        assert forall|k: int, q: int| k < e && #[trigger] enables(model, k, q) implies !reaches(
            model.definitions[q].1.includes,
            path@,
        ) by {
            assert(!policy@.admits(k, path@));
        }
        assert(enables(model, e, p) && reaches(model.definitions[p].1.includes, path@));
    }
}

/// Whether an enabled name has a definition without a blank rule.
pub open spec fn soundly_defined(document: DocumentModel, e: int) -> bool {
    exists|p: int|
        #[trigger] enables(document, e, p) && !selector::lists(
            document.definitions[p].1.includes,
            Seq::empty(),
        ) && !selector::lists(document.definitions[p].1.excludes, Seq::empty())
}

/// A document is activated exactly if every enabled name has a definition and no rule of an
/// enabled profile is blank.
pub proof fn law_documents_are_accepted_whole(
    document: &SelectorDocument,
    result: Result<SelectorPolicy, PolicyError>,
)
    requires
        document.definitions.well_formed(),
        call_ensures(SelectorPolicy::parse, (document,), result),
    ensures
        result is Ok <==> forall|e: int|
            0 <= e < document.enabled@.len() ==> #[trigger] soundly_defined(document@, e),
{
    let model = document@;
    let count = model.enabled.len() as int;
    assert forall|rules: Seq<Seq<char>>| #[trigger] holds_empty_rule(rules) <==> selector::lists(
        rules,
        Seq::empty(),
    ) by {
        if holds_empty_rule(rules) {
            let i = choose|i: int| 0 <= i < rules.len() && (#[trigger] rule_forms(rules)[i]).len() == 0;
            assert(selector::matched_form(rules[i]) =~= Seq::<char>::empty());
        }
        if selector::lists(rules, Seq::empty()) {
            let r = choose|r: int|
                0 <= r < rules.len() && selector::matched_form(#[trigger] rules[r])
                    == Seq::<char>::empty();
            assert(rule_forms(rules)[r].len() == 0);
        }
    }
    assert forall|e: int, p: int| #[trigger] enables(model, e, p) implies model.rules(
        model.enabled[e],
    ) == model.definitions[p].1 && model.defines(model.enabled[e]) by {
        names::lemma_lookup(model.definitions, model.enabled[e]);
        assert(model.definitions[p].0 == model.enabled[e]);
    }
    if result is Ok {
        assert forall|e: int| 0 <= e < count implies #[trigger] soundly_defined(model, e) by {
            law_unknown_profiles_are_reported_by_name(model, model.enabled[e]);
            assert(model.enabled.contains(model.enabled[e]));
            if !model.defines(model.enabled[e]) {
                assert(model.unknown_names().contains(model.enabled[e]));
            }
            names::lemma_lookup(model.definitions, model.enabled[e]);
            let p = choose|p: int|
                0 <= p < model.definitions.len() && (#[trigger] model.definitions[p]).0
                    == model.enabled[e];
            assert(enables(model, e, p));
            if model.fault(e) is Some {
                if model.first_fault(e) is Some {
                    lemma_fault_stays(model, e, count);
                } else {
                    lemma_first_fault(model, e);
                }
            }
            assert(model.fault(e) is None);
            assert(!holds_empty_rule(model.definitions[p].1.includes));
            assert(!holds_empty_rule(model.definitions[p].1.excludes));
        }
    } else if forall|e: int| 0 <= e < count ==> #[trigger] soundly_defined(model, e) {
        if model.unknown_names().len() > 0 {
            let name = model.unknown_names()[0];
            assert(model.unknown_names().contains(name));
            law_unknown_profiles_are_reported_by_name(model, name);
            let e = choose|e: int| 0 <= e < model.enabled.len() && model.enabled[e] == name;
            assert(soundly_defined(model, e));
            let p = choose|p: int| #[trigger] enables(model, e, p);
            assert(model.defines(name));
        }
        assert forall|e: int| 0 <= e < count implies #[trigger] model.fault(e) is None by {
            assert(soundly_defined(model, e));
            let p = choose|p: int|
                #[trigger] enables(model, e, p) && !selector::lists(
                    model.definitions[p].1.includes,
                    Seq::empty(),
                ) && !selector::lists(model.definitions[p].1.excludes, Seq::empty());
            assert(!holds_empty_rule(model.definitions[p].1.includes));
            assert(!holds_empty_rule(model.definitions[p].1.excludes));
        }
        lemma_no_fault(model, count);
    }
}

proof fn lemma_no_fault(document: DocumentModel, count: int)
    requires
        0 <= count <= document.enabled.len(),
        forall|e: int| 0 <= e < count ==> #[trigger] document.fault(e) is None,
    ensures
        document.first_fault(count) is None,
    decreases count,
{
    if count > 0 {
        lemma_no_fault(document, count - 1);
        assert(document.fault(count - 1) is None);
    }
}

/// A reload activates what parsing the document gives, and where parsing fails what was active
/// stays so.
pub proof fn law_reloads_activate_what_is_parsed(
    store: &mut SelectorPolicyStore,
    document: SelectorDocument,
    parsed: Result<SelectorPolicy, PolicyError>,
    reloaded: Result<bool, PolicyError>,
)
    requires
        call_ensures(SelectorPolicy::parse, (&document,), parsed),
        call_ensures(
            SelectorPolicyStore::reload_document,
            (store, Ok::<_, PolicyError>(document)),
            reloaded,
        ),
    ensures
        match parsed {
            Ok(policy) => final(store)@ == Some(policy@) && reloaded == Ok::<bool, PolicyError>(
                old(store)@ != Some(policy@),
            ),
            Err(_) => reloaded is Err && final(store)@ == old(store)@,
        },
{
}

/// A selector document has a mebibyte at most and is UTF-8; the policy in force is the one that was
/// parsed last.
pub proof fn law_selector_documents_are_bounded(
    bytes: Vec<u8>,
    path: &str,
    result: Result<String, PolicyError>,
    store: SelectorPolicyStore,
    active: Option<&SelectorPolicy>,
)
    requires
        call_ensures(bounded_document, (bytes, path), result),
        call_ensures(SelectorPolicyStore::active, (&store,), active),
    ensures
        result is Ok <==> bytes@.len() <= 1_048_576 && vstd::utf8::valid_utf8(bytes@),
        result matches Ok(document) ==> document@ == vstd::utf8::decode_utf8(bytes@),
        bytes@.len() > 1_048_576 <==> (result matches Err(PolicyError::TooLarge { .. })),
        active is Some <==> store@ is Some,
        active matches Some(policy) ==> store@ == Some(policy@),
{
}

/// Where all enabled names are defined, a refusal names an enabled profile with a blank rule and
/// the list that holds it: the includes, if one of them is blank.
pub proof fn law_blank_rules_are_reported_by_list(
    document: &SelectorDocument,
    error: PolicyError,
    profile: String,
    kind: &'static str,
)
    requires
        call_ensures(SelectorPolicy::parse, (document,), Err::<SelectorPolicy, _>(error)),
        error == (PolicyError::EmptyRule { profile, kind }),
    ensures
        exists|e: int|
            0 <= e < document@.enabled.len() && #[trigger] document@.enabled[e] == profile@,
        ({
            let rules = document@.rules(profile@);
            let included = exists|i: int|
                0 <= i < rules.includes.len() && (#[trigger] rule_forms(rules.includes)[i]).len()
                    == 0;
            let excluded = exists|i: int|
                0 <= i < rules.excludes.len() && (#[trigger] rule_forms(rules.excludes)[i]).len()
                    == 0;
            &&& included || excluded
            &&& included <==> kind@ == "include"@
            &&& !included <==> kind@ == "exclude"@
        }),
{
    reveal_strlit("include");
    reveal_strlit("exclude");
    assert("include"@[0] != "exclude"@[0]);
    lemma_faults_are_enabled(document@, document@.enabled.len() as int);
}

proof fn lemma_faults_are_enabled(model: DocumentModel, count: int)
    ensures
        model.first_fault(count) matches Some((name, kind)) ==> exists|e: int|
            0 <= e < count && #[trigger] model.enabled[e] == name && model.fault(e) == Some(kind),
    decreases count,
{
    if count > 0 {
        lemma_faults_are_enabled(model, count - 1);
        if model.first_fault(count - 1) is None && model.fault(count - 1) is Some {
            assert(model.enabled[count - 1] == model.first_fault(count)->Some_0.0);
        }
    }
}

/// Undefined names are reported exactly: those that are enabled and have no definition. An
/// activated policy goes by the windows alone, not by which of them is in the foreground.
pub proof fn law_undefined_names_are_reported_exactly(
    document: &SelectorDocument,
    names: Vec<String>,
    result: Result<SelectorPolicy, PolicyError>,
    name: Seq<char>,
)
    requires
        document.definitions.well_formed(),
        call_ensures(SelectorPolicy::parse, (document,), result),
    ensures
        result matches Ok(policy) ==> !policy@.prefer_foreground,
        result == Err::<SelectorPolicy, _>(PolicyError::UnknownProfiles { names }) ==> (text::texts(
            names@,
        ).contains(name) <==> document@.enabled.contains(name) && forall|p: int|
            0 <= p < document@.definitions.len() ==> (#[trigger] document@.definitions[p]).0
                != name),
{
    let model = document@;
    law_unknown_profiles_are_reported_by_name(model, name);
    names::lemma_lookup(model.definitions, name);
}

} // verus!
