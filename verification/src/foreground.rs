//! Foreground-window selection by a local policy.
//!
//! The preview's own window is ignored, so that focusing it preserves the last selected
//! application. A different disallowed foreground window also preserves that selection, while an
//! active target that becomes disallowed is explicitly cleared.
use vstd::prelude::*;
use crate::profiles::{self, PolicyError, SelectorDocument, SelectorPolicyStore};
use crate::selector::PolicyModel;
use crate::swap::{self, ForegroundWindow};

verus! {

/// Configuration reload cadence in milliseconds, far away from the per-frame preview path.
pub const CONFIG_RELOAD_INTERVAL_MS: u64 = 20_000;

/// Selection update delivered to the preview event loop.
#[derive(Debug, Clone, PartialEq, Eq)]
pub enum SelectorCommand {
    /// Replace the capture target with a newly validated foreground window.
    Select {
        /// Handle of the newly selected foreground window.
        hwnd: i64,
        /// Human-readable executable description used in lifecycle logging.
        capture_info: String,
    },
    /// Drop the current target because it no longer satisfies active policy.
    Clear,
}

/// Runtime configuration for the preview selector.
#[derive(Debug, Clone, PartialEq, Eq)]
pub struct SelectorConfig {
    /// Local selector profile document reloaded without server access.
    pub config_path: String,
    /// Preview window excluded before matching to prevent self-capture.
    pub ignored_hwnd: i64,
    /// Foreground-window polling cadence in milliseconds.
    pub poll_interval_ms: u64,
}

/// Policy-relevant metadata retained for active-target revalidation.
#[derive(Debug, Clone, PartialEq, Eq)]
pub struct SelectedWindow {
    /// Handle supplied to the capture session.
    pub hwnd: i64,
    /// Owning process used to detect handle reuse after a window closes.
    pub pid: u32,
    /// Executable path last observed for this window.
    pub executable_path: String,
}

/// What is selected.
pub struct SelectedModel {
    pub hwnd: i64,
    pub pid: u32,
    pub executable_path: Seq<char>,
}

impl View for SelectedWindow {
    type V = SelectedModel;

    open spec fn view(&self) -> SelectedModel {
        SelectedModel {
            hwnd: self.hwnd,
            pid: self.pid,
            executable_path: self.executable_path@,
        }
    }
}

/// Selector of one preview.
pub struct ForegroundSelector {
    policies: SelectorPolicyStore,
    selected: Option<SelectedWindow>,
    reload_at: u64,
    ignored_hwnd: i64,
}

/// What the selector knows.
pub struct ForegroundModel {
    pub policy: Option<PolicyModel>,
    pub selected: Option<SelectedModel>,
    pub reload_at: u64,
    pub ignored_hwnd: i64,
}

impl View for ForegroundSelector {
    type V = ForegroundModel;

    closed spec fn view(&self) -> ForegroundModel {
        ForegroundModel {
            policy: self.policies@,
            selected: match self.selected {
                Some(selected) => Some(selected@),
                None => None,
            },
            reload_at: self.reload_at,
            ignored_hwnd: self.ignored_hwnd,
        }
    }
}

impl ForegroundModel {
    /// Whether the policy in force allows an executable.
    pub open spec fn allows(self, executable_path: Seq<char>) -> bool {
        self.policy matches Some(policy) && profiles::allows(policy, executable_path)
    }

    /// What is selected is allowed by the policy in force.
    pub open spec fn well_formed(self) -> bool {
        self.selected matches Some(selected) ==> self.allows(selected.executable_path)
    }

    /// Whether a window is the selected one.
    pub open spec fn is_selected(self, hwnd: i64) -> bool {
        self.selected matches Some(selected) && selected.hwnd == hwnd
    }

    /// Whether a window of a process is the selected one.
    pub open spec fn still_selected(self, hwnd: i64, pid: u32) -> bool {
        self.selected matches Some(selected) && selected.hwnd == hwnd && selected.pid == pid
    }
}

impl ForegroundSelector {
    /// Starts without a policy and without a selection, and with a reload due.
    pub fn new(config: &SelectorConfig, now_ms: u64) -> (selector: ForegroundSelector)
        ensures
            selector@ == (ForegroundModel {
                policy: None,
                selected: None,
                reload_at: now_ms,
                ignored_hwnd: config.ignored_hwnd,
            }),
            selector@.well_formed(),
    {
        ForegroundSelector {
            policies: SelectorPolicyStore::default(),
            selected: None,
            reload_at: now_ms,
            ignored_hwnd: config.ignored_hwnd,
        }
    }

    /// Tells whether the policy is to be reloaded, and sets the time of the next reload.
    pub fn reload_due(&mut self, now_ms: u64) -> (due: bool)
        requires
            now_ms + CONFIG_RELOAD_INTERVAL_MS <= u64::MAX,
        ensures
            due == (now_ms >= old(self)@.reload_at),
            final(self)@ == if due {
                ForegroundModel {
                    reload_at: (now_ms + CONFIG_RELOAD_INTERVAL_MS) as u64,
                    ..old(self)@
                }
            } else {
                old(self)@
            },
    {
        if now_ms >= self.reload_at {
            self.reload_at = now_ms + CONFIG_RELOAD_INTERVAL_MS;
            return true;
        }
        false
    }

    /// Reload policy atomically and revoke a selected target excluded by the update.
    ///
    /// A document that is refused retains the last valid policy and the selection.
    pub fn reload_policy(&mut self, document: Result<SelectorDocument, PolicyError>) -> (result: (
        Result<bool, PolicyError>,
        Option<SelectorCommand>,
    ))
        requires
            old(self)@.well_formed(),
        ensures
            final(self)@.well_formed(),
            final(self)@.reload_at == old(self)@.reload_at,
            final(self)@.ignored_hwnd == old(self)@.ignored_hwnd,
            match document {
                Err(error) => result.0 == Err::<bool, PolicyError>(error) && result.1 is None
                    && final(self)@ == old(self)@,
                Ok(document) => match result.0 {
                    Err(error) => !document@.acceptable() && document@.reports(error) && result.1
                        is None && final(self)@ == old(self)@,
                    Ok(changed) => {
                        &&& document@.acceptable()
                        &&& final(self)@.policy == Some(document@.policy())
                        &&& changed == (old(self)@.policy != Some(document@.policy()))
                        &&& if old(self)@.selected matches Some(selected) && !profiles::allows(
                            document@.policy(),
                            selected.executable_path,
                        ) {
                            final(self)@.selected is None && result.1 == Some(
                                SelectorCommand::Clear,
                            )
                        } else {
                            final(self)@.selected == old(self)@.selected && result.1 is None
                        }
                    },
                },
            },
    {
        match self.policies.reload_document(document) {
            Err(error) => (Err(error), None),
            Ok(false) => (Ok(false), None),
            Ok(true) => {
                let remains_allowed = match &self.selected {
                    None => true,
                    Some(window) => match self.policies.active() {
                        Some(policy) => policy.allows_executable(window.executable_path.as_str()),
                        None => false,
                    },
                };
                if remains_allowed {
                    return (Ok(true), None);
                }
                self.selected = None;
                (Ok(true), Some(SelectorCommand::Clear))
            },
        }
    }

    /// Tells whether a foreground window would be newly selected.
    pub fn selects(&self, window: &ForegroundWindow, pid: u32) -> (answer: bool)
        ensures
            answer == (window.hwnd != self@.ignored_hwnd && self@.allows(window.executable_path@)
                && !self@.still_selected(window.hwnd, pid)),
    {
        if self.ignored_hwnd == window.hwnd {
            return false;
        }
        let allowed = match self.policies.active() {
            Some(policy) => policy.allows_executable(window.executable_path.as_str()),
            None => false,
        };
        if !allowed {
            return false;
        }
        match &self.selected {
            Some(current) => !(current.hwnd == window.hwnd && current.pid == pid),
            None => true,
        }
    }

    /// Revalidate one foreground candidate and give the target transition it needs.
    ///
    /// Disallowed windows do not replace a different valid selection, but a selected window that
    /// becomes disallowed is cleared immediately.
    pub fn select_foreground(
        &mut self,
        window: &ForegroundWindow,
        pid: u32,
        description: Option<String>,
    ) -> (command: Option<SelectorCommand>)
        requires
            old(self)@.well_formed(),
        ensures
            final(self)@.well_formed(),
            if old(self)@.policy is None || window.hwnd == old(self)@.ignored_hwnd {
                command is None && final(self)@ == old(self)@
            } else if !old(self)@.allows(window.executable_path@) {
                if old(self)@.is_selected(window.hwnd) {
                    command == Some(SelectorCommand::Clear) && final(self)@ == (ForegroundModel {
                        selected: None,
                        ..old(self)@
                    })
                } else {
                    command is None && final(self)@ == old(self)@
                }
            } else {
                &&& final(self)@ == (ForegroundModel {
                    selected: Some(
                        SelectedModel {
                            hwnd: window.hwnd,
                            pid,
                            executable_path: window.executable_path@,
                        },
                    ),
                    ..old(self)@
                })
                &&& if old(self)@.still_selected(window.hwnd, pid) {
                    command is None
                } else {
                    command matches Some(SelectorCommand::Select { hwnd, capture_info }) && hwnd
                        == window.hwnd && capture_info@ == swap::described(*window, description)
                }
            },
    {
        if self.ignored_hwnd == window.hwnd {
            return None;
        }
        let allowed = match self.policies.active() {
            Some(policy) => policy.allows_executable(window.executable_path.as_str()),
            None => {
                return None;
            },
        };
        let same_window = match &self.selected {
            Some(current) => current.hwnd == window.hwnd,
            None => false,
        };
        if !allowed {
            if same_window {
                self.selected = None;
                return Some(SelectorCommand::Clear);
            }
            return None;
        }
        let same_process = match &self.selected {
            Some(current) => current.pid == pid,
            None => false,
        };
        self.selected = Some(
            SelectedWindow {
                hwnd: window.hwnd,
                pid,
                executable_path: window.executable_path.clone(),
            },
        );
        if same_window && same_process {
            return None;
        }
        let capture_info = match description {
            Some(description) => if description.as_str().is_empty() {
                window.title.clone()
            } else {
                description
            },
            None => window.title.clone(),
        };
        Some(SelectorCommand::Select { hwnd: window.hwnd, capture_info })
    }
}

/// The foreground window is selected exactly if the policy allows its executable and it is neither
/// the preview itself nor selected already. Where the policy does not allow it, it is given up if
/// it is the selected one, and any other selection stays.
pub proof fn law_allowed_foregrounds_are_selected(
    selector: &mut ForegroundSelector,
    policy: profiles::SelectorPolicy,
    window: ForegroundWindow,
    path: &str,
    pid: u32,
    description: Option<String>,
    allowed: bool,
    command: Option<SelectorCommand>,
)
    requires
        old(selector)@.policy == Some(policy@),
        path@ == window.executable_path@,
        call_ensures(profiles::SelectorPolicy::allows_executable, (&policy, path), allowed),
        call_ensures(
            ForegroundSelector::select_foreground,
            (selector, &window, pid, description),
            command,
        ),
    ensures
        ({
            let before = old(selector)@;
            let after = final(selector)@;
            let own = window.hwnd == before.ignored_hwnd;
            let shown = before.selected is Some && before.selected->Some_0.hwnd == window.hwnd;
            let same = shown && before.selected->Some_0.pid == pid;
            &&& command is Some && command->Some_0 is Select <==> allowed && !own && !same
            &&& command == Some(SelectorCommand::Clear) <==> !allowed && !own && shown
            &&& command matches Some(SelectorCommand::Select { hwnd, capture_info }) ==> {
                let told = description is Some && description->Some_0@.len() > 0;
                &&& hwnd == window.hwnd
                &&& told ==> capture_info@ == description->Some_0@
                &&& !told ==> capture_info@ == window.title@
            }
            &&& allowed && !own ==> after.selected is Some && after.selected->Some_0.hwnd
                == window.hwnd && after.selected->Some_0.pid == pid
                && after.selected->Some_0.executable_path == window.executable_path@
            &&& !allowed && !own && shown ==> after.selected is None
            &&& own || (!allowed && !shown) ==> after.selected == before.selected
            &&& after.policy == before.policy
        }),
{
}

/// Without a policy nothing is selected.
pub proof fn law_nothing_is_selected_without_a_policy(
    config: SelectorConfig,
    now_ms: u64,
    fresh: ForegroundSelector,
    selector: &mut ForegroundSelector,
    window: ForegroundWindow,
    pid: u32,
    description: Option<String>,
    command: Option<SelectorCommand>,
)
    requires
        call_ensures(ForegroundSelector::new, (&config, now_ms), fresh),
        *old(selector) == fresh,
        call_ensures(
            ForegroundSelector::select_foreground,
            (selector, &window, pid, description),
            command,
        ),
    ensures
        fresh@.ignored_hwnd == config.ignored_hwnd,
        fresh@.reload_at == now_ms,
        command is None,
        final(selector)@.selected is None,
{
}

/// A document that parses becomes the policy in force, and a selection that it does not allow is
/// given up; a document that does not changes nothing.
pub proof fn law_reloads_revoke_what_is_not_allowed(
    selector: &mut ForegroundSelector,
    document: SelectorDocument,
    parsed: Result<profiles::SelectorPolicy, PolicyError>,
    path: &str,
    allowed: bool,
    result: (Result<bool, PolicyError>, Option<SelectorCommand>),
)
    requires
        call_ensures(profiles::SelectorPolicy::parse, (&document,), parsed),
        call_ensures(
            ForegroundSelector::reload_policy,
            (selector, Ok::<_, PolicyError>(document)),
            result,
        ),
        old(selector)@.selected is Some,
        path@ == old(selector)@.selected->Some_0.executable_path,
        parsed matches Ok(policy) ==> call_ensures(
            profiles::SelectorPolicy::allows_executable,
            (&policy, path),
            allowed,
        ),
    ensures
        result.0 is Ok <==> parsed is Ok,
        parsed is Err ==> final(selector)@ == old(selector)@ && result.1 is None,
        parsed matches Ok(policy) ==> {
            &&& final(selector)@.policy == Some(policy@)
            &&& allowed ==> result.1 is None && final(selector)@.selected == old(selector)@.selected
            &&& !allowed ==> result.1 == Some(SelectorCommand::Clear) && final(
                selector)@.selected is None
        },
{
}

/// The policy is reloaded at once and then every twenty seconds.
pub proof fn law_policies_are_reloaded_every_twenty_seconds(
    selector: &mut ForegroundSelector,
    again: &mut ForegroundSelector,
    now_ms: u64,
    later_ms: u64,
    due: (bool, bool),
)
    requires
        now_ms + 20_000 <= u64::MAX && later_ms + 20_000 <= u64::MAX,
        old(selector)@.reload_at <= now_ms,
        call_ensures(ForegroundSelector::reload_due, (selector, now_ms), due.0),
        *old(again) == *final(selector),
        call_ensures(ForegroundSelector::reload_due, (again, later_ms), due.1),
    ensures
        due.0,
        due.1 <==> later_ms >= now_ms + 20_000,
        final(again)@.selected == old(selector)@.selected,
{
}

/// A window is described exactly where its selection would be new.
pub proof fn law_new_selections_are_told_beforehand(
    before: ForegroundSelector,
    selector: &mut ForegroundSelector,
    window: ForegroundWindow,
    pid: u32,
    description: Option<String>,
    answer: bool,
    command: Option<SelectorCommand>,
)
    requires
        *old(selector) == before,
        call_ensures(ForegroundSelector::selects, (&before, &window, pid), answer),
        call_ensures(
            ForegroundSelector::select_foreground,
            (selector, &window, pid, description),
            command,
        ),
    ensures
        answer <==> command is Some && command->Some_0 is Select,
{
}

/// A document that parses becomes the policy in force whatever is selected, and the reload tells
/// whether it changed the policy; without a selection nothing is given up. What could not be read
/// at all changes nothing.
pub proof fn law_reloads_take_effect_without_a_selection(
    selector: &mut ForegroundSelector,
    document: SelectorDocument,
    parsed: Result<profiles::SelectorPolicy, PolicyError>,
    result: (Result<bool, PolicyError>, Option<SelectorCommand>),
    unread: &mut ForegroundSelector,
    error: PolicyError,
    refused: (Result<bool, PolicyError>, Option<SelectorCommand>),
)
    requires
        old(selector)@.selected is None,
        call_ensures(profiles::SelectorPolicy::parse, (&document,), parsed),
        call_ensures(
            ForegroundSelector::reload_policy,
            (selector, Ok::<_, PolicyError>(document)),
            result,
        ),
        call_ensures(
            ForegroundSelector::reload_policy,
            (unread, Err::<SelectorDocument, _>(error)),
            refused,
        ),
    ensures
        result.0 is Ok <==> parsed is Ok,
        result.1 is None,
        parsed matches Ok(policy) ==> final(selector)@.policy == Some(policy@) && result.0 == Ok::<
            bool,
            PolicyError,
        >(old(selector)@.policy != Some(policy@)),
        parsed is Err ==> final(selector)@ == old(selector)@,
        final(selector)@.selected is None,
        refused.0 == Err::<bool, _>(error) && refused.1 is None && final(unread)@ == old(unread)@,
{
}

} // verus!
