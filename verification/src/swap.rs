//! Automatic window selection by server presets, and the stream info posted about it.
//!
//! On a matched swap the stream info is queued before the swap command, so that the viewers
//! learn of a new window ahead of its first frame. Between swaps the cached info is posted again
//! on every tick, so that a restarted server learns it too.
use vstd::prelude::*;
use crate::patterns::{self, CaptureMatch, PresetConfig, PresetModel};
use crate::text;

verus! {

/// The preset config is refreshed on the first tick and then on every tenth.
pub const CONFIG_POLL_EVERY: u32 = 10;

/// Command sent from the selector to the capture loop.
#[derive(Debug, Clone, PartialEq, Eq)]
pub struct SwapCommand {
    /// New window handle to capture.
    pub hwnd: i64,
    /// Human-readable label for the captured window.
    pub capture_info: String,
}

/// The foreground window of one tick.
#[derive(Debug, Clone, PartialEq, Eq)]
pub struct ForegroundWindow {
    /// Window handle.
    pub hwnd: i64,
    /// Current window title.
    pub title: String,
    /// Full executable path.
    pub executable_path: String,
}

/// One stream-info post.
#[derive(Debug, Clone, PartialEq, Eq)]
pub struct PostTask {
    pub hwnd: i64,
    pub title: String,
    pub file_description: String,
    pub mode: Option<String>,
    /// Set on swap ticks. Such a task is never dropped.
    pub is_swap: bool,
}

/// What stream info says.
pub struct InfoModel {
    pub hwnd: i64,
    pub title: Seq<char>,
    pub file_description: Seq<char>,
    pub mode: Option<Seq<char>>,
}

impl PostTask {
    /// What the task posts.
    pub open spec fn info(self) -> InfoModel {
        InfoModel {
            hwnd: self.hwnd,
            title: self.title@,
            file_description: self.file_description@,
            mode: patterns::optional_string(self.mode),
        }
    }
}

/// Stream info of the last successful match.
#[derive(Debug, PartialEq, Eq)]
struct CachedStreamInfo {
    hwnd: i64,
    title: String,
    file_description: String,
    mode: Option<String>,
}

impl View for CachedStreamInfo {
    type V = InfoModel;

    closed spec fn view(&self) -> InfoModel {
        InfoModel {
            hwnd: self.hwnd,
            title: self.title@,
            file_description: self.file_description@,
            mode: patterns::optional_string(self.mode),
        }
    }
}

impl CachedStreamInfo {
    fn to_task(&self, is_swap: bool) -> (task: PostTask)
        ensures
            task.info() == self@,
            task.is_swap == is_swap,
    {
        let mode: Option<String> = match &self.mode {
            Some(mode) => Some(mode.clone()),
            None => None,
        };
        PostTask {
            hwnd: self.hwnd,
            title: self.title.clone(),
            file_description: self.file_description.clone(),
            mode,
            is_swap,
        }
    }
}

/// What happens on one tick: the post is queued first, then the command is sent.
#[derive(Debug, PartialEq, Eq)]
pub struct Tick {
    pub task: Option<PostTask>,
    pub swap: Option<SwapCommand>,
}

/// State of the selector between two ticks.
pub struct SelectorLoop {
    last_info: Option<CachedStreamInfo>,
    preset_config: Option<PresetConfig>,
    config_poll_counter: u32,
}

/// What the selector remembers.
pub struct LoopModel {
    pub last: Option<InfoModel>,
    pub config: Option<PresetModel>,
    pub counter: u32,
}

impl View for SelectorLoop {
    type V = LoopModel;

    closed spec fn view(&self) -> LoopModel {
        LoopModel {
            last: match self.last_info {
                Some(info) => Some(info@),
                None => None,
            },
            config: match self.preset_config {
                Some(config) => Some(config@),
                None => None,
            },
            counter: self.config_poll_counter,
        }
    }
}

impl LoopModel {
    /// The patterns in force, if any.
    pub open spec fn patterns(self) -> Option<Seq<Seq<char>>> {
        match self.config {
            Some(config) => config.active(),
            None => None,
        }
    }

    /// The mode under which a window replaces the captured one, if it does.
    pub open spec fn swap_mode(self, window: ForegroundWindow) -> Option<Option<Seq<char>>> {
        if self.last matches Some(last) && last.hwnd == window.hwnd {
            None
        } else {
            match self.patterns() {
                Some(all) => patterns::capture_mode(all, window.executable_path@, window.title@),
                None => None,
            }
        }
    }

    /// The info of a window that replaces the captured one.
    pub open spec fn swap_info(self, window: ForegroundWindow, described: Seq<char>) -> InfoModel {
        InfoModel {
            hwnd: window.hwnd,
            title: window.title@,
            file_description: described,
            mode: self.swap_mode(window)->Some_0,
        }
    }
}

/// What a window is called: the description of its executable, or its title without one.
pub open spec fn described(window: ForegroundWindow, description: Option<String>) -> Seq<char> {
    match description {
        Some(description) => if description@.len() > 0 {
            description@
        } else {
            window.title@
        },
        None => window.title@,
    }
}

impl SelectorLoop {
    /// Starts without a config and without a captured window.
    pub fn new() -> (selector: SelectorLoop)
        ensures
            selector@ == (LoopModel { last: None, config: None, counter: 0 }),
    {
        SelectorLoop { last_info: None, preset_config: None, config_poll_counter: 0 }
    }

    /// Counts a tick, and tells whether the config is to be refreshed on it.
    pub fn config_due(&mut self) -> (due: bool)
        ensures
            due == (old(self)@.counter % CONFIG_POLL_EVERY == 0),
            final(self)@ == (LoopModel {
                counter: if old(self)@.counter == u32::MAX {
                    0
                } else {
                    (old(self)@.counter + 1) as u32
                },
                ..old(self)@
            }),
    {
        let due = self.config_poll_counter % CONFIG_POLL_EVERY == 0;
        self.config_poll_counter = if self.config_poll_counter == u32::MAX {
            0
        } else {
            self.config_poll_counter + 1
        };
        due
    }

    /// Replaces the config; a failed refresh keeps the last known one.
    pub fn refresh(&mut self, fetched: Option<PresetConfig>)
        ensures
            final(self)@ == match fetched {
                Some(config) => LoopModel { config: Some(config@), ..old(self)@ },
                None => old(self)@,
            },
    {
        if let Some(config) = fetched {
            self.preset_config = Some(config);
        }
    }

    /// Tells whether, and under which mode, a window replaces the captured one.
    pub fn stage(&self, window: &ForegroundWindow) -> (staged: Option<CaptureMatch>)
        ensures
            match staged {
                Some(found) => self@.swap_mode(*window) == Some(
                    patterns::optional_string(found.mode),
                ),
                None => self@.swap_mode(*window) is None,
            },
    {
        if let Some(last) = &self.last_info {
            if last.hwnd == window.hwnd {
                return None;
            }
        }
        let config = match &self.preset_config {
            Some(config) => config,
            None => {
                return None;
            },
        };
        match config.active_patterns() {
            None => None,
            Some(all) => patterns::should_capture(
                all.as_slice(),
                window.executable_path.as_str(),
                window.title.as_str(),
            ),
        }
    }

    /// Runs one tick: a window that replaces the captured one is announced and captured, and
    /// otherwise the cached info is posted again. Without patterns or without a foreground
    /// window nothing happens.
    pub fn tick(&mut self, window: Option<ForegroundWindow>, description: Option<String>) -> (tick:
        Tick)
        ensures
            final(self)@.config == old(self)@.config,
            final(self)@.counter == old(self)@.counter,
            match window {
                None => tick.task is None && tick.swap is None && final(self)@ == old(self)@,
                Some(window) => if old(self)@.patterns() is None {
                    tick.task is None && tick.swap is None && final(self)@ == old(self)@
                } else if old(self)@.swap_mode(window) is Some {
                    let info = old(self)@.swap_info(window, described(window, description));
                    &&& tick.task matches Some(task) && task.is_swap && task.info() == info
                    &&& tick.swap matches Some(swap) && swap.hwnd == window.hwnd
                        && swap.capture_info@ == info.file_description
                    &&& final(self)@.last == Some(info)
                } else {
                    &&& tick.swap is None
                    &&& final(self)@ == old(self)@
                    &&& match old(self)@.last {
                        Some(last) => tick.task matches Some(task) && !task.is_swap && task.info()
                            == last,
                        None => tick.task is None,
                    }
                },
            },
    {
        let window = match window {
            Some(window) => window,
            None => {
                return Tick { task: None, swap: None };
            },
        };
        let active = match &self.preset_config {
            Some(config) => config.active_patterns().is_some(),
            None => false,
        };
        if !active {
            return Tick { task: None, swap: None };
        }
        match self.stage(&window) {
            Some(found) => {
                let called = match description {
                    Some(description) => if description.as_str().is_empty() {
                        window.title.clone()
                    } else {
                        description
                    },
                    None => window.title.clone(),
                };
                let cached = CachedStreamInfo {
                    hwnd: window.hwnd,
                    title: window.title,
                    file_description: called.clone(),
                    mode: found.mode,
                };
                let task = cached.to_task(true);
                self.last_info = Some(cached);
                Tick {
                    task: Some(task),
                    swap: Some(SwapCommand { hwnd: window.hwnd, capture_info: called }),
                }
            },
            None => {
                let task = match &self.last_info {
                    Some(cached) => Some(cached.to_task(false)),
                    None => None,
                };
                Tick { task, swap: None }
            },
        }
    }
}

/// Which of some queued tasks is posted: the first swap, or the newest heartbeat without one.
pub open spec fn is_posted(tasks: Seq<PostTask>, at: int) -> bool {
    &&& 0 <= at < tasks.len()
    &&& forall|k: int| 0 <= k < at ==> !(#[trigger] tasks[k]).is_swap
    &&& tasks[at].is_swap || at == tasks.len() - 1
}

/// Picks the queued task that is posted next; what stands before it is dropped.
///
/// A heartbeat in front of a swap is replaced by the swap, which carries the up-to-date state.
pub fn coalesce(tasks: &[PostTask]) -> (at: usize)
    requires
        tasks@.len() > 0,
    ensures
        is_posted(tasks@, at as int),
{
    let mut at: usize = 0;
    while at < tasks.len() - 1 && !tasks[at].is_swap
        invariant
            at < tasks@.len(),
            forall|k: int| 0 <= k < at ==> !(#[trigger] tasks@[k]).is_swap,
        decreases tasks@.len() - at,
    {
        at = at + 1;
    }
    at
}

/// No swap is ever dropped, whatever is queued around it.
pub proof fn law_swaps_are_never_dropped(tasks: Seq<PostTask>, at: int, dropped: int)
    requires
        is_posted(tasks, at),
        0 <= dropped < at,
    ensures
        !tasks[dropped].is_swap,
{
}

/// Formats a window handle as it is posted: `0x` and upper-case hexadecimal digits.
pub open spec fn hwnd_text(hwnd: i64) -> Seq<char> {
    "0x"@ + text::hex_plain(word_of(hwnd))
}

/// The bits of a handle, read as an unsigned number.
pub open spec fn word_of(hwnd: i64) -> nat {
    if hwnd < 0 {
        (hwnd + 0x1_0000_0000_0000_0000) as nat
    } else {
        hwnd as nat
    }
}

/// Formats a window handle as it is posted.
pub fn format_hwnd(hwnd: i64) -> (text: String)
    ensures
        text@ == hwnd_text(hwnd),
{
    let wide: i128 = hwnd as i128;
    let word: u64 = if wide < 0 {
        (wide + 0x1_0000_0000_0000_0000) as u64
    } else {
        wide as u64
    };
    let mut text = "0x".to_owned();
    text::push_hex_plain(&mut text, word);
    text
}

/// A foreground window that the active patterns capture replaces whatever other window was
/// captured before: it is announced and swapped to, and remembered as captured. The one that is
/// captured already is neither announced nor swapped to again; its info is repeated.
pub proof fn law_admitted_windows_are_swapped_to(
    selector: &mut SelectorLoop,
    window: ForegroundWindow,
    description: Option<String>,
    tick: Tick,
    config: PresetConfig,
    active: Vec<String>,
    patterns: &[String],
    path: &str,
    title: &str,
    found: Option<CaptureMatch>,
)
    requires
        old(selector)@.config == Some(config@),
        call_ensures(PresetConfig::active_patterns, (&config,), Some(&active)),
        patterns@ == active@,
        path@ == window.executable_path@,
        title@ == window.title@,
        call_ensures(patterns::should_capture, (patterns, path, title), found),
        call_ensures(SelectorLoop::tick, (selector, Some(window), description), tick),
    ensures
        ({
            let other = old(selector)@.last is None || old(selector)@.last->Some_0.hwnd
                != window.hwnd;
            &&& other && found is Some ==> {
                &&& tick.swap matches Some(swap) && swap.hwnd == window.hwnd
                &&& tick.task matches Some(task) && task.is_swap && task.hwnd == window.hwnd
                    && task.title@ == window.title@ && patterns::optional_string(task.mode)
                    == patterns::optional_string(found->Some_0.mode)
                &&& final(selector)@.last matches Some(last) && last.hwnd == window.hwnd
            }
            &&& !other || found is None ==> {
                &&& tick.swap is None
                &&& final(selector)@.last == old(selector)@.last
                &&& tick.task matches Some(task) ==> !task.is_swap && Some(task.hwnd) == (
                match old(selector)@.last {
                    Some(last) => Some(last.hwnd),
                    None => None,
                })
            }
        }),
{
    let model = config@;
    assert(model.active() == Some(text::texts(active@)));
}

/// From the start, and across ticks: with a config in force, a captured window is followed by
/// any other one that is in the foreground and captured by the patterns, and is not followed by
/// itself.
pub proof fn law_captures_follow_the_foreground(
    started: SelectorLoop,
    configured: &mut SelectorLoop,
    first: &mut SelectorLoop,
    second: &mut SelectorLoop,
    config: PresetConfig,
    active: Vec<String>,
    patterns: &[String],
    window: ForegroundWindow,
    next: ForegroundWindow,
    paths: (&str, &str),
    titles: (&str, &str),
    found: (CaptureMatch, CaptureMatch),
    descriptions: (Option<String>, Option<String>),
    ticks: (Tick, Tick),
)
    requires
        call_ensures(SelectorLoop::new, (), started),
        *old(configured) == started,
        call_ensures(SelectorLoop::refresh, (configured, Some(config)), ()),
        *old(first) == *final(configured),
        *old(second) == *final(first),
        call_ensures(PresetConfig::active_patterns, (&config,), Some(&active)),
        patterns@ == active@,
        paths.0@ == window.executable_path@,
        titles.0@ == window.title@,
        paths.1@ == next.executable_path@,
        titles.1@ == next.title@,
        call_ensures(patterns::should_capture, (patterns, paths.0, titles.0), Some(found.0)),
        call_ensures(patterns::should_capture, (patterns, paths.1, titles.1), Some(found.1)),
        call_ensures(SelectorLoop::tick, (first, Some(window), descriptions.0), ticks.0),
        call_ensures(SelectorLoop::tick, (second, Some(next), descriptions.1), ticks.1),
    ensures
        ticks.0.swap matches Some(swap) && swap.hwnd == window.hwnd,
        window.hwnd != next.hwnd ==> (ticks.1.swap matches Some(swap) && swap.hwnd == next.hwnd),
        window.hwnd == next.hwnd ==> ticks.1.swap is None && (ticks.1.task matches Some(task)
            && !task.is_swap && task.hwnd == window.hwnd && task.title@ == window.title@),
{
    assert(config@.active() == Some(text::texts(active@)));
}

/// A window is called by the description of its executable, where there is one, and by its title
/// otherwise; what is announced and what is captured under it agree.
pub proof fn law_windows_are_called_by_their_description(
    selector: &mut SelectorLoop,
    window: ForegroundWindow,
    description: Option<String>,
    tick: Tick,
    swap: SwapCommand,
    task: PostTask,
)
    requires
        call_ensures(SelectorLoop::tick, (selector, Some(window), description), tick),
        tick.swap == Some(swap),
        tick.task == Some(task),
    ensures
        swap.hwnd == task.hwnd == window.hwnd,
        swap.capture_info@ == task.file_description@,
        description matches Some(text) ==> (text@.len() > 0 ==> swap.capture_info@ == text@),
        description is None || description->Some_0@.len() == 0 ==> swap.capture_info@
            == window.title@,
{
}

/// Posting picks the oldest swap, or the newest task where there is no swap.
pub proof fn law_oldest_swap_is_posted_first(tasks: &[PostTask], at: usize, swap: int)
    requires
        tasks@.len() > 0,
        call_ensures(coalesce, (tasks,), at),
        0 <= swap < tasks@.len(),
    ensures
        tasks@[swap].is_swap ==> tasks@[at as int].is_swap && at <= swap,
        (forall|k: int| 0 <= k < tasks@.len() ==> !(#[trigger] tasks@[k]).is_swap) ==> at
            == tasks@.len() - 1,
{
    if tasks@[swap].is_swap && at > swap {
        assert(!tasks@[swap].is_swap);
    }
}

/// The config is asked for on the first tick and on every tenth one.
pub proof fn law_config_is_polled_every_tenth_tick(
    selector: &mut SelectorLoop,
    due: bool,
    again: &mut SelectorLoop,
    next_due: bool,
)
    requires
        call_ensures(SelectorLoop::config_due, (selector,), due),
        *old(again) == *final(selector),
        call_ensures(SelectorLoop::config_due, (again,), next_due),
        old(selector)@.counter < u32::MAX,
    ensures
        old(selector)@.counter == 0 ==> due,
        due ==> !next_due,
        due <==> old(selector)@.counter % 10 == 0,
        final(selector)@.counter == old(selector)@.counter + 1,
        final(selector)@.last == old(selector)@.last,
        final(selector)@.config == old(selector)@.config,
{
}

/// A window is staged exactly if it is not the captured one and the active patterns capture it,
/// under the mode they give it.
pub proof fn law_staged_windows_are_captured_ones(
    selector: SelectorLoop,
    window: ForegroundWindow,
    config: PresetConfig,
    active: Vec<String>,
    patterns: &[String],
    path: &str,
    title: &str,
    found: Option<CaptureMatch>,
    staged: Option<CaptureMatch>,
)
    requires
        selector@.config == Some(config@),
        call_ensures(PresetConfig::active_patterns, (&config,), Some(&active)),
        patterns@ == active@,
        path@ == window.executable_path@,
        title@ == window.title@,
        call_ensures(patterns::should_capture, (patterns, path, title), found),
        call_ensures(SelectorLoop::stage, (&selector, &window), staged),
    ensures
        ({
            let other = selector@.last is None || selector@.last->Some_0.hwnd != window.hwnd;
            &&& staged is Some <==> other && found is Some
            &&& staged is Some ==> patterns::optional_string(staged->Some_0.mode)
                == patterns::optional_string(found->Some_0.mode)
        }),
{
    assert(config@.active() == Some(text::texts(active@)));
}

/// A window handle is posted in hexadecimal behind `0x`, a negative one by its 64 bits.
pub proof fn law_handles_are_posted_in_hexadecimal(hwnd: i64, shown: String, plain: &mut String)
    requires
        call_ensures(format_hwnd, (hwnd,), shown),
        old(plain)@ == "0x"@,
        call_ensures(
            text::push_hex_plain,
            (
                plain,
                (if hwnd < 0 {
                    hwnd + 0x1_0000_0000_0000_0000
                } else {
                    hwnd as int
                }) as u64,
            ),
            (),
        ),
    ensures
        shown@ == final(plain)@,
{
}

/// While the captured window stays, what was announced of it is repeated on every tick, and nothing
/// is repeated before anything was captured; without a foreground window or without a config
/// nothing happens. A refresh that failed keeps the config.
pub proof fn law_captured_windows_are_repeated(
    selector: &mut SelectorLoop,
    window: ForegroundWindow,
    description: Option<String>,
    tick: Tick,
    config: PresetConfig,
    active: Vec<String>,
    before: SelectorLoop,
    staged: Option<CaptureMatch>,
    idle: &mut SelectorLoop,
    idle_tick: Tick,
    unconfigured: &mut SelectorLoop,
    unconfigured_tick: Tick,
    refreshed: &mut SelectorLoop,
)
    requires
        *old(selector) == before,
        before@.config == Some(config@),
        call_ensures(PresetConfig::active_patterns, (&config,), Some(&active)),
        call_ensures(SelectorLoop::stage, (&before, &window), staged),
        call_ensures(SelectorLoop::tick, (selector, Some(window), description), tick),
        call_ensures(
            SelectorLoop::tick,
            (idle, None::<ForegroundWindow>, description),
            idle_tick,
        ),
        old(unconfigured)@.config is None,
        call_ensures(
            SelectorLoop::tick,
            (unconfigured, Some(window), description),
            unconfigured_tick,
        ),
        call_ensures(SelectorLoop::refresh, (refreshed, None::<PresetConfig>), ()),
    ensures
        staged is Some <==> tick.swap is Some,
        staged is None && before@.last is Some ==> {
            let last = before@.last->Some_0;
            tick.task matches Some(task) && !task.is_swap && task.hwnd == last.hwnd && task.title@
                == last.title && task.file_description@ == last.file_description
                && patterns::optional_string(task.mode) == last.mode
        },
        staged is None && before@.last is None ==> tick.task is None,
        staged is None ==> final(selector)@ == before@,
        idle_tick.task is None && idle_tick.swap is None && final(idle)@ == old(idle)@,
        unconfigured_tick.task is None && unconfigured_tick.swap is None && final(unconfigured)@
            == old(unconfigured)@,
        final(refreshed)@ == old(refreshed)@,
{
    assert(config@.active() == Some(text::texts(active@)));
}

} // verus!
