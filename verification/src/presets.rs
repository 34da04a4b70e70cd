//! Selector presets stored by the server.
use vstd::prelude::*;
use crate::names::{self, NameMap};
use crate::patterns::{PresetConfig, PresetModel};
use crate::text;

verus! {

/// The patterns of the default preset.
pub open spec fn default_patterns() -> Seq<Seq<char>> {
    seq![
        "@code devenv.exe"@,
        "@code C:/Program Files/Microsoft Visual Studio Code/Code.exe"@,
        "@code C:/Program Files/JetBrains/"@,
        "@game D:/7-Games/"@,
        "@game D:/7-Games.Steam/steamapps/common/"@,
        "@game E:/Nekomaru-Games/"@,
        "@game E:/SteamLibrary/steamapps/common/"@,
        "@exclude gogh.exe"@,
        "@exclude vtube studio.exe"@,
    ]
}

/// Whether a config holds the default preset alone.
pub open spec fn is_default(config: PresetModel) -> bool {
    &&& config.preset == "main"@
    &&& config.presets.len() == 1
    &&& config.presets[0].0 == "main"@
    &&& text::texts(config.presets[0].1) == default_patterns()
}

/// Default selector config, used when none is stored.
pub fn default_config() -> (config: PresetConfig)
    ensures
        is_default(config@),
        config@.active() == Some(default_patterns()),
{
    let mut patterns: Vec<String> = Vec::new();
    patterns.push("@code devenv.exe".to_owned());
    patterns.push("@code C:/Program Files/Microsoft Visual Studio Code/Code.exe".to_owned());
    patterns.push("@code C:/Program Files/JetBrains/".to_owned());
    patterns.push("@game D:/7-Games/".to_owned());
    patterns.push("@game D:/7-Games.Steam/steamapps/common/".to_owned());
    patterns.push("@game E:/Nekomaru-Games/".to_owned());
    patterns.push("@game E:/SteamLibrary/steamapps/common/".to_owned());
    patterns.push("@exclude gogh.exe".to_owned());
    patterns.push("@exclude vtube studio.exe".to_owned());
    assert(text::texts(patterns@) =~= default_patterns());
    let ghost listed = patterns@;
    let mut presets: NameMap<Vec<String>> = NameMap::new();
    proof {
        names::law_reads_follow_writes(presets@, "main"@, listed, "main"@);
    }
    presets.insert("main".to_owned(), patterns);
    proof {
        let empty = Seq::<(Seq<char>, Seq<String>)>::empty();
        names::lemma_rank(empty, "main"@);
        assert(presets@ == names::with_entry(empty, "main"@, listed));
        assert(presets@ =~= seq![("main"@, listed)]);
    }
    PresetConfig { preset: "main".to_owned(), presets }
}

/// Stored selector config.
pub struct SelectorConfig {
    pub config: PresetConfig,
}

/// Why a preset is not switched to.
pub open spec fn preset_fault(config: PresetModel, name: Seq<char>) -> Option<Seq<char>> {
    if name.len() == 0 {
        Some("preset name required"@)
    } else if names::lookup(config.presets, name) is None {
        Some("preset \""@ + name + "\" not found"@)
    } else {
        None
    }
}

impl SelectorConfig {
    /// Takes over what was read, or the default without it.
    pub fn load(stored: Option<PresetConfig>) -> (selector: SelectorConfig)
        ensures
            match stored {
                Some(config) => selector.config == config,
                None => is_default(selector.config@),
            },
    {
        match stored {
            Some(config) => SelectorConfig { config },
            None => SelectorConfig { config: default_config() },
        }
    }

    /// Takes over what was read; without it everything stays.
    pub fn reload(&mut self, stored: Option<PresetConfig>)
        ensures
            final(self).config == match stored {
                Some(config) => config,
                None => old(self).config,
            },
    {
        if let Some(config) = stored {
            self.config = config;
        }
    }

    /// Switch the active preset by name, after taking over what was read from disk.
    ///
    /// A missing name is refused before anything is read. An unknown name leaves the preset as
    /// it was read.
    pub fn set_preset(&mut self, body: &[u8], stored: Option<PresetConfig>) -> (result: Result<
        (),
        String,
    >)
        ensures
            ({
                let name = text::trimmed(text::utf8_lossy(body@));
                let read = match stored {
                    Some(config) => config@,
                    None => old(self).config@,
                };
                match result {
                    Ok(()) => name.len() > 0 && names::lookup(read.presets, name) is Some
                        && final(self).config@ == (PresetModel { preset: name, ..read }),
                    Err(message) => {
                        &&& preset_fault(read, name) == Some(message@)
                        &&& final(self).config@ == if name.len() == 0 {
                            old(self).config@
                        } else {
                            read
                        }
                    },
                }
            }),
    {
        let decoded = text::decode_lossy(body);
        let name = text::trim(decoded.as_str());
        if name.as_str().is_empty() {
            return Err("preset name required".to_owned());
        }
        self.reload(stored);
        if !self.config.presets.contains(name.as_str()) {
            let mut message = "preset \"".to_owned();
            text::push_text(&mut message, name.as_str());
            text::push_text(&mut message, "\" not found");
            return Err(message);
        }
        self.config.preset = name;
        Ok(())
    }
}

/// Without a stored configuration the preset `main` is active, and it exists.
pub proof fn law_default_preset_is_active(
    config: PresetConfig,
    loaded: SelectorConfig,
    stored: PresetConfig,
    taken: SelectorConfig,
)
    requires
        call_ensures(default_config, (), config),
        call_ensures(SelectorConfig::load, (None::<PresetConfig>,), loaded),
        call_ensures(SelectorConfig::load, (Some(stored),), taken),
    ensures
        config@.preset == "main"@,
        config@.presets.len() == 1 && config@.presets[0].0 == "main"@,
        loaded.config@.preset == "main"@,
        loaded.config@.presets.len() == 1 && loaded.config@.presets[0].0 == "main"@,
        taken.config == stored,
{
}

/// What is read replaces what is held; where nothing is read everything stays.
pub proof fn law_reloads_take_over_what_is_read(
    selector: &mut SelectorConfig,
    stored: Option<PresetConfig>,
)
    requires
        call_ensures(SelectorConfig::reload, (selector, stored), ()),
    ensures
        stored matches Some(config) ==> final(selector).config == config,
        stored is None ==> final(selector).config == old(selector).config,
{
}

/// Whether some preset has a name.
pub open spec fn offers(config: PresetModel, name: Seq<char>) -> bool {
    exists|k: int| 0 <= k < config.presets.len() && (#[trigger] config.presets[k]).0 == name
}

/// A preset is switched to exactly if its name, white space aside, is that of a preset that was
/// read; the patterns stay, and an unknown name leaves the active preset.
pub proof fn law_presets_are_switched_by_name(
    selector: &mut SelectorConfig,
    body: &[u8],
    stored: Option<PresetConfig>,
    result: Result<(), String>,
)
    requires
        old(selector).config.presets.well_formed(),
        stored matches Some(config) ==> config.presets.well_formed(),
        call_ensures(SelectorConfig::set_preset, (selector, body, stored), result),
    ensures
        ({
            let name = text::trimmed(text::utf8_lossy(body@));
            let read = match stored {
                Some(config) => config@,
                None => old(selector).config@,
            };
            &&& result is Ok <==> name.len() > 0 && offers(read, name)
            &&& result is Ok ==> final(selector).config@.preset == name && final(
                selector).config@.presets == read.presets
            &&& result is Err && name.len() > 0 ==> final(selector).config@ == read
            &&& name.len() == 0 ==> final(selector).config@ == old(selector).config@
        }),
{
    let name = text::trimmed(text::utf8_lossy(body@));
    let read = match stored {
        Some(config) => config@,
        None => old(selector).config@,
    };
    names::lemma_lookup(read.presets, name);
}

} // verus!
