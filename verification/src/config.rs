//! The configuration document: profiles of pages of action buttons, with
//! window and summoning settings, and the validation rules a document must
//! pass before it replaces the active configuration.
//!
//! Window opacity is carried in thousandths, so that the whole document is
//! made of plain values. Loading and saving the document are the
//! surrounding application's work; this module owns its shape and rules.

use vstd::prelude::*;

verus! {

/// A plain configuration value: what a button's free-form key/value map
/// can hold. Mirrors the shape of a JSON document over plain values.
#[derive(Debug)]
pub enum ConfigValue {
    Null,
    Bool(bool),
    UInt(u64),
    Str(String),
    List(Vec<ConfigValue>),
    Object(Vec<(String, ConfigValue)>),
}

impl ConfigValue {
    pub fn as_str(&self) -> (r: Option<&String>)
        ensures
            match r {
                Some(s) => *self matches ConfigValue::Str(v) && v == *s,
                None => !(*self is Str),
            },
    {
        match self {
            ConfigValue::Str(s) => Some(s),
            _ => None,
        }
    }

    pub fn as_u64(&self) -> (r: Option<u64>)
        ensures
            match r {
                Some(n) => *self == ConfigValue::UInt(n),
                None => !(*self is UInt),
            },
    {
        match self {
            ConfigValue::UInt(n) => Some(*n),
            _ => None,
        }
    }

    pub fn as_bool(&self) -> (r: Option<bool>)
        ensures
            match r {
                Some(b) => *self == ConfigValue::Bool(b),
                None => !(*self is Bool),
            },
    {
        match self {
            ConfigValue::Bool(b) => Some(*b),
            _ => None,
        }
    }

    pub fn as_list(&self) -> (r: Option<&Vec<ConfigValue>>)
        ensures
            match r {
                Some(l) => *self matches ConfigValue::List(v) && v == *l,
                None => !(*self is List),
            },
    {
        match self {
            ConfigValue::List(l) => Some(l),
            _ => None,
        }
    }

    pub fn as_object(&self) -> (r: Option<&Vec<(String, ConfigValue)>>)
        ensures
            match r {
                Some(m) => *self matches ConfigValue::Object(v) && v == *m,
                None => !(*self is Object),
            },
    {
        match self {
            ConfigValue::Object(m) => Some(m),
            _ => None,
        }
    }
}

/// Structural equality of configuration values, comparing strings by
/// their characters.
pub open spec fn cv_equal(a: ConfigValue, b: ConfigValue) -> bool
    decreases a,
{
    match (a, b) {
        (ConfigValue::Null, ConfigValue::Null) => true,
        (ConfigValue::Bool(x), ConfigValue::Bool(y)) => x == y,
        (ConfigValue::UInt(x), ConfigValue::UInt(y)) => x == y,
        (ConfigValue::Str(x), ConfigValue::Str(y)) => x@ == y@,
        (ConfigValue::List(x), ConfigValue::List(y)) => x@.len() == y@.len() && (forall|i: int|
            0 <= i < x@.len() ==> cv_equal(#[trigger] x@[i], y@[i])),
        (ConfigValue::Object(x), ConfigValue::Object(y)) => x@.len() == y@.len() && (forall|
            i: int,
        |
            0 <= i < x@.len() ==> (#[trigger] x@[i]).0@ == y@[i].0@ && cv_equal(
                x@[i].1,
                y@[i].1,
            )),
        _ => false,
    }
}

impl ConfigValue {
    /// A structurally equal copy.
    pub fn deep_clone(&self) -> (r: ConfigValue)
        ensures
            cv_equal(r, *self),
        decreases *self,
    {
        match self {
            ConfigValue::Null => ConfigValue::Null,
            ConfigValue::Bool(b) => ConfigValue::Bool(*b),
            ConfigValue::UInt(n) => ConfigValue::UInt(*n),
            ConfigValue::Str(s) => ConfigValue::Str(s.clone()),
            ConfigValue::List(l) => {
                let mut out: Vec<ConfigValue> = Vec::new();
                let mut i: usize = 0;
                while i < l.len()
                    invariant
                        i <= l@.len(),
                        *self == ConfigValue::List(*l),
                        out@.len() == i,
                        forall|k: int| 0 <= k < i ==> cv_equal(#[trigger] out@[k], l@[k]),
                    decreases l@.len() - i,
                {
                    proof {
                        assert(decreases_to!(*self => (*self)->List_0));
                        assert((*self)->List_0 == *l);
                        assert(decreases_to!(*l => l@));
                        assert(decreases_to!(l@ => l@[i as int]));
                    }
                    let c = l[i].deep_clone();
                    out.push(c);
                    i = i + 1;
                }
                ConfigValue::List(out)
            },
            ConfigValue::Object(o) => {
                let mut out: Vec<(String, ConfigValue)> = Vec::new();
                let mut i: usize = 0;
                while i < o.len()
                    invariant
                        i <= o@.len(),
                        *self == ConfigValue::Object(*o),
                        out@.len() == i,
                        forall|k: int|
                            0 <= k < i ==> (#[trigger] out@[k]).0@ == o@[k].0@ && cv_equal(
                                out@[k].1,
                                o@[k].1,
                            ),
                    decreases o@.len() - i,
                {
                    proof {
                        assert(decreases_to!(*self => (*self)->Object_0));
                        assert((*self)->Object_0 == *o);
                        assert(decreases_to!(*o => o@));
                        assert(decreases_to!(o@ => o@[i as int]));
                        assert(decreases_to!(o@[i as int] => o@[i as int].1));
                    }
                    let c = o[i].1.deep_clone();
                    out.push((o[i].0.clone(), c));
                    i = i + 1;
                }
                ConfigValue::Object(out)
            },
        }
    }
}

/// The first value bound to `key` in a key/value list.
pub open spec fn map_lookup(m: Seq<(String, ConfigValue)>, key: Seq<char>) -> Option<int>
    decreases m.len(),
{
    if m.len() == 0 {
        None
    } else if m.first().0@ == key {
        Some(0)
    } else {
        match map_lookup(m.drop_first(), key) {
            Some(i) => Some(i + 1),
            None => None,
        }
    }
}

proof fn lemma_map_lookup_bounds(m: Seq<(String, ConfigValue)>, key: Seq<char>)
    ensures
        match map_lookup(m, key) {
            Some(i) => 0 <= i < m.len() && m[i].0@ == key,
            None => true,
        },
    decreases m.len(),
{
    if m.len() > 0 && m.first().0@ != key {
        lemma_map_lookup_bounds(m.drop_first(), key);
    }
}

/// A key found at `i`, with no earlier entry bearing it, is what the
/// lookup returns.
pub proof fn lemma_map_lookup_first_match(m: Seq<(String, ConfigValue)>, key: Seq<char>, i: int)
    requires
        0 <= i < m.len(),
        m[i].0@ == key,
        forall|j: int| 0 <= j < i ==> (#[trigger] m[j]).0@ != key,
    ensures
        map_lookup(m, key) == Some(i),
    decreases i,
{
    if i == 0 {
    } else {
        assert(m.drop_first()[i - 1] == m[i]);
        assert(forall|j: int| 0 <= j < i - 1 ==> (#[trigger] m.drop_first()[j]) == m[j + 1]);
        lemma_map_lookup_first_match(m.drop_first(), key, i - 1);
    }
}

/// A key no entry bears is not found.
pub proof fn lemma_map_lookup_absent(m: Seq<(String, ConfigValue)>, key: Seq<char>)
    requires
        forall|j: int| 0 <= j < m.len() ==> (#[trigger] m[j]).0@ != key,
    ensures
        map_lookup(m, key) is None,
    decreases m.len(),
{
    if m.len() > 0 {
        assert(forall|j: int|
            0 <= j < m.drop_first().len() ==> (#[trigger] m.drop_first()[j]) == m[j + 1]);
        lemma_map_lookup_absent(m.drop_first(), key);
    }
}

/// The first entry of `m` whose key is `key`.
pub fn map_get<'a>(m: &'a Vec<(String, ConfigValue)>, key: &str) -> (r: Option<&'a ConfigValue>)
    ensures
        match r {
            Some(v) => map_lookup(m@, key@) matches Some(i) && 0 <= i < m@.len() && m@[i].1 == *v,
            None => map_lookup(m@, key@) is None,
        },
{
    proof {
        assert(m@.subrange(0, m@.len() as int) =~= m@);
        lemma_map_lookup_bounds(m@, key@);
    }
    map_get_from(m, 0, key)
}

fn map_get_from<'a>(m: &'a Vec<(String, ConfigValue)>, from: usize, key: &str) -> (r: Option<
    &'a ConfigValue,
>)
    requires
        from <= m@.len(),
    ensures
        match r {
            Some(v) => map_lookup(m@.subrange(from as int, m@.len() as int), key@) matches Some(i)
                && from + i < m@.len() && m@[from + i].1 == *v,
            None => map_lookup(m@.subrange(from as int, m@.len() as int), key@) is None,
        },
    decreases m@.len() - from,
{
    let ghost suffix = m@.subrange(from as int, m@.len() as int);
    if from >= m.len() {
        None
    } else {
        proof {
            assert(suffix.first() == m@[from as int]);
            assert(suffix.drop_first() =~= m@.subrange(from + 1, m@.len() as int));
        }
        if crate::text::str_eq(m[from].0.as_str(), key) {
            Some(&m[from].1)
        } else {
            map_get_from(m, from + 1, key)
        }
    }
}

#[derive(Debug, Clone, Copy, PartialEq, Eq, Structural)]
pub struct Position {
    pub row: u32,
    pub col: u32,
}

/// The action variant a button is bound to.
#[derive(Debug, Clone, Copy, PartialEq, Eq, Structural)]
pub enum ActionType {
    LaunchApp,
    Open,
    Terminal,
    SendKeys,
    PowerShell,
    Folder,
    MultiAction,
}

#[derive(Debug, Clone)]
pub struct ButtonStyle {
    pub background_color: Option<String>,
    pub text_color: Option<String>,
    pub font_size: Option<u32>,
    pub font_family: Option<String>,
}

/// A declarative action reference a button may carry beside its free-form
/// configuration map.
#[derive(Debug)]
pub struct ActionConfig {
    pub action_type: String,
    pub system_action: Option<String>,
    pub app_config: Option<Vec<(String, ConfigValue)>>,
    pub command_config: Option<Vec<(String, ConfigValue)>>,
}

/// One grid button: a position, an action type, and the free-form
/// key/value map the action adapter reads.
#[derive(Debug)]
pub struct ActionButton {
    pub position: Position,
    pub action_type: ActionType,
    pub label: String,
    pub icon: Option<String>,
    pub config: Vec<(String, ConfigValue)>,
    pub style: Option<ButtonStyle>,
    pub action: Option<ActionConfig>,
}

#[derive(Debug)]
pub struct Page {
    pub name: String,
    pub rows: u32,
    pub cols: u32,
    pub buttons: Vec<ActionButton>,
}

#[derive(Debug)]
pub struct Profile {
    pub name: String,
    pub hotkey: Option<String>,
    pub pages: Vec<Page>,
}

#[derive(Debug, Clone)]
pub struct EdgeTriggerConfig {
    pub enabled: bool,
    pub edges: Vec<String>,
    pub dwell_ms: u32,
    pub margin_px: u32,
}

#[derive(Debug, Clone)]
pub struct SummonConfig {
    pub hotkeys: Vec<String>,
    pub edge_trigger: Option<EdgeTriggerConfig>,
}

#[derive(Debug, Clone, Copy, PartialEq, Eq, Structural)]
pub struct AnimationConfig {
    pub enabled: bool,
    pub duration_ms: u32,
}

/// Window settings. Opacity is carried in thousandths: 920 stands for an
/// opacity of ninety-two percent.
#[derive(Debug, Clone)]
pub struct WindowConfig {
    pub placement: String,
    pub width_px: u32,
    pub height_px: u32,
    pub cell_size_px: u32,
    pub gap_px: u32,
    pub opacity_per_mille: u32,
    pub theme: String,
    pub animation: AnimationConfig,
}

#[derive(Debug, Clone)]
pub struct UIConfig {
    pub summon: SummonConfig,
    pub window: WindowConfig,
}

/// The whole configuration document.
#[derive(Debug)]
pub struct QDeckConfig {
    pub version: String,
    pub ui: UIConfig,
    pub profiles: Vec<Profile>,
}

impl Default for AnimationConfig {
    fn default() -> (r: AnimationConfig)
        ensures
            r.enabled,
            r.duration_ms == 150,
    {
        AnimationConfig { enabled: true, duration_ms: 150 }
    }
}

impl Default for WindowConfig {
    fn default() -> (r: WindowConfig)
        ensures
            r.placement@ == "dropdown-top"@,
            r.width_px == 1000,
            r.height_px == 600,
            r.cell_size_px == 96,
            r.gap_px == 8,
            r.opacity_per_mille == 920,
            r.theme@ == "dark"@,
            r.animation.enabled && r.animation.duration_ms == 150,
    {
        WindowConfig {
            placement: String::from_str("dropdown-top"),
            width_px: 1000,
            height_px: 600,
            cell_size_px: 96,
            gap_px: 8,
            opacity_per_mille: 920,
            theme: String::from_str("dark"),
            animation: AnimationConfig { enabled: true, duration_ms: 150 },
        }
    }
}

impl Default for EdgeTriggerConfig {
    fn default() -> (r: EdgeTriggerConfig)
        ensures
            !r.enabled,
            r.edges@.len() == 1 && r.edges@[0]@ == "top"@,
            r.dwell_ms == 300,
            r.margin_px == 5,
    {
        let mut edges: Vec<String> = Vec::new();
        edges.push(String::from_str("top"));
        EdgeTriggerConfig { enabled: false, edges, dwell_ms: 300, margin_px: 5 }
    }
}

impl Default for SummonConfig {
    fn default() -> (r: SummonConfig)
        ensures
            r.hotkeys@.len() == 1 && r.hotkeys@[0]@ == "F11"@,
            r.edge_trigger is Some,
    {
        let mut hotkeys: Vec<String> = Vec::new();
        hotkeys.push(String::from_str("F11"));
        SummonConfig { hotkeys, edge_trigger: Some(EdgeTriggerConfig::default()) }
    }
}

impl Default for UIConfig {
    fn default() -> (r: UIConfig)
        ensures
            r.summon.hotkeys@.len() == 1,
            r.window.width_px == 1000 && r.window.height_px == 600,
            r.window.opacity_per_mille == 920,
    {
        UIConfig { summon: SummonConfig::default(), window: WindowConfig::default() }
    }
}

impl Default for Page {
    fn default() -> (r: Page)
        ensures
            r.name@ == "Main"@,
            r.rows == 3,
            r.cols == 6,
            r.buttons@.len() == 0,
    {
        Page { name: String::from_str("Main"), rows: 3, cols: 6, buttons: Vec::new() }
    }
}

impl Default for Profile {
    fn default() -> (r: Profile)
        ensures
            r.name@ == "Default"@,
            r.hotkey is None,
            r.pages@.len() == 1 && r.pages@[0].name@ == "Main"@ && r.pages@[0].rows == 3
                && r.pages@[0].cols == 6 && r.pages@[0].buttons@.len() == 0,
    {
        let mut pages: Vec<Page> = Vec::new();
        pages.push(Page::default());
        Profile { name: String::from_str("Default"), hotkey: None, pages }
    }
}

impl Default for QDeckConfig {
    fn default() -> (r: QDeckConfig)
        ensures
            r.version@ == "1.0"@,
            r.profiles@.len() == 1,
            valid_config(r),
    {
        let mut profiles: Vec<Profile> = Vec::new();
        profiles.push(Profile::default());
        let r = QDeckConfig { version: String::from_str("1.0"), ui: UIConfig::default(), profiles };
        proof {
            reveal_strlit("1.0");
            reveal_strlit("Default");
            reveal_strlit("Main");
        }
        r
    }
}

/// Why a configuration document was rejected.
#[derive(Debug, Clone, Copy, PartialEq, Eq, Structural)]
pub enum ConfigError {
    EmptyVersion,
    ZeroWindowDimensions,
    OpacityOutOfRange,
    NoProfiles,
    EmptyProfileName,
    ProfileWithoutPages,
    EmptyPageName,
    ZeroPageDimensions,
    ButtonOutOfBounds,
    EmptyButtonLabel,
}

/// A button must sit inside its page's grid and carry a label.
pub open spec fn valid_button(b: ActionButton, page: Page) -> bool {
    b.position.row <= page.rows && b.position.col <= page.cols && b.label@.len() > 0
}

/// A page must be named, have a non-empty grid, and hold only valid
/// buttons.
pub open spec fn valid_page(p: Page) -> bool {
    &&& p.name@.len() > 0
    &&& p.rows > 0
    &&& p.cols > 0
    &&& forall|i: int| 0 <= i < p.buttons@.len() ==> valid_button(#[trigger] p.buttons@[i], p)
}

/// A profile must be named and hold at least one valid page.
pub open spec fn valid_profile(p: Profile) -> bool {
    &&& p.name@.len() > 0
    &&& p.pages@.len() > 0
    &&& forall|i: int| 0 <= i < p.pages@.len() ==> valid_page(#[trigger] p.pages@[i])
}

/// What a configuration document must satisfy before it is accepted:
/// a version, a window with positive dimensions and an opacity of at most
/// one, and at least one valid profile.
pub open spec fn valid_config(c: QDeckConfig) -> bool {
    &&& c.version@.len() > 0
    &&& c.ui.window.width_px > 0
    &&& c.ui.window.height_px > 0
    &&& c.ui.window.opacity_per_mille <= 1000
    &&& c.profiles@.len() > 0
    &&& forall|i: int| 0 <= i < c.profiles@.len() ==> valid_profile(#[trigger] c.profiles@[i])
}

/// Holds the active configuration document and the path it came from, and
/// admits a replacement only after validation. Reading and writing the
/// file are the surrounding application's work.
pub struct ConfigManager {
    pub config_path: String,
    pub config: QDeckConfig,
}

impl ConfigManager {
    /// A manager over an already loaded document.
    pub fn with_config(config_path: String, config: QDeckConfig) -> (r: ConfigManager)
        ensures
            r.config_path == config_path,
            r.config == config,
    {
        ConfigManager { config_path, config }
    }

    pub fn get_config(&self) -> (r: &QDeckConfig)
        ensures
            r == &self.config,
    {
        &self.config
    }

    /// Replaces the active document when it validates; a rejected one
    /// leaves the active document untouched.
    pub fn update_config(&mut self, config: QDeckConfig) -> (r: Result<(), ConfigError>)
        ensures
            r is Ok <==> valid_config(config),
            r is Ok ==> final(self).config == config && final(self).config_path == old(
                self,
            ).config_path,
            r is Err ==> *final(self) == *old(self),
    {
        match self.validate_config(&config) {
            Ok(()) => {
                self.config = config;
                Ok(())
            },
            Err(e) => Err(e),
        }
    }

    /// Checks a document against the validation rules. Accepted exactly
    /// when the document is valid.
    pub fn validate_config(&self, config: &QDeckConfig) -> (r: Result<(), ConfigError>)
        ensures
            r is Ok <==> valid_config(*config),
    {
        if config.version.as_str().unicode_len() == 0 {
            return Err(ConfigError::EmptyVersion);
        }
        if config.ui.window.width_px == 0 || config.ui.window.height_px == 0 {
            return Err(ConfigError::ZeroWindowDimensions);
        }
        if config.ui.window.opacity_per_mille > 1000 {
            return Err(ConfigError::OpacityOutOfRange);
        }
        if config.profiles.len() == 0 {
            return Err(ConfigError::NoProfiles);
        }
        let mut i: usize = 0;
        while i < config.profiles.len()
            invariant
                i <= config.profiles@.len(),
                forall|k: int| 0 <= k < i ==> valid_profile(#[trigger] config.profiles@[k]),
            decreases config.profiles@.len() - i,
        {
            let profile = &config.profiles[i];
            if profile.name.as_str().unicode_len() == 0 {
                proof {
                    assert(!valid_profile(config.profiles@[i as int]));
                }
                return Err(ConfigError::EmptyProfileName);
            }
            if profile.pages.len() == 0 {
                proof {
                    assert(!valid_profile(config.profiles@[i as int]));
                }
                return Err(ConfigError::ProfileWithoutPages);
            }
            let mut j: usize = 0;
            while j < profile.pages.len()
                invariant
                    i < config.profiles@.len(),
                    *profile == config.profiles@[i as int],
                    j <= profile.pages@.len(),
                    profile.name@.len() > 0,
                    profile.pages@.len() > 0,
                    forall|k: int| 0 <= k < j ==> valid_page(#[trigger] profile.pages@[k]),
                decreases profile.pages@.len() - j,
            {
                let page = &profile.pages[j];
                if page.name.as_str().unicode_len() == 0 {
                    proof {
                        assert(!valid_page(profile.pages@[j as int]));
                        assert(!valid_profile(config.profiles@[i as int]));
                    }
                    return Err(ConfigError::EmptyPageName);
                }
                if page.rows == 0 || page.cols == 0 {
                    proof {
                        assert(!valid_page(profile.pages@[j as int]));
                        assert(!valid_profile(config.profiles@[i as int]));
                    }
                    return Err(ConfigError::ZeroPageDimensions);
                }
                let mut k: usize = 0;
                while k < page.buttons.len()
                    invariant
                        i < config.profiles@.len(),
                        *profile == config.profiles@[i as int],
                        j < profile.pages@.len(),
                        *page == profile.pages@[j as int],
                        k <= page.buttons@.len(),
                        page.name@.len() > 0,
                        page.rows > 0,
                        page.cols > 0,
                        forall|t: int|
                            0 <= t < k ==> valid_button(#[trigger] page.buttons@[t], *page),
                    decreases page.buttons@.len() - k,
                {
                    let button = &page.buttons[k];
                    if button.position.row > page.rows || button.position.col > page.cols {
                        proof {
                            assert(!valid_button(page.buttons@[k as int], *page));
                            assert(!valid_page(profile.pages@[j as int]));
                            assert(!valid_profile(config.profiles@[i as int]));
                        }
                        return Err(ConfigError::ButtonOutOfBounds);
                    }
                    if button.label.as_str().unicode_len() == 0 {
                        proof {
                            assert(!valid_button(page.buttons@[k as int], *page));
                            assert(!valid_page(profile.pages@[j as int]));
                            assert(!valid_profile(config.profiles@[i as int]));
                        }
                        return Err(ConfigError::EmptyButtonLabel);
                    }
                    k = k + 1;
                }
                j = j + 1;
            }
            i = i + 1;
        }
        Ok(())
    }
}

} // verus!
