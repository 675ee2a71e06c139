//! Configuration rules: the current version and its migration, the limits that loaded values
//! are brought back into, and where the configuration lives on each platform.
//!
//! Reading and writing the file, TOML and the floating-point window position and rotation are
//! handled by the application around these rules.

use vstd::prelude::*;

use crate::error::ConfigError;
use crate::text::{str_chars, str_eq, concat_str};

verus! {

/// Camera settings.
#[derive(Debug, Clone, PartialEq, Eq, Structural)]
pub struct CameraConfig {
    /// Index of the camera device to open.
    pub device_index: usize,
}

/// The integer and text settings of a configuration.
#[derive(Debug, Clone, PartialEq)]
pub struct ConfigFields {
    /// Configuration version.
    pub version: String,
    /// Window width in pixels.
    pub width: u32,
    /// Window height in pixels.
    pub height: u32,
    /// Name of the mask shape.
    pub shape: String,
    /// Index of the camera device.
    pub device_index: usize,
}

/// Smallest window side a configuration may hold.
pub const MIN_CONFIG_SIDE: u32 = 100;

/// Largest window side a configuration may hold.
pub const MAX_CONFIG_SIDE: u32 = 4096;

/// Largest camera device index a configuration may hold.
pub const MAX_DEVICE_INDEX: usize = 99;

/// The configuration version this program writes.
pub fn default_version() -> (r: String)
    ensures
        r@ == "1.0"@,
{
    String::from_str("1.0")
}

/// Whether `a` comes before `b` in lexicographic order of characters, which is the order of
/// their UTF-8 bytes.
pub open spec fn lex_less(a: Seq<char>, b: Seq<char>) -> bool
    decreases a.len(),
{
    if a.len() == 0 {
        b.len() > 0
    } else if b.len() == 0 {
        false
    } else if a[0] != b[0] {
        (a[0] as u32) < (b[0] as u32)
    } else {
        lex_less(a.drop_first(), b.drop_first())
    }
}

/// Whether `a` comes before `b` in lexicographic order (as `<` on `str`).
pub fn str_less(a: &str, b: &str) -> (r: bool)
    ensures
        r == lex_less(a@, b@),
{
    let x = str_chars(a);
    let y = str_chars(b);
    let mut i: usize = 0;
    assert(x@.skip(0) =~= x@);
    assert(y@.skip(0) =~= y@);
    while i < x.len() && i < y.len()
        invariant
            i <= x@.len(),
            i <= y@.len(),
            x@ == a@,
            y@ == b@,
            lex_less(a@, b@) == lex_less(x@.skip(i as int), y@.skip(i as int)),
        decreases x@.len() - i,
    {
        assert(x@.skip(i as int)[0] == x@[i as int]);
        assert(y@.skip(i as int)[0] == y@[i as int]);
        if x[i] != y[i] {
            return (x[i] as u32) < (y[i] as u32);
        }
        assert(x@.skip(i as int).drop_first() =~= x@.skip(i + 1));
        assert(y@.skip(i as int).drop_first() =~= y@.skip(i + 1));
        i = i + 1;
    }
    assert(x@.skip(i as int).len() == 0 || y@.skip(i as int).len() == 0);
    i < y.len()
}

/// Whether a configuration of version `version` has to be migrated: any version other
/// than "1.0".
pub fn needs_migration(version: &str) -> (r: bool)
    ensures
        r == (version@ != "1.0"@),
{
    !str_eq(version, "1.0")
}

/// What migrating a configuration does.
#[derive(Debug, Clone, Copy, PartialEq, Eq, Structural)]
pub enum MigrationAction {
    /// The configuration is current: keep it.
    Keep,
    /// An older known version: set the version to "1.0", keep the rest and save it.
    Upgrade,
    /// A newer or unknown version: replace it by the defaults and save them.
    ResetToDefaults,
}

/// The migration for a configuration of version `version`: "", "0.1" and "0.9" are upgraded;
/// a version ordered after "1.0" and any other unknown version are reset to the defaults;
/// "1.0" is kept.
pub open spec fn migration_for(version: Seq<char>) -> MigrationAction {
    if version == ""@ || version == "0.1"@ || version == "0.9"@ {
        MigrationAction::Upgrade
    } else if lex_less("1.0"@, version) {
        MigrationAction::ResetToDefaults
    } else if version == "1.0"@ {
        MigrationAction::Keep
    } else {
        MigrationAction::ResetToDefaults
    }
}

/// The migration for a configuration of version `version` (see `migration_for`).
pub fn migration_action(version: &str) -> (r: MigrationAction)
    ensures
        r == migration_for(version@),
{
    if str_eq(version, "") || str_eq(version, "0.1") || str_eq(version, "0.9") {
        MigrationAction::Upgrade
    } else if str_less("1.0", version) {
        MigrationAction::ResetToDefaults
    } else if str_eq(version, "1.0") {
        MigrationAction::Keep
    } else {
        MigrationAction::ResetToDefaults
    }
}

/// A window side brought into [100, 4096].
pub open spec fn fixed_side(v: u32) -> u32 {
    if v < MIN_CONFIG_SIDE {
        MIN_CONFIG_SIDE
    } else if v > MAX_CONFIG_SIDE {
        MAX_CONFIG_SIDE
    } else {
        v
    }
}

/// A window side brought into [100, 4096].
pub fn fix_window_side(v: u32) -> (r: u32)
    ensures
        r == fixed_side(v),
{
    if v < MIN_CONFIG_SIDE {
        MIN_CONFIG_SIDE
    } else if v > MAX_CONFIG_SIDE {
        MAX_CONFIG_SIDE
    } else {
        v
    }
}

/// Whether a shape name is one the program knows: Circle, Ellipse, Rectangle,
/// RoundedRectangle or Heart.
pub open spec fn known_shape_name(s: Seq<char>) -> bool {
    s == "Circle"@ || s == "Ellipse"@ || s == "Rectangle"@ || s == "RoundedRectangle"@ || s == "Heart"@
}

/// Whether a shape name is one the program knows.
pub fn is_valid_shape_name(s: &str) -> (r: bool)
    ensures
        r == known_shape_name(s@),
{
    str_eq(s, "Circle") || str_eq(s, "Ellipse") || str_eq(s, "Rectangle") || str_eq(s, "RoundedRectangle")
        || str_eq(s, "Heart")
}

/// A camera device index brought back to 0 when it is above 99.
pub open spec fn fixed_device_index(i: usize) -> usize {
    if i > MAX_DEVICE_INDEX {
        0
    } else {
        i
    }
}

/// The settings as values.
pub struct ConfigFieldsView {
    pub version: Seq<char>,
    pub width: u32,
    pub height: u32,
    pub shape: Seq<char>,
    pub device_index: usize,
}

impl View for ConfigFields {
    type V = ConfigFieldsView;

    open spec fn view(&self) -> ConfigFieldsView {
        ConfigFieldsView {
            version: self.version@,
            width: self.width,
            height: self.height,
            shape: self.shape@,
            device_index: self.device_index,
        }
    }
}

/// Settings brought within the rules: version "1.0", sides within [100, 4096], a known shape
/// name (otherwise "Circle"), a device index of at most 99 (otherwise 0).
pub open spec fn fixed_fields(c: ConfigFieldsView) -> ConfigFieldsView {
    ConfigFieldsView {
        version: "1.0"@,
        width: fixed_side(c.width),
        height: fixed_side(c.height),
        shape: if known_shape_name(c.shape) { c.shape } else { "Circle"@ },
        device_index: fixed_device_index(c.device_index),
    }
}

/// Brings settings within the rules (see `fixed_fields`).
pub fn validate_and_fix_fields(config: &mut ConfigFields)
    ensures
        final(config)@ == fixed_fields(old(config)@),
{
    if needs_migration(config.version.as_str()) {
        config.version = default_version();
    }
    config.width = fix_window_side(config.width);
    config.height = fix_window_side(config.height);
    if !is_valid_shape_name(config.shape.as_str()) {
        config.shape = String::from_str("Circle");
    }
    if config.device_index > MAX_DEVICE_INDEX {
        config.device_index = 0;
    }
}

/// The default settings: version "1.0", a 400 × 400 window, the circle, camera 0.
pub open spec fn default_fields() -> ConfigFieldsView {
    ConfigFieldsView { version: "1.0"@, width: 400, height: 400, shape: "Circle"@, device_index: 0 }
}

/// The default settings (see `default_fields`).
pub fn default_config_fields() -> (r: ConfigFields)
    ensures
        r@ == default_fields(),
{
    ConfigFields {
        version: default_version(),
        width: 400,
        height: 400,
        shape: String::from_str("Circle"),
        device_index: 0,
    }
}

/// The platforms whose conventions decide where files go.
#[derive(Debug, Clone, Copy, PartialEq, Eq, Structural)]
pub enum TargetOs {
    /// Windows: under %APPDATA%.
    Windows,
    /// macOS: under ~/Library/Application Support.
    MacOs,
    /// Any other platform: the XDG configuration directory.
    Other,
}

/// The environment values that decide where files go.
pub struct EnvPaths {
    /// %APPDATA%, when set.
    pub appdata: Option<String>,
    /// $HOME, when set.
    pub home: Option<String>,
    /// $XDG_CONFIG_HOME, when set.
    pub xdg_config_home: Option<String>,
}

/// The XDG configuration directory: $XDG_CONFIG_HOME, else $HOME (or ".") followed by "/.config".
pub open spec fn xdg_config_dir(env: EnvPaths) -> Seq<char> {
    match env.xdg_config_home {
        Some(x) => x@,
        None => match env.home {
            Some(h) => h@ + "/.config"@,
            None => "."@ + "/.config"@,
        },
    }
}

/// The XDG configuration directory (see `xdg_config_dir`).
pub fn xdg_config_dir_of(env: &EnvPaths) -> (r: String)
    ensures
        r@ == xdg_config_dir(*env),
{
    match &env.xdg_config_home {
        Some(x) => x.clone(),
        None => match &env.home {
            Some(h) => concat_str(h.as_str(), "/.config"),
            None => concat_str(".", "/.config"),
        },
    }
}

/// The directory that holds the "Mira" configuration directory: %APPDATA% on Windows,
/// $HOME + "/Library/Application Support" on macOS, the XDG configuration directory elsewhere.
/// A missing %APPDATA% on Windows or $HOME on macOS is a write error.
pub fn config_base_dir(os: TargetOs, env: &EnvPaths) -> (r: Result<String, ConfigError>)
    ensures
        os == TargetOs::Windows ==> match env.appdata {
            Some(a) => r matches Ok(d) && d@ == a@,
            None => r matches Err(ConfigError::WriteError(m)) && m@ == "无法获取 APPDATA 环境变量"@,
        },
        os == TargetOs::MacOs ==> match env.home {
            Some(h) => r matches Ok(d) && d@ == h@ + "/Library/Application Support"@,
            None => r matches Err(ConfigError::WriteError(m)) && m@ == "无法获取 HOME 环境变量"@,
        },
        os == TargetOs::Other ==> (r matches Ok(d) && d@ == xdg_config_dir(*env)),
{
    match os {
        TargetOs::Windows => match &env.appdata {
            Some(a) => Ok(a.clone()),
            None => Err(ConfigError::WriteError(String::from_str("无法获取 APPDATA 环境变量"))),
        },
        TargetOs::MacOs => match &env.home {
            Some(h) => Ok(concat_str(h.as_str(), "/Library/Application Support")),
            None => Err(ConfigError::WriteError(String::from_str("无法获取 HOME 环境变量"))),
        },
        TargetOs::Other => Ok(xdg_config_dir_of(env)),
    }
}


/// Fixed settings are within the rules, fixing them again changes nothing, and settings that
/// were within the rules already come out unchanged.
pub proof fn lemma_fixed_fields(c: ConfigFieldsView)
    ensures
        fixed_fields(c).version == "1.0"@,
        MIN_CONFIG_SIDE <= fixed_fields(c).width <= MAX_CONFIG_SIDE,
        MIN_CONFIG_SIDE <= fixed_fields(c).height <= MAX_CONFIG_SIDE,
        known_shape_name(fixed_fields(c).shape),
        fixed_fields(c).device_index <= MAX_DEVICE_INDEX,
        fixed_fields(fixed_fields(c)) == fixed_fields(c),
        (c.version == "1.0"@ && MIN_CONFIG_SIDE <= c.width <= MAX_CONFIG_SIDE && MIN_CONFIG_SIDE
            <= c.height <= MAX_CONFIG_SIDE && known_shape_name(c.shape) && c.device_index
            <= MAX_DEVICE_INDEX) ==> fixed_fields(c) == c,
{
}

/// The defaults are within the rules.
pub proof fn lemma_defaults_within_rules()
    ensures
        fixed_fields(default_fields()) == default_fields(),
{
}

/// No text comes before itself.
pub proof fn lemma_lex_less_irreflexive(a: Seq<char>)
    ensures
        !lex_less(a, a),
    decreases a.len(),
{
    if a.len() > 0 {
        lemma_lex_less_irreflexive(a.drop_first());
    }
}

/// A configuration is kept as it is exactly when its version is "1.0", the version that
/// upgrades and resets write.
pub proof fn lemma_keep_iff_current(version: Seq<char>)
    ensures
        migration_for(version) == MigrationAction::Keep <==> version == "1.0"@,
        migration_for("1.0"@) == MigrationAction::Keep,
{
    reveal_strlit("1.0");
    reveal_strlit("0.1");
    reveal_strlit("0.9");
    reveal_strlit("");
    lemma_lex_less_irreflexive("1.0"@);
    assert("1.0"@ != ""@);
    assert("1.0"@ != "0.1"@ && "1.0"@ != "0.9"@) by {
        assert("1.0"@[0] == '1');
        assert("0.1"@[0] == '0');
        assert("0.9"@[0] == '0');
    }
}

/// What is saved is loaded back unchanged: saving brings the settings within the rules, and
/// loading such settings keeps their version and fixes nothing.
pub proof fn lemma_saved_config_loads_back(c: ConfigFieldsView)
    ensures
        migration_for(fixed_fields(c).version) == MigrationAction::Keep,
        fixed_fields(fixed_fields(c)) == fixed_fields(c),
{
    lemma_keep_iff_current(fixed_fields(c).version);
    lemma_fixed_fields(c);
}

} // verus!
