//! Configuration: the settings structure with its defaults, the default
//! system drive decision, the configuration file names, and the recovery
//! decision the loader takes over the main file and its backup.

use vstd::prelude::*;
use vstd::string::StringExecFns;
use crate::paths;
use crate::strutil;

verus! {

/// The persisted settings.
#[derive(Clone, Debug)]
pub struct Config {
    pub scan: ScanConfig,
    pub ui: UiConfig,
    pub shell: ShellConfig,
}

/// Scanner settings: the default volume, the exclusion list, and whether
/// a scan starts on launch.
#[derive(Clone, Debug)]
pub struct ScanConfig {
    pub default_volume: String,
    pub excluded_paths: Vec<String>,
    pub auto_scan_on_start: bool,
}

/// Front-end filter settings.
#[derive(Clone, Debug)]
pub struct UiConfig {
    pub remember_filters: bool,
    pub last_filter_type: String,
    pub last_filter_status: String,
}

/// Shell-integration settings.
#[derive(Clone, Debug)]
pub struct ShellConfig {
    pub context_menu_registered: bool,
}

/// The mathematical form of the settings.
pub ghost struct ConfigV {
    pub default_volume: Seq<char>,
    pub excluded_paths: Seq<Seq<char>>,
    pub auto_scan_on_start: bool,
    pub remember_filters: bool,
    pub last_filter_type: Seq<char>,
    pub last_filter_status: Seq<char>,
    pub context_menu_registered: bool,
}

impl View for Config {
    type V = ConfigV;

    open spec fn view(&self) -> ConfigV {
        ConfigV {
            default_volume: self.scan.default_volume@,
            excluded_paths: self.scan.excluded_paths@.map_values(|s: String| s@),
            auto_scan_on_start: self.scan.auto_scan_on_start,
            remember_filters: self.ui.remember_filters,
            last_filter_type: self.ui.last_filter_type@,
            last_filter_status: self.ui.last_filter_status@,
            context_menu_registered: self.shell.context_menu_registered,
        }
    }
}

/// The default settings: scan `C:` with the WinSxS store excluded, no
/// scan on launch, filters remembered and reset to All, shell menu off.
pub open spec fn default_config_spec() -> ConfigV {
    ConfigV {
        default_volume: "C:"@,
        excluded_paths: seq!["C:\\Windows\\WinSxS"@],
        auto_scan_on_start: false,
        remember_filters: true,
        last_filter_type: "All"@,
        last_filter_status: "All"@,
        context_menu_registered: false,
    }
}

impl Default for ScanConfig {
    fn default() -> (r: ScanConfig)
        ensures
            r.default_volume@ == "C:"@,
            r.excluded_paths@.map_values(|s: String| s@) == seq!["C:\\Windows\\WinSxS"@],
            !r.auto_scan_on_start,
    {
        let mut excluded: Vec<String> = Vec::new();
        excluded.push(String::from_str("C:\\Windows\\WinSxS"));
        let r = ScanConfig {
            default_volume: String::from_str("C:"),
            excluded_paths: excluded,
            auto_scan_on_start: false,
        };
        proof {
            assert(r.excluded_paths@.map_values(|s: String| s@) =~= seq!["C:\\Windows\\WinSxS"@]);
        }
        r
    }
}

impl Default for UiConfig {
    fn default() -> (r: UiConfig)
        ensures
            r.remember_filters,
            r.last_filter_type@ == "All"@,
            r.last_filter_status@ == "All"@,
    {
        UiConfig {
            remember_filters: true,
            last_filter_type: String::from_str("All"),
            last_filter_status: String::from_str("All"),
        }
    }
}

impl Default for ShellConfig {
    fn default() -> (r: ShellConfig)
        ensures
            !r.context_menu_registered,
    {
        ShellConfig { context_menu_registered: false }
    }
}

impl Default for Config {
    fn default() -> (r: Config)
        ensures
            r@ == default_config_spec(),
    {
        let r = Config {
            scan: ScanConfig::default(),
            ui: UiConfig::default(),
            shell: ShellConfig::default(),
        };
        proof {
            assert(r@.excluded_paths =~= default_config_spec().excluded_paths);
        }
        r
    }
}

/// The default settings.
pub fn default_config() -> (r: Config)
    ensures
        r@ == default_config_spec(),
{
    Config::default()
}

/// What an accepted environment value for the system drive looks like:
/// trimmed of whitespace and trailing backslashes, exactly one letter
/// and a colon.
pub open spec fn drive_env_ok(t: Seq<char>) -> bool {
    t.len() == 2 && t[1] == ':'
}

/// The trimmed form of an environment value: whitespace at both ends and
/// trailing backslashes removed.
pub open spec fn drive_env_trim(s: Seq<char>) -> Seq<char> {
    paths::trim_end_bs(paths::trim_spec(s))
}

/// The default system drive: the environment's value when it has the
/// shape of a drive, else `C:`.
pub fn default_system_drive(env_value: Option<String>) -> (r: String)
    ensures
        match env_value {
            Some(v) => {
                if drive_env_ok(drive_env_trim(v@)) {
                    r@ == drive_env_trim(v@)
                } else {
                    r@ == "C:"@
                }
            },
            None => r@ == "C:"@,
        },
{
    let v = match env_value {
        Some(v) => v,
        None => {
            return String::from_str("C:");
        }
    };
    let chars = strutil::chars_vec(v.as_str());
    let t = trim_env(&chars);
    if t.len() == 2 && t[1] == ':' {
        proof {
            assert(t@ =~= drive_env_trim(v@));
        }
        strutil::string_of_chars(t.as_slice())
    } else {
        String::from_str("C:")
    }
}

fn trim_env(v: &Vec<char>) -> (t: Vec<char>)
    ensures
        t@ == drive_env_trim(v@),
{
    let trimmed = paths::trim_chars(v);
    let mut end: usize = trimmed.len();
    while end > 0 && trimmed[end - 1] == '\\'
        invariant
            end <= trimmed@.len(),
            forall|j: int| end <= j < trimmed@.len() ==> trimmed@[j] == '\\',
        decreases end,
    {
        end = end - 1;
    }
    let mut out: Vec<char> = Vec::new();
    let mut i: usize = 0;
    while i < end
        invariant
            end <= trimmed@.len(),
            i <= end,
            out@ =~= trimmed@.take(i as int),
        decreases end - i,
    {
        out.push(trimmed[i]);
        i = i + 1;
    }
    proof {
        lemma_trim_end_take(trimmed@, end as int);
        assert(out@ =~= trimmed@.take(end as int));
    }
    out
}

proof fn lemma_trim_end_take(s: Seq<char>, i: int)
    requires
        0 <= i <= s.len(),
        forall|j: int| i <= j < s.len() ==> s[j] == '\\',
        i > 0 ==> s[i - 1] != '\\',
    ensures
        paths::trim_end_bs(s) == s.take(i),
    decreases s.len() - i,
{
    if i < s.len() {
        assert(s.drop_last() =~= s.take(s.len() - 1));
        lemma_trim_end_take(s.take(s.len() - 1), i);
        assert(s.take(s.len() - 1).take(i) =~= s.take(i));
    } else {
        assert(s.take(i) =~= s);
        if s.len() > 0 {
            assert(s.last() != '\\');
        }
    }
}

/// The configuration file's name within the settings directory.
pub fn config_path(dir: &str) -> (r: String)
    ensures
        r@ == paths::join_spec(dir@, "config.toml"@),
{
    join_name(dir, "config.toml")
}

/// The backup copy's name within the settings directory.
pub fn previous_config_path(dir: &str) -> (r: String)
    ensures
        r@ == paths::join_spec(dir@, "config.toml.prev"@),
{
    join_name(dir, "config.toml.prev")
}

/// The temporary file's name within the settings directory.
pub fn temp_config_path(dir: &str) -> (r: String)
    ensures
        r@ == paths::join_spec(dir@, "config.toml.tmp"@),
{
    join_name(dir, "config.toml.tmp")
}

fn join_name(dir: &str, name: &str) -> (r: String)
    ensures
        r@ == paths::join_spec(dir@, name@),
{
    let v = strutil::chars_vec(dir);
    let mut s = String::new();
    s.append(dir);
    let needs_sep = if v.len() == 0 {
        true
    } else {
        let c = v[v.len() - 1];
        !(c == '\\' || c == '/')
    };
    if needs_sep {
        strutil::push_char(&mut s, '\\');
    }
    s.append(name);
    s
}

/// What reading and parsing one configuration file yielded.
pub enum ConfigFileState {
    Missing,
    Parsed(Config),
    Corrupt,
}

/// What the loader decided: the settings to use, whether the corrupt
/// main file must be stashed aside, and whether the chosen settings must
/// be saved back.
pub struct LoadDecision {
    pub config: Config,
    pub stash_corrupt: bool,
    pub save: bool,
}

/// The loader's recovery decision. A parsed main file wins outright. A
/// corrupt main file is stashed aside and replaced: by the backup when
/// that parses, else by the defaults. A missing main file is replaced
/// the same way, without a stash. Every replacement is saved back.
pub fn load_config(main: ConfigFileState, previous: ConfigFileState) -> (r: LoadDecision)
    ensures
        match main {
            ConfigFileState::Parsed(c) => r.config@ == c@ && !r.stash_corrupt && !r.save,
            ConfigFileState::Corrupt => {
                &&& r.stash_corrupt
                &&& r.save
                &&& match previous {
                    ConfigFileState::Parsed(p) => r.config@ == p@,
                    _ => r.config@ == default_config_spec(),
                }
            },
            ConfigFileState::Missing => {
                &&& !r.stash_corrupt
                &&& r.save
                &&& match previous {
                    ConfigFileState::Parsed(p) => r.config@ == p@,
                    _ => r.config@ == default_config_spec(),
                }
            },
        },
{
    match main {
        ConfigFileState::Parsed(c) => LoadDecision { config: c, stash_corrupt: false, save: false },
        ConfigFileState::Corrupt => match previous {
            ConfigFileState::Parsed(p) => LoadDecision {
                config: p,
                stash_corrupt: true,
                save: true,
            },
            _ => LoadDecision { config: default_config(), stash_corrupt: true, save: true },
        },
        ConfigFileState::Missing => match previous {
            ConfigFileState::Parsed(p) => LoadDecision {
                config: p,
                stash_corrupt: false,
                save: true,
            },
            _ => LoadDecision { config: default_config(), stash_corrupt: false, save: true },
        },
    }
}

} // verus!
