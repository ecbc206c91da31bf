//! Fixed settings, file locations and the hotkey configuration.
use vstd::prelude::*;
use vstd::string::StringExecFns;
use crate::text::{join_path, path_join, same_text};

verus! {

/// Name of the application, used for its directories.
pub const APP_NAME: &'static str = "sticky_one";

/// Hours an entry is kept.
pub const RETENTION_HOURS: i64 = 12;

/// Milliseconds between two clipboard polls.
pub const POLL_INTERVAL_MS: u64 = 500;

/// Largest image payload accepted from the clipboard, in bytes.
pub const MAX_IMAGE_SIZE_BYTES: usize = 5 * 1024 * 1024;

/// File that holds the running daemon's process id.
pub const PID_FILE: &'static str = "daemon.pid";

/// File that holds the configuration.
pub const CONFIG_FILE: &'static str = "config.toml";

/// Relies on `directories::ProjectDirs::from` with its `data_dir` and
/// `config_dir`: the per-user data and configuration directories of
/// application `app`, when a home directory is known. They depend on the
/// environment, so nothing is promised of them.
#[verifier::external_body]
fn project_dirs(app: &str) -> (r: Option<(String, String)>) {
    let dirs = directories::ProjectDirs::from("", "", app)?;
    Some(
        (
            dirs.data_dir().to_string_lossy().into_owned(),
            dirs.config_dir().to_string_lossy().into_owned(),
        ),
    )
}

/// The per-user data directory, or the current directory when none is known.
pub fn data_dir() -> (r: String) {
    match project_dirs(APP_NAME) {
        Some((data, _)) => data,
        None => String::from_str("."),
    }
}

/// The per-user configuration directory, or the current directory when none
/// is known.
pub fn config_dir() -> (r: String) {
    match project_dirs(APP_NAME) {
        Some((_, config)) => config,
        None => String::from_str("."),
    }
}

/// Path of the entry database, inside the data directory.
pub fn db_path() -> (r: String)
    ensures
        exists|dir: Seq<char>| r@ == path_join(dir, "clipboard.db"@),
{
    let dir = data_dir();
    join_path(dir.as_str(), "clipboard.db")
}

/// Path of the file that holds the daemon's process id, inside the data
/// directory.
pub fn pid_path() -> (r: String)
    ensures
        exists|dir: Seq<char>| r@ == path_join(dir, PID_FILE@),
{
    let dir = data_dir();
    join_path(dir.as_str(), PID_FILE)
}

/// Path of the configuration file, inside the configuration directory.
pub fn config_path() -> (r: String)
    ensures
        exists|dir: Seq<char>| r@ == path_join(dir, CONFIG_FILE@),
{
    let dir = config_dir();
    join_path(dir.as_str(), CONFIG_FILE)
}

/// Path of the daemon's log, inside the data directory.
pub fn log_path() -> (r: String)
    ensures
        exists|dir: Seq<char>| r@ == path_join(dir, "daemon.log"@),
{
    let dir = data_dir();
    join_path(dir.as_str(), "daemon.log")
}

/// A key of an input device, by its Linux input event code.
pub type KeyCode = u16;

pub const KEY_A: KeyCode = 30;
pub const KEY_B: KeyCode = 48;
pub const KEY_C: KeyCode = 46;
pub const KEY_D: KeyCode = 32;
pub const KEY_E: KeyCode = 18;
pub const KEY_F: KeyCode = 33;
pub const KEY_G: KeyCode = 34;
pub const KEY_H: KeyCode = 35;
pub const KEY_I: KeyCode = 23;
pub const KEY_J: KeyCode = 36;
pub const KEY_K: KeyCode = 37;
pub const KEY_L: KeyCode = 38;
pub const KEY_M: KeyCode = 50;
pub const KEY_N: KeyCode = 49;
pub const KEY_O: KeyCode = 24;
pub const KEY_P: KeyCode = 25;
pub const KEY_Q: KeyCode = 16;
pub const KEY_R: KeyCode = 19;
pub const KEY_S: KeyCode = 31;
pub const KEY_T: KeyCode = 20;
pub const KEY_U: KeyCode = 22;
pub const KEY_V: KeyCode = 47;
pub const KEY_W: KeyCode = 17;
pub const KEY_X: KeyCode = 45;
pub const KEY_Y: KeyCode = 21;
pub const KEY_Z: KeyCode = 44;
pub const KEY_0: KeyCode = 11;
pub const KEY_1: KeyCode = 2;
pub const KEY_2: KeyCode = 3;
pub const KEY_3: KeyCode = 4;
pub const KEY_4: KeyCode = 5;
pub const KEY_5: KeyCode = 6;
pub const KEY_6: KeyCode = 7;
pub const KEY_7: KeyCode = 8;
pub const KEY_8: KeyCode = 9;
pub const KEY_9: KeyCode = 10;
pub const KEY_SPACE: KeyCode = 57;
pub const KEY_ENTER: KeyCode = 28;
pub const KEY_ESC: KeyCode = 1;
pub const KEY_TAB: KeyCode = 15;
pub const KEY_BACKSPACE: KeyCode = 14;
pub const KEY_F1: KeyCode = 59;
pub const KEY_F2: KeyCode = 60;
pub const KEY_F3: KeyCode = 61;
pub const KEY_F4: KeyCode = 62;
pub const KEY_F5: KeyCode = 63;
pub const KEY_F6: KeyCode = 64;
pub const KEY_F7: KeyCode = 65;
pub const KEY_F8: KeyCode = 66;
pub const KEY_F9: KeyCode = 67;
pub const KEY_F10: KeyCode = 68;
pub const KEY_F11: KeyCode = 87;
pub const KEY_F12: KeyCode = 88;
pub const KEY_LEFTALT: KeyCode = 56;
pub const KEY_RIGHTALT: KeyCode = 100;
pub const KEY_LEFTSHIFT: KeyCode = 42;
pub const KEY_RIGHTSHIFT: KeyCode = 54;
pub const KEY_LEFTCTRL: KeyCode = 29;
pub const KEY_RIGHTCTRL: KeyCode = 97;
pub const KEY_LEFTMETA: KeyCode = 125;
pub const KEY_RIGHTMETA: KeyCode = 126;

/// The text of `s` in lower case.
pub uninterp spec fn lower_of(s: Seq<char>) -> Seq<char>;

/// The text of `s` in upper case.
pub uninterp spec fn upper_of(s: Seq<char>) -> Seq<char>;

/// Relies on `str::to_lowercase`: the lower-case form of `s`, which depends on
/// the characters of `s` alone.
#[verifier::external_body]
pub(crate) fn lowercase(s: &str) -> (r: String)
    ensures
        r@ == lower_of(s@),
{
    s.to_lowercase()
}

/// Relies on `str::to_uppercase`: the upper-case form of `s`, which depends on
/// the characters of `s` alone.
#[verifier::external_body]
fn uppercase(s: &str) -> (r: String)
    ensures
        r@ == upper_of(s@),
{
    s.to_uppercase()
}

/// The modifier key named by lower-case `s`.
pub open spec fn modifier_named(s: Seq<char>) -> Option<KeyCode> {
    if s == "alt"@ || s == "left_alt"@ {
        Some(KEY_LEFTALT)
    } else if s == "right_alt"@ || s == "altgr"@ {
        Some(KEY_RIGHTALT)
    } else if s == "shift"@ || s == "left_shift"@ {
        Some(KEY_LEFTSHIFT)
    } else if s == "right_shift"@ {
        Some(KEY_RIGHTSHIFT)
    } else if s == "ctrl"@ || s == "control"@ || s == "left_ctrl"@ {
        Some(KEY_LEFTCTRL)
    } else if s == "right_ctrl"@ {
        Some(KEY_RIGHTCTRL)
    } else if s == "super"@ || s == "meta"@ || s == "win"@ || s == "left_meta"@ {
        Some(KEY_LEFTMETA)
    } else if s == "right_meta"@ {
        Some(KEY_RIGHTMETA)
    } else {
        None
    }
}

/// The key named by upper-case `s`.
pub open spec fn key_named(s: Seq<char>) -> Option<KeyCode> {
    if s == "A"@ {
        Some(KEY_A)
    } else if s == "B"@ {
        Some(KEY_B)
    } else if s == "C"@ {
        Some(KEY_C)
    } else if s == "D"@ {
        Some(KEY_D)
    } else if s == "E"@ {
        Some(KEY_E)
    } else if s == "F"@ {
        Some(KEY_F)
    } else if s == "G"@ {
        Some(KEY_G)
    } else if s == "H"@ {
        Some(KEY_H)
    } else if s == "I"@ {
        Some(KEY_I)
    } else if s == "J"@ {
        Some(KEY_J)
    } else if s == "K"@ {
        Some(KEY_K)
    } else if s == "L"@ {
        Some(KEY_L)
    } else if s == "M"@ {
        Some(KEY_M)
    } else if s == "N"@ {
        Some(KEY_N)
    } else if s == "O"@ {
        Some(KEY_O)
    } else if s == "P"@ {
        Some(KEY_P)
    } else if s == "Q"@ {
        Some(KEY_Q)
    } else if s == "R"@ {
        Some(KEY_R)
    } else if s == "S"@ {
        Some(KEY_S)
    } else if s == "T"@ {
        Some(KEY_T)
    } else if s == "U"@ {
        Some(KEY_U)
    } else if s == "V"@ {
        Some(KEY_V)
    } else if s == "W"@ {
        Some(KEY_W)
    } else if s == "X"@ {
        Some(KEY_X)
    } else if s == "Y"@ {
        Some(KEY_Y)
    } else if s == "Z"@ {
        Some(KEY_Z)
    } else if s == "0"@ {
        Some(KEY_0)
    } else if s == "1"@ {
        Some(KEY_1)
    } else if s == "2"@ {
        Some(KEY_2)
    } else if s == "3"@ {
        Some(KEY_3)
    } else if s == "4"@ {
        Some(KEY_4)
    } else if s == "5"@ {
        Some(KEY_5)
    } else if s == "6"@ {
        Some(KEY_6)
    } else if s == "7"@ {
        Some(KEY_7)
    } else if s == "8"@ {
        Some(KEY_8)
    } else if s == "9"@ {
        Some(KEY_9)
    } else if s == "SPACE"@ {
        Some(KEY_SPACE)
    } else if s == "ENTER"@ || s == "RETURN"@ {
        Some(KEY_ENTER)
    } else if s == "ESCAPE"@ || s == "ESC"@ {
        Some(KEY_ESC)
    } else if s == "TAB"@ {
        Some(KEY_TAB)
    } else if s == "BACKSPACE"@ {
        Some(KEY_BACKSPACE)
    } else if s == "F1"@ {
        Some(KEY_F1)
    } else if s == "F2"@ {
        Some(KEY_F2)
    } else if s == "F3"@ {
        Some(KEY_F3)
    } else if s == "F4"@ {
        Some(KEY_F4)
    } else if s == "F5"@ {
        Some(KEY_F5)
    } else if s == "F6"@ {
        Some(KEY_F6)
    } else if s == "F7"@ {
        Some(KEY_F7)
    } else if s == "F8"@ {
        Some(KEY_F8)
    } else if s == "F9"@ {
        Some(KEY_F9)
    } else if s == "F10"@ {
        Some(KEY_F10)
    } else if s == "F11"@ {
        Some(KEY_F11)
    } else if s == "F12"@ {
        Some(KEY_F12)
    } else {
        None
    }
}

/// The modifier key named by `name`, already in lower case.
pub fn modifier_from_lower(name: &str) -> (r: Option<KeyCode>)
    ensures
        r == modifier_named(name@),
{
    if same_text(name, "alt") || same_text(name, "left_alt") {
        Some(KEY_LEFTALT)
    } else if same_text(name, "right_alt") || same_text(name, "altgr") {
        Some(KEY_RIGHTALT)
    } else if same_text(name, "shift") || same_text(name, "left_shift") {
        Some(KEY_LEFTSHIFT)
    } else if same_text(name, "right_shift") {
        Some(KEY_RIGHTSHIFT)
    } else if same_text(name, "ctrl") || same_text(name, "control") || same_text(name, "left_ctrl") {
        Some(KEY_LEFTCTRL)
    } else if same_text(name, "right_ctrl") {
        Some(KEY_RIGHTCTRL)
    } else if same_text(name, "super") || same_text(name, "meta") || same_text(name, "win") || same_text(name, "left_meta") {
        Some(KEY_LEFTMETA)
    } else if same_text(name, "right_meta") {
        Some(KEY_RIGHTMETA)
    } else {
        None
    }
}

/// The key named by `name`, already in upper case.
pub fn key_from_upper(name: &str) -> (r: Option<KeyCode>)
    ensures
        r == key_named(name@),
{
    if same_text(name, "A") {
        Some(KEY_A)
    } else if same_text(name, "B") {
        Some(KEY_B)
    } else if same_text(name, "C") {
        Some(KEY_C)
    } else if same_text(name, "D") {
        Some(KEY_D)
    } else if same_text(name, "E") {
        Some(KEY_E)
    } else if same_text(name, "F") {
        Some(KEY_F)
    } else if same_text(name, "G") {
        Some(KEY_G)
    } else if same_text(name, "H") {
        Some(KEY_H)
    } else if same_text(name, "I") {
        Some(KEY_I)
    } else if same_text(name, "J") {
        Some(KEY_J)
    } else if same_text(name, "K") {
        Some(KEY_K)
    } else if same_text(name, "L") {
        Some(KEY_L)
    } else if same_text(name, "M") {
        Some(KEY_M)
    } else if same_text(name, "N") {
        Some(KEY_N)
    } else if same_text(name, "O") {
        Some(KEY_O)
    } else if same_text(name, "P") {
        Some(KEY_P)
    } else if same_text(name, "Q") {
        Some(KEY_Q)
    } else if same_text(name, "R") {
        Some(KEY_R)
    } else if same_text(name, "S") {
        Some(KEY_S)
    } else if same_text(name, "T") {
        Some(KEY_T)
    } else if same_text(name, "U") {
        Some(KEY_U)
    } else if same_text(name, "V") {
        Some(KEY_V)
    } else if same_text(name, "W") {
        Some(KEY_W)
    } else if same_text(name, "X") {
        Some(KEY_X)
    } else if same_text(name, "Y") {
        Some(KEY_Y)
    } else if same_text(name, "Z") {
        Some(KEY_Z)
    } else if same_text(name, "0") {
        Some(KEY_0)
    } else if same_text(name, "1") {
        Some(KEY_1)
    } else if same_text(name, "2") {
        Some(KEY_2)
    } else if same_text(name, "3") {
        Some(KEY_3)
    } else if same_text(name, "4") {
        Some(KEY_4)
    } else if same_text(name, "5") {
        Some(KEY_5)
    } else if same_text(name, "6") {
        Some(KEY_6)
    } else if same_text(name, "7") {
        Some(KEY_7)
    } else if same_text(name, "8") {
        Some(KEY_8)
    } else if same_text(name, "9") {
        Some(KEY_9)
    } else if same_text(name, "SPACE") {
        Some(KEY_SPACE)
    } else if same_text(name, "ENTER") || same_text(name, "RETURN") {
        Some(KEY_ENTER)
    } else if same_text(name, "ESCAPE") || same_text(name, "ESC") {
        Some(KEY_ESC)
    } else if same_text(name, "TAB") {
        Some(KEY_TAB)
    } else if same_text(name, "BACKSPACE") {
        Some(KEY_BACKSPACE)
    } else if same_text(name, "F1") {
        Some(KEY_F1)
    } else if same_text(name, "F2") {
        Some(KEY_F2)
    } else if same_text(name, "F3") {
        Some(KEY_F3)
    } else if same_text(name, "F4") {
        Some(KEY_F4)
    } else if same_text(name, "F5") {
        Some(KEY_F5)
    } else if same_text(name, "F6") {
        Some(KEY_F6)
    } else if same_text(name, "F7") {
        Some(KEY_F7)
    } else if same_text(name, "F8") {
        Some(KEY_F8)
    } else if same_text(name, "F9") {
        Some(KEY_F9)
    } else if same_text(name, "F10") {
        Some(KEY_F10)
    } else if same_text(name, "F11") {
        Some(KEY_F11)
    } else if same_text(name, "F12") {
        Some(KEY_F12)
    } else {
        None
    }
}

/// The modifier key named by `name`, in any case.
pub fn parse_modifier(name: &str) -> (r: Option<KeyCode>)
    ensures
        r == modifier_named(lower_of(name@)),
{
    let lower = lowercase(name);
    modifier_from_lower(lower.as_str())
}

/// The key named by `name`, in any case.
pub fn parse_key(name: &str) -> (r: Option<KeyCode>)
    ensures
        r == key_named(upper_of(name@)),
{
    let upper = uppercase(name);
    key_from_upper(upper.as_str())
}

/// The texts of a run of strings.
pub open spec fn texts(v: Seq<String>) -> Seq<Seq<char>> {
    v.map_values(|s: String| s@)
}

/// The hotkey: modifier names and the name of the trigger key.
#[derive(Debug, Clone)]
pub struct HotkeyConfig {
    pub modifiers: Vec<String>,
    pub key: String,
}

impl Default for HotkeyConfig {
    /// Alt and Shift with C.
    fn default() -> (r: HotkeyConfig)
        ensures
            texts(r.modifiers@) == seq!["Alt"@, "Shift"@],
            r.key@ == "C"@,
    {
        let mut modifiers: Vec<String> = Vec::new();
        modifiers.push(String::from_str("Alt"));
        modifiers.push(String::from_str("Shift"));
        assert(texts(modifiers@) =~= seq!["Alt"@, "Shift"@]);
        HotkeyConfig { modifiers, key: String::from_str("C") }
    }
}

/// The configuration record.
#[derive(Debug, Clone)]
pub struct Config {
    pub hotkey: HotkeyConfig,
}

impl Default for Config {
    /// The default hotkey.
    fn default() -> (r: Config)
        ensures
            texts(r.hotkey.modifiers@) == seq!["Alt"@, "Shift"@],
            r.hotkey.key@ == "C"@,
    {
        Config { hotkey: HotkeyConfig::default() }
    }
}

/// Key `k` is named by one of `names`, read as modifier names.
pub open spec fn names_modifier(names: Seq<Seq<char>>, k: KeyCode) -> bool {
    exists|i: int| 0 <= i < names.len() && modifier_named(lower_of(#[trigger] names[i])) == Some(k)
}

impl HotkeyConfig {
    /// The modifier keys that the configured names denote, each once; names
    /// that denote no modifier are left out.
    pub fn modifier_keys(&self) -> (r: Vec<KeyCode>)
        ensures
            r@.no_duplicates(),
            forall|k: KeyCode| r@.contains(k) <==> names_modifier(texts(self.modifiers@), k),
    {
        let ghost names = texts(self.modifiers@);
        let mut out: Vec<KeyCode> = Vec::new();
        let mut i: usize = 0;
        while i < self.modifiers.len()
            invariant
                names == texts(self.modifiers@),
                0 <= i <= self.modifiers@.len(),
                out@.no_duplicates(),
                forall|k: KeyCode|
                    out@.contains(k) <==> names_modifier(names.subrange(0, i as int), k),
            decreases self.modifiers.len() - i,
        {
            let parsed = parse_modifier(self.modifiers[i].as_str());
            let ghost before = out@;
            if let Some(k) = parsed {
                let mut seen = false;
                let mut j: usize = 0;
                while j < out.len()
                    invariant
                        0 <= j <= out@.len(),
                        seen == (exists|t: int| 0 <= t < j && out@[t] == k),
                    decreases out.len() - j,
                {
                    if out[j] == k {
                        seen = true;
                    }
                    j = j + 1;
                }
                assert(seen == before.contains(k));
                if !seen {
                    out.push(k);
                }
            }
            proof {
                let prev = names.subrange(0, i as int);
                let next = names.subrange(0, i + 1);
                assert(names[i as int] == self.modifiers@[i as int]@);
                assert(parsed == modifier_named(lower_of(names[i as int])));
                assert forall|k: KeyCode| out@.contains(k) <==> (before.contains(k) || parsed == Some(k)) by {
                    if before.contains(k) {
                        let t = choose|t: int| 0 <= t < before.len() && before[t] == k;
                        assert(out@[t] == k);
                    }
                    if parsed == Some(k) && !before.contains(k) {
                        assert(out@.last() == k);
                    }
                    if out@.contains(k) && !before.contains(k) {
                        let t = choose|t: int| 0 <= t < out@.len() && out@[t] == k;
                        assert(t == before.len());
                    }
                }
                assert forall|k: KeyCode| names_modifier(next, k) <==> (names_modifier(prev, k) || parsed == Some(k)) by {
                    if names_modifier(prev, k) {
                        let t = choose|t: int|
                            0 <= t < prev.len() && modifier_named(lower_of(#[trigger] prev[t]))
                                == Some(k);
                        assert(next[t] == prev[t]);
                    }
                    if parsed == Some(k) {
                        assert(next[i as int] == names[i as int]);
                    }
                    if names_modifier(next, k) {
                        let t = choose|t: int|
                            0 <= t < next.len() && modifier_named(lower_of(#[trigger] next[t]))
                                == Some(k);
                        if t < i {
                            assert(prev[t] == next[t]);
                        } else {
                            assert(next[t] == names[i as int]);
                        }
                    }
                }
                assert forall|k: KeyCode| out@.contains(k) <==> names_modifier(next, k) by {
                    assert(before.contains(k) <==> names_modifier(prev, k));
                }
            }
            i = i + 1;
        }
        assert(names.subrange(0, names.len() as int) =~= names);
        out
    }

    /// The trigger key that the configured name denotes, if any.
    pub fn trigger_key(&self) -> (r: Option<KeyCode>)
        ensures
            r == key_named(upper_of(self.key@)),
    {
        parse_key(self.key.as_str())
    }
}

} // verus!
