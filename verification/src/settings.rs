//! The settings of the application, their defaults, and the hotkeys they name.

use crate::text::{str_eq, to_chars};
use crate::unicode::{lowercase, to_lowercase, to_uppercase, uppercase};
use vstd::prelude::*;
use vstd::string::*;

verus! {

/// The settings that the user can change.
#[derive(Debug, Clone)]
pub struct Settings {
    /// Such as `["Alt"]` or `["Ctrl", "Shift"]`.
    pub hotkey_modifiers: Vec<String>,
    /// Such as `"Q"` or `"Space"`.
    pub hotkey_key: String,
    pub launch_at_startup: bool,
    /// Where the window was left.
    pub window_position: Option<(i32, i32)>,
    pub show_in_tray: bool,
    /// Show the command input only.
    pub command_only_mode: bool,
    pub quick_translation_hotkey_modifiers: Vec<String>,
    /// Empty when quick translation has no hotkey.
    pub quick_translation_hotkey_key: String,
    pub quick_translation_target_language: String,
}

/// View of [`Settings`].
pub struct SettingsView {
    pub hotkey_modifiers: Seq<Seq<char>>,
    pub hotkey_key: Seq<char>,
    pub launch_at_startup: bool,
    pub window_position: Option<(i32, i32)>,
    pub show_in_tray: bool,
    pub command_only_mode: bool,
    pub quick_translation_hotkey_modifiers: Seq<Seq<char>>,
    pub quick_translation_hotkey_key: Seq<char>,
    pub quick_translation_target_language: Seq<char>,
}

impl View for Settings {
    type V = SettingsView;

    open spec fn view(&self) -> SettingsView {
        SettingsView {
            hotkey_modifiers: self.hotkey_modifiers.deep_view(),
            hotkey_key: self.hotkey_key@,
            launch_at_startup: self.launch_at_startup,
            window_position: self.window_position,
            show_in_tray: self.show_in_tray,
            command_only_mode: self.command_only_mode,
            quick_translation_hotkey_modifiers: self.quick_translation_hotkey_modifiers.deep_view(),
            quick_translation_hotkey_key: self.quick_translation_hotkey_key@,
            quick_translation_target_language: self.quick_translation_target_language@,
        }
    }
}

/// The settings of a fresh installation: the window opens on Alt+Q, the
/// tray icon shows, and quick translation, into English, has the modifiers
/// Ctrl+Alt and no key yet.
pub open spec fn default_settings() -> SettingsView {
    SettingsView {
        hotkey_modifiers: seq!["Alt"@],
        hotkey_key: "Q"@,
        launch_at_startup: false,
        window_position: None,
        show_in_tray: true,
        command_only_mode: false,
        quick_translation_hotkey_modifiers: seq!["Ctrl"@, "Alt"@],
        quick_translation_hotkey_key: Seq::empty(),
        quick_translation_target_language: "en"@,
    }
}

/// The keys that are held with a hotkey.
#[derive(Debug, Clone, Copy, PartialEq, Eq, Structural)]
pub struct Modifiers {
    pub alt: bool,
    pub control: bool,
    pub shift: bool,
    pub meta: bool,
}

/// The key of a hotkey.
#[derive(Debug, Clone, Copy, PartialEq, Eq, Structural)]
pub enum KeyCode {
    /// A letter, in upper case.
    Letter(char),
    /// A digit, from 0 to 9.
    Digit(u8),
    /// A function key, from 1 to 12.
    Function(u8),
    Space,
    Enter,
    Escape,
    Tab,
}

/// A hotkey: a key, and the modifiers held with it, if any.
#[derive(Debug, Clone, Copy, PartialEq, Eq, Structural)]
pub struct Shortcut {
    pub modifiers: Option<Modifiers>,
    pub code: KeyCode,
}

/// No modifier.
pub open spec fn no_modifiers() -> Modifiers {
    Modifiers { alt: false, control: false, shift: false, meta: false }
}

/// The modifiers with the one that `name`, in lower case, stands for; a
/// name that stands for none changes nothing.
pub open spec fn with_modifier(mods: Modifiers, name: Seq<char>) -> Modifiers {
    if name == "alt"@ {
        Modifiers { alt: true, ..mods }
    } else if name == "ctrl"@ || name == "control"@ {
        Modifiers { control: true, ..mods }
    } else if name == "shift"@ {
        Modifiers { shift: true, ..mods }
    } else if name == "super"@ || name == "win"@ || name == "meta"@ {
        Modifiers { meta: true, ..mods }
    } else {
        mods
    }
}

/// The modifiers that the names, in lower case, stand for.
pub open spec fn modifiers_of(names: Seq<Seq<char>>) -> Modifiers
    decreases names.len(),
{
    if names.len() == 0 {
        no_modifiers()
    } else {
        with_modifier(modifiers_of(names.drop_last()), names.last())
    }
}

/// The function key that a name in upper case stands for.
pub open spec fn function_key_of(name: Seq<char>) -> Option<u8> {
    if name == "F1"@ {
        Some(1u8)
    } else if name == "F2"@ {
        Some(2u8)
    } else if name == "F3"@ {
        Some(3u8)
    } else if name == "F4"@ {
        Some(4u8)
    } else if name == "F5"@ {
        Some(5u8)
    } else if name == "F6"@ {
        Some(6u8)
    } else if name == "F7"@ {
        Some(7u8)
    } else if name == "F8"@ {
        Some(8u8)
    } else if name == "F9"@ {
        Some(9u8)
    } else if name == "F10"@ {
        Some(10u8)
    } else if name == "F11"@ {
        Some(11u8)
    } else if name == "F12"@ {
        Some(12u8)
    } else {
        None
    }
}

/// The key that a name in upper case stands for: a letter or a digit for
/// itself, `SPACE`, `ENTER`, `ESCAPE` or `ESC`, `TAB`, and `F1` to `F12`.
pub open spec fn key_code_of(name: Seq<char>) -> Option<KeyCode> {
    if name.len() == 1 && 'A' <= name[0] <= 'Z' {
        Some(KeyCode::Letter(name[0]))
    } else if name.len() == 1 && '0' <= name[0] <= '9' {
        Some(KeyCode::Digit((name[0] as u32 - 48) as u8))
    } else if name == "SPACE"@ {
        Some(KeyCode::Space)
    } else if name == "ENTER"@ {
        Some(KeyCode::Enter)
    } else if name == "ESCAPE"@ || name == "ESC"@ {
        Some(KeyCode::Escape)
    } else if name == "TAB"@ {
        Some(KeyCode::Tab)
    } else {
        match function_key_of(name) {
            Some(n) => Some(KeyCode::Function(n)),
            None => None,
        }
    }
}

/// The hotkey that modifiers in lower case and a key in upper case name,
/// when the key is a known one.
pub open spec fn shortcut_of(modifiers: Seq<Seq<char>>, key: Seq<char>) -> Option<Shortcut> {
    match key_code_of(key) {
        Some(code) => Some(
            Shortcut {
                modifiers: if modifiers_of(modifiers) == no_modifiers() {
                    None
                } else {
                    Some(modifiers_of(modifiers))
                },
                code,
            },
        ),
        None => None,
    }
}

/// The texts joined with `+` between them.
pub open spec fn plus_joined(parts: Seq<Seq<char>>) -> Seq<char>
    decreases parts.len(),
{
    if parts.len() == 0 {
        Seq::empty()
    } else if parts.len() == 1 {
        parts[0]
    } else {
        plus_joined(parts.drop_last()) + "+"@ + parts.last()
    }
}

/// How a hotkey is shown, such as `Ctrl+Shift+Q`.
pub open spec fn hotkey_text(modifiers: Seq<Seq<char>>, key: Seq<char>) -> Seq<char> {
    plus_joined(modifiers) + "+"@ + key
}

/// Each text in lower case.
pub open spec fn all_lowercase(names: Seq<Seq<char>>) -> Seq<Seq<char>> {
    Seq::new(names.len(), |i: int| lowercase(names[i]))
}

/// Whether the tray icon shows when the settings do not say.
pub fn default_show_in_tray() -> (r: bool)
    ensures
        r,
{
    true
}

/// The modifiers of the quick translation hotkey when the settings do not say.
pub fn default_quick_translation_modifiers() -> (r: Vec<String>)
    ensures
        r.deep_view() == seq!["Ctrl"@, "Alt"@],
{
    let mut out: Vec<String> = Vec::new();
    out.push(String::from_str("Ctrl"));
    out.push(String::from_str("Alt"));
    assert(out.deep_view() =~= seq!["Ctrl"@, "Alt"@]);
    out
}

/// The language of quick translation when the settings do not say.
pub fn default_quick_translation_target_language() -> (r: String)
    ensures
        r@ == "en"@,
{
    String::from_str("en")
}

impl Default for Settings {
    fn default() -> (r: Settings)
        ensures
            r@ == default_settings(),
    {
        let mut hotkey_modifiers: Vec<String> = Vec::new();
        hotkey_modifiers.push(String::from_str("Alt"));
        assert(hotkey_modifiers.deep_view() =~= seq!["Alt"@]);
        Settings {
            hotkey_modifiers,
            hotkey_key: String::from_str("Q"),
            launch_at_startup: false,
            window_position: None,
            show_in_tray: true,
            command_only_mode: false,
            quick_translation_hotkey_modifiers: default_quick_translation_modifiers(),
            quick_translation_hotkey_key: String::new(),
            quick_translation_target_language: default_quick_translation_target_language(),
        }
    }
}

fn add_modifier(mods: Modifiers, name: &str) -> (r: Modifiers)
    ensures
        r == with_modifier(mods, name@),
{
    if str_eq(name, "alt") {
        Modifiers { alt: true, control: mods.control, shift: mods.shift, meta: mods.meta }
    } else if str_eq(name, "ctrl") || str_eq(name, "control") {
        Modifiers { alt: mods.alt, control: true, shift: mods.shift, meta: mods.meta }
    } else if str_eq(name, "shift") {
        Modifiers { alt: mods.alt, control: mods.control, shift: true, meta: mods.meta }
    } else if str_eq(name, "super") || str_eq(name, "win") || str_eq(name, "meta") {
        Modifiers { alt: mods.alt, control: mods.control, shift: mods.shift, meta: true }
    } else {
        mods
    }
}

fn function_key(name: &str) -> (r: Option<u8>)
    ensures
        r == function_key_of(name@),
{
    if str_eq(name, "F1") {
        Some(1)
    } else if str_eq(name, "F2") {
        Some(2)
    } else if str_eq(name, "F3") {
        Some(3)
    } else if str_eq(name, "F4") {
        Some(4)
    } else if str_eq(name, "F5") {
        Some(5)
    } else if str_eq(name, "F6") {
        Some(6)
    } else if str_eq(name, "F7") {
        Some(7)
    } else if str_eq(name, "F8") {
        Some(8)
    } else if str_eq(name, "F9") {
        Some(9)
    } else if str_eq(name, "F10") {
        Some(10)
    } else if str_eq(name, "F11") {
        Some(11)
    } else if str_eq(name, "F12") {
        Some(12)
    } else {
        None
    }
}

/// The key that a name in upper case stands for.
pub fn key_code(name: &str) -> (r: Option<KeyCode>)
    ensures
        r == key_code_of(name@),
{
    let x = to_chars(name);
    if x.len() == 1 && 'A' <= x[0] && x[0] <= 'Z' {
        Some(KeyCode::Letter(x[0]))
    } else if x.len() == 1 && '0' <= x[0] && x[0] <= '9' {
        Some(KeyCode::Digit((x[0] as u32 - 48) as u8))
    } else if str_eq(name, "SPACE") {
        Some(KeyCode::Space)
    } else if str_eq(name, "ENTER") {
        Some(KeyCode::Enter)
    } else if str_eq(name, "ESCAPE") || str_eq(name, "ESC") {
        Some(KeyCode::Escape)
    } else if str_eq(name, "TAB") {
        Some(KeyCode::Tab)
    } else {
        match function_key(name) {
            Some(n) => Some(KeyCode::Function(n)),
            None => None,
        }
    }
}

/// The hotkey that modifiers in lower case and a key in upper case name.
pub fn shortcut_for(modifiers: &Vec<String>, key: &str) -> (r: Option<Shortcut>)
    ensures
        r == shortcut_of(modifiers.deep_view(), key@),
{
    let mut mods = Modifiers { alt: false, control: false, shift: false, meta: false };
    let mut i: usize = 0;
    while i < modifiers.len()
        invariant
            i <= modifiers.len(),
            mods == modifiers_of(modifiers.deep_view().take(i as int)),
        decreases modifiers.len() - i,
    {
        assert(modifiers.deep_view().take(i + 1).drop_last() =~= modifiers.deep_view().take(
            i as int,
        ));
        assert(modifiers.deep_view().take(i + 1).last() == modifiers@[i as int]@);
        mods = add_modifier(mods, modifiers[i].as_str());
        i = i + 1;
    }
    assert(modifiers.deep_view().take(i as int) =~= modifiers.deep_view());
    match key_code(key) {
        Some(code) => {
            let none = !mods.alt && !mods.control && !mods.shift && !mods.meta;
            Some(
                Shortcut {
                    modifiers: if none {
                        None
                    } else {
                        Some(mods)
                    },
                    code,
                },
            )
        },
        None => None,
    }
}

/// The hotkey that modifiers and a key name, whatever their case.
pub fn parse_shortcut(modifiers: &Vec<String>, key: &str) -> (r: Option<Shortcut>)
    ensures
        r == shortcut_of(all_lowercase(modifiers.deep_view()), uppercase(key@)),
{
    let mut lowered: Vec<String> = Vec::new();
    let mut i: usize = 0;
    while i < modifiers.len()
        invariant
            i <= modifiers.len(),
            lowered.len() == i,
            forall|j: int| 0 <= j < i ==> (#[trigger] lowered@[j])@ == lowercase(modifiers@[j]@),
        decreases modifiers.len() - i,
    {
        lowered.push(to_lowercase(modifiers[i].as_str()));
        i = i + 1;
    }
    assert(lowered.deep_view() =~= all_lowercase(modifiers.deep_view()));
    let upper = to_uppercase(key);
    shortcut_for(&lowered, upper.as_str())
}

/// How a hotkey is shown.
pub fn hotkey_display(modifiers: &Vec<String>, key: &str) -> (r: String)
    ensures
        r@ == hotkey_text(modifiers.deep_view(), key@),
{
    let mut out = String::new();
    let mut i: usize = 0;
    while i < modifiers.len()
        invariant
            i <= modifiers.len(),
            out@ == plus_joined(modifiers.deep_view().take(i as int)),
        decreases modifiers.len() - i,
    {
        let ghost before = modifiers.deep_view().take(i as int);
        let ghost after = modifiers.deep_view().take(i + 1);
        assert(after.drop_last() =~= before);
        assert(after.last() == modifiers@[i as int]@);
        if i > 0 {
            out.append("+");
        }
        out.append(modifiers[i].as_str());
        assert(out@ =~= plus_joined(after));
        i = i + 1;
    }
    assert(modifiers.deep_view().take(i as int) =~= modifiers.deep_view());
    out.append("+");
    out.append(key);
    out
}

} // verus!
