//! The key-name table: which named key or character a textual key name
//! stands for, plus the mouse-button and modifier-key names.  The table is
//! the protocol's configuration data; matching is case-insensitive on
//! ASCII, and any single-byte name falls through to that character.

use vstd::prelude::*;
use vstd::utf8::encode_utf8;
use crate::bytestr::{bytes_eq, lit, lower_bytes, to_lower};

verus! {

/// A key the input-simulation layer knows by name.
#[derive(Clone, Copy, PartialEq, Eq, Structural, Debug)]
pub enum NamedKey {
    Space,
    Return,
    Escape,
    UpArrow,
    DownArrow,
    LeftArrow,
    RightArrow,
    Backspace,
    Tab,
    Shift,
    Control,
    Alt,
    Meta,
    VolumeUp,
    VolumeDown,
    VolumeMute,
    F1,
    F2,
    F3,
    F4,
    F5,
    F6,
    F7,
    F8,
    F9,
    F10,
    F11,
    F12,
}

/// What a key name maps to: a named key, or a character to be typed.
#[derive(Clone, Copy, PartialEq, Eq, Structural, Debug)]
pub enum KeyAction {
    Named(NamedKey),
    Char(u8),
}

/// A mouse button.
#[derive(Clone, Copy, PartialEq, Eq, Structural, Debug)]
pub enum MouseButton {
    Left,
    Right,
    Middle,
}

/// A modifier key.
#[derive(Clone, Copy, PartialEq, Eq, Structural, Debug)]
pub enum ModKey {
    Shift,
    Control,
    Alt,
    Meta,
}

/// The key a name denotes: the named-key table on the ASCII-lowered name,
/// then single lowercase letters as characters, then any single-byte name
/// as the raw character.
pub open spec fn key_of_name_spec(n: Seq<u8>) -> Option<KeyAction> {
    let l = lower_bytes(n);
    if l == encode_utf8("space"@) {
        Option::Some(KeyAction::Named(NamedKey::Space))
    } else if l == encode_utf8("enter"@) || l == encode_utf8("return"@) {
        Option::Some(KeyAction::Named(NamedKey::Return))
    } else if l == encode_utf8("escape"@) || l == encode_utf8("esc"@) {
        Option::Some(KeyAction::Named(NamedKey::Escape))
    } else if l == encode_utf8("up"@) {
        Option::Some(KeyAction::Named(NamedKey::UpArrow))
    } else if l == encode_utf8("down"@) {
        Option::Some(KeyAction::Named(NamedKey::DownArrow))
    } else if l == encode_utf8("left"@) {
        Option::Some(KeyAction::Named(NamedKey::LeftArrow))
    } else if l == encode_utf8("right"@) {
        Option::Some(KeyAction::Named(NamedKey::RightArrow))
    } else if l == encode_utf8("backspace"@) {
        Option::Some(KeyAction::Named(NamedKey::Backspace))
    } else if l == encode_utf8("tab"@) {
        Option::Some(KeyAction::Named(NamedKey::Tab))
    } else if l == encode_utf8("shift"@) {
        Option::Some(KeyAction::Named(NamedKey::Shift))
    } else if l == encode_utf8("ctrl"@) || l == encode_utf8("control"@) {
        Option::Some(KeyAction::Named(NamedKey::Control))
    } else if l == encode_utf8("alt"@) {
        Option::Some(KeyAction::Named(NamedKey::Alt))
    } else if l == encode_utf8("cmd"@) || l == encode_utf8("meta"@) {
        Option::Some(KeyAction::Named(NamedKey::Meta))
    } else if l == encode_utf8("f1"@) {
        Option::Some(KeyAction::Named(NamedKey::F1))
    } else if l == encode_utf8("f2"@) {
        Option::Some(KeyAction::Named(NamedKey::F2))
    } else if l == encode_utf8("f3"@) {
        Option::Some(KeyAction::Named(NamedKey::F3))
    } else if l == encode_utf8("f4"@) {
        Option::Some(KeyAction::Named(NamedKey::F4))
    } else if l == encode_utf8("f5"@) {
        Option::Some(KeyAction::Named(NamedKey::F5))
    } else if l == encode_utf8("f6"@) {
        Option::Some(KeyAction::Named(NamedKey::F6))
    } else if l == encode_utf8("f7"@) {
        Option::Some(KeyAction::Named(NamedKey::F7))
    } else if l == encode_utf8("f8"@) {
        Option::Some(KeyAction::Named(NamedKey::F8))
    } else if l == encode_utf8("f9"@) {
        Option::Some(KeyAction::Named(NamedKey::F9))
    } else if l == encode_utf8("f10"@) {
        Option::Some(KeyAction::Named(NamedKey::F10))
    } else if l == encode_utf8("f11"@) {
        Option::Some(KeyAction::Named(NamedKey::F11))
    } else if l == encode_utf8("f12"@) {
        Option::Some(KeyAction::Named(NamedKey::F12))
    } else if l.len() == 1 && 97 <= l[0] <= 122 {
        Option::Some(KeyAction::Char(l[0]))
    } else if n.len() == 1 {
        Option::Some(KeyAction::Char(n[0]))
    } else {
        Option::None
    }
}

/// Map a key name through the table.
pub fn key_of_name(n: &[u8]) -> (r: Option<KeyAction>)
    ensures
        r == key_of_name_spec(n@),
{
    let l = to_lower(n);
    let ls = l.as_slice();
    if bytes_eq(ls, lit("space").as_slice()) {
        Option::Some(KeyAction::Named(NamedKey::Space))
    } else if bytes_eq(ls, lit("enter").as_slice()) || bytes_eq(ls, lit("return").as_slice()) {
        Option::Some(KeyAction::Named(NamedKey::Return))
    } else if bytes_eq(ls, lit("escape").as_slice()) || bytes_eq(ls, lit("esc").as_slice()) {
        Option::Some(KeyAction::Named(NamedKey::Escape))
    } else if bytes_eq(ls, lit("up").as_slice()) {
        Option::Some(KeyAction::Named(NamedKey::UpArrow))
    } else if bytes_eq(ls, lit("down").as_slice()) {
        Option::Some(KeyAction::Named(NamedKey::DownArrow))
    } else if bytes_eq(ls, lit("left").as_slice()) {
        Option::Some(KeyAction::Named(NamedKey::LeftArrow))
    } else if bytes_eq(ls, lit("right").as_slice()) {
        Option::Some(KeyAction::Named(NamedKey::RightArrow))
    } else if bytes_eq(ls, lit("backspace").as_slice()) {
        Option::Some(KeyAction::Named(NamedKey::Backspace))
    } else if bytes_eq(ls, lit("tab").as_slice()) {
        Option::Some(KeyAction::Named(NamedKey::Tab))
    } else if bytes_eq(ls, lit("shift").as_slice()) {
        Option::Some(KeyAction::Named(NamedKey::Shift))
    } else if bytes_eq(ls, lit("ctrl").as_slice()) || bytes_eq(ls, lit("control").as_slice()) {
        Option::Some(KeyAction::Named(NamedKey::Control))
    } else if bytes_eq(ls, lit("alt").as_slice()) {
        Option::Some(KeyAction::Named(NamedKey::Alt))
    } else if bytes_eq(ls, lit("cmd").as_slice()) || bytes_eq(ls, lit("meta").as_slice()) {
        Option::Some(KeyAction::Named(NamedKey::Meta))
    } else if bytes_eq(ls, lit("f1").as_slice()) {
        Option::Some(KeyAction::Named(NamedKey::F1))
    } else if bytes_eq(ls, lit("f2").as_slice()) {
        Option::Some(KeyAction::Named(NamedKey::F2))
    } else if bytes_eq(ls, lit("f3").as_slice()) {
        Option::Some(KeyAction::Named(NamedKey::F3))
    } else if bytes_eq(ls, lit("f4").as_slice()) {
        Option::Some(KeyAction::Named(NamedKey::F4))
    } else if bytes_eq(ls, lit("f5").as_slice()) {
        Option::Some(KeyAction::Named(NamedKey::F5))
    } else if bytes_eq(ls, lit("f6").as_slice()) {
        Option::Some(KeyAction::Named(NamedKey::F6))
    } else if bytes_eq(ls, lit("f7").as_slice()) {
        Option::Some(KeyAction::Named(NamedKey::F7))
    } else if bytes_eq(ls, lit("f8").as_slice()) {
        Option::Some(KeyAction::Named(NamedKey::F8))
    } else if bytes_eq(ls, lit("f9").as_slice()) {
        Option::Some(KeyAction::Named(NamedKey::F9))
    } else if bytes_eq(ls, lit("f10").as_slice()) {
        Option::Some(KeyAction::Named(NamedKey::F10))
    } else if bytes_eq(ls, lit("f11").as_slice()) {
        Option::Some(KeyAction::Named(NamedKey::F11))
    } else if bytes_eq(ls, lit("f12").as_slice()) {
        Option::Some(KeyAction::Named(NamedKey::F12))
    } else if l.len() == 1 && 97 <= l[0] && l[0] <= 122 {
        Option::Some(KeyAction::Char(l[0]))
    } else if n.len() == 1 {
        Option::Some(KeyAction::Char(n[0]))
    } else {
        Option::None
    }
}

/// The mouse button a name denotes.
pub open spec fn button_of_name_spec(n: Seq<u8>) -> Option<MouseButton> {
    if n == encode_utf8("left"@) {
        Option::Some(MouseButton::Left)
    } else if n == encode_utf8("right"@) {
        Option::Some(MouseButton::Right)
    } else if n == encode_utf8("middle"@) {
        Option::Some(MouseButton::Middle)
    } else {
        Option::None
    }
}

/// Map a mouse-button name; the match is exact.
pub fn button_of_name(n: &[u8]) -> (r: Option<MouseButton>)
    ensures
        r == button_of_name_spec(n@),
{
    if bytes_eq(n, lit("left").as_slice()) {
        Option::Some(MouseButton::Left)
    } else if bytes_eq(n, lit("right").as_slice()) {
        Option::Some(MouseButton::Right)
    } else if bytes_eq(n, lit("middle").as_slice()) {
        Option::Some(MouseButton::Middle)
    } else {
        Option::None
    }
}

/// The modifier key a name denotes, case-insensitively, with the aliases
/// `control`, `option` and `meta`.
pub open spec fn modkey_of_name_spec(n: Seq<u8>) -> Option<ModKey> {
    let l = lower_bytes(n);
    if l == encode_utf8("shift"@) {
        Option::Some(ModKey::Shift)
    } else if l == encode_utf8("ctrl"@) || l == encode_utf8("control"@) {
        Option::Some(ModKey::Control)
    } else if l == encode_utf8("alt"@) || l == encode_utf8("option"@) {
        Option::Some(ModKey::Alt)
    } else if l == encode_utf8("cmd"@) || l == encode_utf8("meta"@) {
        Option::Some(ModKey::Meta)
    } else {
        Option::None
    }
}

/// Map a modifier-key name.
pub fn modkey_of_name(n: &[u8]) -> (r: Option<ModKey>)
    ensures
        r == modkey_of_name_spec(n@),
{
    let l = to_lower(n);
    let ls = l.as_slice();
    if bytes_eq(ls, lit("shift").as_slice()) {
        Option::Some(ModKey::Shift)
    } else if bytes_eq(ls, lit("ctrl").as_slice()) || bytes_eq(ls, lit("control").as_slice()) {
        Option::Some(ModKey::Control)
    } else if bytes_eq(ls, lit("alt").as_slice()) || bytes_eq(ls, lit("option").as_slice()) {
        Option::Some(ModKey::Alt)
    } else if bytes_eq(ls, lit("cmd").as_slice()) || bytes_eq(ls, lit("meta").as_slice()) {
        Option::Some(ModKey::Meta)
    } else {
        Option::None
    }
}

} // verus!
