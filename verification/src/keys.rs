//! The key symbol table: the keys the launcher knows, and the labels that
//! name them in configuration.
//!
//! Every key has exactly one label, a short lowercase word such as `b`,
//! `f12` or `space`. A few keys can also be written by an alias (`esc`,
//! `ctrl`, `cmd`, `meta`). Labels are matched without regard to case.

use vstd::prelude::*;
use vstd::string::*;

use crate::text::lowercase;
use crate::text::lowercase_of;
use crate::text::str_eq;

verus! {

/// A modifier key that can serve as the leader.
#[derive(Clone, Copy, Debug, PartialEq, Eq, Hash, Structural)]
pub enum Modifier {
    Alt,
    Control,
    Super,
    Shift,
}

/// A physical key, independent of platform and keyboard layout.
#[derive(Clone, Copy, Debug, PartialEq, Eq, Hash, Structural)]
pub enum KeySymbol {
    KeyA,
    KeyB,
    KeyC,
    KeyD,
    KeyE,
    KeyF,
    KeyG,
    KeyH,
    KeyI,
    KeyJ,
    KeyK,
    KeyL,
    KeyM,
    KeyN,
    KeyO,
    KeyP,
    KeyQ,
    KeyR,
    KeyS,
    KeyT,
    KeyU,
    KeyV,
    KeyW,
    KeyX,
    KeyY,
    KeyZ,
    Digit0,
    Digit1,
    Digit2,
    Digit3,
    Digit4,
    Digit5,
    Digit6,
    Digit7,
    Digit8,
    Digit9,
    F1,
    F2,
    F3,
    F4,
    F5,
    F6,
    F7,
    F8,
    F9,
    F10,
    F11,
    F12,
    Space,
    Tab,
    Escape,
    Alt,
    Control,
    Super,
    Shift,
}

/// The one label of each key.
pub open spec fn label_of_symbol(symbol: KeySymbol) -> Seq<char> {
    match symbol {
        KeySymbol::KeyA => "a"@,
        KeySymbol::KeyB => "b"@,
        KeySymbol::KeyC => "c"@,
        KeySymbol::KeyD => "d"@,
        KeySymbol::KeyE => "e"@,
        KeySymbol::KeyF => "f"@,
        KeySymbol::KeyG => "g"@,
        KeySymbol::KeyH => "h"@,
        KeySymbol::KeyI => "i"@,
        KeySymbol::KeyJ => "j"@,
        KeySymbol::KeyK => "k"@,
        KeySymbol::KeyL => "l"@,
        KeySymbol::KeyM => "m"@,
        KeySymbol::KeyN => "n"@,
        KeySymbol::KeyO => "o"@,
        KeySymbol::KeyP => "p"@,
        KeySymbol::KeyQ => "q"@,
        KeySymbol::KeyR => "r"@,
        KeySymbol::KeyS => "s"@,
        KeySymbol::KeyT => "t"@,
        KeySymbol::KeyU => "u"@,
        KeySymbol::KeyV => "v"@,
        KeySymbol::KeyW => "w"@,
        KeySymbol::KeyX => "x"@,
        KeySymbol::KeyY => "y"@,
        KeySymbol::KeyZ => "z"@,
        KeySymbol::Digit0 => "0"@,
        KeySymbol::Digit1 => "1"@,
        KeySymbol::Digit2 => "2"@,
        KeySymbol::Digit3 => "3"@,
        KeySymbol::Digit4 => "4"@,
        KeySymbol::Digit5 => "5"@,
        KeySymbol::Digit6 => "6"@,
        KeySymbol::Digit7 => "7"@,
        KeySymbol::Digit8 => "8"@,
        KeySymbol::Digit9 => "9"@,
        KeySymbol::F1 => "f1"@,
        KeySymbol::F2 => "f2"@,
        KeySymbol::F3 => "f3"@,
        KeySymbol::F4 => "f4"@,
        KeySymbol::F5 => "f5"@,
        KeySymbol::F6 => "f6"@,
        KeySymbol::F7 => "f7"@,
        KeySymbol::F8 => "f8"@,
        KeySymbol::F9 => "f9"@,
        KeySymbol::F10 => "f10"@,
        KeySymbol::F11 => "f11"@,
        KeySymbol::F12 => "f12"@,
        KeySymbol::Space => "space"@,
        KeySymbol::Tab => "tab"@,
        KeySymbol::Escape => "escape"@,
        KeySymbol::Alt => "alt"@,
        KeySymbol::Control => "control"@,
        KeySymbol::Super => "super"@,
        KeySymbol::Shift => "shift"@,
    }
}

/// The key that a single character names: a lowercase letter or a digit.
pub open spec fn symbol_of_char(c: char) -> Option<KeySymbol> {
    match c {
        'a' => Some(KeySymbol::KeyA),
        'b' => Some(KeySymbol::KeyB),
        'c' => Some(KeySymbol::KeyC),
        'd' => Some(KeySymbol::KeyD),
        'e' => Some(KeySymbol::KeyE),
        'f' => Some(KeySymbol::KeyF),
        'g' => Some(KeySymbol::KeyG),
        'h' => Some(KeySymbol::KeyH),
        'i' => Some(KeySymbol::KeyI),
        'j' => Some(KeySymbol::KeyJ),
        'k' => Some(KeySymbol::KeyK),
        'l' => Some(KeySymbol::KeyL),
        'm' => Some(KeySymbol::KeyM),
        'n' => Some(KeySymbol::KeyN),
        'o' => Some(KeySymbol::KeyO),
        'p' => Some(KeySymbol::KeyP),
        'q' => Some(KeySymbol::KeyQ),
        'r' => Some(KeySymbol::KeyR),
        's' => Some(KeySymbol::KeyS),
        't' => Some(KeySymbol::KeyT),
        'u' => Some(KeySymbol::KeyU),
        'v' => Some(KeySymbol::KeyV),
        'w' => Some(KeySymbol::KeyW),
        'x' => Some(KeySymbol::KeyX),
        'y' => Some(KeySymbol::KeyY),
        'z' => Some(KeySymbol::KeyZ),
        '0' => Some(KeySymbol::Digit0),
        '1' => Some(KeySymbol::Digit1),
        '2' => Some(KeySymbol::Digit2),
        '3' => Some(KeySymbol::Digit3),
        '4' => Some(KeySymbol::Digit4),
        '5' => Some(KeySymbol::Digit5),
        '6' => Some(KeySymbol::Digit6),
        '7' => Some(KeySymbol::Digit7),
        '8' => Some(KeySymbol::Digit8),
        '9' => Some(KeySymbol::Digit9),
        _ => None,
    }
}

/// The key that a word names, by label or by alias.
pub open spec fn symbol_of_name(name: Seq<char>) -> Option<KeySymbol> {
    if name == "space"@ {
        Some(KeySymbol::Space)
    } else if name == "tab"@ {
        Some(KeySymbol::Tab)
    } else if name == "escape"@ {
        Some(KeySymbol::Escape)
    } else if name == "esc"@ {
        Some(KeySymbol::Escape)
    } else if name == "f1"@ {
        Some(KeySymbol::F1)
    } else if name == "f2"@ {
        Some(KeySymbol::F2)
    } else if name == "f3"@ {
        Some(KeySymbol::F3)
    } else if name == "f4"@ {
        Some(KeySymbol::F4)
    } else if name == "f5"@ {
        Some(KeySymbol::F5)
    } else if name == "f6"@ {
        Some(KeySymbol::F6)
    } else if name == "f7"@ {
        Some(KeySymbol::F7)
    } else if name == "f8"@ {
        Some(KeySymbol::F8)
    } else if name == "f9"@ {
        Some(KeySymbol::F9)
    } else if name == "f10"@ {
        Some(KeySymbol::F10)
    } else if name == "f11"@ {
        Some(KeySymbol::F11)
    } else if name == "f12"@ {
        Some(KeySymbol::F12)
    } else if name == "alt"@ {
        Some(KeySymbol::Alt)
    } else if name == "ctrl"@ {
        Some(KeySymbol::Control)
    } else if name == "control"@ {
        Some(KeySymbol::Control)
    } else if name == "cmd"@ {
        Some(KeySymbol::Super)
    } else if name == "meta"@ {
        Some(KeySymbol::Super)
    } else if name == "super"@ {
        Some(KeySymbol::Super)
    } else if name == "shift"@ {
        Some(KeySymbol::Shift)
    } else {
        None
    }
}

/// The key that a label names. The label is taken as written: lowercase
/// it first where case is to be ignored.
pub open spec fn symbol_of_label(label: Seq<char>) -> Option<KeySymbol> {
    if label.len() == 1 {
        symbol_of_char(label[0])
    } else {
        symbol_of_name(label)
    }
}

/// Whether a word is an alias: a second way to write a key that has a
/// label of its own.
pub open spec fn is_alias(label: Seq<char>) -> bool {
    label == "esc"@ || label == "ctrl"@ || label == "cmd"@ || label == "meta"@
}

/// Whether a word is the label of some key.
pub open spec fn is_key_label(label: Seq<char>) -> bool {
    exists|symbol: KeySymbol| label == label_of_symbol(symbol)
}

/// The normal form of a lowercase label: the label of the key it names,
/// or the label itself where it names none.
pub open spec fn normal_form(label: Seq<char>) -> Seq<char> {
    match symbol_of_label(label) {
        Some(symbol) => label_of_symbol(symbol),
        None => label,
    }
}

/// The modifier that a key is, if it is one.
pub open spec fn modifier_of_symbol(symbol: KeySymbol) -> Option<Modifier> {
    match symbol {
        KeySymbol::Alt => Some(Modifier::Alt),
        KeySymbol::Control => Some(Modifier::Control),
        KeySymbol::Super => Some(Modifier::Super),
        KeySymbol::Shift => Some(Modifier::Shift),
        _ => None,
    }
}

/// The key of a modifier.
pub open spec fn symbol_of_modifier(modifier: Modifier) -> KeySymbol {
    match modifier {
        Modifier::Alt => KeySymbol::Alt,
        Modifier::Control => KeySymbol::Control,
        Modifier::Super => KeySymbol::Super,
        Modifier::Shift => KeySymbol::Shift,
    }
}

/// The modifier that a label names, taking the label as written.
pub open spec fn modifier_of_label(label: Seq<char>) -> Option<Modifier> {
    match symbol_of_label(label) {
        Some(symbol) => modifier_of_symbol(symbol),
        None => None,
    }
}

/// The label of a key.
pub fn symbol_to_label(symbol: KeySymbol) -> (r: &'static str)
    ensures
        r@ == label_of_symbol(symbol),
{
    match symbol {
        KeySymbol::KeyA => "a",
        KeySymbol::KeyB => "b",
        KeySymbol::KeyC => "c",
        KeySymbol::KeyD => "d",
        KeySymbol::KeyE => "e",
        KeySymbol::KeyF => "f",
        KeySymbol::KeyG => "g",
        KeySymbol::KeyH => "h",
        KeySymbol::KeyI => "i",
        KeySymbol::KeyJ => "j",
        KeySymbol::KeyK => "k",
        KeySymbol::KeyL => "l",
        KeySymbol::KeyM => "m",
        KeySymbol::KeyN => "n",
        KeySymbol::KeyO => "o",
        KeySymbol::KeyP => "p",
        KeySymbol::KeyQ => "q",
        KeySymbol::KeyR => "r",
        KeySymbol::KeyS => "s",
        KeySymbol::KeyT => "t",
        KeySymbol::KeyU => "u",
        KeySymbol::KeyV => "v",
        KeySymbol::KeyW => "w",
        KeySymbol::KeyX => "x",
        KeySymbol::KeyY => "y",
        KeySymbol::KeyZ => "z",
        KeySymbol::Digit0 => "0",
        KeySymbol::Digit1 => "1",
        KeySymbol::Digit2 => "2",
        KeySymbol::Digit3 => "3",
        KeySymbol::Digit4 => "4",
        KeySymbol::Digit5 => "5",
        KeySymbol::Digit6 => "6",
        KeySymbol::Digit7 => "7",
        KeySymbol::Digit8 => "8",
        KeySymbol::Digit9 => "9",
        KeySymbol::F1 => "f1",
        KeySymbol::F2 => "f2",
        KeySymbol::F3 => "f3",
        KeySymbol::F4 => "f4",
        KeySymbol::F5 => "f5",
        KeySymbol::F6 => "f6",
        KeySymbol::F7 => "f7",
        KeySymbol::F8 => "f8",
        KeySymbol::F9 => "f9",
        KeySymbol::F10 => "f10",
        KeySymbol::F11 => "f11",
        KeySymbol::F12 => "f12",
        KeySymbol::Space => "space",
        KeySymbol::Tab => "tab",
        KeySymbol::Escape => "escape",
        KeySymbol::Alt => "alt",
        KeySymbol::Control => "control",
        KeySymbol::Super => "super",
        KeySymbol::Shift => "shift",
    }
}

/// The key that a single character names, if it is a lowercase letter or
/// a digit.
fn symbol_from_char(c: char) -> (r: Option<KeySymbol>)
    ensures
        r == symbol_of_char(c),
{
    match c {
        'a' => Some(KeySymbol::KeyA),
        'b' => Some(KeySymbol::KeyB),
        'c' => Some(KeySymbol::KeyC),
        'd' => Some(KeySymbol::KeyD),
        'e' => Some(KeySymbol::KeyE),
        'f' => Some(KeySymbol::KeyF),
        'g' => Some(KeySymbol::KeyG),
        'h' => Some(KeySymbol::KeyH),
        'i' => Some(KeySymbol::KeyI),
        'j' => Some(KeySymbol::KeyJ),
        'k' => Some(KeySymbol::KeyK),
        'l' => Some(KeySymbol::KeyL),
        'm' => Some(KeySymbol::KeyM),
        'n' => Some(KeySymbol::KeyN),
        'o' => Some(KeySymbol::KeyO),
        'p' => Some(KeySymbol::KeyP),
        'q' => Some(KeySymbol::KeyQ),
        'r' => Some(KeySymbol::KeyR),
        's' => Some(KeySymbol::KeyS),
        't' => Some(KeySymbol::KeyT),
        'u' => Some(KeySymbol::KeyU),
        'v' => Some(KeySymbol::KeyV),
        'w' => Some(KeySymbol::KeyW),
        'x' => Some(KeySymbol::KeyX),
        'y' => Some(KeySymbol::KeyY),
        'z' => Some(KeySymbol::KeyZ),
        '0' => Some(KeySymbol::Digit0),
        '1' => Some(KeySymbol::Digit1),
        '2' => Some(KeySymbol::Digit2),
        '3' => Some(KeySymbol::Digit3),
        '4' => Some(KeySymbol::Digit4),
        '5' => Some(KeySymbol::Digit5),
        '6' => Some(KeySymbol::Digit6),
        '7' => Some(KeySymbol::Digit7),
        '8' => Some(KeySymbol::Digit8),
        '9' => Some(KeySymbol::Digit9),
        _ => None,
    }
}

/// The key that a word names, by label or by alias.
fn symbol_from_name(name: &str) -> (r: Option<KeySymbol>)
    ensures
        r == symbol_of_name(name@),
{
    if str_eq(name, "space") {
        Some(KeySymbol::Space)
    } else if str_eq(name, "tab") {
        Some(KeySymbol::Tab)
    } else if str_eq(name, "escape") {
        Some(KeySymbol::Escape)
    } else if str_eq(name, "esc") {
        Some(KeySymbol::Escape)
    } else if str_eq(name, "f1") {
        Some(KeySymbol::F1)
    } else if str_eq(name, "f2") {
        Some(KeySymbol::F2)
    } else if str_eq(name, "f3") {
        Some(KeySymbol::F3)
    } else if str_eq(name, "f4") {
        Some(KeySymbol::F4)
    } else if str_eq(name, "f5") {
        Some(KeySymbol::F5)
    } else if str_eq(name, "f6") {
        Some(KeySymbol::F6)
    } else if str_eq(name, "f7") {
        Some(KeySymbol::F7)
    } else if str_eq(name, "f8") {
        Some(KeySymbol::F8)
    } else if str_eq(name, "f9") {
        Some(KeySymbol::F9)
    } else if str_eq(name, "f10") {
        Some(KeySymbol::F10)
    } else if str_eq(name, "f11") {
        Some(KeySymbol::F11)
    } else if str_eq(name, "f12") {
        Some(KeySymbol::F12)
    } else if str_eq(name, "alt") {
        Some(KeySymbol::Alt)
    } else if str_eq(name, "ctrl") {
        Some(KeySymbol::Control)
    } else if str_eq(name, "control") {
        Some(KeySymbol::Control)
    } else if str_eq(name, "cmd") {
        Some(KeySymbol::Super)
    } else if str_eq(name, "meta") {
        Some(KeySymbol::Super)
    } else if str_eq(name, "super") {
        Some(KeySymbol::Super)
    } else if str_eq(name, "shift") {
        Some(KeySymbol::Shift)
    } else {
        None
    }
}

/// The key that a label names, taking the label as written: `B` names no
/// key here, `b` does.
pub fn symbol_from_label(label: &str) -> (r: Option<KeySymbol>)
    ensures
        r == symbol_of_label(label@),
{
    let n: usize = label.unicode_len();
    if n == 1 {
        symbol_from_char(label.get_char(0))
    } else if n > 7 {
        proof {
            lemma_label_length(label@);
        }
        None
    } else {
        symbol_from_name(label)
    }
}

/// The key that a label names, without regard to case. `None` says that
/// the label is unsupported.
pub fn label_to_symbol(label: &str) -> (r: Option<KeySymbol>)
    ensures
        r == symbol_of_label(lowercase_of(label@)),
{
    let lower = lowercase(label);
    symbol_from_label(lower.as_str())
}

/// The modifier that a key is, if it is one.
pub fn symbol_modifier(symbol: KeySymbol) -> (r: Option<Modifier>)
    ensures
        r == modifier_of_symbol(symbol),
{
    match symbol {
        KeySymbol::Alt => Some(Modifier::Alt),
        KeySymbol::Control => Some(Modifier::Control),
        KeySymbol::Super => Some(Modifier::Super),
        KeySymbol::Shift => Some(Modifier::Shift),
        _ => None,
    }
}

/// The key of a modifier.
pub fn modifier_symbol(modifier: Modifier) -> (r: KeySymbol)
    ensures
        r == symbol_of_modifier(modifier),
{
    match modifier {
        Modifier::Alt => KeySymbol::Alt,
        Modifier::Control => KeySymbol::Control,
        Modifier::Super => KeySymbol::Super,
        Modifier::Shift => KeySymbol::Shift,
    }
}

/// The modifier that a label names, without regard to case: `alt`,
/// `control` or `ctrl`, `super`, `cmd` or `meta`, `shift`.
pub fn label_to_modifier(label: &str) -> (r: Option<Modifier>)
    ensures
        r == modifier_of_label(lowercase_of(label@)),
{
    match label_to_symbol(label) {
        Some(symbol) => symbol_modifier(symbol),
        None => None,
    }
}

/// The normal form of a label: lowercase, and with an alias replaced by
/// the label of the key it names.
pub fn normalize_label(label: &str) -> (r: String)
    ensures
        r@ == normal_form(lowercase_of(label@)),
{
    let lower = lowercase(label);
    match symbol_from_label(lower.as_str()) {
        Some(symbol) => String::from_str(symbol_to_label(symbol)),
        None => lower,
    }
}

/// Whether `text` has exactly the characters of `chars`, stated index by
/// index.
spec fn spelled(text: Seq<char>, chars: Seq<char>) -> bool {
    &&& text.len() == chars.len()
    &&& forall|i: int| 0 <= i < chars.len() ==> text[i] == chars[i]
}

/// How each label and alias is spelled.
proof fn lemma_spellings()
    ensures
        spelled("a"@, seq!['a']),
        spelled("b"@, seq!['b']),
        spelled("c"@, seq!['c']),
        spelled("d"@, seq!['d']),
        spelled("e"@, seq!['e']),
        spelled("f"@, seq!['f']),
        spelled("g"@, seq!['g']),
        spelled("h"@, seq!['h']),
        spelled("i"@, seq!['i']),
        spelled("j"@, seq!['j']),
        spelled("k"@, seq!['k']),
        spelled("l"@, seq!['l']),
        spelled("m"@, seq!['m']),
        spelled("n"@, seq!['n']),
        spelled("o"@, seq!['o']),
        spelled("p"@, seq!['p']),
        spelled("q"@, seq!['q']),
        spelled("r"@, seq!['r']),
        spelled("s"@, seq!['s']),
        spelled("t"@, seq!['t']),
        spelled("u"@, seq!['u']),
        spelled("v"@, seq!['v']),
        spelled("w"@, seq!['w']),
        spelled("x"@, seq!['x']),
        spelled("y"@, seq!['y']),
        spelled("z"@, seq!['z']),
        spelled("0"@, seq!['0']),
        spelled("1"@, seq!['1']),
        spelled("2"@, seq!['2']),
        spelled("3"@, seq!['3']),
        spelled("4"@, seq!['4']),
        spelled("5"@, seq!['5']),
        spelled("6"@, seq!['6']),
        spelled("7"@, seq!['7']),
        spelled("8"@, seq!['8']),
        spelled("9"@, seq!['9']),
        spelled("f1"@, seq!['f', '1']),
        spelled("f2"@, seq!['f', '2']),
        spelled("f3"@, seq!['f', '3']),
        spelled("f4"@, seq!['f', '4']),
        spelled("f5"@, seq!['f', '5']),
        spelled("f6"@, seq!['f', '6']),
        spelled("f7"@, seq!['f', '7']),
        spelled("f8"@, seq!['f', '8']),
        spelled("f9"@, seq!['f', '9']),
        spelled("f10"@, seq!['f', '1', '0']),
        spelled("f11"@, seq!['f', '1', '1']),
        spelled("f12"@, seq!['f', '1', '2']),
        spelled("space"@, seq!['s', 'p', 'a', 'c', 'e']),
        spelled("tab"@, seq!['t', 'a', 'b']),
        spelled("escape"@, seq!['e', 's', 'c', 'a', 'p', 'e']),
        spelled("esc"@, seq!['e', 's', 'c']),
        spelled("alt"@, seq!['a', 'l', 't']),
        spelled("ctrl"@, seq!['c', 't', 'r', 'l']),
        spelled("control"@, seq!['c', 'o', 'n', 't', 'r', 'o', 'l']),
        spelled("cmd"@, seq!['c', 'm', 'd']),
        spelled("meta"@, seq!['m', 'e', 't', 'a']),
        spelled("super"@, seq!['s', 'u', 'p', 'e', 'r']),
        spelled("shift"@, seq!['s', 'h', 'i', 'f', 't']),
{
    reveal_strlit("a");
    reveal_strlit("b");
    reveal_strlit("c");
    reveal_strlit("d");
    reveal_strlit("e");
    reveal_strlit("f");
    reveal_strlit("g");
    reveal_strlit("h");
    reveal_strlit("i");
    reveal_strlit("j");
    reveal_strlit("k");
    reveal_strlit("l");
    reveal_strlit("m");
    reveal_strlit("n");
    reveal_strlit("o");
    reveal_strlit("p");
    reveal_strlit("q");
    reveal_strlit("r");
    reveal_strlit("s");
    reveal_strlit("t");
    reveal_strlit("u");
    reveal_strlit("v");
    reveal_strlit("w");
    reveal_strlit("x");
    reveal_strlit("y");
    reveal_strlit("z");
    reveal_strlit("0");
    reveal_strlit("1");
    reveal_strlit("2");
    reveal_strlit("3");
    reveal_strlit("4");
    reveal_strlit("5");
    reveal_strlit("6");
    reveal_strlit("7");
    reveal_strlit("8");
    reveal_strlit("9");
    reveal_strlit("f1");
    reveal_strlit("f2");
    reveal_strlit("f3");
    reveal_strlit("f4");
    reveal_strlit("f5");
    reveal_strlit("f6");
    reveal_strlit("f7");
    reveal_strlit("f8");
    reveal_strlit("f9");
    reveal_strlit("f10");
    reveal_strlit("f11");
    reveal_strlit("f12");
    reveal_strlit("space");
    reveal_strlit("tab");
    reveal_strlit("escape");
    reveal_strlit("esc");
    reveal_strlit("alt");
    reveal_strlit("ctrl");
    reveal_strlit("control");
    reveal_strlit("cmd");
    reveal_strlit("meta");
    reveal_strlit("super");
    reveal_strlit("shift");
}

/// Every key is found again by its label: looking a key's label up gives
/// that key, so no two keys share a label.
pub proof fn lemma_symbol_of_own_label(symbol: KeySymbol)
    ensures
        symbol_of_label(label_of_symbol(symbol)) == Some(symbol),
{
    lemma_spellings();
}

/// Different keys have different labels.
pub proof fn lemma_labels_are_distinct(a: KeySymbol, b: KeySymbol)
    requires
        a != b,
    ensures
        label_of_symbol(a) != label_of_symbol(b),
{
    lemma_symbol_of_own_label(a);
    lemma_symbol_of_own_label(b);
}

/// A label that names a key, and is no alias, is the label of that key:
/// going from the label to the key and back gives the label again.
pub proof fn lemma_label_round_trip(label: Seq<char>)
    requires
        symbol_of_label(label) is Some,
        !is_alias(label),
    ensures
        label_of_symbol(symbol_of_label(label)->0) == label,
{
    lemma_spellings();
}

/// The normal form of a label is in normal form itself.
pub proof fn lemma_normal_form_is_stable(label: Seq<char>)
    ensures
        normal_form(normal_form(label)) == normal_form(label),
{
    if let Some(symbol) = symbol_of_label(label) {
        lemma_symbol_of_own_label(symbol);
    }
}

/// The keys that the aliases name.
pub proof fn lemma_alias_symbols()
    ensures
        symbol_of_label("esc"@) == Some(KeySymbol::Escape),
        symbol_of_label("ctrl"@) == Some(KeySymbol::Control),
        symbol_of_label("cmd"@) == Some(KeySymbol::Super),
        symbol_of_label("meta"@) == Some(KeySymbol::Super),
{
    lemma_spellings();
}

/// The labels that name a key are the labels of the keys and the four
/// aliases; every other word is unsupported.
pub proof fn lemma_supported_labels(label: Seq<char>)
    ensures
        symbol_of_label(label) is Some <==> is_key_label(label) || is_alias(label),
{
    lemma_spellings();
    if symbol_of_label(label) is Some {
        if !is_alias(label) {
            lemma_label_round_trip(label);
        }
    }
    if is_key_label(label) {
        let symbol = choose|symbol: KeySymbol| label == label_of_symbol(symbol);
        lemma_symbol_of_own_label(symbol);
    }
}

/// A label that names a key has between one and seven characters.
pub proof fn lemma_label_length(label: Seq<char>)
    ensures
        symbol_of_label(label) is Some ==> 1 <= label.len() <= 7,
{
    lemma_spellings();
}

/// Every modifier is found again from its key, and the key of a modifier
/// is a modifier key.
pub proof fn lemma_modifier_of_own_symbol(modifier: Modifier)
    ensures
        modifier_of_symbol(symbol_of_modifier(modifier)) == Some(modifier),
{
}

} // verus!
