//! Hotkey registration: the requests to hand to the operating system, one
//! for each bound key, and the map from the hotkeys it accepted to their
//! bindings.

use std::collections::HashMap;

use global_hotkey::hotkey::HotKey;
use vstd::prelude::*;
use vstd::string::*;

use crate::bindings::Binding;
use crate::bindings::BindingView;
use crate::chord::Decision;
use crate::chord::DecisionView;
use crate::chord::Phase;
use crate::keys::label_of_symbol;
use crate::keys::label_to_symbol;
use crate::keys::modifier_of_symbol;
use crate::keys::modifier_symbol;
use crate::keys::symbol_modifier;
use crate::keys::symbol_of_label;
use crate::keys::symbol_of_modifier;
use crate::keys::symbol_to_label;
use crate::keys::KeySymbol;
use crate::keys::Modifier;
use crate::text::lowercase_of;

verus! {

broadcast use vstd::std_specs::hash::group_hash_axioms;

/// The text of the chord of a leader and a key: the leader's label, a
/// plus sign, the key's label, as in `alt+b`.
pub open spec fn chord_text(leader: Modifier, key: KeySymbol) -> Seq<char> {
    label_of_symbol(symbol_of_modifier(leader)) + "+"@ + label_of_symbol(key)
}

/// Whether a text is the chord of a leader and a key that is no
/// modifier itself.
pub open spec fn is_key_chord(text: Seq<char>) -> bool {
    exists|leader: Modifier, key: KeySymbol|
        modifier_of_symbol(key) is None && text == #[trigger] chord_text(leader, key)
}

/// The identifier of the hotkey that `global_hotkey` reads from a chord
/// text, if it reads one.
pub uninterp spec fn hotkey_id_of(chord: Seq<char>) -> Option<u32>;

/// Parses `chord` with `HotKey::from_str` of `global_hotkey` and returns
/// the identifier of the hotkey, `None` where the parser refuses the text.
///
/// The parser splits the text at plus signs and reads each part without
/// regard to case: `alt`, `control`, `super` and `shift` are among its
/// modifier names, and the letters, the digits, `f1` to `f12`, `space`,
/// `tab` and `escape` among its key names. So it accepts the chord of a
/// leader and a key that is no modifier, which is all it is asked for
/// here, and builds the hotkey with `HotKey::new`. That derives the
/// identifier from the modifiers and the key alone, by hashing the
/// hotkey's text with a hasher of fixed keys; the contract gives the
/// result a name.
#[verifier::external_body]
fn hotkey_id(chord: &str) -> (r: Option<u32>)
    requires
        is_key_chord(chord@),
    ensures
        r == hotkey_id_of(chord@),
        r is Some,
{
    match chord.parse::<HotKey>() {
        Ok(hotkey) => Some(hotkey.id()),
        Err(_) => None,
    }
}

/// The text of the chord of a leader and a key.
pub fn chord(leader: Modifier, key: KeySymbol) -> (r: String)
    ensures
        r@ == chord_text(leader, key),
{
    let mut text = String::from_str(symbol_to_label(modifier_symbol(leader)));
    text.append("+");
    text.append(symbol_to_label(key));
    text
}

/// A hotkey to ask the operating system for.
#[derive(Debug, PartialEq, Eq)]
pub struct HotkeyRequest {
    /// The chord as text, such as `alt+b`.
    pub chord: String,
    /// The identifier under which the hotkey will report.
    pub id: u32,
}

/// A hotkey request as plain values.
pub struct HotkeyRequestView {
    pub chord: Seq<char>,
    pub id: u32,
}

impl View for HotkeyRequest {
    type V = HotkeyRequestView;

    open spec fn view(&self) -> HotkeyRequestView {
        HotkeyRequestView { chord: self.chord@, id: self.id }
    }
}

impl Clone for HotkeyRequest {
    fn clone(&self) -> (r: HotkeyRequest)
        ensures
            r@ == self@,
    {
        HotkeyRequest { chord: self.chord.clone(), id: self.id }
    }
}

/// Why a binding got no hotkey.
#[derive(Clone, Copy, Debug, PartialEq, Eq, Structural)]
pub enum SkipReason {
    /// The label names no key that a hotkey can be made of.
    UnsupportedKey,
    /// The operating system refused the hotkey, as when another program
    /// holds it.
    Rejected,
    /// Another binding is registered under the same identifier already.
    DuplicateHotkey,
}

/// The request for a key, given the text of its chord and what the
/// hotkey parser made of it. A modifier is no key to make a hotkey of,
/// and neither is a key that the parser does not know.
pub open spec fn request_of(key: KeySymbol, chord: Seq<char>, parsed: Option<u32>) -> Result<
    HotkeyRequestView,
    SkipReason,
> {
    if modifier_of_symbol(key) is Some {
        Err(SkipReason::UnsupportedKey)
    } else {
        match parsed {
            Some(id) => Ok(HotkeyRequestView { chord, id }),
            None => Err(SkipReason::UnsupportedKey),
        }
    }
}

/// The request for the chord of a leader and a key.
pub open spec fn request_of_key(leader: Modifier, key: KeySymbol) -> Result<
    HotkeyRequestView,
    SkipReason,
> {
    request_of(key, chord_text(leader, key), hotkey_id_of(chord_text(leader, key)))
}

/// The request for the binding of a label that is lowercase already.
pub open spec fn request_of_label(leader: Modifier, label: Seq<char>) -> Result<
    HotkeyRequestView,
    SkipReason,
> {
    match symbol_of_label(label) {
        Some(key) => request_of_key(leader, key),
        None => Err(SkipReason::UnsupportedKey),
    }
}

/// Whether a lowercase label names a key that a hotkey can be made of:
/// any key but a modifier.
pub open spec fn names_hotkey_key(label: Seq<char>) -> bool {
    symbol_of_label(label) matches Some(key) && modifier_of_symbol(key) is None
}

/// A request as plain values, or the reason why there is none.
pub open spec fn request_view(r: Result<HotkeyRequest, SkipReason>) -> Result<
    HotkeyRequestView,
    SkipReason,
> {
    match r {
        Ok(request) => Ok(request@),
        Err(reason) => Err(reason),
    }
}

/// The request for a key, from the text of its chord and what the hotkey
/// parser made of that text.
pub fn request_from_parse(key: KeySymbol, chord: String, parsed: Option<u32>) -> (r: Result<
    HotkeyRequest,
    SkipReason,
>)
    ensures
        request_view(r) == request_of(key, chord@, parsed),
{
    if symbol_modifier(key).is_some() {
        return Err(SkipReason::UnsupportedKey);
    }
    match parsed {
        Some(id) => Ok(HotkeyRequest { chord, id }),
        None => Err(SkipReason::UnsupportedKey),
    }
}

/// The request for the chord of a leader and a key. There is one for
/// every key but the modifiers.
pub fn request_for_key(leader: Modifier, key: KeySymbol) -> (r: Result<HotkeyRequest, SkipReason>)
    ensures
        request_view(r) == request_of_key(leader, key),
        r is Ok <==> modifier_of_symbol(key) is None,
{
    if symbol_modifier(key).is_some() {
        return Err(SkipReason::UnsupportedKey);
    }
    let text = chord(leader, key);
    let parsed = hotkey_id(text.as_str());
    request_from_parse(key, text, parsed)
}

/// The request for the binding of a label, read without regard to case.
/// There is one for every label that names a key other than a modifier;
/// any other label is skipped as unsupported.
pub fn hotkey_request(leader: Modifier, label: &str) -> (r: Result<HotkeyRequest, SkipReason>)
    ensures
        request_view(r) == request_of_label(leader, lowercase_of(label@)),
        r is Ok <==> names_hotkey_key(lowercase_of(label@)),
{
    match label_to_symbol(label) {
        Some(key) => request_for_key(leader, key),
        None => Err(SkipReason::UnsupportedKey),
    }
}

/// Why the launcher does not start.
#[derive(Clone, Copy, Debug, PartialEq, Eq, Structural)]
pub enum StartupError {
    /// Not one binding got its hotkey.
    NoBindingsRegistered,
}

/// The registered hotkeys after one more attempt: an accepted hotkey is
/// added under its identifier unless that identifier is taken; nothing
/// changes otherwise.
pub open spec fn recorded(
    registered: Map<u32, (Seq<char>, BindingView)>,
    id: u32,
    entry: (Seq<char>, BindingView),
    accepted: bool,
) -> Map<u32, (Seq<char>, BindingView)> {
    if accepted && !registered.contains_key(id) {
        registered.insert(id, entry)
    } else {
        registered
    }
}

/// What is reported of one attempt.
pub open spec fn attempt_result(
    registered: Map<u32, (Seq<char>, BindingView)>,
    id: u32,
    accepted: bool,
) -> Result<(), SkipReason> {
    if !accepted {
        Err(SkipReason::Rejected)
    } else if registered.contains_key(id) {
        Err(SkipReason::DuplicateHotkey)
    } else {
        Ok(())
    }
}

/// The decision on a hotkey event that the operating system reports. The
/// operating system has matched leader and key itself, so a registered
/// hotkey going down is a chord that fired. Its coming up is reported by
/// some systems too and decides nothing, and neither does an identifier
/// that is not registered.
pub open spec fn hotkey_decision(
    registered: Map<u32, (Seq<char>, BindingView)>,
    id: u32,
    phase: Phase,
) -> DecisionView {
    if phase == Phase::Pressed && registered.contains_key(id) {
        DecisionView::Fire(registered[id].0)
    } else {
        DecisionView::NoOp
    }
}

/// Whether the launcher starts: it does with at least one registered
/// hotkey, and then reports how many there are.
pub open spec fn startup_of(registered: Map<u32, (Seq<char>, BindingView)>) -> Result<
    nat,
    StartupError,
> {
    if registered.len() == 0 {
        Err(StartupError::NoBindingsRegistered)
    } else {
        Ok(registered.len())
    }
}

/// The hotkeys that the operating system accepted, each with the label
/// and the binding it stands for.
pub struct RegistrationMap {
    hotkeys: HashMap<u32, (String, Binding)>,
}

impl View for RegistrationMap {
    type V = Map<u32, (Seq<char>, BindingView)>;

    closed spec fn view(&self) -> Map<u32, (Seq<char>, BindingView)> {
        self.hotkeys@.map_values(|e: (String, Binding)| (e.0@, e.1@))
    }
}

impl RegistrationMap {
    /// A map without hotkeys.
    pub fn new() -> (r: RegistrationMap)
        ensures
            r@ == Map::<u32, (Seq<char>, BindingView)>::empty(),
    {
        let r = RegistrationMap { hotkeys: HashMap::new() };
        assert(r@ =~= Map::<u32, (Seq<char>, BindingView)>::empty());
        r
    }

    /// The number of registered hotkeys.
    pub fn len(&self) -> (r: usize)
        ensures
            r == self@.len(),
            self@.dom().finite(),
    {
        assert(self@.dom() =~= self.hotkeys@.dom());
        self.hotkeys.len()
    }

    /// Records the attempt to register the hotkey of a binding: whether
    /// the operating system accepted it, and under which identifier. An
    /// accepted hotkey is kept with its label and binding, unless another
    /// is kept under the same identifier: that one stays.
    pub fn record(&mut self, id: u32, label: &str, binding: &Binding, accepted: bool) -> (r: Result<
        (),
        SkipReason,
    >)
        ensures
            final(self)@ == recorded(old(self)@, id, (label@, binding@), accepted),
            r == attempt_result(old(self)@, id, accepted),
    {
        if !accepted {
            return Err(SkipReason::Rejected);
        }
        if self.hotkeys.contains_key(&id) {
            return Err(SkipReason::DuplicateHotkey);
        }
        self.hotkeys.insert(id, (String::from_str(label), binding.clone()));
        assert(self@ =~= old(self)@.insert(id, (label@, binding@)));
        Ok(())
    }

    /// The label and the binding registered under an identifier.
    pub fn get(&self, id: u32) -> (r: Option<&(String, Binding)>)
        ensures
            match r {
                Some(entry) => self@.contains_key(id) && self@[id] == (entry.0@, entry.1@),
                None => !self@.contains_key(id),
            },
    {
        self.hotkeys.get(&id)
    }

    /// The decision on a hotkey event that the operating system reports.
    pub fn on_hotkey(&self, id: u32, phase: Phase) -> (r: Decision)
        ensures
            r@ == hotkey_decision(self@, id, phase),
    {
        match phase {
            Phase::Pressed => match self.get(id) {
                Some(entry) => Decision::Fire(entry.0.clone()),
                None => Decision::NoOp,
            },
            Phase::Released => Decision::NoOp,
        }
    }

    /// Decides at the end of registration whether the launcher starts.
    pub fn startup(&self) -> (r: Result<usize, StartupError>)
        ensures
            match r {
                Ok(count) => startup_of(self@) == Ok::<nat, StartupError>(count as nat),
                Err(e) => startup_of(self@) == Err::<nat, StartupError>(e),
            },
    {
        let count: usize = self.len();
        if count == 0 {
            Err(StartupError::NoBindingsRegistered)
        } else {
            Ok(count)
        }
    }
}

/// One attempt to register a hotkey, as `record` takes it.
pub struct Attempt {
    pub id: u32,
    pub entry: (Seq<char>, BindingView),
    pub accepted: bool,
}

/// The registered hotkeys after a sequence of attempts, starting from
/// none.
pub open spec fn replay(attempts: Seq<Attempt>) -> Map<u32, (Seq<char>, BindingView)>
    decreases attempts.len(),
{
    if attempts.len() == 0 {
        Map::empty()
    } else {
        let last = attempts.last();
        recorded(replay(attempts.drop_last()), last.id, last.entry, last.accepted)
    }
}

/// The launcher starts exactly if some attempt was accepted: where every
/// hotkey was refused, or no label gave a request in the first place,
/// startup fails; one accepted hotkey is enough for it to go on.
pub proof fn lemma_startup_needs_one_success(attempts: Seq<Attempt>)
    ensures
        replay(attempts).dom().finite(),
        replay(attempts).len() <= attempts.len(),
        startup_of(replay(attempts)) is Ok <==> exists|i: int|
            0 <= i < attempts.len() && (#[trigger] attempts[i]).accepted,
    decreases attempts.len(),
{
    if attempts.len() > 0 {
        let front = attempts.drop_last();
        let last = attempts.last();
        lemma_startup_needs_one_success(front);
        if exists|i: int| 0 <= i < front.len() && (#[trigger] front[i]).accepted {
            let i = choose|i: int| 0 <= i < front.len() && (#[trigger] front[i]).accepted;
            assert(attempts[i].accepted);
        }
        if exists|i: int| 0 <= i < attempts.len() && (#[trigger] attempts[i]).accepted {
            let i = choose|i: int| 0 <= i < attempts.len() && (#[trigger] attempts[i]).accepted;
            if i < front.len() {
                assert(front[i].accepted);
            }
        }
        if last.accepted {
            assert(attempts[attempts.len() - 1].accepted);
            assert(replay(attempts).contains_key(last.id));
        }
    }
}

/// A registered hotkey is never overwritten: whatever is recorded
/// afterwards, under its identifier or another, it keeps its label and
/// its binding.
pub proof fn lemma_record_never_overwrites(
    registered: Map<u32, (Seq<char>, BindingView)>,
    id: u32,
    entry: (Seq<char>, BindingView),
    accepted: bool,
    earlier: u32,
)
    requires
        registered.contains_key(earlier),
    ensures
        recorded(registered, id, entry, accepted).contains_key(earlier),
        recorded(registered, id, entry, accepted)[earlier] == registered[earlier],
{
}

} // verus!
