//! Bindings and the binding table.

use vstd::prelude::*;
use vstd::string::*;

use crate::config::ConfigError;
use crate::keys::label_of_symbol;
use crate::keys::lemma_normal_form_is_stable;
use crate::keys::normal_form;
use crate::keys::normalize_label;
use crate::keys::symbol_of_label;
use crate::keys::KeySymbol;
use crate::text::lowercase_of;
use crate::text::str_eq;

verus! {

/// What a key is bound to: a command to start, with its arguments, under
/// a name for display.
#[derive(Debug, PartialEq, Eq)]
pub struct Binding {
    pub name: String,
    pub command: String,
    pub args: Vec<String>,
}

/// A binding as plain text.
pub struct BindingView {
    pub name: Seq<char>,
    pub command: Seq<char>,
    pub args: Seq<Seq<char>>,
}

impl View for Binding {
    type V = BindingView;

    open spec fn view(&self) -> BindingView {
        BindingView { name: self.name@, command: self.command@, args: self.args.deep_view() }
    }
}

/// A copy of a list of strings.
fn clone_strings(items: &Vec<String>) -> (r: Vec<String>)
    ensures
        r.deep_view() == items.deep_view(),
{
    let mut copy: Vec<String> = Vec::new();
    let mut i: usize = 0;
    while i < items.len()
        invariant
            i <= items.len(),
            copy.len() == i,
            forall|j: int| 0 <= j < i ==> copy@[j]@ == items@[j]@,
        decreases items.len() - i,
    {
        copy.push(items[i].clone());
        i += 1;
    }
    assert(copy.deep_view() =~= items.deep_view());
    copy
}

impl Clone for Binding {
    fn clone(&self) -> (r: Binding)
        ensures
            r@ == self@,
    {
        Binding {
            name: self.name.clone(),
            command: self.command.clone(),
            args: clone_strings(&self.args),
        }
    }
}

/// Labelled bindings as plain text, in order.
pub open spec fn bindings_view(entries: Seq<(String, Binding)>) -> Seq<(Seq<char>, BindingView)> {
    entries.map_values(|e: (String, Binding)| (e.0@, e.1@))
}

/// Whether some entry has this label.
pub open spec fn has_label(entries: Seq<(Seq<char>, BindingView)>, label: Seq<char>) -> bool {
    exists|i: int| 0 <= i < entries.len() && (#[trigger] entries[i]).0 == label
}

/// Whether no two entries share a label.
pub open spec fn distinct_labels(entries: Seq<(Seq<char>, BindingView)>) -> bool {
    forall|i: int, j: int|
        0 <= i < j < entries.len() ==> (#[trigger] entries[i]).0 != (#[trigger] entries[j]).0
}

/// Whether every label is in normal form, so that a key is found under
/// its own label however the configuration wrote it.
pub open spec fn normal_labels(entries: Seq<(Seq<char>, BindingView)>) -> bool {
    forall|i: int| 0 <= i < entries.len() ==> normal_form((#[trigger] entries[i]).0) == entries[i].0
}

/// The binding of the first entry with this label.
pub open spec fn binding_of(
    entries: Seq<(Seq<char>, BindingView)>,
    label: Seq<char>,
) -> Option<BindingView>
    decreases entries.len(),
{
    if entries.len() == 0 {
        None
    } else if entries[0].0 == label {
        Some(entries[0].1)
    } else {
        binding_of(entries.drop_first(), label)
    }
}

/// The entries with each label brought to its normal form.
pub open spec fn normalized(entries: Seq<(Seq<char>, BindingView)>) -> Seq<
    (Seq<char>, BindingView),
> {
    entries.map_values(|e: (Seq<char>, BindingView)| (normal_form(lowercase_of(e.0)), e.1))
}

/// The entries without those whose label an earlier entry already has.
pub open spec fn first_of_each_label(entries: Seq<(Seq<char>, BindingView)>) -> Seq<
    (Seq<char>, BindingView),
>
    decreases entries.len(),
{
    if entries.len() == 0 {
        entries
    } else {
        let earlier = first_of_each_label(entries.drop_last());
        if has_label(earlier, entries.last().0) {
            earlier
        } else {
            earlier.push(entries.last())
        }
    }
}

/// The bindings of a configuration by key label. Labels are in normal
/// form and no two entries share one; the table is never empty and does
/// not change once built.
pub struct BindingTable {
    entries: Vec<(String, Binding)>,
}

impl View for BindingTable {
    type V = Seq<(Seq<char>, BindingView)>;

    closed spec fn view(&self) -> Seq<(Seq<char>, BindingView)> {
        bindings_view(self.entries@)
    }
}

/// The position of the first entry with this label.
fn position_of(entries: &Vec<(String, Binding)>, label: &str) -> (r: Option<usize>)
    ensures
        match r {
            Some(i) => {
                &&& i < entries.len()
                &&& entries@[i as int].0@ == label@
                &&& forall|j: int| 0 <= j < i ==> entries@[j].0@ != label@
            },
            None => forall|j: int| 0 <= j < entries.len() ==> entries@[j].0@ != label@,
        },
{
    let mut i: usize = 0;
    while i < entries.len()
        invariant
            i <= entries.len(),
            forall|j: int| 0 <= j < i ==> entries@[j].0@ != label@,
        decreases entries.len() - i,
    {
        if str_eq(entries[i].0.as_str(), label) {
            return Some(i);
        }
        i += 1;
    }
    None
}

impl BindingTable {
    #[verifier::type_invariant]
    spec fn well_formed(self) -> bool {
        self@.len() > 0 && distinct_labels(self@) && normal_labels(self@)
    }

    /// Builds the table of a configuration. Each label is brought to its
    /// normal form; where two entries then have the same label, the first
    /// stands and the later one is left out. A configuration without
    /// bindings is refused.
    pub fn build(raw: &[(String, Binding)]) -> (r: Result<BindingTable, ConfigError>)
        ensures
            match r {
                Ok(table) => {
                    &&& raw@.len() > 0
                    &&& table@ == first_of_each_label(normalized(bindings_view(raw@)))
                    &&& table@.len() > 0
                    &&& distinct_labels(table@)
                    &&& normal_labels(table@)
                },
                Err(e) => raw@.len() == 0 && e == ConfigError::EmptyBindings,
            },
    {
        if raw.len() == 0 {
            return Err(ConfigError::EmptyBindings);
        }
        let ghost goal = normalized(bindings_view(raw@));
        let mut entries: Vec<(String, Binding)> = Vec::new();
        let mut i: usize = 0;
        while i < raw.len()
            invariant
                i <= raw.len(),
                goal == normalized(bindings_view(raw@)),
                bindings_view(entries@) == first_of_each_label(goal.take(i as int)),
                normal_labels(bindings_view(entries@)),
            decreases raw.len() - i,
        {
            let label = normalize_label(raw[i].0.as_str());
            proof {
                assert(goal.take(i + 1).drop_last() == goal.take(i as int));
                assert(goal.take(i + 1).last() == (label@, raw@[i as int].1@));
            }
            let ghost before = bindings_view(entries@);
            match position_of(&entries, label.as_str()) {
                Some(at) => {
                    assert(before[at as int].0 == label@);
                },
                None => {
                    proof {
                        lemma_normal_form_is_stable(lowercase_of(raw@[i as int].0@));
                    }
                    entries.push((label, raw[i].1.clone()));
                    assert(bindings_view(entries@) == before.push((label@, raw@[i as int].1@)));
                },
            }
            i += 1;
        }
        proof {
            assert(goal.take(raw.len() as int) == goal);
            lemma_first_of_each_label(goal);
        }
        Ok(BindingTable { entries })
    }

    /// The number of entries.
    pub fn len(&self) -> (r: usize)
        ensures
            r == self@.len(),
            r > 0,
    {
        proof {
            use_type_invariant(self);
        }
        self.entries.len()
    }

    /// The entries in the order of the configuration, each with its label
    /// in normal form.
    pub fn entries(&self) -> (r: &Vec<(String, Binding)>)
        ensures
            bindings_view(r@) == self@,
            r@.len() > 0,
            distinct_labels(self@),
            normal_labels(self@),
    {
        proof {
            use_type_invariant(self);
        }
        &self.entries
    }

    /// The binding of a label that is in normal form already, as the
    /// label of a key is.
    pub fn get(&self, label: &str) -> (r: Option<&Binding>)
        ensures
            match r {
                Some(binding) => binding_of(self@, label@) == Some(binding@),
                None => binding_of(self@, label@) is None,
            },
    {
        match position_of(&self.entries, label) {
            Some(i) => {
                proof {
                    lemma_binding_at(self@, label@, i as int);
                }
                Some(&self.entries[i].1)
            },
            None => {
                proof {
                    lemma_bound_labels(self@, label@);
                }
                None
            },
        }
    }

    /// Whether a label that is in normal form already is bound.
    pub fn contains(&self, label: &str) -> (r: bool)
        ensures
            r == has_label(self@, label@),
    {
        proof {
            lemma_bound_labels(self@, label@);
        }
        self.get(label).is_some()
    }

    /// The binding of a label, without regard to case and with an alias
    /// taken for the key it names.
    pub fn lookup(&self, label: &str) -> (r: Option<&Binding>)
        ensures
            match r {
                Some(binding) => binding_of(self@, normal_form(lowercase_of(label@))) == Some(
                    binding@,
                ),
                None => binding_of(self@, normal_form(lowercase_of(label@))) is None,
            },
    {
        let key = normalize_label(label);
        self.get(key.as_str())
    }
}

/// Where the first entry with a label stands, its binding is the binding
/// of the label.
pub proof fn lemma_binding_at(entries: Seq<(Seq<char>, BindingView)>, label: Seq<char>, i: int)
    requires
        0 <= i < entries.len(),
        entries[i].0 == label,
        forall|j: int| 0 <= j < i ==> (#[trigger] entries[j]).0 != label,
    ensures
        binding_of(entries, label) == Some(entries[i].1),
    decreases entries.len(),
{
    if i > 0 {
        let rest = entries.drop_first();
        assert(entries[0].0 != label);
        assert forall|j: int| 0 <= j < i - 1 implies (#[trigger] rest[j]).0 != label by {
            assert(rest[j] == entries[j + 1]);
        }
        lemma_binding_at(rest, label, i - 1);
    }
}

/// A label has a binding exactly where some entry has the label.
pub proof fn lemma_bound_labels(entries: Seq<(Seq<char>, BindingView)>, label: Seq<char>)
    ensures
        binding_of(entries, label) is Some <==> has_label(entries, label),
    decreases entries.len(),
{
    if entries.len() > 0 {
        let rest = entries.drop_first();
        lemma_bound_labels(rest, label);
        if entries[0].0 != label {
            if has_label(entries, label) {
                let i = choose|i: int| 0 <= i < entries.len() && (#[trigger] entries[i]).0 == label;
                assert(rest[i - 1] == entries[i]);
            }
            if has_label(rest, label) {
                let i = choose|i: int| 0 <= i < rest.len() && (#[trigger] rest[i]).0 == label;
                assert(entries[i + 1] == rest[i]);
            }
        }
    }
}

/// An entry added at the end binds its label only where no earlier entry
/// has that label.
pub proof fn lemma_binding_of_push(
    entries: Seq<(Seq<char>, BindingView)>,
    last: (Seq<char>, BindingView),
    label: Seq<char>,
)
    ensures
        binding_of(entries.push(last), label) == (if has_label(entries, label) {
            binding_of(entries, label)
        } else if last.0 == label {
            Some(last.1)
        } else {
            None
        }),
    decreases entries.len(),
{
    let longer = entries.push(last);
    if entries.len() == 0 {
        assert(longer[0] == last);
        assert(longer.drop_first().len() == 0);
        assert(binding_of(longer.drop_first(), label) is None);
    } else {
        let rest = entries.drop_first();
        assert(longer[0] == entries[0]);
        assert(longer.drop_first() == rest.push(last));
        if entries[0].0 == label {
            assert(binding_of(longer, label) == Some(entries[0].1));
            assert(binding_of(entries, label) == Some(entries[0].1));
        } else {
            lemma_binding_of_push(rest, last, label);
            lemma_bound_labels(entries, label);
            lemma_bound_labels(rest, label);
            assert(binding_of(longer, label) == binding_of(rest.push(last), label));
            assert(binding_of(entries, label) == binding_of(rest, label));
        }
    }
}

/// Leaving out the later entries of a label changes nothing for a lookup:
/// the entries that remain have distinct labels, the same labels occur,
/// and each label still has the binding of its first entry.
pub proof fn lemma_first_of_each_label(entries: Seq<(Seq<char>, BindingView)>)
    ensures
        distinct_labels(first_of_each_label(entries)),
        first_of_each_label(entries).len() <= entries.len(),
        entries.len() > 0 ==> first_of_each_label(entries).len() > 0,
        forall|label: Seq<char>|
            has_label(first_of_each_label(entries), label) == has_label(entries, label),
        forall|label: Seq<char>|
            binding_of(first_of_each_label(entries), label) == binding_of(entries, label),
    decreases entries.len(),
{
    if entries.len() > 0 {
        let front = entries.drop_last();
        let last = entries.last();
        let earlier = first_of_each_label(front);
        let kept = first_of_each_label(entries);
        lemma_first_of_each_label(front);
        assert(entries == front.push(last));
        assert forall|label: Seq<char>| has_label(kept, label) == has_label(entries, label) by {
            lemma_binding_of_push(front, last, label);
            lemma_binding_of_push(earlier, last, label);
            lemma_bound_labels(entries, label);
            lemma_bound_labels(kept, label);
            lemma_bound_labels(front, label);
            lemma_bound_labels(earlier, label);
        }
        assert forall|label: Seq<char>| binding_of(kept, label) == binding_of(
            entries,
            label,
        ) by {
            lemma_binding_of_push(front, last, label);
            lemma_binding_of_push(earlier, last, label);
            lemma_bound_labels(front, label);
            lemma_bound_labels(earlier, label);
        }
    }
}

/// However the configuration writes a key, in whatever case and by label
/// or by alias, the table has the key's own label: the key's binding is
/// found under it.
pub proof fn lemma_configured_key_is_bound(
    raw: Seq<(Seq<char>, BindingView)>,
    i: int,
    key: KeySymbol,
)
    requires
        0 <= i < raw.len(),
    ensures
        symbol_of_label(lowercase_of(raw[i].0)) == Some(key) ==> has_label(
            first_of_each_label(normalized(raw)),
            label_of_symbol(key),
        ),
{
    if symbol_of_label(lowercase_of(raw[i].0)) == Some(key) {
        let entries = normalized(raw);
        let label = label_of_symbol(key);
        assert(entries[i].0 == label);
        assert(has_label(entries, label));
        lemma_first_of_each_label(entries);
        assert(has_label(first_of_each_label(entries), label) == has_label(entries, label));
    }
}

} // verus!
