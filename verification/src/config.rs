//! The configuration: the leader key and the bindings, as a configuration
//! file holds them, and what it takes for them to be usable.

use vstd::prelude::*;
use vstd::string::*;

use crate::bindings::bindings_view;
use crate::bindings::first_of_each_label;
use crate::bindings::normalized;
use crate::bindings::Binding;
use crate::bindings::BindingTable;
use crate::bindings::BindingView;
use crate::keys::label_to_modifier;
use crate::keys::modifier_of_label;
use crate::keys::Modifier;
use crate::text::lowercase_of;

verus! {

/// Why a configuration is refused.
#[derive(Clone, Copy, Debug, PartialEq, Eq, Structural)]
pub enum ConfigError {
    /// The configuration binds no key.
    EmptyBindings,
    /// The leader key names no modifier.
    InvalidLeaderKey,
}

/// A configuration as read: the leader key by its label, and the
/// bindings by the labels of their keys.
#[derive(Debug, PartialEq, Eq)]
pub struct Config {
    pub leader_key: String,
    pub bindings: Vec<(String, Binding)>,
}

/// The bindings of the default configuration.
pub open spec fn default_bindings() -> Seq<(Seq<char>, BindingView)> {
    seq![
        (
            "b"@,
            BindingView {
                name: "Brave Browser"@,
                command: "open"@,
                args: seq!["-a"@, "Brave Browser"@],
            },
        ),
        (
            "t"@,
            BindingView { name: "Alacritty"@, command: "open"@, args: seq!["-a"@, "Alacritty"@] },
        ),
        (
            "d"@,
            BindingView {
                name: "DB Browser for SQLite"@,
                command: "open"@,
                args: seq!["-a"@, "DB Browser for SQLite"@],
            },
        ),
    ]
}

/// A binding that opens an application by name.
fn open_application(name: &str) -> (r: Binding)
    ensures
        r@ == (BindingView { name: name@, command: "open"@, args: seq!["-a"@, name@] }),
{
    let args: Vec<String> = vec![String::from_str("-a"), String::from_str(name)];
    let binding = Binding {
        name: String::from_str(name),
        command: String::from_str("open"),
        args,
    };
    assert(binding@.args =~= seq!["-a"@, name@]);
    binding
}

impl Default for Config {
    /// The configuration to start from where there is none: `alt` leads,
    /// and `b`, `t` and `d` open a browser, a terminal and a database
    /// browser.
    fn default() -> (r: Config)
        ensures
            r.leader_key@ == "alt"@,
            bindings_view(r.bindings@) == default_bindings(),
    {
        let bindings: Vec<(String, Binding)> = vec![
            (String::from_str("b"), open_application("Brave Browser")),
            (String::from_str("t"), open_application("Alacritty")),
            (String::from_str("d"), open_application("DB Browser for SQLite")),
        ];
        assert(bindings_view(bindings@) =~= default_bindings());
        Config { leader_key: String::from_str("alt"), bindings }
    }
}

/// What is wrong with a configuration, if anything: it must bind at
/// least one key, and its leader key must name a modifier.
pub open spec fn config_error(leader_key: Seq<char>, bindings: nat) -> Option<ConfigError> {
    if bindings == 0 {
        Some(ConfigError::EmptyBindings)
    } else if modifier_of_label(lowercase_of(leader_key)) is None {
        Some(ConfigError::InvalidLeaderKey)
    } else {
        None
    }
}

impl Config {
    /// Checks the configuration and gives the leader and the binding
    /// table to run with.
    pub fn validate(&self) -> (r: Result<(Modifier, BindingTable), ConfigError>)
        ensures
            match r {
                Ok((leader, table)) => {
                    &&& config_error(self.leader_key@, self.bindings@.len()) is None
                    &&& modifier_of_label(lowercase_of(self.leader_key@)) == Some(leader)
                    &&& table@ == first_of_each_label(normalized(bindings_view(self.bindings@)))
                },
                Err(e) => config_error(self.leader_key@, self.bindings@.len()) == Some(e),
            },
    {
        let table = match BindingTable::build(self.bindings.as_slice()) {
            Ok(table) => table,
            Err(e) => {
                return Err(e);
            },
        };
        match label_to_modifier(self.leader_key.as_str()) {
            Some(leader) => Ok((leader, table)),
            None => Err(ConfigError::InvalidLeaderKey),
        }
    }
}

} // verus!
