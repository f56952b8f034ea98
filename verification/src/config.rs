//! What the user configures: zones, their records, and the remembered addresses.

use vstd::prelude::*;
use crate::address::AddressPair;
use crate::views::views;

verus! {

/// One DNS record to keep up to date.
#[derive(Clone, Debug, PartialEq, Eq)]
pub struct RecordConfig {
    /// Fully qualified record name.
    pub name: String,
    /// Time to live handed on with every update.
    pub ttl: Option<u32>,
    /// Whether the provider proxies the record.
    pub proxied: Option<bool>,
    /// Host suffix for AAAA updates. Without one the record's AAAA is never touched.
    pub eui64: Option<u128>,
}

/// A [`RecordConfig`] with its name as a sequence of characters.
pub struct RecordConfigView {
    pub name: Seq<char>,
    pub ttl: Option<u32>,
    pub proxied: Option<bool>,
    pub eui64: Option<u128>,
}

impl View for RecordConfig {
    type V = RecordConfigView;

    open spec fn view(&self) -> RecordConfigView {
        RecordConfigView {
            name: self.name@,
            ttl: self.ttl,
            proxied: self.proxied,
            eui64: self.eui64,
        }
    }
}

/// One zone and the records to keep up to date in it.
#[derive(Clone, Debug, PartialEq, Eq)]
pub struct ZoneConfig {
    /// Zone name as the provider knows it.
    pub name: String,
    /// Records of this zone, in the order they are planned.
    pub records: Vec<RecordConfig>,
}

/// A [`ZoneConfig`] with its strings as sequences of characters.
pub struct ZoneConfigView {
    pub name: Seq<char>,
    pub records: Seq<RecordConfigView>,
}

impl View for ZoneConfig {
    type V = ZoneConfigView;

    open spec fn view(&self) -> ZoneConfigView {
        ZoneConfigView { name: self.name@, records: views(self.records@) }
    }
}

/// The addresses that were last published with full success.
#[derive(Clone, Copy, Debug, PartialEq, Eq)]
pub struct History {
    pub ipv4: Option<u32>,
    pub ipv6_prefix: Option<u128>,
}

impl History {
    /// The history that remembers exactly `pair`.
    pub open spec fn of(pair: AddressPair) -> History {
        History { ipv4: pair.ipv4, ipv6_prefix: pair.ipv6_prefix }
    }

    /// Remembers `pair`.
    pub fn remember(pair: AddressPair) -> (history: History)
        ensures
            history == History::of(pair),
    {
        History { ipv4: pair.ipv4, ipv6_prefix: pair.ipv6_prefix }
    }
}

impl Default for History {
    /// The history of a host that has published nothing yet.
    fn default() -> (history: History)
        ensures
            history.ipv4 is None,
            history.ipv6_prefix is None,
    {
        History { ipv4: None, ipv6_prefix: None }
    }
}

/// What became of the attempt to read the stored history.
#[derive(Clone, Copy, Debug, PartialEq, Eq)]
pub enum Stored {
    /// The store holds this history.
    Found(History),
    /// The store holds something that is no history.
    Unreadable,
    /// There is no store yet.
    Absent,
    /// The store could not be opened.
    Inaccessible,
}

/// Why no history could be restored.
#[derive(Clone, Copy, Debug, PartialEq, Eq)]
pub enum HistoryError {
    /// The store holds something that is no history.
    Unreadable,
    /// The store could not be opened.
    Inaccessible,
}

/// What to go on with once the store has been looked at.
#[derive(Clone, Copy, Debug, PartialEq, Eq)]
pub enum Restored {
    /// This history, as it was stored.
    Kept(History),
    /// This history, which is to be stored first: there was no store.
    Created(History),
    /// Nothing: the run cannot begin.
    Failed(HistoryError),
}

/// The history to begin with. A store that is absent is no failure: the host has
/// published nothing yet, and the store is created with a history that says so.
pub open spec fn restored(stored: Stored) -> Restored {
    match stored {
        Stored::Found(history) => Restored::Kept(history),
        Stored::Unreadable => Restored::Failed(HistoryError::Unreadable),
        Stored::Absent => Restored::Created(History { ipv4: None, ipv6_prefix: None }),
        Stored::Inaccessible => Restored::Failed(HistoryError::Inaccessible),
    }
}

/// Decides what history a run begins with.
pub fn restore_history(stored: Stored) -> (outcome: Restored)
    ensures
        outcome == restored(stored),
{
    match stored {
        Stored::Found(history) => Restored::Kept(history),
        Stored::Unreadable => Restored::Failed(HistoryError::Unreadable),
        Stored::Absent => Restored::Created(History::default()),
        Stored::Inaccessible => Restored::Failed(HistoryError::Inaccessible),
    }
}

/// What is found in the store is what the run begins with, unchanged; and where
/// there is no store, the run begins with the history that remembers nothing, which
/// is to be stored first.
pub proof fn lemma_restore_keeps_what_was_stored(history: History)
    ensures
        restored(Stored::Found(history)) == Restored::Kept(history),
        restored(Stored::Absent) == Restored::Created(History { ipv4: None, ipv6_prefix: None }),
{
}

/// Where the addresses come from, which zones are kept up to date, and what was
/// published last.
#[derive(Clone, Debug, PartialEq, Eq)]
pub struct Config {
    /// Network interface to read the IPv4 address off.
    pub a_interface: Option<String>,
    /// Address of a service that answers with the caller's IPv4 address.
    pub a_http: Option<String>,
    /// Network interface to read the IPv6 prefix off.
    pub aaaa_interface: Option<String>,
    /// Address of a service that answers with the caller's IPv6 address.
    pub aaaa_http: Option<String>,
    /// The zones to keep up to date.
    pub zones: Vec<ZoneConfig>,
    /// The addresses that were last published with full success.
    pub history: History,
}

/// The characters of an optional string.
pub open spec fn text_of(text: Option<String>) -> Option<Seq<char>> {
    match text {
        Some(text) => Some(text@),
        None => None,
    }
}

/// A [`Config`] with its strings as sequences of characters.
pub struct ConfigView {
    pub a_interface: Option<Seq<char>>,
    pub a_http: Option<Seq<char>>,
    pub aaaa_interface: Option<Seq<char>>,
    pub aaaa_http: Option<Seq<char>>,
    pub zones: Seq<ZoneConfigView>,
    pub history: History,
}

impl View for Config {
    type V = ConfigView;

    open spec fn view(&self) -> ConfigView {
        ConfigView {
            a_interface: text_of(self.a_interface),
            a_http: text_of(self.a_http),
            aaaa_interface: text_of(self.aaaa_interface),
            aaaa_http: text_of(self.aaaa_http),
            zones: views(self.zones@),
            history: self.history,
        }
    }
}

} // verus!
