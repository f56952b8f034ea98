use cfddns::address::AddressPair;
use cfddns::config::History;
use cfddns::gate::{change_gate, ipv4_change, ipv6_prefix_change, Change, Changes};

const OLD_V4: u32 = 0x0102_0304;
const NEW_V4: u32 = 0x0909_0909;
const OLD_V6: u128 = 0x2001_0db8_0000_0001_0000_0000_0000_0000;
const NEW_V6: u128 = 0x2001_0db8_0000_0002_0000_0000_0000_0000;

#[test]
fn disabled_family_passes_nothing() {
    assert_eq!(ipv4_change(None, None), Change::Disabled);
    assert_eq!(ipv4_change(None, Some(OLD_V4)), Change::Disabled);
    assert_eq!(ipv4_change(None, Some(OLD_V4)).applied(), None);
    assert_eq!(ipv6_prefix_change(None, Some(OLD_V6)), Change::Disabled);
}

#[test]
fn first_observation_passes() {
    assert_eq!(ipv4_change(Some(NEW_V4), None), Change::Unknown { now: NEW_V4 });
    assert_eq!(ipv4_change(Some(NEW_V4), None).applied(), Some(NEW_V4));
    assert_eq!(ipv6_prefix_change(Some(NEW_V6), None), Change::Unknown { now: NEW_V6 });
    assert_eq!(ipv6_prefix_change(Some(NEW_V6), None).applied(), Some(NEW_V6));
}

#[test]
fn unchanged_address_passes_nothing() {
    assert_eq!(ipv4_change(Some(OLD_V4), Some(OLD_V4)), Change::Unchanged);
    assert_eq!(ipv4_change(Some(OLD_V4), Some(OLD_V4)).applied(), None);
    assert_eq!(ipv6_prefix_change(Some(OLD_V6), Some(OLD_V6)), Change::Unchanged);
    assert_eq!(ipv6_prefix_change(Some(OLD_V6), Some(OLD_V6)).applied(), None);
}

#[test]
fn changed_address_passes() {
    assert_eq!(
        ipv4_change(Some(NEW_V4), Some(OLD_V4)),
        Change::Changed { from: OLD_V4, to: NEW_V4 }
    );
    assert_eq!(ipv4_change(Some(NEW_V4), Some(OLD_V4)).applied(), Some(NEW_V4));
    assert_eq!(
        ipv6_prefix_change(Some(NEW_V6), Some(OLD_V6)),
        Change::Changed { from: OLD_V6, to: NEW_V6 }
    );
    assert_eq!(ipv6_prefix_change(Some(NEW_V6), Some(OLD_V6)).applied(), Some(NEW_V6));
}

#[test]
fn zero_address_is_an_address() {
    assert_eq!(ipv4_change(Some(0), None), Change::Unknown { now: 0 });
    assert_eq!(ipv4_change(Some(0), Some(0)), Change::Unchanged);
    assert_eq!(ipv6_prefix_change(Some(0), Some(0)), Change::Unchanged);
}

#[test]
fn gate_works_field_by_field() {
    let observed = AddressPair { ipv4: Some(NEW_V4), ipv6_prefix: Some(OLD_V6) };
    let history = History { ipv4: Some(OLD_V4), ipv6_prefix: Some(OLD_V6) };
    let changes = change_gate(observed, history);
    assert_eq!(
        changes,
        Changes {
            ipv4: Change::Changed { from: OLD_V4, to: NEW_V4 },
            ipv6_prefix: Change::Unchanged,
        }
    );
    assert_eq!(changes.applied(), AddressPair { ipv4: Some(NEW_V4), ipv6_prefix: None });
}

#[test]
fn gate_against_identical_history_passes_nothing() {
    let pairs = vec![
        AddressPair { ipv4: None, ipv6_prefix: None },
        AddressPair { ipv4: Some(OLD_V4), ipv6_prefix: None },
        AddressPair { ipv4: None, ipv6_prefix: Some(OLD_V6) },
        AddressPair { ipv4: Some(NEW_V4), ipv6_prefix: Some(NEW_V6) },
        AddressPair { ipv4: Some(0), ipv6_prefix: Some(0) },
    ];
    for pair in pairs {
        let history = History { ipv4: pair.ipv4, ipv6_prefix: pair.ipv6_prefix };
        let changes = change_gate(pair, history);
        assert!(changes.applied().is_empty());
        assert_eq!(changes.applied(), AddressPair { ipv4: None, ipv6_prefix: None });
    }
}

#[test]
fn gate_settles_after_remembering() {
    let observed = AddressPair { ipv4: Some(NEW_V4), ipv6_prefix: Some(NEW_V6) };
    let first = change_gate(observed, History::default()).applied();
    assert_eq!(first, observed);
    let second = change_gate(observed, History::remember(first)).applied();
    assert!(second.is_empty());
}

#[test]
fn default_history_remembers_nothing() {
    assert_eq!(History::default(), History { ipv4: None, ipv6_prefix: None });
}

#[test]
fn remember_copies_both_fields() {
    let pair = AddressPair { ipv4: Some(NEW_V4), ipv6_prefix: None };
    assert_eq!(History::remember(pair), History { ipv4: Some(NEW_V4), ipv6_prefix: None });
    let unspecified = AddressPair { ipv4: Some(0), ipv6_prefix: Some(0) };
    assert_eq!(
        History::remember(unspecified),
        History { ipv4: Some(0), ipv6_prefix: Some(0) }
    );
}
