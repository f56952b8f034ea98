use cfddns::address::AddressPair;
use cfddns::config::{Config, History, RecordConfig, ZoneConfig};
use cfddns::error::{RunError, ZoneError};
use cfddns::gate::{Change, Changes};
use cfddns::plan::{PlannedUpdate, RecordContent, ZonePlan};
use cfddns::records::{PageReport, RecordKind, RecordPage, RemoteRecord};
use cfddns::run::{
    address_source, advance_run, begin_run, count_failed_zones, AddressSource, Rest, RunAction,
    RunEvent, RunState,
};
use cfddns::zone::{
    begin_zone, update_zone, Direction, ZoneAction, ZoneEvent, ZoneStatus, ZoneSummary,
};

const V4_OLD: u32 = 0x0102_0304;
const V4_NEW: u32 = 0x0909_0909;

fn zone(name: &str, records: Vec<&str>) -> ZoneConfig {
    let mut configured: Vec<RecordConfig> = Vec::new();
    for record in records {
        configured.push(RecordConfig {
            name: record.to_string(),
            ttl: None,
            proxied: None,
            eui64: None,
        });
    }
    ZoneConfig { name: name.to_string(), records: configured }
}

fn config(zones: Vec<ZoneConfig>, history: History) -> Config {
    Config {
        a_interface: Some("wan0".to_string()),
        a_http: None,
        aaaa_interface: None,
        aaaa_http: None,
        zones,
        history,
    }
}

fn v4(address: u32) -> AddressPair {
    AddressPair { ipv4: Some(address), ipv6_prefix: None }
}

#[test]
fn interface_is_preferred_to_service() {
    let interface = Some("wan0".to_string());
    let http = Some("https://ip.example.org/".to_string());
    assert_eq!(address_source(&interface, &http), AddressSource::Interface("wan0".to_string()));
    assert_eq!(address_source(&interface, &None), AddressSource::Interface("wan0".to_string()));
    assert_eq!(
        address_source(&None, &http),
        AddressSource::Http("https://ip.example.org/".to_string())
    );
    assert_eq!(address_source(&None, &None), AddressSource::Disabled);
}

#[test]
fn failed_zones_are_counted() {
    assert_eq!(count_failed_zones(&Vec::new()), 0);
    assert_eq!(count_failed_zones(&vec![Ok(()), Ok(())]), 0);
    assert_eq!(
        count_failed_zones(&vec![
            Err(ZoneError::ZoneNotFound),
            Ok(()),
            Err(ZoneError::UpdatesFailed(7)),
        ]),
        2
    );
}

#[test]
fn run_without_zones_rests() {
    let step = begin_run(&config(Vec::new(), History::default()));
    assert_eq!(step, (RunState::Finished, RunAction::Stop(Rest::NoZones)));
}

#[test]
fn run_with_both_families_disabled_rests() {
    let mut settings = config(vec![zone("example.org", Vec::new())], History::default());
    settings.a_interface = None;
    assert_eq!(begin_run(&settings), (RunState::Finished, RunAction::Stop(Rest::Disabled)));
}

#[test]
fn run_discovers_at_the_configured_sources() {
    let mut settings = config(vec![zone("example.org", Vec::new())], History::default());
    settings.aaaa_http = Some("https://ip6.example.org/".to_string());
    assert_eq!(
        begin_run(&settings),
        (
            RunState::AwaitingAddresses,
            RunAction::Discover {
                ipv4: AddressSource::Interface("wan0".to_string()),
                ipv6_prefix: AddressSource::Http("https://ip6.example.org/".to_string()),
            },
        )
    );
}

#[test]
fn nothing_discovered_rests() {
    let settings = config(vec![zone("example.org", Vec::new())], History::default());
    let nothing = AddressPair { ipv4: None, ipv6_prefix: None };
    assert_eq!(
        advance_run(&settings, RunState::AwaitingAddresses, RunEvent::Discovered(nothing)),
        (RunState::Finished, RunAction::Stop(Rest::Disabled))
    );
}

#[test]
fn unchanged_address_contacts_no_zone_and_stores_nothing() {
    let history = History { ipv4: Some(V4_OLD), ipv6_prefix: None };
    let settings = config(vec![zone("example.org", vec!["www.example.org"])], history);
    let (state, action) = begin_run(&settings);
    assert_eq!(state, RunState::AwaitingAddresses);
    assert!(matches!(action, RunAction::Discover { .. }));
    let step = advance_run(&settings, state, RunEvent::Discovered(v4(V4_OLD)));
    assert_eq!(
        step,
        (
            RunState::Finished,
            RunAction::Stop(Rest::Unchanged(Changes {
                ipv4: Change::Unchanged,
                ipv6_prefix: Change::Disabled,
            })),
        )
    );
    assert_eq!(settings.history, history);
}

#[test]
fn changed_address_has_every_zone_updated() {
    let history = History { ipv4: Some(V4_OLD), ipv6_prefix: None };
    let settings = config(
        vec![zone("example.org", Vec::new()), zone("example.net", Vec::new())],
        history,
    );
    assert_eq!(
        advance_run(&settings, RunState::AwaitingAddresses, RunEvent::Discovered(v4(V4_NEW))),
        (
            RunState::AwaitingZones { new: v4(V4_NEW), zones: 2 },
            RunAction::UpdateZones {
                new: v4(V4_NEW),
                changes: Changes {
                    ipv4: Change::Changed { from: V4_OLD, to: V4_NEW },
                    ipv6_prefix: Change::Disabled,
                },
            },
        )
    );
}

#[test]
fn only_what_changed_is_handed_to_the_zones() {
    let prefix: u128 = 0x2001_0db8_0000_0001_0000_0000_0000_0000;
    let history = History { ipv4: Some(V4_OLD), ipv6_prefix: Some(prefix) };
    let settings = config(vec![zone("example.org", Vec::new())], history);
    let observed = AddressPair { ipv4: Some(V4_NEW), ipv6_prefix: Some(prefix) };
    let (state, _) =
        advance_run(&settings, RunState::AwaitingAddresses, RunEvent::Discovered(observed));
    assert_eq!(state, RunState::AwaitingZones { new: v4(V4_NEW), zones: 1 });
}

#[test]
fn full_success_stores_the_new_addresses() {
    let settings = config(vec![zone("a", Vec::new()), zone("b", Vec::new())], History::default());
    let waiting = RunState::AwaitingZones { new: v4(V4_NEW), zones: 2 };
    assert_eq!(
        advance_run(&settings, waiting, RunEvent::ZonesFinished(vec![Ok(()), Ok(())])),
        (
            RunState::Finished,
            RunAction::Persist(History { ipv4: Some(V4_NEW), ipv6_prefix: None }),
        )
    );
}

#[test]
fn one_failed_zone_fails_the_run_and_stores_nothing() {
    let settings = config(
        vec![zone("a", Vec::new()), zone("b", Vec::new()), zone("c", Vec::new())],
        History::default(),
    );
    let waiting = RunState::AwaitingZones { new: v4(V4_NEW), zones: 3 };
    let results = vec![Ok(()), Err(ZoneError::UpdatesFailed(1)), Ok(())];
    assert_eq!(
        advance_run(&settings, waiting, RunEvent::ZonesFinished(results)),
        (RunState::Finished, RunAction::Fail(RunError::ZonesFailed(1)))
    );
    let results = vec![Err(ZoneError::AmbiguousZone), Err(ZoneError::RemoteUnavailable), Ok(())];
    assert_eq!(
        advance_run(&settings, waiting, RunEvent::ZonesFinished(results)),
        (RunState::Finished, RunAction::Fail(RunError::ZonesFailed(2)))
    );
}

#[test]
fn results_are_accepted_only_for_all_zones() {
    let settings = config(vec![zone("a", Vec::new()), zone("b", Vec::new())], History::default());
    let waiting = RunState::AwaitingZones { new: v4(V4_NEW), zones: 2 };
    assert_eq!(
        advance_run(&settings, waiting, RunEvent::ZonesFinished(vec![Ok(())])),
        (RunState::Finished, RunAction::Fail(RunError::OutOfTurn))
    );
}

#[test]
fn event_out_of_turn_fails_the_run() {
    let settings = config(vec![zone("a", Vec::new())], History::default());
    assert_eq!(
        advance_run(&settings, RunState::AwaitingAddresses, RunEvent::ZonesFinished(vec![Ok(())])),
        (RunState::Finished, RunAction::Fail(RunError::OutOfTurn))
    );
    let waiting = RunState::AwaitingZones { new: v4(V4_NEW), zones: 1 };
    assert_eq!(
        advance_run(&settings, waiting, RunEvent::Discovered(v4(V4_NEW))),
        (RunState::Finished, RunAction::Fail(RunError::OutOfTurn))
    );
    assert_eq!(
        advance_run(&settings, RunState::Finished, RunEvent::Discovered(v4(V4_NEW))),
        (RunState::Finished, RunAction::Fail(RunError::OutOfTurn))
    );
}

#[test]
fn first_run_updates_the_record_and_remembers_the_address() {
    let settings = config(vec![zone("example.org", vec!["www.example.org"])], History::default());
    let (run, _) = begin_run(&settings);
    let (run, action) = advance_run(&settings, run, RunEvent::Discovered(v4(V4_NEW)));
    let new = match action {
        RunAction::UpdateZones { new, changes } => {
            assert_eq!(changes.ipv4, Change::Unknown { now: V4_NEW });
            new
        }
        other => panic!("{:?}", other),
    };
    assert_eq!(new, v4(V4_NEW));

    let zone_config = &settings.zones[0];
    let (state, action) = begin_zone(zone_config);
    assert_eq!(
        action,
        ZoneAction::ListZones { name: "example.org".to_string(), status: ZoneStatus::Active }
    );
    let listed = vec![ZoneSummary { id: "zone-1".to_string(), name: "example.org".to_string() }];
    let (state, action) = update_zone(zone_config, new, state, ZoneEvent::ZonesListed(listed));
    assert_eq!(
        action,
        ZoneAction::ListRecords {
            zone_identifier: "zone-1".to_string(),
            page: 1,
            direction: Direction::Ascending,
        }
    );
    let records = vec![RemoteRecord {
        id: "rec-1".to_string(),
        name: "www.example.org".to_string(),
        kind: RecordKind::A,
    }];
    let event = ZoneEvent::RecordsListed(RecordPage { records, page_info: PageReport::Absent });
    let (state, action) = update_zone(zone_config, new, state, event);
    assert_eq!(
        action,
        ZoneAction::Dispatch(ZonePlan {
            updates: vec![PlannedUpdate {
                zone_identifier: "zone-1".to_string(),
                identifier: "rec-1".to_string(),
                name: "www.example.org".to_string(),
                ttl: None,
                proxied: None,
                content: RecordContent::A(0x0909_0909),
            }],
            missing: Vec::new(),
            errors: 0,
        })
    );
    let (_, action) = update_zone(zone_config, new, state, ZoneEvent::UpdatesFinished(vec![true]));
    let result = match action {
        ZoneAction::Finish(result) => result,
        other => panic!("{:?}", other),
    };
    assert_eq!(result, Ok(()));

    assert_eq!(
        advance_run(&settings, run, RunEvent::ZonesFinished(vec![result])),
        (
            RunState::Finished,
            RunAction::Persist(History { ipv4: Some(0x0909_0909), ipv6_prefix: None }),
        )
    );
}

#[test]
fn one_failed_update_keeps_the_history_as_it_was() {
    let names = vec!["a.example.org", "b.example.org", "c.example.org"];
    let history = History { ipv4: Some(V4_OLD), ipv6_prefix: None };
    let settings = config(vec![zone("example.org", names.clone())], history);
    let (run, _) = begin_run(&settings);
    let (run, _) = advance_run(&settings, run, RunEvent::Discovered(v4(V4_NEW)));

    let zone_config = &settings.zones[0];
    let (state, _) = begin_zone(zone_config);
    let listed = vec![ZoneSummary { id: "zone-1".to_string(), name: "example.org".to_string() }];
    let (state, _) = update_zone(zone_config, v4(V4_NEW), state, ZoneEvent::ZonesListed(listed));
    let mut records: Vec<RemoteRecord> = Vec::new();
    for name in names {
        records.push(RemoteRecord {
            id: format!("id-{}", name),
            name: name.to_string(),
            kind: RecordKind::A,
        });
    }
    let event = ZoneEvent::RecordsListed(RecordPage { records, page_info: PageReport::Absent });
    let (state, action) = update_zone(zone_config, v4(V4_NEW), state, event);
    match action {
        ZoneAction::Dispatch(plan) => assert_eq!(plan.updates.len(), 3),
        other => panic!("{:?}", other),
    }
    let outcomes = vec![true, true, false];
    let (_, action) =
        update_zone(zone_config, v4(V4_NEW), state, ZoneEvent::UpdatesFinished(outcomes));
    assert_eq!(action, ZoneAction::Finish(Err(ZoneError::UpdatesFailed(1))));

    let step = advance_run(
        &settings,
        run,
        RunEvent::ZonesFinished(vec![Err(ZoneError::UpdatesFailed(1))]),
    );
    assert_eq!(step, (RunState::Finished, RunAction::Fail(RunError::ZonesFailed(1))));
    assert_eq!(settings.history, history);
}
