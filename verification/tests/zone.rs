use cfddns::address::AddressPair;
use cfddns::config::{RecordConfig, ZoneConfig};
use cfddns::error::ZoneError;
use cfddns::plan::{PlannedUpdate, RecordContent, ZonePlan};
use cfddns::records::{PageInfo, PageReport, RecordKind, RecordMaps, RecordPage, RemoteRecord};
use cfddns::zone::{
    begin_zone, tally, update_zone, zone_id, zone_verdict, Direction, ZoneAction, ZoneEvent,
    ZoneState, ZoneStatus, ZoneSummary,
};

const V4: u32 = 0x0909_0909;

fn summary(id: &str) -> ZoneSummary {
    ZoneSummary { id: id.to_string(), name: "example.org".to_string() }
}

fn config(names: Vec<&str>) -> ZoneConfig {
    let mut records: Vec<RecordConfig> = Vec::new();
    for name in names {
        records.push(RecordConfig {
            name: name.to_string(),
            ttl: Some(1),
            proxied: None,
            eui64: None,
        });
    }
    ZoneConfig { name: "example.org".to_string(), records }
}

fn a_record(id: &str, name: &str) -> RemoteRecord {
    RemoteRecord { id: id.to_string(), name: name.to_string(), kind: RecordKind::A }
}

fn page(records: Vec<RemoteRecord>, number: u32, total_pages: u32) -> ZoneEvent {
    ZoneEvent::RecordsListed(RecordPage {
        records,
        page_info: PageReport::Present(PageInfo {
            count: 1,
            page: number,
            per_page: 1,
            total_count: 1,
            total_pages,
        }),
    })
}

fn last_page(records: Vec<RemoteRecord>) -> ZoneEvent {
    ZoneEvent::RecordsListed(RecordPage { records, page_info: PageReport::Absent })
}

fn a_update(id: &str, name: &str) -> PlannedUpdate {
    PlannedUpdate {
        zone_identifier: "zone-1".to_string(),
        identifier: id.to_string(),
        name: name.to_string(),
        ttl: Some(1),
        proxied: None,
        content: RecordContent::A(V4),
    }
}

fn new_v4() -> AddressPair {
    AddressPair { ipv4: Some(V4), ipv6_prefix: None }
}

fn failed(error: ZoneError) -> (ZoneState, ZoneAction) {
    (ZoneState::Finished, ZoneAction::Finish(Err(error)))
}

#[test]
fn one_matching_zone_resolves_to_its_identifier() {
    assert_eq!(zone_id(&vec![summary("zone-1")]), Ok("zone-1".to_string()));
}

#[test]
fn no_matching_zone_is_not_found() {
    assert_eq!(zone_id(&Vec::new()), Err(ZoneError::ZoneNotFound));
}

#[test]
fn several_matching_zones_are_ambiguous() {
    assert_eq!(zone_id(&vec![summary("zone-1"), summary("zone-2")]), Err(ZoneError::AmbiguousZone));
    assert_eq!(
        zone_id(&vec![summary("zone-1"), summary("zone-1"), summary("zone-3")]),
        Err(ZoneError::AmbiguousZone)
    );
}

#[test]
fn tally_adds_failures_to_the_errors_so_far() {
    assert_eq!(tally(0, &Vec::new()), 0);
    assert_eq!(tally(3, &Vec::new()), 3);
    assert_eq!(tally(0, &vec![true, true, true]), 0);
    assert_eq!(tally(0, &vec![true, false, true]), 1);
    assert_eq!(tally(2, &vec![false, false, true, false]), 5);
}

#[test]
fn tally_stops_at_the_largest_count() {
    assert_eq!(tally(u32::MAX, &vec![false]), u32::MAX);
    assert_eq!(tally(u32::MAX - 1, &vec![false, false, false]), u32::MAX);
    assert_eq!(tally(u32::MAX - 1, &vec![false]), u32::MAX);
    assert_eq!(tally(u32::MAX, &vec![true]), u32::MAX);
}

#[test]
fn verdict_fails_on_any_error() {
    assert_eq!(zone_verdict(0), Ok(()));
    assert_eq!(zone_verdict(1), Err(ZoneError::UpdatesFailed(1)));
    assert_eq!(zone_verdict(u32::MAX), Err(ZoneError::UpdatesFailed(u32::MAX)));
}

#[test]
fn zone_without_records_is_done_at_once() {
    assert_eq!(begin_zone(&config(Vec::new())), (ZoneState::Finished, ZoneAction::Finish(Ok(()))));
}

#[test]
fn zone_without_records_never_asks_for_anything() {
    let zone = config(Vec::new());
    let (state, action) = begin_zone(&zone);
    assert_eq!(action, ZoneAction::Finish(Ok(())));
    let step = update_zone(&zone, new_v4(), state, ZoneEvent::ZonesListed(vec![summary("zone-1")]));
    assert_eq!(step, failed(ZoneError::OutOfTurn));
    let step = update_zone(&zone, new_v4(), step.0, last_page(Vec::new()));
    assert_eq!(step, failed(ZoneError::OutOfTurn));
}

#[test]
fn zone_with_records_has_its_name_resolved_first() {
    assert_eq!(
        begin_zone(&config(vec!["www.example.org"])),
        (
            ZoneState::AwaitingZones,
            ZoneAction::ListZones { name: "example.org".to_string(), status: ZoneStatus::Active },
        )
    );
}

#[test]
fn resolved_zone_has_its_first_page_listed() {
    let zone = config(vec!["www.example.org"]);
    let step = update_zone(
        &zone,
        new_v4(),
        ZoneState::AwaitingZones,
        ZoneEvent::ZonesListed(vec![summary("zone-1")]),
    );
    assert_eq!(
        step,
        (
            ZoneState::AwaitingRecords {
                zone_identifier: "zone-1".to_string(),
                page: 1,
                maps: RecordMaps::new(),
            },
            ZoneAction::ListRecords {
                zone_identifier: "zone-1".to_string(),
                page: 1,
                direction: Direction::Ascending,
            },
        )
    );
}

#[test]
fn ambiguous_zone_fails_without_touching_records() {
    let zone = config(vec!["www.example.org"]);
    let (state, _) = begin_zone(&zone);
    let step = update_zone(
        &zone,
        new_v4(),
        state,
        ZoneEvent::ZonesListed(vec![summary("zone-1"), summary("zone-2")]),
    );
    assert_eq!(step, failed(ZoneError::AmbiguousZone));
    let records = vec![a_record("r", "www.example.org")];
    let step = update_zone(&zone, new_v4(), step.0, last_page(records));
    assert_eq!(step, failed(ZoneError::OutOfTurn));
}

#[test]
fn unknown_zone_fails() {
    let zone = config(vec!["www.example.org"]);
    let step =
        update_zone(&zone, new_v4(), ZoneState::AwaitingZones, ZoneEvent::ZonesListed(Vec::new()));
    assert_eq!(step, failed(ZoneError::ZoneNotFound));
}

#[test]
fn failed_zone_listing_fails_the_zone() {
    let zone = config(vec!["www.example.org"]);
    let step = update_zone(&zone, new_v4(), ZoneState::AwaitingZones, ZoneEvent::RequestFailed);
    assert_eq!(step, failed(ZoneError::RemoteUnavailable));
}

#[test]
fn failed_record_listing_fails_the_zone() {
    let zone = config(vec!["www.example.org"]);
    let state = ZoneState::AwaitingRecords {
        zone_identifier: "zone-1".to_string(),
        page: 2,
        maps: RecordMaps::new(),
    };
    assert_eq!(
        update_zone(&zone, new_v4(), state, ZoneEvent::RequestFailed),
        failed(ZoneError::RemoteUnavailable)
    );
}

#[test]
fn records_are_collected_over_all_pages_before_planning() {
    let zone = config(vec!["a.example.org", "b.example.org", "c.example.org"]);
    let (state, _) = begin_zone(&zone);
    let (state, _) =
        update_zone(&zone, new_v4(), state, ZoneEvent::ZonesListed(vec![summary("zone-1")]));
    let (state, action) =
        update_zone(&zone, new_v4(), state, page(vec![a_record("ra", "a.example.org")], 1, 3));
    assert_eq!(
        action,
        ZoneAction::ListRecords {
            zone_identifier: "zone-1".to_string(),
            page: 2,
            direction: Direction::Ascending,
        }
    );
    let (state, action) =
        update_zone(&zone, new_v4(), state, page(vec![a_record("rb", "b.example.org")], 2, 3));
    assert_eq!(
        action,
        ZoneAction::ListRecords {
            zone_identifier: "zone-1".to_string(),
            page: 3,
            direction: Direction::Ascending,
        }
    );
    let (state, action) =
        update_zone(&zone, new_v4(), state, page(vec![a_record("rc", "c.example.org")], 3, 3));
    assert_eq!(
        action,
        ZoneAction::Dispatch(ZonePlan {
            updates: vec![
                a_update("ra", "a.example.org"),
                a_update("rb", "b.example.org"),
                a_update("rc", "c.example.org"),
            ],
            missing: Vec::new(),
            errors: 0,
        })
    );
    assert_eq!(state, ZoneState::AwaitingUpdates { dispatched: 3, errors: 0 });
    assert_eq!(
        update_zone(&zone, new_v4(), state, ZoneEvent::UpdatesFinished(vec![true, true, true])),
        (ZoneState::Finished, ZoneAction::Finish(Ok(())))
    );
}

#[test]
fn page_without_paging_information_ends_the_listing() {
    let zone = config(vec!["a.example.org"]);
    let state = ZoneState::AwaitingRecords {
        zone_identifier: "zone-1".to_string(),
        page: 1,
        maps: RecordMaps::new(),
    };
    let (state, action) =
        update_zone(&zone, new_v4(), state, last_page(vec![a_record("ra", "a.example.org")]));
    assert_eq!(
        action,
        ZoneAction::Dispatch(ZonePlan {
            updates: vec![a_update("ra", "a.example.org")],
            missing: Vec::new(),
            errors: 0,
        })
    );
    assert_eq!(state, ZoneState::AwaitingUpdates { dispatched: 1, errors: 0 });
}

#[test]
fn unreadable_paging_information_fails_the_zone() {
    let zone = config(vec!["a.example.org"]);
    let state = ZoneState::AwaitingRecords {
        zone_identifier: "zone-1".to_string(),
        page: 1,
        maps: RecordMaps::new(),
    };
    let event = ZoneEvent::RecordsListed(RecordPage {
        records: vec![a_record("ra", "a.example.org")],
        page_info: PageReport::Malformed,
    });
    assert_eq!(update_zone(&zone, new_v4(), state, event), failed(ZoneError::UnexpectedResponse));
}

#[test]
fn page_counter_overflow_fails_the_zone() {
    let zone = config(vec!["a.example.org"]);
    let state = ZoneState::AwaitingRecords {
        zone_identifier: "zone-1".to_string(),
        page: u32::MAX,
        maps: RecordMaps::new(),
    };
    assert_eq!(
        update_zone(&zone, new_v4(), state, page(Vec::new(), 1, 0)),
        failed(ZoneError::PageCounterOverflow)
    );
}

#[test]
fn one_failed_update_of_three_fails_the_zone_with_one() {
    let zone = config(vec!["a.example.org", "b.example.org", "c.example.org"]);
    let state = ZoneState::AwaitingRecords {
        zone_identifier: "zone-1".to_string(),
        page: 1,
        maps: RecordMaps::new(),
    };
    let records = vec![
        a_record("ra", "a.example.org"),
        a_record("rb", "b.example.org"),
        a_record("rc", "c.example.org"),
    ];
    let (state, action) = update_zone(&zone, new_v4(), state, last_page(records));
    match action {
        ZoneAction::Dispatch(plan) => {
            assert_eq!(plan.updates.len(), 3);
            assert_eq!(plan.errors, 0);
        }
        other => panic!("{:?}", other),
    }
    assert_eq!(
        update_zone(&zone, new_v4(), state, ZoneEvent::UpdatesFinished(vec![true, false, true])),
        failed(ZoneError::UpdatesFailed(1))
    );
}

#[test]
fn outcomes_are_accepted_only_for_all_dispatched_updates() {
    let zone = config(vec!["a.example.org"]);
    let waiting = ZoneState::AwaitingUpdates { dispatched: 3, errors: 0 };
    assert_eq!(
        update_zone(&zone, new_v4(), waiting, ZoneEvent::UpdatesFinished(vec![true, true])),
        failed(ZoneError::OutOfTurn)
    );
    let waiting = ZoneState::AwaitingUpdates { dispatched: 3, errors: 0 };
    assert_eq!(
        update_zone(&zone, new_v4(), waiting, ZoneEvent::UpdatesFinished(vec![true; 4])),
        failed(ZoneError::OutOfTurn)
    );
}

#[test]
fn missing_records_and_failed_updates_are_counted_together() {
    let zone = config(vec!["a.example.org", "gone.example.org", "c.example.org"]);
    let state = ZoneState::AwaitingRecords {
        zone_identifier: "zone-1".to_string(),
        page: 1,
        maps: RecordMaps::new(),
    };
    let records = vec![a_record("ra", "a.example.org"), a_record("rc", "c.example.org")];
    let (state, action) = update_zone(&zone, new_v4(), state, last_page(records));
    match action {
        ZoneAction::Dispatch(plan) => {
            assert_eq!(
                plan.updates,
                vec![a_update("ra", "a.example.org"), a_update("rc", "c.example.org")]
            );
            assert_eq!(plan.missing.len(), 1);
            assert_eq!(plan.errors, 1);
        }
        other => panic!("{:?}", other),
    }
    assert_eq!(state, ZoneState::AwaitingUpdates { dispatched: 2, errors: 1 });
    assert_eq!(
        update_zone(&zone, new_v4(), state, ZoneEvent::UpdatesFinished(vec![false, true])),
        failed(ZoneError::UpdatesFailed(2))
    );
}

#[test]
fn missing_record_fails_the_zone_even_if_every_update_succeeds() {
    let zone = config(vec!["gone.example.org"]);
    let state = ZoneState::AwaitingRecords {
        zone_identifier: "zone-1".to_string(),
        page: 1,
        maps: RecordMaps::new(),
    };
    let (state, _) = update_zone(&zone, new_v4(), state, last_page(Vec::new()));
    assert_eq!(state, ZoneState::AwaitingUpdates { dispatched: 0, errors: 1 });
    assert_eq!(
        update_zone(&zone, new_v4(), state, ZoneEvent::UpdatesFinished(Vec::new())),
        failed(ZoneError::UpdatesFailed(1))
    );
}

#[test]
fn answer_out_of_turn_fails_the_zone() {
    let zone = config(vec!["a.example.org"]);
    assert_eq!(
        update_zone(&zone, new_v4(), ZoneState::AwaitingZones, last_page(Vec::new())),
        failed(ZoneError::OutOfTurn)
    );
    assert_eq!(
        update_zone(
            &zone,
            new_v4(),
            ZoneState::AwaitingZones,
            ZoneEvent::UpdatesFinished(Vec::new())
        ),
        failed(ZoneError::OutOfTurn)
    );
    let listing = ZoneState::AwaitingRecords {
        zone_identifier: "zone-1".to_string(),
        page: 1,
        maps: RecordMaps::new(),
    };
    assert_eq!(
        update_zone(&zone, new_v4(), listing, ZoneEvent::ZonesListed(vec![summary("zone-1")])),
        failed(ZoneError::OutOfTurn)
    );
    let waiting = ZoneState::AwaitingUpdates { dispatched: 0, errors: 0 };
    assert_eq!(
        update_zone(&zone, new_v4(), waiting, ZoneEvent::RequestFailed),
        failed(ZoneError::OutOfTurn)
    );
    assert_eq!(
        update_zone(&zone, new_v4(), ZoneState::Finished, ZoneEvent::RequestFailed),
        failed(ZoneError::OutOfTurn)
    );
}
