use event_query::plan::{
    plan_event_query, plan_series_query, EventPlan, Selection, EVENT_BASE_STATEMENT,
    EVENT_JOINED_STATEMENT, SERIES_STATEMENT,
};
use event_query::resolve::{FetchError, Query, ResolveError, RowFault};
use event_query::row::{Cell, Event, MalformedRow, Row, Series};

fn num(n: i32) -> Cell {
    Cell::Int(n)
}

fn text(s: &str) -> Cell {
    Cell::Text(s.to_string())
}

fn row(cells: Vec<Cell>) -> Row {
    Row { cells }
}

fn field(name: &str) -> Selection {
    Selection { name: name.to_string(), children: Vec::new() }
}

fn nested(name: &str, children: Vec<Selection>) -> Selection {
    Selection { name: name.to_string(), children }
}

fn stored_base_rows() -> Vec<Row> {
    vec![
        row(vec![num(10), text("Intro")]),
        row(vec![num(11), text("Standalone")]),
    ]
}

fn stored_joined_rows() -> Vec<Row> {
    vec![
        row(vec![num(10), text("Intro"), num(1), num(1), text("Talks"), text("Weekly talks")]),
        row(vec![num(11), text("Standalone"), Cell::Null, Cell::Null, Cell::Null, Cell::Null]),
    ]
}

fn series_key(s: &Series) -> (i32, String, Option<String>) {
    (s.id, s.name.clone(), s.description.clone())
}

#[test]
fn api_version_is_one_point_zero() {
    assert_eq!(Query::apiVersion(), "1.0");
}

#[test]
fn flat_event_fields_use_no_join() {
    let fields = vec![field("id"), field("title")];
    let plan = plan_event_query(&fields);
    assert_eq!(plan, EventPlan::Base);
    assert!(!plan.include_relation());
    assert_eq!(plan.statement(), EVENT_BASE_STATEMENT);
    assert!(!plan.statement().contains("series"));

    let events = Query::event(plan, Ok(stored_base_rows())).unwrap();
    assert_eq!(events.len(), 2);
    assert_eq!(events[0].id, 10);
    assert_eq!(events[0].title, "Intro");
    assert!(events[0].part_of.is_none());
    assert_eq!(events[1].id, 11);
    assert_eq!(events[1].title, "Standalone");
    assert!(events[1].part_of.is_none());
}

#[test]
fn relation_field_uses_left_join() {
    let fields = vec![field("id"), field("title"), nested("partOf", vec![field("name")])];
    let plan = plan_event_query(&fields);
    assert_eq!(plan, EventPlan::Joined);
    assert!(plan.include_relation());
    assert_eq!(plan.statement(), EVENT_JOINED_STATEMENT);
    assert!(plan.statement().contains("left join series"));

    let events = Query::event(plan, Ok(stored_joined_rows())).unwrap();
    assert_eq!(events.len(), 2);
    assert_eq!(events[0].id, 10);
    assert_eq!(events[0].title, "Intro");
    let s = events[0].part_of.as_ref().unwrap();
    assert_eq!(series_key(s), (1, "Talks".to_string(), Some("Weekly talks".to_string())));
    assert_eq!(events[1].id, 11);
    assert_eq!(events[1].title, "Standalone");
    assert!(events[1].part_of.is_none());
}

#[test]
fn relation_without_sub_fields_still_joins() {
    let fields = vec![field("partOf")];
    assert_eq!(plan_event_query(&fields), EventPlan::Joined);
}

#[test]
fn no_known_field_falls_back_to_identifiers() {
    let fields = vec![field("__typename")];
    let plan = plan_event_query(&fields);
    assert_eq!(plan, EventPlan::IdsOnly);
    assert_eq!(plan.statement(), "select id from events");
    let events = Query::event(plan, Ok(vec![row(vec![num(7)])])).unwrap();
    assert_eq!(events.len(), 1);
    assert_eq!(events[0].id, 7);
    assert!(events[0].title.is_empty());
    assert!(events[0].part_of.is_none());
    assert_eq!(plan_event_query(&Vec::new()), EventPlan::IdsOnly);
}

#[test]
fn series_plan_is_the_same_for_every_request() {
    assert_eq!(plan_series_query(&vec![field("name")]), SERIES_STATEMENT);
    assert_eq!(plan_series_query(&Vec::new()), SERIES_STATEMENT);
}

#[test]
fn base_rows_never_carry_a_series() {
    // Even where the row happens to hold more columns, the relation is not read.
    let r = row(vec![num(10), text("Intro"), num(1), num(1), text("Talks"), Cell::Null]);
    let e = Event::from_row(&r).unwrap();
    assert!(e.part_of.is_none());
}

#[test]
fn joined_row_round_trip() {
    let r = row(vec![num(5), text("Launch"), num(9), num(9), text("Meetups"), Cell::Null]);
    let e = Event::from_row_with_series(&r).unwrap();
    assert_eq!(e.id, 5);
    assert_eq!(e.title, "Launch");
    let s = e.part_of.unwrap();
    assert_eq!(series_key(&s), (9, "Meetups".to_string(), None));
}

#[test]
fn series_round_trip_with_offset() {
    let r = row(vec![Cell::Null, num(3), text("Talks"), text("Weekly talks")]);
    let s = Series::from_row_with_offset(&r, 1).unwrap();
    assert_eq!(series_key(&s), (3, "Talks".to_string(), Some("Weekly talks".to_string())));
    let s = Series::from_row(&row(vec![num(4), text("Other"), Cell::Null])).unwrap();
    assert_eq!(series_key(&s), (4, "Other".to_string(), None));
}

#[test]
fn null_foreign_key_gives_no_series() {
    let r = row(vec![num(11), text("Standalone"), Cell::Null]);
    let e = Event::from_row_including(&r, true).unwrap();
    assert!(e.part_of.is_none());
}

#[test]
fn foreign_key_must_match_joined_series() {
    let r = row(vec![num(10), text("Intro"), num(1), num(2), text("Talks"), Cell::Null]);
    let err = Event::from_row_with_series(&r).unwrap_err();
    assert_eq!(err, MalformedRow { column: 3 });
}

#[test]
fn dangling_foreign_key_is_malformed() {
    let r = row(vec![num(10), text("Intro"), num(1), Cell::Null, Cell::Null, Cell::Null]);
    assert_eq!(Event::from_row_with_series(&r).unwrap_err(), MalformedRow { column: 3 });
}

#[test]
fn wrong_kinds_are_malformed() {
    assert_eq!(
        Series::from_row(&row(vec![text("1"), text("Talks"), Cell::Null])).unwrap_err(),
        MalformedRow { column: 0 }
    );
    assert_eq!(
        Series::from_row(&row(vec![num(1), Cell::Null, Cell::Null])).unwrap_err(),
        MalformedRow { column: 1 }
    );
    assert_eq!(
        Series::from_row(&row(vec![num(1), text("Talks"), num(2)])).unwrap_err(),
        MalformedRow { column: 2 }
    );
    assert_eq!(
        Series::from_row(&row(vec![num(1), text("Talks")])).unwrap_err(),
        MalformedRow { column: 2 }
    );
    assert_eq!(
        Event::from_row(&row(vec![num(1)])).unwrap_err(),
        MalformedRow { column: 1 }
    );
    assert_eq!(
        Event::from_row_with_series(&row(vec![num(1), text("T"), text("x")])).unwrap_err(),
        MalformedRow { column: 2 }
    );
}

#[test]
fn first_malformed_row_fails_the_list() {
    let rows = vec![
        row(vec![num(1), text("Talks"), Cell::Null]),
        row(vec![num(2), Cell::Null, Cell::Null]),
        row(vec![Cell::Null, Cell::Null, Cell::Null]),
    ];
    match Query::series(Ok(rows)) {
        Err(ResolveError::MalformedRow(f)) => assert_eq!(f, RowFault { row: 1, column: 1 }),
        other => panic!("unexpected result: {:?}", other),
    }
}

#[test]
fn missing_connection_is_upstream_unavailable() {
    let fetched = Err(FetchError::NoConnection { reason: "timed out".to_string() });
    match Query::series(fetched) {
        Err(ResolveError::UpstreamUnavailable { reason }) => assert_eq!(reason, "timed out"),
        other => panic!("unexpected result: {:?}", other),
    }
}

#[test]
fn statement_error_is_query_failed() {
    let fetched = Err(FetchError::Query { reason: "relation does not exist".to_string() });
    match Query::event(EventPlan::Base, fetched) {
        Err(ResolveError::QueryFailed { reason }) => assert_eq!(reason, "relation does not exist"),
        other => panic!("unexpected result: {:?}", other),
    }
}

#[test]
fn empty_result_is_an_empty_list() {
    assert!(Query::series(Ok(Vec::new())).unwrap().is_empty());
    assert!(Query::event(EventPlan::Joined, Ok(Vec::new())).unwrap().is_empty());
}

#[test]
fn series_resolution_ignores_row_order() {
    let a = vec![
        row(vec![num(1), text("Talks"), text("Weekly talks")]),
        row(vec![num(2), text("Demos"), Cell::Null]),
    ];
    let b = vec![
        row(vec![num(2), text("Demos"), Cell::Null]),
        row(vec![num(1), text("Talks"), text("Weekly talks")]),
    ];
    let mut first: Vec<_> = Query::series(Ok(a)).unwrap().iter().map(series_key).collect();
    let mut second: Vec<_> = Query::series(Ok(b)).unwrap().iter().map(series_key).collect();
    first.sort();
    second.sort();
    assert_eq!(first, second);
    assert_eq!(first.len(), 2);
}

#[test]
fn unsupported_column_kind_is_malformed() {
    let r = row(vec![num(1), text("Talks"), Cell::Other]);
    assert_eq!(Series::from_row(&r).unwrap_err(), MalformedRow { column: 2 });
}
