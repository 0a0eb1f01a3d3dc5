use vstd::prelude::*;

use crate::plan::{event_plan_for, requests, EventPlan, Selection, RELATION_FIELD};
use crate::row::{
    int_at, event_at, event_id_at, series_at, viewed, Event, EventView, MalformedRow, Row, Series,
    SeriesView, Value,
};

verus! {

/// Why the rows of a statement could not be fetched.
#[derive(Clone, Debug)]
pub enum FetchError {
    /// The pool could not supply a connection.
    NoConnection { reason: String },
    /// The store rejected the statement or could not run it.
    Query { reason: String },
}

/// The row of a result list that did not map, and the column at fault.
#[derive(Clone, Copy, Debug, PartialEq, Eq, Structural)]
pub struct RowFault {
    pub row: usize,
    pub column: usize,
}

/// Why a top-level field could not be resolved.
#[derive(Clone, Debug)]
pub enum ResolveError {
    UpstreamUnavailable { reason: String },
    QueryFailed { reason: String },
    MalformedRow(RowFault),
}

/// The mathematical rows of a fetched result.
pub open spec fn rows_view(rows: Seq<Row>) -> Seq<Seq<Value>> {
    rows.map_values(|r: Row| r@)
}

/// Maps every row with `f`, in order; the first row that does not map decides
/// the error.
pub open spec fn map_rows<V>(
    rows: Seq<Seq<Value>>,
    f: spec_fn(Seq<Value>) -> Result<V, MalformedRow>,
) -> Result<Seq<V>, RowFault>
    decreases rows.len(),
{
    if rows.len() == 0 {
        Ok(Seq::empty())
    } else {
        match map_rows(rows.drop_last(), f) {
            Err(e) => Err(e),
            Ok(prev) => match f(rows.last()) {
                Ok(v) => Ok(prev.push(v)),
                Err(m) => Err(RowFault { row: (rows.len() - 1) as usize, column: m.column }),
            },
        }
    }
}

/// How a row of the series statement maps.
pub open spec fn series_of_row() -> spec_fn(Seq<Value>) -> Result<SeriesView, MalformedRow> {
    |r: Seq<Value>| series_at(r, 0)
}

/// How a row of an event statement maps under `plan`.
pub open spec fn event_of_row(plan: EventPlan) -> spec_fn(Seq<Value>) -> Result<
    EventView,
    MalformedRow,
> {
    |r: Seq<Value>|
        match plan {
            EventPlan::IdsOnly => event_id_at(r),
            EventPlan::Base => event_at(r, false),
            EventPlan::Joined => event_at(r, true),
        }
}

pub open spec fn series_list_view(v: Seq<Series>) -> Seq<SeriesView> {
    v.map_values(|s: Series| s@)
}

pub open spec fn event_list_view(v: Seq<Event>) -> Seq<EventView> {
    v.map_values(|e: Event| e@)
}

/// The outcome of resolving a list from what the store handed back: a failed
/// fetch passes its reason on; otherwise the rows decide.
pub open spec fn resolved<T, V>(
    fetched: Result<Vec<Row>, FetchError>,
    f: spec_fn(Seq<Value>) -> Result<V, MalformedRow>,
    r: Result<Vec<T>, ResolveError>,
    list_view: spec_fn(Seq<T>) -> Seq<V>,
) -> bool {
    match fetched {
        Err(FetchError::NoConnection { reason }) => r matches Err(
            ResolveError::UpstreamUnavailable { reason: x },
        ) && x == reason,
        Err(FetchError::Query { reason }) => r matches Err(ResolveError::QueryFailed { reason: x })
            && x == reason,
        Ok(rows) => match map_rows(rows_view(rows@), f) {
            Ok(vs) => r matches Ok(out) && list_view(out@) == vs,
            Err(fault) => r matches Err(ResolveError::MalformedRow(x)) && x == fault,
        },
    }
}

proof fn lemma_rows_take_step(rows: Seq<Row>, i: int)
    requires
        0 <= i < rows.len(),
    ensures
        rows_view(rows.take(i + 1)).drop_last() == rows_view(rows.take(i)),
        rows_view(rows.take(i + 1)).last() == rows[i]@,
        rows_view(rows.take(i + 1)).len() == i + 1,
{
    assert(rows_view(rows.take(i + 1)).drop_last() =~= rows_view(rows.take(i)));
}

fn series_from_rows(rows: &Vec<Row>) -> (r: Result<Vec<Series>, RowFault>)
    ensures
        match map_rows(rows_view(rows@), series_of_row()) {
            Ok(vs) => r matches Ok(out) && series_list_view(out@) == vs,
            Err(fault) => r == Err::<Vec<Series>, RowFault>(fault),
        },
{
    let mut out: Vec<Series> = Vec::new();
    let mut i: usize = 0;
    assert(rows@.take(0) =~= Seq::<Row>::empty());
    assert(series_list_view(out@) =~= Seq::<SeriesView>::empty());
    while i < rows.len()
        invariant
            i <= rows@.len(),
            map_rows(rows_view(rows@.take(i as int)), series_of_row()) == Ok::<
                Seq<SeriesView>,
                RowFault,
            >(series_list_view(out@)),
        decreases rows@.len() - i,
    {
        let ghost prev = out@;
        proof {
            lemma_rows_take_step(rows@, i as int);
        }
        match Series::from_row(&rows[i]) {
            Ok(s) => {
                out.push(s);
                assert(series_list_view(out@) =~= series_list_view(prev).push(s@));
            },
            Err(m) => {
                proof {
                    lemma_map_rows_fails_after(rows@, i as int, series_of_row());
                }
                return Err(RowFault { row: i, column: m.column });
            },
        }
        i = i + 1;
    }
    assert(rows@.take(rows@.len() as int) =~= rows@);
    Ok(out)
}

/// Once the row at `i` fails to map, the whole list fails there.
proof fn lemma_map_rows_fails_after<V>(
    rows: Seq<Row>,
    i: int,
    f: spec_fn(Seq<Value>) -> Result<V, MalformedRow>,
)
    requires
        0 <= i < rows.len(),
        map_rows(rows_view(rows.take(i)), f) is Ok,
        f(rows[i]@) is Err,
    ensures
        map_rows(rows_view(rows), f) == Err::<Seq<V>, RowFault>(
            RowFault { row: i as usize, column: f(rows[i]@)->Err_0.column },
        ),
    decreases rows.len() - i,
{
    lemma_rows_take_step(rows, i);
    if i + 1 < rows.len() {
        let shorter = rows.take(rows.len() - 1);
        assert(shorter.take(i) =~= rows.take(i));
        assert(shorter[i] == rows[i]);
        lemma_map_rows_fails_after(shorter, i, f);
        assert(rows_view(rows).drop_last() =~= rows_view(shorter));
    } else {
        assert(rows.take(i + 1) =~= rows);
    }
}

fn events_from_rows(plan: EventPlan, rows: &Vec<Row>) -> (r: Result<Vec<Event>, RowFault>)
    ensures
        match map_rows(rows_view(rows@), event_of_row(plan)) {
            Ok(vs) => r matches Ok(out) && event_list_view(out@) == vs,
            Err(fault) => r == Err::<Vec<Event>, RowFault>(fault),
        },
{
    let mut out: Vec<Event> = Vec::new();
    let mut i: usize = 0;
    assert(rows@.take(0) =~= Seq::<Row>::empty());
    assert(event_list_view(out@) =~= Seq::<EventView>::empty());
    while i < rows.len()
        invariant
            i <= rows@.len(),
            map_rows(rows_view(rows@.take(i as int)), event_of_row(plan)) == Ok::<
                Seq<EventView>,
                RowFault,
            >(event_list_view(out@)),
        decreases rows@.len() - i,
    {
        let ghost prev = out@;
        proof {
            lemma_rows_take_step(rows@, i as int);
        }
        let mapped = match plan {
            EventPlan::IdsOnly => Event::from_id_row(&rows[i]),
            EventPlan::Base => Event::from_row(&rows[i]),
            EventPlan::Joined => Event::from_row_with_series(&rows[i]),
        };
        assert(viewed(mapped) == (event_of_row(plan))(rows@[i as int]@));
        match mapped {
            Ok(e) => {
                out.push(e);
                assert(event_list_view(out@) =~= event_list_view(prev).push(e@));
            },
            Err(m) => {
                proof {
                    lemma_map_rows_fails_after(rows@, i as int, event_of_row(plan));
                }
                return Err(RowFault { row: i, column: m.column });
            },
        }
        i = i + 1;
    }
    assert(rows@.take(rows@.len() as int) =~= rows@);
    Ok(out)
}

/// The top-level fields of the query interface.
pub struct Query;

impl Query {
    /// The interface's version; constant.
    #[allow(non_snake_case)]
    pub fn apiVersion() -> (r: &'static str)
        ensures
            r@ == "1.0"@,
    {
        "1.0"
    }

    /// Resolves the series list from what the series statement fetched.
    pub fn series(fetched: Result<Vec<Row>, FetchError>) -> (r: Result<Vec<Series>, ResolveError>)
        ensures
            resolved(fetched, series_of_row(), r, |v: Seq<Series>| series_list_view(v)),
    {
        match fetched {
            Err(FetchError::NoConnection { reason }) => Err(
                ResolveError::UpstreamUnavailable { reason },
            ),
            Err(FetchError::Query { reason }) => Err(ResolveError::QueryFailed { reason }),
            Ok(rows) => match series_from_rows(&rows) {
                Ok(out) => Ok(out),
                Err(fault) => Err(ResolveError::MalformedRow(fault)),
            },
        }
    }

    /// Resolves the event list from what the statement of `plan` fetched.
    pub fn event(plan: EventPlan, fetched: Result<Vec<Row>, FetchError>) -> (r: Result<
        Vec<Event>,
        ResolveError,
    >)
        ensures
            resolved(fetched, event_of_row(plan), r, |v: Seq<Event>| event_list_view(v)),
    {
        match fetched {
            Err(FetchError::NoConnection { reason }) => Err(
                ResolveError::UpstreamUnavailable { reason },
            ),
            Err(FetchError::Query { reason }) => Err(ResolveError::QueryFailed { reason }),
            Ok(rows) => match events_from_rows(plan, &rows) {
                Ok(out) => Ok(out),
                Err(fault) => Err(ResolveError::MalformedRow(fault)),
            },
        }
    }
}

/// A list maps exactly when each of its rows maps, and then each item is what
/// its row maps to.
pub proof fn lemma_map_rows_ok<V>(
    rows: Seq<Seq<Value>>,
    f: spec_fn(Seq<Value>) -> Result<V, MalformedRow>,
)
    ensures
        map_rows(rows, f) is Ok <==> forall|i: int| 0 <= i < rows.len() ==> (#[trigger] f(rows[i])) is Ok,
        map_rows(rows, f) is Ok ==> map_rows(rows, f)->Ok_0.len() == rows.len() && forall|i: int|
            0 <= i < rows.len() ==> #[trigger] f(rows[i]) == Ok::<V, MalformedRow>(
                map_rows(rows, f)->Ok_0[i],
            ),
    decreases rows.len(),
{
    if rows.len() > 0 {
        let init = rows.drop_last();
        let last = rows[rows.len() - 1];
        lemma_map_rows_ok(init, f);
        if map_rows(rows, f) is Ok {
            let prev = map_rows(init, f)->Ok_0;
            let vs = map_rows(rows, f)->Ok_0;
            assert(f(last) is Ok);
            assert(vs == prev.push(f(last)->Ok_0));
            assert forall|i: int| 0 <= i < rows.len() implies #[trigger] f(rows[i]) == Ok::<
                V,
                MalformedRow,
            >(vs[i]) by {
                if i < init.len() {
                    assert(init[i] == rows[i]);
                    assert(f(init[i]) == Ok::<V, MalformedRow>(prev[i]));
                }
            }
        }
        if forall|i: int| 0 <= i < rows.len() ==> (#[trigger] f(rows[i])) is Ok {
            assert forall|i: int| 0 <= i < init.len() implies (#[trigger] f(init[i])) is Ok by {
                assert(init[i] == rows[i]);
                assert(f(rows[i]) is Ok);
            }
            assert(f(last) is Ok);
        }
    }
}

/// Without the relation field among the requested event fields, the statement
/// does not read the series table and no resolved event belongs to a series.
pub proof fn lemma_no_relation_no_join(fields: Seq<Selection>, rows: Seq<Seq<Value>>)
    requires
        !requests(fields, RELATION_FIELD@),
    ensures
        !event_plan_for(fields).reads_series(),
        map_rows(rows, event_of_row(event_plan_for(fields))) matches Ok(es) ==> forall|i: int|
            0 <= i < es.len() ==> (#[trigger] es[i]).part_of is None,
{
    let f = event_of_row(event_plan_for(fields));
    lemma_map_rows_ok(rows, f);
    if map_rows(rows, f) is Ok {
        let es = map_rows(rows, f)->Ok_0;
        assert forall|i: int| 0 <= i < es.len() implies (#[trigger] es[i]).part_of is None by {
            assert(f(rows[i]) == Ok::<EventView, MalformedRow>(es[i]));
        }
    }
}

/// With the relation field among the requested event fields, the statement
/// joins the series table; an event whose foreign key is null belongs to no
/// series, and one whose key is present carries the whole series of that key.
pub proof fn lemma_relation_joined(fields: Seq<Selection>, rows: Seq<Seq<Value>>)
    requires
        requests(fields, RELATION_FIELD@),
    ensures
        event_plan_for(fields).reads_series(),
        map_rows(rows, event_of_row(event_plan_for(fields))) matches Ok(es) ==> forall|i: int|
            0 <= i < es.len() ==> {
                &&& rows[i][2] is Null ==> (#[trigger] es[i]).part_of is None
                &&& int_at(rows[i], 2) matches Some(k) ==> es[i].part_of matches Some(s) && s.id
                    == k && series_at(rows[i], 3) == Ok::<SeriesView, MalformedRow>(s)
            },
{
    let f = event_of_row(event_plan_for(fields));
    lemma_map_rows_ok(rows, f);
    if map_rows(rows, f) is Ok {
        let es = map_rows(rows, f)->Ok_0;
        assert forall|i: int| 0 <= i < es.len() implies {
            &&& rows[i][2] is Null ==> (#[trigger] es[i]).part_of is None
            &&& int_at(rows[i], 2) matches Some(k) ==> es[i].part_of matches Some(s) && s.id == k
                && series_at(rows[i], 3) == Ok::<SeriesView, MalformedRow>(s)
        } by {
            assert(f(rows[i]) == Ok::<EventView, MalformedRow>(es[i]));
        }
    }
}

/// Two fetches of the same stored series, in whatever order the store hands
/// the rows back, resolve alike: both succeed or both fail, and on success
/// they hold the same series.
pub proof fn lemma_series_idempotent(rows1: Seq<Seq<Value>>, rows2: Seq<Seq<Value>>)
    requires
        rows1.to_set() == rows2.to_set(),
    ensures
        map_rows(rows1, series_of_row()) is Ok <==> map_rows(rows2, series_of_row()) is Ok,
        map_rows(rows1, series_of_row()) matches Ok(a) ==> map_rows(rows2, series_of_row()) matches Ok(b)
            && a.to_set() == b.to_set(),
{
    let f = series_of_row();
    lemma_map_rows_ok(rows1, f);
    lemma_map_rows_ok(rows2, f);
    assert forall|i: int| #![trigger rows1[i]] 0 <= i < rows1.len() implies exists|j: int|
        #![trigger rows2[j]] 0 <= j < rows2.len() && rows2[j] == rows1[i] by {
        assert(rows1.to_set().contains(rows1[i]));
        assert(rows2.to_set().contains(rows1[i]));
    }
    assert forall|j: int| #![trigger rows2[j]] 0 <= j < rows2.len() implies exists|i: int|
        #![trigger rows1[i]] 0 <= i < rows1.len() && rows1[i] == rows2[j] by {
        assert(rows2.to_set().contains(rows2[j]));
        assert(rows1.to_set().contains(rows2[j]));
    }
    if map_rows(rows1, f) is Ok && map_rows(rows2, f) is Ok {
        let a = map_rows(rows1, f)->Ok_0;
        let b = map_rows(rows2, f)->Ok_0;
        assert forall|x: SeriesView| a.to_set().contains(x) implies b.to_set().contains(x) by {
            let i = choose|i: int| 0 <= i < a.len() && a[i] == x;
            let j = choose|j: int| 0 <= j < rows2.len() && rows2[j] == rows1[i];
            assert(f(rows1[i]) == Ok::<SeriesView, MalformedRow>(a[i]));
            assert(f(rows2[j]) == Ok::<SeriesView, MalformedRow>(b[j]));
            assert(b[j] == x);
        }
        assert forall|x: SeriesView| b.to_set().contains(x) implies a.to_set().contains(x) by {
            let j = choose|j: int| 0 <= j < b.len() && b[j] == x;
            let i = choose|i: int| 0 <= i < rows1.len() && rows1[i] == rows2[j];
            assert(f(rows1[i]) == Ok::<SeriesView, MalformedRow>(a[i]));
            assert(f(rows2[j]) == Ok::<SeriesView, MalformedRow>(b[j]));
            assert(a[i] == x);
        }
        assert(a.to_set() =~= b.to_set());
    }
    if map_rows(rows1, f) is Ok {
        assert forall|j: int| 0 <= j < rows2.len() implies (#[trigger] f(rows2[j])) is Ok by {
            let i = choose|i: int| 0 <= i < rows1.len() && rows1[i] == rows2[j];
            assert(f(rows1[i]) is Ok);
        }
    }
    if map_rows(rows2, f) is Ok {
        assert forall|i: int| 0 <= i < rows1.len() implies (#[trigger] f(rows1[i])) is Ok by {
            let j = choose|j: int| 0 <= j < rows2.len() && rows2[j] == rows1[i];
            assert(f(rows2[j]) is Ok);
        }
    }
}

} // verus!
