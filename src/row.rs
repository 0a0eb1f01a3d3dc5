use vstd::prelude::*;

verus! {

/// One column value of a result row, as the store hands it over.
#[derive(Clone, Debug)]
pub enum Cell {
    Null,
    Int(i32),
    Text(String),
    /// A value of a kind that no entity column holds.
    Other,
}

/// The mathematical value of a column.
pub ghost enum Value {
    Null,
    Int(i32),
    Text(Seq<char>),
    Other,
}

impl View for Cell {
    type V = Value;

    open spec fn view(&self) -> Value {
        match self {
            Cell::Null => Value::Null,
            Cell::Int(n) => Value::Int(*n),
            Cell::Text(t) => Value::Text(t@),
            Cell::Other => Value::Other,
        }
    }
}

/// A result row whose columns are addressed by their position.
#[derive(Clone, Debug)]
pub struct Row {
    pub cells: Vec<Cell>,
}

impl View for Row {
    type V = Seq<Value>;

    open spec fn view(&self) -> Seq<Value> {
        self.cells@.map_values(|c: Cell| c@)
    }
}

/// A row's column at `column` does not hold a value of the expected kind
/// (or the row is too short to have that column).
#[derive(Clone, Copy, Debug, PartialEq, Eq, Structural)]
pub struct MalformedRow {
    pub column: usize,
}

/// A series of events.
#[derive(Clone, Debug)]
pub struct Series {
    pub id: i32,
    pub name: String,
    pub description: Option<String>,
}

pub ghost struct SeriesView {
    pub id: i32,
    pub name: Seq<char>,
    pub description: Option<Seq<char>>,
}

impl View for Series {
    type V = SeriesView;

    open spec fn view(&self) -> SeriesView {
        SeriesView {
            id: self.id,
            name: self.name@,
            description: match self.description {
                Some(d) => Some(d@),
                None => None,
            },
        }
    }
}

/// An event, which belongs to at most one series.
#[derive(Clone, Debug)]
pub struct Event {
    pub id: i32,
    pub title: String,
    pub part_of: Option<Series>,
}

pub ghost struct EventView {
    pub id: i32,
    pub title: Seq<char>,
    pub part_of: Option<SeriesView>,
}

impl View for Event {
    type V = EventView;

    open spec fn view(&self) -> EventView {
        EventView {
            id: self.id,
            title: self.title@,
            part_of: match self.part_of {
                Some(s) => Some(s@),
                None => None,
            },
        }
    }
}

/// Number of columns that a series occupies in a row.
pub const SERIES_WIDTH: usize = 3;

/// Column of the event's identifier.
pub const EVENT_ID_COLUMN: usize = 0;

/// Column of the event's title.
pub const EVENT_TITLE_COLUMN: usize = 1;

/// Column of the event's foreign key into the series table (joined layout only).
pub const EVENT_PART_OF_COLUMN: usize = 2;

/// First column of the joined series (joined layout only).
pub const EVENT_SERIES_COLUMN: usize = 3;

/// The integer at column `i`, if that column exists and holds one.
pub open spec fn int_at(r: Seq<Value>, i: int) -> Option<i32> {
    if 0 <= i < r.len() {
        match r[i] {
            Value::Int(n) => Some(n),
            _ => None,
        }
    } else {
        None
    }
}

/// The text at column `i`, if that column exists and holds text.
pub open spec fn text_at(r: Seq<Value>, i: int) -> Option<Seq<char>> {
    if 0 <= i < r.len() {
        match r[i] {
            Value::Text(t) => Some(t),
            _ => None,
        }
    } else {
        None
    }
}

/// Whether column `i` exists and holds text or null.
pub open spec fn nullable_text_ok(r: Seq<Value>, i: int) -> bool {
    0 <= i < r.len() && (r[i] is Null || r[i] is Text)
}

/// The nullable text at column `i` (meaningful where `nullable_text_ok` holds).
pub open spec fn nullable_text_at(r: Seq<Value>, i: int) -> Option<Seq<char>> {
    match r[i] {
        Value::Text(t) => Some(t),
        _ => None,
    }
}

/// The series held by the three columns from `off` on (id, name, description),
/// or the first of them that has the wrong kind.
pub open spec fn series_at(r: Seq<Value>, off: int) -> Result<SeriesView, MalformedRow> {
    if int_at(r, off) is None {
        Err(MalformedRow { column: off as usize })
    } else if text_at(r, off + 1) is None {
        Err(MalformedRow { column: (off + 1) as usize })
    } else if !nullable_text_ok(r, off + 2) {
        Err(MalformedRow { column: (off + 2) as usize })
    } else {
        Ok(
            SeriesView {
                id: int_at(r, off)->Some_0,
                name: text_at(r, off + 1)->Some_0,
                description: nullable_text_at(r, off + 2),
            },
        )
    }
}

/// The event held by a row. Without the relation, only the identifier and the
/// title are read and the event belongs to no series. With it, a null foreign
/// key means no series; a present one must be matched by the joined series.
pub open spec fn event_at(r: Seq<Value>, include_relation: bool) -> Result<
    EventView,
    MalformedRow,
> {
    if int_at(r, 0) is None {
        Err(MalformedRow { column: 0 })
    } else if text_at(r, 1) is None {
        Err(MalformedRow { column: 1 })
    } else if !include_relation {
        Ok(EventView { id: int_at(r, 0)->Some_0, title: text_at(r, 1)->Some_0, part_of: None })
    } else if 2 < r.len() && r[2] is Null {
        Ok(EventView { id: int_at(r, 0)->Some_0, title: text_at(r, 1)->Some_0, part_of: None })
    } else if int_at(r, 2) is None {
        Err(MalformedRow { column: 2 })
    } else {
        match series_at(r, 3) {
            Err(e) => Err(e),
            Ok(s) => if s.id == int_at(r, 2)->Some_0 {
                Ok(
                    EventView {
                        id: int_at(r, 0)->Some_0,
                        title: text_at(r, 1)->Some_0,
                        part_of: Some(s),
                    },
                )
            } else {
                Err(MalformedRow { column: 3 })
            },
        }
    }
}

/// The event of a row that carries its identifier alone; the title is left empty.
pub open spec fn event_id_at(r: Seq<Value>) -> Result<EventView, MalformedRow> {
    if int_at(r, 0) is None {
        Err(MalformedRow { column: 0 })
    } else {
        Ok(EventView { id: int_at(r, 0)->Some_0, title: Seq::empty(), part_of: None })
    }
}

/// A mapping result seen through the view of its success value.
pub open spec fn viewed<T: View>(r: Result<T, MalformedRow>) -> Result<T::V, MalformedRow> {
    match r {
        Ok(v) => Ok(v@),
        Err(e) => Err(e),
    }
}

fn int_cell(row: &Row, i: usize) -> (r: Result<i32, MalformedRow>)
    ensures
        match r {
            Ok(n) => int_at(row@, i as int) == Some(n),
            Err(e) => int_at(row@, i as int) is None && e.column == i,
        },
{
    if i < row.cells.len() {
        match &row.cells[i] {
            Cell::Int(n) => Ok(*n),
            _ => Err(MalformedRow { column: i }),
        }
    } else {
        Err(MalformedRow { column: i })
    }
}

fn text_cell(row: &Row, i: usize) -> (r: Result<String, MalformedRow>)
    ensures
        match r {
            Ok(t) => text_at(row@, i as int) == Some(t@),
            Err(e) => text_at(row@, i as int) is None && e.column == i,
        },
{
    if i < row.cells.len() {
        match &row.cells[i] {
            Cell::Text(t) => Ok(t.clone()),
            _ => Err(MalformedRow { column: i }),
        }
    } else {
        Err(MalformedRow { column: i })
    }
}

fn nullable_text_cell(row: &Row, i: usize) -> (r: Result<Option<String>, MalformedRow>)
    ensures
        match r {
            Ok(t) => nullable_text_ok(row@, i as int) && nullable_text_at(row@, i as int) == (
            match t {
                Some(s) => Some(s@),
                None => None,
            }),
            Err(e) => !nullable_text_ok(row@, i as int) && e.column == i,
        },
{
    if i < row.cells.len() {
        match &row.cells[i] {
            Cell::Null => Ok(None),
            Cell::Text(t) => Ok(Some(t.clone())),
            _ => Err(MalformedRow { column: i }),
        }
    } else {
        Err(MalformedRow { column: i })
    }
}

impl Series {
    /// Reads a series from the three columns of `row` that start at `offset`.
    pub fn from_row_with_offset(row: &Row, offset: usize) -> (r: Result<Series, MalformedRow>)
        requires
            offset + SERIES_WIDTH <= usize::MAX,
        ensures
            viewed(r) == series_at(row@, offset as int),
    {
        let id = match int_cell(row, offset) {
            Ok(n) => n,
            Err(e) => return Err(e),
        };
        let name = match text_cell(row, offset + 1) {
            Ok(t) => t,
            Err(e) => return Err(e),
        };
        let description = match nullable_text_cell(row, offset + 2) {
            Ok(t) => t,
            Err(e) => return Err(e),
        };
        Ok(Series { id, name, description })
    }

    /// Reads a series from a row of the series table.
    pub fn from_row(row: &Row) -> (r: Result<Series, MalformedRow>)
        ensures
            viewed(r) == series_at(row@, 0),
    {
        Series::from_row_with_offset(row, 0)
    }
}

impl Event {
    /// Reads an event from `row`; the related series is read from the same row
    /// only when `include_relation` holds.
    pub fn from_row_including(row: &Row, include_relation: bool) -> (r: Result<Event, MalformedRow>)
        ensures
            viewed(r) == event_at(row@, include_relation),
    {
        let id = match int_cell(row, EVENT_ID_COLUMN) {
            Ok(n) => n,
            Err(e) => return Err(e),
        };
        let title = match text_cell(row, EVENT_TITLE_COLUMN) {
            Ok(t) => t,
            Err(e) => return Err(e),
        };
        if !include_relation {
            return Ok(Event { id, title, part_of: None });
        }
        if EVENT_PART_OF_COLUMN < row.cells.len() {
            if let Cell::Null = &row.cells[EVENT_PART_OF_COLUMN] {
                return Ok(Event { id, title, part_of: None });
            }
        }
        let key = match int_cell(row, EVENT_PART_OF_COLUMN) {
            Ok(n) => n,
            Err(e) => return Err(e),
        };
        let series = match Series::from_row_with_offset(row, EVENT_SERIES_COLUMN) {
            Ok(s) => s,
            Err(e) => return Err(e),
        };
        if series.id != key {
            return Err(MalformedRow { column: EVENT_SERIES_COLUMN });
        }
        Ok(Event { id, title, part_of: Some(series) })
    }

    /// Reads an event from a row that holds the event's columns alone.
    pub fn from_row(row: &Row) -> (r: Result<Event, MalformedRow>)
        ensures
            viewed(r) == event_at(row@, false),
    {
        Event::from_row_including(row, false)
    }

    /// Reads an event, with the series it belongs to, from a joined row.
    pub fn from_row_with_series(row: &Row) -> (r: Result<Event, MalformedRow>)
        ensures
            viewed(r) == event_at(row@, true),
    {
        Event::from_row_including(row, true)
    }

    /// Reads an event from a row that holds its identifier alone.
    pub fn from_id_row(row: &Row) -> (r: Result<Event, MalformedRow>)
        ensures
            viewed(r) == event_id_at(row@),
    {
        match int_cell(row, EVENT_ID_COLUMN) {
            Ok(id) => Ok(Event { id, title: String::new(), part_of: None }),
            Err(e) => Err(e),
        }
    }
}

/// The column of a nullable text.
pub open spec fn nullable_text_value(t: Option<Seq<char>>) -> Value {
    match t {
        Some(t) => Value::Text(t),
        None => Value::Null,
    }
}

/// The columns of a series row: id, name, description.
pub open spec fn series_row(s: SeriesView) -> Seq<Value> {
    seq![Value::Int(s.id), Value::Text(s.name), nullable_text_value(s.description)]
}

/// The columns of an event row without the relation: id, title.
pub open spec fn event_base_row(id: i32, title: Seq<char>) -> Seq<Value> {
    seq![Value::Int(id), Value::Text(title)]
}

/// The columns of an event row joined with its series: id, title, foreign key,
/// then the series' columns, all null where the event belongs to no series.
pub open spec fn event_joined_row(e: EventView) -> Seq<Value> {
    match e.part_of {
        Some(s) => event_base_row(e.id, e.title).push(Value::Int(s.id)) + series_row(s),
        None => event_base_row(e.id, e.title) + seq![Value::Null, Value::Null, Value::Null, Value::Null],
    }
}

/// Reading a series back from the columns that it was written to gives it unchanged.
pub proof fn lemma_series_round_trip(s: SeriesView)
    ensures
        series_at(series_row(s), 0) == Ok::<SeriesView, MalformedRow>(s),
{
}

/// Reading an event back from its joined row gives the same identifier, title
/// and series (or none), whatever columns follow.
pub proof fn lemma_event_joined_round_trip(e: EventView, rest: Seq<Value>)
    ensures
        event_at(event_joined_row(e) + rest, true) == Ok::<EventView, MalformedRow>(e),
{
    let r = event_joined_row(e) + rest;
    match e.part_of {
        Some(s) => {
            assert(r[3] == Value::Int(s.id));
            assert(r[4] == Value::Text(s.name));
            assert(r[5] == nullable_text_value(s.description));
        },
        None => {
            assert(r[2] == Value::Null);
        },
    }
}

/// Reading an event from its columns without the relation gives its identifier
/// and title, and no series.
pub proof fn lemma_event_base_round_trip(id: i32, title: Seq<char>, rest: Seq<Value>)
    ensures
        event_at(event_base_row(id, title) + rest, false) == Ok::<EventView, MalformedRow>(
            EventView { id, title, part_of: None },
        ),
{
    let r = event_base_row(id, title) + rest;
    assert(r[0] == Value::Int(id));
    assert(r[1] == Value::Text(title));
}

} // verus!
