use vstd::prelude::*;

verus! {

/// One requested field and the fields requested below it.
#[derive(Debug)]
pub struct Selection {
    pub name: String,
    pub children: Vec<Selection>,
}

/// Name of the event's relation field.
pub const RELATION_FIELD: &'static str = "partOf";

/// Name of the identifier field.
pub const ID_FIELD: &'static str = "id";

/// Name of the event's title field.
pub const TITLE_FIELD: &'static str = "title";

/// Statement that reads every series.
pub const SERIES_STATEMENT: &'static str = "select id, name, description from series";

/// Statement that reads the events' identifiers alone.
pub const EVENT_IDS_STATEMENT: &'static str = "select id from events";

/// Statement that reads the events' own columns.
pub const EVENT_BASE_STATEMENT: &'static str = "select id, title from events";

/// Statement that reads the events together with the series they belong to.
pub const EVENT_JOINED_STATEMENT: &'static str =
    "select events.id, events.title, events.part_of, series.id, series.name, series.description from events left join series on events.part_of = series.id";

/// How the events of one request are read and mapped.
#[derive(Clone, Copy, Debug, PartialEq, Eq, Structural)]
pub enum EventPlan {
    /// Identifiers only: the fallback when no known field was requested.
    IdsOnly,
    /// The events' own columns, no join; the relation is never read.
    Base,
    /// The events left-joined with their series, mapped with the relation.
    Joined,
}

/// Whether a field named `name` is among the requested fields.
pub open spec fn requests(fields: Seq<Selection>, name: Seq<char>) -> bool {
    exists|i: int| 0 <= i < fields.len() && #[trigger] fields[i].name@ == name
}

/// The plan for a set of requested event fields: the join exactly when the
/// relation is requested, else the event columns when any event field is
/// requested, else identifiers only.
pub open spec fn event_plan_for(fields: Seq<Selection>) -> EventPlan {
    if requests(fields, RELATION_FIELD@) {
        EventPlan::Joined
    } else if requests(fields, ID_FIELD@) || requests(fields, TITLE_FIELD@) {
        EventPlan::Base
    } else {
        EventPlan::IdsOnly
    }
}

impl EventPlan {
    /// Whether the plan's statement reads the series table.
    pub open spec fn reads_series(self) -> bool {
        self is Joined
    }

    pub open spec fn spec_statement(self) -> Seq<char> {
        match self {
            EventPlan::IdsOnly => EVENT_IDS_STATEMENT@,
            EventPlan::Base => EVENT_BASE_STATEMENT@,
            EventPlan::Joined => EVENT_JOINED_STATEMENT@,
        }
    }

    /// The statement text to run for this plan.
    pub fn statement(&self) -> (r: &'static str)
        ensures
            r@ == self.spec_statement(),
    {
        match self {
            EventPlan::IdsOnly => EVENT_IDS_STATEMENT,
            EventPlan::Base => EVENT_BASE_STATEMENT,
            EventPlan::Joined => EVENT_JOINED_STATEMENT,
        }
    }

    /// Whether rows of this plan carry the related series.
    pub fn include_relation(&self) -> (r: bool)
        ensures
            r == self.reads_series(),
    {
        match self {
            EventPlan::Joined => true,
            _ => false,
        }
    }
}

/// Whether some field of `fields` is named `name`.
fn has_field(fields: &Vec<Selection>, name: &str) -> (r: bool)
    ensures
        r == requests(fields@, name@),
{
    let wanted = String::from_str(name);
    let mut i: usize = 0;
    while i < fields.len()
        invariant
            i <= fields@.len(),
            wanted@ == name@,
            forall|j: int| 0 <= j < i ==> #[trigger] fields@[j].name@ != name@,
        decreases fields@.len() - i,
    {
        if fields[i].name == wanted {
            return true;
        }
        i = i + 1;
    }
    false
}

/// Plans the reading of series. Series have no relation, so every request
/// reads all of their columns with the same statement.
pub fn plan_series_query(_fields: &Vec<Selection>) -> (r: &'static str)
    ensures
        r@ == SERIES_STATEMENT@,
{
    SERIES_STATEMENT
}

/// Plans the reading of events from the requested event fields.
pub fn plan_event_query(fields: &Vec<Selection>) -> (r: EventPlan)
    ensures
        r == event_plan_for(fields@),
{
    if has_field(fields, RELATION_FIELD) {
        EventPlan::Joined
    } else if has_field(fields, ID_FIELD) || has_field(fields, TITLE_FIELD) {
        EventPlan::Base
    } else {
        EventPlan::IdsOnly
    }
}

} // verus!
