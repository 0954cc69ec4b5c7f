use vstd::prelude::*;
use crate::order::{is_desc, lemma_sort_desc, order_by_last_seen, sort_desc};
use crate::record::AddrRecord;
use crate::sql::{error_text, execute_script, execute_statement, open_connection, query_integer, query_text_rows};
use crate::timestamp::{db_text, from_db_text, parse_db_text, storable_year, to_db_text, Timestamp};

verus! {

/// Counts the tables named `addrs`: tells whether the schema is present.
pub const TABLE_PROBE_SQL: &'static str = "SELECT COUNT(*) FROM sqlite_master WHERE type = 'table' AND name = 'addrs'";

/// Writes one record, replacing the one stored for the same IP.
pub const UPSERT_SQL: &'static str = "INSERT OR REPLACE INTO addrs (ip, mac, last_seen) VALUES (?1, ?2, ?3)";

/// Reads every stored record.
pub const SELECT_ALL_SQL: &'static str = "SELECT ip, mac, last_seen FROM addrs";

/// Removes every stored record.
pub const DELETE_ALL_SQL: &'static str = "DELETE FROM addrs";

/// Why an operation on the address store failed.
#[derive(Clone, Debug)]
pub enum StoreError {
    /// The backing file could not be opened.
    Open(String),
    /// The schema could not be probed.
    Probe(String),
    /// The store needs its schema but no seed content was available.
    SeedUnavailable,
    /// Applying the seed content failed.
    SeedFailed(String),
    /// The seed content ran, yet the schema is still missing.
    SeedIneffective,
    /// A record could not be written.
    Persist(String),
    /// The records could not be read.
    Query(String),
    /// The stored row at this position holds a `last_seen` that is not in the stored layout.
    BadTimestamp(usize),
    /// The record's timestamp is no valid date and time, or its year does not fit the stored layout.
    UnstorableTimestamp,
}

/// What opening the store has to do about its schema.
#[derive(Clone, Copy, Debug, PartialEq, Eq, Structural)]
pub enum SeedPlan {
    /// The schema is present: the seed is not applied again.
    Ready,
    /// The schema is missing and seed content is at hand: apply it.
    Apply,
    /// The schema is missing and no seed content is at hand.
    Unavailable,
}

/// The seed decision, from whether the schema is present and whether seed content is at hand.
pub open spec fn seed_plan_spec(seeded: bool, seed_available: bool) -> SeedPlan {
    if seeded {
        SeedPlan::Ready
    } else if seed_available {
        SeedPlan::Apply
    } else {
        SeedPlan::Unavailable
    }
}

/// Decides what opening the store has to do about its schema.
pub fn seed_plan(seeded: bool, seed_available: bool) -> (r: SeedPlan)
    ensures
        r == seed_plan_spec(seeded, seed_available),
{
    if seeded {
        SeedPlan::Ready
    } else if seed_available {
        SeedPlan::Apply
    } else {
        SeedPlan::Unavailable
    }
}

/// A store whose schema is present is never seeded again, whatever seed content is at hand.
pub proof fn lemma_seeded_store_not_reseeded(seed_available: bool)
    ensures
        seed_plan_spec(true, seed_available) == SeedPlan::Ready,
{
}

/// Whether a record's timestamp can be written in the stored layout.
pub open spec fn storable(r: AddrRecord) -> bool {
    r.last_seen.wf() && storable_year(r.last_seen.year as int)
}

/// The parameters of the upsert statement for a record: IP, MAC and the
/// stored text of its timestamp, where that text exists.
pub fn row_values(r: &AddrRecord) -> (v: Option<Vec<String>>)
    ensures
        v is Some <==> storable(*r),
        v matches Some(p) ==> p@.len() == 3 && p@[0]@ == r.ip@ && p@[1]@ == r.mac@
            && p@[2]@ == db_text(r.last_seen),
{
    if !r.last_seen.is_valid() || r.last_seen.year < 0 || r.last_seen.year > 9999 {
        return None;
    }
    let mut v: Vec<String> = Vec::new();
    v.push(r.ip.clone());
    v.push(r.mac.clone());
    v.push(to_db_text(&r.last_seen));
    Some(v)
}

/// The record that a stored row spells: its IP, its MAC and its timestamp text.
pub open spec fn row_record(ip: Seq<char>, mac: Seq<char>, seen: Seq<char>) -> Option<(Seq<char>, Seq<char>, Timestamp)> {
    match parse_db_text(seen) {
        Some(t) => Some((ip, mac, t)),
        None => None,
    }
}

/// Reads stored rows of (IP, MAC, timestamp text) into records, in row order;
/// fails with the position of the first row whose timestamp is unreadable.
pub fn records_from_rows(rows: Vec<(String, String, String)>) -> (r: Result<Vec<AddrRecord>, usize>)
    ensures
        r matches Ok(v) ==> v@.len() == rows@.len() && forall|i: int| 0 <= i < rows@.len() ==> {
            &&& (#[trigger] v@[i]).ip@ == rows@[i].0@
            &&& v@[i].mac@ == rows@[i].1@
            &&& parse_db_text(rows@[i].2@) == Some(v@[i].last_seen)
        },
        r matches Err(k) ==> k < rows@.len() && parse_db_text(rows@[k as int].2@) is None
            && forall|i: int| 0 <= i < k ==> parse_db_text((#[trigger] rows@[i]).2@) is Some,
{
    let mut out: Vec<AddrRecord> = Vec::new();
    let mut i: usize = 0;
    while i < rows.len()
        invariant
            i <= rows@.len(),
            out@.len() == i,
            forall|j: int| 0 <= j < i ==> {
                &&& (#[trigger] out@[j]).ip@ == rows@[j].0@
                &&& out@[j].mac@ == rows@[j].1@
                &&& parse_db_text(rows@[j].2@) == Some(out@[j].last_seen)
            },
        decreases rows@.len() - i,
    {
        let row = &rows[i];
        match from_db_text(row.2.as_str()) {
            Some(t) => {
                out.push(AddrRecord { ip: row.0.clone(), mac: row.1.clone(), last_seen: t });
            },
            None => {
                assert forall|j: int| 0 <= j < i implies parse_db_text((#[trigger] rows@[j]).2@) is Some by {
                    assert(parse_db_text(rows@[j].2@) == Some(out@[j].last_seen));
                }
                return Err(i);
            },
        }
        i = i + 1;
    }
    Ok(out)
}

/// The meaning of the schema probe's answer: a positive count of tables means
/// the schema is present; a failed probe is an error, never a "no".
pub open spec fn probe_outcome_spec(count: Result<i64, String>) -> Result<bool, StoreError> {
    match count {
        Ok(n) => Ok(n > 0),
        Err(m) => Err(StoreError::Probe(m)),
    }
}

/// Reads the schema probe's answer.
pub fn probe_outcome(count: Result<i64, String>) -> (r: Result<bool, StoreError>)
    ensures
        r == probe_outcome_spec(count),
{
    match count {
        Ok(n) => Ok(n > 0),
        Err(m) => Err(StoreError::Probe(m)),
    }
}

/// The outcome of seeding, from the probe made after the seed ran: the table
/// must now exist; a seed that ran but left no table is an error.
pub open spec fn seed_outcome_spec(probe: Result<bool, StoreError>) -> Result<(), StoreError> {
    match probe {
        Ok(true) => Ok(()),
        Ok(false) => Err(StoreError::SeedIneffective),
        Err(e) => Err(e),
    }
}

/// Decides the outcome of seeding from the probe made after the seed ran.
pub fn seed_outcome(probe: Result<bool, StoreError>) -> (r: Result<(), StoreError>)
    ensures
        r == seed_outcome_spec(probe),
{
    match probe {
        Ok(true) => Ok(()),
        Ok(false) => Err(StoreError::SeedIneffective),
        Err(e) => Err(e),
    }
}

/// Whether `records` are the stored rows read one for one: same IP, same MAC,
/// and the timestamp that the row's text spells.
pub open spec fn rows_parse_to(rows: Seq<(String, String, String)>, records: Seq<AddrRecord>) -> bool {
    &&& records.len() == rows.len()
    &&& forall|i: int| 0 <= i < rows.len() ==> {
        &&& (#[trigger] records[i]).ip@ == rows[i].0@
        &&& records[i].mac@ == rows[i].1@
        &&& parse_db_text(rows[i].2@) == Some(records[i].last_seen)
    }
}

/// Reads stored rows into records, most recently seen first; fails with the
/// position of the first row whose timestamp is unreadable.
pub fn rows_in_order(rows: Vec<(String, String, String)>) -> (r: Result<Vec<AddrRecord>, usize>)
    ensures
        r is Ok <==> forall|i: int| 0 <= i < rows@.len() ==> parse_db_text((#[trigger] rows@[i]).2@) is Some,
        r matches Ok(v) ==> exists|p: Seq<AddrRecord>| rows_parse_to(rows@, p) && v@ == sort_desc(p),
        r matches Ok(v) ==> is_desc(v@) && forall|i: int| 0 <= i < v@.len()
            ==> (#[trigger] v@[i]).last_seen.wf() && v@[i].last_seen.nanosecond == 0,
        r matches Err(k) ==> k < rows@.len() && parse_db_text(rows@[k as int].2@) is None
            && forall|i: int| 0 <= i < k ==> parse_db_text((#[trigger] rows@[i]).2@) is Some,
{
    let ghost rs = rows@;
    match records_from_rows(rows) {
        Ok(records) => {
            let sorted = order_by_last_seen(records);
            proof {
                broadcast use vstd::seq_lib::to_multiset_contains;
                assert(rows_parse_to(rs, records@));
                assert forall|i: int| 0 <= i < rs.len() implies parse_db_text((#[trigger] rs[i]).2@) is Some by {
                    assert(parse_db_text(rs[i].2@) == Some(records@[i].last_seen));
                }
                lemma_sort_desc(records@);
                assert forall|i: int| 0 <= i < sorted@.len() implies (#[trigger] sorted@[i]).last_seen.wf()
                    && sorted@[i].last_seen.nanosecond == 0 by {
                    assert(sorted@.contains(sorted@[i]));
                    assert(records@.to_multiset().count(sorted@[i]) > 0);
                    assert(records@.contains(sorted@[i]));
                    let k = choose|k: int| 0 <= k < records@.len() && records@[k] == sorted@[i];
                    assert(parse_db_text(rs[k].2@) == Some(records@[k].last_seen));
                }
            }
            Ok(sorted)
        },
        Err(k) => Err(k),
    }
}

/// The durable table of device records, keyed by IP.
pub struct Database {
    conn: rusqlite::Connection,
}

impl Database {
    /// Opens the backing file, creating it if absent. The schema is not touched.
    pub fn open(database_path: &str) -> (r: Result<Database, StoreError>)
        ensures
            r matches Err(e) ==> e is Open,
    {
        match open_connection(database_path) {
            Ok(conn) => Ok(Database { conn }),
            Err(e) => Err(StoreError::Open(error_text(&e))),
        }
    }

    /// Whether the table of records exists.
    pub fn is_seeded(&self) -> (r: Result<bool, StoreError>)
        ensures
            r matches Err(e) ==> e is Probe,
    {
        let count = match query_integer(&self.conn, TABLE_PROBE_SQL) {
            Ok(n) => Ok(n),
            Err(e) => Err(error_text(&e)),
        };
        probe_outcome(count)
    }

    /// Applies the seed statements, then probes that the table exists.
    pub fn seed(&self, schema_sql: &str) -> (r: Result<(), StoreError>)
        ensures
            r matches Err(e) ==> e is SeedFailed || e is SeedIneffective || e is Probe,
    {
        match execute_script(&self.conn, schema_sql) {
            Ok(()) => {},
            Err(e) => {
                return Err(StoreError::SeedFailed(error_text(&e)));
            },
        }
        seed_outcome(self.is_seeded())
    }

    /// Opens the store at `database_path`; where its schema is missing, applies
    /// `schema_sql`. A store that already holds its schema is never seeded again.
    pub fn new(database_path: &str, schema_sql: Option<&str>) -> (r: Result<Database, StoreError>)
        ensures
            r matches Err(e) ==> e is Open || e is Probe || e is SeedFailed || e is SeedIneffective
                || (e is SeedUnavailable && schema_sql is None),
    {
        let db = match Database::open(database_path) {
            Ok(db) => db,
            Err(e) => return Err(e),
        };
        let seeded = match db.is_seeded() {
            Ok(b) => b,
            Err(e) => return Err(e),
        };
        match seed_plan(seeded, schema_sql.is_some()) {
            SeedPlan::Ready => Ok(db),
            SeedPlan::Apply => {
                match schema_sql {
                    Some(sql) => match db.seed(sql) {
                        Ok(()) => Ok(db),
                        Err(e) => Err(e),
                    },
                    None => Err(StoreError::SeedUnavailable),
                }
            },
            SeedPlan::Unavailable => Err(StoreError::SeedUnavailable),
        }
    }

    /// Writes `addr_record`, replacing any record stored for its IP; the
    /// timestamp is stored at whole-second granularity.
    pub fn insert(&self, addr_record: AddrRecord) -> (r: Result<(), StoreError>)
        ensures
            !storable(addr_record) <==> r matches Err(StoreError::UnstorableTimestamp),
            r matches Err(e) ==> e is UnstorableTimestamp || e is Persist,
    {
        match row_values(&addr_record) {
            Some(params) => match execute_statement(&self.conn, UPSERT_SQL, &params) {
                Ok(_) => Ok(()),
                Err(e) => Err(StoreError::Persist(error_text(&e))),
            },
            None => Err(StoreError::UnstorableTimestamp),
        }
    }

    /// Upserts each observation in turn; a failed write does not stop the
    /// others. Returns the position and error of each failed write, in order.
    pub fn persist_all(&self, records: &Vec<AddrRecord>) -> (failures: Vec<(usize, StoreError)>)
        ensures
            forall|i: int, j: int| 0 <= i < j < failures@.len() ==> failures@[i].0 < failures@[j].0,
            forall|i: int| 0 <= i < failures@.len() ==> (#[trigger] failures@[i]).0 < records@.len()
                && (failures@[i].1 is UnstorableTimestamp <==> !storable(records@[failures@[i].0 as int])),
            forall|k: int| 0 <= k < records@.len() && !storable(#[trigger] records@[k])
                ==> exists|i: int| 0 <= i < failures@.len() && failures@[i].0 == k,
    {
        let mut failures: Vec<(usize, StoreError)> = Vec::new();
        let mut k: usize = 0;
        while k < records.len()
            invariant
                k <= records@.len(),
                forall|i: int, j: int| 0 <= i < j < failures@.len() ==> failures@[i].0 < failures@[j].0,
                forall|i: int| 0 <= i < failures@.len() ==> (#[trigger] failures@[i]).0 < k
                    && (failures@[i].1 is UnstorableTimestamp <==> !storable(records@[failures@[i].0 as int])),
                forall|m: int| 0 <= m < k && !storable(#[trigger] records@[m])
                    ==> exists|i: int| 0 <= i < failures@.len() && failures@[i].0 == m,
            decreases records@.len() - k,
        {
            let r = records[k].duplicate();
            let ghost before = failures@;
            match self.insert(r) {
                Ok(()) => {},
                Err(e) => {
                    failures.push((k, e));
                    assert(failures@[failures@.len() - 1].0 == k);
                    assert forall|m: int| 0 <= m < k && !storable(#[trigger] records@[m])
                        implies exists|i: int| 0 <= i < failures@.len() && failures@[i].0 == m by {
                        let i = choose|i: int| 0 <= i < before.len() && before[i].0 == m;
                        assert(failures@[i] == before[i]);
                    }
                },
            }
            k = k + 1;
        }
        failures
    }

    /// Every stored record, most recently seen first.
    pub fn get_all_records(&self) -> (r: Result<Vec<AddrRecord>, StoreError>)
        ensures
            r matches Ok(v) ==> exists|rows: Seq<(String, String, String)>, p: Seq<AddrRecord>|
                rows_parse_to(rows, p) && v@ == sort_desc(p),
            r matches Ok(v) ==> is_desc(v@) && forall|i: int| 0 <= i < v@.len()
                ==> (#[trigger] v@[i]).last_seen.wf() && v@[i].last_seen.nanosecond == 0,
            r matches Err(e) ==> e is Query || e is BadTimestamp,
    {
        let rows = match query_text_rows(&self.conn, SELECT_ALL_SQL) {
            Ok(rows) => rows,
            Err(e) => return Err(StoreError::Query(error_text(&e))),
        };
        match rows_in_order(rows) {
            Ok(v) => Ok(v),
            Err(k) => Err(StoreError::BadTimestamp(k)),
        }
    }

    /// Removes every stored record.
    pub fn clear_all(&self) -> (r: Result<(), StoreError>)
        ensures
            r matches Err(e) ==> e is Persist,
    {
        let params: Vec<String> = Vec::new();
        match execute_statement(&self.conn, DELETE_ALL_SQL, &params) {
            Ok(_) => Ok(()),
            Err(e) => Err(StoreError::Persist(error_text(&e))),
        }
    }
}

} // verus!
