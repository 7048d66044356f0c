//! Reading back the rows of a Flight's database: the stored texts and
//! numbers become Flights and Rachises, or the reason they cannot. Running
//! the queries happens outside the library.

use vstd::prelude::*;
use crate::registry::lemma_filter_take_step;
use crate::ids::{parse_id_explained, uuid_parse, uuid_parse_str_error};
use crate::text::str_to_lowercase;
use crate::time::{seconds_representable, timestamp_from_secs, Timestamp};
use crate::z_domain::{rachis_type_named, Flight, Rachis, RachisType};

verus! {

/// Why a stored row could not be read back.
#[derive(Debug, PartialEq, Eq)]
pub enum RowError {
    /// An id is not a UUID; the `uuid` crate's message.
    BadId(String),
    /// A stored value is not one the row can hold; which one.
    InvalidParameterName(String),
}

/// Reads a stored id.
fn row_id(text: &str) -> (r: Result<u128, RowError>)
    ensures
        match uuid_parse(text@) {
            Some(v) => r == Ok::<u128, RowError>(v),
            None => r matches Err(RowError::BadId(m)) && m@ == uuid_parse_str_error(text@),
        },
{
    match parse_id_explained(text) {
        Ok(v) => Ok(v),
        Err(m) => Err(RowError::BadId(m)),
    }
}

/// Reads a stored time, in whole seconds; `what` names it in the error.
fn row_time(secs: i64, what: &str) -> (r: Result<Timestamp, RowError>)
    ensures
        seconds_representable(secs) ==> r == Ok::<Timestamp, RowError>(Timestamp { secs, nanos: 0 }),
        !seconds_representable(secs) ==> (r matches Err(RowError::InvalidParameterName(m)) && m@ == what@),
{
    match timestamp_from_secs(secs) {
        Some(t) => Ok(t),
        None => Err(RowError::InvalidParameterName(what.to_owned())),
    }
}

/// What reading back a Flight row gives: its id must be a UUID and its two
/// times representable, checked in that order.
pub open spec fn flight_row_outcome(id: Seq<char>, created_at: i64, updated_at: i64) -> Option<Seq<char>> {
    if uuid_parse(id) is None {
        Some(uuid_parse_str_error(id))
    } else if !seconds_representable(created_at) {
        Some("Invalid created_at timestamp"@)
    } else if !seconds_representable(updated_at) {
        Some("Invalid updated_at timestamp"@)
    } else {
        None
    }
}

/// The Flight that a stored row describes. A stored Flight is not a favourite.
pub fn flight_from_row(id: &str, name: String, created_at: i64, updated_at: i64) -> (r: Result<Flight, RowError>)
    ensures
        uuid_parse(id@) is None ==> (r matches Err(RowError::BadId(m)) && m@ == uuid_parse_str_error(id@)),
        uuid_parse(id@) is Some ==> match flight_row_outcome(id@, created_at, updated_at) {
            Some(m) => r matches Err(RowError::InvalidParameterName(e)) && e@ == m,
            None => r matches Ok(f) && f.id == uuid_parse(id@)->0 && f.name@ == name@ && f.created_at == (
            Timestamp { secs: created_at, nanos: 0 }) && f.updated_at == (Timestamp { secs: updated_at, nanos: 0 })
                && !f.is_favorite,
        },
{
    let id: u128 = match row_id(id) {
        Ok(v) => v,
        Err(e) => {
            return Err(e);
        },
    };
    let created: Timestamp = match row_time(created_at, "Invalid created_at timestamp") {
        Ok(t) => t,
        Err(e) => {
            return Err(e);
        },
    };
    let updated: Timestamp = match row_time(updated_at, "Invalid updated_at timestamp") {
        Ok(t) => t,
        Err(e) => {
            return Err(e);
        },
    };
    Ok(Flight { id, name, created_at: created, updated_at: updated, is_favorite: false })
}

/// The Rachis that a stored row describes. Its ids must be UUIDs, its type
/// text must name a type, and its two times must be representable, checked in
/// that order; the word count is cast to the machine's size.
pub fn rachis_from_row(
    id: &str,
    flight_id: &str,
    title: String,
    content: String,
    type_text: &str,
    path: String,
    created_at: i64,
    updated_at: i64,
    word_count: i64,
) -> (r: Result<Rachis, RowError>)
    ensures
        uuid_parse(id@) is None ==> (r matches Err(RowError::BadId(m)) && m@ == uuid_parse_str_error(id@)),
        uuid_parse(id@) is Some && uuid_parse(flight_id@) is None ==> (r matches Err(RowError::BadId(m)) && m@
            == uuid_parse_str_error(flight_id@)),
        uuid_parse(id@) is Some && uuid_parse(flight_id@) is Some && rachis_type_named(
            str_to_lowercase(type_text@),
        ) is None ==> (r matches Err(RowError::InvalidParameterName(m)) && m@ == "Invalid RachisType"@),
        uuid_parse(id@) is Some && uuid_parse(flight_id@) is Some && rachis_type_named(
            str_to_lowercase(type_text@),
        ) is Some ==> match flight_row_outcome(id@, created_at, updated_at) {
            Some(m) => r matches Err(RowError::InvalidParameterName(e)) && e@ == m,
            None => r matches Ok(x) && x.id == uuid_parse(id@)->0 && x.flight_id == uuid_parse(flight_id@)->0
                && x.title@ == title@ && x.content@ == content@ && x.rachis_type == rachis_type_named(
                str_to_lowercase(type_text@),
            )->0 && x.path@ == path@ && x.created_at == (Timestamp { secs: created_at, nanos: 0 })
                && x.updated_at == (Timestamp { secs: updated_at, nanos: 0 }) && x.word_count
                == word_count as usize,
        },
{
    let id: u128 = match row_id(id) {
        Ok(v) => v,
        Err(e) => {
            return Err(e);
        },
    };
    let fid: u128 = match row_id(flight_id) {
        Ok(v) => v,
        Err(e) => {
            return Err(e);
        },
    };
    let rachis_type: RachisType = match RachisType::from_str(type_text) {
        Ok(t) => t,
        Err(_) => {
            return Err(RowError::InvalidParameterName(String::from_str("Invalid RachisType")));
        },
    };
    let created: Timestamp = match row_time(created_at, "Invalid created_at timestamp") {
        Ok(t) => t,
        Err(e) => {
            return Err(e);
        },
    };
    let updated: Timestamp = match row_time(updated_at, "Invalid updated_at timestamp") {
        Ok(t) => t,
        Err(e) => {
            return Err(e);
        },
    };
    #[verifier::truncate]
    let count: usize = word_count as usize;
    Ok(
        Rachis {
            id,
            flight_id: fid,
            title,
            content,
            rachis_type,
            path,
            created_at: created,
            updated_at: updated,
            word_count: count,
        },
    )
}

/// Rachises of the type `k`.
pub open spec fn of_type(k: RachisType) -> spec_fn(Rachis) -> bool {
    |x: Rachis| x.rachis_type == k
}

/// The Rachises of `rachises` of the type `t`, in order; all of them when
/// no type is given.
pub fn rachises_of_type(rachises: Vec<Rachis>, t: Option<RachisType>) -> (r: Vec<Rachis>)
    ensures
        t is None ==> r@ == rachises@,
        t matches Some(k) ==> r@ == rachises@.filter(of_type(k)),
{
    match t {
        None => rachises,
        Some(k) => {
            let ghost s = rachises@;
            let ghost p = of_type(k);
            let mut kept: Vec<Rachis> = Vec::new();
            let mut rest: Vec<Rachis> = rachises;
            let n: usize = rest.len();
            let mut i: usize = 0;
            while rest.len() > 0
                invariant
                    rest@.len() + i == n,
                    n == s.len(),
                    rest@ == s.skip(i as int),
                    p == of_type(k),
                    kept@ == s.take(i as int).filter(p),
                decreases rest@.len(),
            {
                let x: Rachis = rest.remove(0);
                proof {
                    lemma_filter_take_step(s, p, i as int);
                    assert(rest@ =~= s.skip(i + 1));
                }
                if x.rachis_type == k {
                    kept.push(x);
                }
                i = i + 1;
            }
            assert(s.take(n as int) =~= s);
            kept
        },
    }
}

} // verus!
