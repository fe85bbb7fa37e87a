//! Notification records and their derived time queries.
//!
//! A record is created once, with its expiry times fixed from the
//! creation time: the work phase ends `work_time` minutes after
//! creation, the break phase `break_time` minutes after that.  Times
//! are whole seconds since the Unix epoch.  The stored byte form is a
//! fixed-layout binary schema proved to decode back to the record.

use vstd::prelude::*;
use crate::error::NotificationError;
use crate::wire::{
    dec_string, dec_u128, dec_u16, dec_i64, lemma_dec_i64_of_enc, lemma_dec_string_of_enc,
    lemma_dec_u128_of_enc, lemma_dec_u16_of_enc, push_i64_le, push_string, push_u128_le,
    push_u16_le, read_i64, read_string, read_u128, read_u16, spec_i64_le, spec_string_bytes,
    spec_u128_le, spec_u16_le,
};

verus! {

/// An upper bound on the seconds both phases can add to a creation
/// time: two 16-bit minute counts of 60 seconds each.
pub const MAX_PHASE_SECONDS: i64 = 7_864_200;

/// Relies on uuid::Uuid::new_v4 and Uuid::as_u128: a freshly drawn
/// random 128-bit identifier; nothing is promised of its value.
#[verifier::external_body]
fn fresh_id() -> u128 {
    uuid::Uuid::new_v4().as_u128()
}

/// Relies on chrono::Utc::now and DateTime::timestamp: the current
/// wall-clock time in whole seconds since the Unix epoch; nothing is
/// promised of its value.
#[verifier::external_body]
pub(crate) fn now_seconds() -> i64 {
    chrono::Utc::now().timestamp()
}

/// The notification record persisted in the store.
#[derive(Debug, PartialEq, Eq, Clone)]
pub struct NotificationSled {
    pub id: u128,
    pub description: String,
    pub work_time: u16,
    pub break_time: u16,
    pub created_at: i64,
    pub work_expired_at: i64,
    pub break_expired_at: i64,
}

/// The mathematical value of a record.
pub struct RecordView {
    pub id: u128,
    pub description: Seq<char>,
    pub work_time: u16,
    pub break_time: u16,
    pub created_at: i64,
    pub work_expired_at: i64,
    pub break_expired_at: i64,
}

impl View for NotificationSled {
    type V = RecordView;

    open spec fn view(&self) -> RecordView {
        RecordView {
            id: self.id,
            description: self.description@,
            work_time: self.work_time,
            break_time: self.break_time,
            created_at: self.created_at,
            work_expired_at: self.work_expired_at,
            break_expired_at: self.break_expired_at,
        }
    }
}

impl RecordView {
    /// The expiry times follow from the creation time and the two
    /// phase lengths.
    pub open spec fn times_consistent(self) -> bool {
        &&& self.work_expired_at == self.created_at + self.work_time * 60
        &&& self.break_expired_at == self.work_expired_at + self.break_time * 60
    }

    /// A valid record: consistent times and at least one non-zero
    /// phase.
    pub open spec fn wf(self) -> bool {
        &&& self.times_consistent()
        &&& (self.work_time > 0 || self.break_time > 0)
    }

    /// How far the work phase has come at `now`, in whole percent.
    pub open spec fn spec_work_percentage(self, now: i64) -> int {
        if now < self.created_at {
            0
        } else if now >= self.work_expired_at {
            100
        } else {
            100 * (now - self.created_at) / (self.work_time * 60)
        }
    }

    /// A record is still active while either phase has not ended.
    pub open spec fn is_active(self, now: i64) -> bool {
        self.work_expired_at > now || self.break_expired_at > now
    }
}

impl NotificationSled {
    /// Build a fresh record: the identifier is drawn at random, the
    /// expiry times follow from `created_at` and the phase lengths.
    pub fn new(description: String, work_time: u16, break_time: u16, created_at: i64) -> (r: Self)
        requires
            created_at + MAX_PHASE_SECONDS <= i64::MAX,
        ensures
            r@.description == description@,
            r@.work_time == work_time,
            r@.break_time == break_time,
            r@.created_at == created_at,
            r@.times_consistent(),
            (work_time > 0 || break_time > 0) ==> r@.wf(),
    {
        let id = fresh_id();
        let work_expired_at = created_at + (work_time as i64) * 60;
        let break_expired_at = work_expired_at + (break_time as i64) * 60;
        NotificationSled {
            id,
            description,
            work_time,
            break_time,
            created_at,
            work_expired_at,
            break_expired_at,
        }
    }

    pub fn get_id(&self) -> (r: u128)
        ensures
            r == self@.id,
    {
        self.id
    }

    /// The moment the record's schedule began: the later expiry minus
    /// both phase lengths, which is the creation time.
    pub fn get_start_at(&self) -> (r: i64)
        requires
            self@.times_consistent(),
        ensures
            r == self@.created_at,
    {
        let total = (self.work_time as i64 + self.break_time as i64) * 60;
        let last_expired_at = if self.work_expired_at > self.break_expired_at {
            self.work_expired_at
        } else {
            self.break_expired_at
        };
        last_expired_at - total
    }

    /// All stored fields at once.
    pub fn get_values(&self) -> (r: (u128, &str, u16, u16, i64, i64, i64))
        ensures
            r.0 == self@.id,
            r.1@ == self@.description,
            r.2 == self@.work_time,
            r.3 == self@.break_time,
            r.4 == self@.created_at,
            r.5 == self@.work_expired_at,
            r.6 == self@.break_expired_at,
    {
        (
            self.id,
            self.description.as_str(),
            self.work_time,
            self.break_time,
            self.created_at,
            self.work_expired_at,
            self.break_expired_at,
        )
    }

    /// Work-phase progress at `current_time`: zero before the start,
    /// one hundred once the work phase has ended, linear in elapsed
    /// seconds in between.
    pub fn get_work_percentage(&self, current_time: i64) -> (r: i64)
        requires
            self@.times_consistent(),
        ensures
            r == self@.spec_work_percentage(current_time),
            0 <= r <= 100,
    {
        if current_time < self.created_at {
            0
        } else if current_time >= self.work_expired_at {
            100
        } else {
            let work_seconds = (self.work_time as i64) * 60;
            let elapsed = current_time - self.created_at;
            proof {
                lemma_percentage_bounds(elapsed as int, work_seconds as int);
            }
            (100 * elapsed) / work_seconds
        }
    }

    /// Whether either phase is still running at `now`.
    pub fn is_active(&self, now: i64) -> (r: bool)
        ensures
            r == self@.is_active(now),
    {
        self.work_expired_at > now || self.break_expired_at > now
    }
}

/// Linear interpolation of a fraction into whole percent stays within
/// the scale.
proof fn lemma_percentage_bounds(e: int, w: int)
    requires
        0 <= e < w,
    ensures
        0 <= 100 * e / w <= 100,
{
    assert(0 <= 100 * e / w) by (nonlinear_arith)
        requires
            0 <= e,
            0 < w,
    ;
    assert(100 * e / w <= 100) by (nonlinear_arith)
        requires
            0 <= e < w,
    ;
}

/// Build and validate a record for a Create or Queue command.  A
/// request with both phase lengths zero is rejected; every other
/// request yields a well-formed record.
pub fn get_new_notification_sled(
    work_time: u16,
    break_time: u16,
    description: String,
    created_at: i64,
) -> (r: Result<NotificationSled, NotificationError>)
    requires
        created_at + MAX_PHASE_SECONDS <= i64::MAX,
    ensures
        match r {
            Ok(n) => {
                &&& (work_time > 0 || break_time > 0)
                &&& n@.wf()
                &&& n@.description == description@
                &&& n@.work_time == work_time
                &&& n@.break_time == break_time
                &&& n@.created_at == created_at
            },
            Err(e) => work_time == 0 && break_time == 0 && e == NotificationError::EmptyTimeValues,
        },
{
    if work_time == 0 && break_time == 0 {
        return Err(NotificationError::EmptyTimeValues);
    }
    Ok(NotificationSled::new(description, work_time, break_time, created_at))
}

// ------------------------------------------------------------------
// The stored byte form of a record.
// ------------------------------------------------------------------

pub open spec fn spec_enc_record(r: RecordView) -> Seq<u8> {
    spec_u128_le(r.id) + spec_u16_le(r.work_time) + spec_u16_le(r.break_time) + spec_i64_le(
        r.created_at,
    ) + spec_i64_le(r.work_expired_at) + spec_i64_le(r.break_expired_at) + spec_string_bytes(
        r.description,
    )
}

/// The stored form decodes only into a well-formed record, read to
/// the end of the value.
pub open spec fn spec_dec_record(b: Seq<u8>) -> Option<RecordView> {
    match dec_u128(b, 0) {
        Some((id, j0)) => match dec_u16(b, j0) {
            Some((work_time, j1)) => match dec_u16(b, j1) {
                Some((break_time, j2)) => match dec_i64(b, j2) {
                    Some((created_at, j3)) => match dec_i64(b, j3) {
                        Some((work_expired_at, j4)) => match dec_i64(b, j4) {
                            Some((break_expired_at, j5)) => match dec_string(b, j5) {
                                Some((description, j6)) => {
                                    let r = RecordView {
                                        id,
                                        description,
                                        work_time,
                                        break_time,
                                        created_at,
                                        work_expired_at,
                                        break_expired_at,
                                    };
                                    if j6 == b.len() && r.wf() {
                                        Some(r)
                                    } else {
                                        None
                                    }
                                },
                                None => None,
                            },
                            None => None,
                        },
                        None => None,
                    },
                    None => None,
                },
                None => None,
            },
            None => None,
        },
        None => None,
    }
}

/// The record codec inverts itself on well-formed records.
#[verifier::rlimit(60)]
pub proof fn lemma_record_round_trip(r: RecordView)
    requires
        r.wf(),
        vstd::utf8::encode_utf8(r.description).len() <= u64::MAX,
    ensures
        spec_dec_record(spec_enc_record(r)) == Some(r),
{
    let b = spec_enc_record(r);
    let p0 = spec_u128_le(r.id);
    let p1 = spec_u16_le(r.work_time);
    let p2 = spec_u16_le(r.break_time);
    let p3 = spec_i64_le(r.created_at);
    let p4 = spec_i64_le(r.work_expired_at);
    let p5 = spec_i64_le(r.break_expired_at);
    let p6 = spec_string_bytes(r.description);
    let o0: int = 0;
    let o1 = o0 + p0.len() as int;
    let o2 = o1 + p1.len() as int;
    let o3 = o2 + p2.len() as int;
    let o4 = o3 + p3.len() as int;
    let o5 = o4 + p4.len() as int;
    let o6 = o5 + p5.len() as int;
    assert(b =~= p0 + p1 + p2 + p3 + p4 + p5 + p6);
    assert(b.subrange(o0, o1) =~= p0);
    assert(b.subrange(o1, o2) =~= p1);
    assert(b.subrange(o2, o3) =~= p2);
    assert(b.subrange(o3, o4) =~= p3);
    assert(b.subrange(o4, o5) =~= p4);
    assert(b.subrange(o5, o6) =~= p5);
    assert(b.subrange(o6, o6 + p6.len() as int) =~= p6);
    lemma_dec_u128_of_enc(b, o0, r.id);
    lemma_dec_u16_of_enc(b, o1, r.work_time);
    lemma_dec_u16_of_enc(b, o2, r.break_time);
    lemma_dec_i64_of_enc(b, o3, r.created_at);
    lemma_dec_i64_of_enc(b, o4, r.work_expired_at);
    lemma_dec_i64_of_enc(b, o5, r.break_expired_at);
    lemma_dec_string_of_enc(b, o6, r.description);
}

impl NotificationSled {
    /// Encode this record into its stored byte form.
    pub fn encode(&self) -> (r: Vec<u8>)
        ensures
            r@ == spec_enc_record(self@),
    {
        let mut out: Vec<u8> = Vec::new();
        push_u128_le(&mut out, self.id);
        push_u16_le(&mut out, self.work_time);
        push_u16_le(&mut out, self.break_time);
        push_i64_le(&mut out, self.created_at);
        push_i64_le(&mut out, self.work_expired_at);
        push_i64_le(&mut out, self.break_expired_at);
        push_string(&mut out, &self.description);
        assert(out@ =~= spec_enc_record(self@));
        out
    }

    /// Decode a stored value; succeeds exactly on the encodings of
    /// well-formed records.
    pub fn decode(b: &Vec<u8>) -> (r: Option<NotificationSled>)
        ensures
            match r {
                Some(n) => spec_dec_record(b@) == Some(n@) && n@.wf(),
                None => spec_dec_record(b@) is None,
            },
    {
        let (id, j0) = match read_u128(b, 0) {
            Some(v) => v,
            None => {
                return None;
            },
        };
        let (work_time, j1) = match read_u16(b, j0) {
            Some(v) => v,
            None => {
                return None;
            },
        };
        let (break_time, j2) = match read_u16(b, j1) {
            Some(v) => v,
            None => {
                return None;
            },
        };
        let (created_at, j3) = match read_i64(b, j2) {
            Some(v) => v,
            None => {
                return None;
            },
        };
        let (work_expired_at, j4) = match read_i64(b, j3) {
            Some(v) => v,
            None => {
                return None;
            },
        };
        let (break_expired_at, j5) = match read_i64(b, j4) {
            Some(v) => v,
            None => {
                return None;
            },
        };
        let (description, j6) = match read_string(b, j5) {
            Some(v) => v,
            None => {
                return None;
            },
        };
        if j6 != b.len() {
            return None;
        }
        if work_time == 0 && break_time == 0 {
            return None;
        }
        let consistent = (work_expired_at as i128) == (created_at as i128) + (work_time as i128)
            * 60 && (break_expired_at as i128) == (work_expired_at as i128) + (break_time as i128)
            * 60;
        if !consistent {
            return None;
        }
        Some(
            NotificationSled {
                id,
                description,
                work_time,
                break_time,
                created_at,
                work_expired_at,
                break_expired_at,
            },
        )
    }
}

} // verus!
