use vstd::prelude::*;

verus! {

/// Relies on `std::time::SystemTime::now`, chrono's `From<SystemTime>` for
/// `DateTime<Utc>` and `DateTime::timestamp_nanos_opt`: the wall clock in
/// nanoseconds since the Unix epoch, negative before it, `None` outside the
/// range that an `i64` of nanoseconds can hold. The conversion panics only for
/// a clock more than about 262 000 years away from the epoch. The wall clock
/// may step backwards, so nothing is promised of the value.
#[verifier::external_body]
fn clock_reading() -> (r: Option<i64>) {
    chrono::DateTime::<chrono::Utc>::from(std::time::SystemTime::now()).timestamp_nanos_opt()
}

/// The instant that a clock reading stands for, never earlier than `floor`.
pub open spec fn instant_spec(reading: Option<i64>, floor: u64) -> u64 {
    match reading {
        Some(n) => if n >= 0 && n as u64 >= floor {
            n as u64
        } else {
            floor
        },
        None => floor,
    }
}

/// Turns a clock reading into an instant no earlier than `floor`: a reading
/// before `floor` (a clock stepped backwards) or outside the range is held at
/// `floor`, so that instants of one topic never go backwards.
pub fn instant_from_reading(reading: Option<i64>, floor: u64) -> (r: u64)
    ensures
        r == instant_spec(reading, floor),
        r >= floor,
{
    match reading {
        Some(n) => {
            if n >= 0 && n as u64 >= floor {
                n as u64
            } else {
                floor
            }
        },
        None => floor,
    }
}

/// The current instant in nanoseconds, no earlier than `floor`.
pub fn now_at_least(floor: u64) -> (r: u64)
    ensures
        r >= floor,
{
    let reading = clock_reading();
    instant_from_reading(reading, floor)
}

} // verus!
