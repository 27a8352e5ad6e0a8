//! Special service data, packed so that the display code can read it directly.

use vstd::prelude::*;

use crate::first_match::{
    first_match,
    is_first_match_index,
    lemma_first_match_is_first_index,
    lemma_first_match_skip,
};
use crate::le_bytes::{le_u16_value, read_le_u16};

verus! {

/// The kind of service that runs on a special day.
#[derive(Debug, Clone, Copy, PartialEq, Eq, Structural, PartialOrd, Ord)]
pub enum SpecialServiceType {
    Weekday,
    Saturday,
    Sunday,
    Unknown(u8),
}

/// An entry in the special service data.
#[derive(Debug, Clone, Copy, PartialEq, Eq, Structural, PartialOrd, Ord)]
pub struct SpecialServiceEntry {
    pub year: u16,
    pub month: u8,
    pub day: u8,
    service_type: u8,
}

/// The plain values that an entry holds, its service type by its stored code.
pub struct SpecialServiceView {
    pub year: u16,
    pub month: u8,
    pub day: u8,
    pub service_code: u8,
}

impl View for SpecialServiceEntry {
    type V = SpecialServiceView;

    closed spec fn view(&self) -> SpecialServiceView {
        SpecialServiceView {
            year: self.year,
            month: self.month,
            day: self.day,
            service_code: self.service_type,
        }
    }
}

/// The service type that a stored code stands for: 0, 1 and 2 are weekday,
/// Saturday and Sunday service; any other code is unknown.
pub open spec fn service_type_of(code: u8) -> SpecialServiceType {
    if code == 0 {
        SpecialServiceType::Weekday
    } else if code == 1 {
        SpecialServiceType::Saturday
    } else if code == 2 {
        SpecialServiceType::Sunday
    } else {
        SpecialServiceType::Unknown(code)
    }
}

/// The entry that the five bytes `b[0..5]` encode: the year as a little-endian
/// `u16`, then month, day and the service type code.
pub open spec fn decode_special_service(b: Seq<u8>) -> SpecialServiceView {
    SpecialServiceView {
        year: le_u16_value(b[0], b[1]) as u16,
        month: b[2],
        day: b[3],
        service_code: b[4],
    }
}

/// Whether an entry is for the date `year-month-day`.
pub open spec fn active_on(e: SpecialServiceView, year: u16, month: u8, day: u8) -> bool {
    e.year == year && e.month == month && e.day == day
}

/// The entries of a special service table: one per whole 5-byte chunk, in
/// order; trailing bytes that do not fill a chunk are ignored.
pub open spec fn special_service_entries(data: Seq<u8>) -> Seq<SpecialServiceView> {
    Seq::new(
        (data.len() / 5) as nat,
        |i: int| decode_special_service(data.subrange(5 * i, 5 * i + 5)),
    )
}

/// The predicate "for the date `year-month-day`" on entries.
pub open spec fn for_date(year: u16, month: u8, day: u8) -> spec_fn(SpecialServiceView) -> bool {
    |e: SpecialServiceView| active_on(e, year, month, day)
}

/// The first entry, in table order, for the date `year-month-day`.
pub open spec fn first_active(entries: Seq<SpecialServiceView>, year: u16, month: u8, day: u8) -> Option<SpecialServiceView> {
    first_match(entries, for_date(year, month, day))
}

/// The special service entry for `year-month-day` in a table, if any.
pub open spec fn special_service_on(data: Seq<u8>, year: u16, month: u8, day: u8) -> Option<SpecialServiceView> {
    first_active(special_service_entries(data), year, month, day)
}

/// The special service entry for a date is the first entry of the table
/// whose year, month and day are that date; when there is none, no entry of
/// the table has that date.
pub proof fn lemma_special_service_on_is_first_for_date(data: Seq<u8>, year: u16, month: u8, day: u8)
    ensures
        ({
            let entries = special_service_entries(data);
            match special_service_on(data, year, month, day) {
                Some(e) => exists|k: int|
                    {
                        &&& 0 <= k < entries.len()
                        &&& #[trigger] entries[k] == e
                        &&& e.year == year && e.month == month && e.day == day
                        &&& forall|j: int|
                            0 <= j < k ==> !(#[trigger] entries[j].year == year && entries[j].month
                                == month && entries[j].day == day)
                    },
                None => forall|j: int|
                    0 <= j < entries.len() ==> !(#[trigger] entries[j].year == year
                        && entries[j].month == month && entries[j].day == day),
            }
        }),
{
    let entries = special_service_entries(data);
    let pred = for_date(year, month, day);
    lemma_first_match_is_first_index(entries, pred);
    match first_match(entries, pred) {
        Some(e) => {
            let k = choose|k: int| is_first_match_index(entries, pred, k) && #[trigger] entries[k] == e;
            assert forall|j: int| 0 <= j < k implies !(#[trigger] entries[j].year == year
                && entries[j].month == month && entries[j].day == day) by {
                assert(!pred(entries[j]));
            }
            assert(pred(entries[k]));
        },
        None => {
            assert forall|j: int| 0 <= j < entries.len() implies !(#[trigger] entries[j].year == year
                && entries[j].month == month && entries[j].day == day) by {
                assert(!pred(entries[j]));
            }
        },
    }
}

/// The entries of a special service table are its 5-byte chunks in order:
/// entry `i` has the year `data[5i] + 256 * data[5i + 1]`, then the month, day
/// and service code of bytes `5i + 2` to `5i + 4`.
pub proof fn lemma_special_service_entries_layout(data: Seq<u8>)
    ensures
        special_service_entries(data).len() == data.len() / 5,
        forall|i: int|
            #![trigger special_service_entries(data)[i]]
            0 <= i < data.len() / 5 ==> {
                &&& special_service_entries(data)[i].year == data[5 * i] + 256 * data[5 * i + 1]
                &&& special_service_entries(data)[i].month == data[5 * i + 2]
                &&& special_service_entries(data)[i].day == data[5 * i + 3]
                &&& special_service_entries(data)[i].service_code == data[5 * i + 4]
            },
{
    assert forall|i: int| 0 <= i < data.len() / 5 implies {
        &&& #[trigger] special_service_entries(data)[i].year == data[5 * i] + 256 * data[5 * i + 1]
        &&& special_service_entries(data)[i].month == data[5 * i + 2]
        &&& special_service_entries(data)[i].day == data[5 * i + 3]
        &&& special_service_entries(data)[i].service_code == data[5 * i + 4]
    } by {
        assert(5 * i + 5 <= data.len()) by (nonlinear_arith)
            requires
                0 <= i < data.len() / 5,
        ;
        assert(data[5 * i] + 256 * data[5 * i + 1] <= 65535);
    }
}

/// The service type of a stored code: 0 is weekday, 1 Saturday and 2 Sunday
/// service, and every other code is an unknown type that keeps the code.
pub proof fn lemma_service_type_codes(code: u8)
    ensures
        code == 0 <==> service_type_of(code) == SpecialServiceType::Weekday,
        code == 1 <==> service_type_of(code) == SpecialServiceType::Saturday,
        code == 2 <==> service_type_of(code) == SpecialServiceType::Sunday,
        code > 2 <==> service_type_of(code) == SpecialServiceType::Unknown(code),
{
}

impl SpecialServiceEntry {
    /// Size in bytes of one packed entry.
    pub const SIZE: usize = 5;

    /// Decodes the entry at byte offset `off`.
    fn decode_at(data: &[u8], off: usize) -> (entry: SpecialServiceEntry)
        requires
            off + 5 <= data@.len(),
        ensures
            entry@ == decode_special_service(data@.subrange(off as int, off + 5)),
    {
        SpecialServiceEntry {
            year: read_le_u16(data[off], data[off + 1]),
            month: data[off + 2],
            day: data[off + 3],
            service_type: data[off + 4],
        }
    }

    /// Reads an entry from exactly [`SpecialServiceEntry::SIZE`] bytes; every
    /// byte pattern of that length is an entry. `None` when `bytes` has another
    /// length.
    pub fn try_read_from_bytes(bytes: &[u8]) -> (entry: Option<SpecialServiceEntry>)
        ensures
            entry is Some <==> bytes@.len() == 5,
            entry matches Some(e) ==> e@ == decode_special_service(bytes@),
    {
        if bytes.len() == 5 {
            let e = Self::decode_at(bytes, 0);
            assert(bytes@.subrange(0, 5) =~= bytes@);
            Some(e)
        } else {
            None
        }
    }

    /// Checks if the entry is active on the given date.
    pub fn is_active_on(&self, year: u16, month: u8, day: u8) -> (active: bool)
        ensures
            active == active_on(self@, year, month, day),
    {
        self.year == year && self.month == month && self.day == day
    }

    /// Gets the service type of the entry.
    pub fn service_type(&self) -> (kind: SpecialServiceType)
        ensures
            kind == service_type_of(self@.service_code),
    {
        match self.service_type {
            0 => SpecialServiceType::Weekday,
            1 => SpecialServiceType::Saturday,
            2 => SpecialServiceType::Sunday,
            other => SpecialServiceType::Unknown(other),
        }
    }
}

/// Finds the special service entry for the given date in the provided data:
/// the first entry of the table for that date, or `None` when there is none.
pub fn find_special_service_entry(data: &[u8], year: u16, month: u8, day: u8) -> (found: Option<SpecialServiceEntry>)
    ensures
        match found {
            Some(e) => special_service_on(data@, year, month, day) == Some(e@),
            None => special_service_on(data@, year, month, day) is None,
        },
{
    let ghost entries = special_service_entries(data@);
    let len = data.len();
    let n = len / 5;
    let mut k: usize = 0;
    assert(entries.skip(0) =~= entries);
    while k < n
        invariant
            len == data@.len(),
            n == len / 5,
            entries == special_service_entries(data@),
            entries.len() == n,
            k <= n,
            first_active(entries, year, month, day) == first_active(
                entries.skip(k as int),
                year,
                month,
                day,
            ),
        decreases n - k,
    {
        assert(k * 5 + 5 <= len) by (nonlinear_arith)
            requires
                k < n,
                n == len / 5,
        ;
        let entry = SpecialServiceEntry::decode_at(data, k * 5);
        assert(entry@ == entries[k as int]);
        if entry.is_active_on(year, month, day) {
            assert(entries.skip(k as int)[0] == entries[k as int]);
            return Some(entry);
        }
        proof {
            lemma_first_match_skip(entries, for_date(year, month, day), k as int);
        }
        k = k + 1;
    }
    assert(entries.skip(k as int).len() == 0);
    None
}

} // verus!
