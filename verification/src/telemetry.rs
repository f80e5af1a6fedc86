//! Telemetry of the devices: one record for each submission identity,
//! merged when a device sends the same submission again.

use crate::selector::{Selection, SelectionView};
use vstd::prelude::*;

verus! {

/// The network address that a submission came from.
#[derive(Clone, Copy, Debug, PartialEq, Eq, Structural)]
pub enum RemoteAddr {
    /// An IPv4 address as one big-endian number.
    V4(u32),
    /// An IPv6 address as one big-endian number.
    V6(u128),
}

/// What a device reports when it fetches a frame.
#[derive(Clone, Copy, Debug, PartialEq, Eq)]
pub struct Submission {
    /// Made up by the device for this submission; a retry carries it again.
    pub device_identity: u128,
    /// The boot code that the device reports.
    pub boot_code: i32,
    /// The battery voltage that the device reports.
    pub battery_voltage: i32,
    /// The error code that the device reports. A status field.
    pub error_code: i32,
    /// The return code that the device reports, if any. A status field.
    pub return_code: Option<i32>,
    /// The number of bytes written that the device reports, if any. A
    /// status field.
    pub bytes_written: Option<i32>,
}

/// The ids of the pictures that a device was sent: the primary one, and
/// the one beside it where there were two.
#[derive(Debug, PartialEq, Eq)]
pub struct ItemRefs {
    /// The id of the primary picture.
    pub first: Option<String>,
    /// The id of the picture beside it.
    pub second: Option<String>,
}

/// The ids of `ItemRefs` as mathematical values.
pub struct ItemRefsView {
    pub first: Option<Seq<char>>,
    pub second: Option<Seq<char>>,
}

/// The id behind an optional string.
pub open spec fn id_view(id: Option<String>) -> Option<Seq<char>> {
    match id {
        Some(text) => Some(text@),
        None => None,
    }
}

impl View for ItemRefs {
    type V = ItemRefsView;

    open spec fn view(&self) -> ItemRefsView {
        ItemRefsView { first: id_view(self.first), second: id_view(self.second) }
    }
}

/// The references that stand for a selection: its primary picture first.
pub open spec fn refs_of(selection: SelectionView) -> ItemRefsView {
    ItemRefsView {
        first: Some(selection.items[selection.primary].id),
        second: if selection.items.len() == 2 {
            Some(selection.items[1 - selection.primary].id)
        } else {
            None
        },
    }
}

impl ItemRefs {
    /// No picture at all.
    pub fn none() -> (refs: Self)
        ensures
            refs@ == (ItemRefsView { first: None, second: None }),
    {
        ItemRefs { first: None, second: None }
    }

    /// The references that stand for a selection.
    pub fn of(selection: &Selection) -> (refs: Self)
        ensures
            refs@ == refs_of(selection@),
    {
        let first = selection.primary().id.clone();
        let second = match selection.secondary() {
            Some(other) => Some(other.id.clone()),
            None => None,
        };
        ItemRefs { first: Some(first), second }
    }
}

impl Clone for ItemRefs {
    fn clone(&self) -> (copy: Self)
        ensures
            copy@ == self@,
    {
        let first = match &self.first {
            Some(id) => Some(id.clone()),
            None => None,
        };
        let second = match &self.second {
            Some(id) => Some(id.clone()),
            None => None,
        };
        ItemRefs { first, second }
    }
}

/// One persisted telemetry record.
#[derive(Debug, PartialEq, Eq)]
pub struct TelemetryRecord {
    /// When the record was created, in seconds.
    pub ts: i64,
    /// The key of the record.
    pub device_identity: u128,
    /// What the device was sent when the record was created.
    pub item_refs: ItemRefs,
    /// As first submitted.
    pub boot_code: i32,
    /// As first submitted.
    pub battery_voltage: i32,
    /// As last submitted.
    pub error_code: i32,
    /// As last submitted.
    pub return_code: Option<i32>,
    /// As last submitted.
    pub bytes_written: Option<i32>,
    /// Every address that the submission arrived from, oldest first.
    pub remote_addrs: Vec<RemoteAddr>,
}

/// A telemetry record as mathematical values.
pub struct TelemetryRecordView {
    pub ts: int,
    pub device_identity: u128,
    pub item_refs: ItemRefsView,
    pub boot_code: i32,
    pub battery_voltage: i32,
    pub error_code: i32,
    pub return_code: Option<i32>,
    pub bytes_written: Option<i32>,
    pub remote_addrs: Seq<RemoteAddr>,
}

impl View for TelemetryRecord {
    type V = TelemetryRecordView;

    open spec fn view(&self) -> TelemetryRecordView {
        TelemetryRecordView {
            ts: self.ts as int,
            device_identity: self.device_identity,
            item_refs: self.item_refs@,
            boot_code: self.boot_code,
            battery_voltage: self.battery_voltage,
            error_code: self.error_code,
            return_code: self.return_code,
            bytes_written: self.bytes_written,
            remote_addrs: self.remote_addrs@,
        }
    }
}

/// The record that a first submission creates.
pub open spec fn created(
    ts: int,
    submission: Submission,
    item_refs: ItemRefsView,
    from: RemoteAddr,
) -> TelemetryRecordView {
    TelemetryRecordView {
        ts,
        device_identity: submission.device_identity,
        item_refs,
        boot_code: submission.boot_code,
        battery_voltage: submission.battery_voltage,
        error_code: submission.error_code,
        return_code: submission.return_code,
        bytes_written: submission.bytes_written,
        remote_addrs: seq![from],
    }
}

/// The record after the same submission has arrived again: the three
/// status fields are those of the new arrival, its address is appended, and
/// all else stays.
pub open spec fn merged(
    existing: TelemetryRecordView,
    submission: Submission,
    from: RemoteAddr,
) -> TelemetryRecordView {
    TelemetryRecordView {
        error_code: submission.error_code,
        return_code: submission.return_code,
        bytes_written: submission.bytes_written,
        remote_addrs: existing.remote_addrs.push(from),
        ..existing
    }
}

/// No two records share a device identity.
pub open spec fn distinct_identities(records: Seq<TelemetryRecordView>) -> bool {
    forall|i: int, j: int|
        0 <= i < j < records.len() ==> (#[trigger] records[i]).device_identity != (
        #[trigger] records[j]).device_identity
}

/// Some record carries the identity.
pub open spec fn recorded(records: Seq<TelemetryRecordView>, identity: u128) -> bool {
    exists|i: int| 0 <= i < records.len() && (#[trigger] records[i]).device_identity == identity
}

/// The place of a record that carries the identity. Among distinct
/// identities there is one such place at most.
pub open spec fn place_of(records: Seq<TelemetryRecordView>, identity: u128) -> int
    recommends
        recorded(records, identity),
{
    choose|i: int| 0 <= i < records.len() && (#[trigger] records[i]).device_identity == identity
}

/// The records after one submission has been taken in.
pub open spec fn upserted(
    records: Seq<TelemetryRecordView>,
    ts: int,
    submission: Submission,
    item_refs: ItemRefsView,
    from: RemoteAddr,
) -> Seq<TelemetryRecordView> {
    if recorded(records, submission.device_identity) {
        let place = place_of(records, submission.device_identity);
        records.update(place, merged(records[place], submission, from))
    } else {
        records.push(created(ts, submission, item_refs, from))
    }
}

impl TelemetryRecord {
    /// The record of a submission that arrives for the first time.
    pub fn create(
        ts: i64,
        submission: &Submission,
        item_refs: ItemRefs,
        from: RemoteAddr,
    ) -> (record: Self)
        ensures
            record@ == created(ts as int, *submission, item_refs@, from),
    {
        let mut remote_addrs: Vec<RemoteAddr> = Vec::new();
        remote_addrs.push(from);
        TelemetryRecord {
            ts,
            device_identity: submission.device_identity,
            item_refs,
            boot_code: submission.boot_code,
            battery_voltage: submission.battery_voltage,
            error_code: submission.error_code,
            return_code: submission.return_code,
            bytes_written: submission.bytes_written,
            remote_addrs,
        }
    }

    /// Takes in a submission that has arrived again.
    pub fn merge(&mut self, submission: &Submission, from: RemoteAddr)
        ensures
            final(self)@ == merged(old(self)@, *submission, from),
    {
        self.error_code = submission.error_code;
        self.return_code = submission.return_code;
        self.bytes_written = submission.bytes_written;
        self.remote_addrs.push(from);
    }
}

/// The persisted telemetry: at most one record for each device identity.
pub struct TelemetryLog {
    records: Vec<TelemetryRecord>,
}

impl View for TelemetryLog {
    type V = Seq<TelemetryRecordView>;

    closed spec fn view(&self) -> Seq<TelemetryRecordView> {
        self.records@.map_values(|record: TelemetryRecord| record@)
    }
}

impl TelemetryLog {
    /// What holds of every log: each device identity occurs once.
    #[verifier::type_invariant]
    pub open spec fn wf(&self) -> bool {
        distinct_identities(self@)
    }

    /// A log without records.
    pub fn new() -> (log: Self)
        ensures
            log@ == Seq::<TelemetryRecordView>::empty(),
    {
        TelemetryLog { records: Vec::new() }
    }

    /// The number of records.
    pub fn len(&self) -> (n: usize)
        ensures
            n == self@.len(),
    {
        self.records.len()
    }

    /// The record at `index`, if there is one.
    pub fn get(&self, index: usize) -> (record: Option<&TelemetryRecord>)
        ensures
            match record {
                Some(found) => index < self@.len() && found@ == self@[index as int],
                None => index >= self@.len(),
            },
    {
        if index < self.records.len() {
            Some(&self.records[index])
        } else {
            None
        }
    }

    /// The place of the record with the given identity, if there is one.
    pub fn find(&self, identity: u128) -> (place: Option<usize>)
        ensures
            match place {
                Some(i) => recorded(self@, identity) && i == place_of(self@, identity),
                None => !recorded(self@, identity),
            },
    {
        proof {
            use_type_invariant(self);
        }
        let mut i: usize = 0;
        while i < self.records.len()
            invariant
                i <= self.records.len(),
                distinct_identities(self@),
                forall|j: int| 0 <= j < i ==> (#[trigger] self@[j]).device_identity != identity,
            decreases self.records.len() - i,
        {
            if self.records[i].device_identity == identity {
                proof {
                    lemma_place_is_unique(self@, identity, i as int);
                }
                return Some(i);
            }
            i += 1;
        }
        None
    }

    /// Takes in one submission: creates its record, or merges it into the
    /// record that its identity already has.
    ///
    /// A merge overwrites the three status fields and appends the address;
    /// the timestamp, the boot code, the battery voltage and the picture
    /// references of the record stay as they were created, and `ts` and
    /// `item_refs` are not used. No other record changes.
    pub fn upsert(
        &mut self,
        ts: i64,
        submission: &Submission,
        item_refs: ItemRefs,
        from: RemoteAddr,
    )
        ensures
            final(self)@ == upserted(old(self)@, ts as int, *submission, item_refs@, from),
    {
        proof {
            use_type_invariant(&*self);
        }
        let place = self.find(submission.device_identity);
        let mut records: Vec<TelemetryRecord> = Vec::new();
        core::mem::swap(&mut self.records, &mut records);
        match place {
            Some(place) => {
                proof {
                    lemma_place_is_unique(old(self)@, submission.device_identity, place as int);
                }
                records[place].merge(submission, from);
            },
            None => {
                records.push(TelemetryRecord::create(ts, submission, item_refs, from));
            },
        }
        proof {
            let after = records@.map_values(|record: TelemetryRecord| record@);
            assert(after =~= upserted(old(self)@, ts as int, *submission, item_refs@, from));
            lemma_upsert_keeps_one_record_per_identity(
                old(self)@,
                ts as int,
                *submission,
                item_refs@,
                from,
            );
        }
        core::mem::swap(&mut self.records, &mut records);
    }
}

/// Among distinct identities a record's place is the only one with its
/// identity.
pub proof fn lemma_place_is_unique(records: Seq<TelemetryRecordView>, identity: u128, place: int)
    requires
        distinct_identities(records),
        0 <= place < records.len(),
        records[place].device_identity == identity,
    ensures
        recorded(records, identity),
        place_of(records, identity) == place,
{
    let chosen = place_of(records, identity);
    if chosen < place {
        assert(records[chosen].device_identity != records[place].device_identity);
    } else if place < chosen {
        assert(records[place].device_identity != records[chosen].device_identity);
    }
}

/// After a submission has been taken in, its identity has exactly one
/// record, and the identities stay distinct.
pub proof fn lemma_upsert_keeps_one_record_per_identity(
    records: Seq<TelemetryRecordView>,
    ts: int,
    submission: Submission,
    item_refs: ItemRefsView,
    from: RemoteAddr,
)
    requires
        distinct_identities(records),
    ensures
        distinct_identities(upserted(records, ts, submission, item_refs, from)),
        recorded(upserted(records, ts, submission, item_refs, from), submission.device_identity),
        upserted(records, ts, submission, item_refs, from).len() == records.len() + if recorded(
            records,
            submission.device_identity,
        ) {
            0int
        } else {
            1int
        },
{
    let after = upserted(records, ts, submission, item_refs, from);
    if recorded(records, submission.device_identity) {
        let place = place_of(records, submission.device_identity);
        assert(after[place].device_identity == submission.device_identity);
    } else {
        assert(after[records.len() as int].device_identity == submission.device_identity);
    }
}

/// A submission never takes anything away: every earlier record keeps its
/// place, its creation time, its boot code, its battery voltage and its
/// picture references, and its addresses are at most extended at the end.
pub proof fn lemma_upsert_only_appends(
    records: Seq<TelemetryRecordView>,
    ts: int,
    submission: Submission,
    item_refs: ItemRefsView,
    from: RemoteAddr,
    i: int,
)
    requires
        0 <= i < records.len(),
    ensures
        ({
            let before = records[i];
            let after = upserted(records, ts, submission, item_refs, from)[i];
            &&& i < upserted(records, ts, submission, item_refs, from).len()
            &&& after.device_identity == before.device_identity
            &&& after.ts == before.ts
            &&& after.item_refs == before.item_refs
            &&& after.boot_code == before.boot_code
            &&& after.battery_voltage == before.battery_voltage
            &&& before.remote_addrs.is_prefix_of(after.remote_addrs)
            &&& before.device_identity != submission.device_identity ==> after == before
        }),
{
    if recorded(records, submission.device_identity) {
        let place = place_of(records, submission.device_identity);
        if i == place {
            assert(records[i].remote_addrs.push(from).subrange(
                0,
                records[i].remote_addrs.len() as int,
            ) =~= records[i].remote_addrs);
        }
    }
}

/// A submission that arrives twice leaves one record: it is the record of
/// the first arrival, with the status of the second and with both
/// addresses in the order of arrival.
pub proof fn lemma_resubmission_merges(
    records: Seq<TelemetryRecordView>,
    first_ts: int,
    first: Submission,
    first_refs: ItemRefsView,
    first_from: RemoteAddr,
    second_ts: int,
    second: Submission,
    second_refs: ItemRefsView,
    second_from: RemoteAddr,
)
    requires
        distinct_identities(records),
        !recorded(records, first.device_identity),
        second.device_identity == first.device_identity,
    ensures
        ({
            let once = upserted(records, first_ts, first, first_refs, first_from);
            let twice = upserted(once, second_ts, second, second_refs, second_from);
            &&& twice.len() == records.len() + 1
            &&& twice.subrange(0, records.len() as int) == records
            &&& twice.last() == (TelemetryRecordView {
                error_code: second.error_code,
                return_code: second.return_code,
                bytes_written: second.bytes_written,
                remote_addrs: seq![first_from, second_from],
                ..created(first_ts, first, first_refs, first_from)
            })
        }),
{
    let once = upserted(records, first_ts, first, first_refs, first_from);
    let last = records.len() as int;
    lemma_upsert_keeps_one_record_per_identity(records, first_ts, first, first_refs, first_from);
    lemma_place_is_unique(once, first.device_identity, last);
    let twice = upserted(once, second_ts, second, second_refs, second_from);
    assert(twice.subrange(0, last) =~= records);
    assert(twice.last().remote_addrs =~= seq![first_from, second_from]);
}

} // verus!
