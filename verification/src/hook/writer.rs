//! The patch image: a byte buffer at a fixed base address that checks the
//! bounds of every access, refuses to write the same bytes twice, and hands
//! out room for extra code in two places.

use vstd::prelude::*;

use super::error::WriterError;
use super::location::HookLocation;

verus! {

/// Where extra code is placed.
#[derive(Debug, PartialEq, Eq, Clone, Copy, Structural)]
pub enum HookExtraPos {
    /// In the slack behind the text of the program, from the loader cursor on.
    Loader,
    /// Behind the end of the image.
    Tail,
}

/// Why bytes were written.  Only `Misc` is recorded so far.
#[derive(Debug, PartialEq)]
pub enum HookWriteReason {
    Misc,
    _Code,
    _Loader,
    _Hook(Vec<HookLocation>),
}

impl Clone for HookWriteReason {
    fn clone(&self) -> (r: Self)
        ensures
            self is Misc == r is Misc,
    {
        match self {
            HookWriteReason::Misc => HookWriteReason::Misc,
            HookWriteReason::_Code => HookWriteReason::_Code,
            HookWriteReason::_Loader => HookWriteReason::_Loader,
            HookWriteReason::_Hook(locations) => {
                let mut copy: Vec<HookLocation> = Vec::new();
                let mut i: usize = 0;
                while i < locations.len()
                    invariant
                        i <= locations.len(),
                    decreases locations.len() - i,
                {
                    copy.push(locations[i].clone());
                    i += 1;
                }
                HookWriteReason::_Hook(copy)
            },
        }
    }
}

/// One write: where it started, how many bytes it covered, and why.
struct WriteRecord {
    address: u32,
    size: u32,
    reason: HookWriteReason,
}

/// The records stand in the order of their addresses, no two at the same
/// address, and none reaches into the next.
spec fn records_ordered(records: Seq<WriteRecord>) -> bool {
    forall|i: int, j: int|
        0 <= i < j < records.len() ==> (#[trigger] records[i]).address < (
        #[trigger] records[j]).address && records[i].address + records[i].size
            <= records[j].address
}

/// The ledger that a list of records stands for: start address to size.
spec fn records_map(records: Seq<WriteRecord>) -> Map<u32, u32> {
    Map::new(
        |k: u32| exists|i: int| 0 <= i < records.len() && (#[trigger] records[i]).address == k,
        |k: u32|
            records[choose|i: int| 0 <= i < records.len() && (#[trigger] records[i]).address
                == k].size,
    )
}

/// In an ordered list every record is found in the ledger under its address,
/// with its size.
proof fn lemma_record_lookup(records: Seq<WriteRecord>, i: int)
    requires
        records_ordered(records),
        0 <= i < records.len(),
    ensures
        records_map(records).contains_key(records[i].address),
        records_map(records)[records[i].address] == records[i].size,
{
    let k = records[i].address;
    let c = choose|c: int| 0 <= c < records.len() && (#[trigger] records[c]).address == k;
    if c < i {
        assert(records[c].address < records[i].address);
    }
    if i < c {
        assert(records[i].address < records[c].address);
    }
}

/// Whether a write recorded in `ledger` overlaps the `len` bytes from
/// `address` on.
pub open spec fn ledger_overlaps(ledger: Map<u32, u32>, address: u32, len: nat) -> bool {
    exists|k: u32| #[trigger] ledger.contains_key(k) && k < address + len && address < k + ledger[k]
}

/// Where no record overlaps a range, the records that start below it end
/// before it, and those that start above it start behind its end.
proof fn lemma_room_for_record(records: Seq<WriteRecord>, q: int, address: u32, size: u32)
    requires
        records_ordered(records),
        !ledger_overlaps(records_map(records), address, size as nat),
        0 <= q <= records.len(),
        forall|i: int| 0 <= i < q ==> (#[trigger] records[i]).address < address,
        forall|i: int| q <= i < records.len() ==> (#[trigger] records[i]).address >= address,
    ensures
        forall|i: int|
            0 <= i < q ==> (#[trigger] records[i]).address + records[i].size <= address,
        forall|i: int|
            q <= i < records.len() && (#[trigger] records[i]).address != address ==> address + size
                <= records[i].address,
{
    assert forall|i: int| 0 <= i < records.len() implies (if i < q {
        (#[trigger] records[i]).address + records[i].size <= address
    } else {
        records[i].address != address ==> address + size <= records[i].address
    }) by {
        lemma_record_lookup(records, i);
        assert(records_map(records).contains_key(records[i].address));
    }
}

/// The list with `record` put at index `q`, in place of the record there
/// if `replace` says so.
spec fn with_record(records: Seq<WriteRecord>, q: int, record: WriteRecord, replace: bool) -> Seq<
    WriteRecord,
> {
    if replace {
        records.update(q, record)
    } else {
        records.insert(q, record)
    }
}

/// A record put where it has room keeps the list in order.
proof fn lemma_with_record_ordered(
    records: Seq<WriteRecord>,
    q: int,
    record: WriteRecord,
    replace: bool,
)
    requires
        records_ordered(records),
        0 <= q <= records.len(),
        replace ==> q < records.len() && records[q].address == record.address,
        forall|i: int|
            0 <= i < q ==> (#[trigger] records[i]).address < record.address && records[i].address
                + records[i].size <= record.address,
        forall|i: int|
            q <= i < records.len() && !(replace && i == q) ==> record.address < (
            #[trigger] records[i]).address && record.address + record.size <= records[i].address,
    ensures
        records_ordered(with_record(records, q, record, replace)),
{
    let after = with_record(records, q, record, replace);
    assert forall|i: int, j: int| 0 <= i < j < after.len() implies (#[trigger] after[i]).address < (
    #[trigger] after[j]).address && after[i].address + after[i].size <= after[j].address by {
        let i0 = if replace || i < q {
            i
        } else {
            i - 1
        };
        let j0 = if replace || j < q {
            j
        } else {
            j - 1
        };
        if i != q && j != q {
            assert(after[i] == records[i0]);
            assert(after[j] == records[j0]);
            assert(records[i0].address < records[j0].address);
        } else if i == q {
            assert(after[j] == records[j0]);
            assert(records[j0].address >= 0);
        } else {
            assert(after[i] == records[i0]);
            assert(records[i0].address >= 0);
        }
    }
}

/// A record put into an ordered list is what `insert` is on the ledger.
proof fn lemma_with_record_map(
    records: Seq<WriteRecord>,
    q: int,
    record: WriteRecord,
    replace: bool,
)
    requires
        records_ordered(records),
        records_ordered(with_record(records, q, record, replace)),
        0 <= q <= records.len(),
        replace ==> q < records.len() && records[q].address == record.address,
    ensures
        records_map(with_record(records, q, record, replace)) == records_map(records).insert(
            record.address,
            record.size,
        ),
{
    let after = with_record(records, q, record, replace);
    let target = records_map(records).insert(record.address, record.size);
    assert(after[q] == record);
    lemma_record_lookup(after, q);
    assert forall|k: u32| #[trigger]
        records_map(after).dom().contains(k) implies target.dom().contains(k) by {
        let i = choose|i: int| 0 <= i < after.len() && (#[trigger] after[i]).address == k;
        if i != q {
            let i0 = if replace || i < q {
                i
            } else {
                i - 1
            };
            assert(records[i0] == after[i]);
            lemma_record_lookup(records, i0);
        }
    }
    assert forall|k: u32| #[trigger]
        target.dom().contains(k) implies records_map(after).dom().contains(k) && records_map(
        after,
    )[k] == target[k] by {
        if k != record.address {
            assert(records_map(records).contains_key(k));
            let i0 = choose|i: int| 0 <= i < records.len() && (#[trigger] records[i]).address == k;
            lemma_record_lookup(records, i0);
            let i = if replace || i0 < q {
                i0
            } else {
                i0 + 1
            };
            assert(after[i] == records[i0]);
            lemma_record_lookup(after, i);
        }
    }
    assert(records_map(after).contains_key(record.address));
    assert(records_map(after)[record.address] == record.size);
    assert(records_map(after).dom() =~= target.dom());
    assert(records_map(after) =~= target);
}

/// The ledger of an ordered list of records holds no two writes that
/// overlap.
proof fn lemma_ordered_is_disjoint(records: Seq<WriteRecord>)
    requires
        records_ordered(records),
    ensures
        forall|j: u32, k: u32|
            #[trigger] records_map(records).contains_key(j) && #[trigger] records_map(
                records,
            ).contains_key(k) && j < k ==> j + records_map(records)[j] <= k,
{
    let ledger = records_map(records);
    assert forall|j: u32, k: u32| #[trigger]
        ledger.contains_key(j) && #[trigger] ledger.contains_key(k) && j < k implies j + ledger[j]
        <= k by {
        let a = choose|i: int| 0 <= i < records.len() && (#[trigger] records[i]).address == j;
        let b = choose|i: int| 0 <= i < records.len() && (#[trigger] records[i]).address == k;
        lemma_record_lookup(records, a);
        lemma_record_lookup(records, b);
        if b < a {
            assert(records[b].address < records[a].address);
        }
    }
}

/// The state of a writer as its contracts speak of it.
pub struct HookWriterView {
    /// Address of the first byte of the image.
    pub base_address: u32,
    /// Next free byte of the loader arena, once it has been set.
    pub loader_extra_address: Option<u32>,
    /// The bytes of the image.
    pub data: Seq<u8>,
    /// The writes made so far: start address to number of bytes.
    pub ledger: Map<u32, u32>,
}

impl HookWriterView {
    /// A writer without bytes and without history at `address`.
    pub open spec fn fresh(address: u32) -> HookWriterView {
        HookWriterView {
            base_address: address,
            loader_extra_address: None,
            data: Seq::empty(),
            ledger: Map::empty(),
        }
    }

    /// Address of the first byte behind the image.
    pub open spec fn end_address(self) -> int {
        self.base_address + self.data.len()
    }

    /// Whether the `len` bytes from `address` on lie inside the image.
    pub open spec fn in_bounds(self, address: u32, len: nat) -> bool {
        self.base_address <= address && address + len <= self.end_address()
    }

    /// Whether an earlier write overlaps the `len` bytes from `address` on.
    pub open spec fn overlaps_record(self, address: u32, len: nat) -> bool {
        ledger_overlaps(self.ledger, address, len)
    }

    /// No two recorded writes overlap.
    pub open spec fn ledger_disjoint(self) -> bool {
        forall|j: u32, k: u32|
            #[trigger] self.ledger.contains_key(j) && #[trigger] self.ledger.contains_key(k) && j
                < k ==> j + self.ledger[j] <= k
    }

    /// What holds of every writer: its image ends within the address space
    /// and no two of its recorded writes overlap.
    pub open spec fn well_formed(self) -> bool {
        self.end_address() <= u32::MAX && self.ledger_disjoint()
    }

    /// What reading `len` bytes at `address` gives.
    pub open spec fn read_outcome(self, address: u32, len: nat) -> Result<Seq<u8>, WriterError> {
        if self.in_bounds(address, len) {
            Ok(
                self.data.subrange(
                    address - self.base_address,
                    address - self.base_address + len,
                ),
            )
        } else {
            Err(WriterError::OutOfBoundsRead(address, len as usize))
        }
    }

    /// Whether `data` may be written at `address`: the bounds are checked
    /// first, then the earlier writes.
    pub open spec fn write_outcome(self, address: u32, data: Seq<u8>) -> Result<(), WriterError> {
        if !self.in_bounds(address, data.len()) {
            Err(WriterError::OutOfBoundsWrite(address, data.len() as usize))
        } else if self.overlaps_record(address, data.len()) {
            Err(WriterError::DuplicateWrite(address, data.len() as usize))
        } else {
            Ok(())
        }
    }

    /// The writer after `data` has been written at `address`: the bytes are
    /// replaced and the write is recorded.
    pub open spec fn written(self, address: u32, data: Seq<u8>) -> HookWriterView {
        let offset = address - self.base_address;
        HookWriterView {
            data: self.data.take(offset) + data + self.data.skip(offset + data.len()),
            ledger: self.ledger.insert(address, data.len() as u32),
            ..self
        }
    }

    /// The writer after `data` has been appended.
    pub open spec fn appended(self, data: Seq<u8>) -> HookWriterView {
        HookWriterView { data: self.data + data, ..self }
    }

    /// The writer once its image ends at `until`: cut there, or filled up
    /// to there with zero bytes.
    pub open spec fn resized(self, until: u32) -> HookWriterView {
        let len = until - self.base_address;
        HookWriterView {
            data: if len <= self.data.len() {
                self.data.take(len)
            } else {
                self.data + Seq::new((len - self.data.len()) as nat, |i: int| 0u8)
            },
            ..self
        }
    }

    /// The address at which extra code for `pos` starts, if there is one.
    pub open spec fn extra_address(self, pos: HookExtraPos) -> Option<u32> {
        match pos {
            HookExtraPos::Loader => self.loader_extra_address,
            HookExtraPos::Tail => Some(self.end_address() as u32),
        }
    }

    /// What committing extra code at `address` gives.  In the loader arena
    /// the code is written like any other bytes, and the cursor moves
    /// behind it; at the tail it is appended.
    pub open spec fn committed(self, pos: HookExtraPos, address: u32, data: Seq<u8>) -> (
        Result<(), WriterError>,
        HookWriterView,
    ) {
        match pos {
            HookExtraPos::Loader => match self.write_outcome(address, data) {
                Ok(()) => (
                    Ok(()),
                    HookWriterView {
                        loader_extra_address: Some((address + data.len()) as u32),
                        ..self.written(address, data)
                    },
                ),
                Err(e) => (Err(e), self),
            },
            HookExtraPos::Tail => (Ok(()), self.appended(data)),
        }
    }
}

/// The patch image.
pub struct HookWriter {
    base_address: u32,
    loader_extra_address: Option<u32>,
    buffer: Vec<u8>,
    duplicate_write_check: bool,
    write_reasons: Vec<WriteRecord>,
}

impl View for HookWriter {
    type V = HookWriterView;

    closed spec fn view(&self) -> HookWriterView {
        HookWriterView {
            base_address: self.base_address,
            loader_extra_address: self.loader_extra_address,
            data: self.buffer@,
            ledger: records_map(self.write_reasons@),
        }
    }
}

/// Number of records that start below `bound`.
fn records_below(records: &Vec<WriteRecord>, bound: u64) -> (p: usize)
    requires
        records_ordered(records@),
    ensures
        p <= records.len(),
        forall|i: int| 0 <= i < p ==> (#[trigger] records[i]).address < bound,
        forall|i: int| p <= i < records.len() ==> (#[trigger] records[i]).address >= bound,
{
    let mut lo: usize = 0;
    let mut hi: usize = records.len();
    while lo < hi
        invariant
            lo <= hi <= records.len(),
            records_ordered(records@),
            forall|i: int| 0 <= i < lo ==> (#[trigger] records[i]).address < bound,
            forall|i: int| hi <= i < records.len() ==> (#[trigger] records[i]).address >= bound,
        decreases hi - lo,
    {
        let mid = lo + (hi - lo) / 2;
        if (records[mid].address as u64) < bound {
            assert forall|i: int| 0 <= i < mid + 1 implies (#[trigger] records[i]).address
                < bound by {
                if i < mid {
                    assert(records[i].address < records[mid as int].address);
                }
            }
            lo = mid + 1;
        } else {
            assert forall|i: int| mid <= i < records.len() implies (#[trigger] records[i]).address
                >= bound by {
                if mid < i {
                    assert(records[mid as int].address < records[i].address);
                }
            }
            hi = mid;
        }
    }
    lo
}

impl HookWriter {
    /// The image ends within the address space, writes are checked against
    /// the ledger, and the ledger is in order and holds no reason but
    /// `Misc`.
    #[verifier::type_invariant]
    spec fn well_formed(&self) -> bool {
        &&& self.base_address + self.buffer.len() <= u32::MAX
        &&& self.duplicate_write_check
        &&& records_ordered(self.write_reasons@)
        &&& forall|i: int|
            0 <= i < self.write_reasons.len() ==> (#[trigger] self.write_reasons[i]).reason
                is Misc
    }

    /// What the type's invariant gives to the outside.
    proof fn lemma_view_well_formed(&self)
        requires
            self.well_formed(),
        ensures
            self@.well_formed(),
    {
        lemma_ordered_is_disjoint(self.write_reasons@);
    }

    /// A writer over `buffer`, whose first byte stands at `base_address`.
    /// Nothing has been written yet and the loader cursor is not set.
    pub fn new(base_address: u32, buffer: Vec<u8>) -> (r: HookWriter)
        requires
            base_address + buffer.len() <= u32::MAX,
        ensures
            r@ == (HookWriterView {
                base_address,
                loader_extra_address: None,
                data: buffer@,
                ledger: Map::empty(),
            }),
            r@.well_formed(),
    {
        let r = HookWriter {
            base_address,
            loader_extra_address: None,
            buffer,
            duplicate_write_check: true,
            write_reasons: Vec::new(),
        };
        assert(r@.ledger =~= Map::empty());
        proof {
            r.lemma_view_well_formed();
        }
        r
    }

    /// The bytes of the image.
    pub fn data(&self) -> (r: &[u8])
        ensures
            r@ == self@.data,
    {
        self.buffer.as_slice()
    }

    /// Address of the first byte of the image.
    pub fn base_address(&self) -> (r: u32)
        ensures
            r == self@.base_address,
    {
        self.base_address
    }

    /// Address of the first byte behind the image.
    pub fn end_address(&self) -> (r: u32)
        ensures
            r == self@.end_address(),
    {
        proof {
            use_type_invariant(self);
        }
        self.base_address + self.buffer.len() as u32
    }

    /// The loader cursor, if it has been set.
    pub fn loader_extra_address(&self) -> (r: Option<u32>)
        ensures
            r == self@.loader_extra_address,
    {
        self.loader_extra_address
    }

    /// Sets the loader cursor: extra code for the loader arena goes to
    /// `address` next.
    pub fn set_loader_extra_address(&mut self, address: u32)
        ensures
            final(self)@ == (HookWriterView {
                loader_extra_address: Some(address),
                ..old(self)@
            }),
            final(self)@.well_formed(),
    {
        proof {
            use_type_invariant(&*self);
            self.lemma_view_well_formed();
        }
        self.loader_extra_address = Some(address);
    }

    /// Copies the bytes that stand at `address` into `data`, as many as
    /// `data` holds.  Where they do not all lie inside the image, nothing
    /// is copied.
    pub fn read_mut(&self, address: u32, data: &mut [u8]) -> (r: Result<(), WriterError>)
        ensures
            final(data)@.len() == old(data)@.len(),
            match self@.read_outcome(address, old(data)@.len()) {
                Ok(bytes) => r == Ok::<(), WriterError>(()) && final(data)@ == bytes,
                Err(e) => r == Err::<(), WriterError>(e) && final(data)@ == old(data)@,
            },
    {
        proof {
            use_type_invariant(self);
        }
        let n = data.len();
        if address < self.base_address {
            return Err(WriterError::OutOfBoundsRead(address, n));
        }
        let offset = (address - self.base_address) as usize;
        if offset > self.buffer.len() || n > self.buffer.len() - offset {
            return Err(WriterError::OutOfBoundsRead(address, n));
        }
        let mut i: usize = 0;
        while i < n
            invariant
                i <= n,
                n == data@.len(),
                offset + n <= self.buffer.len(),
                forall|j: int| 0 <= j < i ==> data@[j] == self.buffer@[offset + j],
            decreases n - i,
        {
            data[i] = self.buffer[offset + i];
            i += 1;
        }
        assert(data@ =~= self.buffer@.subrange(offset as int, offset + n));
        Ok(())
    }

    /// The `COUNT` bytes that stand at `address`.
    pub fn read<const COUNT: usize>(&self, address: u32) -> (r: Result<[u8; COUNT], WriterError>)
        ensures
            match self@.read_outcome(address, COUNT as nat) {
                Ok(bytes) => r is Ok && r.unwrap()@ == bytes,
                Err(e) => r == Err::<[u8; COUNT], WriterError>(e),
            },
    {
        let mut data = [0u8; COUNT];
        match self.read_mut(address, &mut data) {
            Ok(()) => Ok(data),
            Err(e) => Err(e),
        }
    }

    /// The reason of an earlier write that overlaps the `size` bytes from
    /// `address` on, if there is one.  Of the writes that start below the
    /// end of the range only the last is looked at: the earlier writes do
    /// not overlap each other, so none before it can reach further.
    pub fn find_duplicate_write(&self, address: u32, size: u32) -> (r: Option<&HookWriteReason>)
        ensures
            r is Some == self@.overlaps_record(address, size as nat),
            r matches Some(reason) ==> reason is Misc,
    {
        proof {
            use_type_invariant(self);
        }
        let bound: u64 = address as u64 + size as u64;
        let p = records_below(&self.write_reasons, bound);
        let ghost records = self.write_reasons@;
        if p > 0 {
            let last = &self.write_reasons[p - 1];
            if last.address as u64 + last.size as u64 > address as u64 {
                proof {
                    lemma_record_lookup(records, p - 1);
                    assert(records[p - 1].address < bound);
                    assert(self@.ledger.contains_key(records[p - 1].address));
                }
                return Some(&last.reason);
            }
        }
        proof {
            if self@.overlaps_record(address, size as nat) {
                let ledger = self@.ledger;
                let k = choose|k: u32| #[trigger]
                    ledger.contains_key(k) && k < address + size && address < k + ledger[k];
                let i = choose|i: int| 0 <= i < records.len() && (#[trigger] records[i]).address
                    == k;
                lemma_record_lookup(records, i);
                assert(i < p);
                if i < p - 1 {
                    assert(records[i].address + records[i].size <= records[p - 1].address);
                }
            }
        }
        None
    }

    /// Records a write of `size` bytes at `address`, in place of a record
    /// at the same address if there is one.
    fn record_write(&mut self, address: u32, size: u32)
        requires
            !old(self)@.overlaps_record(address, size as nat),
        ensures
            final(self)@ == (HookWriterView {
                ledger: old(self)@.ledger.insert(address, size),
                ..old(self)@
            }),
            final(self)@.well_formed(),
    {
        proof {
            use_type_invariant(&*self);
        }
        let ghost before = self.write_reasons@;
        let q = records_below(&self.write_reasons, address as u64);
        let replace = q < self.write_reasons.len() && self.write_reasons[q].address == address;
        let mut records: Vec<WriteRecord> = Vec::new();
        std::mem::swap(&mut self.write_reasons, &mut records);
        let record = WriteRecord { address, size, reason: HookWriteReason::Misc };
        proof {
            lemma_room_for_record(before, q as int, address, size);
            lemma_with_record_ordered(before, q as int, record, replace);
            lemma_with_record_map(before, q as int, record, replace);
        }
        if replace {
            records[q] = record;
        } else {
            records.insert(q, record);
        }
        assert(records@ == with_record(before, q as int, record, replace));
        std::mem::swap(&mut self.write_reasons, &mut records);
        proof {
            use_type_invariant(&*self);
            self.lemma_view_well_formed();
        }
    }

    /// Writes `data` at `address`.  The bytes must lie inside the image and
    /// must not overlap an earlier write; the image is left as it was where
    /// they do not.
    pub fn write(&mut self, address: u32, data: &[u8]) -> (r: Result<(), WriterError>)
        ensures
            r == old(self)@.write_outcome(address, data@),
            final(self)@ == (if r is Ok {
                old(self)@.written(address, data@)
            } else {
                old(self)@
            }),
            final(self)@.well_formed(),
    {
        proof {
            use_type_invariant(&*self);
            self.lemma_view_well_formed();
        }
        let n = data.len();
        if address < self.base_address {
            return Err(WriterError::OutOfBoundsWrite(address, n));
        }
        let offset = (address - self.base_address) as usize;
        if offset > self.buffer.len() || n > self.buffer.len() - offset {
            return Err(WriterError::OutOfBoundsWrite(address, n));
        }
        if self.duplicate_write_check {
            if self.find_duplicate_write(address, n as u32).is_some() {
                return Err(WriterError::DuplicateWrite(address, n));
            }
        }
        let ghost before = self.buffer@;
        let mut i: usize = 0;
        while i < n
            invariant
                i <= n == data@.len(),
                offset + n <= self.buffer.len(),
                self.buffer.len() == before.len(),
                self.base_address == old(self).base_address,
                self.loader_extra_address == old(self).loader_extra_address,
                self.write_reasons == old(self).write_reasons,
                self.duplicate_write_check,
                self.base_address + self.buffer.len() <= u32::MAX,
                records_ordered(self.write_reasons@),
                forall|j: int|
                    0 <= j < self.write_reasons.len() ==> (#[trigger] self.write_reasons[j]).reason
                        is Misc,
                forall|j: int| 0 <= j < i ==> self.buffer@[offset + j] == data@[j],
                forall|j: int|
                    0 <= j < before.len() && !(offset <= j < offset + i) ==> self.buffer@[j]
                        == before[j],
            decreases n - i,
        {
            self.buffer[offset + i] = data[i];
            i += 1;
        }
        assert(self.buffer@ =~= before.take(offset as int) + data@ + before.skip(offset + n));
        self.record_write(address, n as u32);
        Ok(())
    }

    /// Appends `data` to the image.  Earlier writes are not looked at: the
    /// bytes are new, so appending always goes through.  The image has to
    /// stay within the 32-bit address space.
    pub fn write_end(&mut self, data: &[u8]) -> (r: Result<(), WriterError>)
        requires
            old(self)@.end_address() + data@.len() <= u32::MAX,
        ensures
            r == Ok::<(), WriterError>(()),
            final(self)@ == old(self)@.appended(data@),
            final(self)@.well_formed(),
    {
        proof {
            use_type_invariant(&*self);
            self.lemma_view_well_formed();
        }
        let mut buffer: Vec<u8> = Vec::new();
        std::mem::swap(&mut self.buffer, &mut buffer);
        let ghost before = buffer@;
        buffer.extend_from_slice(data);
        assert(buffer@ =~= before + data@);
        std::mem::swap(&mut self.buffer, &mut buffer);
        Ok(())
    }

    /// Makes the image end at `until_address`, by cutting it or by filling
    /// it up with zero bytes.  An end below the base address is refused.
    pub fn resize_until(&mut self, until_address: u32) -> (r: Result<(), WriterError>)
        ensures
            until_address < old(self)@.base_address ==> r == Err::<(), WriterError>(
                WriterError::ResizeBelowBaseAddress(until_address),
            ) && final(self)@ == old(self)@,
            until_address >= old(self)@.base_address ==> r == Ok::<(), WriterError>(())
                && final(self)@ == old(self)@.resized(until_address),
            final(self)@.well_formed(),
    {
        proof {
            use_type_invariant(&*self);
            self.lemma_view_well_formed();
        }
        if until_address < self.base_address {
            return Err(WriterError::ResizeBelowBaseAddress(until_address));
        }
        let buf_size = (until_address - self.base_address) as usize;
        let mut buffer: Vec<u8> = Vec::new();
        std::mem::swap(&mut self.buffer, &mut buffer);
        let ghost before = buffer@;
        buffer.resize(buf_size, 0);
        proof {
            if buf_size <= before.len() {
                assert(buffer@ =~= before.take(buf_size as int));
            } else {
                assert(buffer@ =~= before + Seq::new(
                    (buf_size - before.len()) as nat,
                    |i: int| 0u8,
                )) by {
                    assert forall|i: int| 0 <= i < buf_size implies buffer@[i] == (before
                        + Seq::new((buf_size - before.len()) as nat, |i: int| 0u8))[i] by {
                        if i < before.len() {
                            assert(buffer@.subrange(0, before.len() as int)[i] == before[i]);
                        }
                    }
                }
            }
        }
        std::mem::swap(&mut self.buffer, &mut buffer);
        Ok(())
    }

    /// Puts extra code, composed elsewhere for `address`, into the image.
    pub fn commit_extra(&mut self, pos: HookExtraPos, address: u32, data: &[u8]) -> (r: Result<
        (),
        WriterError,
    >)
        requires
            pos is Tail ==> old(self)@.end_address() + data@.len() <= u32::MAX,
        ensures
            (r, final(self)@) == old(self)@.committed(pos, address, data@),
            final(self)@.well_formed(),
    {
        proof {
            use_type_invariant(&*self);
            self.lemma_view_well_formed();
        }
        match pos {
            HookExtraPos::Loader => {
                match self.write(address, data) {
                    Ok(()) => {},
                    Err(e) => {
                        return Err(e);
                    },
                }
                proof {
                    use_type_invariant(&*self);
                }
                self.loader_extra_address = Some(address + data.len() as u32);
                Ok(())
            },
            HookExtraPos::Tail => self.write_end(data),
        }
    }

    /// Hands `write_fn` this writer and an empty one that starts where the
    /// extra code for `pos` will stand, then commits what `write_fn` left in
    /// the second writer.  Without a loader cursor nothing is placed in the
    /// loader arena, and `write_fn` is not called.
    pub fn write_extra<F: FnOnce(&mut HookWriter, &mut HookWriter) -> ()>(
        &mut self,
        pos: HookExtraPos,
        write_fn: F,
    ) -> (r: Result<(), WriterError>)
        requires
            forall|outer: &mut HookWriter, nested: &mut HookWriter|
                *outer == *old(self) && Some(nested@.base_address) == old(self)@.extra_address(pos)
                    && nested@ == HookWriterView::fresh(nested@.base_address)
                    ==> #[trigger] call_requires(write_fn, (outer, nested)),
            pos is Tail ==> forall|outer: &mut HookWriter, nested: &mut HookWriter|
                *outer == *old(self) && nested@ == HookWriterView::fresh(
                    old(self)@.end_address() as u32,
                ) && #[trigger] call_ensures(write_fn, (outer, nested), ()) ==> final(
                    outer
                )@.end_address() + final(nested)@.data.len() <= u32::MAX,
        ensures
            old(self)@.extra_address(pos) is None ==> r == Err::<(), WriterError>(
                WriterError::LoaderExtraAddressNotSet,
            ) && final(self)@ == old(self)@,
            old(self)@.extra_address(pos) matches Some(address) ==> exists|
                outer: &mut HookWriter,
                nested: &mut HookWriter,
            |
                *outer == *old(self) && nested@ == HookWriterView::fresh(address)
                    && #[trigger] call_ensures(write_fn, (outer, nested), ()) && (r, final(self)@)
                    == final(outer)@.committed(pos, address, final(nested)@.data),
            final(self)@.well_formed(),
    {
        proof {
            use_type_invariant(&*self);
            self.lemma_view_well_formed();
        }
        let address = match pos {
            HookExtraPos::Loader => match self.loader_extra_address {
                Some(address) => address,
                None => {
                    return Err(WriterError::LoaderExtraAddressNotSet);
                },
            },
            HookExtraPos::Tail => self.base_address + self.buffer.len() as u32,
        };
        let mut w = HookWriter::new(address, Vec::new());
        write_fn(self, &mut w);
        self.commit_extra(pos, address, w.buffer.as_slice())
    }
}

/// `k` is the start of the last recorded write that starts below `bound`.
pub open spec fn is_last_record_below(ledger: Map<u32, u32>, k: u32, bound: int) -> bool {
    &&& ledger.contains_key(k)
    &&& k < bound
    &&& forall|j: u32| #[trigger] ledger.contains_key(j) && j < bound ==> j <= k
}

/// Where a write starts below a bound, one of them is the last.
proof fn lemma_last_record_exists(ledger: Map<u32, u32>, bound: int) -> (k: u32)
    requires
        exists|j: u32| #[trigger] ledger.contains_key(j) && j < bound,
    ensures
        is_last_record_below(ledger, k, bound),
    decreases bound,
{
    let j = choose|j: u32| #[trigger] ledger.contains_key(j) && j < bound;
    if bound - 1 <= u32::MAX && ledger.contains_key((bound - 1) as u32) {
        (bound - 1) as u32
    } else {
        assert(ledger.contains_key(j) && j < bound - 1);
        lemma_last_record_exists(ledger, bound - 1)
    }
}

/// To find out whether a range overlaps an earlier write it is enough to
/// look at the last write that starts below the end of the range: as no two
/// recorded writes overlap, no earlier one reaches further.
pub proof fn lemma_last_record_decides(w: HookWriterView, address: u32, len: nat)
    requires
        w.ledger_disjoint(),
    ensures
        w.overlaps_record(address, len) <==> exists|k: u32|
            is_last_record_below(w.ledger, k, address + len) && address < k + #[trigger] w.ledger[k],
{
    if w.overlaps_record(address, len) {
        let j = choose|j: u32| #[trigger]
            w.ledger.contains_key(j) && j < address + len && address < j + w.ledger[j];
        let k = lemma_last_record_exists(w.ledger, address + len);
        assert(j <= k);
        assert(address < k + w.ledger[k]);
    }
    if exists|k: u32|
        is_last_record_below(w.ledger, k, address + len) && address < k + #[trigger] w.ledger[k] {
        let k = choose|k: u32|
            is_last_record_below(w.ledger, k, address + len) && address < k
                + #[trigger] w.ledger[k];
        assert(w.ledger.contains_key(k));
    }
}

/// Once the image has been made to end at `until`, the byte before `until`
/// can be read exactly if `until` lies above the base address.
pub proof fn lemma_resized_end_readable(w: HookWriterView, until: u32)
    requires
        w.base_address <= until,
        0 < until,
    ensures
        w.resized(until).end_address() == until,
        w.resized(until).read_outcome((until - 1) as u32, 1) is Ok <==> until > w.base_address,
        w.resized(until).read_outcome(until, 1) is Err,
{
}

/// Appending is refused by no earlier write, whatever the ledger holds:
/// the writer that results has the old bytes with the new ones behind
/// them, the same base address, cursor and ledger, and an end that has
/// moved by the number of bytes appended.
pub proof fn lemma_appended_keeps_image(w: HookWriterView, data: Seq<u8>)
    ensures
        w.appended(data).data == w.data + data,
        w.appended(data).data.take(w.data.len() as int) == w.data,
        w.appended(data).base_address == w.base_address,
        w.appended(data).loader_extra_address == w.loader_extra_address,
        w.appended(data).ledger == w.ledger,
        w.appended(data).end_address() == w.end_address() + data.len(),
        w.ledger_disjoint() ==> w.appended(data).ledger_disjoint(),
{
    assert(w.appended(data).data.take(w.data.len() as int) =~= w.data);
}

/// Whether the `len` bytes from `start` on hold the byte at `byte`.
pub open spec fn covers(start: int, len: int, byte: int) -> bool {
    start <= byte < start + len
}

/// What it is for a range to meet an earlier write.  Where both hold at
/// least one byte, they share a byte.  An earlier write of no bytes is met
/// where it stands strictly inside the range, and a range of no bytes meets
/// an earlier write where it stands strictly inside that write.
pub proof fn lemma_overlap_cases(w: HookWriterView, address: u32, len: nat)
    ensures
        w.overlaps_record(address, len) <==> exists|k: u32| #[trigger]
            w.ledger.contains_key(k) && (if w.ledger[k] > 0 && len > 0 {
                exists|byte: int|
                    #[trigger] covers(address as int, len as int, byte) && covers(
                        k as int,
                        w.ledger[k] as int,
                        byte,
                    )
            } else if len > 0 {
                address < k < address + len
            } else {
                k < address < k + w.ledger[k]
            }),
{
    if w.overlaps_record(address, len) {
        let k = choose|k: u32| #[trigger]
            w.ledger.contains_key(k) && k < address + len && address < k + w.ledger[k];
        if w.ledger[k] > 0 && len > 0 {
            let byte = if k < address {
                address as int
            } else {
                k as int
            };
            assert(covers(address as int, len as int, byte) && covers(
                k as int,
                w.ledger[k] as int,
                byte,
            ));
        }
    }
}

/// A write moves neither end of the image.
pub proof fn lemma_written_keeps_extent(w: HookWriterView, address: u32, data: Seq<u8>)
    requires
        w.write_outcome(address, data) is Ok,
    ensures
        w.written(address, data).base_address == w.base_address,
        w.written(address, data).end_address() == w.end_address(),
        w.written(address, data).loader_extra_address == w.loader_extra_address,
{
}

/// A write that went through can be read back, and the range that it
/// covered is refused from then on, byte by byte.
pub proof fn lemma_written_reads_back(w: HookWriterView, address: u32, data: Seq<u8>)
    requires
        w.write_outcome(address, data) is Ok,
        data.len() > 0,
        data.len() <= u32::MAX,
    ensures
        w.written(address, data).read_outcome(address, data.len()) == Ok::<
            Seq<u8>,
            WriterError,
        >(data),
        forall|a: u32, other: Seq<u8>|
            address <= a && other.len() > 0 && a + other.len() <= address + data.len()
                ==> #[trigger] w.written(address, data).write_outcome(a, other) == Err::<
                (),
                WriterError,
            >(WriterError::DuplicateWrite(a, other.len() as usize)),
{
    let after = w.written(address, data);
    let offset = address - w.base_address;
    assert(after.data.subrange(offset, offset + data.len()) =~= data);
    assert forall|a: u32, other: Seq<u8>|
        address <= a && other.len() > 0 && a + other.len() <= address
            + data.len() implies #[trigger] after.write_outcome(a, other) == Err::<(), WriterError>(
        WriterError::DuplicateWrite(a, other.len() as usize),
    ) by {
        assert(after.ledger.contains_key(address));
        assert(after.data.len() == w.data.len());
    }
}

} // verus!
