use vstd::prelude::*;

use crate::bpb::{DIR_ENTRY_SIZE, SECTOR_SIZE};
use crate::dirent::{display_name, RawDirEntry, DELETED_MARKER, END_MARKER};
use crate::node::DirEntry;

verus! {

/// Number of directory records in one sector.
pub const ENTRIES_PER_SECTOR: usize = 16;

/// First byte of the `i`-th record of a sector.
pub open spec fn first_byte(s: Seq<u8>, i: int) -> u8 {
    s[i * 32]
}

/// Byte offsets of the records that a scan of a sector from record `i` on
/// keeps: deleted records are skipped, an end record stops the scan.
pub open spec fn live_from(s: Seq<u8>, i: int) -> Seq<int>
    decreases 16 - i,
{
    if i < 0 || i >= 16 {
        Seq::empty()
    } else if first_byte(s, i) == END_MARKER {
        Seq::empty()
    } else if first_byte(s, i) == DELETED_MARKER {
        live_from(s, i + 1)
    } else {
        seq![i * 32] + live_from(s, i + 1)
    }
}

/// Whether an end record stands at record `i` or after it.
pub open spec fn ends_from(s: Seq<u8>, i: int) -> bool
    decreases 16 - i,
{
    if i < 0 || i >= 16 {
        false
    } else if first_byte(s, i) == END_MARKER {
        true
    } else {
        ends_from(s, i + 1)
    }
}

/// Decodes the records of one directory sector into `out`, in order,
/// skipping deleted records and stopping at an end record. Returns whether
/// the directory goes on after this sector (no end record was met).
pub fn read_sector_entries(sector: &[u8], out: &mut Vec<RawDirEntry>) -> (more: bool)
    requires
        sector@.len() == SECTOR_SIZE,
    ensures
        more == !ends_from(sector@, 0),
        final(out)@.len() == old(out)@.len() + live_from(sector@, 0).len(),
        final(out)@.take(old(out)@.len() as int) == old(out)@,
        forall|j: int|
            0 <= j < live_from(sector@, 0).len() ==> (#[trigger] final(out)@[old(out)@.len()
                + j]).decodes(sector@, live_from(sector@, 0)[j]),
{
    let ghost base = out@;
    let ghost mut kept: Seq<int> = Seq::empty();
    let mut i: usize = 0;
    while i < ENTRIES_PER_SECTOR
        invariant
            sector@.len() == SECTOR_SIZE,
            i <= 16,
            base == old(out)@,
            live_from(sector@, 0) == kept + live_from(sector@, i as int),
            ends_from(sector@, 0) == ends_from(sector@, i as int),
            out@.len() == base.len() + kept.len(),
            out@.take(base.len() as int) == base,
            forall|j: int|
                0 <= j < kept.len() ==> (#[trigger] out@[base.len() + j]).decodes(
                    sector@,
                    kept[j],
                ),
        decreases 16 - i,
    {
        let offset = i * DIR_ENTRY_SIZE;
        let first = sector[offset];
        if first == END_MARKER {
            assert(live_from(sector@, i as int) =~= Seq::<int>::empty());
            assert(kept + Seq::<int>::empty() =~= kept);
            return false;
        }
        if first != DELETED_MARKER {
            let entry = RawDirEntry::decode(sector, offset);
            let ghost prev = out@;
            out.push(entry);
            proof {
                let k2 = kept.push(offset as int);
                assert(k2 + live_from(sector@, i + 1) =~= kept + (seq![i * 32] + live_from(
                    sector@,
                    i + 1,
                )));
                assert(out@.take(base.len() as int) =~= base);
                assert forall|j: int| 0 <= j < k2.len() implies (#[trigger] out@[base.len()
                    + j]).decodes(sector@, k2[j]) by {
                    if j < kept.len() {
                        assert(out@[base.len() + j] == prev[base.len() + j]);
                    }
                }
                kept = k2;
            }
        }
        i = i + 1;
    }
    assert(live_from(sector@, 16) =~= Seq::<int>::empty());
    assert(kept + Seq::<int>::empty() =~= kept);
    true
}

/// No record stored at or after an end record is ever kept by a scan.
pub proof fn lemma_nothing_after_end(s: Seq<u8>, e: int)
    requires
        0 <= e < 16,
        first_byte(s, e) == END_MARKER,
    ensures
        forall|j: int| 0 <= j < live_from(s, 0).len() ==> #[trigger] live_from(s, 0)[j] < e * 32,
{
    lemma_live_before_end(s, 0, e);
}

proof fn lemma_live_before_end(s: Seq<u8>, i: int, e: int)
    requires
        0 <= i <= e < 16,
        first_byte(s, e) == END_MARKER,
    ensures
        forall|j: int|
            0 <= j < live_from(s, i).len() ==> i * 32 <= #[trigger] live_from(s, i)[j] < e * 32,
    decreases 16 - i,
{
    if i < e && first_byte(s, i) != END_MARKER {
        lemma_live_before_end(s, i + 1, e);
        let rest = live_from(s, i + 1);
        if first_byte(s, i) != DELETED_MARKER {
            let l = seq![i * 32] + rest;
            assert(live_from(s, i) == l);
            assert forall|j: int| 0 <= j < l.len() implies i * 32 <= #[trigger] l[j] < e * 32 by {
                if j > 0 {
                    assert(l[j] == rest[j - 1]);
                }
            }
        }
    }
}

/// Where the records that a scan of the sectors `ss`, fed in order, keeps
/// were found: (index of the sector in `ss`, byte offset in that sector).
pub open spec fn scan_positions(ss: Seq<Seq<u8>>) -> Seq<(int, int)>
    decreases ss.len(),
{
    if ss.len() == 0 {
        Seq::empty()
    } else {
        let k = ss.len() - 1;
        scan_positions(ss.drop_last()) + live_from(ss.last(), 0).map_values(|o: int| (k, o))
    }
}

/// A scan of a directory across its sectors: the records kept so far, and
/// whether an end record has been met.
pub struct DirScan {
    pub records: Vec<RawDirEntry>,
    pub ended: bool,
    /// The sectors fed so far, in order.
    pub fed: Ghost<Seq<Seq<u8>>>,
}

impl DirScan {
    /// The records are exactly those that the sectors fed keep, in order;
    /// the scan has ended once a sector held an end record, and only the
    /// last sector fed can hold one.
    pub open spec fn wf(&self) -> bool {
        let ss = self.fed@;
        let pos = scan_positions(ss);
        &&& self.records@.len() == pos.len()
        &&& forall|j: int|
            0 <= j < pos.len() ==> 0 <= (#[trigger] pos[j]).0 < ss.len() && self.records@[j].decodes(
                ss[pos[j].0],
                pos[j].1,
            )
        &&& forall|i: int| 0 <= i < ss.len() ==> (#[trigger] ss[i]).len() == SECTOR_SIZE
        &&& forall|i: int| 0 <= i < ss.len() - 1 ==> !ends_from(#[trigger] ss[i], 0)
        &&& self.ended == (ss.len() > 0 && ends_from(ss.last(), 0))
    }

    /// A scan that has seen no sector.
    pub fn new() -> (r: DirScan)
        ensures
            r.wf(),
            r.fed@ == Seq::<Seq<u8>>::empty(),
            !r.ended,
            r.records@.len() == 0,
    {
        DirScan { records: Vec::new(), ended: false, fed: Ghost(Seq::empty()) }
    }

    /// Scans the next sector of the directory.
    pub fn feed(&mut self, sector: &[u8])
        requires
            old(self).wf(),
            !old(self).ended,
            sector@.len() == SECTOR_SIZE,
        ensures
            final(self).wf(),
            final(self).fed@ == old(self).fed@.push(sector@),
            final(self).ended == ends_from(sector@, 0),
    {
        let ghost old_pos = scan_positions(self.fed@);
        let ghost old_fed = self.fed@;
        let ghost old_records = self.records@;
        let more = read_sector_entries(sector, &mut self.records);
        self.ended = !more;
        self.fed = Ghost(self.fed@.push(sector@));
        proof {
            let ss = self.fed@;
            let k = old_fed.len() as int;
            assert(ss.drop_last() =~= old_fed);
            let live = live_from(sector@, 0);
            let pos = scan_positions(ss);
            assert(pos == old_pos + live.map_values(|o: int| (k, o)));
            assert forall|j: int| 0 <= j < pos.len() implies 0 <= (#[trigger] pos[j]).0 < ss.len()
                && self.records@[j].decodes(ss[pos[j].0], pos[j].1) by {
                if j < old_pos.len() {
                    assert(pos[j] == old_pos[j]);
                    assert(self.records@[j] == self.records@.take(old_records.len() as int)[j]);
                    assert(ss[old_pos[j].0] == old_fed[old_pos[j].0]);
                } else {
                    let t = j - old_pos.len();
                    assert(pos[j] == (k, live[t]));
                    assert(self.records@[old_records.len() + t].decodes(sector@, live[t]));
                }
            }
            assert forall|i: int| 0 <= i < ss.len() - 1 implies !ends_from(#[trigger] ss[i], 0) by {
                assert(ss[i] == old_fed[i]);
            }
            assert forall|i: int| 0 <= i < ss.len() implies (#[trigger] ss[i]).len()
                == SECTOR_SIZE by {
                if i < k {
                    assert(ss[i] == old_fed[i]);
                }
            }
        }
    }
}

/// Across the sectors of a directory, no record kept by a scan lies at or
/// after an end record: a kept record comes from an earlier sector, or from
/// the same sector at a smaller offset.
pub proof fn lemma_scan_stops_at_end(scan: &DirScan, i: int, e: int)
    requires
        scan.wf(),
        0 <= i < scan.fed@.len(),
        0 <= e < 16,
        first_byte(scan.fed@[i], e) == END_MARKER,
    ensures
        forall|j: int|
            0 <= j < scan_positions(scan.fed@).len() ==> {
                let p = #[trigger] scan_positions(scan.fed@)[j];
                p.0 < i || (p.0 == i && p.1 < e * 32)
            },
{
    let ss = scan.fed@;
    lemma_ends_from_end(ss[i], 0, e);
    assert(i == ss.len() - 1);
    lemma_positions_in_last(ss);
    lemma_nothing_after_end(ss[i], e);
}

/// An end record at record `e` ends a scan from any record at or before it.
proof fn lemma_ends_from_end(s: Seq<u8>, i: int, e: int)
    requires
        0 <= i <= e < 16,
        first_byte(s, e) == END_MARKER,
    ensures
        ends_from(s, i),
    decreases e - i,
{
    if i < e && first_byte(s, i) != END_MARKER {
        lemma_ends_from_end(s, i + 1, e);
    }
}

/// The positions kept from the last sector fed are those a scan of that
/// sector keeps; all others come from earlier sectors.
proof fn lemma_positions_in_last(ss: Seq<Seq<u8>>)
    requires
        ss.len() > 0,
    ensures
        forall|j: int|
            0 <= j < scan_positions(ss).len() ==> {
                let p = #[trigger] scan_positions(ss)[j];
                p.0 < ss.len() - 1 || (p.0 == ss.len() - 1 && live_from(ss.last(), 0).contains(p.1))
            },
{
    let k = ss.len() - 1;
    let head = scan_positions(ss.drop_last());
    let live = live_from(ss.last(), 0);
    let pos = scan_positions(ss);
    lemma_positions_before(ss.drop_last());
    assert forall|j: int| 0 <= j < pos.len() implies {
        let p = #[trigger] pos[j];
        p.0 < k || (p.0 == k && live.contains(p.1))
    } by {
        if j >= head.len() {
            assert(pos[j] == (k, live[j - head.len()]));
        } else {
            assert(pos[j] == head[j]);
        }
    }
}

/// Every position kept from the sectors `ss` names one of them.
proof fn lemma_positions_before(ss: Seq<Seq<u8>>)
    ensures
        forall|j: int|
            0 <= j < scan_positions(ss).len() ==> 0 <= (#[trigger] scan_positions(ss)[j]).0
                < ss.len(),
    decreases ss.len(),
{
    if ss.len() > 0 {
        lemma_positions_before(ss.drop_last());
        let head = scan_positions(ss.drop_last());
        let pos = scan_positions(ss);
        assert forall|j: int| 0 <= j < pos.len() implies 0 <= (#[trigger] pos[j]).0 < ss.len() by {
            if j < head.len() {
                assert(pos[j] == head[j]);
            }
        }
    }
}

/// Listing a directory gives, in on-disk order, one entry per record that
/// the scan of its sectors keeps (deleted records skipped, nothing from an
/// end record on), each named by the display name of that record's bytes.
pub proof fn lemma_listing_names(scan: &DirScan, entries: Seq<DirEntry>)
    requires
        scan.wf(),
        entries.len() == scan.records@.len(),
        forall|i: int| 0 <= i < entries.len() ==> (#[trigger] entries[i]).spec_dirent()
            == scan.records@[i],
    ensures
        entries.len() == scan_positions(scan.fed@).len(),
        forall|j: int|
            0 <= j < entries.len() ==> {
                let p = scan_positions(scan.fed@)[j];
                let s = scan.fed@[p.0];
                (#[trigger] entries[j]).spec_dirent().spec_filename() == display_name(
                    s.subrange(p.1, p.1 + 8),
                    s.subrange(p.1 + 8, p.1 + 11),
                )
            },
{
    assert forall|j: int| 0 <= j < entries.len() implies {
        let p = scan_positions(scan.fed@)[j];
        let s = scan.fed@[p.0];
        (#[trigger] entries[j]).spec_dirent().spec_filename() == display_name(
            s.subrange(p.1, p.1 + 8),
            s.subrange(p.1 + 8, p.1 + 11),
        )
    } by {
        assert(scan.records@[j].decodes(
            scan.fed@[scan_positions(scan.fed@)[j].0],
            scan_positions(scan.fed@)[j].1,
        ));
    }
}

} // verus!
