//! An AMD GPU as the monitor knows it: where it sits and which of its
//! properties decide how its usage is read.
use vstd::prelude::*;
use crate::pci_slot::PciSlot;
use crate::text::{
    CharClass, chars_of, hex_digit, hex_value, is_decimal, run_end, skip_run, slice_of, split_on,
    split_pieces, string_of,
};

verus! {

/// First graphics-core generation whose media engines may be combined.
pub const COMBINED_MEDIA_MIN_GC: i64 = 9;

/// First video-core generation with a combined media engine.
pub const COMBINED_MEDIA_MIN_VCN: i64 = 4;

/// An AMD GPU.
#[derive(Clone, Debug)]
pub struct AmdGpu {
    /// The PCI device id, where the device is known.
    pub device: Option<u16>,
    pub pci_slot: PciSlot,
    pub driver: String,
    pub sysfs_path: String,
    pub first_hwmon_path: Option<String>,
    /// Whether encoding and decoding share one engine.
    pub combined_media_engine: bool,
}

/// Encoding and decoding share one engine where the graphics core is of
/// generation 9 or later and the video core of generation 4 or later; where
/// either generation is unknown they are taken as separate.
pub open spec fn combined_media(gc_major: Option<i64>, vcn_major: Option<i64>) -> bool {
    match (gc_major, vcn_major) {
        (Some(gc), Some(vcn)) => gc >= COMBINED_MEDIA_MIN_GC && vcn >= COMBINED_MEDIA_MIN_VCN,
        _ => false,
    }
}

impl AmdGpu {
    /// Describes a GPU; `gc_major` and `vcn_major` are the major versions of
    /// its graphics and video cores as its IP discovery reports them, `None`
    /// where they could not be read.
    pub fn new(
        device: Option<u16>,
        pci_slot: PciSlot,
        driver: String,
        sysfs_path: String,
        first_hwmon_path: Option<String>,
        gc_major: Option<i64>,
        vcn_major: Option<i64>,
    ) -> (r: AmdGpu)
        ensures
            r.device == device,
            r.pci_slot == pci_slot,
            r.driver@ == driver@,
            r.sysfs_path@ == sysfs_path@,
            r.first_hwmon_path == first_hwmon_path,
            r.combined_media_engine == combined_media(gc_major, vcn_major),
    {
        let combined_media_engine = match (gc_major, vcn_major) {
            (Some(gc), Some(vcn)) => gc >= COMBINED_MEDIA_MIN_GC && vcn >= COMBINED_MEDIA_MIN_VCN,
            _ => false,
        };
        AmdGpu { device, pci_slot, driver, sysfs_path, first_hwmon_path, combined_media_engine }
    }

    pub fn device(&self) -> (r: Option<u16>)
        ensures
            r == self.device,
    {
        self.device
    }

    pub fn pci_slot(&self) -> (r: PciSlot)
        ensures
            r == self.pci_slot,
    {
        self.pci_slot
    }

    pub fn driver(&self) -> (r: String)
        ensures
            r@ == self.driver@,
    {
        self.driver.clone()
    }

    pub fn sysfs_path(&self) -> (r: String)
        ensures
            r@ == self.sysfs_path@,
    {
        self.sysfs_path.clone()
    }

    pub fn first_hwmon(&self) -> (r: Option<String>)
        ensures
            r is Some <==> self.first_hwmon_path is Some,
            r is Some ==> r->Some_0@ == self.first_hwmon_path->Some_0@,
    {
        match &self.first_hwmon_path {
            Some(p) => Some(p.clone()),
            None => None,
        }
    }

    /// Whether encoding and decoding share one engine on this GPU.
    pub fn combined_media_engine(&self) -> (r: bool)
        ensures
            r == self.combined_media_engine,
    {
        self.combined_media_engine
    }
}

/// One line of the `amdgpu.ids` table: a device id, a revision and the
/// marketing name of that device.
#[derive(Clone, Debug, PartialEq, Eq)]
pub struct AmdGpuId {
    pub device_id: u16,
    pub revision: u8,
    pub name: String,
}

pub open spec fn is_upper_hex(c: char) -> bool {
    is_decimal(c) || ('A' <= c && c <= 'F')
}

/// Where the revision of an entry that starts at `p` stands.
pub open spec fn revision_start(line: Seq<char>, p: int) -> int {
    run_end(line, p + 5, CharClass::Space)
}

/// Where the name of an entry that starts at `p` starts.
pub open spec fn name_start(line: Seq<char>, p: int) -> int {
    run_end(line, revision_start(line, p) + 3, CharClass::Space)
}

/// An entry `XXXX, YY, name` of the table starts at `p` of a line: four
/// upper-case hexadecimal digits, a comma, blanks, two digits, a comma.
pub open spec fn ids_entry_at(line: Seq<char>, p: int) -> bool {
    &&& 0 <= p && p + 5 <= line.len()
    &&& is_upper_hex(line[p]) && is_upper_hex(line[p + 1]) && is_upper_hex(line[p + 2])
        && is_upper_hex(line[p + 3])
    &&& line[p + 4] == ','
    &&& revision_start(line, p) + 3 <= line.len()
    &&& is_upper_hex(line[revision_start(line, p)]) && is_upper_hex(
        line[revision_start(line, p) + 1],
    )
    &&& line[revision_start(line, p) + 2] == ','
}

pub open spec fn first_ids_entry_at(line: Seq<char>, p: int) -> bool {
    ids_entry_at(line, p) && forall|q: int| 0 <= q < p ==> !ids_entry_at(line, q)
}

/// The entry of a line of the table (its leftmost), if it holds one.
pub open spec fn ids_entry(line: Seq<char>) -> Option<(u16, u8, Seq<char>)> {
    if exists|p: int| first_ids_entry_at(line, p) {
        let p = choose|p: int| first_ids_entry_at(line, p);
        let q = revision_start(line, p);
        Some(
            (
                (hex_value(line[p]) * 4096 + hex_value(line[p + 1]) * 256 + hex_value(line[p + 2])
                    * 16 + hex_value(line[p + 3])) as u16,
                (hex_value(line[q]) * 16 + hex_value(line[q + 1])) as u8,
                line.subrange(name_start(line, p), line.len() as int),
            ),
        )
    } else {
        None
    }
}

/// The entries of the lines of a table, in order.
pub open spec fn ids_entries(lines: Seq<Seq<char>>) -> Seq<(u16, u8, Seq<char>)>
    decreases lines.len(),
{
    if lines.len() == 0 {
        Seq::empty()
    } else {
        ids_entries(lines.drop_last()) + match ids_entry(lines.last()) {
            Some(e) => seq![e],
            None => Seq::empty(),
        }
    }
}

fn upper_hex(c: char) -> (r: bool)
    ensures
        r == is_upper_hex(c),
{
    ('0' <= c && c <= '9') || ('A' <= c && c <= 'F')
}

/// Whether an entry of the table starts at `p` of `line`.
fn entry_at(line: &Vec<char>, p: usize) -> (r: bool)
    ensures
        r == ids_entry_at(line@, p as int),
{
    if p > line.len() || 5 > line.len() - p {
        return false;
    }
    if !(upper_hex(line[p]) && upper_hex(line[p + 1]) && upper_hex(line[p + 2]) && upper_hex(
        line[p + 3],
    ) && line[p + 4] == ',') {
        return false;
    }
    let q = skip_run(line, p + 5, CharClass::Space);
    if 3 > line.len() - q {
        return false;
    }
    upper_hex(line[q]) && upper_hex(line[q + 1]) && line[q + 2] == ','
}

/// The entry of one line of the table, if it holds one.
pub fn parse_ids_line(line: &Vec<char>) -> (r: Option<AmdGpuId>)
    ensures
        match ids_entry(line@) {
            Some(e) => r is Some && r->Some_0.device_id == e.0 && r->Some_0.revision == e.1
                && r->Some_0.name@ == e.2,
            None => r is None,
        },
{
    let mut p: usize = 0;
    while p < line.len() && !entry_at(line, p)
        invariant
            p <= line.len(),
            forall|q: int| 0 <= q < p ==> !ids_entry_at(line@, q),
        decreases line.len() - p,
    {
        p = p + 1;
    }
    if p == line.len() {
        assert forall|q: int| !ids_entry_at(line@, q) by {
            if q >= line.len() {
                assert(!(q + 5 <= line.len()));
            }
        }
        return None;
    }
    assert(first_ids_entry_at(line@, p as int));
    proof {
        let c = choose|c: int| first_ids_entry_at(line@, c);
        assert(c == p) by {
            if c < p {
                assert(!ids_entry_at(line@, c));
            }
            if c > p {
                assert(!ids_entry_at(line@, p as int));
            }
        }
    }
    let q = skip_run(line, p + 5, CharClass::Space);
    let device_id = hex_digit(line[p]) as u16 * 4096 + hex_digit(line[p + 1]) as u16 * 256
        + hex_digit(line[p + 2]) as u16 * 16 + hex_digit(line[p + 3]) as u16;
    let revision = hex_digit(line[q]) * 16 + hex_digit(line[q + 1]);
    let n = skip_run(line, q + 3, CharClass::Space);
    let name = string_of(&slice_of(line, n, line.len()));
    Some(AmdGpuId { device_id, revision, name })
}

/// The entries of an `amdgpu.ids` table, one for each line that holds one,
/// in the order of the lines.
pub fn parse_amdgpu_ids(content: &str) -> (r: Vec<AmdGpuId>)
    ensures
        r@.len() == ids_entries(split_on(content@, '\n')).len(),
        forall|i: int|
            0 <= i < r@.len() ==> {
                let e = #[trigger] ids_entries(split_on(content@, '\n'))[i];
                r@[i].device_id == e.0 && r@[i].revision == e.1 && r@[i].name@ == e.2
            },
{
    let t = chars_of(content);
    let lines = split_pieces(&t, '\n');
    let ghost ls = split_on(content@, '\n');
    let mut r: Vec<AmdGpuId> = Vec::new();
    let mut k: usize = 0;
    assert(ls.subrange(0, 0) =~= Seq::<Seq<char>>::empty());
    while k < lines.len()
        invariant
            k <= lines.len() == ls.len(),
            forall|j: int| 0 <= j < lines.len() ==> #[trigger] lines[j]@ == ls[j],
            r@.len() == ids_entries(ls.subrange(0, k as int)).len(),
            forall|i: int|
                0 <= i < r@.len() ==> {
                    let e = #[trigger] ids_entries(ls.subrange(0, k as int))[i];
                    r@[i].device_id == e.0 && r@[i].revision == e.1 && r@[i].name@ == e.2
                },
        decreases lines.len() - k,
    {
        let ghost before = ids_entries(ls.subrange(0, k as int));
        assert(ls.subrange(0, k + 1).drop_last() =~= ls.subrange(0, k as int));
        assert(ls.subrange(0, k + 1).last() == ls[k as int]);
        let ghost after = ids_entries(ls.subrange(0, k + 1));
        match parse_ids_line(&lines[k]) {
            Some(e) => {
                assert(after == before + seq![ids_entry(ls[k as int])->Some_0]);
                r.push(e);
                assert forall|i: int| 0 <= i < r@.len() implies {
                    let e = #[trigger] after[i];
                    r@[i].device_id == e.0 && r@[i].revision == e.1 && r@[i].name@ == e.2
                } by {
                    if i < before.len() {
                        assert(after[i] == before[i]);
                    }
                }
            },
            None => {
                assert(after =~= before);
            },
        }
        k = k + 1;
    }
    assert(ls.subrange(0, ls.len() as int) =~= ls);
    r
}

/// The entry at `i` is the last of the table for this device and revision.
pub open spec fn last_id_at(ids: Seq<AmdGpuId>, device_id: u16, revision: u8, i: int) -> bool {
    &&& 0 <= i < ids.len()
    &&& ids[i].device_id == device_id && ids[i].revision == revision
    &&& forall|j: int|
        i < j < ids.len() ==> !((#[trigger] ids[j]).device_id == device_id && ids[j].revision
            == revision)
}

/// The name that a table gives a device and revision; where it gives several,
/// the last one counts.
pub fn amdgpu_name(ids: &Vec<AmdGpuId>, device_id: u16, revision: u8) -> (r: Option<String>)
    ensures
        r is Some <==> exists|i: int| last_id_at(ids@, device_id, revision, i),
        r is Some ==> exists|i: int|
            last_id_at(ids@, device_id, revision, i) && r->Some_0@ == ids@[i].name@,
{
    let mut k: usize = ids.len();
    while k > 0
        invariant
            k <= ids.len(),
            forall|j: int|
                k <= j < ids.len() ==> !((#[trigger] ids@[j]).device_id == device_id
                    && ids@[j].revision == revision),
        decreases k,
    {
        k = k - 1;
        if ids[k].device_id == device_id && ids[k].revision == revision {
            assert(last_id_at(ids@, device_id, revision, k as int));
            return Some(ids[k].name.clone());
        }
    }
    assert forall|i: int| !last_id_at(ids@, device_id, revision, i) by {
        if 0 <= i < ids.len() {
            assert(!(ids@[i].device_id == device_id && ids@[i].revision == revision));
        }
    }
    None
}

} // verus!
