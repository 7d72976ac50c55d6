//! Parsers for the text files of a process directory: `stat`, `statm`,
//! `status`, `io`, `comm` and `cmdline`.
use vstd::prelude::*;
use crate::niceness::{Niceness, is_niceness};
use crate::text::{
    CharClass, chars_of, field_number, field_u64, field_value, find_field, hex_digit, hex_value,
    integer_in, min_nat, parse_signed, parse_unsigned, saturating_mul_usize,
    slice_of, split_on, split_pieces, starts_with, starts_with_word,
};

verus! {

/// Which sandbox, if any, a process runs in.
#[derive(Clone, Copy, Debug, PartialEq, Eq, Structural, Hash)]
pub enum Containerization {
    /// Neither of the sandboxes below.
    Uncontained,
    Flatpak,
    Snap,
}

impl Default for Containerization {
    fn default() -> (r: Containerization)
        ensures
            r == Containerization::Uncontained,
    {
        Containerization::Uncontained
    }
}

/// The fields of `stat` that a snapshot keeps.
#[derive(Clone, Copy, Debug, PartialEq, Eq, Structural)]
pub struct StatFields {
    pub parent_pid: i32,
    pub user_cpu_time: u64,
    pub system_cpu_time: u64,
    pub niceness: Niceness,
    pub starttime: u64,
}

/// The part of `stat` after the executable name: what follows the last `)`.
pub open spec fn after_name(stat: Seq<char>) -> Seq<char> {
    split_on(stat, ')').last()
}

/// Field `k` of `stat`, counting from 0 for the pid. The text after the name
/// starts with a space, so field `k` is its piece `k - 1`.
pub open spec fn stat_field(stat: Seq<char>, k: int) -> Option<Seq<char>> {
    let pieces = split_on(after_name(stat), ' ');
    if 0 <= k - 1 < pieces.len() {
        Some(pieces[k - 1])
    } else {
        None
    }
}

pub open spec fn stat_number(stat: Seq<char>, k: int, lo: int, hi: int) -> Option<int> {
    match stat_field(stat, k) {
        Some(f) => integer_in(f, lo, hi),
        None => None,
    }
}

pub const STAT_PARENT_PID: usize = 3;

pub const STAT_USER_CPU_TIME: usize = 13;

pub const STAT_SYSTEM_CPU_TIME: usize = 14;

pub const STAT_NICE: usize = 18;

pub const STAT_STARTTIME: usize = 21;

/// Whether `stat` has all the fields a snapshot keeps, each readable and in range.
pub open spec fn stat_complete(stat: Seq<char>) -> bool {
    &&& stat_number(stat, STAT_PARENT_PID as int, i32::MIN as int, i32::MAX as int) is Some
    &&& stat_number(stat, STAT_USER_CPU_TIME as int, 0, u64::MAX as int) is Some
    &&& stat_number(stat, STAT_SYSTEM_CPU_TIME as int, 0, u64::MAX as int) is Some
    &&& stat_number(stat, STAT_NICE as int, i8::MIN as int, i8::MAX as int) is Some
    &&& is_niceness(stat_number(stat, STAT_NICE as int, i8::MIN as int, i8::MAX as int)->Some_0)
    &&& stat_number(stat, STAT_STARTTIME as int, 0, u64::MAX as int) is Some
}

/// The value that the field `k` of `t`'s pieces writes, within `[lo, hi]`.
fn piece_signed(pieces: &Vec<Vec<char>>, k: usize, lo: i64, hi: i64) -> (r: Option<i64>)
    requires
        i64::MIN < lo < 0 <= hi,
    ensures
        k < pieces.len() ==> match integer_in(pieces[k as int]@, lo as int, hi as int) {
            Some(v) => r == Some(v as i64),
            None => r is None,
        },
        k >= pieces.len() ==> r is None,
{
    if k >= pieces.len() {
        return None;
    }
    let p = &pieces[k];
    assert(p@.subrange(0, p.len() as int) =~= p@);
    parse_signed(p, 0, p.len(), lo, hi)
}

fn piece_unsigned(pieces: &Vec<Vec<char>>, k: usize, max: u64) -> (r: Option<u64>)
    ensures
        k < pieces.len() ==> match integer_in(pieces[k as int]@, 0, max as int) {
            Some(v) => r == Some(v as u64),
            None => r is None,
        },
        k >= pieces.len() ==> r is None,
{
    if k >= pieces.len() {
        return None;
    }
    let p = &pieces[k];
    assert(p@.subrange(0, p.len() as int) =~= p@);
    parse_unsigned(p, 0, p.len(), max)
}

/// Reads parent pid, CPU times, niceness and start time out of `stat`;
/// `None` where one of them is missing, unreadable or out of range.
pub fn parse_stat(stat: &str) -> (r: Option<StatFields>)
    ensures
        r is Some <==> stat_complete(stat@),
        r is Some ==> {
            let f = r->Some_0;
            &&& f.parent_pid as int == stat_number(
                stat@,
                STAT_PARENT_PID as int,
                i32::MIN as int,
                i32::MAX as int,
            )->Some_0
            &&& f.user_cpu_time as int == stat_number(
                stat@,
                STAT_USER_CPU_TIME as int,
                0,
                u64::MAX as int,
            )->Some_0
            &&& f.system_cpu_time as int == stat_number(
                stat@,
                STAT_SYSTEM_CPU_TIME as int,
                0,
                u64::MAX as int,
            )->Some_0
            &&& f.niceness.value() == stat_number(
                stat@,
                STAT_NICE as int,
                i8::MIN as int,
                i8::MAX as int,
            )->Some_0
            &&& f.starttime as int == stat_number(
                stat@,
                STAT_STARTTIME as int,
                0,
                u64::MAX as int,
            )->Some_0
        },
{
    let t = chars_of(stat);
    let parts = split_pieces(&t, ')');
    let rest = &parts[parts.len() - 1];
    let pieces = split_pieces(rest, ' ');
    let ghost ps = split_on(after_name(stat@), ' ');
    assert(rest@ == after_name(stat@));
    assert(pieces.len() == ps.len());
    let parent = piece_signed(&pieces, STAT_PARENT_PID - 1, i32::MIN as i64, i32::MAX as i64);
    let user = piece_unsigned(&pieces, STAT_USER_CPU_TIME - 1, u64::MAX);
    let system = piece_unsigned(&pieces, STAT_SYSTEM_CPU_TIME - 1, u64::MAX);
    let nice = piece_signed(&pieces, STAT_NICE - 1, i8::MIN as i64, i8::MAX as i64);
    let start = piece_unsigned(&pieces, STAT_STARTTIME - 1, u64::MAX);
    match (parent, user, system, nice, start) {
        (Some(parent), Some(user), Some(system), Some(nice), Some(start)) => {
            match Niceness::try_new(nice as i8) {
                Ok(niceness) => Some(
                    StatFields {
                        parent_pid: parent as i32,
                        user_cpu_time: user,
                        system_cpu_time: system,
                        niceness,
                        starttime: start,
                    },
                ),
                Err(_) => None,
            }
        },
        _ => None,
    }
}

/// Field `k` of `statm`, counting from 0, as an integer that fits a `usize`.
pub open spec fn statm_number(statm: Seq<char>, k: int) -> Option<int> {
    let pieces = split_on(statm, ' ');
    if 0 <= k < pieces.len() {
        integer_in(pieces[k], 0, usize::MAX as int)
    } else {
        None
    }
}

/// Resident pages not shared with other processes, in bytes, saturating at
/// `usize::MAX`; where fewer pages are resident than shared, 0.
pub open spec fn memory_of(resident: int, shared: int, page_size: int) -> int {
    min_nat(
        (if resident >= shared {
            resident - shared
        } else {
            0
        }) * page_size,
        usize::MAX as int,
    )
}

/// Memory use never goes below zero: where fewer pages are resident than
/// shared it is 0, and otherwise it is the difference in bytes unless that
/// exceeds `usize::MAX`.
pub proof fn lemma_memory_of(resident: int, shared: int, page_size: int)
    requires
        0 <= resident,
        0 <= shared,
        0 <= page_size,
    ensures
        0 <= memory_of(resident, shared, page_size) <= usize::MAX,
        resident <= shared ==> memory_of(resident, shared, page_size) == 0,
        resident > shared && (resident - shared) * page_size <= usize::MAX ==> memory_of(
            resident,
            shared,
            page_size,
        ) == (resident - shared) * page_size,
{
    assert(0 <= (if resident >= shared {
        resident - shared
    } else {
        0
    }) * page_size) by (nonlinear_arith)
        requires
            0 <= page_size,
    ;
}

/// Memory used by a process, from its `statm`: resident minus shared pages,
/// in bytes. `None` where either count is missing or unreadable.
pub fn memory_usage(statm: &str, page_size: usize) -> (r: Option<usize>)
    ensures
        r is Some <==> statm_number(statm@, 1) is Some && statm_number(statm@, 2) is Some,
        r is Some ==> r->Some_0 == memory_of(
            statm_number(statm@, 1)->Some_0,
            statm_number(statm@, 2)->Some_0,
            page_size as int,
        ),
{
    let t = chars_of(statm);
    let pieces = split_pieces(&t, ' ');
    let resident = piece_unsigned(&pieces, 1, usize::MAX as u64);
    let shared = piece_unsigned(&pieces, 2, usize::MAX as u64);
    match (resident, shared) {
        (Some(resident), Some(shared)) => {
            let pages = (resident as usize).saturating_sub(shared as usize);
            Some(saturating_mul_usize(pages, page_size))
        },
        _ => None,
    }
}

/// The leftmost field `Cpus_allowed: <hex digits>` of `status`, if any.
pub open spec fn affinity_mask(status: Seq<char>) -> Seq<char> {
    match field_value(status, "Cpus_allowed:"@, CharClass::Hex, ""@) {
        Some(m) => m,
        None => Seq::empty(),
    }
}

/// Whether CPU `i` is allowed by a hexadecimal mask: bit `i % 4` of digit
/// `i / 4`, counting digits from the right. Digits the mask lacks are 0.
pub open spec fn mask_bit(mask: Seq<char>, i: int) -> bool {
    i / 4 < mask.len() && (hex_value(mask[mask.len() - 1 - i / 4]) >> ((i % 4) as u8)) & 1u8
        == 1u8
}

/// The CPUs a process may run on, one flag per logical CPU in order of CPU
/// index, from the `Cpus_allowed:` mask of its `status`; all false where the
/// mask is missing.
pub fn affinity(status: &str, num_cpus: usize) -> (r: Vec<bool>)
    ensures
        r@.len() == num_cpus,
        forall|i: int| 0 <= i < num_cpus ==> r@[i] == mask_bit(affinity_mask(status@), i),
{
    let t = chars_of(status);
    let key = chars_of("Cpus_allowed:");
    let unit = chars_of("");
    let mask = match find_field(&t, &key, CharClass::Hex, &unit) {
        Some((s, e)) => slice_of(&t, s, e),
        None => Vec::new(),
    };
    assert(mask@ == affinity_mask(status@));
    let mut r: Vec<bool> = Vec::new();
    let mut i: usize = 0;
    while i < num_cpus
        invariant
            i <= num_cpus,
            r@.len() == i,
            mask@ == affinity_mask(status@),
            forall|j: int| 0 <= j < i ==> r@[j] == mask_bit(mask@, j),
        decreases num_cpus - i,
    {
        let bit = if i / 4 < mask.len() {
            let d = hex_digit(mask[mask.len() - 1 - i / 4]);
            (d >> ((i % 4) as u8)) & 1u8 == 1u8
        } else {
            false
        };
        r.push(bit);
        i = i + 1;
    }
    r
}

pub open spec fn swap_of(status: Seq<char>) -> usize {
    match field_number(status, "VmSwap:"@, "kB"@, usize::MAX as nat) {
        Some(n) => min_nat((n * 1000) as int, usize::MAX as int) as usize,
        None => 0,
    }
}

pub open spec fn uid_of(status: Seq<char>) -> u32 {
    match field_number(status, "Uid:"@, ""@, u32::MAX as nat) {
        Some(n) => n as u32,
        None => 0,
    }
}

pub open spec fn io_counter_of(io: Seq<char>, key: Seq<char>) -> Option<u64> {
    match field_number(io, key, ""@, u64::MAX as nat) {
        Some(n) => Some(n as u64),
        None => None,
    }
}

/// Swap used by a process, in bytes, from the `VmSwap: <n> kB` line of its
/// `status` (kB counted as 1000 bytes, saturating); 0 where there is none or
/// it does not fit a `usize`.
pub fn swap_usage(status: &str) -> (r: usize)
    ensures
        r == swap_of(status@),
{
    let t = chars_of(status);
    match field_u64(&t, "VmSwap:", "kB", usize::MAX as u64) {
        Some(n) => saturating_mul_usize(n as usize, 1000),
        None => 0,
    }
}

/// The user id of a process, from the `Uid:` line of its `status`; 0 (root)
/// where there is none or it does not fit a `u32`.
pub fn uid(status: &str) -> (r: u32)
    ensures
        r == uid_of(status@),
{
    let t = chars_of(status);
    match field_u64(&t, "Uid:", "", u32::MAX as u64) {
        Some(n) => n as u32,
        None => 0,
    }
}

/// Bytes read and written by a process, from the `read_bytes:` and
/// `write_bytes:` lines of its `io`; each `None` where missing or too large.
pub fn io_bytes(io: &str) -> (r: (Option<u64>, Option<u64>))
    ensures
        r.0 == io_counter_of(io@, "read_bytes:"@),
        r.1 == io_counter_of(io@, "write_bytes:"@),
{
    let t = chars_of(io);
    (field_u64(&t, "read_bytes:", "", u64::MAX), field_u64(&t, "write_bytes:", "", u64::MAX))
}

pub open spec fn containerization_of(cmdline: Seq<char>, flatpak_info_exists: bool) -> Containerization {
    if starts_with(cmdline, "/snap/"@) {
        Containerization::Snap
    } else if flatpak_info_exists {
        Containerization::Flatpak
    } else {
        Containerization::Uncontained
    }
}

/// The sandbox of a process: Snap where its command line starts with
/// `/snap/`, else Flatpak where its root holds `.flatpak-info`, else none.
pub fn containerization(cmdline: &str, flatpak_info_exists: bool) -> (r: Containerization)
    ensures
        r == containerization_of(cmdline@, flatpak_info_exists),
{
    let t = chars_of(cmdline);
    if starts_with_word(&t, &chars_of("/snap/")) {
        Containerization::Snap
    } else if flatpak_info_exists {
        Containerization::Flatpak
    } else {
        Containerization::Uncontained
    }
}

/// `s` without its line feeds.
pub open spec fn without_newlines(s: Seq<char>) -> Seq<char>
    decreases s.len(),
{
    if s.len() == 0 {
        s
    } else if s.last() == '\n' {
        without_newlines(s.drop_last())
    } else {
        without_newlines(s.drop_last()).push(s.last())
    }
}

/// The short executable name from `comm`, without line feeds.
pub fn clean_comm(comm: &str) -> (r: Vec<char>)
    ensures
        r@ == without_newlines(comm@),
{
    let t = chars_of(comm);
    let mut r: Vec<char> = Vec::new();
    let mut i: usize = 0;
    assert(t@.subrange(0, 0) =~= Seq::<char>::empty());
    while i < t.len()
        invariant
            i <= t.len(),
            r@ == without_newlines(t@.subrange(0, i as int)),
        decreases t.len() - i,
    {
        assert(t@.subrange(0, i + 1).drop_last() =~= t@.subrange(0, i as int));
        if t[i] != '\n' {
            r.push(t[i]);
        }
        i = i + 1;
    }
    assert(t@.subrange(0, t.len() as int) =~= t@);
    r
}

/// The first user of the table with this id is at `i`.
pub open spec fn first_user_at(users: Seq<(u32, String)>, uid: u32, i: int) -> bool {
    0 <= i < users.len() && users[i].0 == uid && forall|j: int|
        0 <= j < i ==> (#[trigger] users[j]).0 != uid
}

pub open spec fn user_name_of(users: Seq<(u32, String)>, uid: u32) -> Seq<char> {
    if exists|i: int| first_user_at(users, uid, i) {
        users[choose|i: int| first_user_at(users, uid, i)].1@
    } else {
        "root"@
    }
}

/// The name of user `uid` in a table of the user database; `root` where the
/// table has none.
pub fn user_name(users: &Vec<(u32, String)>, uid: u32) -> (r: String)
    ensures
        r@ == user_name_of(users@, uid),
{
    let mut i: usize = 0;
    while i < users.len()
        invariant
            i <= users.len(),
            forall|j: int| 0 <= j < i ==> (#[trigger] users@[j]).0 != uid,
        decreases users.len() - i,
    {
        if users[i].0 == uid {
            assert(first_user_at(users@, uid, i as int));
            proof {
                let c = choose|c: int| first_user_at(users@, uid, c);
                assert(c == i) by {
                    if c < i {
                        assert(users@[c].0 != uid);
                    }
                    if c > i {
                        assert(users@[i as int].0 == uid);
                    }
                }
            }
            return users[i].1.clone();
        }
        i = i + 1;
    }
    String::from_str("root")
}

} // verus!
