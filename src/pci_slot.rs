//! PCI bus addresses of accelerators, written `DDDD:BB:DD.F` in hexadecimal.
use vstd::prelude::*;
use crate::text::{chars_of, hex_digit, hex_value, is_hex};

verus! {

/// A PCI bus address: domain, bus, device and function.
#[derive(Clone, Copy, Debug, PartialEq, Eq, Structural, Hash)]
pub struct PciSlot {
    pub domain: u16,
    pub bus: u8,
    pub device: u8,
    pub function: u8,
}

/// Twelve characters of the shape `DDDD:BB:DD.F` stand in `t` at `i`.
pub open spec fn slot_shape(t: Seq<char>, i: int) -> bool {
    &&& 0 <= i && i + 12 <= t.len()
    &&& is_hex(t[i]) && is_hex(t[i + 1]) && is_hex(t[i + 2]) && is_hex(t[i + 3])
    &&& t[i + 4] == ':'
    &&& is_hex(t[i + 5]) && is_hex(t[i + 6])
    &&& t[i + 7] == ':'
    &&& is_hex(t[i + 8]) && is_hex(t[i + 9])
    &&& t[i + 10] == '.'
    &&& is_hex(t[i + 11])
}

/// The address that twelve characters of the shape `DDDD:BB:DD.F` at `i` write.
pub open spec fn slot_at(t: Seq<char>, i: int) -> PciSlot {
    PciSlot {
        domain: (hex_value(t[i]) * 4096 + hex_value(t[i + 1]) * 256 + hex_value(t[i + 2]) * 16
            + hex_value(t[i + 3])) as u16,
        bus: (hex_value(t[i + 5]) * 16 + hex_value(t[i + 6])) as u8,
        device: (hex_value(t[i + 8]) * 16 + hex_value(t[i + 9])) as u8,
        function: hex_value(t[i + 11]),
    }
}

/// The address that a whole string writes, if it has the shape `DDDD:BB:DD.F`.
pub open spec fn slot_of(s: Seq<char>) -> Option<PciSlot> {
    if s.len() == 12 && slot_shape(s, 0) {
        Some(slot_at(s, 0))
    } else {
        None
    }
}

impl PciSlot {
    /// Position of the address in the order of addresses: domain first,
    /// then bus, device and function.
    pub open spec fn rank(self) -> int {
        self.domain * 16777216 + self.bus * 65536 + self.device * 256 + self.function
    }

    /// The address `0000:00:00.0`.
    pub fn zero() -> (r: PciSlot)
        ensures
            r == (PciSlot { domain: 0, bus: 0, device: 0, function: 0 }),
    {
        PciSlot { domain: 0, bus: 0, device: 0, function: 0 }
    }

    pub fn rank_of(&self) -> (r: u64)
        ensures
            r == self.rank(),
    {
        self.domain as u64 * 16777216 + self.bus as u64 * 65536 + self.device as u64 * 256
            + self.function as u64
    }

    /// Parses an address written `DDDD:BB:DD.F`.
    pub fn parse(s: &str) -> (r: Option<PciSlot>)
        ensures
            r == slot_of(s@),
    {
        let t = chars_of(s);
        if t.len() != 12 {
            return None;
        }
        slot_in(&t, 0)
    }
}

/// Two addresses of the same rank are the same address.
pub proof fn lemma_rank_injective(a: PciSlot, b: PciSlot)
    ensures
        a.rank() == b.rank() <==> a == b,
{
    let ra = a.rank();
    let rb = b.rank();
    assert(a.bus * 65536 + a.device * 256 + a.function < 16777216);
    assert(b.bus * 65536 + b.device * 256 + b.function < 16777216);
    if a.domain != b.domain {
        if a.domain < b.domain {
            assert(a.domain * 16777216 + 16777216 <= b.domain * 16777216);
        } else {
            assert(b.domain * 16777216 + 16777216 <= a.domain * 16777216);
        }
        assert(ra != rb);
    } else if a.bus != b.bus {
        assert(a.device * 256 + a.function < 65536);
        assert(b.device * 256 + b.function < 65536);
        if a.bus < b.bus {
            assert(a.bus * 65536 + 65536 <= b.bus * 65536);
        } else {
            assert(b.bus * 65536 + 65536 <= a.bus * 65536);
        }
        assert(ra != rb);
    } else if a.device != b.device {
        if a.device < b.device {
            assert(a.device * 256 + 256 <= b.device * 256);
        } else {
            assert(b.device * 256 + 256 <= a.device * 256);
        }
        assert(ra != rb);
    }
}

/// The address of the shape `DDDD:BB:DD.F` at `i`, if one stands there.
pub fn slot_in(t: &Vec<char>, i: usize) -> (r: Option<PciSlot>)
    ensures
        r == (if slot_shape(t@, i as int) {
            Some(slot_at(t@, i as int))
        } else {
            None
        }),
{
    if i > t.len() || 12 > t.len() - i {
        return None;
    }
    let hexes = [0usize, 1, 2, 3, 5, 6, 8, 9, 11];
    let mut k: usize = 0;
    while k < 9
        invariant
            i + 12 <= t.len(),
            k <= 9,
            hexes@ == seq![0usize, 1, 2, 3, 5, 6, 8, 9, 11],
            forall|m: int| 0 <= m < k ==> is_hex(#[trigger] t@[i + hexes@[m]]),
        decreases 9 - k,
    {
        let c = t[i + hexes[k]];
        if !(('0' <= c && c <= '9') || ('a' <= c && c <= 'f') || ('A' <= c && c <= 'F')) {
            return None;
        }
        k = k + 1;
    }
    assert(is_hex(t@[i + hexes@[0]]) && is_hex(t@[i + hexes@[1]]) && is_hex(t@[i + hexes@[2]])
        && is_hex(t@[i + hexes@[3]]) && is_hex(t@[i + hexes@[4]]) && is_hex(t@[i + hexes@[5]])
        && is_hex(t@[i + hexes@[6]]) && is_hex(t@[i + hexes@[7]]) && is_hex(t@[i + hexes@[8]]));
    if t[i + 4] != ':' || t[i + 7] != ':' || t[i + 10] != '.' {
        return None;
    }
    let domain = hex_digit(t[i]) as u16 * 4096 + hex_digit(t[i + 1]) as u16 * 256 + hex_digit(
        t[i + 2],
    ) as u16 * 16 + hex_digit(t[i + 3]) as u16;
    let bus = hex_digit(t[i + 5]) * 16 + hex_digit(t[i + 6]);
    let device = hex_digit(t[i + 8]) * 16 + hex_digit(t[i + 9]);
    let function = hex_digit(t[i + 11]);
    Some(PciSlot { domain, bus, device, function })
}

} // verus!
