//! A byte-granular model of the interpreter's simulated address space.
//!
//! Simulated memory tracks, per byte, whether the byte was ever written;
//! reading an unallocated or never-written byte is a memory error, not
//! undefined behaviour. Wide (16-bit) units occupy two consecutive bytes in
//! little-endian order. The terminator-delimited scans used for C strings
//! and wide strings are specified here, together with the writes that the
//! transfer operations build on.

use vstd::prelude::*;

use crate::types::{bytes_nul_free, units_nul_free, MemoryError};

verus! {

broadcast use vstd::seq::group_seq_axioms;

/// The low byte of a 16-bit unit as stored in memory.
pub open spec fn unit_lo(u: u16) -> u8 {
    (u % 0x100) as u8
}

/// The high byte of a 16-bit unit as stored in memory.
pub open spec fn unit_hi(u: u16) -> u8 {
    (u / 0x100) as u8
}

/// The result of scanning bytes from `addr` up to (and excluding) the first
/// `0x00` byte: the content scanned, or the memory error that stopped the
/// scan.
pub open spec fn scan_bytes(m: Seq<Option<u8>>, addr: int) -> Result<Seq<u8>, MemoryError>
    decreases m.len() - addr,
{
    if addr < 0 || addr >= m.len() {
        Err(MemoryError::OutOfRange)
    } else {
        match m[addr] {
            None => Err(MemoryError::Uninitialized),
            Some(b) => if b == 0 {
                Ok(Seq::empty())
            } else {
                match scan_bytes(m, addr + 1) {
                    Ok(rest) => Ok(seq![b] + rest),
                    Err(e) => Err(e),
                }
            },
        }
    }
}

/// The result of scanning 16-bit units (two little-endian bytes each) from
/// `addr` up to (and excluding) the first `0x0000` unit.
pub open spec fn scan_units(m: Seq<Option<u8>>, addr: int) -> Result<Seq<u16>, MemoryError>
    decreases m.len() - addr,
{
    if addr < 0 || addr + 2 > m.len() {
        Err(MemoryError::OutOfRange)
    } else {
        match (m[addr], m[addr + 1]) {
            (Some(lo), Some(hi)) => {
                let u = (lo + 0x100 * hi) as u16;
                if u == 0 {
                    Ok(Seq::empty())
                } else {
                    match scan_units(m, addr + 2) {
                        Ok(rest) => Ok(seq![u] + rest),
                        Err(e) => Err(e),
                    }
                }
            },
            _ => Err(MemoryError::Uninitialized),
        }
    }
}

/// Memory after `data` is written byte for byte at `addr`.
pub open spec fn store_bytes(m: Seq<Option<u8>>, addr: int, data: Seq<u8>) -> Seq<Option<u8>> {
    Seq::new(
        m.len(),
        |k: int|
            if addr <= k < addr + data.len() {
                Some(data[k - addr])
            } else {
                m[k]
            },
    )
}

/// Memory after `data` is written unit for unit at `addr`, each unit as two
/// little-endian bytes.
pub open spec fn store_units(m: Seq<Option<u8>>, addr: int, data: Seq<u16>) -> Seq<Option<u8>> {
    Seq::new(
        m.len(),
        |k: int|
            if addr <= k < addr + 2 * data.len() {
                if (k - addr) % 2 == 0 {
                    Some(unit_lo(data[(k - addr) / 2]))
                } else {
                    Some(unit_hi(data[(k - addr) / 2]))
                }
            } else {
                m[k]
            },
    )
}

/// The initialized cells holding `d` byte for byte.
pub open spec fn bytes_to_cells(d: Seq<u8>) -> Seq<Option<u8>> {
    d.map_values(|b: u8| Some(b))
}

/// The initialized cells holding `d` unit for unit, two little-endian
/// bytes each.
pub open spec fn units_to_cells(d: Seq<u16>) -> Seq<Option<u8>> {
    Seq::new(
        2 * d.len(),
        |k: int|
            if k % 2 == 0 {
                Some(unit_lo(d[k / 2]))
            } else {
                Some(unit_hi(d[k / 2]))
            },
    )
}

/// The interpreter's simulated memory: a flat, growable address space whose
/// bytes are either initialized to a value or allocated-but-undefined.
pub struct SimMemory {
    cells: Vec<Option<u8>>,
}

impl View for SimMemory {
    type V = Seq<Option<u8>>;

    closed spec fn view(&self) -> Seq<Option<u8>> {
        self.cells@
    }
}

impl SimMemory {
    /// An empty simulated address space.
    pub fn new() -> (r: SimMemory)
        ensures
            r@ == Seq::<Option<u8>>::empty(),
    {
        let m = SimMemory { cells: Vec::new() };
        proof {
            assert(m@ =~= Seq::<Option<u8>>::empty());
        }
        m
    }

    /// Allocate `size` fresh, uninitialized bytes at the end of the address
    /// space and return the address of the first.
    pub fn allocate(&mut self, size: usize) -> (addr: usize)
        requires
            old(self)@.len() + size <= usize::MAX,
        ensures
            addr == old(self)@.len(),
            final(self)@.len() == old(self)@.len() + size,
            forall|k: int| 0 <= k < old(self)@.len() ==> final(self)@[k] == old(self)@[k],
            forall|k: int|
                old(self)@.len() <= k < final(self)@.len() ==> final(self)@[k] is None,
    {
        let addr = self.cells.len();
        let mut j: usize = 0;
        while j < size
            invariant
                j <= size,
                self@.len() == old(self)@.len() + j,
                forall|k: int| 0 <= k < old(self)@.len() ==> self@[k] == old(self)@[k],
                forall|k: int| old(self)@.len() <= k < self@.len() ==> self@[k] is None,
            decreases size - j,
        {
            self.cells.push(None);
            j = j + 1;
        }
        addr
    }

    /// Scan a null-terminated byte sequence starting at `addr`, returning
    /// the content without the terminator.
    pub fn read_c_str(&self, addr: usize) -> (r: Result<Vec<u8>, MemoryError>)
        ensures
            match r {
                Ok(v) => scan_bytes(self@, addr as int) == Ok::<Seq<u8>, MemoryError>(v@),
                Err(e) => scan_bytes(self@, addr as int) == Err::<Seq<u8>, MemoryError>(e),
            },
    {
        let mut i: usize = addr;
        let mut out: Vec<u8> = Vec::new();
        if addr >= self.cells.len() {
            return Err(MemoryError::OutOfRange);
        }
        loop
            invariant
                addr <= i <= self@.len(),
                match scan_bytes(self@, i as int) {
                    Ok(rest) => scan_bytes(self@, addr as int) == Ok::<Seq<u8>, MemoryError>(
                        out@ + rest,
                    ),
                    Err(e) => scan_bytes(self@, addr as int) == Err::<Seq<u8>, MemoryError>(e),
                },
            decreases self@.len() - i,
        {
            proof {
                if i == addr {
                    let sres = scan_bytes(self@, addr as int);
                    if sres is Ok {
                        assert(out@ + sres->Ok_0 =~= sres->Ok_0);
                    }
                }
            }
            if i >= self.cells.len() {
                return Err(MemoryError::OutOfRange);
            }
            match self.cells[i] {
                None => {
                    return Err(MemoryError::Uninitialized);
                },
                Some(b) => {
                    if b == 0 {
                        proof {
                            assert(out@ + Seq::<u8>::empty() =~= out@);
                        }
                        return Ok(out);
                    }
                    let ghost out_old = out@;
                    out.push(b);
                    proof {
                        assert(out@ =~= out_old + seq![b]);
                        let tail = scan_bytes(self@, i as int + 1);
                        if tail is Ok {
                            assert(out_old + (seq![b] + tail->Ok_0) =~= out@ + tail->Ok_0);
                        }
                    }
                    i = i + 1;
                },
            }
        }
    }

    /// Scan a null-terminated sequence of 16-bit units starting at `addr`,
    /// returning the content without the terminator.
    pub fn read_wide_str(&self, addr: usize) -> (r: Result<Vec<u16>, MemoryError>)
        ensures
            match r {
                Ok(v) => scan_units(self@, addr as int) == Ok::<Seq<u16>, MemoryError>(v@),
                Err(e) => scan_units(self@, addr as int) == Err::<Seq<u16>, MemoryError>(e),
            },
    {
        let mut i: usize = addr;
        let mut out: Vec<u16> = Vec::new();
        if addr >= self.cells.len() {
            return Err(MemoryError::OutOfRange);
        }
        loop
            invariant
                addr <= i <= self@.len(),
                match scan_units(self@, i as int) {
                    Ok(rest) => scan_units(self@, addr as int) == Ok::<Seq<u16>, MemoryError>(
                        out@ + rest,
                    ),
                    Err(e) => scan_units(self@, addr as int) == Err::<Seq<u16>, MemoryError>(e),
                },
            decreases self@.len() - i,
        {
            proof {
                if i == addr {
                    let sres = scan_units(self@, addr as int);
                    if sres is Ok {
                        assert(out@ + sres->Ok_0 =~= sres->Ok_0);
                    }
                }
            }
            if self.cells.len() - i < 2 {
                return Err(MemoryError::OutOfRange);
            }
            let c_lo = self.cells[i];
            let c_hi = self.cells[i + 1];
            match (c_lo, c_hi) {
                (Some(lo), Some(hi)) => {
                    let u = lo as u16 + 0x100 * (hi as u16);
                    if u == 0 {
                        proof {
                            assert(out@ + Seq::<u16>::empty() =~= out@);
                        }
                        return Ok(out);
                    }
                    let ghost out_old = out@;
                    out.push(u);
                    proof {
                        assert(out@ =~= out_old + seq![u]);
                        let tail = scan_units(self@, i as int + 2);
                        if tail is Ok {
                            assert(out_old + (seq![u] + tail->Ok_0) =~= out@ + tail->Ok_0);
                        }
                    }
                    i = i + 2;
                },
                _ => {
                    return Err(MemoryError::Uninitialized);
                },
            }
        }
    }

    /// Write `data` byte for byte at `addr`. Either the whole range fits in
    /// the address space and every byte is committed, or nothing is written
    /// at all.
    pub fn write_bytes(&mut self, addr: usize, data: &Vec<u8>) -> (r: Result<(), MemoryError>)
        ensures
            match r {
                Ok(_) => {
                    &&& addr + data@.len() <= old(self)@.len()
                    &&& final(self)@ == store_bytes(old(self)@, addr as int, data@)
                },
                Err(e) => {
                    &&& e == MemoryError::OutOfRange
                    &&& addr + data@.len() > old(self)@.len()
                    &&& final(self)@ == old(self)@
                },
            },
    {
        if data.len() > self.cells.len() || addr > self.cells.len() - data.len() {
            return Err(MemoryError::OutOfRange);
        }
        let mut j: usize = 0;
        while j < data.len()
            invariant
                j <= data@.len(),
                addr + data@.len() <= self@.len(),
                self@.len() <= usize::MAX,
                self@.len() == old(self)@.len(),
                forall|k: int|
                    0 <= k < self@.len() ==> self@[k] == (if addr <= k < addr + j {
                        Some(data@[k - addr])
                    } else {
                        old(self)@[k]
                    }),
            decreases data@.len() - j,
        {
            self.cells.set(addr + j, Some(data[j]));
            j = j + 1;
        }
        proof {
            assert(self@ =~= store_bytes(old(self)@, addr as int, data@));
        }
        Ok(())
    }

    /// Write `data` unit for unit at `addr`, each unit as two little-endian
    /// bytes. Either the whole range fits or nothing is written at all.
    pub fn write_units(&mut self, addr: usize, data: &Vec<u16>) -> (r: Result<(), MemoryError>)
        ensures
            match r {
                Ok(_) => {
                    &&& addr + 2 * data@.len() <= old(self)@.len()
                    &&& final(self)@ == store_units(old(self)@, addr as int, data@)
                },
                Err(e) => {
                    &&& e == MemoryError::OutOfRange
                    &&& addr + 2 * data@.len() > old(self)@.len()
                    &&& final(self)@ == old(self)@
                },
            },
    {
        if addr > self.cells.len() {
            return Err(MemoryError::OutOfRange);
        }
        let avail = self.cells.len() - addr;
        if data.len() > avail / 2 {
            return Err(MemoryError::OutOfRange);
        }
        let mut j: usize = 0;
        while j < data.len()
            invariant
                j <= data@.len(),
                addr + 2 * data@.len() <= self@.len(),
                self@.len() <= usize::MAX,
                self@.len() == old(self)@.len(),
                forall|k: int|
                    0 <= k < self@.len() ==> self@[k] == (if addr <= k < addr + 2 * j {
                        if (k - addr) % 2 == 0 {
                            Some(unit_lo(data@[(k - addr) / 2]))
                        } else {
                            Some(unit_hi(data@[(k - addr) / 2]))
                        }
                    } else {
                        old(self)@[k]
                    }),
            decreases data@.len() - j,
        {
            let u = data[j];
            self.cells.set(addr + 2 * j, Some((u % 0x100) as u8));
            self.cells.set(addr + 2 * j + 1, Some((u / 0x100) as u8));
            j = j + 1;
        }
        proof {
            assert(self@ =~= store_units(old(self)@, addr as int, data@));
        }
        Ok(())
    }
}

/// A successful byte scan never contains the terminator byte.
pub proof fn scan_bytes_nul_free(m: Seq<Option<u8>>, addr: int)
    requires
        scan_bytes(m, addr) is Ok,
    ensures
        bytes_nul_free(scan_bytes(m, addr)->Ok_0),
    decreases m.len() - addr,
{
    if 0 <= addr < m.len() {
        if m[addr] is Some && m[addr]->0 != 0 {
            scan_bytes_nul_free(m, addr + 1);
        }
    }
}

/// A successful unit scan never contains the terminator unit.
pub proof fn scan_units_nul_free(m: Seq<Option<u8>>, addr: int)
    requires
        scan_units(m, addr) is Ok,
    ensures
        units_nul_free(scan_units(m, addr)->Ok_0),
    decreases m.len() - addr,
{
    if 0 <= addr && addr + 2 <= m.len() {
        if m[addr] is Some && m[addr + 1] is Some {
            let u = ((m[addr]->0 + 0x100 * m[addr + 1]->0) as u16);
            if u != 0 {
                scan_units_nul_free(m, addr + 2);
            }
        }
    }
}

/// Terminator exactness for bytes: when nul-free content sits at `addr` and
/// the byte after it is the terminator, the scan returns exactly that
/// content.
pub proof fn scan_bytes_exact(m: Seq<Option<u8>>, addr: int, data: Seq<u8>)
    requires
        0 <= addr,
        addr + data.len() < m.len(),
        bytes_nul_free(data),
        forall|j: int| 0 <= j < data.len() ==> m[addr + j] == Some(data[j]),
        m[addr + data.len()] == Some(0u8),
    ensures
        scan_bytes(m, addr) == Ok::<Seq<u8>, MemoryError>(data),
    decreases data.len(),
{
    if data.len() == 0 {
        assert(m[addr] == Some(0u8));
        assert(scan_bytes(m, addr) == Ok::<Seq<u8>, MemoryError>(Seq::empty()));
        assert(Seq::<u8>::empty() =~= data);
    } else {
        assert(m[addr] == Some(data[0]));
        assert(data[0] != 0);
        let rest = data.drop_first();
        assert forall|j: int| 0 <= j < rest.len() implies m[addr + 1 + j] == Some(rest[j]) by {
            assert(rest[j] == data[j + 1]);
        }
        scan_bytes_exact(m, addr + 1, rest);
        assert(seq![data[0]] + rest =~= data);
    }
}

/// Terminator exactness for wide units: when nul-free units sit at `addr`
/// and the unit after them is the terminator, the scan returns exactly
/// those units.
pub proof fn scan_units_exact(m: Seq<Option<u8>>, addr: int, data: Seq<u16>)
    requires
        0 <= addr,
        addr + 2 * data.len() + 2 <= m.len(),
        units_nul_free(data),
        forall|j: int|
            0 <= j < data.len() ==> m[addr + 2 * j] == Some(unit_lo(data[j])) && m[addr + 2 * j
                + 1] == Some(unit_hi(data[j])),
        m[addr + 2 * data.len()] == Some(0u8),
        m[addr + 2 * data.len() + 1] == Some(0u8),
    ensures
        scan_units(m, addr) == Ok::<Seq<u16>, MemoryError>(data),
    decreases data.len(),
{
    if data.len() == 0 {
        assert(m[addr] == Some(0u8) && m[addr + 1] == Some(0u8));
        assert(scan_units(m, addr) == Ok::<Seq<u16>, MemoryError>(Seq::empty()));
        assert(Seq::<u16>::empty() =~= data);
    } else {
        let u = data[0];
        assert(m[addr] == Some(unit_lo(u)) && m[addr + 1] == Some(unit_hi(u)));
        assert(unit_lo(u) + 0x100 * unit_hi(u) == u);
        let rest = data.drop_first();
        assert forall|j: int|
            0 <= j < rest.len() implies m[addr + 2 + 2 * j] == Some(unit_lo(rest[j])) && m[addr + 2
            + 2 * j + 1] == Some(unit_hi(rest[j])) by {
            assert(rest[j] == data[j + 1]);
            assert(addr + 2 + 2 * j == addr + 2 * (j + 1));
        }
        scan_units_exact(m, addr + 2, rest);
        assert(seq![u] + rest =~= data);
    }
}

} // verus!
