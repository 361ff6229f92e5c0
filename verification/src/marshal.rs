//! The marshaling operations the syscall- and FFI-emulation layer calls.
//!
//! An [`EvalContext`] bundles the simulated memory with the host's and the
//! currently emulated target's OS families. String operations move host
//! strings into and out of null-terminated target buffers; path operations
//! additionally rewrite path separators between the two conventions. Writes
//! follow a probe-then-commit protocol: a capacity no larger than the
//! content length changes nothing and reports the required length.

use vstd::prelude::*;

use crate::codec::{utf16_to_utf8, utf8_to_utf16};
use crate::codec::{decode_utf16_nul_free, decode_utf8_nul_free, encode_utf8_nul_free};
use crate::memory::{
    bytes_to_cells, scan_bytes, scan_bytes_nul_free, scan_units, scan_units_nul_free, store_bytes,
    store_units, units_to_cells, SimMemory,
};
use crate::sep::{convert_path_separator, swap_sep_bytes, swap_sep_units};
use crate::types::{
    HostString, MarshalError, MemoryError, OsFamily, PathConversion, TransferOutcome,
};
use crate::utf16::{
    decode_utf16, decode_utf16_encode_utf16, encode_utf16, encode_utf16_decode_utf16,
    encode_utf16_nul_free, valid_utf16,
};
use vstd::utf8::{
    decode_utf8, decode_utf8_encode_utf8, encode_utf8, encode_utf8_decode_utf8,
    encode_utf8_valid_utf8, valid_utf8,
};

verus! {

broadcast use vstd::seq::group_seq_axioms;

/// True when the host string can be emitted as a byte-oriented target
/// buffer: byte-oriented content always can, wide-oriented content must be
/// valid UTF-16.
pub open spec fn c_encodable(s: HostString) -> bool {
    match s {
        HostString::Bytes(_) => true,
        HostString::Wide(w) => valid_utf16(w@),
    }
}

/// The bytes a host string is emitted as into a byte-oriented target
/// buffer, when `c_encodable` holds.
pub open spec fn c_encoding(s: HostString) -> Seq<u8> {
    match s {
        HostString::Bytes(b) => b@,
        HostString::Wide(w) => encode_utf8(decode_utf16(w@)),
    }
}

/// True when the host string can be emitted as a wide-oriented target
/// buffer: wide-oriented content always can, byte-oriented content must be
/// valid UTF-8.
pub open spec fn wide_encodable(s: HostString) -> bool {
    match s {
        HostString::Bytes(b) => valid_utf8(b@),
        HostString::Wide(_) => true,
    }
}

/// The units a host string is emitted as into a wide-oriented target
/// buffer, when `wide_encodable` holds.
pub open spec fn wide_encoding(s: HostString) -> Seq<u16> {
    match s {
        HostString::Bytes(b) => encode_utf16(decode_utf8(b@)),
        HostString::Wide(w) => w@,
    }
}

/// Whether a path-typed host string can be emitted as a byte-oriented
/// buffer after its separators are rewritten from `from` to `to`.
pub open spec fn path_c_encodable(s: HostString, from: u8, to: u8) -> bool {
    match s {
        HostString::Bytes(_) => true,
        HostString::Wide(w) => valid_utf16(swap_sep_units(w@, from, to)),
    }
}

/// The bytes a path-typed host string is emitted as after separator
/// rewriting.
pub open spec fn path_c_encoding(s: HostString, from: u8, to: u8) -> Seq<u8> {
    match s {
        HostString::Bytes(b) => swap_sep_bytes(b@, from, to),
        HostString::Wide(w) => encode_utf8(decode_utf16(swap_sep_units(w@, from, to))),
    }
}

/// Whether a path-typed host string can be emitted as a wide-oriented
/// buffer after its separators are rewritten from `from` to `to`.
pub open spec fn path_wide_encodable(s: HostString, from: u8, to: u8) -> bool {
    match s {
        HostString::Bytes(b) => valid_utf8(swap_sep_bytes(b@, from, to)),
        HostString::Wide(_) => true,
    }
}

/// The units a path-typed host string is emitted as after separator
/// rewriting.
pub open spec fn path_wide_encoding(s: HostString, from: u8, to: u8) -> Seq<u16> {
    match s {
        HostString::Bytes(b) => encode_utf16(decode_utf8(swap_sep_bytes(b@, from, to))),
        HostString::Wide(w) => swap_sep_units(w@, from, to),
    }
}

/// The full contract of a capacity-bounded write into a byte-oriented
/// buffer: exactly one of four outcomes, and memory is untouched unless
/// the whole content plus terminator is committed.
pub open spec fn byte_write_post(
    m0: Seq<Option<u8>>,
    m1: Seq<Option<u8>>,
    encodable: bool,
    enc: Seq<u8>,
    addr: usize,
    size: usize,
    r: Result<TransferOutcome, MarshalError>,
) -> bool {
    if !encodable {
        r == Err::<TransferOutcome, MarshalError>(MarshalError::InvalidEncoding) && m1 == m0
    } else if size <= enc.len() {
        r == Ok::<TransferOutcome, MarshalError>(TransferOutcome::TooSmall(enc.len() as usize))
            && m1 == m0
    } else if addr + enc.len() + 1 <= m0.len() {
        r == Ok::<TransferOutcome, MarshalError>(TransferOutcome::Written(enc.len() as usize))
            && m1 == store_bytes(m0, addr as int, enc + seq![0u8])
    } else {
        r == Err::<TransferOutcome, MarshalError>(MarshalError::Memory(MemoryError::OutOfRange))
            && m1 == m0
    }
}

/// The full contract of a capacity-bounded write into a wide-oriented
/// buffer. The capacity `size` is counted in 16-bit units.
pub open spec fn unit_write_post(
    m0: Seq<Option<u8>>,
    m1: Seq<Option<u8>>,
    encodable: bool,
    enc: Seq<u16>,
    addr: usize,
    size: usize,
    r: Result<TransferOutcome, MarshalError>,
) -> bool {
    if !encodable {
        r == Err::<TransferOutcome, MarshalError>(MarshalError::InvalidEncoding) && m1 == m0
    } else if size <= enc.len() {
        r == Ok::<TransferOutcome, MarshalError>(TransferOutcome::TooSmall(enc.len() as usize))
            && m1 == m0
    } else if addr + 2 * enc.len() + 2 <= m0.len() {
        r == Ok::<TransferOutcome, MarshalError>(TransferOutcome::Written(enc.len() as usize))
            && m1 == store_units(m0, addr as int, enc + seq![0u16])
    } else {
        r == Err::<TransferOutcome, MarshalError>(MarshalError::Memory(MemoryError::OutOfRange))
            && m1 == m0
    }
}

/// The full contract of a terminator-delimited read from a byte-oriented
/// buffer, after separators are rewritten from `from` to `to` (a plain
/// string read rewrites nothing and passes equal separators).
pub open spec fn byte_read_post(
    m: Seq<Option<u8>>,
    host: OsFamily,
    addr: usize,
    from: u8,
    to: u8,
    r: Result<HostString, MarshalError>,
) -> bool {
    match scan_bytes(m, addr as int) {
        Err(e) => r == Err::<HostString, MarshalError>(MarshalError::Memory(e)),
        Ok(bytes) => if !host.is_wide() {
            r matches Ok(hs) && !hs.is_wide() && hs.byte_content() == swap_sep_bytes(
                bytes,
                from,
                to,
            ) && hs.wf()
        } else if valid_utf8(bytes) {
            r matches Ok(hs) && hs.is_wide() && hs.wide_content() == swap_sep_units(
                encode_utf16(decode_utf8(bytes)),
                from,
                to,
            ) && hs.wf()
        } else {
            r == Err::<HostString, MarshalError>(MarshalError::InvalidEncoding)
        },
    }
}

/// The full contract of a terminator-delimited read from a wide-oriented
/// buffer, after separators are rewritten from `from` to `to`.
pub open spec fn unit_read_post(
    m: Seq<Option<u8>>,
    host: OsFamily,
    addr: usize,
    from: u8,
    to: u8,
    r: Result<HostString, MarshalError>,
) -> bool {
    match scan_units(m, addr as int) {
        Err(e) => r == Err::<HostString, MarshalError>(MarshalError::Memory(e)),
        Ok(units) => if host.is_wide() {
            r matches Ok(hs) && hs.is_wide() && hs.wide_content() == swap_sep_units(
                units,
                from,
                to,
            ) && hs.wf()
        } else if valid_utf16(units) {
            r matches Ok(hs) && !hs.is_wide() && hs.byte_content() == swap_sep_bytes(
                encode_utf8(decode_utf16(units)),
                from,
                to,
            ) && hs.wf()
        } else {
            r == Err::<HostString, MarshalError>(MarshalError::InvalidEncoding)
        },
    }
}

fn copy_bytes(v: &Vec<u8>) -> (r: Vec<u8>)
    ensures
        r@ == v@,
{
    let mut out: Vec<u8> = Vec::new();
    let mut j: usize = 0;
    while j < v.len()
        invariant
            j <= v@.len(),
            out@ == v@.take(j as int),
        decreases v@.len() - j,
    {
        out.push(v[j]);
        proof {
            assert(out@ =~= v@.take(j as int + 1));
        }
        j = j + 1;
    }
    proof {
        assert(v@.take(v@.len() as int) =~= v@);
    }
    out
}

fn copy_units(v: &Vec<u16>) -> (r: Vec<u16>)
    ensures
        r@ == v@,
{
    let mut out: Vec<u16> = Vec::new();
    let mut j: usize = 0;
    while j < v.len()
        invariant
            j <= v@.len(),
            out@ == v@.take(j as int),
        decreases v@.len() - j,
    {
        out.push(v[j]);
        proof {
            assert(out@ =~= v@.take(j as int + 1));
        }
        j = j + 1;
    }
    proof {
        assert(v@.take(v@.len() as int) =~= v@);
    }
    out
}

/// Encode a host string for a byte-oriented target buffer.
fn encode_c(s: &HostString) -> (r: Result<Vec<u8>, MarshalError>)
    ensures
        match r {
            Ok(v) => c_encodable(*s) && v@ == c_encoding(*s),
            Err(e) => e == MarshalError::InvalidEncoding && !c_encodable(*s),
        },
{
    match s {
        HostString::Bytes(b) => Ok(copy_bytes(b)),
        HostString::Wide(w) => match utf16_to_utf8(w) {
            Some(v) => Ok(v),
            None => Err(MarshalError::InvalidEncoding),
        },
    }
}

/// Encode a host string for a wide-oriented target buffer.
fn encode_wide(s: &HostString) -> (r: Result<Vec<u16>, MarshalError>)
    ensures
        match r {
            Ok(v) => wide_encodable(*s) && v@ == wide_encoding(*s),
            Err(e) => e == MarshalError::InvalidEncoding && !wide_encodable(*s),
        },
{
    match s {
        HostString::Bytes(b) => match utf8_to_utf16(b) {
            Some(v) => Ok(v),
            None => Err(MarshalError::InvalidEncoding),
        },
        HostString::Wide(w) => Ok(copy_units(w)),
    }
}

/// The state a marshaling call runs against: the simulated memory, the
/// host's OS family and the currently emulated target's OS family.
pub struct EvalContext {
    pub memory: SimMemory,
    pub host_os: OsFamily,
    pub target_os: OsFamily,
}

impl EvalContext {
    /// Read a host string from a null-terminated sequence of bytes, which
    /// is what Unix-style target APIs usually handle.
    pub fn read_os_str_from_c_str(&self, addr: usize) -> (r: Result<HostString, MarshalError>)
        ensures
            byte_read_post(
                self.memory@,
                self.host_os,
                addr,
                self.host_os.spec_separator(),
                self.host_os.spec_separator(),
                r,
            ),
    {
        let ghost sep = self.host_os.spec_separator();
        let bytes = match self.memory.read_c_str(addr) {
            Ok(v) => v,
            Err(e) => {
                return Err(MarshalError::Memory(e));
            },
        };
        proof {
            scan_bytes_nul_free(self.memory@, addr as int);
            crate::sep::swap_sep_bytes_identity(bytes@, sep);
        }
        match self.host_os {
            OsFamily::UnixLike => Ok(HostString::Bytes(bytes)),
            OsFamily::WindowsLike => match utf8_to_utf16(&bytes) {
                Some(units) => {
                    proof {
                        decode_utf8_nul_free(bytes@);
                        encode_utf16_nul_free(decode_utf8(bytes@));
                        crate::sep::swap_sep_units_identity(units@, sep);
                    }
                    Ok(HostString::Wide(units))
                },
                None => Err(MarshalError::InvalidEncoding),
            },
        }
    }

    /// Read a host string from a `0x0000`-terminated sequence of 16-bit
    /// units, which is what Windows-style target APIs usually handle.
    pub fn read_os_str_from_wide_str(&self, addr: usize) -> (r: Result<HostString, MarshalError>)
        ensures
            unit_read_post(
                self.memory@,
                self.host_os,
                addr,
                self.host_os.spec_separator(),
                self.host_os.spec_separator(),
                r,
            ),
    {
        let ghost sep = self.host_os.spec_separator();
        let units = match self.memory.read_wide_str(addr) {
            Ok(v) => v,
            Err(e) => {
                return Err(MarshalError::Memory(e));
            },
        };
        proof {
            scan_units_nul_free(self.memory@, addr as int);
            crate::sep::swap_sep_units_identity(units@, sep);
        }
        match self.host_os {
            OsFamily::WindowsLike => Ok(HostString::Wide(units)),
            OsFamily::UnixLike => match utf16_to_utf8(&units) {
                Some(bytes) => {
                    proof {
                        decode_utf16_nul_free(units@);
                        encode_utf8_nul_free(decode_utf16(units@));
                        crate::sep::swap_sep_bytes_identity(bytes@, sep);
                    }
                    Ok(HostString::Bytes(bytes))
                },
                None => Err(MarshalError::InvalidEncoding),
            },
        }
    }

    /// Write a host string as a null-terminated sequence of bytes. With a
    /// capacity of at most the content length, nothing is written and the
    /// required length comes back as `TooSmall`; otherwise the content and
    /// one terminator byte are committed atomically.
    pub fn write_os_str_to_c_str(&mut self, os_str: &HostString, addr: usize, size: usize) -> (r:
        Result<TransferOutcome, MarshalError>)
        ensures
            final(self).host_os == old(self).host_os,
            final(self).target_os == old(self).target_os,
            byte_write_post(
                old(self).memory@,
                final(self).memory@,
                c_encodable(*os_str),
                c_encoding(*os_str),
                addr,
                size,
                r,
            ),
    {
        let mut bytes = match encode_c(os_str) {
            Ok(v) => v,
            Err(e) => {
                return Err(e);
            },
        };
        let len = bytes.len();
        if size <= len {
            return Ok(TransferOutcome::TooSmall(len));
        }
        let ghost enc = bytes@;
        bytes.push(0);
        proof {
            assert(bytes@ =~= enc + seq![0u8]);
        }
        match self.memory.write_bytes(addr, &bytes) {
            Ok(_) => Ok(TransferOutcome::Written(len)),
            Err(e) => Err(MarshalError::Memory(e)),
        }
    }

    /// Write a host string as a `0x0000`-terminated sequence of 16-bit
    /// units. The capacity is counted in units; the probe-then-commit
    /// protocol is the same as for the byte variant.
    pub fn write_os_str_to_wide_str(&mut self, os_str: &HostString, addr: usize, size: usize) -> (r:
        Result<TransferOutcome, MarshalError>)
        ensures
            final(self).host_os == old(self).host_os,
            final(self).target_os == old(self).target_os,
            unit_write_post(
                old(self).memory@,
                final(self).memory@,
                wide_encodable(*os_str),
                wide_encoding(*os_str),
                addr,
                size,
                r,
            ),
    {
        let mut units = match encode_wide(os_str) {
            Ok(v) => v,
            Err(e) => {
                return Err(e);
            },
        };
        let len = units.len();
        if size <= len {
            return Ok(TransferOutcome::TooSmall(len));
        }
        let ghost enc = units@;
        units.push(0);
        proof {
            assert(units@ =~= enc + seq![0u16]);
        }
        match self.memory.write_units(addr, &units) {
            Ok(_) => Ok(TransferOutcome::Written(len)),
            Err(e) => Err(MarshalError::Memory(e)),
        }
    }

    /// Allocate exactly enough simulated memory for the byte encoding of
    /// the host string plus its terminator, and commit the write into it.
    /// By construction the capacity is never too small.
    pub fn alloc_os_str_as_c_str(&mut self, os_str: &HostString) -> (r: Result<
        usize,
        MarshalError,
    >)
        requires
            c_encodable(*os_str) ==> old(self).memory@.len() + c_encoding(*os_str).len() + 1
                <= usize::MAX,
        ensures
            final(self).host_os == old(self).host_os,
            final(self).target_os == old(self).target_os,
            match r {
                Ok(addr) => {
                    &&& c_encodable(*os_str)
                    &&& addr == old(self).memory@.len()
                    &&& final(self).memory@ == old(self).memory@ + bytes_to_cells(
                        c_encoding(*os_str) + seq![0u8],
                    )
                },
                Err(e) => {
                    &&& e == MarshalError::InvalidEncoding
                    &&& !c_encodable(*os_str)
                    &&& final(self).memory@ == old(self).memory@
                },
            },
    {
        let bytes = match encode_c(os_str) {
            Ok(v) => v,
            Err(e) => {
                return Err(e);
            },
        };
        let size = bytes.len() + 1;
        let addr = self.memory.allocate(size);
        let res = self.write_os_str_to_c_str(os_str, addr, size);
        proof {
            assert(final(self).memory@ =~= old(self).memory@ + bytes_to_cells(
                c_encoding(*os_str) + seq![0u8],
            ));
        }
        match res {
            Ok(_) => Ok(addr),
            Err(e) => Err(e),
        }
    }

    /// Allocate exactly enough simulated memory for the wide encoding of
    /// the host string plus its terminator, and commit the write into it.
    pub fn alloc_os_str_as_wide_str(&mut self, os_str: &HostString) -> (r: Result<
        usize,
        MarshalError,
    >)
        requires
            wide_encodable(*os_str) ==> old(self).memory@.len() + 2 * wide_encoding(
                *os_str,
            ).len() + 2 <= usize::MAX,
        ensures
            final(self).host_os == old(self).host_os,
            final(self).target_os == old(self).target_os,
            match r {
                Ok(addr) => {
                    &&& wide_encodable(*os_str)
                    &&& addr == old(self).memory@.len()
                    &&& final(self).memory@ == old(self).memory@ + units_to_cells(
                        wide_encoding(*os_str) + seq![0u16],
                    )
                },
                Err(e) => {
                    &&& e == MarshalError::InvalidEncoding
                    &&& !wide_encodable(*os_str)
                    &&& final(self).memory@ == old(self).memory@
                },
            },
    {
        let units = match encode_wide(os_str) {
            Ok(v) => v,
            Err(e) => {
                return Err(e);
            },
        };
        let size_units = units.len() + 1;
        let addr = self.memory.allocate(2 * size_units);
        let res = self.write_os_str_to_wide_str(os_str, addr, size_units);
        proof {
            assert(final(self).memory@ =~= old(self).memory@ + units_to_cells(
                wide_encoding(*os_str) + seq![0u16],
            ));
        }
        match res {
            Ok(_) => Ok(addr),
            Err(e) => Err(e),
        }
    }

    /// Read a null-terminated byte sequence as a filesystem path,
    /// rewriting the target's separators to the host's.
    pub fn read_path_from_c_str(&self, addr: usize) -> (r: Result<HostString, MarshalError>)
        ensures
            byte_read_post(
                self.memory@,
                self.host_os,
                addr,
                self.target_os.spec_separator(),
                self.host_os.spec_separator(),
                r,
            ),
    {
        let s = match self.read_os_str_from_c_str(addr) {
            Ok(v) => v,
            Err(e) => {
                return Err(e);
            },
        };
        proof {
            let sres = scan_bytes(self.memory@, addr as int);
            if sres is Ok {
                crate::sep::swap_sep_bytes_identity(sres->Ok_0, self.host_os.spec_separator());
                crate::sep::swap_sep_units_identity(
                    encode_utf16(decode_utf8(sres->Ok_0)),
                    self.host_os.spec_separator(),
                );
            }
        }
        Ok(convert_path_separator(&s, self.host_os, self.target_os, PathConversion::TargetToHost))
    }

    /// Read a `0x0000`-terminated unit sequence as a filesystem path,
    /// rewriting the target's separators to the host's.
    pub fn read_path_from_wide_str(&self, addr: usize) -> (r: Result<HostString, MarshalError>)
        ensures
            unit_read_post(
                self.memory@,
                self.host_os,
                addr,
                self.target_os.spec_separator(),
                self.host_os.spec_separator(),
                r,
            ),
    {
        let s = match self.read_os_str_from_wide_str(addr) {
            Ok(v) => v,
            Err(e) => {
                return Err(e);
            },
        };
        proof {
            let sres = scan_units(self.memory@, addr as int);
            if sres is Ok {
                crate::sep::swap_sep_units_identity(sres->Ok_0, self.host_os.spec_separator());
                crate::sep::swap_sep_bytes_identity(
                    encode_utf8(decode_utf16(sres->Ok_0)),
                    self.host_os.spec_separator(),
                );
            }
        }
        Ok(convert_path_separator(&s, self.host_os, self.target_os, PathConversion::TargetToHost))
    }

    /// Write a filesystem path as a null-terminated byte sequence,
    /// rewriting the host's separators to the target's first.
    pub fn write_path_to_c_str(&mut self, path: &HostString, addr: usize, size: usize) -> (r:
        Result<TransferOutcome, MarshalError>)
        ensures
            final(self).host_os == old(self).host_os,
            final(self).target_os == old(self).target_os,
            byte_write_post(
                old(self).memory@,
                final(self).memory@,
                path_c_encodable(
                    *path,
                    old(self).host_os.spec_separator(),
                    old(self).target_os.spec_separator(),
                ),
                path_c_encoding(
                    *path,
                    old(self).host_os.spec_separator(),
                    old(self).target_os.spec_separator(),
                ),
                addr,
                size,
                r,
            ),
    {
        let conv = convert_path_separator(
            path,
            self.host_os,
            self.target_os,
            PathConversion::HostToTarget,
        );
        self.write_os_str_to_c_str(&conv, addr, size)
    }

    /// Write a filesystem path as a `0x0000`-terminated unit sequence,
    /// rewriting the host's separators to the target's first.
    pub fn write_path_to_wide_str(&mut self, path: &HostString, addr: usize, size: usize) -> (r:
        Result<TransferOutcome, MarshalError>)
        ensures
            final(self).host_os == old(self).host_os,
            final(self).target_os == old(self).target_os,
            unit_write_post(
                old(self).memory@,
                final(self).memory@,
                path_wide_encodable(
                    *path,
                    old(self).host_os.spec_separator(),
                    old(self).target_os.spec_separator(),
                ),
                path_wide_encoding(
                    *path,
                    old(self).host_os.spec_separator(),
                    old(self).target_os.spec_separator(),
                ),
                addr,
                size,
                r,
            ),
    {
        let conv = convert_path_separator(
            path,
            self.host_os,
            self.target_os,
            PathConversion::HostToTarget,
        );
        self.write_os_str_to_wide_str(&conv, addr, size)
    }
}

/// Round trip on the native byte encoding: after a committed write of a
/// well-formed byte-oriented host string (its content plus one terminator,
/// as `write_os_str_to_c_str` stores them), the terminator scan at the same
/// address returns exactly the content, so a byte-oriented host reads the
/// original string back and the unit after the content is the terminator.
pub proof fn lemma_native_byte_round_trip(m0: Seq<Option<u8>>, s: HostString, addr: usize)
    requires
        !s.is_wide(),
        s.wf(),
        addr + s.byte_content().len() + 1 <= m0.len(),
    ensures
        scan_bytes(store_bytes(m0, addr as int, c_encoding(s) + seq![0u8]), addr as int)
            == Ok::<Seq<u8>, MemoryError>(s.byte_content()),
{
    let content = s.byte_content();
    let data = content + seq![0u8];
    let m1 = store_bytes(m0, addr as int, data);
    assert forall|j: int| 0 <= j < content.len() implies m1[addr + j] == Some(content[j]) by {
        assert(data[j] == content[j]);
    }
    assert(m1[addr + content.len()] == Some(data[content.len() as int]));
    crate::memory::scan_bytes_exact(m1, addr as int, content);
}

/// Round trip on the native wide encoding: after a committed write of a
/// well-formed wide-oriented host string (its content plus one terminator
/// unit, as `write_os_str_to_wide_str` stores them), the unit scan at the
/// same address returns exactly the content.
pub proof fn lemma_native_wide_round_trip(m0: Seq<Option<u8>>, s: HostString, addr: usize)
    requires
        s.is_wide(),
        s.wf(),
        addr + 2 * s.wide_content().len() + 2 <= m0.len(),
    ensures
        scan_units(store_units(m0, addr as int, wide_encoding(s) + seq![0u16]), addr as int)
            == Ok::<Seq<u16>, MemoryError>(s.wide_content()),
{
    let content = s.wide_content();
    let data = content + seq![0u16];
    let m1 = store_units(m0, addr as int, data);
    assert forall|j: int|
        0 <= j < content.len() implies m1[addr + 2 * j] == Some(
        crate::memory::unit_lo(content[j]),
    ) && m1[addr + 2 * j + 1] == Some(crate::memory::unit_hi(content[j])) by {
        assert((2 * j) % 2 == 0 && (2 * j) / 2 == j);
        assert((2 * j + 1) % 2 == 1 && (2 * j + 1) / 2 == j);
        assert(data[j] == content[j]);
    }
    let l = content.len() as int;
    assert((2 * l) % 2 == 0 && (2 * l) / 2 == l);
    assert((2 * l + 1) % 2 == 1 && (2 * l + 1) / 2 == l);
    assert(m1[addr + 2 * l] == Some(crate::memory::unit_lo(data[l])));
    assert(m1[addr + 2 * l + 1] == Some(crate::memory::unit_hi(data[l])));
    crate::memory::scan_units_exact(m1, addr as int, content);
}

/// Cross-encoding round trip, byte-oriented side: a byte string holding
/// valid UTF-8, encoded for a wide-oriented target buffer, is valid UTF-16
/// there, and decoding that buffer back for a byte-oriented host restores
/// the original bytes.
pub proof fn lemma_cross_round_trip_bytes(b: Seq<u8>)
    requires
        valid_utf8(b),
    ensures
        valid_utf16(encode_utf16(decode_utf8(b))),
        encode_utf8(decode_utf16(encode_utf16(decode_utf8(b)))) == b,
{
    let t = decode_utf8(b);
    encode_utf16_decode_utf16(t);
    decode_utf8_encode_utf8(b);
}

/// Cross-encoding round trip, wide-oriented side: a wide string holding
/// valid UTF-16, encoded for a byte-oriented target buffer, is valid UTF-8
/// there, and decoding that buffer back for a wide-oriented host restores
/// the original units.
pub proof fn lemma_cross_round_trip_units(w: Seq<u16>)
    requires
        valid_utf16(w),
    ensures
        valid_utf8(encode_utf8(decode_utf16(w))),
        encode_utf16(decode_utf8(encode_utf8(decode_utf16(w)))) == w,
{
    let t = decode_utf16(w);
    encode_utf8_valid_utf8(t);
    encode_utf8_decode_utf8(t);
    decode_utf16_encode_utf16(w);
}

} // verus!

