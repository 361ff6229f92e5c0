//! The value types the marshaling layer works over: host strings, OS
//! families, transfer outcomes and the error taxonomy.

use vstd::prelude::*;

verus! {

/// Which string-and-separator convention an operating system follows.
///
/// Unix-style systems use byte-oriented native strings and `/` as the path
/// separator; Windows-style systems use 16-bit-code-unit native strings and
/// `\`. Both the host and the emulated target are described by one of these.
#[derive(Clone, Copy, Debug, PartialEq, Eq, Structural)]
pub enum OsFamily {
    UnixLike,
    WindowsLike,
}

impl OsFamily {
    /// True when the family's native string representation uses 16-bit code
    /// units rather than bytes.
    pub open spec fn is_wide(self) -> bool {
        self is WindowsLike
    }

    /// The family's path separator, as an ASCII byte.
    pub open spec fn spec_separator(self) -> u8 {
        match self {
            OsFamily::UnixLike => 0x2f,
            OsFamily::WindowsLike => 0x5c,
        }
    }

    /// The family's path separator (`/` for Unix-style, `\` for
    /// Windows-style), as an ASCII byte.
    pub fn separator(self) -> (r: u8)
        ensures
            r == self.spec_separator(),
    {
        match self {
            OsFamily::UnixLike => 0x2f,
            OsFamily::WindowsLike => 0x5c,
        }
    }
}

/// True when no byte of `b` is the `0x00` terminator unit.
pub open spec fn bytes_nul_free(b: Seq<u8>) -> bool {
    forall|i: int| 0 <= i < b.len() ==> b[i] != 0
}

/// True when no unit of `u` is the `0x0000` terminator unit.
pub open spec fn units_nul_free(u: Seq<u16>) -> bool {
    forall|i: int| 0 <= i < u.len() ==> u[i] != 0
}

/// True when no character of `t` is the NUL character.
pub open spec fn chars_nul_free(t: Seq<char>) -> bool {
    forall|i: int| 0 <= i < t.len() ==> t[i] as u32 != 0
}

/// The host's native, lossless string representation.
///
/// A byte-oriented host holds arbitrary bytes; a wide-oriented host holds
/// arbitrary 16-bit code units. Neither is required to be valid Unicode.
#[derive(Clone, Debug, PartialEq, Eq)]
pub enum HostString {
    Bytes(Vec<u8>),
    Wide(Vec<u16>),
}

impl HostString {
    /// True when this string uses the wide-oriented representation.
    pub open spec fn is_wide(self) -> bool {
        self is Wide
    }

    /// The content of a byte-oriented host string.
    pub open spec fn byte_content(self) -> Seq<u8>
        recommends
            !self.is_wide(),
    {
        self->Bytes_0@
    }

    /// The content of a wide-oriented host string.
    pub open spec fn wide_content(self) -> Seq<u16>
        recommends
            self.is_wide(),
    {
        self->Wide_0@
    }

    /// A host string never includes a terminator unit; every unit of its
    /// content is nonzero.
    pub open spec fn wf(self) -> bool {
        match self {
            HostString::Bytes(b) => bytes_nul_free(b@),
            HostString::Wide(w) => units_nul_free(w@),
        }
    }

    /// The length of the string in its own native units.
    pub open spec fn unit_len(self) -> nat {
        match self {
            HostString::Bytes(b) => b@.len(),
            HostString::Wide(w) => w@.len(),
        }
    }
}

/// A failure while reading from or writing to simulated memory, propagated
/// unchanged from the memory model.
#[derive(Clone, Copy, Debug, PartialEq, Eq, Structural)]
pub enum MemoryError {
    /// The accessed address lies outside the allocated address range.
    OutOfRange,
    /// The accessed unit was allocated but never written.
    Uninitialized,
}

/// A recoverable failure of a marshaling operation.
#[derive(Clone, Copy, Debug, PartialEq, Eq, Structural)]
pub enum MarshalError {
    /// A cross-encoding conversion met content that is not valid Unicode.
    InvalidEncoding,
    /// Simulated memory rejected an access.
    Memory(MemoryError),
}

/// The result of a capacity-bounded write attempt.
///
/// `Written(n)` means the full content of `n` units plus one terminator unit
/// was committed; `TooSmall(n)` means nothing was written and a capacity of
/// at least `n + 1` units is needed. Neither count includes the terminator.
#[derive(Clone, Copy, Debug, PartialEq, Eq, Structural)]
pub enum TransferOutcome {
    Written(usize),
    TooSmall(usize),
}

/// The direction in which path separators are rewritten.
#[derive(Clone, Copy, Debug, PartialEq, Eq, Structural)]
pub enum PathConversion {
    HostToTarget,
    TargetToHost,
}

} // verus!
