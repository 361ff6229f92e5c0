use os_str_marshal::codec::{utf16_to_utf8, utf8_to_utf16};
use os_str_marshal::marshal::EvalContext;
use os_str_marshal::memory::SimMemory;
use os_str_marshal::sep::convert_path_separator;
use os_str_marshal::types::{
    HostString, MarshalError, MemoryError, OsFamily, PathConversion, TransferOutcome,
};

fn unix_on_unix(capacity: usize) -> (EvalContext, usize) {
    let mut ctx = EvalContext {
        memory: SimMemory::new(),
        host_os: OsFamily::UnixLike,
        target_os: OsFamily::UnixLike,
    };
    let addr = ctx.memory.allocate(capacity);
    (ctx, addr)
}

fn windows_on_unix(capacity: usize) -> (EvalContext, usize) {
    let mut ctx = EvalContext {
        memory: SimMemory::new(),
        host_os: OsFamily::UnixLike,
        target_os: OsFamily::WindowsLike,
    };
    let addr = ctx.memory.allocate(capacity);
    (ctx, addr)
}

fn windows_on_windows(capacity: usize) -> (EvalContext, usize) {
    let mut ctx = EvalContext {
        memory: SimMemory::new(),
        host_os: OsFamily::WindowsLike,
        target_os: OsFamily::WindowsLike,
    };
    let addr = ctx.memory.allocate(capacity);
    (ctx, addr)
}

#[test]
fn native_byte_round_trip() {
    let (mut ctx, addr) = unix_on_unix(16);
    let s = HostString::Bytes(vec![b'a', b'b', b'c']);
    let r = ctx.write_os_str_to_c_str(&s, addr, 4).unwrap();
    assert_eq!(r, TransferOutcome::Written(3));
    let back = ctx.read_os_str_from_c_str(addr).unwrap();
    assert_eq!(back, s);
}

#[test]
fn native_wide_round_trip() {
    let (mut ctx, addr) = windows_on_windows(16);
    let s = HostString::Wide(vec![0x0068, 0x0069, 0xd834, 0xdd1e]);
    let r = ctx.write_os_str_to_wide_str(&s, addr, 5).unwrap();
    assert_eq!(r, TransferOutcome::Written(4));
    let back = ctx.read_os_str_from_wide_str(addr).unwrap();
    assert_eq!(back, s);
}

#[test]
fn cross_encoding_round_trip_byte_host() {
    // "héllo" as UTF-8: 6 bytes, 5 scalars.
    let bytes = vec![0x68, 0xc3, 0xa9, 0x6c, 0x6c, 0x6f];
    let (mut ctx, addr) = unix_on_unix(32);
    let s = HostString::Bytes(bytes.clone());
    let r = ctx.write_os_str_to_wide_str(&s, addr, 6).unwrap();
    assert_eq!(r, TransferOutcome::Written(5));
    let back = ctx.read_os_str_from_wide_str(addr).unwrap();
    assert_eq!(back, HostString::Bytes(bytes));
}

#[test]
fn cross_encoding_rejects_invalid_utf8() {
    let (mut ctx, addr) = unix_on_unix(32);
    let s = HostString::Bytes(vec![0x68, 0xff, 0x6f]);
    let r = ctx.write_os_str_to_wide_str(&s, addr, 16);
    assert_eq!(r, Err(MarshalError::InvalidEncoding));
}

#[test]
fn cross_encoding_rejects_lone_surrogate() {
    let (mut ctx, addr) = windows_on_windows(32);
    let s = HostString::Wide(vec![0x0061, 0xd800, 0x0062]);
    let r = ctx.write_os_str_to_c_str(&s, addr, 16);
    assert_eq!(r, Err(MarshalError::InvalidEncoding));
}

#[test]
fn probe_then_commit() {
    let (mut ctx, addr) = unix_on_unix(8);
    let s = HostString::Bytes(vec![b'x', b'y', b'z']);
    // Probe with an undersized capacity: nothing is written.
    let probe = ctx.write_os_str_to_c_str(&s, addr, 3).unwrap();
    assert_eq!(probe, TransferOutcome::TooSmall(3));
    // The probed region is still uninitialized.
    assert_eq!(
        ctx.read_os_str_from_c_str(addr),
        Err(MarshalError::Memory(MemoryError::Uninitialized))
    );
    // Commit with the reported length plus the terminator.
    let commit = ctx.write_os_str_to_c_str(&s, addr, 4).unwrap();
    assert_eq!(commit, TransferOutcome::Written(3));
    let back = ctx.read_os_str_from_c_str(addr).unwrap();
    assert_eq!(back, s);
}

#[test]
fn probe_with_zero_capacity_reports_required_length() {
    let (mut ctx, addr) = windows_on_windows(8);
    let s = HostString::Wide(vec![1, 2, 3, 4, 5]);
    let probe = ctx.write_os_str_to_wide_str(&s, addr, 0).unwrap();
    assert_eq!(probe, TransferOutcome::TooSmall(5));
}

#[test]
fn terminator_exactness() {
    let (mut ctx, addr) = unix_on_unix(16);
    let s = HostString::Bytes(vec![b'a', b'b', b'c', b'd']);
    let r = ctx.write_os_str_to_c_str(&s, addr, 16).unwrap();
    assert_eq!(r, TransferOutcome::Written(4));
    // Reading back yields content of exactly the reported length.
    let back = ctx.read_os_str_from_c_str(addr).unwrap();
    assert_eq!(back, s);
    // The unit immediately after the content is the terminator: a scan
    // that starts there sees the empty string.
    let empty = ctx.read_os_str_from_c_str(addr + 4).unwrap();
    assert_eq!(empty, HostString::Bytes(vec![]));
}

#[test]
fn write_out_of_range_leaves_memory_unchanged() {
    let (mut ctx, addr) = unix_on_unix(3);
    let s = HostString::Bytes(vec![b'a', b'b', b'c']);
    // Capacity would be large enough, but the buffer lies past the end of
    // the allocated space.
    let r = ctx.write_os_str_to_c_str(&s, addr, 16);
    assert_eq!(r, Err(MarshalError::Memory(MemoryError::OutOfRange)));
    assert_eq!(
        ctx.read_os_str_from_c_str(addr),
        Err(MarshalError::Memory(MemoryError::Uninitialized))
    );
}

#[test]
fn read_out_of_range() {
    let (ctx, _) = unix_on_unix(4);
    assert_eq!(
        ctx.read_os_str_from_c_str(100),
        Err(MarshalError::Memory(MemoryError::OutOfRange))
    );
    assert_eq!(
        ctx.read_os_str_from_wide_str(100),
        Err(MarshalError::Memory(MemoryError::OutOfRange))
    );
}

#[test]
fn read_unterminated_string_runs_off_the_end() {
    let (mut ctx, addr) = unix_on_unix(3);
    // Fill the whole region with nonzero bytes and no terminator: the scan
    // reaches the end of the address space and reports the memory error.
    ctx.memory.write_bytes(addr, &vec![1, 2, 3]).unwrap();
    assert_eq!(
        ctx.read_os_str_from_c_str(addr),
        Err(MarshalError::Memory(MemoryError::OutOfRange))
    );
}

#[test]
fn read_invalid_utf8_on_wide_host() {
    // A byte buffer holding non-UTF-8 content can be written on a
    // byte-oriented host, but a wide-oriented host cannot decode it.
    let mut unix = EvalContext {
        memory: SimMemory::new(),
        host_os: OsFamily::UnixLike,
        target_os: OsFamily::UnixLike,
    };
    let addr = unix.memory.allocate(8);
    let r = unix.write_os_str_to_c_str(&HostString::Bytes(vec![0xff, 0xfe]), addr, 8);
    assert_eq!(r, Ok(TransferOutcome::Written(2)));
    let windows_host = EvalContext {
        memory: unix.memory,
        host_os: OsFamily::WindowsLike,
        target_os: OsFamily::UnixLike,
    };
    assert_eq!(
        windows_host.read_os_str_from_c_str(addr),
        Err(MarshalError::InvalidEncoding)
    );
}

#[test]
fn separator_identity_when_conventions_match() {
    let s = HostString::Bytes(vec![b'a', b'/', b'b', b'\\', b'c']);
    let r = convert_path_separator(
        &s,
        OsFamily::UnixLike,
        OsFamily::UnixLike,
        PathConversion::HostToTarget,
    );
    assert_eq!(r, s);
}

#[test]
fn separator_swap_is_length_preserving() {
    let s = HostString::Bytes(vec![b'a', b'/', b'b', b'/', b'c']);
    let r = convert_path_separator(
        &s,
        OsFamily::UnixLike,
        OsFamily::WindowsLike,
        PathConversion::HostToTarget,
    );
    assert_eq!(r, HostString::Bytes(vec![b'a', b'\\', b'b', b'\\', b'c']));
}

#[test]
fn separator_round_trip() {
    let s = HostString::Bytes(vec![b'a', b'/', b'b', b'/', b'c']);
    let there = convert_path_separator(
        &s,
        OsFamily::UnixLike,
        OsFamily::WindowsLike,
        PathConversion::HostToTarget,
    );
    let back = convert_path_separator(
        &there,
        OsFamily::UnixLike,
        OsFamily::WindowsLike,
        PathConversion::TargetToHost,
    );
    assert_eq!(back, s);
}

#[test]
fn windows_target_path_on_unix_host() {
    // Path `a/b/c` written as a path to a byte buffer: capacity 5 is too
    // small, capacity 6 writes `a\b\c` plus the terminator.
    let (mut ctx, addr) = windows_on_unix(6);
    let path = HostString::Bytes(vec![b'a', b'/', b'b', b'/', b'c']);
    let probe = ctx.write_path_to_c_str(&path, addr, 5).unwrap();
    assert_eq!(probe, TransferOutcome::TooSmall(5));
    let commit = ctx.write_path_to_c_str(&path, addr, 6).unwrap();
    assert_eq!(commit, TransferOutcome::Written(5));
    // The buffer holds the target's separator convention.
    let raw = ctx.read_os_str_from_c_str(addr).unwrap();
    assert_eq!(raw, HostString::Bytes(vec![b'a', b'\\', b'b', b'\\', b'c']));
    // Reading it back as a path restores the host convention.
    let back = ctx.read_path_from_c_str(addr).unwrap();
    assert_eq!(back, path);
}

#[test]
fn wide_target_path_round_trip() {
    let (mut ctx, addr) = windows_on_unix(32);
    let path = HostString::Bytes(vec![b'd', b'/', b'e']);
    let commit = ctx.write_path_to_wide_str(&path, addr, 4).unwrap();
    assert_eq!(commit, TransferOutcome::Written(3));
    let raw = ctx.read_os_str_from_wide_str(addr).unwrap();
    assert_eq!(raw, HostString::Bytes(vec![b'd', b'\\', b'e']));
    let back = ctx.read_path_from_wide_str(addr).unwrap();
    assert_eq!(back, path);
}

#[test]
fn unix_host_unix_target_heello_to_wide_buffer() {
    // "héllo" is 6 UTF-8 bytes and 5 UTF-16 units.
    let (mut ctx, addr) = unix_on_unix(32);
    let s = HostString::Bytes(vec![0x68, 0xc3, 0xa9, 0x6c, 0x6c, 0x6f]);
    let r = ctx.write_os_str_to_wide_str(&s, addr, 6).unwrap();
    assert_eq!(r, TransferOutcome::Written(5));
}

#[test]
fn alloc_c_str_is_exactly_sized() {
    let (mut ctx, _) = unix_on_unix(0);
    let s = HostString::Bytes(vec![b'h', b'i']);
    let addr = ctx.alloc_os_str_as_c_str(&s).unwrap();
    assert_eq!(addr, 0);
    let back = ctx.read_os_str_from_c_str(addr).unwrap();
    assert_eq!(back, s);
}

#[test]
fn alloc_wide_str_is_exactly_sized() {
    let (mut ctx, _) = windows_on_windows(0);
    let s = HostString::Wide(vec![0x68, 0x69]);
    let addr = ctx.alloc_os_str_as_wide_str(&s).unwrap();
    assert_eq!(addr, 0);
    let back = ctx.read_os_str_from_wide_str(addr).unwrap();
    assert_eq!(back, s);
}

#[test]
fn utf8_to_utf16_exact_values() {
    // 'h', 'é', and U+1D11E, mixing all unit shapes.
    let bytes = vec![0x68, 0xc3, 0xa9, 0xf0, 0x9d, 0x84, 0x9e];
    let units = utf8_to_utf16(&bytes).unwrap();
    assert_eq!(units, vec![0x0068, 0x00e9, 0xd834, 0xdd1e]);
}

#[test]
fn utf16_to_utf8_exact_values() {
    let units = vec![0x0068, 0x00e9, 0x20ac, 0xd834, 0xdd1e];
    let bytes = utf16_to_utf8(&units).unwrap();
    assert_eq!(
        bytes,
        vec![0x68, 0xc3, 0xa9, 0xe2, 0x82, 0xac, 0xf0, 0x9d, 0x84, 0x9e]
    );
}

#[test]
fn utf8_rejects_overlong_and_surrogates() {
    // Overlong encoding of '/'.
    assert!(utf8_to_utf16(&vec![0xc0, 0xaf]).is_none());
    // Encoded surrogate U+D800.
    assert!(utf8_to_utf16(&vec![0xed, 0xa0, 0x80]).is_none());
    // Truncated sequence.
    assert!(utf8_to_utf16(&vec![0xe2, 0x82]).is_none());
    // Bare continuation byte.
    assert!(utf8_to_utf16(&vec![0x80]).is_none());
}

#[test]
fn utf16_rejects_unpaired_surrogates() {
    assert!(utf16_to_utf8(&vec![0xd800]).is_none());
    assert!(utf16_to_utf8(&vec![0xdc00, 0xd800]).is_none());
    assert!(utf16_to_utf8(&vec![0xd800, 0x0061]).is_none());
}
