//! Path separator normalization between host and target conventions.
//!
//! When the host and the emulated target disagree on the path separator
//! (`/` for Unix-style systems, `\` for Windows-style ones), every
//! occurrence of the source convention's separator is replaced by the
//! destination convention's separator. The substitution is one character
//! for one character: it never merges, splits or reorders path components
//! and never changes the length of the value.

use vstd::prelude::*;

use crate::types::{HostString, OsFamily, PathConversion};

verus! {

/// `b` with every occurrence of `from` replaced by `to`.
pub open spec fn swap_sep_bytes(b: Seq<u8>, from: u8, to: u8) -> Seq<u8> {
    b.map_values(
        |x: u8|
            if x == from {
                to
            } else {
                x
            },
    )
}

/// `u` with every occurrence of the unit for `from` replaced by the unit
/// for `to`.
pub open spec fn swap_sep_units(u: Seq<u16>, from: u8, to: u8) -> Seq<u16> {
    u.map_values(
        |x: u16|
            if x == from as u16 {
                to as u16
            } else {
                x
            },
    )
}

/// The separator that is rewritten away, given the two conventions and the
/// direction of travel.
pub open spec fn spec_source_sep(host: OsFamily, target: OsFamily, dir: PathConversion) -> u8 {
    match dir {
        PathConversion::HostToTarget => host.spec_separator(),
        PathConversion::TargetToHost => target.spec_separator(),
    }
}

/// The separator that is written in its place.
pub open spec fn spec_dest_sep(host: OsFamily, target: OsFamily, dir: PathConversion) -> u8 {
    match dir {
        PathConversion::HostToTarget => target.spec_separator(),
        PathConversion::TargetToHost => host.spec_separator(),
    }
}

/// Rewriting with equal source and destination separators is the identity,
/// so matching host and target conventions leave a path unchanged.
pub proof fn swap_sep_bytes_identity(b: Seq<u8>, c: u8)
    ensures
        swap_sep_bytes(b, c, c) == b,
{
    assert(swap_sep_bytes(b, c, c) =~= b);
}

/// Wide variant of `swap_sep_bytes_identity`.
pub proof fn swap_sep_units_identity(u: Seq<u16>, c: u8)
    ensures
        swap_sep_units(u, c, c) == u,
{
    assert(swap_sep_units(u, c, c) =~= u);
}

/// Rewriting `from` to `to` and back restores a byte string that contained
/// no literal occurrence of `to`.
pub proof fn swap_sep_bytes_round_trip(b: Seq<u8>, from: u8, to: u8)
    requires
        forall|i: int| 0 <= i < b.len() ==> b[i] != to,
    ensures
        swap_sep_bytes(swap_sep_bytes(b, from, to), to, from) == b,
{
    assert(swap_sep_bytes(swap_sep_bytes(b, from, to), to, from) =~= b);
}

/// Wide variant of `swap_sep_bytes_round_trip`.
pub proof fn swap_sep_units_round_trip(u: Seq<u16>, from: u8, to: u8)
    requires
        forall|i: int| 0 <= i < u.len() ==> u[i] != to as u16,
    ensures
        swap_sep_units(swap_sep_units(u, from, to), to, from) == u,
{
    assert(swap_sep_units(swap_sep_units(u, from, to), to, from) =~= u);
}

/// Perform path separator conversion between the host's and the target's
/// conventions, in the given direction. When the two conventions agree the
/// value comes back unchanged; separators are never rewritten to or from
/// the terminator, so well-formedness is preserved.
pub fn convert_path_separator(
    os_str: &HostString,
    host_os: OsFamily,
    target_os: OsFamily,
    direction: PathConversion,
) -> (r: HostString)
    ensures
        r.is_wide() == os_str.is_wide(),
        r.unit_len() == os_str.unit_len(),
        !os_str.is_wide() ==> r.byte_content() == swap_sep_bytes(
            os_str.byte_content(),
            spec_source_sep(host_os, target_os, direction),
            spec_dest_sep(host_os, target_os, direction),
        ),
        os_str.is_wide() ==> r.wide_content() == swap_sep_units(
            os_str.wide_content(),
            spec_source_sep(host_os, target_os, direction),
            spec_dest_sep(host_os, target_os, direction),
        ),
        os_str.wf() ==> r.wf(),
{
    let from = match direction {
        PathConversion::HostToTarget => host_os.separator(),
        PathConversion::TargetToHost => target_os.separator(),
    };
    let to = match direction {
        PathConversion::HostToTarget => target_os.separator(),
        PathConversion::TargetToHost => host_os.separator(),
    };
    match os_str {
        HostString::Bytes(b) => {
            let mut out: Vec<u8> = Vec::new();
            let n = b.len();
            let mut j: usize = 0;
            while j < n
                invariant
                    j <= n,
                    n == b@.len(),
                    out@.len() == j,
                    forall|k: int|
                        0 <= k < j ==> out@[k] == (if b@[k] == from {
                            to
                        } else {
                            b@[k]
                        }),
                decreases n - j,
            {
                let x = b[j];
                if x == from {
                    out.push(to);
                } else {
                    out.push(x);
                }
                j = j + 1;
            }
            proof {
                assert(out@ =~= swap_sep_bytes(b@, from, to));
            }
            HostString::Bytes(out)
        },
        HostString::Wide(w) => {
            let from16 = from as u16;
            let to16 = to as u16;
            let mut out: Vec<u16> = Vec::new();
            let n = w.len();
            let mut j: usize = 0;
            while j < n
                invariant
                    j <= n,
                    n == w@.len(),
                    from16 == from as u16,
                    to16 == to as u16,
                    out@.len() == j,
                    forall|k: int|
                        0 <= k < j ==> out@[k] == (if w@[k] == from as u16 {
                            to as u16
                        } else {
                            w@[k]
                        }),
                decreases n - j,
            {
                let x = w[j];
                if x == from16 {
                    out.push(to16);
                } else {
                    out.push(x);
                }
                j = j + 1;
            }
            proof {
                assert(out@ =~= swap_sep_units(w@, from, to));
            }
            HostString::Wide(out)
        },
    }
}

} // verus!
