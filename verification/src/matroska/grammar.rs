//! What the index of a Matroska file says, given the bytes of the file as far as they are
//! known.
use crate::number;
use vstd::prelude::*;

verus! {

// ── Element IDs ──────────────────────────────────────────────────────────────

pub const ID_EBML: u64 = 0x1A45_DFA3;

pub const ID_SEGMENT: u64 = 0x1853_8067;

pub const ID_SEEKHEAD: u64 = 0x114D_9B74;

pub const ID_SEEK: u64 = 0x4DBB;

pub const ID_SEEK_ID: u64 = 0x53AB;

pub const ID_SEEK_POSITION: u64 = 0x53AC;

pub const ID_INFO: u64 = 0x1549_A966;

pub const ID_TIMESTAMP_SCALE: u64 = 0x002A_D7B1;

pub const ID_CUES: u64 = 0x1C53_BB6B;

pub const ID_CUE_POINT: u64 = 0xBB;

pub const ID_CUE_TIME: u64 = 0xB3;

/// The length of a tick in nanoseconds where the file states none.
pub const DEFAULT_TIMESTAMP_SCALE_NS: u64 = 1_000_000;

/// How far behind the beginning of the segment its children are looked through.
pub const SCAN_LENGTH: u64 = 131_072;

/// The size of a body of unknown size, for the index itself.
pub const ENDLESS: u64 = 0x7FFF_FFFF_FFFF_FFFF;

// ── Bytes ────────────────────────────────────────────────────────────────────

/// What is known of a stretch of the file.
pub enum Fetched {
    /// Its bytes.
    Bytes(Seq<u8>),
    /// It cannot be read.
    Fault(Seq<char>),
    /// It has not been read.
    Missing,
}

/// The result of reading: what was read, or why it failed, or the position that has to be
/// read first.
pub enum Outcome<A> {
    Value(A),
    Fault(Seq<char>),
    Missing(int),
}

/// How far it is from `pos` to `end`.
pub open spec fn to_go(pos: int, end: int) -> int {
    if pos < end {
        end - pos
    } else {
        0
    }
}

/// The byte at `pos`.
pub open spec fn byte_at(src: spec_fn(int, int) -> Fetched, pos: int) -> Outcome<u8> {
    match src(pos, 1) {
        Fetched::Bytes(b) => Outcome::Value(b[0]),
        Fetched::Fault(m) => Outcome::Fault(m),
        Fetched::Missing => Outcome::Missing(pos),
    }
}

/// The `k` bytes from `pos` on, read one by one.
pub open spec fn run_at(src: spec_fn(int, int) -> Fetched, pos: int, k: nat) -> Outcome<Seq<u8>>
    decreases k,
{
    if k == 0 {
        Outcome::Value(Seq::empty())
    } else {
        match run_at(src, pos, (k - 1) as nat) {
            Outcome::Value(front) => match byte_at(src, pos + k - 1) {
                Outcome::Value(b) => Outcome::Value(front.push(b)),
                Outcome::Fault(m) => Outcome::Fault(m),
                Outcome::Missing(at) => Outcome::Missing(at),
            },
            Outcome::Fault(m) => Outcome::Fault(m),
            Outcome::Missing(at) => Outcome::Missing(at),
        }
    }
}

/// The number that the bytes write, the highest first.
pub open spec fn big_endian(bytes: Seq<u8>) -> nat
    decreases bytes.len(),
{
    if bytes.len() == 0 {
        0
    } else {
        big_endian(bytes.drop_last()) * 256 + bytes.last() as nat
    }
}

// ── Elements ─────────────────────────────────────────────────────────────────

/// The number of bytes of an ID that begins with `first`; 0 where none does.
pub open spec fn id_width(first: u8) -> nat {
    if first >= 0x80 {
        1
    } else if first >= 0x40 {
        2
    } else if first >= 0x20 {
        3
    } else if first >= 0x10 {
        4
    } else {
        0
    }
}

/// The ID at `pos`, and the position behind it.
pub open spec fn id_at(src: spec_fn(int, int) -> Fetched, pos: int) -> Outcome<(nat, int)> {
    match byte_at(src, pos) {
        Outcome::Value(first) => if id_width(first) == 0 {
            Outcome::Fault("invalid EBML ID first byte"@)
        } else {
            match run_at(src, pos, id_width(first)) {
                Outcome::Value(bytes) => Outcome::Value(
                    (big_endian(bytes), pos + id_width(first)),
                ),
                Outcome::Fault(m) => Outcome::Fault(m),
                Outcome::Missing(at) => Outcome::Missing(at),
            }
        },
        Outcome::Fault(m) => Outcome::Fault(m),
        Outcome::Missing(at) => Outcome::Missing(at),
    }
}

/// The highest bit that is set in the first byte of a size, which tells its width.
pub open spec fn size_marker(first: u8) -> nat {
    if first >= 0x80 {
        0x80
    } else if first >= 0x40 {
        0x40
    } else if first >= 0x20 {
        0x20
    } else if first >= 0x10 {
        0x10
    } else if first >= 0x08 {
        0x08
    } else if first >= 0x04 {
        0x04
    } else if first >= 0x02 {
        0x02
    } else {
        0x01
    }
}

/// The number of bytes of a size that begins with `first`; 0 where none does.
pub open spec fn size_width(first: u8) -> nat {
    if first >= 0x80 {
        1
    } else if first >= 0x40 {
        2
    } else if first >= 0x20 {
        3
    } else if first >= 0x10 {
        4
    } else if first >= 0x08 {
        5
    } else if first >= 0x04 {
        6
    } else if first >= 0x02 {
        7
    } else if first >= 0x01 {
        8
    } else {
        0
    }
}

/// The size that the bytes write: the number without the marker, or none where every bit of
/// it is set.
pub open spec fn size_of(bytes: Seq<u8>) -> Option<nat> {
    let first = bytes[0];
    let value = big_endian(bytes.update(0, (first as nat % size_marker(first)) as u8));
    if value == vstd::arithmetic::power2::pow2(7 * size_width(first)) - 1 {
        None
    } else {
        Some(value)
    }
}

/// The size at `pos`, none where it is marked as unknown, and the position behind it.
pub open spec fn size_at(src: spec_fn(int, int) -> Fetched, pos: int) -> Outcome<
    (Option<nat>, int),
> {
    match byte_at(src, pos) {
        Outcome::Value(first) => if size_width(first) == 0 {
            Outcome::Fault("invalid EBML size byte"@)
        } else {
            match run_at(src, pos, size_width(first)) {
                Outcome::Value(bytes) => Outcome::Value((size_of(bytes), pos + size_width(first))),
                Outcome::Fault(m) => Outcome::Fault(m),
                Outcome::Missing(at) => Outcome::Missing(at),
            }
        },
        Outcome::Fault(m) => Outcome::Fault(m),
        Outcome::Missing(at) => Outcome::Missing(at),
    }
}

/// The ID and the size of the element at `pos`, and the position of its body. A size that is
/// unknown counts as `unknown`.
pub open spec fn header_at(src: spec_fn(int, int) -> Fetched, pos: int, unknown: nat) -> Outcome<
    (nat, nat, int),
> {
    match id_at(src, pos) {
        Outcome::Value((id, behind)) => match size_at(src, behind) {
            Outcome::Value((size, body)) => Outcome::Value(
                (
                    id,
                    match size {
                        Some(n) => n,
                        None => unknown,
                    },
                    body,
                ),
            ),
            Outcome::Fault(m) => Outcome::Fault(m),
            Outcome::Missing(at) => Outcome::Missing(at),
        },
        Outcome::Fault(m) => Outcome::Fault(m),
        Outcome::Missing(at) => Outcome::Missing(at),
    }
}

/// The number that the `n` bytes from `pos` on write.
pub open spec fn uint_at(src: spec_fn(int, int) -> Fetched, pos: int, n: nat) -> Outcome<nat> {
    if n > 8 {
        Outcome::Fault("uint element too wide"@)
    } else {
        match run_at(src, pos, n) {
            Outcome::Value(bytes) => Outcome::Value(big_endian(bytes)),
            Outcome::Fault(m) => Outcome::Fault(m),
            Outcome::Missing(at) => Outcome::Missing(at),
        }
    }
}

/// The `n` bytes from `pos` on, read at once.
pub open spec fn binary_at(src: spec_fn(int, int) -> Fetched, pos: int, n: nat) -> Outcome<
    Seq<u8>,
> {
    if n > 64 {
        Outcome::Fault("binary element too large"@)
    } else if n == 0 {
        Outcome::Value(Seq::empty())
    } else {
        match src(pos, n as int) {
            Fetched::Bytes(b) => Outcome::Value(b),
            Fetched::Fault(m) => Outcome::Fault(m),
            Fetched::Missing => Outcome::Missing(pos),
        }
    }
}

// ── The list of positions ────────────────────────────────────────────────────

/// What an entry of the list says: the last ID and the last position in its body.
pub open spec fn entry_at(
    src: spec_fn(int, int) -> Fetched,
    pos: int,
    end: int,
    id: Option<Seq<u8>>,
    position: Option<nat>,
) -> Outcome<(Option<Seq<u8>>, Option<nat>)>
    decreases to_go(pos, end),
{
    if pos >= end {
        Outcome::Value((id, position))
    } else {
        match header_at(src, pos, 0) {
            Outcome::Value((kind, size, body)) => if kind == ID_SEEK_ID {
                match binary_at(src, body, size) {
                    Outcome::Value(b) => entry_at(src, body + size, end, Some(b), position),
                    Outcome::Fault(m) => Outcome::Fault(m),
                    Outcome::Missing(at) => Outcome::Missing(at),
                }
            } else if kind == ID_SEEK_POSITION {
                match uint_at(src, body, size) {
                    Outcome::Value(n) => entry_at(src, body + size, end, id, Some(n)),
                    Outcome::Fault(m) => Outcome::Fault(m),
                    Outcome::Missing(at) => Outcome::Missing(at),
                }
            } else {
                entry_at(src, body + size, end, id, position)
            },
            Outcome::Fault(m) => Outcome::Fault(m),
            Outcome::Missing(at) => Outcome::Missing(at),
        }
    }
}

/// The ID that the bytes write; of a longer one, the last eight bytes count.
pub open spec fn short_id(id: Seq<u8>) -> nat {
    big_endian(id) % vstd::arithmetic::power2::pow2(64)
}

/// The entries of the list behind those in `found`: each with the ID of an element and its
/// position in the segment.
pub open spec fn entries_at(
    src: spec_fn(int, int) -> Fetched,
    pos: int,
    end: int,
    found: Seq<(nat, nat)>,
) -> Outcome<Seq<(nat, nat)>>
    decreases to_go(pos, end),
{
    if pos >= end {
        Outcome::Value(found)
    } else {
        match header_at(src, pos, 0) {
            Outcome::Value((kind, size, body)) => if kind == ID_SEEK {
                match entry_at(src, body, body + size, None, None) {
                    Outcome::Value((Some(id), Some(position))) => entries_at(
                        src,
                        body + size,
                        end,
                        found.push((short_id(id), position)),
                    ),
                    Outcome::Value(_) => entries_at(src, body + size, end, found),
                    Outcome::Fault(m) => Outcome::Fault(m),
                    Outcome::Missing(at) => Outcome::Missing(at),
                }
            } else {
                entries_at(src, body + size, end, found)
            },
            Outcome::Fault(m) => Outcome::Fault(m),
            Outcome::Missing(at) => Outcome::Missing(at),
        }
    }
}

/// The position in the file that the last entry for `id` gives; `known` where there is none.
/// Positions wrap around at the end of the range of `u64`.
pub open spec fn position_of(
    entries: Seq<(nat, nat)>,
    id: u64,
    start: int,
    known: Option<int>,
) -> Option<int>
    decreases entries.len(),
{
    if entries.len() == 0 {
        known
    } else if entries.last().0 == id {
        Some((start + entries.last().1) % (vstd::arithmetic::power2::pow2(64) as int))
    } else {
        position_of(entries.drop_last(), id, start, known)
    }
}

// ── The length of a tick ─────────────────────────────────────────────────────

/// The length of a tick in nanoseconds that the first such element states.
pub open spec fn scale_at(src: spec_fn(int, int) -> Fetched, pos: int, end: int) -> Outcome<nat>
    decreases to_go(pos, end),
{
    if pos >= end {
        Outcome::Value(DEFAULT_TIMESTAMP_SCALE_NS as nat)
    } else {
        match header_at(src, pos, 0) {
            Outcome::Value((kind, size, body)) => if kind == ID_TIMESTAMP_SCALE {
                uint_at(src, body, size)
            } else {
                scale_at(src, body + size, end)
            },
            Outcome::Fault(m) => Outcome::Fault(m),
            Outcome::Missing(at) => Outcome::Missing(at),
        }
    }
}

// ── The index ────────────────────────────────────────────────────────────────

/// The first time in the body of an entry of the index.
pub open spec fn cue_time_at(src: spec_fn(int, int) -> Fetched, pos: int, end: int) -> Outcome<
    Option<nat>,
>
    decreases to_go(pos, end),
{
    if pos >= end {
        Outcome::Value(None)
    } else {
        match header_at(src, pos, 0) {
            Outcome::Value((kind, size, body)) => if kind == ID_CUE_TIME {
                match uint_at(src, body, size) {
                    Outcome::Value(n) => Outcome::Value(Some(n)),
                    Outcome::Fault(m) => Outcome::Fault(m),
                    Outcome::Missing(at) => Outcome::Missing(at),
                }
            } else {
                cue_time_at(src, body + size, end)
            },
            Outcome::Fault(m) => Outcome::Fault(m),
            Outcome::Missing(at) => Outcome::Missing(at),
        }
    }
}

/// The times of the entries of the index, in ticks, behind those in `found`.
pub open spec fn cues_at(
    src: spec_fn(int, int) -> Fetched,
    pos: int,
    end: int,
    found: Seq<u64>,
) -> Outcome<Seq<u64>>
    decreases to_go(pos, end),
{
    if pos >= end {
        Outcome::Value(found)
    } else {
        match header_at(src, pos, 0) {
            Outcome::Value((kind, size, body)) => if kind == ID_CUE_POINT {
                match cue_time_at(src, body, body + size) {
                    Outcome::Value(Some(t)) => cues_at(
                        src,
                        body + size,
                        end,
                        found.push(t as u64),
                    ),
                    Outcome::Value(None) => cues_at(src, body + size, end, found),
                    Outcome::Fault(m) => Outcome::Fault(m),
                    Outcome::Missing(at) => Outcome::Missing(at),
                }
            } else {
                cues_at(src, body + size, end, found)
            },
            Outcome::Fault(m) => Outcome::Fault(m),
            Outcome::Missing(at) => Outcome::Missing(at),
        }
    }
}

// ── The segment ──────────────────────────────────────────────────────────────

/// What a look through the children of the segment finds.
pub enum Scan {
    /// The index itself, in ticks, and the length of a tick.
    Index(Seq<u64>, nat),
    /// Where the index and the general information are said to be, and the length of a tick.
    Positions { cues: Option<int>, info: Option<int>, scale: nat },
}

/// What the children of the segment say, from `pos` up to `limit`. A child whose header
/// cannot be read, or whose size is unknown, ends the look.
pub open spec fn scan_at(
    src: spec_fn(int, int) -> Fetched,
    start: int,
    pos: int,
    limit: int,
    info: Option<int>,
    scale: nat,
) -> Outcome<Scan>
    decreases to_go(pos, limit),
{
    let nothing = Scan::Positions { cues: None, info, scale };
    if pos >= limit {
        Outcome::Value(nothing)
    } else {
        match id_at(src, pos) {
            Outcome::Value((kind, behind)) => match size_at(src, behind) {
                Outcome::Value((Some(size), body)) => if kind == ID_SEEKHEAD {
                    match entries_at(src, body, body + size, Seq::empty()) {
                        Outcome::Value(entries) => {
                            let cues = position_of(entries, ID_CUES, start, None);
                            let info = position_of(entries, ID_INFO, start, info);
                            if cues is Some {
                                Outcome::Value(Scan::Positions { cues, info, scale })
                            } else {
                                scan_at(src, start, body + size, limit, info, scale)
                            }
                        },
                        Outcome::Fault(m) => Outcome::Fault(m),
                        Outcome::Missing(at) => Outcome::Missing(at),
                    }
                } else if kind == ID_INFO {
                    match scale_at(src, body, body + size) {
                        Outcome::Value(n) => scan_at(src, start, body + size, limit, info, n),
                        Outcome::Fault(m) => Outcome::Fault(m),
                        Outcome::Missing(at) => Outcome::Missing(at),
                    }
                } else if kind == ID_CUES {
                    match cues_at(src, body, body + size, Seq::empty()) {
                        Outcome::Value(ticks) => Outcome::Value(Scan::Index(ticks, scale)),
                        Outcome::Fault(m) => Outcome::Fault(m),
                        Outcome::Missing(at) => Outcome::Missing(at),
                    }
                } else {
                    scan_at(src, start, body + size, limit, info, scale)
                },
                Outcome::Value((None, _)) => Outcome::Value(nothing),
                Outcome::Fault(_) => Outcome::Value(nothing),
                Outcome::Missing(at) => Outcome::Missing(at),
            },
            Outcome::Fault(_) => Outcome::Value(nothing),
            Outcome::Missing(at) => Outcome::Missing(at),
        }
    }
}

/// The order of times.
pub open spec fn ascending() -> spec_fn(u128, u128) -> bool {
    |a: u128, b: u128| a <= b
}

/// The ticks in nanoseconds, in order of time.
pub open spec fn times_of(ticks: Seq<u64>, scale: nat) -> Seq<u128> {
    ticks.map_values(|t: u64| (t * scale) as u128).sort_by(ascending())
}

/// The keyframes that the index lists, in nanoseconds and in order of time.
pub open spec fn keyframes_of(ticks: Seq<u64>, scale: nat) -> Outcome<Seq<u128>> {
    if ticks.len() == 0 {
        Outcome::Fault("Cues element contains no CuePoint entries"@)
    } else {
        Outcome::Value(times_of(ticks, scale))
    }
}

/// The keyframes that the index at `pos` lists.
pub open spec fn indexed_at(src: spec_fn(int, int) -> Fetched, pos: int, scale: nat) -> Outcome<
    Seq<u128>,
> {
    match id_at(src, pos) {
        Outcome::Value((kind, behind)) => if kind != ID_CUES {
            Outcome::Fault(
                "expected Cues element at offset "@ + number::decimal(pos as nat)
                    + ", got id=0x"@ + number::hexadecimal(kind),
            )
        } else {
            match size_at(src, behind) {
                Outcome::Value((size, body)) => {
                    let length = match size {
                        Some(n) => n,
                        None => ENDLESS as nat,
                    };
                    match cues_at(src, body, body + length, Seq::empty()) {
                        Outcome::Value(ticks) => keyframes_of(ticks, scale),
                        Outcome::Fault(m) => Outcome::Fault(m),
                        Outcome::Missing(at) => Outcome::Missing(at),
                    }
                },
                Outcome::Fault(m) => Outcome::Fault(m),
                Outcome::Missing(at) => Outcome::Missing(at),
            }
        },
        Outcome::Fault(m) => Outcome::Fault(m),
        Outcome::Missing(at) => Outcome::Missing(at),
    }
}

/// The length of a tick that the general information at `pos` states.
pub open spec fn scale_from(src: spec_fn(int, int) -> Fetched, pos: int) -> Outcome<nat> {
    match header_at(src, pos, 0) {
        Outcome::Value((_, size, body)) => scale_at(src, body, body + size),
        Outcome::Fault(m) => Outcome::Fault(m),
        Outcome::Missing(at) => Outcome::Missing(at),
    }
}

/// The keyframes of the segment whose children begin at `start`.
pub open spec fn segment_keyframes(src: spec_fn(int, int) -> Fetched, start: int) -> Outcome<
    Seq<u128>,
> {
    match scan_at(
        src,
        start,
        start,
        start + SCAN_LENGTH,
        None,
        DEFAULT_TIMESTAMP_SCALE_NS as nat,
    ) {
        Outcome::Value(Scan::Index(ticks, scale)) => keyframes_of(ticks, scale),
        Outcome::Value(Scan::Positions { cues, info, scale }) => {
            let stated = match info {
                Some(at) => scale_from(src, at),
                None => Outcome::Value(scale),
            };
            match stated {
                Outcome::Value(scale) => match cues {
                    Some(at) => indexed_at(src, at, scale),
                    None => Outcome::Fault("no Cues element found in SeekHead"@),
                },
                Outcome::Fault(m) => Outcome::Fault(m),
                Outcome::Missing(at) => Outcome::Missing(at),
            }
        },
        Outcome::Fault(m) => Outcome::Fault(m),
        Outcome::Missing(at) => Outcome::Missing(at),
    }
}

/// The keyframes of the file: an EBML header, then a segment.
pub open spec fn keyframes(src: spec_fn(int, int) -> Fetched) -> Outcome<Seq<u128>> {
    match id_at(src, 0) {
        Outcome::Value((kind, behind)) => if kind != ID_EBML {
            Outcome::Fault("not a Matroska file (missing EBML header)"@)
        } else {
            match size_at(src, behind) {
                Outcome::Value((size, body)) => {
                    let segment = body + match size {
                        Some(n) => n,
                        None => 0,
                    };
                    match id_at(src, segment) {
                        Outcome::Value((kind, behind)) => if kind != ID_SEGMENT {
                            Outcome::Fault("expected Segment element"@)
                        } else {
                            match size_at(src, behind) {
                                Outcome::Value((_, start)) => segment_keyframes(src, start),
                                Outcome::Fault(m) => Outcome::Fault(m),
                                Outcome::Missing(at) => Outcome::Missing(at),
                            }
                        },
                        Outcome::Fault(m) => Outcome::Fault(m),
                        Outcome::Missing(at) => Outcome::Missing(at),
                    }
                },
                Outcome::Fault(m) => Outcome::Fault(m),
                Outcome::Missing(at) => Outcome::Missing(at),
            }
        },
        Outcome::Fault(m) => Outcome::Fault(m),
        Outcome::Missing(at) => Outcome::Missing(at),
    }
}

}
