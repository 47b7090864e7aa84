//! Reads the keyframes of a Matroska file off its index.
//!
//! Only the head of the file and the index, which mostly stands near the end, are looked at:
//! a few hundred kilobytes, however long the file is. The file is read outside. The caller
//! collects the windows that were read; as long as they do not suffice, the answer is the
//! position that has to be read next.
pub mod grammar;
pub mod laws;
pub mod written;

use crate::number;
use crate::text;
use grammar::{DEFAULT_TIMESTAMP_SCALE_NS, ENDLESS, ID_CUES, ID_CUE_POINT, ID_CUE_TIME, ID_EBML};
use grammar::{ID_INFO, ID_SEEK, ID_SEEKHEAD, ID_SEEK_ID, ID_SEEK_POSITION, ID_SEGMENT};
use grammar::{ID_TIMESTAMP_SCALE, SCAN_LENGTH};
use vstd::prelude::*;
use vstd::string::*;

verus! {

broadcast use vstd::string::group_string_axioms;

/// How many bytes are read at once.
pub const READAHEAD: usize = 65_536;

/// What came back when the file was read at `offset`: bytes, none at the end of the file, or
/// the text of an error.
#[derive(Debug)]
pub struct Window {
    pub offset: u64,
    pub result: Result<Vec<u8>, String>,
}

/// What is known of the keyframes.
#[derive(Debug)]
pub enum Extraction {
    /// The keyframes in nanoseconds and in order of time, or why there are none.
    Done(Result<Vec<u128>, String>),
    /// So many bytes have to be read at this position first.
    Need { offset: u64, size: usize },
}

// ── What the windows show ────────────────────────────────────────────────────

/// What one window shows of `n` bytes from `pos` on: the bytes where it holds them all; where
/// it was read at `pos` and does not, that they cannot be read.
pub open spec fn shown_by(w: Window, pos: int, n: int) -> grammar::Fetched {
    match w.result {
        Ok(data) => if w.offset <= pos && pos + n <= w.offset + data@.len() {
            grammar::Fetched::Bytes(data@.subrange(pos - w.offset, pos - w.offset + n))
        } else if w.offset == pos {
            grammar::Fetched::Fault(
                if data@.len() == 0 {
                    "EOF"@
                } else {
                    "EOF in read_exact_buf"@
                },
            )
        } else {
            grammar::Fetched::Missing
        },
        Err(m) => if w.offset == pos {
            grammar::Fetched::Fault(m@)
        } else {
            grammar::Fetched::Missing
        },
    }
}

/// What the windows show of `n` bytes from `pos` on: what the first shows that shows
/// anything of them.
pub open spec fn shown(windows: Seq<Window>, pos: int, n: int) -> grammar::Fetched
    decreases windows.len(),
{
    if windows.len() == 0 {
        grammar::Fetched::Missing
    } else {
        match shown_by(windows[0], pos, n) {
            grammar::Fetched::Missing => shown(windows.drop_first(), pos, n),
            known => known,
        }
    }
}

/// What the windows show, as a source of bytes.
pub open spec fn source(windows: Seq<Window>) -> spec_fn(int, int) -> grammar::Fetched {
    |pos: int, n: int| shown(windows, pos, n)
}

/// Whether the windows lie where a file has bytes.
pub open spec fn placed(windows: Seq<Window>) -> bool {
    forall|i: int|
        0 <= i < windows.len() ==> ((#[trigger] windows[i]).result matches Ok(data)
            ==> windows[i].offset + data@.len() <= i64::MAX)
}

enum Read<T> {
    Value(T),
    Fault(String),
    Missing(u64),
}

proof fn lemma_shown_at(windows: Seq<Window>, i: int, pos: int, n: int)
    requires
        0 <= i <= windows.len(),
        forall|k: int|
            0 <= k < i ==> shown_by(#[trigger] windows[k], pos, n) is Missing,
        i < windows.len() ==> !(shown_by(windows[i], pos, n) is Missing),
    ensures
        shown(windows, pos, n) == if i < windows.len() {
            shown_by(windows[i], pos, n)
        } else {
            grammar::Fetched::Missing
        },
    decreases windows.len(),
{
    if windows.len() > 0 && i > 0 {
        let rest = windows.drop_first();
        assert forall|k: int| 0 <= k < i - 1 implies shown_by(
            #[trigger] rest[k],
            pos,
            n,
        ) is Missing by {
            assert(rest[k] == windows[k + 1]);
        }
        lemma_shown_at(rest, i - 1, pos, n);
    }
}

/// Looks `n` bytes from `pos` on up in the windows.
fn look_up(windows: &[Window], pos: u64, n: usize) -> (r: Read<Vec<u8>>)
    requires
        placed(windows@),
        n > 0,
    ensures
        match r {
            Read::Value(bytes) => {
                &&& source(windows@)(pos as int, n as int) == grammar::Fetched::Bytes(bytes@)
                &&& bytes@.len() == n
                &&& pos + n <= i64::MAX
            },
            Read::Fault(m) => source(windows@)(pos as int, n as int) == grammar::Fetched::Fault(m@),
            Read::Missing(at) => at == pos && source(windows@)(pos as int, n as int)
                == grammar::Fetched::Missing,
        },
{
    let count: usize = windows.len();
    let mut i: usize = 0;
    while i < count
        invariant
            count == windows@.len(),
            i <= count,
            n > 0,
            placed(windows@),
            forall|k: int|
                0 <= k < i ==> shown_by(#[trigger] windows@[k], pos as int, n as int) is Missing,
        decreases count - i,
    {
        let w = &windows[i];
        match &w.result {
            Ok(data) => {
                let len: usize = data.len();
                if w.offset <= pos && n <= len && pos - w.offset <= (len - n) as u64 {
                    let from: usize = (pos - w.offset) as usize;
                    let mut bytes: Vec<u8> = Vec::new();
                    let mut k: usize = 0;
                    while k < n
                        invariant
                            k <= n,
                            from + n <= len,
                            len == data@.len(),
                            bytes@ == data@.subrange(from as int, from + k),
                        decreases n - k,
                    {
                        bytes.push(data[from + k]);
                        k += 1;
                        assert(data@.subrange(from as int, from + k) =~= data@.subrange(
                            from as int,
                            from + k - 1,
                        ).push(data@[from + k - 1]));
                    }
                    proof {
                        lemma_shown_at(windows@, i as int, pos as int, n as int);
                    }
                    return Read::Value(bytes);
                }
                if w.offset == pos {
                    proof {
                        lemma_shown_at(windows@, i as int, pos as int, n as int);
                    }
                    if len == 0 {
                        return Read::Fault(text::copy_text("EOF"));
                    }
                    return Read::Fault(text::copy_text("EOF in read_exact_buf"));
                }
            },
            Err(m) => {
                if w.offset == pos {
                    proof {
                        lemma_shown_at(windows@, i as int, pos as int, n as int);
                    }
                    return Read::Fault(text::copy_text(m.as_str()));
                }
            },
        }
        i += 1;
    }
    proof {
        lemma_shown_at(windows@, i as int, pos as int, n as int);
    }
    Read::Missing(pos)
}

// ── Elements ─────────────────────────────────────────────────────────────────

fn read_u8(windows: &[Window], pos: u64) -> (r: Read<u8>)
    requires
        placed(windows@),
    ensures
        match r {
            Read::Value(b) => pos < i64::MAX && grammar::byte_at(source(windows@), pos as int)
                == grammar::Outcome::Value(b),
            Read::Fault(m) => grammar::byte_at(source(windows@), pos as int)
                == grammar::Outcome::<u8>::Fault(m@),
            Read::Missing(at) => grammar::byte_at(source(windows@), pos as int)
                == grammar::Outcome::<u8>::Missing(at as int),
        },
{
    match look_up(windows, pos, 1) {
        Read::Value(bytes) => Read::Value(bytes[0]),
        Read::Fault(m) => Read::Fault(m),
        Read::Missing(at) => Read::Missing(at),
    }
}

/// Reads `k` bytes from `pos` on, one by one.
fn read_run(windows: &[Window], pos: u64, k: u64) -> (r: Read<Vec<u8>>)
    requires
        placed(windows@),
        k <= 8,
    ensures
        match r {
            Read::Value(bytes) => {
                &&& grammar::run_at(source(windows@), pos as int, k as nat)
                    == grammar::Outcome::Value(bytes@)
                &&& bytes@.len() == k
                &&& k > 0 ==> pos + k <= i64::MAX
            },
            Read::Fault(m) => grammar::run_at(source(windows@), pos as int, k as nat)
                == grammar::Outcome::<Seq<u8>>::Fault(m@),
            Read::Missing(at) => grammar::run_at(source(windows@), pos as int, k as nat)
                == grammar::Outcome::<Seq<u8>>::Missing(at as int),
        },
    decreases k,
{
    if k == 0 {
        let bytes: Vec<u8> = Vec::new();
        assert(bytes@ =~= Seq::empty());
        return Read::Value(bytes);
    }
    match read_run(windows, pos, k - 1) {
        Read::Value(front) => {
            let mut bytes = front;
            match read_u8(windows, pos + (k - 1)) {
                Read::Value(b) => {
                    bytes.push(b);
                    Read::Value(bytes)
                },
                Read::Fault(m) => Read::Fault(m),
                Read::Missing(at) => Read::Missing(at),
            }
        },
        Read::Fault(m) => Read::Fault(m),
        Read::Missing(at) => Read::Missing(at),
    }
}

/// The number that the bytes write, the highest first, as far as `u64` goes.
fn join_bytes(bytes: &[u8]) -> (r: u64)
    ensures
        r == grammar::big_endian(bytes@) % vstd::arithmetic::power2::pow2(64),
        bytes@.len() <= 8 ==> r == grammar::big_endian(bytes@),
{
    let n: usize = bytes.len();
    let mut value: u64 = 0;
    let mut i: usize = 0;
    proof {
        vstd::arithmetic::power2::lemma2_to64();
    }
    while i < n
        invariant
            n == bytes@.len(),
            i <= n,
            vstd::arithmetic::power2::pow2(64) == 0x1_0000_0000_0000_0000,
            value == grammar::big_endian(bytes@.take(i as int)) % vstd::arithmetic::power2::pow2(64),
        decreases n - i,
    {
        let ghost before = grammar::big_endian(bytes@.take(i as int));
        let ghost old_value = value;
        let low: u64 = value % 0x0100_0000_0000_0000;
        let b: u8 = bytes[i];
        value = low * 256 + b as u64;
        proof {
            assert(bytes@.take(i + 1).drop_last() =~= bytes@.take(i as int));
            assert(bytes@.take(i + 1).last() == b);
            let m: int = 0x1_0000_0000_0000_0000;
            let q1 = before as int / m;
            let q2 = old_value as int / 0x0100_0000_0000_0000;
            vstd::arithmetic::div_mod::lemma_fundamental_div_mod_converse(
                before * 256 + b as int,
                m,
                256 * q1 + q2,
                value as int,
            );
        }
        i += 1;
    }
    proof {
        assert(bytes@.take(n as int) =~= bytes@);
        if n <= 8 {
            lemma_big_endian_bound(bytes@);
            if n < 8 {
                vstd::arithmetic::power2::lemma_pow2_strictly_increases((8 * n) as nat, 64);
            }
            vstd::arithmetic::div_mod::lemma_small_mod(grammar::big_endian(bytes@), vstd::arithmetic::power2::pow2(64));
        }
    }
    value
}

proof fn lemma_big_endian_bound(bytes: Seq<u8>)
    ensures
        grammar::big_endian(bytes) < vstd::arithmetic::power2::pow2(8 * bytes.len()),
    decreases bytes.len(),
{
    vstd::arithmetic::power2::lemma2_to64();
    if bytes.len() > 0 {
        lemma_big_endian_bound(bytes.drop_last());
        vstd::arithmetic::power2::lemma_pow2_adds(8, (8 * (bytes.len() - 1)) as nat);
    }
}

/// Reads the ID at `pos`.
fn read_id(windows: &[Window], pos: u64) -> (r: Read<(u64, u64)>)
    requires
        placed(windows@),
    ensures
        match r {
            Read::Value((id, behind)) => behind <= i64::MAX && grammar::id_at(
                source(windows@),
                pos as int,
            ) == grammar::Outcome::Value((id as nat, behind as int)),
            Read::Fault(m) => grammar::id_at(source(windows@), pos as int)
                == grammar::Outcome::<(nat, int)>::Fault(m@),
            Read::Missing(at) => grammar::id_at(source(windows@), pos as int)
                == grammar::Outcome::<(nat, int)>::Missing(at as int),
        },
{
    let first: u8 = match read_u8(windows, pos) {
        Read::Value(b) => b,
        Read::Fault(m) => {
            return Read::Fault(m);
        },
        Read::Missing(at) => {
            return Read::Missing(at);
        },
    };
    let width: u64 = if first >= 0x80 {
        1
    } else if first >= 0x40 {
        2
    } else if first >= 0x20 {
        3
    } else if first >= 0x10 {
        4
    } else {
        return Read::Fault(text::copy_text("invalid EBML ID first byte"));
    };
    match read_run(windows, pos, width) {
        Read::Value(bytes) => {
            let id: u64 = join_bytes(&bytes);
            Read::Value((id, pos + width))
        },
        Read::Fault(m) => Read::Fault(m),
        Read::Missing(at) => Read::Missing(at),
    }
}

/// The width and the marker of a size that begins with `first`.
fn size_shape(first: u8) -> (r: Option<(u64, u8)>)
    ensures
        match r {
            Some((width, marker)) => {
                &&& width == grammar::size_width(first)
                &&& 1 <= width <= 8
                &&& marker == grammar::size_marker(first)
            },
            None => grammar::size_width(first) == 0,
        },
{
    if first >= 0x80 {
        Some((1, 0x80))
    } else if first >= 0x40 {
        Some((2, 0x40))
    } else if first >= 0x20 {
        Some((3, 0x20))
    } else if first >= 0x10 {
        Some((4, 0x10))
    } else if first >= 0x08 {
        Some((5, 0x08))
    } else if first >= 0x04 {
        Some((6, 0x04))
    } else if first >= 0x02 {
        Some((7, 0x02))
    } else if first >= 0x01 {
        Some((8, 0x01))
    } else {
        None
    }
}

/// The number whose bits are all set, in a size of the given width.
fn all_ones(width: u64) -> (r: u64)
    requires
        1 <= width <= 8,
    ensures
        r == vstd::arithmetic::power2::pow2((7 * width) as nat) - 1,
{
    proof {
        vstd::arithmetic::power2::lemma2_to64();
        vstd::arithmetic::power2::lemma2_to64_rest();
    }
    if width == 1 {
        0x7F
    } else if width == 2 {
        0x3FFF
    } else if width == 3 {
        0x1F_FFFF
    } else if width == 4 {
        0xFFF_FFFF
    } else if width == 5 {
        0x7_FFFF_FFFF
    } else if width == 6 {
        0x3FF_FFFF_FFFF
    } else if width == 7 {
        0x1_FFFF_FFFF_FFFF
    } else {
        0xFF_FFFF_FFFF_FFFF
    }
}

/// Without its marker, a size stays below the number of its bits.
proof fn lemma_size_bound(bytes: Seq<u8>)
    requires
        bytes.len() > 0,
        bytes.len() == grammar::size_width(bytes[0]),
    ensures
        grammar::big_endian(
            bytes.update(0, (bytes[0] as nat % grammar::size_marker(bytes[0])) as u8),
        ) < 0x0100_0000_0000_0000,
{
    let low = (bytes[0] as nat % grammar::size_marker(bytes[0])) as u8;
    let all = bytes.update(0, low);
    vstd::arithmetic::power2::lemma2_to64();
    vstd::arithmetic::power2::lemma2_to64_rest();
    if bytes.len() < 8 {
        lemma_big_endian_bound(all);
        if bytes.len() < 7 {
            vstd::arithmetic::power2::lemma_pow2_strictly_increases((8 * bytes.len()) as nat, 56);
        }
    } else {
        assert(low == 0);
        lemma_leading_zero(all);
        lemma_big_endian_bound(all.drop_first());
    }
}

proof fn lemma_leading_zero(bytes: Seq<u8>)
    requires
        bytes.len() > 0,
        bytes[0] == 0,
    ensures
        grammar::big_endian(bytes) == grammar::big_endian(bytes.drop_first()),
    decreases bytes.len(),
{
    if bytes.len() > 1 {
        lemma_leading_zero(bytes.drop_last());
        assert(bytes.drop_first().drop_last() =~= bytes.drop_last().drop_first());
    } else {
        assert(bytes.drop_last() =~= Seq::empty());
        assert(grammar::big_endian(bytes.drop_last()) == 0);
        assert(bytes.drop_first() =~= Seq::empty());
    }
}

/// Reads the size at `pos`.
fn read_size(windows: &[Window], pos: u64) -> (r: Read<(Option<u64>, u64)>)
    requires
        placed(windows@),
    ensures
        match r {
            Read::Value((size, body)) => {
                &&& body <= i64::MAX
                &&& match size {
                    Some(n) => n < 0x0100_0000_0000_0000 && grammar::size_at(
                        source(windows@),
                        pos as int,
                    ) == grammar::Outcome::Value((Some(n as nat), body as int)),
                    None => grammar::size_at(source(windows@), pos as int)
                        == grammar::Outcome::Value((None::<nat>, body as int)),
                }
            },
            Read::Fault(m) => grammar::size_at(source(windows@), pos as int)
                == grammar::Outcome::<(Option<nat>, int)>::Fault(m@),
            Read::Missing(at) => grammar::size_at(source(windows@), pos as int)
                == grammar::Outcome::<(Option<nat>, int)>::Missing(at as int),
        },
{
    let first: u8 = match read_u8(windows, pos) {
        Read::Value(b) => b,
        Read::Fault(m) => {
            return Read::Fault(m);
        },
        Read::Missing(at) => {
            return Read::Missing(at);
        },
    };
    match size_shape(first) {
        None => Read::Fault(text::copy_text("invalid EBML size byte")),
        Some((width, marker)) => match read_run(windows, pos, width) {
            Read::Value(run) => {
                proof {
                    lemma_run_begins(source(windows@), pos as int, width as nat);
                }
                let mut bytes = run;
                let ghost whole = bytes@;
                let low: u8 = first % marker;
                bytes.set(0, low);
                let size: u64 = join_bytes(&bytes);
                proof {
                    assert(bytes@ == whole.update(0, low));
                    lemma_size_bound(whole);
                }
                let unknown: u64 = all_ones(width);
                if size == unknown {
                    Read::Value((None, pos + width))
                } else {
                    Read::Value((Some(size), pos + width))
                }
            },
            Read::Fault(m) => Read::Fault(m),
            Read::Missing(at) => Read::Missing(at),
        },
    }
}

/// A run of bytes begins with the byte at its position and has the length that was asked for.
proof fn lemma_run_begins(src: spec_fn(int, int) -> grammar::Fetched, pos: int, k: nat)
    requires
        k > 0,
    ensures
        grammar::run_at(src, pos, k) matches grammar::Outcome::Value(bytes) ==> bytes.len() == k
            && grammar::byte_at(src, pos) == grammar::Outcome::Value(bytes[0]),
    decreases k,
{
    if k > 1 {
        lemma_run_begins(src, pos, (k - 1) as nat);
    } else {
        assert(grammar::run_at(src, pos, 0) == grammar::Outcome::Value(Seq::<u8>::empty()));
    }
}

/// Reads the ID and the size of the element at `pos`. A size that is unknown counts as 0.
fn read_header(windows: &[Window], pos: u64) -> (r: Read<(u64, u64, u64)>)
    requires
        placed(windows@),
    ensures
        match r {
            Read::Value((id, size, body)) => {
                &&& body <= i64::MAX
                &&& size < 0x0100_0000_0000_0000
                &&& pos < body
                &&& grammar::header_at(source(windows@), pos as int, 0) == grammar::Outcome::Value(
                    (id as nat, size as nat, body as int),
                )
            },
            Read::Fault(m) => grammar::header_at(source(windows@), pos as int, 0)
                == grammar::Outcome::<(nat, nat, int)>::Fault(m@),
            Read::Missing(at) => grammar::header_at(source(windows@), pos as int, 0)
                == grammar::Outcome::<(nat, nat, int)>::Missing(at as int),
        },
{
    match read_id(windows, pos) {
        Read::Value((id, behind)) => match read_size(windows, behind) {
            Read::Value((size, body)) => {
                let n: u64 = match size {
                    Some(n) => n,
                    None => 0,
                };
                Read::Value((id, n, body))
            },
            Read::Fault(m) => Read::Fault(m),
            Read::Missing(at) => Read::Missing(at),
        },
        Read::Fault(m) => Read::Fault(m),
        Read::Missing(at) => Read::Missing(at),
    }
}

/// Reads the number that `n` bytes from `pos` on write.
fn read_uint(windows: &[Window], pos: u64, n: u64) -> (r: Read<u64>)
    requires
        placed(windows@),
    ensures
        match r {
            Read::Value(v) => grammar::uint_at(source(windows@), pos as int, n as nat)
                == grammar::Outcome::Value(v as nat),
            Read::Fault(m) => grammar::uint_at(source(windows@), pos as int, n as nat)
                == grammar::Outcome::<nat>::Fault(m@),
            Read::Missing(at) => grammar::uint_at(source(windows@), pos as int, n as nat)
                == grammar::Outcome::<nat>::Missing(at as int),
        },
{
    if n > 8 {
        return Read::Fault(text::copy_text("uint element too wide"));
    }
    match read_run(windows, pos, n) {
        Read::Value(bytes) => Read::Value(join_bytes(&bytes)),
        Read::Fault(m) => Read::Fault(m),
        Read::Missing(at) => Read::Missing(at),
    }
}

/// Reads `n` bytes from `pos` on at once.
fn read_binary(windows: &[Window], pos: u64, n: u64) -> (r: Read<Vec<u8>>)
    requires
        placed(windows@),
    ensures
        match r {
            Read::Value(b) => grammar::binary_at(source(windows@), pos as int, n as nat)
                == grammar::Outcome::Value(b@),
            Read::Fault(m) => grammar::binary_at(source(windows@), pos as int, n as nat)
                == grammar::Outcome::<Seq<u8>>::Fault(m@),
            Read::Missing(at) => grammar::binary_at(source(windows@), pos as int, n as nat)
                == grammar::Outcome::<Seq<u8>>::Missing(at as int),
        },
{
    if n > 64 {
        return Read::Fault(text::copy_text("binary element too large"));
    }
    if n == 0 {
        let none: Vec<u8> = Vec::new();
        assert(none@ =~= Seq::empty());
        return Read::Value(none);
    }
    look_up(windows, pos, n as usize)
}

// ── The list of positions ────────────────────────────────────────────────────

/// Reads the body of an entry of the list.
fn parse_seek_entry(windows: &[Window], start: u64, end: u64) -> (r: Read<
    (Option<Vec<u8>>, Option<u64>),
>)
    requires
        placed(windows@),
    ensures
        match r {
            Read::Value((id, position)) => grammar::entry_at(
                source(windows@),
                start as int,
                end as int,
                None,
                None,
            ) == grammar::Outcome::Value((opt_bytes(id), opt_nat(position))),
            Read::Fault(m) => grammar::entry_at(
                source(windows@),
                start as int,
                end as int,
                None,
                None,
            ) == grammar::Outcome::<(Option<Seq<u8>>, Option<nat>)>::Fault(m@),
            Read::Missing(at) => grammar::entry_at(
                source(windows@),
                start as int,
                end as int,
                None,
                None,
            ) == grammar::Outcome::<(Option<Seq<u8>>, Option<nat>)>::Missing(at as int),
        },
{
    let mut id: Option<Vec<u8>> = None;
    let mut position: Option<u64> = None;
    let mut pos: u64 = start;
    while pos < end
        invariant
            placed(windows@),
            grammar::entry_at(source(windows@), start as int, end as int, None, None)
                == grammar::entry_at(
                source(windows@),
                pos as int,
                end as int,
                opt_bytes(id),
                opt_nat(position),
            ),
        decreases grammar::to_go(pos as int, end as int),
    {
        match read_header(windows, pos) {
            Read::Value((kind, size, body)) => {
                if kind == ID_SEEK_ID {
                    match read_binary(windows, body, size) {
                        Read::Value(b) => {
                            id = Some(b);
                        },
                        Read::Fault(m) => {
                            return Read::Fault(m);
                        },
                        Read::Missing(at) => {
                            return Read::Missing(at);
                        },
                    }
                } else if kind == ID_SEEK_POSITION {
                    match read_uint(windows, body, size) {
                        Read::Value(n) => {
                            position = Some(n);
                        },
                        Read::Fault(m) => {
                            return Read::Fault(m);
                        },
                        Read::Missing(at) => {
                            return Read::Missing(at);
                        },
                    }
                }
                pos = body + size;
            },
            Read::Fault(m) => {
                return Read::Fault(m);
            },
            Read::Missing(at) => {
                return Read::Missing(at);
            },
        }
    }
    Read::Value((id, position))
}

/// What an optional run of bytes says.
pub open spec fn opt_bytes(b: Option<Vec<u8>>) -> Option<Seq<u8>> {
    match b {
        Some(b) => Some(b@),
        None => None,
    }
}

/// An optional number, as a natural one.
pub open spec fn opt_nat(n: Option<u64>) -> Option<nat> {
    match n {
        Some(n) => Some(n as nat),
        None => None,
    }
}

/// An optional position, as a number.
pub open spec fn opt_pos(n: Option<u64>) -> Option<int> {
    match n {
        Some(n) => Some(n as int),
        None => None,
    }
}

struct SeekEntry {
    id: u64,
    position: u64,
}

spec fn entry_list(list: Seq<SeekEntry>) -> Seq<(nat, nat)> {
    list.map_values(|e: SeekEntry| (e.id as nat, e.position as nat))
}

/// Reads the list of positions.
fn parse_seekhead(windows: &[Window], start: u64, end: u64) -> (r: Read<Vec<SeekEntry>>)
    requires
        placed(windows@),
    ensures
        match r {
            Read::Value(list) => grammar::entries_at(
                source(windows@),
                start as int,
                end as int,
                Seq::empty(),
            ) == grammar::Outcome::Value(entry_list(list@)),
            Read::Fault(m) => grammar::entries_at(
                source(windows@),
                start as int,
                end as int,
                Seq::empty(),
            ) == grammar::Outcome::<Seq<(nat, nat)>>::Fault(m@),
            Read::Missing(at) => grammar::entries_at(
                source(windows@),
                start as int,
                end as int,
                Seq::empty(),
            ) == grammar::Outcome::<Seq<(nat, nat)>>::Missing(at as int),
        },
{
    let mut list: Vec<SeekEntry> = Vec::new();
    let mut pos: u64 = start;
    assert(entry_list(list@) =~= Seq::empty());
    while pos < end
        invariant
            placed(windows@),
            grammar::entries_at(source(windows@), start as int, end as int, Seq::empty())
                == grammar::entries_at(
                source(windows@),
                pos as int,
                end as int,
                entry_list(list@),
            ),
        decreases grammar::to_go(pos as int, end as int),
    {
        match read_header(windows, pos) {
            Read::Value((kind, size, body)) => {
                if kind == ID_SEEK {
                    match parse_seek_entry(windows, body, body + size) {
                        Read::Value((Some(id), Some(position))) => {
                            let id: u64 = join_bytes(&id);
                            let ghost before = list@;
                            list.push(SeekEntry { id, position });
                            assert(entry_list(list@) =~= entry_list(before).push(
                                (id as nat, position as nat),
                            ));
                        },
                        Read::Value(_) => {},
                        Read::Fault(m) => {
                            return Read::Fault(m);
                        },
                        Read::Missing(at) => {
                            return Read::Missing(at);
                        },
                    }
                }
                pos = body + size;
            },
            Read::Fault(m) => {
                return Read::Fault(m);
            },
            Read::Missing(at) => {
                return Read::Missing(at);
            },
        }
    }
    Read::Value(list)
}

/// The position in the file that the last entry for `id` gives.
fn find_entry(list: &[SeekEntry], id: u64, start: u64, known: Option<u64>) -> (r: Option<u64>)
    ensures
        opt_pos(r) == grammar::position_of(entry_list(list@), id, start as int, opt_pos(known)),
{
    let n: usize = list.len();
    let mut r: Option<u64> = known;
    let mut i: usize = 0;
    proof {
        vstd::arithmetic::power2::lemma2_to64();
        assert(entry_list(list@).take(0) =~= Seq::empty());
    }
    while i < n
        invariant
            n == list@.len(),
            i <= n,
            vstd::arithmetic::power2::pow2(64) == 0x1_0000_0000_0000_0000,
            opt_pos(r) == grammar::position_of(
                entry_list(list@).take(i as int),
                id,
                start as int,
                opt_pos(known),
            ),
        decreases n - i,
    {
        proof {
            assert(entry_list(list@).take(i + 1).drop_last() =~= entry_list(list@).take(i as int));
            assert(entry_list(list@).take(i + 1).last() == entry_list(list@)[i as int]);
        }
        if list[i].id == id {
            let position: u64 = list[i].position;
            let room: u64 = u64::MAX - start;
            let at: u64 = if position <= room {
                start + position
            } else {
                position - room - 1
            };
            r = Some(at);
        }
        i += 1;
    }
    assert(entry_list(list@).take(n as int) =~= entry_list(list@));
    r
}

// ── The length of a tick ─────────────────────────────────────────────────────

/// Reads the length of a tick off the general information.
fn parse_info_timestamp_scale(windows: &[Window], start: u64, end: u64) -> (r: Read<u64>)
    requires
        placed(windows@),
    ensures
        match r {
            Read::Value(v) => grammar::scale_at(source(windows@), start as int, end as int)
                == grammar::Outcome::Value(v as nat),
            Read::Fault(m) => grammar::scale_at(source(windows@), start as int, end as int)
                == grammar::Outcome::<nat>::Fault(m@),
            Read::Missing(at) => grammar::scale_at(source(windows@), start as int, end as int)
                == grammar::Outcome::<nat>::Missing(at as int),
        },
{
    let mut pos: u64 = start;
    while pos < end
        invariant
            placed(windows@),
            grammar::scale_at(source(windows@), start as int, end as int) == grammar::scale_at(
                source(windows@),
                pos as int,
                end as int,
            ),
        decreases grammar::to_go(pos as int, end as int),
    {
        match read_header(windows, pos) {
            Read::Value((kind, size, body)) => {
                if kind == ID_TIMESTAMP_SCALE {
                    return read_uint(windows, body, size);
                }
                pos = body + size;
            },
            Read::Fault(m) => {
                return Read::Fault(m);
            },
            Read::Missing(at) => {
                return Read::Missing(at);
            },
        }
    }
    Read::Value(DEFAULT_TIMESTAMP_SCALE_NS)
}

// ── The index ────────────────────────────────────────────────────────────────

/// Reads the time of an entry of the index.
fn parse_cue_time(windows: &[Window], start: u64, end: u64) -> (r: Read<Option<u64>>)
    requires
        placed(windows@),
    ensures
        match r {
            Read::Value(t) => grammar::cue_time_at(source(windows@), start as int, end as int)
                == grammar::Outcome::Value(opt_nat(t)),
            Read::Fault(m) => grammar::cue_time_at(source(windows@), start as int, end as int)
                == grammar::Outcome::<Option<nat>>::Fault(m@),
            Read::Missing(at) => grammar::cue_time_at(source(windows@), start as int, end as int)
                == grammar::Outcome::<Option<nat>>::Missing(at as int),
        },
{
    let mut pos: u64 = start;
    while pos < end
        invariant
            placed(windows@),
            grammar::cue_time_at(source(windows@), start as int, end as int)
                == grammar::cue_time_at(source(windows@), pos as int, end as int),
        decreases grammar::to_go(pos as int, end as int),
    {
        match read_header(windows, pos) {
            Read::Value((kind, size, body)) => {
                if kind == ID_CUE_TIME {
                    match read_uint(windows, body, size) {
                        Read::Value(n) => {
                            return Read::Value(Some(n));
                        },
                        Read::Fault(m) => {
                            return Read::Fault(m);
                        },
                        Read::Missing(at) => {
                            return Read::Missing(at);
                        },
                    }
                }
                pos = body + size;
            },
            Read::Fault(m) => {
                return Read::Fault(m);
            },
            Read::Missing(at) => {
                return Read::Missing(at);
            },
        }
    }
    Read::Value(None)
}

/// Reads the times of the entries of the index, in ticks.
fn parse_cues(windows: &[Window], start: u64, end: u64) -> (r: Read<Vec<u64>>)
    requires
        placed(windows@),
    ensures
        match r {
            Read::Value(ticks) => grammar::cues_at(
                source(windows@),
                start as int,
                end as int,
                Seq::empty(),
            ) == grammar::Outcome::Value(ticks@),
            Read::Fault(m) => grammar::cues_at(
                source(windows@),
                start as int,
                end as int,
                Seq::empty(),
            ) == grammar::Outcome::<Seq<u64>>::Fault(m@),
            Read::Missing(at) => grammar::cues_at(
                source(windows@),
                start as int,
                end as int,
                Seq::empty(),
            ) == grammar::Outcome::<Seq<u64>>::Missing(at as int),
        },
{
    let mut ticks: Vec<u64> = Vec::new();
    let mut pos: u64 = start;
    assert(ticks@ =~= Seq::empty());
    while pos < end
        invariant
            placed(windows@),
            grammar::cues_at(source(windows@), start as int, end as int, Seq::empty())
                == grammar::cues_at(source(windows@), pos as int, end as int, ticks@),
        decreases grammar::to_go(pos as int, end as int),
    {
        match read_header(windows, pos) {
            Read::Value((kind, size, body)) => {
                if kind == ID_CUE_POINT {
                    match parse_cue_time(windows, body, body + size) {
                        Read::Value(Some(t)) => {
                            ticks.push(t);
                        },
                        Read::Value(None) => {},
                        Read::Fault(m) => {
                            return Read::Fault(m);
                        },
                        Read::Missing(at) => {
                            return Read::Missing(at);
                        },
                    }
                }
                pos = body + size;
            },
            Read::Fault(m) => {
                return Read::Fault(m);
            },
            Read::Missing(at) => {
                return Read::Missing(at);
            },
        }
    }
    Read::Value(ticks)
}

/// Puts the times in order.
fn sort_times(times: Vec<u128>) -> (r: Vec<u128>)
    ensures
        r@ == times@.sort_by(grammar::ascending()),
{
    let n: usize = times.len();
    let mut r: Vec<u128> = Vec::new();
    let mut i: usize = 0;
    proof {
        assert(r@.to_multiset() =~= times@.take(0).to_multiset()) by {
            assert(r@ =~= times@.take(0));
        }
    }
    while i < n
        invariant
            n == times@.len(),
            i <= n,
            r@.len() == i,
            r@.to_multiset() == times@.take(i as int).to_multiset(),
            vstd::relations::sorted_by(r@, grammar::ascending()),
        decreases n - i,
    {
        let t: u128 = times[i];
        let mut at: usize = i;
        while at > 0 && r[at - 1] > t
            invariant
                at <= i,
                r@.len() == i,
                forall|k: int| at <= k < i ==> r@[k] > t,
            decreases at,
        {
            at -= 1;
        }
        let ghost before = r@;
        r.insert(at, t);
        proof {
            assert(r@ == before.insert(at as int, t));
            lemma_insert_multiset(before, at as int, t);
            assert(times@.take(i + 1) =~= times@.take(i as int).push(t));
            lemma_push_multiset(times@.take(i as int), t);
            assert forall|a: int, b: int| 0 <= a < b < r@.len() implies #[trigger] (
            grammar::ascending())(r@[a], r@[b]) by {
                let x = if a < at {
                    a
                } else {
                    a - 1
                };
                let y = if b < at {
                    b
                } else {
                    b - 1
                };
                if a != at && b != at {
                    assert((grammar::ascending())(before[x], before[y]));
                } else if a == at {
                    assert(before[y] > t);
                } else if x + 1 < at {
                    assert((grammar::ascending())(before[x], before[at - 1]));
                }
            }
        }
        i += 1;
    }
    proof {
        assert(times@.take(n as int) =~= times@);
        lemma_ascending_is_total();
        times@.lemma_sort_by_ensures(grammar::ascending());
        vstd::seq_lib::lemma_sorted_unique(
            r@,
            times@.sort_by(grammar::ascending()),
            grammar::ascending(),
        );
    }
    r
}

proof fn lemma_ascending_is_total()
    ensures
        vstd::relations::total_ordering(grammar::ascending()),
{
}

proof fn lemma_push_multiset(s: Seq<u128>, t: u128)
    ensures
        s.push(t).to_multiset() == s.to_multiset().insert(t),
{
    broadcast use vstd::seq_lib::group_to_multiset_ensures;

}

proof fn lemma_insert_multiset(s: Seq<u128>, at: int, t: u128)
    requires
        0 <= at <= s.len(),
    ensures
        s.insert(at, t).to_multiset() == s.to_multiset().insert(t),
{
    broadcast use vstd::seq_lib::group_to_multiset_ensures;

}

/// Turns ticks into times.
fn ticks_to_times(ticks: &[u64], scale: u64) -> (r: Result<Vec<u128>, String>)
    ensures
        match r {
            Ok(times) => grammar::keyframes_of(ticks@, scale as nat) == grammar::Outcome::Value(
                times@,
            ),
            Err(m) => grammar::keyframes_of(ticks@, scale as nat) == grammar::Outcome::<
                Seq<u128>,
            >::Fault(m@),
        },
{
    let n: usize = ticks.len();
    if n == 0 {
        return Err(text::copy_text("Cues element contains no CuePoint entries"));
    }
    let ghost times = ticks@.map_values(|t: u64| (t * scale) as u128);
    let mut made: Vec<u128> = Vec::new();
    let mut i: usize = 0;
    while i < n
        invariant
            n == ticks@.len(),
            i <= n,
            times == ticks@.map_values(|t: u64| (t * scale) as u128),
            made@ == times.take(i as int),
        decreases n - i,
    {
        let t: u64 = ticks[i];
        assert(t * scale <= u64::MAX * u64::MAX) by (nonlinear_arith)
            requires
                t <= u64::MAX,
                scale <= u64::MAX,
        ;
        made.push(t as u128 * scale as u128);
        i += 1;
        assert(times.take(i as int) =~= times.take(i - 1).push(times[i - 1]));
    }
    assert(times.take(n as int) =~= times);
    proof {
        assert(ticks@.map_values(|t: u64| (t * scale as nat) as u128) =~= times);
    }
    Ok(sort_times(made))
}

// ── The segment ──────────────────────────────────────────────────────────────

enum Found {
    Index(Vec<u64>, u64),
    Positions { cues: Option<u64>, info: Option<u64>, scale: u64 },
}

spec fn found_view(f: Found) -> grammar::Scan {
    match f {
        Found::Index(ticks, scale) => grammar::Scan::Index(ticks@, scale as nat),
        Found::Positions { cues, info, scale } => grammar::Scan::Positions {
            cues: opt_pos(cues),
            info: opt_pos(info),
            scale: scale as nat,
        },
    }
}

/// Looks through the children of the segment.
fn scan_segment(windows: &[Window], start: u64) -> (r: Read<Found>)
    requires
        placed(windows@),
        start <= i64::MAX,
    ensures
        ({
            let all = grammar::scan_at(
                source(windows@),
                start as int,
                start as int,
                start + SCAN_LENGTH,
                None,
                DEFAULT_TIMESTAMP_SCALE_NS as nat,
            );
            match r {
                Read::Value(f) => all == grammar::Outcome::Value(found_view(f)),
                Read::Fault(m) => all == grammar::Outcome::<grammar::Scan>::Fault(m@),
                Read::Missing(at) => all == grammar::Outcome::<grammar::Scan>::Missing(at as int),
            }
        }),
{
    let limit: u64 = start + SCAN_LENGTH;
    let mut info: Option<u64> = None;
    let mut scale: u64 = DEFAULT_TIMESTAMP_SCALE_NS;
    let mut pos: u64 = start;
    let ghost all = grammar::scan_at(
        source(windows@),
        start as int,
        start as int,
        limit as int,
        None,
        DEFAULT_TIMESTAMP_SCALE_NS as nat,
    );
    while pos < limit
        invariant
            placed(windows@),
            limit == start + SCAN_LENGTH,
            all == grammar::scan_at(
                source(windows@),
                start as int,
                start as int,
                limit as int,
                None,
                DEFAULT_TIMESTAMP_SCALE_NS as nat,
            ),
            all == grammar::scan_at(
                source(windows@),
                start as int,
                pos as int,
                limit as int,
                opt_pos(info),
                scale as nat,
            ),
        decreases grammar::to_go(pos as int, limit as int),
    {
        let (kind, behind) = match read_id(windows, pos) {
            Read::Value(v) => v,
            Read::Fault(_) => {
                return Read::Value(Found::Positions { cues: None, info, scale });
            },
            Read::Missing(at) => {
                return Read::Missing(at);
            },
        };
        let (size, body) = match read_size(windows, behind) {
            Read::Value((Some(size), body)) => (size, body),
            Read::Value((None, _)) => {
                return Read::Value(Found::Positions { cues: None, info, scale });
            },
            Read::Fault(_) => {
                return Read::Value(Found::Positions { cues: None, info, scale });
            },
            Read::Missing(at) => {
                return Read::Missing(at);
            },
        };
        if kind == ID_SEEKHEAD {
            match parse_seekhead(windows, body, body + size) {
                Read::Value(list) => {
                    let cues = find_entry(&list, ID_CUES, start, None);
                    info = find_entry(&list, ID_INFO, start, info);
                    if cues.is_some() {
                        return Read::Value(Found::Positions { cues, info, scale });
                    }
                },
                Read::Fault(m) => {
                    return Read::Fault(m);
                },
                Read::Missing(at) => {
                    return Read::Missing(at);
                },
            }
        } else if kind == ID_INFO {
            match parse_info_timestamp_scale(windows, body, body + size) {
                Read::Value(n) => {
                    scale = n;
                },
                Read::Fault(m) => {
                    return Read::Fault(m);
                },
                Read::Missing(at) => {
                    return Read::Missing(at);
                },
            }
        } else if kind == ID_CUES {
            match parse_cues(windows, body, body + size) {
                Read::Value(ticks) => {
                    return Read::Value(Found::Index(ticks, scale));
                },
                Read::Fault(m) => {
                    return Read::Fault(m);
                },
                Read::Missing(at) => {
                    return Read::Missing(at);
                },
            }
        }
        pos = body + size;
    }
    Read::Value(Found::Positions { cues: None, info, scale })
}

fn done(r: Result<Vec<u128>, String>) -> (e: Extraction)
    ensures
        e == Extraction::Done(r),
{
    Extraction::Done(r)
}

/// What an answer says.
pub open spec fn answer(e: Extraction) -> grammar::Outcome<Seq<u128>> {
    match e {
        Extraction::Done(Ok(times)) => grammar::Outcome::Value(times@),
        Extraction::Done(Err(m)) => grammar::Outcome::Fault(m@),
        Extraction::Need { offset, size } => grammar::Outcome::Missing(offset as int),
    }
}

fn need(offset: u64) -> (e: Extraction)
    ensures
        e == (Extraction::Need { offset, size: READAHEAD }),
{
    Extraction::Need { offset, size: READAHEAD }
}

/// Reads the index at `pos`.
fn read_index(windows: &[Window], pos: u64, scale: u64) -> (r: Extraction)
    requires
        placed(windows@),
    ensures
        answer(r) == grammar::indexed_at(source(windows@), pos as int, scale as nat),
        r matches Extraction::Need { offset, size } ==> size == READAHEAD,
{
    let (kind, behind) = match read_id(windows, pos) {
        Read::Value(v) => v,
        Read::Fault(m) => {
            return done(Err(m));
        },
        Read::Missing(at) => {
            return need(at);
        },
    };
    if kind != ID_CUES {
        let shown_pos = number::decimal_text(pos as u128);
        let shown_kind = number::hexadecimal_text(kind);
        let mut m = text::join3(
            "expected Cues element at offset ",
            shown_pos.as_str(),
            ", got id=0x",
        );
        m.append(shown_kind.as_str());
        return done(Err(m));
    }
    let (size, body) = match read_size(windows, behind) {
        Read::Value(v) => v,
        Read::Fault(m) => {
            return done(Err(m));
        },
        Read::Missing(at) => {
            return need(at);
        },
    };
    let length: u64 = match size {
        Some(n) => n,
        None => ENDLESS,
    };
    match parse_cues(windows, body, body + length) {
        Read::Value(ticks) => done(ticks_to_times(&ticks, scale)),
        Read::Fault(m) => done(Err(m)),
        Read::Missing(at) => need(at),
    }
}

/// Reads the keyframes of a Matroska file off its index, as far as the windows show them.
/// Where a position has to be read first, the caller reads there, adds the window and asks
/// again. The error texts say why a file has no keyframes to offer.
pub fn extract_keyframes(windows: &[Window]) -> (r: Extraction)
    requires
        placed(windows@),
    ensures
        answer(r) == grammar::keyframes(source(windows@)),
        r matches Extraction::Need { offset, size } ==> size == READAHEAD,
{
    let (kind, behind) = match read_id(windows, 0) {
        Read::Value(v) => v,
        Read::Fault(m) => {
            return done(Err(m));
        },
        Read::Missing(at) => {
            return need(at);
        },
    };
    if kind != ID_EBML {
        return done(Err(text::copy_text("not a Matroska file (missing EBML header)")));
    }
    let (size, body) = match read_size(windows, behind) {
        Read::Value(v) => v,
        Read::Fault(m) => {
            return done(Err(m));
        },
        Read::Missing(at) => {
            return need(at);
        },
    };
    let length: u64 = match size {
        Some(n) => n,
        None => 0,
    };
    let (kind, behind) = match read_id(windows, body + length) {
        Read::Value(v) => v,
        Read::Fault(m) => {
            return done(Err(m));
        },
        Read::Missing(at) => {
            return need(at);
        },
    };
    if kind != ID_SEGMENT {
        return done(Err(text::copy_text("expected Segment element")));
    }
    let start: u64 = match read_size(windows, behind) {
        Read::Value((_, start)) => start,
        Read::Fault(m) => {
            return done(Err(m));
        },
        Read::Missing(at) => {
            return need(at);
        },
    };
    match scan_segment(windows, start) {
        Read::Value(Found::Index(ticks, scale)) => done(ticks_to_times(&ticks, scale)),
        Read::Value(Found::Positions { cues, info, scale }) => {
            let scale: u64 = match info {
                None => scale,
                Some(at) => match read_header(windows, at) {
                    Read::Value((_, size, body)) => match parse_info_timestamp_scale(
                        windows,
                        body,
                        body + size,
                    ) {
                        Read::Value(n) => n,
                        Read::Fault(m) => {
                            return done(Err(m));
                        },
                        Read::Missing(at) => {
                            return need(at);
                        },
                    },
                    Read::Fault(m) => {
                        return done(Err(m));
                    },
                    Read::Missing(at) => {
                        return need(at);
                    },
                },
            };
            match cues {
                None => done(Err(text::copy_text("no Cues element found in SeekHead"))),
                Some(at) => read_index(windows, at, scale),
            }
        },
        Read::Fault(m) => done(Err(m)),
        Read::Missing(at) => need(at),
    }
}

}
