//! Matroska files as they are written, and what is read off them.
use super::grammar;
use super::laws;
use vstd::prelude::*;

verus! {

// ── Writing ──────────────────────────────────────────────────────────────────

/// The number of values of `k` bytes.
pub open spec fn range_of(k: nat) -> nat
    decreases k,
{
    if k == 0 {
        1
    } else {
        256 * range_of((k - 1) as nat)
    }
}

/// The `k` bytes that write `v`, the highest first.
pub open spec fn digits(v: nat, k: nat) -> Seq<u8>
    decreases k,
{
    if k == 0 {
        Seq::empty()
    } else {
        digits(v / 256, (k - 1) as nat).push((v % 256) as u8)
    }
}

/// Whether the bytes are an ID: as many as the leading zero bits of the first byte say.
pub open spec fn is_id(id: Seq<u8>) -> bool {
    ||| id.len() == 1 && 0x80 <= id[0]
    ||| id.len() == 2 && 0x40 <= id[0] < 0x80
    ||| id.len() == 3 && 0x20 <= id[0] < 0x40
    ||| id.len() == 4 && 0x10 <= id[0] < 0x20
}

/// The number of sizes that a field of `w` bytes can write.
pub open spec fn sizes_of(w: nat) -> nat {
    vstd::arithmetic::power2::pow2(7 * w)
}

/// A size in a field of `w` bytes: the number behind a bit that marks the width.
pub open spec fn size_field(n: nat, w: nat) -> Seq<u8> {
    digits(sizes_of(w) + n, w)
}

/// An element: its ID, the width of the field that holds its size, and its body.
pub struct Element {
    pub id: Seq<u8>,
    pub width: nat,
    pub body: Seq<u8>,
}

impl Element {
    /// Whether the element can be written. The highest size stands for an unknown one.
    pub open spec fn valid(self) -> bool {
        &&& is_id(self.id)
        &&& 1 <= self.width <= 8
        &&& self.body.len() < sizes_of(self.width) - 1
    }

    /// The bytes of the element.
    pub open spec fn bytes(self) -> Seq<u8> {
        self.id + size_field(self.body.len(), self.width) + self.body
    }
}

/// The bytes of the elements, one behind the other.
pub open spec fn stretch(elements: Seq<Element>) -> Seq<u8>
    decreases elements.len(),
{
    if elements.len() == 0 {
        Seq::empty()
    } else {
        elements[0].bytes() + stretch(elements.drop_first())
    }
}

/// Whether the elements can be written and none has the ID.
pub open spec fn others(elements: Seq<Element>, id: Seq<u8>) -> bool {
    forall|i: int|
        0 <= i < elements.len() ==> (#[trigger] elements[i]).valid() && elements[i].id != id
}

/// A body that holds one number: other elements, an element with the number, and anything
/// behind it; or other elements alone.
pub struct Holder {
    pub before: Seq<Element>,
    /// The number, the number of bytes that write it, and the width of its size field.
    pub number: Option<(u64, nat, nat)>,
    pub after: Seq<u8>,
}

impl Holder {
    /// Whether the body can be written with `id` for the ID of the number.
    pub open spec fn valid(self, id: Seq<u8>) -> bool {
        &&& others(self.before, id)
        &&& self.number matches Some((v, k, w)) ==> k <= 8 && v < range_of(k) && 1 <= w <= 8
    }

    /// The bytes of the body.
    pub open spec fn bytes(self, id: Seq<u8>) -> Seq<u8> {
        match self.number {
            Some((v, k, w)) => stretch(self.before) + Element {
                id,
                width: w,
                body: digits(v as nat, k),
            }.bytes() + self.after,
            None => stretch(self.before),
        }
    }
}

/// An element of the index: an entry, with its time among its children, or something else.
pub struct Cue {
    pub element: Element,
    pub body: Holder,
}

impl Cue {
    pub open spec fn is_point(self) -> bool {
        self.element.id == seq![0xBBu8]
    }

    pub open spec fn valid(self) -> bool {
        &&& self.element.valid()
        &&& self.is_point() ==> self.body.valid(seq![0xB3u8]) && self.element.body
            == self.body.bytes(seq![0xB3u8])
    }
}

/// The elements of the index.
pub open spec fn cue_elements(cues: Seq<Cue>) -> Seq<Element> {
    cues.map_values(|c: Cue| c.element)
}

/// The times that the entries of the index hold, in their order.
pub open spec fn ticks_of(cues: Seq<Cue>) -> Seq<u64>
    decreases cues.len(),
{
    if cues.len() == 0 {
        Seq::empty()
    } else {
        let first = cues[0];
        let rest = ticks_of(cues.drop_first());
        match first.body.number {
            Some((time, _, _)) => if first.is_point() {
                seq![time] + rest
            } else {
                rest
            },
            None => rest,
        }
    }
}

/// Whether the element is the index with the entries.
pub open spec fn is_index(index: Element, cues: Seq<Cue>) -> bool {
    &&& index.valid()
    &&& index.id == seq![0x1Cu8, 0x53u8, 0xBBu8, 0x6Bu8]
    &&& index.body == stretch(cue_elements(cues))
    &&& forall|i: int| 0 <= i < cues.len() ==> (#[trigger] cues[i]).valid()
}

/// Whether the element is the general information, with the length of a tick.
pub open spec fn is_info(info: Element, body: Holder) -> bool {
    &&& info.valid()
    &&& info.id == seq![0x15u8, 0x49u8, 0xA9u8, 0x66u8]
    &&& body.valid(seq![0x2Au8, 0xD7u8, 0xB1u8])
    &&& info.body == body.bytes(seq![0x2Au8, 0xD7u8, 0xB1u8])
}

/// The length of a tick in nanoseconds: a millisecond where the file states none.
pub open spec fn tick_of(body: Holder) -> u64 {
    match body.number {
        Some((v, _, _)) => v,
        None => 1_000_000,
    }
}

/// The beginning of a file: a header, and the ID and the size of a segment. The size may be
/// the highest, which stands for an unknown one.
pub open spec fn opening(header: Element, segment_size: nat, segment_width: nat) -> Seq<u8> {
    header.bytes() + seq![0x18u8, 0x53u8, 0x80u8, 0x67u8] + size_field(segment_size, segment_width)
}

/// Whether a file can begin so.
pub open spec fn opens(header: Element, segment_size: nat, segment_width: nat) -> bool {
    &&& header.valid()
    &&& header.id == seq![0x1Au8, 0x45u8, 0xDFu8, 0xA3u8]
    &&& 1 <= segment_width <= 8
    &&& segment_size < sizes_of(segment_width)
}

/// Whether the elements can be written and none is a list of positions, the general
/// information or the index.
pub open spec fn plain(elements: Seq<Element>) -> bool {
    &&& others(elements, seq![0x11u8, 0x4Du8, 0x9Bu8, 0x74u8])
    &&& others(elements, seq![0x15u8, 0x49u8, 0xA9u8, 0x66u8])
    &&& others(elements, seq![0x1Cu8, 0x53u8, 0xBBu8, 0x6Bu8])
}

/// Whether the answer is the times of the ticks in nanoseconds, in order; or that there are
/// none.
pub open spec fn answers(answer: grammar::Outcome<Seq<u128>>, ticks: Seq<u64>, scale: u64) -> bool {
    if ticks.len() == 0 {
        answer == grammar::Outcome::<Seq<u128>>::Fault(
            "Cues element contains no CuePoint entries"@,
        )
    } else {
        &&& answer matches grammar::Outcome::Value(times)
        &&& times.to_multiset() == ticks.map_values(|t: u64| (t * scale) as u128).to_multiset()
        &&& forall|i: int, j: int| 0 <= i < j < times.len() ==> times[i] <= times[j]
    }
}

// ── Bytes of a file ──────────────────────────────────────────────────────────

/// Whether the bytes stand in the file at `pos`.
pub open spec fn stands(file: Seq<u8>, pos: int, bytes: Seq<u8>) -> bool {
    &&& 0 <= pos
    &&& pos + bytes.len() <= file.len()
    &&& file.subrange(pos, pos + bytes.len()) == bytes
}

proof fn lemma_parts(file: Seq<u8>, pos: int, a: Seq<u8>, b: Seq<u8>)
    requires
        stands(file, pos, a + b),
    ensures
        stands(file, pos, a),
        stands(file, pos + a.len(), b),
{
    let all = file.subrange(pos, pos + (a + b).len());
    assert(file.subrange(pos, pos + a.len()) =~= all.subrange(0, a.len() as int));
    assert(all.subrange(0, a.len() as int) =~= a);
    assert(file.subrange(pos + a.len(), pos + a.len() + b.len()) =~= all.subrange(
        a.len() as int,
        (a + b).len() as int,
    ));
    assert(all.subrange(a.len() as int, (a + b).len() as int) =~= b);
}

proof fn lemma_run(file: Seq<u8>, pos: int, k: nat)
    requires
        0 <= pos,
        pos + k <= file.len(),
    ensures
        grammar::run_at(laws::whole(file), pos, k) == grammar::Outcome::Value(
            file.subrange(pos, pos + k),
        ),
    decreases k,
{
    if k == 0 {
        assert(file.subrange(pos, pos) =~= Seq::empty());
    } else {
        lemma_run(file, pos, (k - 1) as nat);
        let src = laws::whole(file);
        assert(file.subrange(pos + k - 1, pos + k)[0] == file[pos + k - 1]);
        assert(grammar::byte_at(src, pos + k - 1) == grammar::Outcome::Value(file[pos + k - 1]));
        assert(file.subrange(pos, pos + k - 1).push(file[pos + k - 1]) =~= file.subrange(
            pos,
            pos + k,
        ));
    }
}

proof fn lemma_first(file: Seq<u8>, pos: int, bytes: Seq<u8>)
    requires
        stands(file, pos, bytes),
        bytes.len() > 0,
    ensures
        grammar::byte_at(laws::whole(file), pos) == grammar::Outcome::Value(bytes[0]),
        grammar::run_at(laws::whole(file), pos, bytes.len()) == grammar::Outcome::Value(bytes),
{
    lemma_run(file, pos, bytes.len());
    assert(file.subrange(pos, pos + 1)[0] == file[pos]);
    assert(file.subrange(pos, pos + bytes.len())[0] == file[pos]);
}

// ── Numbers ──────────────────────────────────────────────────────────────────

proof fn lemma_digits(v: nat, k: nat)
    ensures
        digits(v, k).len() == k,
        v < range_of(k) ==> grammar::big_endian(digits(v, k)) == v,
        k > 0 && v < range_of(k) ==> digits(v, k)[0] == v / range_of((k - 1) as nat),
        range_of(k) > 0,
    decreases k,
{
    if k > 0 {
        let less = (k - 1) as nat;
        lemma_digits(v / 256, less);
        let d = digits(v, k);
        assert(d.drop_last() =~= digits(v / 256, less));
        assert(d.last() == (v % 256) as u8);
        if v < range_of(k) {
            assert(v / 256 < range_of(less));
            if k == 1 {
                assert(range_of(0) == 1);
                assert(range_of(1) == 256 * range_of(0));
                assert(d[0] == d.last());
                assert(v / 1 == v);
                assert(v % 256 == v);
            } else {
                assert(d[0] == digits(v / 256, less)[0]);
                let r = range_of((k - 2) as nat);
                assert(range_of(less) == 256 * r);
                lemma_digits(v / 256, (k - 2) as nat);
                vstd::arithmetic::div_mod::lemma_div_denominator(v as int, 256, r as int);
                assert((v / 256) / r == v / (256 * r));
            }
        }
    }
}

proof fn lemma_bound(bytes: Seq<u8>)
    ensures
        grammar::big_endian(bytes) < range_of(bytes.len()),
        digits(grammar::big_endian(bytes), bytes.len()) == bytes,
    decreases bytes.len(),
{
    if bytes.len() == 0 {
        assert(digits(0, 0) =~= bytes);
    } else {
        lemma_bound(bytes.drop_last());
        let v = grammar::big_endian(bytes);
        let front = grammar::big_endian(bytes.drop_last());
        assert(v == front * 256 + bytes.last());
        assert(v / 256 == front && v % 256 == bytes.last());
        assert(bytes.drop_last().push(bytes.last()) =~= bytes);
    }
}

/// Another first byte changes the number by so much.
proof fn lemma_first_changed(bytes: Seq<u8>, b: u8)
    requires
        bytes.len() > 0,
    ensures
        grammar::big_endian(bytes.update(0, b)) + bytes[0] * range_of((bytes.len() - 1) as nat)
            == grammar::big_endian(bytes) + b * range_of((bytes.len() - 1) as nat),
    decreases bytes.len(),
{
    let less = bytes.drop_last();
    let changed = bytes.update(0, b);
    let first = bytes[0] as int;
    let other = b as int;
    if bytes.len() == 1 {
        assert(changed.drop_last() =~= Seq::empty());
        assert(less =~= Seq::empty());
        assert(range_of(0) == 1);
        assert(grammar::big_endian(less) == 0);
        assert(grammar::big_endian(bytes) == first);
        assert(grammar::big_endian(changed) == other);
        assert(first * 1 == first && other * 1 == other);
    } else {
        lemma_first_changed(less, b);
        assert(changed.drop_last() =~= less.update(0, b));
        assert(changed.last() == bytes.last());
        let r = range_of((bytes.len() - 2) as nat) as int;
        assert(range_of((bytes.len() - 1) as nat) == 256 * r);
        assert(less[0] == bytes[0]);
        assert(grammar::big_endian(changed) == grammar::big_endian(less.update(0, b)) * 256
            + bytes.last());
        assert(grammar::big_endian(bytes) == grammar::big_endian(less) * 256 + bytes.last());
        assert(first * (256 * r) == 256 * (first * r)) by (nonlinear_arith);
        assert(other * (256 * r) == 256 * (other * r)) by (nonlinear_arith);
    }
}

/// IDs that write the same number are the same.
proof fn lemma_ids(a: Seq<u8>, b: Seq<u8>)
    requires
        is_id(a),
        is_id(b),
        grammar::big_endian(a) == grammar::big_endian(b),
    ensures
        a == b,
{
    lemma_id_range(a);
    lemma_id_range(b);
    lemma_bound(a);
    lemma_bound(b);
}

proof fn lemma_id_range(id: Seq<u8>)
    requires
        is_id(id),
    ensures
        id.len() == 1 ==> grammar::big_endian(id) < 0x100,
        id.len() == 2 ==> 0x4000 <= grammar::big_endian(id) < 0x8000,
        id.len() == 3 ==> 0x20_0000 <= grammar::big_endian(id) < 0x40_0000,
        id.len() == 4 ==> 0x1000_0000 <= grammar::big_endian(id) < 0x2000_0000,
{
    reveal_with_fuel(grammar::big_endian, 5);
    let a = id.drop_last();
    let b = a.drop_last();
    let c = b.drop_last();
    if id.len() == 2 {
        assert(a.last() == id[0]);
    } else if id.len() == 3 {
        assert(a.last() == id[1] && b.last() == id[0]);
    } else if id.len() == 4 {
        assert(a.last() == id[2] && b.last() == id[1] && c.last() == id[0]);
    }
}

/// The number that an ID writes.
proof fn lemma_known_ids()
    ensures
        grammar::big_endian(seq![0xBBu8]) == 0xBB,
        grammar::big_endian(seq![0xB3u8]) == 0xB3,
        grammar::big_endian(seq![0x4Du8, 0xBBu8]) == 0x4DBB,
        grammar::big_endian(seq![0x53u8, 0xABu8]) == 0x53AB,
        grammar::big_endian(seq![0x53u8, 0xACu8]) == 0x53AC,
        grammar::big_endian(seq![0x2Au8, 0xD7u8, 0xB1u8]) == 0x2A_D7B1,
        grammar::big_endian(seq![0x1Au8, 0x45u8, 0xDFu8, 0xA3u8]) == 0x1A45_DFA3,
        grammar::big_endian(seq![0x18u8, 0x53u8, 0x80u8, 0x67u8]) == 0x1853_8067,
        grammar::big_endian(seq![0x11u8, 0x4Du8, 0x9Bu8, 0x74u8]) == 0x114D_9B74,
        grammar::big_endian(seq![0x15u8, 0x49u8, 0xA9u8, 0x66u8]) == 0x1549_A966,
        grammar::big_endian(seq![0x1Cu8, 0x53u8, 0xBBu8, 0x6Bu8]) == 0x1C53_BB6B,
{
    lemma_four(0, 0, 0, 0xBB);
    lemma_four(0, 0, 0, 0xB3);
    lemma_four(0, 0, 0x4D, 0xBB);
    lemma_four(0, 0, 0x53, 0xAB);
    lemma_four(0, 0, 0x53, 0xAC);
    lemma_four(0, 0x2A, 0xD7, 0xB1);
    lemma_four(0x1A, 0x45, 0xDF, 0xA3);
    lemma_four(0x18, 0x53, 0x80, 0x67);
    lemma_four(0x11, 0x4D, 0x9B, 0x74);
    lemma_four(0x15, 0x49, 0xA9, 0x66);
    lemma_four(0x1C, 0x53, 0xBB, 0x6B);
}

proof fn lemma_four(a: u8, b: u8, c: u8, d: u8)
    ensures
        grammar::big_endian(seq![d]) == d,
        grammar::big_endian(seq![c, d]) == c * 0x100 + d,
        grammar::big_endian(seq![b, c, d]) == b * 0x1_0000 + c * 0x100 + d,
        grammar::big_endian(seq![a, b, c, d]) == a * 0x100_0000 + b * 0x1_0000 + c * 0x100 + d,
{
    reveal_with_fuel(grammar::big_endian, 5);
    assert(seq![d].drop_last() =~= Seq::<u8>::empty());
    assert(seq![c, d].drop_last() =~= seq![c]);
    assert(seq![c].drop_last() =~= Seq::<u8>::empty());
    assert(seq![b, c, d].drop_last() =~= seq![b, c]);
    assert(seq![b, c].drop_last() =~= seq![b]);
    assert(seq![b].drop_last() =~= Seq::<u8>::empty());
    assert(seq![a, b, c, d].drop_last() =~= seq![a, b, c]);
    assert(seq![a, b, c].drop_last() =~= seq![a, b]);
    assert(seq![a, b].drop_last() =~= seq![a]);
    assert(seq![a].drop_last() =~= Seq::<u8>::empty());
}

// ── Elements ─────────────────────────────────────────────────────────────────

proof fn lemma_id_at(file: Seq<u8>, pos: int, id: Seq<u8>)
    requires
        stands(file, pos, id),
        is_id(id),
    ensures
        grammar::id_at(laws::whole(file), pos) == grammar::Outcome::Value(
            (grammar::big_endian(id), pos + id.len()),
        ),
{
    lemma_first(file, pos, id);
    assert(grammar::id_width(id[0]) == id.len());
}

/// The values of the powers that sizes are made of.
proof fn lemma_powers(w: nat)
    requires
        1 <= w <= 8,
    ensures
        sizes_of(1) == 0x80,
        sizes_of(2) == 0x4000,
        sizes_of(3) == 0x20_0000,
        sizes_of(4) == 0x1000_0000,
        sizes_of(5) == 0x8_0000_0000,
        sizes_of(6) == 0x400_0000_0000,
        sizes_of(7) == 0x2_0000_0000_0000,
        sizes_of(8) == 0x100_0000_0000_0000,
        range_of(0) == 1,
        range_of(1) == 0x100,
        range_of(2) == 0x1_0000,
        range_of(3) == 0x100_0000,
        range_of(4) == 0x1_0000_0000,
        range_of(5) == 0x100_0000_0000,
        range_of(6) == 0x1_0000_0000_0000,
        range_of(7) == 0x100_0000_0000_0000,
        range_of(8) == 0x1_0000_0000_0000_0000,
{
    vstd::arithmetic::power2::lemma2_to64();
    vstd::arithmetic::power2::lemma2_to64_rest();
    reveal_with_fuel(range_of, 9);
}

proof fn lemma_size_field(n: nat, w: nat)
    requires
        1 <= w <= 8,
        n < sizes_of(w),
    ensures
        size_field(n, w).len() == w,
        grammar::size_width(size_field(n, w)[0]) == w,
        grammar::size_of(size_field(n, w)) == if n == sizes_of(w) - 1 {
            None
        } else {
            Some(n)
        },
{
    lemma_powers(w);
    let v = sizes_of(w) + n;
    let bytes = size_field(n, w);
    let low = range_of((w - 1) as nat);
    assert(v < range_of(w));
    lemma_digits(v, w);
    let first = bytes[0];
    let marker = grammar::size_marker(first);
    assert(first == v / low);
    assert(grammar::size_width(first) == w && marker * low == sizes_of(w) && marker <= first < 2
        * marker) by {
        if w == 1 {
        } else if w == 2 {
        } else if w == 3 {
        } else if w == 4 {
        } else if w == 5 {
        } else if w == 6 {
        } else if w == 7 {
        } else {
        }
    }
    let bare = (first as nat % marker) as u8;
    assert(first as nat % marker == first - marker) by {
        vstd::arithmetic::div_mod::lemma_fundamental_div_mod_converse(
            first as int,
            marker as int,
            1,
            first - marker,
        );
    }
    lemma_first_changed(bytes, bare);
    assert(first * low == bare * low + marker * low) by (nonlinear_arith)
        requires
            first == bare + marker,
    ;
}

proof fn lemma_size_at(file: Seq<u8>, pos: int, n: nat, w: nat)
    requires
        stands(file, pos, size_field(n, w)),
        1 <= w <= 8,
        n < sizes_of(w),
    ensures
        grammar::size_at(laws::whole(file), pos) == grammar::Outcome::Value(
            (
                if n == sizes_of(w) - 1 {
                    None
                } else {
                    Some(n)
                },
                pos + w,
            ),
        ),
{
    lemma_size_field(n, w);
    lemma_first(file, pos, size_field(n, w));
}

/// The head of an element, and where its body stands.
proof fn lemma_element(file: Seq<u8>, pos: int, e: Element)
    requires
        stands(file, pos, e.bytes()),
        e.valid(),
    ensures
        ({
            let body = pos + e.id.len() + e.width;
            &&& grammar::id_at(laws::whole(file), pos) == grammar::Outcome::Value(
                (grammar::big_endian(e.id), pos + e.id.len()),
            )
            &&& grammar::size_at(laws::whole(file), pos + e.id.len()) == grammar::Outcome::Value(
                (Some(e.body.len()), body),
            )
            &&& grammar::header_at(laws::whole(file), pos, 0) == grammar::Outcome::Value(
                (grammar::big_endian(e.id), e.body.len(), body),
            )
            &&& stands(file, body, e.body)
            &&& body + e.body.len() == pos + e.bytes().len()
        }),
{
    let size = size_field(e.body.len(), e.width);
    lemma_size_field(e.body.len(), e.width);
    lemma_parts(file, pos, e.id + size, e.body);
    lemma_parts(file, pos, e.id, size);
    lemma_id_at(file, pos, e.id);
    lemma_size_at(file, pos + e.id.len(), e.body.len(), e.width);
}

proof fn lemma_uint(file: Seq<u8>, pos: int, v: nat, k: nat)
    requires
        stands(file, pos, digits(v, k)),
        k <= 8,
        v < range_of(k),
    ensures
        grammar::uint_at(laws::whole(file), pos, k) == grammar::Outcome::Value(v),
{
    lemma_digits(v, k);
    lemma_run(file, pos, k);
}

/// An element that holds a number.
proof fn lemma_numbered(file: Seq<u8>, pos: int, id: Seq<u8>, number: (u64, nat, nat))
    requires
        is_id(id),
        number.1 <= 8,
        number.0 < range_of(number.1),
        1 <= number.2 <= 8,
        stands(
            file,
            pos,
            Element { id, width: number.2, body: digits(number.0 as nat, number.1) }.bytes(),
        ),
    ensures
        grammar::header_at(laws::whole(file), pos, 0) == grammar::Outcome::Value(
            (grammar::big_endian(id), number.1, pos + id.len() + number.2),
        ),
        grammar::uint_at(laws::whole(file), pos + id.len() + number.2, number.1)
            == grammar::Outcome::Value(number.0 as nat),
{
    let e = Element { id, width: number.2, body: digits(number.0 as nat, number.1) };
    lemma_powers(number.2);
    lemma_digits(number.0 as nat, number.1);
    lemma_element(file, pos, e);
    lemma_uint(file, pos + id.len() + number.2, number.0 as nat, number.1);
}

proof fn lemma_stretch(elements: Seq<Element>, file: Seq<u8>, pos: int)
    requires
        elements.len() > 0,
        stands(file, pos, stretch(elements)),
    ensures
        stands(file, pos, elements[0].bytes()),
        stands(file, pos + elements[0].bytes().len(), stretch(elements.drop_first())),
        stretch(elements).len() == elements[0].bytes().len() + stretch(elements.drop_first()).len(),
{
    lemma_parts(file, pos, elements[0].bytes(), stretch(elements.drop_first()));
}

proof fn lemma_fewer(elements: Seq<Element>, id: Seq<u8>)
    requires
        others(elements, id),
        elements.len() > 0,
    ensures
        others(elements.drop_first(), id),
        elements[0].valid(),
        elements[0].id != id,
{
    let less = elements.drop_first();
    assert forall|i: int| 0 <= i < less.len() implies (#[trigger] less[i]).valid() && less[i].id
        != id by {
        assert(less[i] == elements[i + 1]);
    }
}

proof fn lemma_not(e: Element, id: Seq<u8>)
    requires
        e.valid(),
        is_id(id),
        e.id != id,
    ensures
        grammar::big_endian(e.id) != grammar::big_endian(id),
{
    if grammar::big_endian(e.id) == grammar::big_endian(id) {
        lemma_ids(e.id, id);
    }
}

// ── The index ────────────────────────────────────────────────────────────────

proof fn lemma_cue_time(file: Seq<u8>, pos: int, h: Holder)
    requires
        h.valid(seq![0xB3u8]),
        stands(file, pos, h.bytes(seq![0xB3u8])),
    ensures
        grammar::cue_time_at(
            laws::whole(file),
            pos,
            pos + h.bytes(seq![0xB3u8]).len(),
        ) == grammar::Outcome::Value(
            match h.number {
                Some((v, _, _)) => Some(v as nat),
                None => None,
            },
        ),
    decreases h.before.len(),
{
    let id = seq![0xB3u8];
    let src = laws::whole(file);
    let all = h.bytes(id);
    let end = pos + all.len();
    lemma_known_ids();
    if h.before.len() > 0 {
        let less = Holder { before: h.before.drop_first(), ..h };
        let e = h.before[0];
        lemma_fewer(h.before, id);
        assert(all =~= e.bytes() + less.bytes(id));
        lemma_parts(file, pos, e.bytes(), less.bytes(id));
        lemma_element(file, pos, e);
        lemma_not(e, id);
        lemma_cue_time(file, pos + e.bytes().len(), less);
        assert(e.bytes().len() > 0);
    } else {
        match h.number {
            Some((v, k, w)) => {
                let e = Element { id, width: w, body: digits(v as nat, k) };
                assert(all =~= e.bytes() + h.after);
                lemma_parts(file, pos, e.bytes(), h.after);
                lemma_numbered(file, pos, id, (v, k, w));
                assert(e.bytes().len() > 0);
            },
            None => {
                assert(all =~= Seq::<u8>::empty());
            },
        }
    }
}

proof fn lemma_cues(file: Seq<u8>, pos: int, cues: Seq<Cue>, found: Seq<u64>)
    requires
        stands(file, pos, stretch(cue_elements(cues))),
        forall|i: int| 0 <= i < cues.len() ==> (#[trigger] cues[i]).valid(),
    ensures
        grammar::cues_at(
            laws::whole(file),
            pos,
            pos + stretch(cue_elements(cues)).len(),
            found,
        ) == grammar::Outcome::Value(found + ticks_of(cues)),
    decreases cues.len(),
{
    let src = laws::whole(file);
    let elements = cue_elements(cues);
    lemma_known_ids();
    if cues.len() == 0 {
        assert(found + ticks_of(cues) =~= found);
    } else {
        let c = cues[0];
        let less = cues.drop_first();
        assert(c.valid());
        assert(elements[0] == c.element);
        assert(elements.drop_first() =~= cue_elements(less));
        lemma_stretch(elements, file, pos);
        lemma_element(file, pos, c.element);
        assert forall|i: int| 0 <= i < less.len() implies (#[trigger] less[i]).valid() by {
            assert(less[i] == cues[i + 1]);
        }
        let next = pos + c.element.bytes().len();
        let body = pos + c.element.id.len() + c.element.width;
        assert(c.element.bytes().len() > 0);
        if c.is_point() {
            lemma_cue_time(file, body, c.body);
            match c.body.number {
                Some((v, _, _)) => {
                    lemma_cues(file, next, less, found.push(v));
                    assert(found.push(v) + ticks_of(less) =~= found + ticks_of(cues));
                },
                None => {
                    lemma_cues(file, next, less, found);
                },
            }
        } else {
            lemma_not(c.element, seq![0xBBu8]);
            lemma_cues(file, next, less, found);
        }
    }
}

proof fn lemma_scale(file: Seq<u8>, pos: int, h: Holder)
    requires
        h.valid(seq![0x2Au8, 0xD7u8, 0xB1u8]),
        stands(file, pos, h.bytes(seq![0x2Au8, 0xD7u8, 0xB1u8])),
    ensures
        grammar::scale_at(
            laws::whole(file),
            pos,
            pos + h.bytes(seq![0x2Au8, 0xD7u8, 0xB1u8]).len(),
        ) == grammar::Outcome::Value(tick_of(h) as nat),
    decreases h.before.len(),
{
    let id = seq![0x2Au8, 0xD7u8, 0xB1u8];
    let all = h.bytes(id);
    lemma_known_ids();
    if h.before.len() > 0 {
        let less = Holder { before: h.before.drop_first(), ..h };
        let e = h.before[0];
        lemma_fewer(h.before, id);
        assert(all =~= e.bytes() + less.bytes(id));
        lemma_parts(file, pos, e.bytes(), less.bytes(id));
        lemma_element(file, pos, e);
        lemma_not(e, id);
        lemma_scale(file, pos + e.bytes().len(), less);
        assert(e.bytes().len() > 0);
    } else {
        match h.number {
            Some((v, k, w)) => {
                let e = Element { id, width: w, body: digits(v as nat, k) };
                assert(all =~= e.bytes() + h.after);
                lemma_parts(file, pos, e.bytes(), h.after);
                lemma_numbered(file, pos, id, (v, k, w));
                assert(e.bytes().len() > 0);
            },
            None => {
                assert(all =~= Seq::<u8>::empty());
            },
        }
    }
}

// ── The segment ──────────────────────────────────────────────────────────────

/// The children of the segment that say nothing of the index are passed over.
proof fn lemma_passed(
    file: Seq<u8>,
    start: int,
    pos: int,
    limit: int,
    info: Option<int>,
    scale: nat,
    elements: Seq<Element>,
)
    requires
        stands(file, pos, stretch(elements)),
        plain(elements),
        pos + stretch(elements).len() <= limit,
    ensures
        grammar::scan_at(laws::whole(file), start, pos, limit, info, scale) == grammar::scan_at(
            laws::whole(file),
            start,
            pos + stretch(elements).len(),
            limit,
            info,
            scale,
        ),
    decreases elements.len(),
{
    lemma_known_ids();
    if elements.len() > 0 {
        let e = elements[0];
        lemma_fewer(elements, seq![0x11u8, 0x4Du8, 0x9Bu8, 0x74u8]);
        lemma_fewer(elements, seq![0x15u8, 0x49u8, 0xA9u8, 0x66u8]);
        lemma_fewer(elements, seq![0x1Cu8, 0x53u8, 0xBBu8, 0x6Bu8]);
        lemma_stretch(elements, file, pos);
        lemma_element(file, pos, e);
        lemma_not(e, seq![0x11u8, 0x4Du8, 0x9Bu8, 0x74u8]);
        lemma_not(e, seq![0x15u8, 0x49u8, 0xA9u8, 0x66u8]);
        lemma_not(e, seq![0x1Cu8, 0x53u8, 0xBBu8, 0x6Bu8]);
        assert(e.bytes().len() > 0);
        lemma_passed(
            file,
            start,
            pos + e.bytes().len(),
            limit,
            info,
            scale,
            elements.drop_first(),
        );
    }
}

proof fn lemma_opening(
    file: Seq<u8>,
    header: Element,
    segment_size: nat,
    segment_width: nat,
)
    requires
        opens(header, segment_size, segment_width),
        stands(file, 0, opening(header, segment_size, segment_width)),
    ensures
        grammar::keyframes(laws::whole(file)) == grammar::segment_keyframes(
            laws::whole(file),
            opening(header, segment_size, segment_width).len() as int,
        ),
{
    let id = seq![0x18u8, 0x53u8, 0x80u8, 0x67u8];
    let size = size_field(segment_size, segment_width);
    lemma_known_ids();
    lemma_size_field(segment_size, segment_width);
    lemma_parts(file, 0, header.bytes() + id, size);
    lemma_parts(file, 0, header.bytes(), id);
    lemma_element(file, 0, header);
    let at = header.bytes().len() as int;
    lemma_id_at(file, at, id);
    lemma_size_at(file, at + 4, segment_size, segment_width);
}

proof fn lemma_answers(ticks: Seq<u64>, scale: u64)
    ensures
        answers(grammar::keyframes_of(ticks, scale as nat), ticks, scale),
{
    if ticks.len() > 0 {
        let times = grammar::times_of(ticks, scale as nat);
        let plain = ticks.map_values(|t: u64| (t * scale as nat) as u128);
        assert(plain =~= ticks.map_values(|t: u64| (t * scale) as u128));
        let leq = grammar::ascending();
        assert(vstd::relations::total_ordering(leq));
        plain.lemma_sort_by_ensures(leq);
        assert(times == plain.sort_by(leq));
        assert forall|i: int, j: int| 0 <= i < j < times.len() implies times[i] <= times[j] by {
            assert(leq(times[i], times[j]));
        }
    }
}

/// The general information among the children of the segment.
proof fn lemma_info_here(
    file: Seq<u8>,
    start: int,
    pos: int,
    limit: int,
    scale: nat,
    info: Element,
    body: Holder,
)
    requires
        stands(file, pos, info.bytes()),
        is_info(info, body),
        pos < limit,
    ensures
        grammar::scan_at(laws::whole(file), start, pos, limit, None, scale) == grammar::scan_at(
            laws::whole(file),
            start,
            pos + info.bytes().len(),
            limit,
            None,
            tick_of(body) as nat,
        ),
{
    lemma_known_ids();
    lemma_element(file, pos, info);
    lemma_scale(file, pos + info.id.len() + info.width, body);
}

/// The index among the children of the segment.
proof fn lemma_index_here(
    file: Seq<u8>,
    start: int,
    pos: int,
    limit: int,
    scale: nat,
    index: Element,
    cues: Seq<Cue>,
)
    requires
        stands(file, pos, index.bytes()),
        is_index(index, cues),
        pos < limit,
    ensures
        grammar::scan_at(laws::whole(file), start, pos, limit, None, scale)
            == grammar::Outcome::Value(grammar::Scan::Index(ticks_of(cues), scale)),
{
    lemma_known_ids();
    lemma_element(file, pos, index);
    lemma_cues(file, pos + index.id.len() + index.width, cues, Seq::empty());
    assert(Seq::<u64>::empty() + ticks_of(cues) =~= ticks_of(cues));
}

proof fn lemma_found(file: Seq<u8>, start: int, ticks: Seq<u64>, scale: u64)
    requires
        grammar::scan_at(laws::whole(file), start, start, start + 131_072, None, 1_000_000)
            == grammar::Outcome::Value(grammar::Scan::Index(ticks, scale as nat)),
    ensures
        answers(grammar::segment_keyframes(laws::whole(file), start), ticks, scale),
{
    lemma_answers(ticks, scale);
}

/// The index near the beginning of a file is read: whatever else stands before it and behind
/// it, the keyframes are the times of those of its entries that have one, in ticks of the
/// length that the general information states, and in order of time. What else an entry holds
/// before its time or behind it makes no difference.
pub proof fn an_index_among_the_first_elements_is_read(
    file: Seq<u8>,
    header: Element,
    segment_size: nat,
    segment_width: nat,
    before: Seq<Element>,
    info: Element,
    info_body: Holder,
    between: Seq<Element>,
    index: Element,
    cues: Seq<Cue>,
    rest: Seq<u8>,
)
    requires
        opens(header, segment_size, segment_width),
        plain(before),
        is_info(info, info_body),
        plain(between),
        is_index(index, cues),
        stretch(before).len() + info.bytes().len() + stretch(between).len() < 131_072,
        file == opening(header, segment_size, segment_width) + (stretch(before) + (info.bytes() + (
        stretch(between) + (index.bytes() + rest)))),
    ensures
        answers(grammar::keyframes(laws::whole(file)), ticks_of(cues), tick_of(info_body)),
{
    let open = opening(header, segment_size, segment_width);
    let start = open.len() as int;
    let limit = start + 131_072;
    let a = stretch(before);
    let b = info.bytes();
    let c = stretch(between);
    let d = index.bytes();
    let scale = tick_of(info_body);
    assert(file.subrange(0, file.len() as int) =~= file);
    lemma_parts(file, 0, open, a + (b + (c + (d + rest))));
    lemma_parts(file, start, a, b + (c + (d + rest)));
    lemma_parts(file, start + a.len(), b, c + (d + rest));
    lemma_parts(file, start + a.len() + b.len(), c, d + rest);
    lemma_parts(file, start + a.len() + b.len() + c.len(), d, rest);
    lemma_opening(file, header, segment_size, segment_width);
    lemma_passed(file, start, start, limit, None, 1_000_000, before);
    lemma_info_here(file, start, start + a.len(), limit, 1_000_000, info, info_body);
    lemma_passed(file, start, start + a.len() + b.len(), limit, None, scale as nat, between);
    lemma_index_here(
        file,
        start,
        start + a.len() + b.len() + c.len(),
        limit,
        scale as nat,
        index,
        cues,
    );
    lemma_found(file, start, ticks_of(cues), scale);
}

/// So it is where there is no general information before the index: a tick is then a
/// millisecond.
pub proof fn a_tick_is_a_millisecond_where_nothing_is_said(
    file: Seq<u8>,
    header: Element,
    segment_size: nat,
    segment_width: nat,
    before: Seq<Element>,
    index: Element,
    cues: Seq<Cue>,
    rest: Seq<u8>,
)
    requires
        opens(header, segment_size, segment_width),
        plain(before),
        is_index(index, cues),
        stretch(before).len() < 131_072,
        file == opening(header, segment_size, segment_width) + (stretch(before) + (index.bytes()
            + rest)),
    ensures
        answers(grammar::keyframes(laws::whole(file)), ticks_of(cues), 1_000_000),
{
    let open = opening(header, segment_size, segment_width);
    let start = open.len() as int;
    let limit = start + 131_072;
    let a = stretch(before);
    let d = index.bytes();
    assert(file.subrange(0, file.len() as int) =~= file);
    lemma_parts(file, 0, open, a + (d + rest));
    lemma_parts(file, start, a, d + rest);
    lemma_parts(file, start + a.len(), d, rest);
    lemma_opening(file, header, segment_size, segment_width);
    lemma_passed(file, start, start, limit, None, 1_000_000, before);
    lemma_index_here(file, start, start + a.len(), limit, 1_000_000, index, cues);
    lemma_found(file, start, ticks_of(cues), 1_000_000);
}

// ── The list of positions ────────────────────────────────────────────────────

/// An entry of the list of positions: the ID of an element and its position in the segment,
/// among other elements.
pub struct Place {
    pub element: Element,
    pub before: Seq<Element>,
    /// The ID of the element whose position is given, and the width of its size field.
    pub target: Seq<u8>,
    pub target_width: nat,
    pub between: Seq<Element>,
    /// The position, the number of bytes that write it, and the width of its size field.
    pub position: (u64, nat, nat),
    pub after: Seq<Element>,
}

/// Whether the elements can be written and none is an ID or a position.
pub open spec fn apart(elements: Seq<Element>) -> bool {
    others(elements, seq![0x53u8, 0xABu8]) && others(elements, seq![0x53u8, 0xACu8])
}

impl Place {
    /// The element that holds the ID.
    pub open spec fn naming(self) -> Element {
        Element { id: seq![0x53u8, 0xABu8], width: self.target_width, body: self.target }
    }

    /// The element that holds the position.
    pub open spec fn placing(self) -> Element {
        Element {
            id: seq![0x53u8, 0xACu8],
            width: self.position.2,
            body: digits(self.position.0 as nat, self.position.1),
        }
    }

    pub open spec fn valid(self) -> bool {
        &&& self.element.valid()
        &&& self.element.id == seq![0x4Du8, 0xBBu8]
        &&& apart(self.before) && apart(self.between) && apart(self.after)
        &&& is_id(self.target)
        &&& 1 <= self.target_width <= 8
        &&& self.position.1 <= 8 && self.position.0 < range_of(self.position.1)
        &&& 1 <= self.position.2 <= 8
        &&& self.element.body == stretch(self.before) + (self.naming().bytes() + (stretch(
            self.between,
        ) + (self.placing().bytes() + stretch(self.after))))
    }
}

/// The elements of the list.
pub open spec fn place_elements(places: Seq<Place>) -> Seq<Element> {
    places.map_values(|p: Place| p.element)
}

/// Whether the element is the list of positions.
pub open spec fn is_list(list: Element, places: Seq<Place>) -> bool {
    &&& list.valid()
    &&& list.id == seq![0x11u8, 0x4Du8, 0x9Bu8, 0x74u8]
    &&& list.body == stretch(place_elements(places))
    &&& forall|i: int| 0 <= i < places.len() ==> (#[trigger] places[i]).valid()
}

/// Whether the last entry for the ID gives the position.
pub open spec fn gives(places: Seq<Place>, id: Seq<u8>, position: u64) -> bool {
    exists|i: int|
        {
            &&& 0 <= i < places.len()
            &&& (#[trigger] places[i]).target == id
            &&& places[i].position.0 == position
            &&& forall|j: int| i < j < places.len() ==> (#[trigger] places[j]).target != id
        }
}

/// Whether no entry is for the ID.
pub open spec fn gives_none(places: Seq<Place>, id: Seq<u8>) -> bool {
    forall|i: int| 0 <= i < places.len() ==> (#[trigger] places[i]).target != id
}

proof fn lemma_entry_passed(
    file: Seq<u8>,
    pos: int,
    end: int,
    id: Option<Seq<u8>>,
    position: Option<nat>,
    elements: Seq<Element>,
)
    requires
        stands(file, pos, stretch(elements)),
        apart(elements),
        pos + stretch(elements).len() <= end,
    ensures
        grammar::entry_at(laws::whole(file), pos, end, id, position) == grammar::entry_at(
            laws::whole(file),
            pos + stretch(elements).len(),
            end,
            id,
            position,
        ),
    decreases elements.len(),
{
    lemma_known_ids();
    if elements.len() > 0 {
        let e = elements[0];
        lemma_fewer(elements, seq![0x53u8, 0xABu8]);
        lemma_fewer(elements, seq![0x53u8, 0xACu8]);
        lemma_stretch(elements, file, pos);
        lemma_element(file, pos, e);
        lemma_not(e, seq![0x53u8, 0xABu8]);
        lemma_not(e, seq![0x53u8, 0xACu8]);
        assert(e.bytes().len() > 0);
        lemma_entry_passed(file, pos + e.bytes().len(), end, id, position, elements.drop_first());
    }
}

proof fn lemma_named(
    file: Seq<u8>,
    pos: int,
    end: int,
    id: Option<Seq<u8>>,
    position: Option<nat>,
    p: Place,
)
    requires
        p.valid(),
        stands(file, pos, p.naming().bytes()),
        pos + p.naming().bytes().len() <= end,
    ensures
        grammar::entry_at(laws::whole(file), pos, end, id, position) == grammar::entry_at(
            laws::whole(file),
            pos + p.naming().bytes().len(),
            end,
            Some(p.target),
            position,
        ),
{
    let e = p.naming();
    lemma_known_ids();
    lemma_powers(p.target_width);
    lemma_element(file, pos, e);
    assert(e.bytes().len() > 0);
}

proof fn lemma_placed(
    file: Seq<u8>,
    pos: int,
    end: int,
    id: Option<Seq<u8>>,
    position: Option<nat>,
    p: Place,
)
    requires
        p.valid(),
        stands(file, pos, p.placing().bytes()),
        pos + p.placing().bytes().len() <= end,
    ensures
        grammar::entry_at(laws::whole(file), pos, end, id, position) == grammar::entry_at(
            laws::whole(file),
            pos + p.placing().bytes().len(),
            end,
            id,
            Some(p.position.0 as nat),
        ),
{
    let e = p.placing();
    lemma_known_ids();
    lemma_powers(p.position.2);
    lemma_digits(p.position.0 as nat, p.position.1);
    lemma_element(file, pos, e);
    lemma_numbered(file, pos, e.id, p.position);
    assert(e.bytes().len() > 0);
}

proof fn lemma_place(file: Seq<u8>, pos: int, p: Place)
    requires
        p.valid(),
        stands(file, pos, p.element.body),
    ensures
        grammar::entry_at(laws::whole(file), pos, pos + p.element.body.len(), None, None)
            == grammar::Outcome::Value((Some(p.target), Some(p.position.0 as nat))),
{
    let a = stretch(p.before);
    let b = p.naming().bytes();
    let c = stretch(p.between);
    let d = p.placing().bytes();
    let e = stretch(p.after);
    let end = pos + p.element.body.len();
    assert(p.element.body.len() == a.len() + b.len() + c.len() + d.len() + e.len());
    lemma_parts(file, pos, a, b + (c + (d + e)));
    lemma_parts(file, pos + a.len(), b, c + (d + e));
    lemma_parts(file, pos + a.len() + b.len(), c, d + e);
    lemma_parts(file, pos + a.len() + b.len() + c.len(), d, e);
    lemma_entry_passed(file, pos, end, None, None, p.before);
    lemma_named(file, pos + a.len(), end, None, None, p);
    lemma_entry_passed(file, pos + a.len() + b.len(), end, Some(p.target), None, p.between);
    lemma_placed(file, pos + a.len() + b.len() + c.len(), end, Some(p.target), None, p);
    lemma_entry_passed(
        file,
        pos + a.len() + b.len() + c.len() + d.len(),
        end,
        Some(p.target),
        Some(p.position.0 as nat),
        p.after,
    );
}

/// What the entries say.
spec fn said(places: Seq<Place>) -> Seq<(nat, nat)> {
    places.map_values(|p: Place| (grammar::big_endian(p.target), p.position.0 as nat))
}

proof fn lemma_entries(file: Seq<u8>, pos: int, places: Seq<Place>, found: Seq<(nat, nat)>)
    requires
        stands(file, pos, stretch(place_elements(places))),
        forall|i: int| 0 <= i < places.len() ==> (#[trigger] places[i]).valid(),
    ensures
        grammar::entries_at(
            laws::whole(file),
            pos,
            pos + stretch(place_elements(places)).len(),
            found,
        ) == grammar::Outcome::Value(found + said(places)),
    decreases places.len(),
{
    let elements = place_elements(places);
    lemma_known_ids();
    if places.len() == 0 {
        assert(found + said(places) =~= found);
    } else {
        let p = places[0];
        let less = places.drop_first();
        assert(p.valid());
        assert(elements[0] == p.element);
        assert(elements.drop_first() =~= place_elements(less));
        lemma_stretch(elements, file, pos);
        lemma_element(file, pos, p.element);
        assert forall|i: int| 0 <= i < less.len() implies (#[trigger] less[i]).valid() by {
            assert(less[i] == places[i + 1]);
        }
        assert(p.element.bytes().len() > 0);
        lemma_place(file, pos + p.element.id.len() + p.element.width, p);
        lemma_id_range(p.target);
        vstd::arithmetic::power2::lemma2_to64();
        vstd::arithmetic::div_mod::lemma_small_mod(
            grammar::big_endian(p.target),
            vstd::arithmetic::power2::pow2(64),
        );
        let one = (grammar::big_endian(p.target), p.position.0 as nat);
        lemma_entries(file, pos + p.element.bytes().len(), less, found.push(one));
        assert(found.push(one) + said(less) =~= found + said(places));
    }
}

proof fn lemma_position(places: Seq<Place>, id: Seq<u8>, wanted: u64, start: int, at: u64)
    requires
        is_id(id),
        wanted == grammar::big_endian(id),
        forall|i: int| 0 <= i < places.len() ==> (#[trigger] places[i]).valid(),
        gives(places, id, at),
        0 <= start,
        start + at <= u64::MAX,
    ensures
        grammar::position_of(said(places), wanted, start, None) == Some(start + at),
    decreases places.len(),
{
    let last = places.last();
    let less = places.drop_last();
    let l = said(places);
    assert(l.last() == (grammar::big_endian(last.target), last.position.0 as nat));
    assert(places[places.len() - 1] == last);
    assert(last.valid());
    if last.target == id {
        assert(last.position.0 == at);
        vstd::arithmetic::power2::lemma2_to64();
        vstd::arithmetic::div_mod::lemma_small_mod(
            (start + at) as nat,
            vstd::arithmetic::power2::pow2(64),
        );
    } else {
        if grammar::big_endian(last.target) == wanted {
            lemma_ids(last.target, id);
        }
        let i = choose|i: int|
            {
                &&& 0 <= i < places.len()
                &&& (#[trigger] places[i]).target == id
                &&& places[i].position.0 == at
                &&& forall|j: int| i < j < places.len() ==> (#[trigger] places[j]).target != id
            };
        assert(less[i] == places[i]);
        assert forall|j: int| i < j < less.len() implies (#[trigger] less[j]).target != id by {
            assert(less[j] == places[j]);
        }
        assert(gives(less, id, at));
        assert forall|k: int| 0 <= k < less.len() implies (#[trigger] less[k]).valid() by {
            assert(less[k] == places[k]);
        }
        lemma_position(less, id, wanted, start, at);
        assert(l.drop_last() =~= said(less));
    }
}

proof fn lemma_no_position(places: Seq<Place>, id: Seq<u8>, wanted: u64, start: int)
    requires
        is_id(id),
        wanted == grammar::big_endian(id),
        forall|i: int| 0 <= i < places.len() ==> (#[trigger] places[i]).valid(),
        gives_none(places, id),
    ensures
        grammar::position_of(said(places), wanted, start, None) is None,
    decreases places.len(),
{
    if places.len() > 0 {
        let last = places.last();
        let less = places.drop_last();
        let l = said(places);
        assert(l.last() == (grammar::big_endian(last.target), last.position.0 as nat));
        assert(places[places.len() - 1] == last);
        if grammar::big_endian(last.target) == wanted {
            lemma_ids(last.target, id);
        }
        assert forall|k: int| 0 <= k < less.len() implies (#[trigger] less[k]).valid()
            && less[k].target != id by {
            assert(less[k] == places[k]);
        }
        lemma_no_position(less, id, wanted, start);
        assert(l.drop_last() =~= said(less));
    }
}

/// The list of positions among the children of the segment.
proof fn lemma_list_here(
    file: Seq<u8>,
    start: int,
    pos: int,
    limit: int,
    list: Element,
    places: Seq<Place>,
    cues_at: u64,
    info_at: Option<u64>,
)
    requires
        stands(file, pos, list.bytes()),
        is_list(list, places),
        pos < limit,
        0 <= start,
        gives(places, seq![0x1Cu8, 0x53u8, 0xBBu8, 0x6Bu8], cues_at),
        start + cues_at <= u64::MAX,
        match info_at {
            Some(at) => gives(places, seq![0x15u8, 0x49u8, 0xA9u8, 0x66u8], at) && start + at
                <= u64::MAX,
            None => gives_none(places, seq![0x15u8, 0x49u8, 0xA9u8, 0x66u8]),
        },
    ensures
        grammar::scan_at(laws::whole(file), start, pos, limit, None, 1_000_000)
            == grammar::Outcome::Value(
            grammar::Scan::Positions {
                cues: Some(start + cues_at),
                info: match info_at {
                    Some(at) => Some(start + at),
                    None => None,
                },
                scale: 1_000_000,
            },
        ),
{
    let cues = seq![0x1Cu8, 0x53u8, 0xBBu8, 0x6Bu8];
    let info = seq![0x15u8, 0x49u8, 0xA9u8, 0x66u8];
    lemma_known_ids();
    lemma_element(file, pos, list);
    lemma_entries(file, pos + list.id.len() + list.width, places, Seq::empty());
    assert(Seq::<(nat, nat)>::empty() + said(places) =~= said(places));
    lemma_position(places, cues, grammar::ID_CUES, start, cues_at);
    match info_at {
        Some(at) => lemma_position(places, info, grammar::ID_INFO, start, at),
        None => lemma_no_position(places, info, grammar::ID_INFO, start),
    }
}

proof fn lemma_index_there(file: Seq<u8>, pos: int, scale: u64, index: Element, cues: Seq<Cue>)
    requires
        stands(file, pos, index.bytes()),
        is_index(index, cues),
    ensures
        answers(
            grammar::indexed_at(laws::whole(file), pos, scale as nat),
            ticks_of(cues),
            scale,
        ),
{
    lemma_known_ids();
    lemma_element(file, pos, index);
    lemma_cues(file, pos + index.id.len() + index.width, cues, Seq::empty());
    assert(Seq::<u64>::empty() + ticks_of(cues) =~= ticks_of(cues));
    lemma_answers(ticks_of(cues), scale);
}

proof fn lemma_info_there(file: Seq<u8>, pos: int, info: Element, body: Holder)
    requires
        stands(file, pos, info.bytes()),
        is_info(info, body),
    ensures
        grammar::scale_from(laws::whole(file), pos) == grammar::Outcome::Value(
            tick_of(body) as nat,
        ),
{
    lemma_element(file, pos, info);
    lemma_scale(file, pos + info.id.len() + info.width, body);
}

/// An index anywhere in a file is found by the position that the list of positions gives for
/// it, counted from the beginning of the segment's children; and so is the general information
/// with the length of a tick, which is a millisecond where the list gives no position for it.
/// The keyframes are the times of those of the entries that have one, in order of time.
pub proof fn an_index_is_found_by_its_position(
    file: Seq<u8>,
    header: Element,
    segment_size: nat,
    segment_width: nat,
    before: Seq<Element>,
    list: Element,
    places: Seq<Place>,
    rest: Seq<u8>,
    cues_at: u64,
    index: Element,
    cues: Seq<Cue>,
    info: Option<(u64, Element, Holder)>,
)
    requires
        opens(header, segment_size, segment_width),
        plain(before),
        is_list(list, places),
        stretch(before).len() < 131_072,
        file == opening(header, segment_size, segment_width) + (stretch(before) + (list.bytes()
            + rest)),
        file.len() <= u64::MAX,
        gives(places, seq![0x1Cu8, 0x53u8, 0xBBu8, 0x6Bu8], cues_at),
        is_index(index, cues),
        stands(
            file,
            opening(header, segment_size, segment_width).len() + cues_at,
            index.bytes(),
        ),
        match info {
            Some((at, element, body)) => {
                &&& gives(places, seq![0x15u8, 0x49u8, 0xA9u8, 0x66u8], at)
                &&& is_info(element, body)
                &&& stands(
                    file,
                    opening(header, segment_size, segment_width).len() + at,
                    element.bytes(),
                )
            },
            None => gives_none(places, seq![0x15u8, 0x49u8, 0xA9u8, 0x66u8]),
        },
    ensures
        answers(
            grammar::keyframes(laws::whole(file)),
            ticks_of(cues),
            match info {
                Some((_, _, body)) => tick_of(body),
                None => 1_000_000,
            },
        ),
{
    let open = opening(header, segment_size, segment_width);
    let start = open.len() as int;
    let limit = start + 131_072;
    let a = stretch(before);
    let b = list.bytes();
    assert(file.subrange(0, file.len() as int) =~= file);
    lemma_parts(file, 0, open, a + (b + rest));
    lemma_parts(file, start, a, b + rest);
    lemma_parts(file, start + a.len(), b, rest);
    lemma_opening(file, header, segment_size, segment_width);
    lemma_passed(file, start, start, limit, None, 1_000_000, before);
    let info_at = match info {
        Some((at, _, _)) => Some(at),
        None => None,
    };
    lemma_list_here(file, start, start + a.len(), limit, list, places, cues_at, info_at);
    match info {
        Some((at, element, body)) => {
            lemma_info_there(file, start + at, element, body);
            lemma_index_there(file, start + cues_at, tick_of(body), index, cues);
        },
        None => {
            lemma_index_there(file, start + cues_at, 1_000_000, index, cues);
        },
    }
}

}
