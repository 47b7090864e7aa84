//! What holds of the keyframes that are read off an index, however the file was read.
use super::grammar;
use super::Window;
use super::READAHEAD;
use vstd::prelude::*;

verus! {

// ── Sources that know more ───────────────────────────────────────────────────

/// Whether the second source says the same as the first, wherever the first says anything of
/// a stretch that can be asked for.
pub open spec fn refines(
    a: spec_fn(int, int) -> grammar::Fetched,
    b: spec_fn(int, int) -> grammar::Fetched,
) -> bool {
    forall|pos: int, n: int|
        0 < n <= 64 && !(#[trigger] a(pos, n) is Missing) ==> a(pos, n) == b(pos, n)
}

/// Whether the source does not know a stretch at `at` that can be asked for.
pub open spec fn unknown_at(src: spec_fn(int, int) -> grammar::Fetched, at: int) -> bool {
    exists|n: int| 0 < n <= 64 && #[trigger] src(at, n) is Missing
}

/// Whether a result is kept, or asks for a position that is unknown.
pub open spec fn kept<A>(
    src: spec_fn(int, int) -> grammar::Fetched,
    a: grammar::Outcome<A>,
    b: grammar::Outcome<A>,
) -> bool {
    match a {
        grammar::Outcome::Missing(at) => unknown_at(src, at),
        _ => a == b,
    }
}

proof fn lemma_byte(
    a: spec_fn(int, int) -> grammar::Fetched,
    b: spec_fn(int, int) -> grammar::Fetched,
    pos: int,
)
    requires
        refines(a, b),
    ensures
        kept(a, grammar::byte_at(a, pos), grammar::byte_at(b, pos)),
{
    let x = a(pos, 1);
}

proof fn lemma_run(
    a: spec_fn(int, int) -> grammar::Fetched,
    b: spec_fn(int, int) -> grammar::Fetched,
    pos: int,
    k: nat,
)
    requires
        refines(a, b),
    ensures
        kept(a, grammar::run_at(a, pos, k), grammar::run_at(b, pos, k)),
    decreases k,
{
    if k > 0 {
        lemma_run(a, b, pos, (k - 1) as nat);
        lemma_byte(a, b, pos + k - 1);
    }
}

proof fn lemma_id(
    a: spec_fn(int, int) -> grammar::Fetched,
    b: spec_fn(int, int) -> grammar::Fetched,
    pos: int,
)
    requires
        refines(a, b),
    ensures
        kept(a, grammar::id_at(a, pos), grammar::id_at(b, pos)),
{
    lemma_byte(a, b, pos);
    match grammar::byte_at(a, pos) {
        grammar::Outcome::Value(first) => lemma_run(a, b, pos, grammar::id_width(first)),
        _ => {},
    }
}

proof fn lemma_size(
    a: spec_fn(int, int) -> grammar::Fetched,
    b: spec_fn(int, int) -> grammar::Fetched,
    pos: int,
)
    requires
        refines(a, b),
    ensures
        kept(a, grammar::size_at(a, pos), grammar::size_at(b, pos)),
{
    lemma_byte(a, b, pos);
    match grammar::byte_at(a, pos) {
        grammar::Outcome::Value(first) => lemma_run(a, b, pos, grammar::size_width(first)),
        _ => {},
    }
}

proof fn lemma_header(
    a: spec_fn(int, int) -> grammar::Fetched,
    b: spec_fn(int, int) -> grammar::Fetched,
    pos: int,
    unknown: nat,
)
    requires
        refines(a, b),
    ensures
        kept(a, grammar::header_at(a, pos, unknown), grammar::header_at(b, pos, unknown)),
{
    lemma_id(a, b, pos);
    match grammar::id_at(a, pos) {
        grammar::Outcome::Value((id, behind)) => lemma_size(a, b, behind),
        _ => {},
    }
}

proof fn lemma_uint(
    a: spec_fn(int, int) -> grammar::Fetched,
    b: spec_fn(int, int) -> grammar::Fetched,
    pos: int,
    n: nat,
)
    requires
        refines(a, b),
    ensures
        kept(a, grammar::uint_at(a, pos, n), grammar::uint_at(b, pos, n)),
{
    if n <= 8 {
        lemma_run(a, b, pos, n);
    }
}

proof fn lemma_binary(
    a: spec_fn(int, int) -> grammar::Fetched,
    b: spec_fn(int, int) -> grammar::Fetched,
    pos: int,
    n: nat,
)
    requires
        refines(a, b),
    ensures
        kept(a, grammar::binary_at(a, pos, n), grammar::binary_at(b, pos, n)),
{
    let x = a(pos, n as int);
}

proof fn lemma_entry(
    a: spec_fn(int, int) -> grammar::Fetched,
    b: spec_fn(int, int) -> grammar::Fetched,
    pos: int,
    end: int,
    id: Option<Seq<u8>>,
    position: Option<nat>,
)
    requires
        refines(a, b),
    ensures
        kept(a, grammar::entry_at(a, pos, end, id, position), grammar::entry_at(b, pos, end, id, position)),
    decreases grammar::to_go(pos, end),
{
    if pos < end {
        lemma_header(a, b, pos, 0);
        match grammar::header_at(a, pos, 0) {
            grammar::Outcome::Value((kind, size, body)) => {
                if kind == grammar::ID_SEEK_ID {
                    lemma_binary(a, b, body, size);
                    match grammar::binary_at(a, body, size) {
                        grammar::Outcome::Value(v) => lemma_entry(
                            a,
                            b,
                            body + size,
                            end,
                            Some(v),
                            position,
                        ),
                        _ => {},
                    }
                } else if kind == grammar::ID_SEEK_POSITION {
                    lemma_uint(a, b, body, size);
                    match grammar::uint_at(a, body, size) {
                        grammar::Outcome::Value(v) => lemma_entry(
                            a,
                            b,
                            body + size,
                            end,
                            id,
                            Some(v),
                        ),
                        _ => {},
                    }
                } else {
                    lemma_entry(a, b, body + size, end, id, position);
                }
            },
            _ => {},
        }
    }
}

proof fn lemma_entries(
    a: spec_fn(int, int) -> grammar::Fetched,
    b: spec_fn(int, int) -> grammar::Fetched,
    pos: int,
    end: int,
    found: Seq<(nat, nat)>,
)
    requires
        refines(a, b),
    ensures
        kept(a, grammar::entries_at(a, pos, end, found), grammar::entries_at(b, pos, end, found)),
    decreases grammar::to_go(pos, end),
{
    if pos < end {
        lemma_header(a, b, pos, 0);
        match grammar::header_at(a, pos, 0) {
            grammar::Outcome::Value((kind, size, body)) => {
                if kind == grammar::ID_SEEK {
                    lemma_entry(a, b, body, body + size, None, None);
                    match grammar::entry_at(a, body, body + size, None, None) {
                        grammar::Outcome::Value((Some(id), Some(position))) => {
                            let more = found.push((grammar::short_id(id), position));
                            lemma_entries(a, b, body + size, end, more);
                        },
                        grammar::Outcome::Value(_) => lemma_entries(
                            a,
                            b,
                            body + size,
                            end,
                            found,
                        ),
                        _ => {},
                    }
                } else {
                    lemma_entries(a, b, body + size, end, found);
                }
            },
            _ => {},
        }
    }
}

proof fn lemma_scale(
    a: spec_fn(int, int) -> grammar::Fetched,
    b: spec_fn(int, int) -> grammar::Fetched,
    pos: int,
    end: int,
)
    requires
        refines(a, b),
    ensures
        kept(a, grammar::scale_at(a, pos, end), grammar::scale_at(b, pos, end)),
    decreases grammar::to_go(pos, end),
{
    if pos < end {
        lemma_header(a, b, pos, 0);
        match grammar::header_at(a, pos, 0) {
            grammar::Outcome::Value((kind, size, body)) => {
                if kind == grammar::ID_TIMESTAMP_SCALE {
                    lemma_uint(a, b, body, size);
                } else {
                    lemma_scale(a, b, body + size, end);
                }
            },
            _ => {},
        }
    }
}

proof fn lemma_cue_time(
    a: spec_fn(int, int) -> grammar::Fetched,
    b: spec_fn(int, int) -> grammar::Fetched,
    pos: int,
    end: int,
)
    requires
        refines(a, b),
    ensures
        kept(a, grammar::cue_time_at(a, pos, end), grammar::cue_time_at(b, pos, end)),
    decreases grammar::to_go(pos, end),
{
    if pos < end {
        lemma_header(a, b, pos, 0);
        match grammar::header_at(a, pos, 0) {
            grammar::Outcome::Value((kind, size, body)) => {
                if kind == grammar::ID_CUE_TIME {
                    lemma_uint(a, b, body, size);
                } else {
                    lemma_cue_time(a, b, body + size, end);
                }
            },
            _ => {},
        }
    }
}

proof fn lemma_cues(
    a: spec_fn(int, int) -> grammar::Fetched,
    b: spec_fn(int, int) -> grammar::Fetched,
    pos: int,
    end: int,
    found: Seq<u64>,
)
    requires
        refines(a, b),
    ensures
        kept(a, grammar::cues_at(a, pos, end, found), grammar::cues_at(b, pos, end, found)),
    decreases grammar::to_go(pos, end),
{
    if pos < end {
        lemma_header(a, b, pos, 0);
        match grammar::header_at(a, pos, 0) {
            grammar::Outcome::Value((kind, size, body)) => {
                if kind == grammar::ID_CUE_POINT {
                    lemma_cue_time(a, b, body, body + size);
                    match grammar::cue_time_at(a, body, body + size) {
                        grammar::Outcome::Value(Some(t)) => lemma_cues(
                            a,
                            b,
                            body + size,
                            end,
                            found.push(t as u64),
                        ),
                        grammar::Outcome::Value(None) => lemma_cues(a, b, body + size, end, found),
                        _ => {},
                    }
                } else {
                    lemma_cues(a, b, body + size, end, found);
                }
            },
            _ => {},
        }
    }
}

proof fn lemma_scan(
    a: spec_fn(int, int) -> grammar::Fetched,
    b: spec_fn(int, int) -> grammar::Fetched,
    start: int,
    pos: int,
    limit: int,
    info: Option<int>,
    scale: nat,
)
    requires
        refines(a, b),
    ensures
        kept(a, grammar::scan_at(a, start, pos, limit, info, scale), grammar::scan_at(b, start, pos, limit, info, scale)),
    decreases grammar::to_go(pos, limit),
{
    if pos < limit {
        lemma_id(a, b, pos);
        match grammar::id_at(a, pos) {
            grammar::Outcome::Value((kind, behind)) => {
                lemma_size(a, b, behind);
                match grammar::size_at(a, behind) {
                    grammar::Outcome::Value((Some(size), body)) => {
                        let next = body + size;
                        if kind == grammar::ID_SEEKHEAD {
                            lemma_entries(a, b, body, next, Seq::empty());
                            match grammar::entries_at(a, body, next, Seq::empty()) {
                                grammar::Outcome::Value(entries) => {
                                    let more = grammar::position_of(
                                        entries,
                                        grammar::ID_INFO,
                                        start,
                                        info,
                                    );
                                    lemma_scan(a, b, start, next, limit, more, scale);
                                },
                                _ => {},
                            }
                        } else if kind == grammar::ID_INFO {
                            lemma_scale(a, b, body, next);
                            match grammar::scale_at(a, body, next) {
                                grammar::Outcome::Value(n) => lemma_scan(
                                    a,
                                    b,
                                    start,
                                    next,
                                    limit,
                                    info,
                                    n,
                                ),
                                _ => {},
                            }
                        } else if kind == grammar::ID_CUES {
                            lemma_cues(a, b, body, next, Seq::empty());
                        } else {
                            lemma_scan(a, b, start, next, limit, info, scale);
                        }
                    },
                    _ => {},
                }
            },
            _ => {},
        }
    }
}

proof fn lemma_indexed(
    a: spec_fn(int, int) -> grammar::Fetched,
    b: spec_fn(int, int) -> grammar::Fetched,
    pos: int,
    scale: nat,
)
    requires
        refines(a, b),
    ensures
        kept(a, grammar::indexed_at(a, pos, scale), grammar::indexed_at(b, pos, scale)),
{
    lemma_id(a, b, pos);
    match grammar::id_at(a, pos) {
        grammar::Outcome::Value((kind, behind)) => {
            lemma_size(a, b, behind);
            match grammar::size_at(a, behind) {
                grammar::Outcome::Value((size, body)) => {
                    let length = match size {
                        Some(n) => n,
                        None => grammar::ENDLESS as nat,
                    };
                    lemma_cues(a, b, body, body + length, Seq::empty());
                },
                _ => {},
            }
        },
        _ => {},
    }
}

proof fn lemma_scale_from(
    a: spec_fn(int, int) -> grammar::Fetched,
    b: spec_fn(int, int) -> grammar::Fetched,
    pos: int,
)
    requires
        refines(a, b),
    ensures
        kept(a, grammar::scale_from(a, pos), grammar::scale_from(b, pos)),
{
    lemma_header(a, b, pos, 0);
    match grammar::header_at(a, pos, 0) {
        grammar::Outcome::Value((_, size, body)) => lemma_scale(a, b, body, body + size),
        _ => {},
    }
}

proof fn lemma_segment(
    a: spec_fn(int, int) -> grammar::Fetched,
    b: spec_fn(int, int) -> grammar::Fetched,
    start: int,
)
    requires
        refines(a, b),
    ensures
        kept(a, grammar::segment_keyframes(a, start), grammar::segment_keyframes(b, start)),
{
    let limit = start + grammar::SCAN_LENGTH;
    let usual = grammar::DEFAULT_TIMESTAMP_SCALE_NS as nat;
    lemma_scan(a, b, start, start, limit, None, usual);
    match grammar::scan_at(a, start, start, limit, None, usual) {
        grammar::Outcome::Value(grammar::Scan::Positions { cues, info, scale }) => {
            if let Some(at) = info {
                lemma_scale_from(a, b, at);
            }
            let stated = match info {
                Some(at) => grammar::scale_from(a, at),
                None => grammar::Outcome::Value(scale),
            };
            match (stated, cues) {
                (grammar::Outcome::Value(scale), Some(at)) => lemma_indexed(a, b, at, scale),
                _ => {},
            }
        },
        _ => {},
    }
}

/// Where a source knows more, the answer stays what it was; an answer that asks for a
/// position asks for one that is unknown.
pub proof fn knowing_more_keeps_the_answer(
    a: spec_fn(int, int) -> grammar::Fetched,
    b: spec_fn(int, int) -> grammar::Fetched,
)
    requires
        refines(a, b),
    ensures
        kept(a, grammar::keyframes(a), grammar::keyframes(b)),
{
    lemma_id(a, b, 0);
    match grammar::id_at(a, 0) {
        grammar::Outcome::Value((kind, behind)) => {
            lemma_size(a, b, behind);
            match grammar::size_at(a, behind) {
                grammar::Outcome::Value((size, body)) => {
                    let segment = body + match size {
                        Some(n) => n,
                        None => 0,
                    };
                    lemma_id(a, b, segment);
                    match grammar::id_at(a, segment) {
                        grammar::Outcome::Value((kind, behind)) => {
                            lemma_size(a, b, behind);
                            match grammar::size_at(a, behind) {
                                grammar::Outcome::Value((_, start)) => lemma_segment(a, b, start),
                                _ => {},
                            }
                        },
                        _ => {},
                    }
                },
                _ => {},
            }
        },
        _ => {},
    }
}

// ── Windows ──────────────────────────────────────────────────────────────────

proof fn lemma_shown_appended(ws: Seq<Window>, more: Seq<Window>, pos: int, n: int)
    ensures
        !(super::shown(ws, pos, n) is Missing) ==> super::shown(ws + more, pos, n) == super::shown(
            ws,
            pos,
            n,
        ),
    decreases ws.len(),
{
    if ws.len() > 0 {
        lemma_shown_appended(ws.drop_first(), more, pos, n);
        assert((ws + more).drop_first() =~= ws.drop_first() + more);
        assert((ws + more)[0] == ws[0]);
    }
}

/// Once the windows suffice, reading more of the file does not change the answer.
pub proof fn more_windows_keep_the_answer(ws: Seq<Window>, more: Seq<Window>)
    requires
        !(grammar::keyframes(super::source(ws)) is Missing),
    ensures
        grammar::keyframes(super::source(ws + more)) == grammar::keyframes(super::source(ws)),
{
    let a = super::source(ws);
    let b = super::source(ws + more);
    assert forall|pos: int, n: int| 0 < n <= 64 && !(#[trigger] a(pos, n) is Missing) implies a(
        pos,
        n,
    ) == b(pos, n) by {
        lemma_shown_appended(ws, more, pos, n);
    }
    knowing_more_keeps_the_answer(a, b);
}

proof fn lemma_missing_is_unread(ws: Seq<Window>, pos: int, n: int)
    requires
        super::shown(ws, pos, n) is Missing,
    ensures
        forall|i: int| 0 <= i < ws.len() ==> (#[trigger] ws[i]).offset != pos,
    decreases ws.len(),
{
    if ws.len() > 0 {
        let rest = ws.drop_first();
        lemma_missing_is_unread(rest, pos, n);
        assert forall|i: int| 0 <= i < ws.len() implies (#[trigger] ws[i]).offset != pos by {
            if i > 0 {
                assert(ws[i] == rest[i - 1]);
            }
        }
    }
}

/// A position that has to be read first has not been read yet: nothing is read twice.
pub proof fn nothing_is_read_twice(ws: Seq<Window>, at: int)
    requires
        grammar::keyframes(super::source(ws)) == grammar::Outcome::<Seq<u128>>::Missing(at),
    ensures
        forall|i: int| 0 <= i < ws.len() ==> (#[trigger] ws[i]).offset != at,
{
    let a = super::source(ws);
    knowing_more_keeps_the_answer(a, a);
    let n = choose|n: int| 0 < n <= 64 && #[trigger] a(at, n) is Missing;
    lemma_missing_is_unread(ws, at, n);
}

// ── Files ────────────────────────────────────────────────────────────────────

/// A file that is known from its beginning to its end, as a source of bytes.
pub open spec fn whole(file: Seq<u8>) -> spec_fn(int, int) -> grammar::Fetched {
    |pos: int, n: int|
        if 0 <= pos && pos + n <= file.len() {
            grammar::Fetched::Bytes(file.subrange(pos, pos + n))
        } else if pos < file.len() {
            grammar::Fetched::Fault("EOF in read_exact_buf"@)
        } else {
            grammar::Fetched::Fault("EOF"@)
        }
}

/// Whether the window is what a read of the file at its offset gives.
pub open spec fn window_of(w: Window, file: Seq<u8>) -> bool {
    w.result matches Ok(data) && data@ == if w.offset >= file.len() {
        Seq::empty()
    } else if w.offset + READAHEAD <= file.len() {
        file.subrange(w.offset as int, w.offset + READAHEAD)
    } else {
        file.skip(w.offset as int)
    }
}

proof fn lemma_shown_of_file(ws: Seq<Window>, file: Seq<u8>, pos: int, n: int)
    requires
        0 < n <= 64,
        forall|i: int| 0 <= i < ws.len() ==> window_of(#[trigger] ws[i], file),
    ensures
        !(super::shown(ws, pos, n) is Missing) ==> super::shown(ws, pos, n) == whole(file)(pos, n),
    decreases ws.len(),
{
    if ws.len() > 0 {
        let rest = ws.drop_first();
        assert forall|i: int| 0 <= i < rest.len() implies window_of(#[trigger] rest[i], file) by {
            assert(rest[i] == ws[i + 1]);
        }
        lemma_shown_of_file(rest, file, pos, n);
        let w = ws[0];
        assert(window_of(w, file));
        if let Ok(data) = w.result {
            if w.offset <= pos && pos + n <= w.offset + data@.len() {
                assert(data@.subrange(pos - w.offset, pos - w.offset + n) =~= file.subrange(
                    pos,
                    pos + n,
                ));
            }
        }
    }
}

/// What was read is known: of a file from which so many bytes at a time are read, all that a
/// window holds is shown as it stands in the file, and a window behind the end tells so.
pub proof fn what_was_read_is_known(ws: Seq<Window>, file: Seq<u8>, k: int, pos: int, n: int)
    requires
        0 < n <= 64,
        forall|i: int|
            0 <= i < ws.len() ==> (#[trigger] ws[i]).result is Ok && ws[i].result->Ok_0@ == if ws[i].offset
                >= file.len() {
                Seq::empty()
            } else if ws[i].offset + 65_536 <= file.len() {
                file.subrange(ws[i].offset as int, ws[i].offset + 65_536)
            } else {
                file.skip(ws[i].offset as int)
            },
        0 <= k < ws.len(),
    ensures
        ws[k].offset <= pos && pos + n <= ws[k].offset + 65_536 && pos + n <= file.len()
            ==> super::shown(ws, pos, n) == grammar::Fetched::Bytes(file.subrange(pos, pos + n)),
        ws[k].offset == pos && pos < file.len() < pos + n ==> super::shown(ws, pos, n)
            == grammar::Fetched::Fault("EOF in read_exact_buf"@),
        ws[k].offset == pos && pos >= file.len() ==> super::shown(ws, pos, n)
            == grammar::Fetched::Fault("EOF"@),
{
    assert(forall|i: int| 0 <= i < ws.len() ==> window_of(#[trigger] ws[i], file));
    lemma_shown_of_file(ws, file, pos, n);
    if !(super::shown_by(ws[k], pos, n) is Missing) {
        lemma_shown_where_one_shows(ws, k, pos, n);
    }
}

proof fn lemma_shown_where_one_shows(ws: Seq<Window>, k: int, pos: int, n: int)
    requires
        0 <= k < ws.len(),
        !(super::shown_by(ws[k], pos, n) is Missing),
    ensures
        !(super::shown(ws, pos, n) is Missing),
    decreases ws.len(),
{
    if k > 0 {
        assert(ws.drop_first()[k - 1] == ws[k]);
        lemma_shown_where_one_shows(ws.drop_first(), k - 1, pos, n);
    }
}

/// The keyframes depend on the file alone: whichever windows of it were read, and in
/// whatever order, the answer is that of the whole file.
pub proof fn answer_is_that_of_the_file(ws: Seq<Window>, file: Seq<u8>)
    requires
        forall|i: int| 0 <= i < ws.len() ==> window_of(#[trigger] ws[i], file),
        !(grammar::keyframes(super::source(ws)) is Missing),
    ensures
        grammar::keyframes(super::source(ws)) == grammar::keyframes(whole(file)),
{
    let a = super::source(ws);
    let b = whole(file);
    assert forall|pos: int, n: int| 0 < n <= 64 && !(#[trigger] a(pos, n) is Missing) implies a(
        pos,
        n,
    ) == b(pos, n) by {
        lemma_shown_of_file(ws, file, pos, n);
    }
    knowing_more_keeps_the_answer(a, b);
}

/// Of a file that is known whole, nothing has to be read first.
pub proof fn whole_file_suffices(file: Seq<u8>)
    ensures
        !(grammar::keyframes(whole(file)) is Missing),
{
    knowing_more_keeps_the_answer(whole(file), whole(file));
}

/// Keyframes that are found are in order of time, and there is one at least.
pub proof fn keyframes_are_in_order(src: spec_fn(int, int) -> grammar::Fetched)
    requires
        grammar::keyframes(src) is Value,
    ensures
        ({
            let times = grammar::keyframes(src)->Value_0;
            &&& times.len() > 0
            &&& forall|i: int, j: int| 0 <= i < j < times.len() ==> times[i] <= times[j]
        }),
{
    let times = grammar::keyframes(src)->Value_0;
    assert(exists|ticks: Seq<u64>, scale: nat|
        ticks.len() > 0 && times == #[trigger] grammar::times_of(ticks, scale));
    let (ticks, scale) = choose|ticks: Seq<u64>, scale: nat|
        ticks.len() > 0 && times == #[trigger] grammar::times_of(ticks, scale);
    let plain = ticks.map_values(|t: u64| (t * scale) as u128);
    let leq = grammar::ascending();
    assert(vstd::relations::total_ordering(leq));
    plain.lemma_sort_by_ensures(leq);
    broadcast use vstd::seq_lib::group_to_multiset_ensures;

    assert(times.to_multiset().len() == plain.to_multiset().len());
    assert(times.len() == plain.len());
    assert forall|i: int, j: int| 0 <= i < j < times.len() implies times[i] <= times[j] by {
        assert(leq(times[i], times[j]));
    }
}

}
