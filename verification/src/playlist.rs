//! The playlist that a client is given before any segment is written.
use crate::number;
use crate::segments;
use crate::segments::segment_name_text;
use crate::text;
use vstd::prelude::*;
use vstd::string::*;

verus! {

broadcast use vstd::string::group_string_axioms;

/// Nanoseconds in a second. Times are whole numbers of nanoseconds throughout.
pub const SECOND: u128 = 1_000_000_000;

/// The container of the segments.
#[derive(Debug, Clone, Copy, PartialEq, Eq, Structural)]
pub enum HlsSegmentType {
    Fmp4,
    Mpegts,
}

impl HlsSegmentType {
    /// The extension of the segments' names.
    pub open spec fn ext(self) -> Seq<char> {
        match self {
            HlsSegmentType::Fmp4 => "tokimo"@,
            HlsSegmentType::Mpegts => "ts"@,
        }
    }

    /// The extension of the segments' names.
    pub fn extension(self) -> (r: &'static str)
        ensures
            r@ == self.ext(),
    {
        match self {
            HlsSegmentType::Fmp4 => "tokimo",
            HlsSegmentType::Mpegts => "ts",
        }
    }
}

/// A stretch of the media file.
#[derive(Debug, Clone, Copy)]
pub struct Segment {
    pub start: u128,
    pub duration: u128,
}

// ── Where the media file is cut ──────────────────────────────────────────────

/// The smaller of two numbers.
pub open spec fn smaller(a: int, b: int) -> int {
    if a <= b {
        a
    } else {
        b
    }
}

/// The quotient, rounded up.
pub open spec fn quotient_up(a: int, b: int) -> int {
    (a + b - 1) / b
}

/// How far apart two times are.
pub open spec fn distance(a: int, b: int) -> int {
    if a <= b {
        b - a
    } else {
        a - b
    }
}

/// Whether a keyframe of the list lies at `time`.
pub open spec fn listed(kfs: Seq<u128>, time: int) -> bool {
    exists|k: int| 0 <= k < kfs.len() && #[trigger] kfs[k] == time
}

/// The keyframe nearest to `target` among those behind `after` and before `before`: the
/// first of those that are equally near.
pub open spec fn nearest(kfs: Seq<u128>, after: int, before: int, target: int) -> Option<u128>
    decreases kfs.len(),
{
    if kfs.len() == 0 {
        None
    } else {
        let sooner = nearest(kfs.drop_last(), after, before, target);
        let last = kfs.last();
        if !(after < last < before) {
            sooner
        } else {
            match sooner {
                Some(kf) => if distance(last as int, target) < distance(kf as int, target) {
                    Some(last)
                } else {
                    Some(kf)
                },
                None => Some(last),
            }
        }
    }
}

/// Where the media file is cut for the first `n` multiples of the desired length: at its
/// beginning, and for each multiple at the keyframe nearest to it that lies behind the cut
/// before. A multiple behind which no keyframe is left makes no cut.
pub open spec fn cuts(kfs: Seq<u128>, desired: int, duration: int, n: nat) -> Seq<int>
    decreases n,
{
    if n == 0 {
        seq![0]
    } else {
        let before = cuts(kfs, desired, duration, (n - 1) as nat);
        match nearest(kfs, before.last(), duration, n * desired) {
            Some(kf) => before.push(kf as int),
            None => before,
        }
    }
}

/// The number of multiples of the desired length that lie within the media file.
pub open spec fn boundaries(desired: int, duration: int) -> nat {
    if duration <= desired {
        0
    } else {
        (quotient_up(duration, desired) - 1) as nat
    }
}

/// The stretches between the cuts, and that from the last cut to the end.
pub open spec fn between(cuts: Seq<int>, duration: int) -> Seq<(int, int)> {
    Seq::new(
        cuts.len(),
        |i: int|
            (
                cuts[i],
                if i + 1 < cuts.len() {
                    cuts[i + 1] - cuts[i]
                } else {
                    duration - cuts[i]
                },
            ),
    )
}

/// The segments, each with its start and its duration: cut at keyframes where they are
/// known, else of equal length, but for the last.
pub open spec fn vod_segments(duration: int, length: int, keyframes: Option<Seq<u128>>) -> Seq<
    (int, int),
> {
    if duration == 0 {
        Seq::empty()
    } else {
        match keyframes {
            Some(kfs) => between(
                cuts(kfs, length, duration, boundaries(length, duration)),
                duration,
            ),
            None => Seq::new(
                quotient_up(duration, length) as nat,
                |i: int| (i * length, smaller(duration - i * length, length)),
            ),
        }
    }
}

/// What a list of segments says.
pub open spec fn stretches(list: Seq<Segment>) -> Seq<(int, int)> {
    list.map_values(|s: Segment| (s.start as int, s.duration as int))
}

fn find_nearest(kfs: &[u128], after: u128, before: u128, target: u128) -> (r: Option<u128>)
    ensures
        r == nearest(kfs@, after as int, before as int, target as int),
{
    let n: usize = kfs.len();
    let mut best: Option<u128> = None;
    let mut i: usize = 0;
    while i < n
        invariant
            n == kfs@.len(),
            i <= n,
            best == nearest(kfs@.take(i as int), after as int, before as int, target as int),
        decreases n - i,
    {
        let kf: u128 = kfs[i];
        proof {
            assert(kfs@.take(i + 1).drop_last() =~= kfs@.take(i as int));
            assert(kfs@.take(i + 1).last() == kf);
        }
        if kf > after && kf < before {
            let nearer = match best {
                Some(b) => gap(kf, target) < gap(b, target),
                None => true,
            };
            if nearer {
                best = Some(kf);
            }
        }
        i += 1;
    }
    assert(kfs@.take(n as int) =~= kfs@);
    best
}

fn gap(a: u128, b: u128) -> (r: u128)
    ensures
        r == distance(a as int, b as int),
{
    if a <= b {
        b - a
    } else {
        a - b
    }
}

proof fn lemma_boundaries(desired: int, duration: int, n: nat)
    requires
        desired > 0,
        duration > 0,
    ensures
        n <= boundaries(desired, duration) <==> n == 0 || n * desired < duration,
{
    let q = quotient_up(duration, desired);
    vstd::arithmetic::div_mod::lemma_fundamental_div_mod(duration + desired - 1, desired);
    vstd::arithmetic::div_mod::lemma_mod_bound(duration + desired - 1, desired);
    let r = (duration + desired - 1) % desired;
    assert(duration + desired - 1 == desired * q + r);
    assert(desired * q == desired * (q - 1) + desired) by (nonlinear_arith);
    assert(desired * (q - 1) < duration <= desired * q);
    if duration <= desired {
        if n >= 1 {
            assert(n * desired >= desired) by (nonlinear_arith)
                requires
                    n >= 1,
                    desired > 0,
            ;
        }
    } else {
        assert(q >= 1) by (nonlinear_arith)
            requires
                desired * q >= duration,
                duration > 0,
                desired > 0,
        ;
        if n <= q - 1 {
            assert(n * desired <= desired * (q - 1)) by (nonlinear_arith)
                requires
                    n <= q - 1,
                    desired > 0,
            ;
        } else {
            assert(n * desired >= desired * q) by (nonlinear_arith)
                requires
                    n >= q,
                    desired > 0,
            ;
        }
    }
}

proof fn lemma_cuts_ordered(kfs: Seq<u128>, desired: int, duration: int, n: nat)
    requires
        duration > 0,
    ensures
        cuts(kfs, desired, duration, n).len() > 0,
        cuts(kfs, desired, duration, n)[0] == 0,
        forall|i: int, j: int|
            0 <= i < j < cuts(kfs, desired, duration, n).len() ==> (#[trigger] cuts(
                kfs,
                desired,
                duration,
                n,
            )[i]) < #[trigger] cuts(kfs, desired, duration, n)[j],
        forall|i: int|
            0 <= i < cuts(kfs, desired, duration, n).len() ==> 0 <= #[trigger] cuts(
                kfs,
                desired,
                duration,
                n,
            )[i] < duration,
        forall|i: int|
            0 < i < cuts(kfs, desired, duration, n).len() ==> listed(
                kfs,
                #[trigger] cuts(kfs, desired, duration, n)[i],
            ),
    decreases n,
{
    if n > 0 {
        let before = cuts(kfs, desired, duration, (n - 1) as nat);
        lemma_cuts_ordered(kfs, desired, duration, (n - 1) as nat);
        nearest_is_nearest(kfs, before.last(), duration, n * desired);
        let all = cuts(kfs, desired, duration, n);
        match nearest(kfs, before.last(), duration, n * desired) {
            Some(kf) => {
                assert(all == before.push(kf as int));
                assert forall|i: int| 0 < i < all.len() implies listed(kfs, #[trigger] all[i]) by {
                    if i == before.len() {
                        let k = choose|k: int| 0 <= k < kfs.len() && kfs[k] == kf;
                        assert(kfs[k] as int == all[i]);
                    } else {
                        assert(all[i] == before[i]);
                    }
                }
            },
            None => {
                assert(all == before);
            },
        }
    }
}

/// Cuts the media file at keyframes.
pub fn compute_keyframe_segments(keyframes: &[u128], desired: u128, duration: u128) -> (r: Vec<
    Segment,
>)
    requires
        desired > 0 || duration == 0,
    ensures
        stretches(r@) == vod_segments(duration as int, desired as int, Some(keyframes@)),
{
    let mut result: Vec<Segment> = Vec::new();
    if duration == 0 {
        assert(stretches(result@) =~= Seq::empty());
        return result;
    }
    let mut last_cut: u128 = 0;
    let mut target: u128 = 0;
    let ghost mut n: nat = 0;
    let ghost all = boundaries(desired as int, duration as int);
    assert(n * desired == 0) by (nonlinear_arith)
        requires
            n == 0,
    ;
    while duration - target > desired
        invariant
            desired > 0,
            duration > 0,
            target < duration,
            target == n * desired,
            all == boundaries(desired as int, duration as int),
            last_cut == cuts(keyframes@, desired as int, duration as int, n).last(),
            last_cut < duration,
            result@.len() + 1 == cuts(keyframes@, desired as int, duration as int, n).len(),
            forall|i: int|
                0 <= i < result@.len() ==> {
                    let c = cuts(keyframes@, desired as int, duration as int, n);
                    (#[trigger] result@[i]).start == c[i] && result@[i].duration == c[i + 1] - c[i]
                },
        decreases duration - target,
    {
        target = target + desired;
        assert(target == (n + 1) * desired) by (nonlinear_arith)
            requires
                target == n * desired + desired,
        ;
        let ghost c = cuts(keyframes@, desired as int, duration as int, n);
        proof {
            lemma_cuts_ordered(keyframes@, desired as int, duration as int, n);
            lemma_cuts_ordered(keyframes@, desired as int, duration as int, n + 1);
            n = n + 1;
        }
        let kf = find_nearest(keyframes, last_cut, duration, target);
        match kf {
            Some(kf) => {
                proof {
                    assert(cuts(keyframes@, desired as int, duration as int, n) == c.push(
                        kf as int,
                    ));
                    assert(c.push(kf as int).last() == kf);
                    assert(c.push(kf as int)[c.len() - 1] < c.push(kf as int)[c.len() as int]);
                }
                result.push(Segment { start: last_cut, duration: kf - last_cut });
                last_cut = kf;
            },
            None => {},
        }
    }
    proof {
        let c = cuts(keyframes@, desired as int, duration as int, n);
        lemma_boundaries(desired as int, duration as int, n);
        lemma_boundaries(desired as int, duration as int, n + 1);
        assert((n + 1) * desired == target + desired) by (nonlinear_arith)
            requires
                target == n * desired,
        ;
        assert(n == all);
        assert(stretches(result@.push(Segment { start: last_cut, duration: (duration - last_cut) as u128 }))
            =~= between(c, duration as int));
    }
    result.push(Segment { start: last_cut, duration: duration - last_cut });
    result
}

/// Cuts the media file into segments of equal length.
fn equal_segments(length: u128, duration: u128) -> (r: Vec<Segment>)
    requires
        length > 0 || duration == 0,
    ensures
        stretches(r@) == vod_segments(duration as int, length as int, None),
{
    let mut result: Vec<Segment> = Vec::new();
    if duration == 0 {
        assert(stretches(result@) =~= Seq::empty());
        return result;
    }
    let mut start: u128 = 0;
    assert(result@.len() * length == 0) by (nonlinear_arith)
        requires
            result@.len() == 0,
    ;
    while duration - start > length
        invariant
            length > 0,
            start < duration,
            start == result@.len() * length,
            forall|i: int|
                0 <= i < result@.len() ==> (#[trigger] result@[i]).start == i * length
                    && result@[i].duration == length && (i + 1) * length < duration,
        decreases duration - start,
    {
        let ghost k = result@.len();
        assert((k + 1) * length == k * length + length) by (nonlinear_arith);
        result.push(Segment { start, duration: length });
        start = start + length;
    }
    proof {
        let k = result@.len();
        let q = quotient_up(duration as int, length as int);
        assert(length * k + length >= duration > length * k) by (nonlinear_arith)
            requires
                start == k * length,
                duration - start <= length,
                start < duration,
        ;
        assert(length * (k + 1) == length * k + length) by (nonlinear_arith);
        lemma_quotient_up(duration as int, length as int, (k + 1) as int);
        assert(stretches(result@.push(Segment { start, duration: (duration - start) as u128 }))
            =~= vod_segments(duration as int, length as int, None)) by {
            let made = result@.push(Segment { start, duration: (duration - start) as u128 });
            let want = vod_segments(duration as int, length as int, None);
            assert(made.len() == want.len());
            assert forall|i: int| 0 <= i < made.len() implies stretches(made)[i] == want[i] by {
                if i < k {
                    assert(result@[i].start == i * length);
                    assert((i + 1) * length == i * length + length) by (nonlinear_arith);
                }
            }
        }
    }
    result.push(Segment { start, duration: duration - start });
    result
}

proof fn lemma_quotient_up(a: int, b: int, q: int)
    requires
        b > 0,
        b * (q - 1) < a <= b * q,
    ensures
        quotient_up(a, b) == q,
{
    assert(b * q == b * (q - 1) + b) by (nonlinear_arith);
    assert(q * b == b * q) by (nonlinear_arith);
    vstd::arithmetic::div_mod::lemma_fundamental_div_mod_converse(
        a + b - 1,
        b,
        q,
        a + b - 1 - b * q,
    );
}

// ── What the playlist says ───────────────────────────────────────────────────

/// The time in whole microseconds: the nearest, and the even one where two are equally near.
pub open spec fn rounded_micros(ns: nat) -> nat {
    let whole = ns / 1000;
    let rest = ns % 1000;
    if rest > 500 || (rest == 500 && whole % 2 == 1) {
        whole + 1
    } else {
        whole
    }
}

/// The time in seconds with six decimals.
pub open spec fn seconds_shown(ns: nat) -> Seq<char> {
    let micros = rounded_micros(ns);
    number::decimal(micros / 1_000_000) + "."@ + number::zero_padded(
        number::decimal(micros % 1_000_000),
        6,
    )
}

fn seconds_text(ns: u128) -> (r: String)
    ensures
        r@ == seconds_shown(ns as nat),
{
    let whole: u128 = ns / 1000;
    let rest: u128 = ns % 1000;
    let micros: u128 = if rest > 500 || (rest == 500 && whole % 2 == 1) {
        whole + 1
    } else {
        whole
    };
    let front = number::decimal_text(micros / 1_000_000);
    let back = number::padded_text(micros % 1_000_000, 6);
    text::join3(front.as_str(), ".", back.as_str())
}

/// The greatest of the durations and `least`.
pub open spec fn greatest_duration(segs: Seq<(int, int)>, least: int) -> int
    decreases segs.len(),
{
    if segs.len() == 0 {
        least
    } else {
        let before = greatest_duration(segs.drop_last(), least);
        if segs.last().1 > before {
            segs.last().1
        } else {
            before
        }
    }
}

/// The target duration: the greatest duration in seconds, rounded up, as far as `u32` goes.
pub open spec fn target_duration(segs: Seq<(int, int)>, length: int) -> int {
    smaller(quotient_up(greatest_duration(segs, length), SECOND as int), u32::MAX as int)
}

fn target_seconds(segs: &[Segment], length: u128) -> (r: u32)
    ensures
        r == target_duration(stretches(segs@), length as int),
{
    let n: usize = segs.len();
    let mut max: u128 = length;
    let mut i: usize = 0;
    while i < n
        invariant
            n == segs@.len(),
            i <= n,
            max == greatest_duration(stretches(segs@).take(i as int), length as int),
        decreases n - i,
    {
        proof {
            assert(stretches(segs@).take(i + 1).drop_last() =~= stretches(segs@).take(i as int));
        }
        if segs[i].duration > max {
            max = segs[i].duration;
        }
        i += 1;
    }
    assert(stretches(segs@).take(n as int) =~= stretches(segs@));
    let whole: u128 = max / SECOND;
    let up: u128 = if max % SECOND == 0 {
        whole
    } else {
        whole + 1
    };
    proof {
        lemma_quotient_up(max as int, SECOND as int, up as int);
    }
    if up <= 0xFFFF_FFFF {
        up as u32
    } else {
        0xFFFF_FFFF
    }
}

/// The lines before the segments.
pub open spec fn head_lines(kind: HlsSegmentType, target: nat) -> Seq<Seq<char>> {
    let front = seq![
        "#EXTM3U"@,
        match kind {
            HlsSegmentType::Fmp4 => "#EXT-X-VERSION:7"@,
            HlsSegmentType::Mpegts => "#EXT-X-VERSION:3"@,
        },
        "#EXT-X-TARGETDURATION:"@ + number::decimal(target),
        "#EXT-X-MEDIA-SEQUENCE:0"@,
        "#EXT-X-PLAYLIST-TYPE:VOD"@,
    ];
    match kind {
        HlsSegmentType::Fmp4 => front.push("#EXT-X-MAP:URI=\"init.mp4\""@),
        HlsSegmentType::Mpegts => front,
    }
}

/// Two lines for each segment: its duration and its name.
pub open spec fn segment_lines(segs: Seq<(int, int)>, ext: Seq<char>) -> Seq<Seq<char>>
    decreases segs.len(),
{
    if segs.len() == 0 {
        Seq::empty()
    } else {
        segment_lines(segs.drop_last(), ext).push(
            "#EXTINF:"@ + seconds_shown(segs.last().1 as nat) + ","@,
        ).push(segments::segment_name((segs.len() - 1) as nat, ext))
    }
}

/// The playlist.
pub open spec fn playlist_text(segs: Seq<(int, int)>, length: int, kind: HlsSegmentType) -> Seq<
    char,
> {
    text::joined(
        (head_lines(kind, target_duration(segs, length) as nat) + segment_lines(
            segs,
            kind.ext(),
        )).push("#EXT-X-ENDLIST"@).push(""@),
        "\n"@,
    )
}

fn write_playlist(segs: &[Segment], length: u128, kind: HlsSegmentType) -> (r: String)
    ensures
        r@ == playlist_text(stretches(segs@), length as int, kind),
{
    let target: u32 = target_seconds(segs, length);
    let ext = kind.extension();
    let ghost all = stretches(segs@);
    let ghost head = head_lines(kind, target as nat);
    let mut lines: Vec<String> = Vec::new();
    lines.push(text::copy_text("#EXTM3U"));
    lines.push(
        text::copy_text(
            match kind {
                HlsSegmentType::Fmp4 => "#EXT-X-VERSION:7",
                HlsSegmentType::Mpegts => "#EXT-X-VERSION:3",
            },
        ),
    );
    let shown = number::decimal_text(target as u128);
    lines.push(text::join2("#EXT-X-TARGETDURATION:", shown.as_str()));
    lines.push(text::copy_text("#EXT-X-MEDIA-SEQUENCE:0"));
    lines.push(text::copy_text("#EXT-X-PLAYLIST-TYPE:VOD"));
    if kind == HlsSegmentType::Fmp4 {
        lines.push(text::copy_text("#EXT-X-MAP:URI=\"init.mp4\""));
    }
    assert(text::texts(lines@) =~= head);
    let n: usize = segs.len();
    let mut i: usize = 0;
    assert(all.take(0) =~= Seq::empty());
    assert(head + segment_lines(all.take(0), ext@) =~= head);
    while i < n
        invariant
            n == segs@.len(),
            i <= n,
            all == stretches(segs@),
            text::texts(lines@) == head + segment_lines(all.take(i as int), ext@),
        decreases n - i,
    {
        let ghost before = lines@;
        let time = seconds_text(segs[i].duration);
        let info = text::join3("#EXTINF:", time.as_str(), ",");
        let name = segment_name_text(i as u64, ext);
        proof {
            assert(all.take(i + 1).drop_last() =~= all.take(i as int));
            assert(all.take(i + 1).last() == all[i as int]);
        }
        lines.push(info);
        lines.push(name);
        proof {
            assert(text::texts(lines@) =~= text::texts(before).push(info@).push(name@));
            assert(text::texts(lines@) =~= head + segment_lines(all.take(i + 1), ext@));
        }
        i += 1;
    }
    assert(all.take(n as int) =~= all);
    let ghost before = lines@;
    lines.push(text::copy_text("#EXT-X-ENDLIST"));
    lines.push(text::copy_text(""));
    assert(text::texts(lines@) =~= text::texts(before).push("#EXT-X-ENDLIST"@).push(""@));
    text::join_list(&lines, "\n")
}

/// The starts of the segments.
pub open spec fn starts(segs: Seq<(int, int)>) -> Seq<int> {
    segs.map_values(|s: (int, int)| s.0)
}

/// Generates the playlist of a media file of the given duration, and the starts of its
/// segments. Where the keyframes are known, each segment begins at one; else the segments
/// are of equal length. `segment_duration` is in seconds.
pub fn generate_vod_playlist(
    duration: u128,
    segment_duration: u32,
    segment_type: HlsSegmentType,
    keyframes: Option<&[u128]>,
) -> (r: (String, Vec<u128>))
    requires
        segment_duration > 0 || duration == 0,
    ensures
        ({
            let length = segment_duration * SECOND;
            let known = match keyframes {
                Some(kfs) => Some(kfs@),
                None => None,
            };
            let segs = vod_segments(duration as int, length, known);
            &&& r.0@ == playlist_text(segs, length, segment_type)
            &&& r.1@.map_values(|t: u128| t as int) == starts(segs)
        }),
{
    let length: u128 = segment_duration as u128 * SECOND;
    let segs = match keyframes {
        Some(kfs) => compute_keyframe_segments(kfs, length, duration),
        None => equal_segments(length, duration),
    };
    let playlist = write_playlist(&segs, length, segment_type);
    let n: usize = segs.len();
    let mut times: Vec<u128> = Vec::new();
    let mut i: usize = 0;
    while i < n
        invariant
            n == segs@.len(),
            i <= n,
            times@.len() == i,
            forall|k: int| 0 <= k < i ==> times@[k] == (#[trigger] segs@[k]).start,
        decreases n - i,
    {
        times.push(segs[i].start);
        i += 1;
    }
    assert(times@.map_values(|t: u128| t as int) =~= starts(stretches(segs@)));
    (playlist, times)
}

// ── Laws ─────────────────────────────────────────────────────────────────────

/// The keyframe that is chosen for a boundary is one of the list, lies strictly between the
/// two bounds, and none that does is nearer; none is chosen only where none does.
pub proof fn nearest_is_nearest(kfs: Seq<u128>, after: int, before: int, target: int)
    ensures
        match nearest(kfs, after, before, target) {
            Some(kf) => {
                &&& exists|k: int| 0 <= k < kfs.len() && #[trigger] kfs[k] == kf
                &&& after < kf < before
                &&& forall|k: int|
                    0 <= k < kfs.len() && after < #[trigger] kfs[k] < before ==> distance(
                        kf as int,
                        target,
                    ) <= distance(kfs[k] as int, target)
            },
            None => forall|k: int|
                0 <= k < kfs.len() ==> !(after < #[trigger] kfs[k] < before),
        },
    decreases kfs.len(),
{
    if kfs.len() > 0 {
        let front = kfs.drop_last();
        nearest_is_nearest(front, after, before, target);
        assert forall|k: int| 0 <= k < kfs.len() implies #[trigger] kfs[k] == if k < front.len() {
            front[k]
        } else {
            kfs.last()
        } by {}
        match nearest(front, after, before, target) {
            Some(kf) => {
                let k = choose|k: int| 0 <= k < front.len() && #[trigger] front[k] == kf;
                assert(kfs[k] == kf);
            },
            None => {},
        }
        assert(kfs[kfs.len() - 1] == kfs.last());
    }
}

/// The segments cover the media file without gap or overlap: the first begins at its
/// beginning, each ends where the next begins, the last ends at its end, and none is empty.
pub proof fn segments_tile_the_file(duration: int, length: int, keyframes: Option<Seq<u128>>)
    requires
        duration > 0,
        length > 0,
    ensures
        ({
            let segs = vod_segments(duration, length, keyframes);
            &&& segs.len() > 0
            &&& segs[0].0 == 0
            &&& segs.last().0 + segs.last().1 == duration
            &&& forall|i: int|
                0 <= i < segs.len() - 1 ==> (#[trigger] segs[i]).0 + segs[i].1 == segs[i + 1].0
            &&& forall|i: int| 0 <= i < segs.len() ==> (#[trigger] segs[i]).1 > 0
        }),
{
    let segs = vod_segments(duration, length, keyframes);
    match keyframes {
        Some(kfs) => {
            let c = cuts(kfs, length, duration, boundaries(length, duration));
            lemma_cuts_ordered(kfs, length, duration, boundaries(length, duration));
            assert forall|i: int| 0 <= i < segs.len() implies (#[trigger] segs[i]).1 > 0 by {
                if i + 1 < c.len() {
                    assert(c[i] < c[i + 1]);
                }
            }
            assert forall|i: int| 0 <= i < segs.len() - 1 implies (#[trigger] segs[i]).0
                + segs[i].1 == segs[i + 1].0 by {
                assert(segs[i + 1].0 == c[i + 1]);
            }
            assert(segs.last() == (c.last(), duration - c.last()));
        },
        None => {
            equal_segments_are_equal(duration, length);
            let q = quotient_up(duration, length);
            assert(0 * length == 0);
            assert forall|i: int| 0 <= i < segs.len() - 1 implies (#[trigger] segs[i]).0
                + segs[i].1 == segs[i + 1].0 by {
                assert((i + 1) * length == i * length + length) by (nonlinear_arith);
            }
        },
    }
}

/// Without keyframes every segment has the full length but the last, which is no longer, and
/// segment `i` begins at `i` times the length.
pub proof fn equal_segments_are_equal(duration: int, length: int)
    requires
        duration > 0,
        length > 0,
    ensures
        ({
            let segs = vod_segments(duration, length, None);
            &&& segs.len() == quotient_up(duration, length)
            &&& segs.len() > 0
            &&& forall|i: int| 0 <= i < segs.len() ==> (#[trigger] segs[i]).0 == i * length
            &&& forall|i: int| 0 <= i < segs.len() - 1 ==> (#[trigger] segs[i]).1 == length
            &&& 0 < segs.last().1 <= length
            &&& segs.last().0 + segs.last().1 == duration
        }),
{
    let q = quotient_up(duration, length);
    let r = (duration + length - 1) % length;
    vstd::arithmetic::div_mod::lemma_fundamental_div_mod(duration + length - 1, length);
    vstd::arithmetic::div_mod::lemma_mod_bound(duration + length - 1, length);
    assert(length * q == length * (q - 1) + length) by (nonlinear_arith);
    assert(length * (q - 1) < duration <= length * q);
    assert(q >= 1) by (nonlinear_arith)
        requires
            length * q >= duration,
            duration > 0,
            length > 0,
    ;
    assert((q - 1) * length == length * (q - 1)) by (nonlinear_arith);
    let segs = vod_segments(duration, length, None);
    assert forall|i: int| 0 <= i < segs.len() - 1 implies (#[trigger] segs[i]).1 == length by {
        assert((i + 1) * length == i * length + length) by (nonlinear_arith);
        assert((i + 1) * length <= (q - 1) * length) by (nonlinear_arith)
            requires
                i + 1 <= q - 1,
                length > 0,
        ;
    }
}

/// Where keyframes are known, every segment but the first begins at one.
pub proof fn segments_begin_at_keyframes(duration: int, length: int, kfs: Seq<u128>)
    requires
        duration > 0,
        length > 0,
    ensures
        ({
            let segs = vod_segments(duration, length, Some(kfs));
            forall|i: int| 0 < i < segs.len() ==> listed(kfs, (#[trigger] segs[i]).0)
        }),
{
    let n = boundaries(length, duration);
    lemma_cuts_ordered(kfs, length, duration, n);
}

/// The playlist names the segments by their numbers, each behind its duration.
pub proof fn playlist_names_its_segments(segs: Seq<(int, int)>, ext: Seq<char>)
    ensures
        segment_lines(segs, ext).len() == 2 * segs.len(),
        forall|i: int|
            0 <= i < segs.len() ==> segment_lines(segs, ext)[2 * i] == "#EXTINF:"@ + seconds_shown(
                (#[trigger] segs[i]).1 as nat,
            ) + ","@,
        forall|i: int|
            0 <= i < segs.len() ==> segment_lines(segs, ext)[2 * i + 1]
                == #[trigger] segments::segment_name(i as nat, ext),
    decreases segs.len(),
{
    if segs.len() > 0 {
        let front = segs.drop_last();
        playlist_names_its_segments(front, ext);
        let before = segment_lines(front, ext);
        let all = segment_lines(segs, ext);
        assert forall|i: int| 0 <= i < segs.len() implies all[2 * i] == "#EXTINF:"@ + seconds_shown(
            (#[trigger] segs[i]).1 as nat,
        ) + ","@ && all[2 * i + 1] == segments::segment_name(i as nat, ext) by {
            if i < front.len() {
                assert(front[i] == segs[i]);
                assert(all[2 * i] == before[2 * i]);
                assert(all[2 * i + 1] == before[2 * i + 1]);
            }
        }
    }
}

/// The target duration is no shorter than any segment, as long as `u32` holds it.
pub proof fn target_duration_is_enough(segs: Seq<(int, int)>, length: int)
    requires
        length >= 0,
        target_duration(segs, length) < u32::MAX,
    ensures
        target_duration(segs, length) * SECOND >= length,
        forall|i: int|
            0 <= i < segs.len() ==> (#[trigger] segs[i]).1 <= target_duration(segs, length) * SECOND,
{
    let max = greatest_duration(segs, length);
    lemma_greatest(segs, length);
    let s = SECOND as int;
    let q = quotient_up(max, s);
    vstd::arithmetic::div_mod::lemma_fundamental_div_mod(max + s - 1, s);
    vstd::arithmetic::div_mod::lemma_mod_bound(max + s - 1, s);
}

proof fn lemma_greatest(segs: Seq<(int, int)>, least: int)
    ensures
        greatest_duration(segs, least) >= least,
        forall|i: int|
            0 <= i < segs.len() ==> (#[trigger] segs[i]).1 <= greatest_duration(segs, least),
    decreases segs.len(),
{
    if segs.len() > 0 {
        let front = segs.drop_last();
        lemma_greatest(front, least);
        assert forall|i: int| 0 <= i < segs.len() implies (#[trigger] segs[i]).1
            <= greatest_duration(segs, least) by {
            if i < front.len() {
                assert(segs[i] == front[i]);
            }
        }
    }
}

/// The extension of segments of fragmented MP4, and of transport streams.
pub proof fn segments_have_extensions(kind: HlsSegmentType)
    ensures
        kind == HlsSegmentType::Fmp4 ==> kind.ext() == "tokimo"@,
        kind == HlsSegmentType::Mpegts ==> kind.ext() == "ts"@,
{
}

/// The file is cut for every multiple of the desired length that lies within it, the first
/// before the second and so on: at the keyframe behind the last cut that is nearest to the
/// multiple, the first of those that are equally near; and not at all where no keyframe is
/// left. Each cut begins a segment.
pub proof fn the_file_is_cut_near_every_multiple(
    kfs: Seq<u128>,
    desired: int,
    duration: int,
    n: nat,
    k: int,
)
    requires
        desired > 0,
        0 < duration,
        0 <= k < kfs.len(),
    ensures
        cuts(kfs, desired, duration, 0) == seq![0int],
        ({
            let before = cuts(kfs, desired, duration, n);
            let after = cuts(kfs, desired, duration, n + 1);
            let far = |x: int|
                if x <= (n + 1) * desired {
                    (n + 1) * desired - x
                } else {
                    x - (n + 1) * desired
                };
            // A keyframe that is left makes a cut, no nearer than the cut that is made.
            &&& before.last() < kfs[k] < duration ==> {
                &&& after.len() == before.len() + 1
                &&& after.drop_last() == before
                &&& before.last() < after.last() < duration
                &&& far(after.last()) <= far(kfs[k] as int)
                &&& listed(kfs, after.last())
            }
            // A cut is made for nothing else.
            &&& (forall|j: int| 0 <= j < kfs.len() ==> !(before.last() < #[trigger] kfs[j]
                < duration)) ==> after == before
        }),
        n * desired < duration <= (n + 1) * desired ==> starts(
            vod_segments(duration, desired, Some(kfs)),
        ) == cuts(kfs, desired, duration, n),
{
    let before = cuts(kfs, desired, duration, n);
    nearest_is_nearest(kfs, before.last(), duration, (n + 1) * desired);
    lemma_cuts_ordered(kfs, desired, duration, n);
    lemma_cuts_ordered(kfs, desired, duration, n + 1);
    if before.last() < kfs[k] < duration {
        let after = cuts(kfs, desired, duration, n + 1);
        assert(after.drop_last() =~= before);
        assert(after.last() == after[after.len() - 1]);
    }
    if n * desired < duration <= (n + 1) * desired {
        lemma_boundaries(desired, duration, n);
        lemma_boundaries(desired, duration, n + 1);
        assert(n * desired + desired == (n + 1) * desired) by (nonlinear_arith);
        assert(boundaries(desired, duration) == n);
        assert(starts(vod_segments(duration, desired, Some(kfs))) =~= before);
    }
}

/// Of keyframes that are equally near to a multiple, the first in the list is taken.
pub proof fn the_first_of_equally_near_keyframes_is_taken(
    kfs: Seq<u128>,
    after: int,
    before: int,
    target: int,
)
    ensures
        nearest(kfs, after, before, target) matches Some(kf) ==> exists|i: int|
            {
                &&& 0 <= i < kfs.len()
                &&& #[trigger] kfs[i] == kf
                &&& forall|j: int|
                    0 <= j < i && after < #[trigger] kfs[j] < before ==> distance(
                        kfs[j] as int,
                        target,
                    ) > distance(kf as int, target)
            },
    decreases kfs.len(),
{
    if kfs.len() > 0 {
        let front = kfs.drop_last();
        the_first_of_equally_near_keyframes_is_taken(front, after, before, target);
        nearest_is_nearest(front, after, before, target);
        match nearest(kfs, after, before, target) {
            Some(kf) => {
                if nearest(front, after, before, target) == Some(kf) {
                    let i = choose|i: int|
                        {
                            &&& 0 <= i < front.len()
                            &&& #[trigger] front[i] == kf
                            &&& forall|j: int|
                                0 <= j < i && after < #[trigger] front[j] < before ==> distance(
                                    front[j] as int,
                                    target,
                                ) > distance(kf as int, target)
                        };
                    assert(kfs[i] == kf);
                    assert forall|j: int|
                        0 <= j < i && after < #[trigger] kfs[j] < before implies distance(
                        kfs[j] as int,
                        target,
                    ) > distance(kf as int, target) by {
                        assert(front[j] == kfs[j]);
                    }
                } else {
                    let i = kfs.len() - 1;
                    assert(kfs[i] == kf);
                    assert forall|j: int|
                        0 <= j < i && after < #[trigger] kfs[j] < before implies distance(
                        kfs[j] as int,
                        target,
                    ) > distance(kf as int, target) by {
                        assert(front[j] == kfs[j]);
                    }
                }
            },
            None => {},
        }
    }
}

/// How far apart two times are is the same in both directions, nothing for equal ones, and what
/// has to be added to the smaller to come to the greater.
pub proof fn distances_are_differences(a: int, d: int)
    requires
        d >= 0,
    ensures
        distance(a, a + d) == d,
        distance(a + d, a) == d,
{
}

/// A duration is shown to the nearest microsecond.
pub proof fn durations_are_shown_to_the_microsecond(ns: nat)
    ensures
        ({
            let m = rounded_micros(ns);
            &&& 1000 * m - 500 <= ns <= 1000 * m + 500
            &&& ns == 1000 * m - 500 || ns == 1000 * m + 500 ==> m % 2 == 0
            &&& exists|whole: nat, part: nat|
                {
                    &&& m == whole * 1_000_000 + part
                    &&& part < 1_000_000
                    &&& seconds_shown(ns) == #[trigger] number::decimal(whole) + "."@
                        + number::zero_padded(#[trigger] number::decimal(part), 6)
                }
        }),
{
    let m = rounded_micros(ns);
    let whole = m / 1_000_000;
    let part = m % 1_000_000;
    assert(m == whole * 1_000_000 + part);
    assert(seconds_shown(ns) == number::decimal(whole) + "."@ + number::zero_padded(
        number::decimal(part),
        6,
    ));
}

/// The target duration is the least number of whole seconds that is no shorter than the desired
/// length and every segment.
pub proof fn target_duration_is_the_least(segs: Seq<(int, int)>, length: int, seconds: int)
    requires
        length >= 0,
        0 <= seconds <= u32::MAX,
        length <= seconds * 1_000_000_000,
        forall|i: int| 0 <= i < segs.len() ==> (#[trigger] segs[i]).1 <= seconds * 1_000_000_000,
    ensures
        target_duration(segs, length) <= seconds,
        target_duration(segs, length) < u32::MAX ==> length <= target_duration(segs, length)
            * 1_000_000_000,
        target_duration(segs, length) < u32::MAX ==> forall|i: int|
            0 <= i < segs.len() ==> (#[trigger] segs[i]).1 <= target_duration(segs, length)
                * 1_000_000_000,
{
    let max = greatest_duration(segs, length);
    lemma_greatest(segs, length);
    lemma_greatest_is_one(segs, length);
    let s = 1_000_000_000int;
    let q = quotient_up(max, SECOND as int);
    vstd::arithmetic::div_mod::lemma_fundamental_div_mod(max + s - 1, s);
    vstd::arithmetic::div_mod::lemma_mod_bound(max + s - 1, s);
    assert(max <= seconds * s);
    assert(q <= seconds);
}

proof fn lemma_greatest_is_one(segs: Seq<(int, int)>, least: int)
    ensures
        greatest_duration(segs, least) == least || exists|i: int|
            0 <= i < segs.len() && (#[trigger] segs[i]).1 == greatest_duration(segs, least),
    decreases segs.len(),
{
    if segs.len() > 0 {
        let front = segs.drop_last();
        lemma_greatest_is_one(front, least);
        let best = greatest_duration(segs, least);
        if segs.last().1 == best {
            assert(segs[segs.len() - 1].1 == best);
        } else if best != least {
            let i = choose|i: int|
                0 <= i < front.len() && (#[trigger] front[i]).1 == greatest_duration(front, least);
            assert(segs[i] == front[i]);
        }
    }
}

/// The playlist is that of a recording: its lines are the head, which tells the version, the
/// target duration and, for fragmented MP4, the first file; two lines for each segment; and the
/// mark of the end.
pub proof fn the_playlist_is_that_of_a_recording(
    segs: Seq<(int, int)>,
    length: int,
    kind: HlsSegmentType,
)
    ensures
        playlist_text(segs, length, kind) == text::joined(
            (match kind {
                HlsSegmentType::Fmp4 => seq![
                    "#EXTM3U"@,
                    "#EXT-X-VERSION:7"@,
                    "#EXT-X-TARGETDURATION:"@ + number::decimal(
                        target_duration(segs, length) as nat,
                    ),
                    "#EXT-X-MEDIA-SEQUENCE:0"@,
                    "#EXT-X-PLAYLIST-TYPE:VOD"@,
                    "#EXT-X-MAP:URI=\"init.mp4\""@,
                ],
                HlsSegmentType::Mpegts => seq![
                    "#EXTM3U"@,
                    "#EXT-X-VERSION:3"@,
                    "#EXT-X-TARGETDURATION:"@ + number::decimal(
                        target_duration(segs, length) as nat,
                    ),
                    "#EXT-X-MEDIA-SEQUENCE:0"@,
                    "#EXT-X-PLAYLIST-TYPE:VOD"@,
                ],
            } + segment_lines(segs, kind.ext())).push("#EXT-X-ENDLIST"@).push(""@),
            "\n"@,
        ),
{
    let target = target_duration(segs, length) as nat;
    match kind {
        HlsSegmentType::Fmp4 => {
            assert(head_lines(kind, target) =~= seq![
                "#EXTM3U"@,
                "#EXT-X-VERSION:7"@,
                "#EXT-X-TARGETDURATION:"@ + number::decimal(target),
                "#EXT-X-MEDIA-SEQUENCE:0"@,
                "#EXT-X-PLAYLIST-TYPE:VOD"@,
                "#EXT-X-MAP:URI=\"init.mp4\""@,
            ]);
        },
        HlsSegmentType::Mpegts => {},
    }
}

}
