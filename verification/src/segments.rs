//! The files that a session writes: their names, their numbers and their paths.
use crate::number;
use crate::text;
use vstd::prelude::*;
use vstd::string::*;

verus! {

broadcast use vstd::string::group_string_axioms;

/// The number of digits that a segment's name has at least.
pub const NAME_DIGITS: usize = 5;

/// The name of the segment with the number `n`, such as 00012.ts.
pub open spec fn segment_name(n: nat, ext: Seq<char>) -> Seq<char> {
    number::zero_padded(number::decimal(n), NAME_DIGITS as nat) + "."@ + ext
}

/// Writes the name of a segment.
pub fn segment_name_text(n: u64, ext: &str) -> (r: String)
    ensures
        r@ == segment_name(n as nat, ext@),
{
    let digits = number::padded_text(n as u128, NAME_DIGITS);
    text::join3(digits.as_str(), ".", ext)
}

/// The number of the segment with the given name; none where it is not a segment's name.
pub open spec fn segment_number(filename: Seq<char>, ext: Seq<char>) -> Option<u32> {
    let suffix = "."@ + ext;
    if suffix.is_suffix_of(filename) {
        number::u32_value(filename.take(filename.len() - suffix.len()))
    } else {
        None
    }
}

/// Reads the number of a segment off its name.
pub fn parse_segment_number(filename: &str, ext: &str) -> (r: Option<u32>)
    ensures
        r == segment_number(filename@, ext@),
{
    let suffix = text::join2(".", ext);
    if !text::ends_with(filename, suffix.as_str()) {
        return None;
    }
    let chars = text::to_chars(filename);
    let tail = text::to_chars(suffix.as_str());
    let n: usize = chars.len() - tail.len();
    let front = text::front(&chars, n);
    number::parse_u32(front.as_str())
}

/// The path of a file: its name, as it is looked for from a directory. How the two make one
/// text, and which names are absolute, is up to the platform that opens the file.
#[derive(Debug, Clone)]
pub struct FilePath {
    pub dir: String,
    pub name: String,
}

/// What a `FilePath` says.
pub struct FilePathView {
    pub dir: Seq<char>,
    pub name: Seq<char>,
}

impl View for FilePath {
    type V = FilePathView;

    open spec fn view(&self) -> FilePathView {
        FilePathView { dir: self.dir@, name: self.name@ }
    }
}

impl FilePath {
    /// The path of `name`, from the directory `dir`.
    pub fn new(dir: &str, name: &str) -> (r: FilePath)
        ensures
            r@ == (FilePathView { dir: dir@, name: name@ }),
    {
        FilePath { dir: text::copy_text(dir), name: text::copy_text(name) }
    }
}

/// What an optional path says.
pub open spec fn opt_path(path: Option<FilePath>) -> Option<FilePathView> {
    match path {
        Some(p) => Some(p@),
        None => None,
    }
}

/// The path of the segment behind the one with the given name, none for other files.
pub open spec fn path_of_next(name: Seq<char>, dir: Seq<char>, ext: Seq<char>) -> Option<
    FilePathView,
> {
    match segment_number(name, ext) {
        Some(n) => Some(FilePathView { dir, name: segment_name((n + 1) as nat, ext) }),
        None => None,
    }
}

/// The path of the segment behind the one with the given name, such as that of 01561.ts for
/// 01560.ts; `None` for files that are no segments, such as init.mp4.
pub fn next_segment_path(segment_name: &str, output_dir: &str, ext: &str) -> (r: Option<FilePath>)
    requires
        segment_number(segment_name@, ext@) != Some(u32::MAX),
    ensures
        opt_path(r) == path_of_next(segment_name@, output_dir@, ext@),
{
    match parse_segment_number(segment_name, ext) {
        Some(n) => {
            let next = segment_name_text(n as u64 + 1, ext);
            Some(FilePath::new(output_dir, next.as_str()))
        },
        None => None,
    }
}

/// Whether `count` is the length of the unbroken run of segments from `start` on: so many
/// files are there, and the next is not.
pub open spec fn run_length(names: Seq<Seq<char>>, start: u32, ext: Seq<char>, count: int) -> bool {
    &&& 0 <= count
    &&& forall|k: int|
        0 <= k < count ==> names.contains(#[trigger] segment_name((start + k) as nat, ext))
    &&& !names.contains(segment_name((start + count) as nat, ext))
}

/// Whether the unbroken run of segments from `start` on ends at a number that `u32` holds.
pub open spec fn run_ends(names: Seq<Seq<char>>, start: u32, ext: Seq<char>) -> bool {
    exists|count: int|
        #[trigger] run_length(names, start, ext, count) && start + count <= u32::MAX
}

/// The number of segments from `start` on without a gap among the names of the files in the
/// output directory. Segments that an earlier pass left behind a gap do not count.
pub fn count_segments_from(names: &[String], start: u32, ext: &str) -> (r: u32)
    requires
        run_ends(text::texts(names@), start, ext@),
    ensures
        run_length(text::texts(names@), start, ext@, r as int),
        start + r <= u32::MAX,
{
    let ghost end = choose|end: int|
        #[trigger] run_length(text::texts(names@), start, ext@, end) && start + end <= u32::MAX;
    let mut count: u32 = 0;
    let mut name = segment_name_text(start as u64, ext);
    while text::list_has(names, name.as_str())
        invariant
            count <= end,
            start + end <= u32::MAX,
            run_length(text::texts(names@), start, ext@, end),
            name@ == segment_name((start + count) as nat, ext@),
            forall|k: int|
                0 <= k < count ==> text::texts(names@).contains(
                    #[trigger] segment_name((start + k) as nat, ext@),
                ),
        decreases u32::MAX - count,
    {
        count += 1;
        name = segment_name_text(start as u64 + count as u64, ext);
    }
    count
}

/// Whether the file is a segment with the number `from` or above.
pub open spec fn stale(name: Seq<char>, from: u32, ext: Seq<char>) -> bool {
    segment_number(name, ext) matches Some(n) && n >= from
}

/// The stale ones among the files.
pub open spec fn stale_names(names: Seq<Seq<char>>, from: u32, ext: Seq<char>) -> Seq<Seq<char>> {
    names.filter(|name: Seq<char>| stale(name, from, ext))
}

/// Which files are deleted before segments are written from the number `from` on: those
/// that are segments with this number or a higher one.
pub fn delete_segments_from(names: &[String], from_segment: u32, ext: &str) -> (r: Vec<String>)
    ensures
        text::texts(r@) == stale_names(text::texts(names@), from_segment, ext@),
{
    let ghost keep = |name: Seq<char>| stale(name, from_segment, ext@);
    let n: usize = names.len();
    let mut r: Vec<String> = Vec::new();
    let mut i: usize = 0;
    assert(text::texts(names@).take(0) =~= Seq::empty());
    assert(text::texts(names@).take(0).filter(keep) =~= Seq::empty()) by {
        reveal(Seq::filter);
    }
    while i < n
        invariant
            n == names@.len(),
            i <= n,
            keep == |name: Seq<char>| stale(name, from_segment, ext@),
            text::texts(r@) == text::texts(names@).take(i as int).filter(keep),
        decreases n - i,
    {
        let ghost all = text::texts(names@);
        let name = names[i].as_str();
        proof {
            assert(all[i as int] == name@);
            assert(all.take(i + 1) =~= all.take(i as int).push(name@));
            all.take(i as int).lemma_filter_push(name@, keep);
        }
        let gone = match parse_segment_number(name, ext) {
            Some(num) => num >= from_segment,
            None => false,
        };
        if gone {
            let ghost before = r@;
            r.push(text::copy_text(name));
            assert(text::texts(r@) =~= text::texts(before).push(name@));
        }
        i += 1;
    }
    assert(text::texts(names@).take(n as int) =~= text::texts(names@));
    r
}

// ── Laws ─────────────────────────────────────────────────────────────────────

/// A segment's name reads back as its number, whatever the extension.
pub proof fn segment_name_reads_back(n: u32, ext: Seq<char>)
    ensures
        segment_number(segment_name(n as nat, ext), ext) == Some(n),
{
    let digits = number::zero_padded(number::decimal(n as nat), NAME_DIGITS as nat);
    let suffix = "."@ + ext;
    let name = segment_name(n as nat, ext);
    number::u32_reads_back(n, NAME_DIGITS as nat);
    assert(name =~= digits + suffix);
    assert(suffix.is_suffix_of(name));
    assert(name.take(name.len() - suffix.len()) =~= digits);
}

/// Different segments have different names.
pub proof fn segment_names_differ(a: u32, b: u32, ext: Seq<char>)
    requires
        a != b,
    ensures
        segment_name(a as nat, ext) != segment_name(b as nat, ext),
{
    segment_name_reads_back(a, ext);
    segment_name_reads_back(b, ext);
}

/// Behind a segment comes the one with the next number.
pub proof fn next_of_segment(n: u32, dir: Seq<char>, ext: Seq<char>)
    ensures
        path_of_next(segment_name(n as nat, ext), dir, ext) == Some(
            FilePathView { dir, name: segment_name((n + 1) as nat, ext) },
        ),
{
    segment_name_reads_back(n, ext);
}

/// The length of an unbroken run is unique.
pub proof fn run_length_is_unique(
    names: Seq<Seq<char>>,
    start: u32,
    ext: Seq<char>,
    a: int,
    b: int,
)
    requires
        run_length(names, start, ext, a),
        run_length(names, start, ext, b),
    ensures
        a == b,
{
    if a < b {
        assert(names.contains(segment_name((start + a) as nat, ext)));
    } else if b < a {
        assert(names.contains(segment_name((start + b) as nat, ext)));
    }
}

/// The run ends where the file with the highest number is not there.
pub proof fn run_ends_before_the_last_number(names: Seq<Seq<char>>, start: u32, ext: Seq<char>)
    requires
        !names.contains(segment_name(u32::MAX as nat, ext)),
    ensures
        run_ends(names, start, ext),
{
    lemma_run_ends(names, start, ext, 0);
}

proof fn lemma_run_ends(names: Seq<Seq<char>>, start: u32, ext: Seq<char>, count: int)
    requires
        !names.contains(segment_name(u32::MAX as nat, ext)),
        0 <= count,
        start + count <= u32::MAX,
        forall|k: int|
            0 <= k < count ==> names.contains(#[trigger] segment_name((start + k) as nat, ext)),
    ensures
        run_ends(names, start, ext),
    decreases u32::MAX - count,
{
    if names.contains(segment_name((start + count) as nat, ext)) {
        lemma_run_ends(names, start, ext, count + 1);
    } else {
        assert(run_length(names, start, ext, count));
    }
}

/// After the stale files are gone, no segment from the target on is left: the run of
/// segments from there has the length 0.
pub proof fn nothing_stale_is_left(names: Seq<Seq<char>>, from: u32, ext: Seq<char>)
    ensures
        run_length(
            names.filter(|name: Seq<char>| !stale_names(names, from, ext).contains(name)),
            from,
            ext,
            0,
        ),
{
    broadcast use vstd::seq_lib::group_filter_ensures;

    let gone = stale_names(names, from, ext);
    let left = names.filter(|name: Seq<char>| !gone.contains(name));
    let first = segment_name(from as nat, ext);
    segment_name_reads_back(from, ext);
    if left.contains(first) {
        let keep = |name: Seq<char>| !gone.contains(name);
        let is_stale = |name: Seq<char>| stale(name, from, ext);
        names.lemma_filter_contains_rev(keep, first);
        let i = choose|i: int| 0 <= i < left.len() && left[i] == first;
        assert(keep(left[i]));
        let k = choose|k: int| 0 <= k < names.len() && names[k] == first;
        assert(is_stale(names[k]));
        assert(gone.contains(first));
    }
}

/// The name of a segment is its number in decimal, with zeros in front up to five digits, a
/// dot and the extension.
pub proof fn segment_names_have_five_digits(n: u32, ext: Seq<char>)
    ensures
        ({
            let digits = number::decimal(n as nat);
            let zeros = segment_name(n as nat, ext).len() - digits.len() - 1 - ext.len();
            &&& zeros == if digits.len() < 5 {
                5 - digits.len()
            } else {
                0
            }
            &&& segment_name(n as nat, ext).skip(zeros) == digits + "."@ + ext
            &&& forall|i: int| 0 <= i < zeros ==> #[trigger] segment_name(n as nat, ext)[i] == '0'
        }),
{
    let digits = number::decimal(n as nat);
    let name = segment_name(n as nat, ext);
    reveal_strlit(".");
    let zeros = name.len() - digits.len() - 1 - ext.len();
    assert(name.skip(zeros) =~= digits + "."@ + ext);
}

/// A file is a segment exactly where its name ends in a dot and the extension, with a number
/// that `u32` holds before that.
pub proof fn segments_are_told_by_their_names(front: Seq<char>, ext: Seq<char>)
    ensures
        segment_number(front + ("."@ + ext), ext) == number::u32_value(front),
{
    let suffix = "."@ + ext;
    assert(suffix.is_suffix_of(front + suffix));
    assert((front + suffix).take(front.len() as int) =~= front);
}

/// Exactly the segments from the target on are deleted.
pub proof fn segments_from_the_target_on_are_deleted(
    names: Seq<Seq<char>>,
    from: u32,
    ext: Seq<char>,
    name: Seq<char>,
)
    ensures
        stale_names(names, from, ext).contains(name) <==> names.contains(name) && (segment_number(
            name,
            ext,
        ) matches Some(n) && n >= from),
{
    broadcast use vstd::seq_lib::group_filter_ensures;

    let is_stale = |x: Seq<char>| stale(x, from, ext);
    let gone = stale_names(names, from, ext);
    if gone.contains(name) {
        let i = choose|i: int| 0 <= i < gone.len() && gone[i] == name;
        assert(is_stale(gone[i]));
        names.lemma_filter_contains_rev(is_stale, name);
    }
    if names.contains(name) && is_stale(name) {
        let k = choose|k: int| 0 <= k < names.len() && names[k] == name;
        assert(is_stale(names[k]));
        assert(gone.contains(name));
    }
}

/// A run of segments has no gap, and ends where one is missing.
pub proof fn runs_have_no_gap(
    names: Seq<Seq<char>>,
    start: u32,
    ext: Seq<char>,
    count: int,
    n: nat,
)
    requires
        run_length(names, start, ext, count),
    ensures
        count >= 0,
        start <= n < start + count ==> names.contains(segment_name(n, ext)),
        n == start + count ==> !names.contains(segment_name(n, ext)),
{
    if start <= n < start + count {
        assert(names.contains(segment_name((start + (n - start)) as nat, ext)));
    }
}

}
