//! Text handling over sequences of characters.
use vstd::prelude::*;
use vstd::string::*;

verus! {

/// `String::push`: the character is put behind the text.
pub assume_specification[ String::push ](s: &mut String, c: char)
    ensures
        final(s)@ == old(s)@.push(c),
;

/// `c` in lower case where it is an ASCII letter, else `c`.
pub open spec fn ascii_lower(c: char) -> char {
    if 65 <= c as u32 <= 90 {
        (c as u32 + 32) as char
    } else {
        c
    }
}

/// `c` in upper case where it is an ASCII letter, else `c`.
pub open spec fn ascii_upper(c: char) -> char {
    if 97 <= c as u32 <= 122 {
        (c as u32 - 32) as char
    } else {
        c
    }
}

/// `s` with its ASCII letters in lower case.
pub open spec fn ascii_lowercase(s: Seq<char>) -> Seq<char> {
    s.map_values(|c: char| ascii_lower(c))
}

/// `s` with its ASCII letters in upper case.
pub open spec fn ascii_uppercase(s: Seq<char>) -> Seq<char> {
    s.map_values(|c: char| ascii_upper(c))
}

/// What `str::to_lowercase` makes of a text that is not ASCII.
pub uninterp spec fn unicode_lowercase(s: Seq<char>) -> Seq<char>;

/// What `str::to_uppercase` makes of a text that is not ASCII.
pub uninterp spec fn unicode_uppercase(s: Seq<char>) -> Seq<char>;

/// The text in lower case.
pub open spec fn lowercase(s: Seq<char>) -> Seq<char> {
    if vstd::utf8::is_ascii_chars(s) {
        ascii_lowercase(s)
    } else {
        unicode_lowercase(s)
    }
}

/// The text in upper case.
pub open spec fn uppercase(s: Seq<char>) -> Seq<char> {
    if vstd::utf8::is_ascii_chars(s) {
        ascii_uppercase(s)
    } else {
        unicode_uppercase(s)
    }
}

/// `str::to_lowercase`: the lower case of Unicode, which is a function of the text. Of ASCII
/// text it changes the letters `A` to `Z` alone.
pub assume_specification[ str::to_lowercase ](s: &str) -> (r: String)
    ensures
        r@ == if vstd::utf8::is_ascii_chars(s@) {
            ascii_lowercase(s@)
        } else {
            unicode_lowercase(s@)
        },
;

/// `str::to_uppercase`: the upper case of Unicode, which is a function of the text. Of ASCII
/// text it changes the letters `a` to `z` alone.
pub assume_specification[ str::to_uppercase ](s: &str) -> (r: String)
    ensures
        r@ == if vstd::utf8::is_ascii_chars(s@) {
            ascii_uppercase(s@)
        } else {
            unicode_uppercase(s@)
        },
;

/// Writes the ASCII letters of `s` in lower case.
pub fn to_ascii_lower(s: &str) -> (r: String)
    ensures
        r@ == ascii_lowercase(s@),
{
    let chars = to_chars(s);
    let n: usize = chars.len();
    let mut r = String::new();
    let mut i: usize = 0;
    while i < n
        invariant
            n == chars@.len(),
            chars@ == s@,
            i <= n,
            r@ == ascii_lowercase(s@.take(i as int)),
        decreases n - i,
    {
        let c = chars[i];
        let code: u32 = c as u32;
        let lower: char = if 65 <= code && code <= 90 { (code as u8 + 32u8) as char } else { c };
        r.push(lower);
        assert(r@ =~= ascii_lowercase(s@.take(i + 1)));
        i += 1;
    }
    assert(s@.take(n as int) =~= s@);
    r
}

/// The characters of `s`, in order.
pub fn to_chars(s: &str) -> (chars: Vec<char>)
    ensures
        chars@ == s@,
{
    let mut chars: Vec<char> = Vec::new();
    for c in it: s.chars()
        invariant
            it.seq() == s@,
            chars@ == s@.take(it.index()),
    {
        chars.push(c);
    }
    chars
}

/// The text made of `chars`.
pub fn from_chars(chars: &[char]) -> (text: String)
    ensures
        text@ == chars@,
{
    let mut text = String::new();
    let n: usize = chars.len();
    let mut i: usize = 0;
    while i < n
        invariant
            n == chars@.len(),
            i <= n,
            text@ == chars@.take(i as int),
        decreases n - i,
    {
        text.push(chars[i]);
        i += 1;
    }
    text
}

/// Whether two texts have the same characters.
pub fn same_text(a: &str, b: &str) -> (same: bool)
    ensures
        same == (a@ == b@),
{
    proof {
        vstd::utf8::encode_utf8_decode_utf8(a@);
        vstd::utf8::encode_utf8_decode_utf8(b@);
    }
    let left = a.as_bytes();
    let right = b.as_bytes();
    let n: usize = left.len();
    if n != right.len() {
        return false;
    }
    let mut i: usize = 0;
    while i < n
        invariant
            n == left@.len(),
            n == right@.len(),
            left@ == a.spec_bytes(),
            right@ == b.spec_bytes(),
            i <= n,
            left@.take(i as int) == right@.take(i as int),
        decreases n - i,
    {
        if left[i] != right[i] {
            return false;
        }
        i += 1;
    }
    assert(left@.take(n as int) == left@);
    assert(right@.take(n as int) == right@);
    true
}


/// The texts of a list, as character sequences.
pub open spec fn texts(list: Seq<String>) -> Seq<Seq<char>> {
    list.map_values(|s: String| s@)
}

/// The characters of an optional text.
pub open spec fn opt_text(s: Option<&str>) -> Option<Seq<char>> {
    match s {
        Some(x) => Some(x@),
        None => None,
    }
}

/// The characters of an optional owned text.
pub open spec fn opt_string(s: Option<String>) -> Option<Seq<char>> {
    match s {
        Some(x) => Some(x@),
        None => None,
    }
}

/// A copy of `s`.
pub fn copy_text(s: &str) -> (r: String)
    ensures
        r@ == s@,
{
    s.to_owned()
}

/// A copy of an optional text.
pub fn copy_opt(s: &Option<String>) -> (r: Option<String>)
    ensures
        opt_string(r) == opt_string(*s),
{
    match s {
        Some(x) => Some(x.clone()),
        None => None,
    }
}

/// An owned copy of `s`.
pub fn own_opt(s: Option<&str>) -> (r: Option<String>)
    ensures
        opt_string(r) == opt_text(s),
{
    match s {
        Some(s) => Some(copy_text(s)),
        None => None,
    }
}

/// Borrows an optional text.
pub fn borrow_opt(s: &Option<String>) -> (r: Option<&str>)
    ensures
        opt_text(r) == opt_string(*s),
{
    match s {
        Some(x) => Some(x.as_str()),
        None => None,
    }
}

/// Whether `list` holds the text `s`.
pub fn list_has(list: &[String], s: &str) -> (found: bool)
    ensures
        found == texts(list@).contains(s@),
{
    let n: usize = list.len();
    let mut i: usize = 0;
    while i < n
        invariant
            n == list@.len(),
            i <= n,
            forall|k: int| 0 <= k < i ==> texts(list@)[k] != s@,
        decreases n - i,
    {
        if same_text(list[i].as_str(), s) {
            assert(texts(list@)[i as int] == s@);
            return true;
        }
        i += 1;
    }
    false
}

/// `a` followed by `b`.
pub fn join2(a: &str, b: &str) -> (r: String)
    ensures
        r@ == a@ + b@,
{
    let mut r = a.to_owned();
    r.append(b);
    r
}

/// `a` followed by `b` and `c`.
pub fn join3(a: &str, b: &str, c: &str) -> (r: String)
    ensures
        r@ == a@ + b@ + c@,
{
    let mut r = a.to_owned();
    r.append(b);
    r.append(c);
    r
}

/// The parts in order, with `sep` between neighbours.
pub open spec fn joined(parts: Seq<Seq<char>>, sep: Seq<char>) -> Seq<char>
    decreases parts.len(),
{
    if parts.len() == 0 {
        Seq::empty()
    } else if parts.len() == 1 {
        parts[0]
    } else {
        joined(parts.drop_last(), sep) + sep + parts.last()
    }
}

/// Joins the texts of `list`, with `sep` between neighbours.
pub fn join_list(list: &[String], sep: &str) -> (r: String)
    ensures
        r@ == joined(texts(list@), sep@),
{
    let mut r = String::new();
    let n: usize = list.len();
    let mut i: usize = 0;
    while i < n
        invariant
            n == list@.len(),
            i <= n,
            r@ == joined(texts(list@).take(i as int), sep@),
        decreases n - i,
    {
        if i > 0 {
            r.append(sep);
        }
        r.append(list[i].as_str());
        proof {
            let next = texts(list@).take(i + 1);
            assert(next.drop_last() =~= texts(list@).take(i as int));
            assert(next.last() == list@[i as int]@);
        }
        i += 1;
    }
    assert(texts(list@).take(n as int) =~= texts(list@));
    r
}

/// The characters with the Unicode property `White_Space`.
pub open spec fn white_space(c: char) -> bool {
    ||| 0x9 <= c as u32 <= 0xD
    ||| c as u32 == 0x20
    ||| c as u32 == 0x85
    ||| c as u32 == 0xA0
    ||| c as u32 == 0x1680
    ||| 0x2000 <= c as u32 <= 0x200A
    ||| c as u32 == 0x2028
    ||| c as u32 == 0x2029
    ||| c as u32 == 0x202F
    ||| c as u32 == 0x205F
    ||| c as u32 == 0x3000
}

/// Whether `c` is white space.
pub fn is_white_space(c: char) -> (r: bool)
    ensures
        r == white_space(c),
{
    let code: u32 = c as u32;
    (0x9 <= code && code <= 0xD) || code == 0x20 || code == 0x85 || code == 0xA0 || code == 0x1680
        || (0x2000 <= code && code <= 0x200A) || code == 0x2028 || code == 0x2029 || code == 0x202F
        || code == 0x205F || code == 0x3000
}

/// `s` without the white space at its front.
pub open spec fn trim_front(s: Seq<char>) -> Seq<char>
    decreases s.len(),
{
    if s.len() > 0 && white_space(s[0]) {
        trim_front(s.drop_first())
    } else {
        s
    }
}

/// `s` without the white space at its back.
pub open spec fn trim_back(s: Seq<char>) -> Seq<char>
    decreases s.len(),
{
    if s.len() > 0 && white_space(s.last()) {
        trim_back(s.drop_last())
    } else {
        s
    }
}

/// `s` without the white space at either end.
pub open spec fn trimmed(s: Seq<char>) -> Seq<char> {
    trim_back(trim_front(s))
}

/// Drops the white space at both ends of `chars`.
pub fn trim(chars: &[char]) -> (r: Vec<char>)
    ensures
        r@ == trimmed(chars@),
{
    let n: usize = chars.len();
    let mut from: usize = 0;
    assert(chars@.skip(0) =~= chars@);
    while from < n && is_white_space(chars[from])
        invariant
            n == chars@.len(),
            from <= n,
            trim_front(chars@) == trim_front(chars@.skip(from as int)),
        decreases n - from,
    {
        assert(chars@.skip(from as int).drop_first() =~= chars@.skip(from + 1));
        from += 1;
    }
    let mut to: usize = n;
    assert(chars@.subrange(from as int, n as int) =~= chars@.skip(from as int));
    while from < to && is_white_space(chars[to - 1])
        invariant
            n == chars@.len(),
            from <= to <= n,
            trimmed(chars@) == trim_back(chars@.subrange(from as int, to as int)),
        decreases to,
    {
        assert(chars@.subrange(from as int, to as int).drop_last() =~= chars@.subrange(
            from as int,
            to - 1,
        ));
        to -= 1;
    }
    let mut r: Vec<char> = Vec::new();
    let mut i: usize = from;
    while i < to
        invariant
            from <= i <= to <= n,
            n == chars@.len(),
            r@ == chars@.subrange(from as int, i as int),
        decreases to - i,
    {
        r.push(chars[i]);
        i += 1;
    }
    r
}

/// The stretches of `s` between the separators, in order.
pub open spec fn split_on(s: Seq<char>, sep: char) -> Seq<Seq<char>>
    decreases s.len(),
{
    if s.len() == 0 {
        seq![Seq::<char>::empty()]
    } else {
        let before = split_on(s.drop_last(), sep);
        if s.last() == sep {
            before.push(Seq::<char>::empty())
        } else {
            before.drop_last().push(before.last().push(s.last()))
        }
    }
}

/// Splits `s` at every `sep`.
pub fn split(s: &str, sep: char) -> (parts: Vec<Vec<char>>)
    ensures
        parts@.map_values(|p: Vec<char>| p@) == split_on(s@, sep),
{
    let chars = to_chars(s);
    let n: usize = chars.len();
    let mut parts: Vec<Vec<char>> = Vec::new();
    let mut current: Vec<char> = Vec::new();
    let mut i: usize = 0;
    while i < n
        invariant
            n == chars@.len(),
            chars@ == s@,
            i <= n,
            parts@.map_values(|p: Vec<char>| p@).push(current@) == split_on(s@.take(i as int), sep),
        decreases n - i,
    {
        proof {
            assert(s@.take(i + 1).drop_last() =~= s@.take(i as int));
            assert(s@.take(i + 1).last() == s@[i as int]);
        }
        let ghost done = parts@.map_values(|p: Vec<char>| p@);
        let ghost held = current@;
        let c = chars[i];
        if c == sep {
            parts.push(current);
            current = Vec::new();
            assert(parts@.map_values(|p: Vec<char>| p@) =~= done.push(held));
        } else {
            current.push(c);
            assert(done.push(held).drop_last() =~= done);
        }
        i += 1;
    }
    assert(s@.take(n as int) =~= s@);
    let ghost done = parts@.map_values(|p: Vec<char>| p@);
    let ghost held = current@;
    parts.push(current);
    assert(parts@.map_values(|p: Vec<char>| p@) =~= done.push(held));
    parts
}

/// What stands behind the last `c` of `s`; all of `s` where there is none.
pub open spec fn after_last(s: Seq<char>, c: char) -> Seq<char>
    decreases s.len(),
{
    if s.len() == 0 || s.last() == c {
        Seq::empty()
    } else {
        after_last(s.drop_last(), c).push(s.last())
    }
}

/// What stands behind the last `c` of `s`; all of `s` where there is none.
pub fn behind_last(s: &str, c: char) -> (r: String)
    ensures
        r@ == after_last(s@, c),
{
    let mut r = String::new();
    let mut i: usize = 0;
    let chars = to_chars(s);
    let n: usize = chars.len();
    while i < n
        invariant
            n == chars@.len(),
            chars@ == s@,
            i <= n,
            r@ == after_last(s@.take(i as int), c),
        decreases n - i,
    {
        proof {
            assert(s@.take(i + 1).drop_last() =~= s@.take(i as int));
            assert(s@.take(i + 1).last() == s@[i as int]);
        }
        if chars[i] == c {
            r = String::new();
        } else {
            r.push(chars[i]);
        }
        i += 1;
    }
    assert(s@.take(n as int) =~= s@);
    r
}

/// The test for a character other than `c`.
pub open spec fn other_than(c: char) -> spec_fn(char) -> bool {
    |x: char| x != c
}

/// `s` without the characters `c`.
pub open spec fn without(s: Seq<char>, c: char) -> Seq<char> {
    s.filter(other_than(c))
}

/// Drops every `c` from `s`.
pub fn drop_char(s: &str, c: char) -> (r: String)
    ensures
        r@ == without(s@, c),
{
    let ghost keep = other_than(c);
    let chars = to_chars(s);
    let n: usize = chars.len();
    let mut r = String::new();
    let mut i: usize = 0;
    while i < n
        invariant
            n == chars@.len(),
            chars@ == s@,
            keep == other_than(c),
            i <= n,
            r@ == s@.take(i as int).filter(keep),
        decreases n - i,
    {
        proof {
            assert(s@.take(i + 1) =~= s@.take(i as int).push(s@[i as int]));
            s@.take(i as int).lemma_filter_push(s@[i as int], keep);
        }
        if chars[i] != c {
            r.push(chars[i]);
        }
        i += 1;
    }
    assert(s@.take(n as int) =~= s@);
    r
}

/// `s` without its white space.
pub open spec fn without_white_space(s: Seq<char>) -> Seq<char> {
    s.filter(|x: char| !white_space(x))
}

/// Drops the white space from `s`.
pub fn drop_white_space(s: &str) -> (r: String)
    ensures
        r@ == without_white_space(s@),
{
    let ghost keep = |x: char| !white_space(x);
    let chars = to_chars(s);
    let n: usize = chars.len();
    let mut r = String::new();
    let mut i: usize = 0;
    while i < n
        invariant
            n == chars@.len(),
            chars@ == s@,
            keep == (|x: char| !white_space(x)),
            i <= n,
            r@ == s@.take(i as int).filter(keep),
        decreases n - i,
    {
        proof {
            assert(s@.take(i + 1) =~= s@.take(i as int).push(s@[i as int]));
            s@.take(i as int).lemma_filter_push(s@[i as int], keep);
        }
        if !is_white_space(chars[i]) {
            r.push(chars[i]);
        }
        i += 1;
    }
    assert(s@.take(n as int) =~= s@);
    r
}

/// The text of the first `n` characters.
pub fn front(chars: &[char], n: usize) -> (r: String)
    requires
        n <= chars@.len(),
    ensures
        r@ == chars@.take(n as int),
{
    let mut r = String::new();
    let mut i: usize = 0;
    while i < n
        invariant
            i <= n <= chars@.len(),
            r@ == chars@.take(i as int),
        decreases n - i,
    {
        r.push(chars[i]);
        i += 1;
        assert(chars@.take(i as int) =~= chars@.take(i - 1).push(chars@[i - 1]));
    }
    r
}

/// Whether `part` stands in `chars` at position `at`.
pub open spec fn part_at(s: Seq<char>, part: Seq<char>, at: int) -> bool {
    &&& 0 <= at
    &&& at + part.len() <= s.len()
    &&& s.subrange(at, at + part.len()) == part
}

/// Whether `part` stands somewhere in `s`.
pub open spec fn has_part(s: Seq<char>, part: Seq<char>) -> bool {
    exists|at: int| #[trigger] part_at(s, part, at)
}

fn stands_at(chars: &[char], part: &[char], at: usize) -> (r: bool)
    ensures
        r == part_at(chars@, part@, at as int),
{
    let n: usize = part.len();
    let total: usize = chars.len();
    if at > total || n > total - at {
        return false;
    }
    let mut i: usize = 0;
    while i < n
        invariant
            n == part@.len(),
            total == chars@.len(),
            at + n <= total,
            i <= n,
            forall|k: int| 0 <= k < i ==> chars@[at + k] == part@[k],
        decreases n - i,
    {
        if chars[at + i] != part[i] {
            assert(chars@.subrange(at as int, at + n)[i as int] != part@[i as int]);
            return false;
        }
        i += 1;
    }
    assert(chars@.subrange(at as int, at + n) =~= part@);
    true
}

/// Whether `part` stands somewhere in `s`.
pub fn contains_part(s: &str, part: &str) -> (found: bool)
    ensures
        found == has_part(s@, part@),
{
    let chars = to_chars(s);
    let wanted = to_chars(part);
    let n: usize = chars.len();
    let mut i: usize = 0;
    while i < n
        invariant
            n == chars@.len(),
            chars@ == s@,
            wanted@ == part@,
            i <= n,
            forall|at: int| 0 <= at < i ==> !#[trigger] part_at(s@, part@, at),
        decreases n - i,
    {
        if stands_at(&chars, &wanted, i) {
            return true;
        }
        i += 1;
    }
    stands_at(&chars, &wanted, n)
}

/// Whether `s` begins with `front`.
pub fn begins_with(s: &str, front: &str) -> (r: bool)
    ensures
        r == front@.is_prefix_of(s@),
{
    let chars = to_chars(s);
    let wanted = to_chars(front);
    stands_at(&chars, &wanted, 0)
}

/// Whether `s` ends with `back`.
pub fn ends_with(s: &str, back: &str) -> (r: bool)
    ensures
        r == back@.is_suffix_of(s@),
{
    let chars = to_chars(s);
    let wanted = to_chars(back);
    if wanted.len() > chars.len() {
        return false;
    }
    stands_at(&chars, &wanted, chars.len() - wanted.len())
}


/// The texts of a list of literals.
pub open spec fn literals(list: Seq<&str>) -> Seq<Seq<char>> {
    list.map_values(|s: &str| s@)
}

/// The first position of `x` in `list`, or -1.
pub open spec fn position(list: Seq<Seq<char>>, x: Seq<char>) -> int
    decreases list.len(),
{
    if list.len() == 0 {
        -1
    } else {
        let before = position(list.drop_last(), x);
        if before >= 0 {
            before
        } else if list.last() == x {
            list.len() - 1
        } else {
            -1
        }
    }
}

/// The first position of `s` in `list`, or -1.
pub fn position_in(list: &[&str], s: &str) -> (r: i32)
    requires
        list@.len() <= i32::MAX,
    ensures
        r == position(literals(list@), s@),
        -1 <= r < list@.len(),
{
    let n: usize = list.len();
    let mut i: usize = 0;
    let mut found: i32 = -1;
    while i < n
        invariant
            n == list@.len(),
            n <= i32::MAX,
            i <= n,
            -1 <= found < i,
            found == position(literals(list@).take(i as int), s@),
        decreases n - i,
    {
        proof {
            assert(literals(list@).take(i + 1).drop_last() =~= literals(list@).take(i as int));
            assert(literals(list@).take(i + 1).last() == list@[i as int]@);
        }
        if found < 0 && same_text(list[i], s) {
            found = i as i32;
        }
        i += 1;
    }
    assert(literals(list@).take(n as int) =~= literals(list@));
    found
}

/// Whether `s` is one of the literals of `list`.
pub fn one_of(list: &[&str], s: &str) -> (found: bool)
    ensures
        found == literals(list@).contains(s@),
{
    let n: usize = list.len();
    let mut i: usize = 0;
    while i < n
        invariant
            n == list@.len(),
            i <= n,
            forall|k: int| 0 <= k < i ==> literals(list@)[k] != s@,
        decreases n - i,
    {
        if same_text(list[i], s) {
            assert(literals(list@)[i as int] == s@);
            return true;
        }
        i += 1;
    }
    false
}

/// How the parts of a list are cleaned.
pub enum Cleaning {
    /// White space at the ends is dropped.
    Trim,
    /// As `Trim`, and then in lower case.
    Lower,
    /// As `Lower`, and then without blanks.
    LowerPacked,
}

/// A part of a list, cleaned.
pub open spec fn cleaned(part: Seq<char>, how: Cleaning) -> Seq<char> {
    match how {
        Cleaning::Trim => trimmed(part),
        Cleaning::Lower => lowercase(trimmed(part)),
        Cleaning::LowerPacked => without(lowercase(trimmed(part)), ' '),
    }
}

/// The test for a text with characters in it.
pub open spec fn filled() -> spec_fn(Seq<char>) -> bool {
    |part: Seq<char>| part.len() > 0
}

/// The parts of `s` between the separators, cleaned; those that are then empty are dropped.
pub open spec fn listed(s: Seq<char>, sep: char, how: Cleaning) -> Seq<Seq<char>> {
    split_on(s, sep).map_values(|part: Seq<char>| cleaned(part, how)).filter(filled())
}

fn clean(part: &[char], how: &Cleaning) -> (r: String)
    ensures
        r@ == cleaned(part@, *how),
{
    let bare = from_chars(&trim(part));
    match how {
        Cleaning::Trim => bare,
        Cleaning::Lower => bare.as_str().to_lowercase(),
        Cleaning::LowerPacked => {
            let lower = bare.as_str().to_lowercase();
            drop_char(lower.as_str(), ' ')
        },
    }
}

/// Reads a list: the parts of `s` between the separators, cleaned, without empty ones.
pub fn read_list(s: &str, sep: char, how: Cleaning) -> (r: Vec<String>)
    ensures
        texts(r@) == listed(s@, sep, how),
{
    let parts = split(s, sep);
    let n: usize = parts.len();
    let ghost raw = split_on(s@, sep);
    let ghost tidy = raw.map_values(|part: Seq<char>| cleaned(part, how));
    let mut r: Vec<String> = Vec::new();
    let mut i: usize = 0;
    while i < n
        invariant
            n == parts@.len(),
            raw == parts@.map_values(|p: Vec<char>| p@),
            tidy == raw.map_values(|part: Seq<char>| cleaned(part, how)),
            i <= n,
            texts(r@) == tidy.take(i as int).filter(filled()),
        decreases n - i,
    {
        let item = clean(&parts[i], &how);
        proof {
            assert(raw[i as int] == parts@[i as int]@);
            assert(tidy[i as int] == item@);
            assert(tidy.take(i + 1) =~= tidy.take(i as int).push(tidy[i as int]));
            tidy.take(i as int).lemma_filter_push(tidy[i as int], filled());
        }
        if !item.as_str().is_empty() {
            let ghost before = texts(r@);
            r.push(item);
            assert(texts(r@) =~= before.push(item@));
        }
        i += 1;
    }
    assert(tidy.take(n as int) =~= tidy);
    r
}

// ── Laws ─────────────────────────────────────────────────────────────────────

/// The letters from A to Z and from a to z stand in pairs that lower and upper case go between;
/// other characters stay as they are.
pub proof fn letters_have_two_cases(c: char)
    ensures
        'A' <= c <= 'Z' ==> ascii_lower(c) as u32 - c as u32 == 'a' as u32 - 'A' as u32,
        'a' <= c <= 'z' ==> c as u32 - ascii_upper(c) as u32 == 'a' as u32 - 'A' as u32,
        'A' <= c <= 'Z' ==> ascii_upper(ascii_lower(c)) == c,
        'a' <= c <= 'z' ==> ascii_lower(ascii_upper(c)) == c,
        !('A' <= c <= 'Z') ==> ascii_lower(c) == c,
        !('a' <= c <= 'z') ==> ascii_upper(c) == c,
{
}

/// A text changes its case character by character.
pub proof fn texts_change_case_by_character(s: Seq<char>, i: int)
    requires
        0 <= i < s.len(),
    ensures
        ascii_lowercase(s).len() == s.len(),
        ascii_uppercase(s).len() == s.len(),
        ascii_lowercase(s)[i] == ascii_lower(s[i]),
        ascii_uppercase(s)[i] == ascii_upper(s[i]),
        vstd::utf8::is_ascii_chars(s) ==> lowercase(s) == ascii_lowercase(s),
        vstd::utf8::is_ascii_chars(s) ==> uppercase(s) == ascii_uppercase(s),
{
}

/// The white space of Unicode: the controls from the tabulator to the carriage return, the
/// blank, the next line, the spaces that do not break, those of various widths, and the
/// separators of lines and paragraphs.
pub proof fn white_space_is_that_of_unicode(c: char)
    ensures
        white_space(c) <==> {
            ||| c == '\t' || c == '\n' || c == '\u{b}' || c == '\u{c}' || c == '\r'
            ||| c == ' ' || c == '\u{85}' || c == '\u{a0}' || c == '\u{1680}'
            ||| '\u{2000}' <= c <= '\u{200a}'
            ||| c == '\u{2028}' || c == '\u{2029}' || c == '\u{202f}'
            ||| c == '\u{205f}' || c == '\u{3000}'
        },
{
}

/// White space around a text is dropped, and what stands between its first and its last other
/// character stays as it is.
pub proof fn what_stands_between_white_space_stays(
    front: Seq<char>,
    mid: Seq<char>,
    back: Seq<char>,
)
    requires
        forall|i: int| 0 <= i < front.len() ==> white_space(#[trigger] front[i]),
        forall|i: int| 0 <= i < back.len() ==> white_space(#[trigger] back[i]),
        mid.len() > 0 ==> !white_space(mid[0]) && !white_space(mid.last()),
    ensures
        trimmed(front + mid + back) == mid,
{
    lemma_front(front, mid + back);
    assert(front + mid + back =~= front + (mid + back));
    if mid.len() > 0 {
        assert((mid + back)[0] == mid[0]);
        lemma_back(mid, back);
    } else {
        assert(mid + back =~= back);
        lemma_front(back, Seq::empty());
        assert(back + Seq::<char>::empty() =~= back);
    }
}

proof fn lemma_front(front: Seq<char>, rest: Seq<char>)
    requires
        forall|i: int| 0 <= i < front.len() ==> white_space(#[trigger] front[i]),
    ensures
        trim_front(front + rest) == trim_front(rest),
    decreases front.len(),
{
    if front.len() == 0 {
        assert(front + rest =~= rest);
    } else {
        let less = front.drop_first();
        assert(forall|i: int| 0 <= i < less.len() ==> #[trigger] less[i] == front[i + 1]);
        lemma_front(less, rest);
        assert((front + rest).drop_first() =~= less + rest);
        assert((front + rest)[0] == front[0]);
    }
}

proof fn lemma_back(mid: Seq<char>, back: Seq<char>)
    requires
        forall|i: int| 0 <= i < back.len() ==> white_space(#[trigger] back[i]),
        mid.len() > 0,
        !white_space(mid.last()),
    ensures
        trim_back(mid + back) == mid,
    decreases back.len(),
{
    if back.len() == 0 {
        assert(mid + back =~= mid);
    } else {
        lemma_back(mid, back.drop_last());
        assert((mid + back).drop_last() =~= mid + back.drop_last());
        assert((mid + back).last() == back.last());
    }
}

/// A text is split at its separators and nowhere else: a separator parts what stands before it
/// from what stands behind it, and a text without one is a single part.
pub proof fn texts_are_split_at_separators(a: Seq<char>, b: Seq<char>, sep: char)
    ensures
        split_on(a + seq![sep] + b, sep) == split_on(a, sep) + split_on(b, sep),
        !a.contains(sep) ==> split_on(a, sep) == seq![a],
{
    lemma_split(a, b, sep);
    if !a.contains(sep) {
        lemma_unsplit(a, sep);
    }
}

proof fn lemma_unsplit(a: Seq<char>, sep: char)
    requires
        !a.contains(sep),
    ensures
        split_on(a, sep) == seq![a],
    decreases a.len(),
{
    if a.len() == 0 {
        assert(a =~= Seq::<char>::empty());
    } else {
        let less = a.drop_last();
        assert(a.last() == a[a.len() - 1]);
        assert(!less.contains(sep)) by {
            if less.contains(sep) {
                let i = choose|i: int| 0 <= i < less.len() && less[i] == sep;
                assert(a[i] == sep);
            }
        }
        lemma_unsplit(less, sep);
        assert(less.push(a.last()) =~= a);
        assert(split_on(a, sep) =~= seq![a]);
    }
}

proof fn lemma_split(a: Seq<char>, b: Seq<char>, sep: char)
    ensures
        split_on(a + seq![sep] + b, sep) == split_on(a, sep) + split_on(b, sep),
        split_on(b, sep).len() > 0,
    decreases b.len(),
{
    let s = a + seq![sep] + b;
    if b.len() == 0 {
        assert(s.drop_last() =~= a);
        assert(s.last() == sep);
        assert(split_on(s, sep) =~= split_on(a, sep) + split_on(b, sep));
    } else {
        lemma_split(a, b.drop_last(), sep);
        assert(s.drop_last() =~= a + seq![sep] + b.drop_last());
        assert(s.last() == b.last());
        let first = split_on(a, sep);
        let rest = split_on(b.drop_last(), sep);
        assert((first + rest).last() == rest.last());
        assert((first + rest).drop_last() =~= first + rest.drop_last());
        assert(split_on(s, sep) =~= first + split_on(b, sep));
    }
}

/// A list is read part by part: what stands before a separator is listed before what stands
/// behind it, and a part without a separator gives one item, cleaned, or none where nothing is
/// left of it.
pub proof fn lists_are_read_part_by_part(a: Seq<char>, b: Seq<char>, sep: char, how: Cleaning)
    ensures
        listed(a + seq![sep] + b, sep, how) == listed(a, sep, how) + listed(b, sep, how),
        !a.contains(sep) ==> ({
            let bare = trimmed(a);
            let item = match how {
                Cleaning::Trim => bare,
                Cleaning::Lower => lowercase(bare),
                Cleaning::LowerPacked => without(lowercase(bare), ' '),
            };
            listed(a, sep, how) == if item.len() > 0 {
                seq![item]
            } else {
                Seq::empty()
            }
        }),
{
    let tidy = |part: Seq<char>| cleaned(part, how);
    texts_are_split_at_separators(a, b, sep);
    let x = split_on(a, sep).map_values(tidy);
    let y = split_on(b, sep).map_values(tidy);
    assert(split_on(a + seq![sep] + b, sep).map_values(tidy) =~= x + y);
    Seq::filter_distributes_over_add(x, y, filled());
    if !a.contains(sep) {
        let item = cleaned(a, how);
        assert(x =~= Seq::empty().push(item));
        Seq::empty().lemma_filter_push(item, filled());
        assert(Seq::<Seq<char>>::empty().filter(filled()) =~= Seq::empty()) by {
            reveal(Seq::filter);
        }
        assert(Seq::<Seq<char>>::empty().push(item) =~= seq![item]);
    }
}

/// What stands behind the last of some characters is what no more of them stand in; a text
/// without any stands behind all as it is.
pub proof fn what_stands_behind_the_last(a: Seq<char>, b: Seq<char>, c: char)
    requires
        !b.contains(c),
    ensures
        after_last(a + seq![c] + b, c) == b,
        after_last(b, c) == b,
    decreases b.len(),
{
    let s = a + seq![c] + b;
    if b.len() == 0 {
        assert(s.last() == c);
        assert(b =~= Seq::<char>::empty());
    } else {
        let less = b.drop_last();
        assert(b.last() == b[b.len() - 1]);
        assert(!less.contains(c)) by {
            if less.contains(c) {
                let i = choose|i: int| 0 <= i < less.len() && less[i] == c;
                assert(b[i] == c);
            }
        }
        what_stands_behind_the_last(a, less, c);
        assert(s.drop_last() =~= a + seq![c] + less);
        assert(s.last() == b.last());
        assert(less.push(b.last()) =~= b);
    }
}

/// A character is dropped wherever it stands, and all others stay in their order.
pub proof fn characters_are_dropped_everywhere(s: Seq<char>, c: char, x: char)
    ensures
        without(Seq::empty(), c) == Seq::<char>::empty(),
        without(s.push(c), c) == without(s, c),
        x != c ==> without(s.push(x), c) == without(s, c).push(x),
        without_white_space(Seq::empty()) == Seq::<char>::empty(),
        white_space(x) ==> without_white_space(s.push(x)) == without_white_space(s),
        !white_space(x) ==> without_white_space(s.push(x)) == without_white_space(s).push(x),
{
    s.lemma_filter_push(c, other_than(c));
    s.lemma_filter_push(x, other_than(c));
    s.lemma_filter_push(x, |y: char| !white_space(y));
    assert(Seq::<char>::empty().filter(other_than(c)) =~= Seq::empty()) by {
        reveal(Seq::filter);
    }
    assert(Seq::<char>::empty().filter(|y: char| !white_space(y)) =~= Seq::empty()) by {
        reveal(Seq::filter);
    }
}

/// A text stands in another exactly where this is made of something before it, the text, and
/// something behind it.
pub proof fn parts_stand_between_others(s: Seq<char>, part: Seq<char>)
    ensures
        has_part(s, part) <==> exists|a: Seq<char>, b: Seq<char>| s == #[trigger] (a + part + b),
{
    if has_part(s, part) {
        let at = choose|at: int| #[trigger] part_at(s, part, at);
        let a = s.take(at);
        let b = s.skip(at + part.len());
        assert(s =~= a + part + b) by {
            assert(forall|i: int|
                0 <= i < part.len() ==> #[trigger] part[i] == s.subrange(
                    at,
                    at + part.len(),
                )[i]);
        }
    }
    if exists|a: Seq<char>, b: Seq<char>| s == #[trigger] (a + part + b) {
        let (a, b) = choose|a: Seq<char>, b: Seq<char>| s == #[trigger] (a + part + b);
        assert(s.subrange(a.len() as int, (a.len() + part.len()) as int) =~= part);
        assert(part_at(s, part, a.len() as int));
    }
}

/// The position of a text in a list is the first where it stands; -1 tells that it is nowhere.
pub proof fn positions_are_the_first(list: Seq<Seq<char>>, x: Seq<char>)
    ensures
        list.contains(x) ==> {
            &&& 0 <= position(list, x) < list.len()
            &&& list[position(list, x)] == x
            &&& forall|k: int| 0 <= k < position(list, x) ==> #[trigger] list[k] != x
        },
        !list.contains(x) ==> position(list, x) == -1,
    decreases list.len(),
{
    if list.len() > 0 {
        let less = list.drop_last();
        positions_are_the_first(less, x);
        assert(list.last() == list[list.len() - 1]);
        if less.contains(x) {
            let i = choose|i: int| 0 <= i < less.len() && less[i] == x;
            assert(list[i] == x);
            assert forall|k: int| 0 <= k < position(list, x) implies #[trigger] list[k] != x by {
                assert(less[k] == list[k]);
            }
        } else {
            assert forall|k: int| 0 <= k < list.len() - 1 implies #[trigger] list[k] != x by {
                assert(less[k] == list[k]);
            }
        }
    }
}

/// Texts are joined with the separator between neighbours alone.
pub proof fn separators_stand_between_neighbours(
    parts: Seq<Seq<char>>,
    part: Seq<char>,
    sep: Seq<char>,
)
    ensures
        joined(Seq::empty(), sep) == Seq::<char>::empty(),
        joined(seq![part], sep) == part,
        parts.len() > 0 ==> joined(parts.push(part), sep) == joined(parts, sep) + sep + part,
{
    assert(parts.push(part).drop_last() =~= parts);
}

}
