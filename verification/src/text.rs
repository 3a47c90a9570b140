//! Character-level helpers on which the text rules of the library are built.
//!
//! Every rule is stated over `Seq<char>`, the view of a string, and computed
//! over `Vec<char>`.

use vstd::prelude::*;

verus! {

/// The lower-case form of a text, as Unicode defines it.
pub uninterp spec fn lowercase_of(s: Seq<char>) -> Seq<char>;

/// Whether a character counts as white space: the twenty-five characters
/// that Unicode gives the property White_Space.
pub open spec fn whitespace(c: char) -> bool {
    let n = c as u32;
    ||| 0x09 <= n <= 0x0d
    ||| n == 0x20
    ||| n == 0x85
    ||| n == 0xa0
    ||| n == 0x1680
    ||| 0x2000 <= n <= 0x200a
    ||| n == 0x2028
    ||| n == 0x2029
    ||| n == 0x202f
    ||| n == 0x205f
    ||| n == 0x3000
}

/// Whether a character counts as a number.
pub uninterp spec fn numeric(c: char) -> bool;

/// Calls `str::to_lowercase`. The contract only gives the result its name:
/// the same text always has the same lower-case form.
#[verifier::external_body]
pub(crate) fn lowercase(s: &str) -> (r: String)
    ensures
        r@ == lowercase_of(s@),
{
    s.to_lowercase()
}

/// Tests whether a character counts as white space.
pub fn is_whitespace(c: char) -> (r: bool)
    ensures
        r == whitespace(c),
{
    let n: u32 = c as u32;
    (0x09 <= n && n <= 0x0d) || n == 0x20 || n == 0x85 || n == 0xa0 || n == 0x1680 || (0x2000 <= n
        && n <= 0x200a) || n == 0x2028 || n == 0x2029 || n == 0x202f || n == 0x205f || n == 0x3000
}

/// Calls `char::is_numeric`. The contract gives the answer its name, and
/// says that the ten decimal digits count as numbers.
#[verifier::external_body]
pub(crate) fn is_numeric(c: char) -> (r: bool)
    ensures
        r == numeric(c),
        0x30 <= c as u32 <= 0x39 ==> r,
{
    c.is_numeric()
}

/// Calls `String::push`, which appends one character to the end.
#[verifier::external_body]
pub(crate) fn push_char(s: &mut String, c: char)
    ensures
        final(s)@ == old(s)@.push(c),
{
    s.push(c)
}

/// The characters of `s`, in order.
pub fn chars_of(s: &str) -> (v: Vec<char>)
    ensures
        v@ == s@,
{
    let mut v: Vec<char> = Vec::new();
    for c in it: s.chars()
        invariant
            v@ == it.seq().take(it.index() as int),
            it.seq() == s@,
    {
        v.push(c);
    }
    v
}

/// The string made of the characters `v[from..to]`.
pub fn string_of_range(v: &Vec<char>, from: usize, to: usize) -> (s: String)
    requires
        from <= to <= v.len(),
    ensures
        s@ == v@.subrange(from as int, to as int),
{
    let mut s = String::new();
    let mut i: usize = from;
    while i < to
        invariant
            from <= i <= to <= v.len(),
            s@ == v@.subrange(from as int, i as int),
        decreases to - i,
    {
        push_char(&mut s, v[i]);
        i += 1;
    }
    s
}

/// The string made of the characters of `v`.
pub fn string_of(v: &Vec<char>) -> (s: String)
    ensures
        s@ == v@,
{
    string_of_range(v, 0, v.len())
}

/// Whether `needle` stands in `hay` at position `at`.
pub open spec fn occurs_at(hay: Seq<char>, needle: Seq<char>, at: int) -> bool {
    0 <= at && at + needle.len() <= hay.len() && hay.subrange(at, at + needle.len()) == needle
}

/// Whether `needle` stands somewhere in `hay`.
pub open spec fn contains_text(hay: Seq<char>, needle: Seq<char>) -> bool {
    exists|at: int| occurs_at(hay, needle, at)
}

/// Whether `s` begins with `prefix`.
pub open spec fn has_prefix(s: Seq<char>, prefix: Seq<char>) -> bool {
    occurs_at(s, prefix, 0)
}

/// Tests whether `needle` stands in `hay` at position `at`.
pub fn matches_at(hay: &Vec<char>, needle: &Vec<char>, at: usize) -> (r: bool)
    ensures
        r == occurs_at(hay@, needle@, at as int),
{
    if needle.len() > hay.len() || at > hay.len() - needle.len() {
        return false;
    }
    let mut k: usize = 0;
    while k < needle.len()
        invariant
            k <= needle.len(),
            at + needle.len() <= hay.len(),
            forall|j: int| 0 <= j < k ==> hay@[at + j] == needle@[j],
        decreases needle.len() - k,
    {
        if hay[at + k] != needle[k] {
            proof {
                let sub = hay@.subrange(at as int, at + needle.len());
                assert(sub[k as int] == hay@[at + k]);
            }
            return false;
        }
        k += 1;
    }
    proof {
        assert(hay@.subrange(at as int, at + needle.len()) =~= needle@);
    }
    true
}

/// Tests whether `s` begins with `prefix`.
pub fn starts_with(s: &Vec<char>, prefix: &Vec<char>) -> (r: bool)
    ensures
        r == has_prefix(s@, prefix@),
{
    matches_at(s, prefix, 0)
}

/// The first position at or after `from` where `needle` stands in `hay`.
pub fn find_from(hay: &Vec<char>, needle: &Vec<char>, from: usize) -> (r: Option<usize>)
    ensures
        match r {
            Some(at) => from <= at && occurs_at(hay@, needle@, at as int)
                && forall|j: int| from <= j < at ==> !occurs_at(hay@, needle@, j),
            None => forall|j: int| from <= j ==> !occurs_at(hay@, needle@, j),
        },
{
    if from > hay.len() {
        return None;
    }
    let mut at: usize = from;
    while at < hay.len()
        invariant
            from <= at <= hay.len(),
            forall|j: int| from <= j < at ==> !occurs_at(hay@, needle@, j),
        decreases hay.len() - at,
    {
        if matches_at(hay, needle, at) {
            return Some(at);
        }
        at += 1;
    }
    if matches_at(hay, needle, at) {
        Some(at)
    } else {
        None
    }
}

/// Tests whether `needle` stands somewhere in `hay`.
pub fn contains(hay: &Vec<char>, needle: &Vec<char>) -> (r: bool)
    ensures
        r == contains_text(hay@, needle@),
{
    find_from(hay, needle, 0).is_some()
}

/// A copy of the characters `v[from..to]`.
pub fn slice(v: &Vec<char>, from: usize, to: usize) -> (r: Vec<char>)
    requires
        from <= to <= v.len(),
    ensures
        r@ == v@.subrange(from as int, to as int),
{
    let mut r: Vec<char> = Vec::new();
    let mut i: usize = from;
    while i < to
        invariant
            from <= i <= to <= v.len(),
            r@ == v@.subrange(from as int, i as int),
        decreases to - i,
    {
        r.push(v[i]);
        i += 1;
    }
    r
}

/// `s` without the white space at its start.
pub open spec fn trim_start_of(s: Seq<char>) -> Seq<char>
    decreases s.len(),
{
    if s.len() > 0 && whitespace(s[0]) {
        trim_start_of(s.skip(1))
    } else {
        s
    }
}

/// `s` without the white space at its end.
pub open spec fn trim_end_of(s: Seq<char>) -> Seq<char>
    decreases s.len(),
{
    if s.len() > 0 && whitespace(s.last()) {
        trim_end_of(s.drop_last())
    } else {
        s
    }
}

/// `s` without the white space at both ends.
pub open spec fn trimmed(s: Seq<char>) -> Seq<char> {
    trim_end_of(trim_start_of(s))
}

/// Removes the white space at both ends of `v`.
pub fn trim(v: &Vec<char>) -> (r: Vec<char>)
    ensures
        r@ == trimmed(v@),
{
    let mut a: usize = 0;
    proof {
        assert(v@.skip(0) =~= v@);
    }
    let mut go: bool = a < v.len() && is_whitespace(v[a]);
    while go
        invariant
            a <= v.len(),
            go == (a < v.len() && whitespace(v@[a as int])),
            trim_start_of(v@) == trim_start_of(v@.skip(a as int)),
        decreases v.len() - a,
    {
        proof {
            assert(v@.skip(a as int).skip(1) =~= v@.skip(a + 1));
        }
        a += 1;
        go = a < v.len() && is_whitespace(v[a]);
    }
    let mut b: usize = v.len();
    proof {
        assert(v@.skip(a as int) =~= v@.subrange(a as int, b as int));
    }
    let mut back: bool = b > a && is_whitespace(v[b - 1]);
    while back
        invariant
            a <= b <= v.len(),
            back == (b > a && whitespace(v@[b - 1])),
            trimmed(v@) == trim_end_of(v@.subrange(a as int, b as int)),
        decreases b,
    {
        proof {
            assert(v@.subrange(a as int, b as int).drop_last() =~= v@.subrange(
                a as int,
                b - 1,
            ));
        }
        b -= 1;
        back = b > a && is_whitespace(v[b - 1]);
    }
    slice(v, a, b)
}

/// Whether `s` holds nothing but white space.
pub open spec fn is_blank(s: Seq<char>) -> bool {
    trimmed(s).len() == 0
}

/// The position of the first `c` in `s`, or the length of `s` where it holds none.
pub open spec fn first_index_of(s: Seq<char>, c: char) -> nat
    decreases s.len(),
{
    if s.len() == 0 || s[0] == c {
        0
    } else {
        1 + first_index_of(s.skip(1), c)
    }
}

/// A position is the first index of `c` when no earlier one holds it.
pub proof fn lemma_first_index_of(s: Seq<char>, c: char, k: int)
    requires
        0 <= k <= s.len(),
        forall|j: int| 0 <= j < k ==> s[j] != c,
        k == s.len() || s[k] == c,
    ensures
        first_index_of(s, c) == k,
    decreases k,
{
    if k > 0 {
        let rest = s.skip(1);
        assert forall|j: int| 0 <= j < k - 1 implies rest[j] != c by {
            assert(rest[j] == s[j + 1]);
        }
        lemma_first_index_of(rest, c, k - 1);
    }
}

/// A line without the carriage return that may end it.
pub open spec fn strip_cr(line: Seq<char>) -> Seq<char> {
    if line.len() > 0 && line.last() == '\r' {
        line.drop_last()
    } else {
        line
    }
}

/// The lines of a text. A line ends at a line feed; a carriage return just
/// before it belongs to the ending. The last line needs no ending, and a
/// text that ends with one has no empty line after it.
pub open spec fn lines_of(s: Seq<char>) -> Seq<Seq<char>>
    decreases s.len(),
{
    if s.len() == 0 {
        Seq::empty()
    } else {
        let i = first_index_of(s, '\n') as int;
        if i >= s.len() {
            seq![s]
        } else {
            seq![strip_cr(s.take(i))] + lines_of(s.skip(i + 1))
        }
    }
}

/// The texts that a vector of character vectors holds.
pub open spec fn rows(v: Seq<Vec<char>>) -> Seq<Seq<char>> {
    Seq::new(v.len(), |i: int| v[i]@)
}

/// The texts that a vector of strings holds.
pub open spec fn texts_of(v: Seq<String>) -> Seq<Seq<char>> {
    Seq::new(v.len(), |i: int| v[i]@)
}

/// Splits a text into its lines.
pub fn lines(v: &Vec<char>) -> (r: Vec<Vec<char>>)
    ensures
        rows(r@) == lines_of(v@),
{
    let mut out: Vec<Vec<char>> = Vec::new();
    let mut pos: usize = 0;
    proof {
        assert(v@.skip(0) =~= v@);
        assert(rows(out@) + lines_of(v@) =~= lines_of(v@));
    }
    while pos < v.len()
        invariant
            pos <= v.len(),
            lines_of(v@) == rows(out@) + lines_of(v@.skip(pos as int)),
        decreases v.len() - pos,
    {
        let mut i: usize = pos;
        while i < v.len() && v[i] != '\n'
            invariant
                pos <= i <= v.len(),
                forall|j: int| pos <= j < i ==> v@[j] != '\n',
            decreases v.len() - i,
        {
            i += 1;
        }
        let ghost rest = v@.skip(pos as int);
        let ghost before = rows(out@);
        proof {
            lemma_first_index_of(rest, '\n', i - pos);
        }
        if i == v.len() {
            let line = slice(v, pos, i);
            out.push(line);
            proof {
                assert(line@ =~= rest);
                assert(lines_of(rest) =~= seq![rest]);
                assert(v@.skip(i as int).len() == 0);
                assert(rows(out@) =~= before + seq![rest]);
            }
            pos = i;
        } else {
            let mut end: usize = i;
            if end > pos && v[end - 1] == '\r' {
                end -= 1;
            }
            let line = slice(v, pos, end);
            out.push(line);
            proof {
                let head = rest.take(i - pos);
                assert(head =~= v@.subrange(pos as int, i as int));
                assert(strip_cr(head) =~= line@);
                assert(rest.skip(i - pos + 1) =~= v@.skip(i + 1));
                assert(rows(out@) =~= before + seq![line@]);
                assert(lines_of(rest) == seq![line@] + lines_of(v@.skip(i + 1)));
                assert(before + (seq![line@] + lines_of(v@.skip(i + 1))) =~= (before + seq![
                    line@,
                ]) + lines_of(v@.skip(i + 1)));
            }
            pos = i + 1;
        }
    }
    proof {
        assert(v@.skip(pos as int).len() == 0);
        assert(rows(out@) + Seq::<Seq<char>>::empty() =~= rows(out@));
    }
    out
}

/// The texts of `parts` in one, with `sep` between each two.
pub open spec fn joined(parts: Seq<Seq<char>>, sep: Seq<char>) -> Seq<char>
    decreases parts.len(),
{
    if parts.len() == 0 {
        Seq::empty()
    } else if parts.len() == 1 {
        parts[0]
    } else {
        joined(parts.drop_last(), sep) + sep + parts.last()
    }
}

/// Joins the texts `parts[from..]` with `sep` between each two.
pub fn join_from(parts: &Vec<Vec<char>>, from: usize, sep: &Vec<char>) -> (r: Vec<char>)
    requires
        from <= parts.len(),
    ensures
        r@ == joined(rows(parts@).skip(from as int), sep@),
{
    let mut out: Vec<char> = Vec::new();
    let mut i: usize = from;
    let ghost all = rows(parts@).skip(from as int);
    while i < parts.len()
        invariant
            from <= i <= parts.len(),
            all == rows(parts@).skip(from as int),
            out@ == joined(all.take(i - from), sep@),
        decreases parts.len() - i,
    {
        let ghost before = out@;
        if i > from {
            append(&mut out, sep);
        }
        append(&mut out, &parts[i]);
        proof {
            let now = all.take(i - from + 1);
            assert(now.drop_last() =~= all.take(i - from));
            assert(now.last() == parts@[i as int]@);
            if i == from {
                assert(before =~= Seq::<char>::empty());
                assert(out@ =~= now[0]);
            }
        }
        i += 1;
    }
    proof {
        assert(all.take(i - from) =~= all);
    }
    out
}

/// Appends the characters of `tail` to `out`.
pub fn append(out: &mut Vec<char>, tail: &Vec<char>)
    ensures
        final(out)@ == old(out)@ + tail@,
{
    let mut k: usize = 0;
    while k < tail.len()
        invariant
            k <= tail.len(),
            out@ == old(out)@ + tail@.take(k as int),
        decreases tail.len() - k,
    {
        out.push(tail[k]);
        proof {
            assert(tail@.take(k + 1) =~= tail@.take(k as int).push(tail@[k as int]));
        }
        k += 1;
    }
    proof {
        assert(tail@.take(k as int) =~= tail@);
    }
}

/// The first position at or after `from` where `needle` stands in `hay`,
/// or -1 where it stands at none.
pub open spec fn position_from(hay: Seq<char>, needle: Seq<char>, from: int) -> int
    decreases hay.len() - from,
{
    if 0 <= from && from + needle.len() <= hay.len() {
        if occurs_at(hay, needle, from) {
            from
        } else if from < hay.len() {
            position_from(hay, needle, from + 1)
        } else {
            -1
        }
    } else {
        -1
    }
}

/// Finds the first position at or after `from` where `needle` stands in `hay`.
pub fn find_at(hay: &Vec<char>, needle: &Vec<char>, from: usize) -> (r: Option<usize>)
    ensures
        match r {
            Some(at) => at == position_from(hay@, needle@, from as int),
            None => position_from(hay@, needle@, from as int) == -1,
        },
{
    if needle.len() > hay.len() || from > hay.len() - needle.len() {
        return None;
    }
    let last: usize = hay.len() - needle.len();
    let mut at: usize = from;
    while at < last
        invariant
            from <= at <= last,
            last + needle.len() == hay.len(),
            position_from(hay@, needle@, from as int) == position_from(hay@, needle@, at as int),
        decreases last - at,
    {
        if matches_at(hay, needle, at) {
            return Some(at);
        }
        at += 1;
    }
    if matches_at(hay, needle, at) {
        Some(at)
    } else {
        assert(position_from(hay@, needle@, at + 1) == -1);
        None
    }
}

/// What follows `prefix` in `s`, where `s` begins with it.
pub open spec fn after_prefix(s: Seq<char>, prefix: Seq<char>) -> Option<Seq<char>> {
    if has_prefix(s, prefix) {
        Some(s.skip(prefix.len() as int))
    } else {
        None
    }
}

/// Takes `prefix` from the start of `s`, where `s` begins with it.
pub fn strip_prefix(s: &Vec<char>, prefix: &Vec<char>) -> (r: Option<Vec<char>>)
    ensures
        match r {
            Some(rest) => after_prefix(s@, prefix@) == Some(rest@),
            None => after_prefix(s@, prefix@) is None,
        },
{
    if starts_with(s, prefix) {
        let rest = slice(s, prefix.len(), s.len());
        proof {
            assert(rest@ =~= s@.skip(prefix@.len() as int));
        }
        Some(rest)
    } else {
        None
    }
}

} // verus!
