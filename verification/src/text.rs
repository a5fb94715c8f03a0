//! Plain text shaping for the render layer: padding and truncating to a
//! column width, centering headers, trimming whitespace and splitting
//! multi-line content.

use vstd::prelude::*;

verus! {

/// `n` spaces.
pub open spec fn spaces(n: nat) -> Seq<char> {
    Seq::new(n, |i: int| ' ')
}

/// `s` cut or padded with trailing spaces to exactly `width` characters.
pub open spec fn pad_or_cut(s: Seq<char>, width: nat) -> Seq<char> {
    if s.len() >= width {
        s.subrange(0, width as int)
    } else {
        s + spaces((width - s.len()) as nat)
    }
}

/// `s` centered in `width` columns; text at least as wide as the field is
/// left as it is.
pub open spec fn centered(s: Seq<char>, width: nat) -> Seq<char> {
    if s.len() >= width {
        s
    } else {
        let left = ((width - s.len()) / 2) as nat;
        spaces(left) + s + spaces((width - s.len() - left) as nat)
    }
}

/// The whitespace characters trimming removes.
pub open spec fn is_space(c: char) -> bool {
    c == ' ' || c == '\t' || c == '\r' || c == '\n'
}

/// How many whitespace characters `s` starts with.
pub open spec fn lead_spaces(s: Seq<char>) -> nat
    decreases s.len(),
{
    if s.len() > 0 && is_space(s[0]) {
        (1 + lead_spaces(s.drop_first())) as nat
    } else {
        0
    }
}

/// How many whitespace characters `s` ends with.
pub open spec fn trail_spaces(s: Seq<char>) -> nat
    decreases s.len(),
{
    if s.len() > 0 && is_space(s.last()) {
        (1 + trail_spaces(s.drop_last())) as nat
    } else {
        0
    }
}

/// `s` without leading or trailing whitespace.
pub open spec fn trimmed(s: Seq<char>) -> Seq<char> {
    let front = s.subrange(lead_spaces(s) as int, s.len() as int);
    front.subrange(0, (front.len() - trail_spaces(front)) as int)
}

proof fn lemma_lead_spaces_from_scan(s: Seq<char>, k: int)
    requires
        0 <= k <= s.len(),
        forall|j: int| 0 <= j < k ==> is_space(s[j]),
        k < s.len() ==> !is_space(s[k]),
    ensures
        lead_spaces(s) == k,
    decreases k,
{
    if k == 0 {
    } else {
        assert(is_space(s[0]));
        assert forall|j: int| 0 <= j < k - 1 implies is_space(s.drop_first()[j]) by {
            assert(s.drop_first()[j] == s[j + 1]);
        }
        if k - 1 < s.drop_first().len() {
            assert(s.drop_first()[k - 1] == s[k]);
        }
        lemma_lead_spaces_from_scan(s.drop_first(), k - 1);
    }
}

proof fn lemma_trail_spaces_from_scan(s: Seq<char>, k: int)
    requires
        0 <= k <= s.len(),
        forall|j: int| s.len() - k <= j < s.len() ==> is_space(s[j]),
        k < s.len() ==> !is_space(s[s.len() - k - 1]),
    ensures
        trail_spaces(s) == k,
    decreases k,
{
    if k == 0 {
    } else {
        assert(is_space(s.last()));
        let d = s.drop_last();
        assert forall|j: int| d.len() - (k - 1) <= j < d.len() implies is_space(d[j]) by {
            assert(d[j] == s[j]);
        }
        if k - 1 < d.len() {
            assert(d[d.len() - (k - 1) - 1] == s[s.len() - k - 1]);
        }
        lemma_trail_spaces_from_scan(d, k - 1);
    }
}

/// A string of `n` spaces.
pub fn spaces_string(n: usize) -> (r: String)
    ensures
        r@ == spaces(n as nat),
{
    let mut r = String::new();
    proof {
        reveal_strlit(" ");
        assert(r@ =~= spaces(0));
    }
    let mut i: usize = 0;
    while i < n
        invariant
            0 <= i <= n,
            r@ == spaces(i as nat),
            " "@ == seq![' '],
        decreases n - i,
    {
        r.append(" ");
        proof {
            assert(r@ =~= spaces((i + 1) as nat));
        }
        i += 1;
    }
    r
}

/// `s` cut or padded with trailing spaces to exactly `width` characters.
pub fn pad_to_width(s: &str, width: usize) -> (r: String)
    ensures
        r@ == pad_or_cut(s@, width as nat),
        r@.len() == width,
{
    let n = s.unicode_len();
    if n >= width {
        let cut = s.substring_char(0, width);
        cut.to_owned()
    } else {
        let mut r = s.to_owned();
        let pad = spaces_string(width - n);
        r.append(pad.as_str());
        proof {
            assert(r@ =~= pad_or_cut(s@, width as nat));
        }
        r
    }
}

/// `s` centered in `width` columns.
pub fn center_to_width(s: &str, width: usize) -> (r: String)
    ensures
        r@ == centered(s@, width as nat),
{
    let n = s.unicode_len();
    if n >= width {
        s.to_owned()
    } else {
        let left = (width - n) / 2;
        let mut r = spaces_string(left);
        r.append(s);
        let pad = spaces_string(width - n - left);
        r.append(pad.as_str());
        proof {
            assert(r@ =~= centered(s@, width as nat));
        }
        r
    }
}

/// Whether the character at `i` is whitespace.
fn space_at(s: &str, i: usize) -> (r: bool)
    requires
        i < s@.len(),
    ensures
        r == is_space(s@[i as int]),
{
    let c = s.get_char(i);
    c == ' ' || c == '\t' || c == '\r' || c == '\n'
}

/// `s` without leading or trailing whitespace.
pub fn trim_text(s: &str) -> (r: String)
    ensures
        r@ == trimmed(s@),
{
    let n = s.unicode_len();
    let mut start: usize = 0;
    while start < n && space_at(s, start)
        invariant
            0 <= start <= n,
            n == s@.len(),
            forall|j: int| 0 <= j < start ==> is_space(s@[j]),
        decreases n - start,
    {
        start += 1;
    }
    let mut end: usize = n;
    while end > start && space_at(s, end - 1)
        invariant
            start <= end <= n,
            n == s@.len(),
            forall|j: int| 0 <= j < start ==> is_space(s@[j]),
            start < n ==> !is_space(s@[start as int]),
            forall|j: int| end <= j < n ==> is_space(s@[j]),
        decreases end,
    {
        end -= 1;
    }
    let r = s.substring_char(start, end).to_owned();
    proof {
        lemma_lead_spaces_from_scan(s@, start as int);
        let front = s@.subrange(start as int, n as int);
        if end == start {
            lemma_trail_spaces_from_scan(front, front.len() as int);
        } else {
            assert forall|j: int| front.len() - (n - end) <= j < front.len() implies is_space(front[j]) by {
                assert(front[j] == s@[j + start]);
            }
            assert(front[front.len() - (n - end) - 1] == s@[end - 1]);
            lemma_trail_spaces_from_scan(front, n as int - end as int);
        }
        assert(r@ =~= trimmed(s@));
    }
    r
}

/// `s` with its final character removed where that character is a carriage
/// return.
pub open spec fn strip_cr(s: Seq<char>) -> Seq<char> {
    if s.len() > 0 && s.last() == '\r' {
        s.drop_last()
    } else {
        s
    }
}

/// The position of the first newline in `s`, or its length where there is
/// none.
pub open spec fn first_newline(s: Seq<char>) -> nat
    decreases s.len(),
{
    if s.len() == 0 {
        0
    } else if s[0] == '\n' {
        0
    } else {
        (1 + first_newline(s.drop_first())) as nat
    }
}

/// The lines of `s`: split at every newline, each line stripped of a
/// trailing carriage return; empty text has no lines, and a trailing
/// newline opens no further line.
pub open spec fn split_lines(s: Seq<char>) -> Seq<Seq<char>>
    decreases s.len(),
{
    if s.len() == 0 {
        Seq::empty()
    } else if first_newline(s) < s.len() {
        let i = first_newline(s) as int;
        seq![strip_cr(s.subrange(0, i))] + split_lines(s.subrange(i + 1, s.len() as int))
    } else {
        seq![strip_cr(s)]
    }
}

proof fn lemma_first_newline_props(s: Seq<char>)
    ensures
        first_newline(s) <= s.len(),
        first_newline(s) < s.len() ==> s[first_newline(s) as int] == '\n',
        forall|j: int| 0 <= j < first_newline(s) ==> s[j] != '\n',
    decreases s.len(),
{
    if s.len() > 0 && s[0] != '\n' {
        lemma_first_newline_props(s.drop_first());
        assert forall|j: int| 0 <= j < first_newline(s) implies s[j] != '\n' by {
            if j > 0 {
                assert(s.drop_first()[j - 1] == s[j]);
            }
        }
        if first_newline(s) < s.len() {
            assert(s.drop_first()[first_newline(s.drop_first()) as int] == s[first_newline(
                s,
            ) as int]);
        }
    }
}

proof fn lemma_first_newline_at(s: Seq<char>, k: int)
    requires
        0 <= k < s.len(),
        s[k] == '\n',
        forall|j: int| 0 <= j < k ==> s[j] != '\n',
    ensures
        first_newline(s) == k,
{
    lemma_first_newline_props(s);
    let i = first_newline(s) as int;
    if i < k {
        assert(s[i] != '\n');
    }
    if k < i {
        assert(s[k] != '\n');
    }
}

proof fn lemma_no_newline(s: Seq<char>)
    requires
        forall|j: int| 0 <= j < s.len() ==> s[j] != '\n',
    ensures
        first_newline(s) == s.len(),
{
    lemma_first_newline_props(s);
    if first_newline(s) < s.len() {
        assert(s[first_newline(s) as int] != '\n');
    }
}

/// The lines of `s`, in order, each stripped of a trailing carriage
/// return, split at every newline.
pub fn lines_of(s: &str) -> (r: Vec<String>)
    ensures
        r@.map(|i: int, l: String| l@) == split_lines(s@),
{
    let n = s.unicode_len();
    let mut r: Vec<String> = Vec::new();
    let mut seg_start: usize = 0;
    let mut i: usize = 0;
    proof {
        assert(s@.subrange(0, n as int) =~= s@);
        assert(r@.map(|k: int, l: String| l@) =~= Seq::<Seq<char>>::empty());
    }
    while i < n
        invariant
            0 <= seg_start <= i <= n,
            n == s@.len(),
            forall|j: int| seg_start <= j < i ==> s@[j] != '\n',
            split_lines(s@) =~= r@.map(|k: int, l: String| l@) + split_lines(
                s@.subrange(seg_start as int, n as int),
            ),
        decreases n - i,
    {
        if s.get_char(i) == '\n' {
            let ghost rest = s@.subrange(seg_start as int, n as int);
            let line = segment_line(s, seg_start, i);
            let ghost prev = r@;
            r.push(line);
            proof {
                assert forall|j: int| 0 <= j < i - seg_start implies rest[j] != '\n' by {
                    assert(rest[j] == s@[j + seg_start]);
                }
                assert(rest[i - seg_start] == s@[i as int]);
                lemma_first_newline_at(rest, i - seg_start);
                assert(rest.subrange(0, i - seg_start) =~= s@.subrange(seg_start as int, i as int));
                assert(rest.subrange(i - seg_start + 1, rest.len() as int) =~= s@.subrange(
                    i + 1,
                    n as int,
                ));
                assert(r@.map(|k: int, l: String| l@) =~= prev.map(|k: int, l: String| l@)
                    + seq![line@]);
            }
            seg_start = i + 1;
        }
        i += 1;
    }
    proof {
        let rest = s@.subrange(seg_start as int, n as int);
        assert forall|j: int| 0 <= j < rest.len() implies rest[j] != '\n' by {
            assert(rest[j] == s@[j + seg_start]);
        }
        lemma_no_newline(rest);
    }
    if seg_start < n {
        let line = segment_line(s, seg_start, n);
        let ghost prev = r@;
        r.push(line);
        proof {
            assert(r@.map(|k: int, l: String| l@) =~= prev.map(|k: int, l: String| l@)
                + seq![line@]);
        }
    }
    r
}

/// One line segment `s[from..to]`, stripped of a trailing carriage return.
fn segment_line(s: &str, from: usize, to: usize) -> (r: String)
    requires
        from <= to <= s@.len(),
    ensures
        r@ == strip_cr(s@.subrange(from as int, to as int)),
{
    let seg = s.substring_char(from, to);
    if to > from && seg.get_char(to - from - 1) == '\r' {
        let cut = seg.substring_char(0, to - from - 1);
        proof {
            assert(cut@ =~= strip_cr(s@.subrange(from as int, to as int)));
        }
        cut.to_owned()
    } else {
        proof {
            if to > from {
                assert(seg@.last() == s@.subrange(from as int, to as int).last());
            }
        }
        seg.to_owned()
    }
}

/// The lines of `s` joined into one row, a single space after each line.
pub open spec fn joined_lines(s: Seq<char>) -> Seq<char> {
    join_each(split_lines(s))
}

/// Every sequence in `ls` followed by one space, concatenated.
pub open spec fn join_each(ls: Seq<Seq<char>>) -> Seq<char>
    decreases ls.len(),
{
    if ls.len() == 0 {
        Seq::empty()
    } else {
        join_each(ls.drop_last()) + ls.last() + seq![' ']
    }
}

/// The lines of `s` joined into one row, a single space after each line.
pub fn join_lines(s: &str) -> (r: String)
    ensures
        r@ == joined_lines(s@),
{
    let lines = lines_of(s);
    let mut r = String::new();
    proof {
        reveal_strlit(" ");
        assert(lines@.map(|i: int, l: String| l@).subrange(0, 0) =~= Seq::<Seq<char>>::empty());
        assert(r@ =~= join_each(lines@.map(|i: int, l: String| l@).subrange(0, 0)));
    }
    let n = lines.len();
    let mut i: usize = 0;
    while i < n
        invariant
            0 <= i <= n,
            n == lines@.len(),
            " "@ == seq![' '],
            r@ == join_each(lines@.map(|k: int, l: String| l@).subrange(0, i as int)),
        decreases n - i,
    {
        r.append(lines[i].as_str());
        r.append(" ");
        proof {
            let mapped = lines@.map(|k: int, l: String| l@);
            assert(mapped.subrange(0, i + 1).drop_last() =~= mapped.subrange(0, i as int));
            assert(mapped.subrange(0, i + 1).last() == lines@[i as int]@);
        }
        i += 1;
    }
    proof {
        assert(lines@.map(|k: int, l: String| l@).subrange(0, n as int) =~= lines@.map(
            |k: int, l: String| l@,
        ));
    }
    r
}

} // verus!
