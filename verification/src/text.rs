//! Verified text utilities: character classes, trimming, line splitting,
//! decimal rendering, prefix tests and lexicographic comparison.

use vstd::prelude::*;

verus! {

broadcast use vstd::string::group_string_axioms;

/// Relies on `String::push`: appends the given character to the end of the
/// string.
pub assume_specification [ String::push ](s: &mut String, ch: char)
    ensures
        final (s)@ == old(s)@.push(ch),
;

/// Whitespace, as far as trimming is concerned: space, tab, carriage return,
/// line feed, vertical tab and form feed.
pub open spec fn is_space_char(c: char) -> bool {
    c == ' ' || c == '\t' || c == '\r' || c == '\n' || c == '\u{000B}' || c == '\u{000C}'
}

/// Exec mirror of [`is_space_char`].
pub fn is_space(c: char) -> (b: bool)
    ensures
        b == is_space_char(c),
{
    c == ' ' || c == '\t' || c == '\r' || c == '\n' || c == '\u{000B}' || c == '\u{000C}'
}

/// A character of a leading list marker: a decimal digit, `.`, `)` or space.
pub open spec fn is_marker_char(c: char) -> bool {
    (48 <= c as u32 && c as u32 <= 57) || c == '.' || c == ')' || c == ' '
}

/// Exec mirror of [`is_marker_char`].
pub fn is_marker(c: char) -> (b: bool)
    ensures
        b == is_marker_char(c),
{
    let u = c as u32;
    (48 <= u && u <= 57) || c == '.' || c == ')' || c == ' '
}

/// The sequence without its leading whitespace.
pub open spec fn trim_front(s: Seq<char>) -> Seq<char>
    decreases s.len(),
{
    if s.len() > 0 && is_space_char(s[0]) {
        trim_front(s.drop_first())
    } else {
        s
    }
}

/// The sequence without its trailing whitespace.
pub open spec fn trim_back(s: Seq<char>) -> Seq<char>
    decreases s.len(),
{
    if s.len() > 0 && is_space_char(s.last()) {
        trim_back(s.drop_last())
    } else {
        s
    }
}

/// The sequence without leading or trailing whitespace.
pub open spec fn spec_trim(s: Seq<char>) -> Seq<char> {
    trim_back(trim_front(s))
}

/// The sequence without its leading run of list-marker characters.
pub open spec fn strip_marker_front(s: Seq<char>) -> Seq<char>
    decreases s.len(),
{
    if s.len() > 0 && is_marker_char(s[0]) {
        strip_marker_front(s.drop_first())
    } else {
        s
    }
}

proof fn lemma_trim_front_scan(s: Seq<char>, i: int)
    requires
        0 <= i <= s.len(),
        forall|j: int| 0 <= j < i ==> is_space_char(#[trigger] s[j]),
    ensures
        trim_front(s) == trim_front(s.skip(i)),
    decreases i,
{
    if i > 0 {
        assert(s.skip(0) =~= s);
        assert(s.drop_first() =~= s.skip(1));
        lemma_trim_front_scan(s.drop_first(), i - 1);
        assert(s.drop_first().skip(i - 1) =~= s.skip(i));
    } else {
        assert(s.skip(0) =~= s);
    }
}

proof fn lemma_strip_marker_scan(s: Seq<char>, i: int)
    requires
        0 <= i <= s.len(),
        forall|j: int| 0 <= j < i ==> is_marker_char(#[trigger] s[j]),
    ensures
        strip_marker_front(s) == strip_marker_front(s.skip(i)),
    decreases i,
{
    if i > 0 {
        assert(s.drop_first() =~= s.skip(1));
        lemma_strip_marker_scan(s.drop_first(), i - 1);
        assert(s.drop_first().skip(i - 1) =~= s.skip(i));
    } else {
        assert(s.skip(0) =~= s);
    }
}

proof fn lemma_trim_back_scan(s: Seq<char>, i: int)
    requires
        0 <= i <= s.len(),
        forall|j: int| i <= j < s.len() ==> is_space_char(#[trigger] s[j]),
    ensures
        trim_back(s) == trim_back(s.take(i)),
    decreases s.len() - i,
{
    if i < s.len() {
        assert(s.take(s.len() as int) =~= s);
        assert(s.drop_last() =~= s.take(s.len() - 1));
        lemma_trim_back_scan(s.drop_last(), i);
        assert(s.drop_last().take(i) =~= s.take(i));
    } else {
        assert(s.take(s.len() as int) =~= s);
    }
}

/// Copies `v[a..b]` into a fresh vector.
fn copy_range(v: &Vec<char>, a: usize, b: usize) -> (r: Vec<char>)
    requires
        a <= b <= v.len(),
    ensures
        r@ == v@.subrange(a as int, b as int),
{
    let mut r: Vec<char> = Vec::new();
    let mut i: usize = a;
    while i < b
        invariant
            a <= i <= b <= v.len(),
            r@ =~= v@.subrange(a as int, i as int),
        decreases b - i,
    {
        r.push(v[i]);
        proof {
            assert(r@ =~= v@.subrange(a as int, i + 1 as int));
        }
        i = i + 1;
    }
    r
}

/// Removes leading and trailing whitespace.
pub fn trim_chars(v: &Vec<char>) -> (r: Vec<char>)
    ensures
        r@ == spec_trim(v@),
{
    let mut start: usize = 0;
    while start < v.len() && is_space(v[start])
        invariant
            start <= v.len(),
            forall|j: int| 0 <= j < start ==> is_space_char(#[trigger] v@[j]),
        decreases v.len() - start,
    {
        start = start + 1;
    }
    proof {
        lemma_trim_front_scan(v@, start as int);
        if start < v@.len() {
            assert(trim_front(v@.skip(start as int)) == v@.skip(start as int));
        } else {
            assert(v@.skip(start as int) =~= Seq::<char>::empty());
        }
    }
    // here trim_front(v@) == v@.skip(start)
    let mut end: usize = v.len();
    while end > start && is_space(v[end - 1])
        invariant
            start <= end <= v.len(),
            forall|j: int| end <= j < v.len() ==> is_space_char(#[trigger] v@[j]),
        decreases end,
    {
        end = end - 1;
    }
    proof {
        let w = v@.skip(start as int);
        lemma_trim_back_scan(w, end - start as int);
        if end > start {
            assert(!is_space_char(v@[end - 1]));
            assert(w.take(end - start as int).last() == v@[end - 1]);
            assert(trim_back(w.take(end - start as int)) == w.take(end - start as int));
        } else {
            assert(w.take(0) =~= Seq::<char>::empty());
        }
        assert(w.take(end - start as int) =~= v@.subrange(start as int, end as int));
    }
    copy_range(v, start, end)
}

/// Removes the leading run of list-marker characters.
pub fn strip_markers(v: &Vec<char>) -> (r: Vec<char>)
    ensures
        r@ == strip_marker_front(v@),
{
    let mut start: usize = 0;
    while start < v.len() && is_marker(v[start])
        invariant
            start <= v.len(),
            forall|j: int| 0 <= j < start ==> is_marker_char(#[trigger] v@[j]),
        decreases v.len() - start,
    {
        start = start + 1;
    }
    proof {
        lemma_strip_marker_scan(v@, start as int);
        if start < v@.len() {
            assert(strip_marker_front(v@.skip(start as int)) == v@.skip(start as int));
        } else {
            assert(v@.skip(start as int) =~= Seq::<char>::empty());
        }
        assert(v@.skip(start as int) =~= v@.subrange(start as int, v@.len() as int));
    }
    copy_range(v, start, v.len())
}

/// Index of the first line feed, or the length when there is none.
pub open spec fn first_newline(s: Seq<char>) -> int
    decreases s.len(),
{
    if s.len() == 0 {
        0
    } else if s[0] == '\n' {
        0
    } else {
        1 + first_newline(s.drop_first())
    }
}

proof fn lemma_first_newline_scan(s: Seq<char>, i: int)
    requires
        0 <= i <= s.len(),
        forall|j: int| 0 <= j < i ==> #[trigger] s[j] != '\n',
        i < s.len() ==> s[i] == '\n',
    ensures
        first_newline(s) == i,
    decreases i,
{
    if i > 0 {
        assert(s.drop_first() =~= s.skip(1));
        lemma_first_newline_scan(s.drop_first(), i - 1);
    } else {
        if s.len() == 0 {
        } else {
            assert(s[0] == '\n');
        }
    }
}

proof fn lemma_first_newline_bounds(s: Seq<char>)
    ensures
        0 <= first_newline(s) <= s.len(),
        first_newline(s) < s.len() ==> s[first_newline(s)] == '\n',
    decreases s.len(),
{
    if s.len() > 0 && s[0] != '\n' {
        lemma_first_newline_bounds(s.drop_first());
    }
}

/// The lines of a text, split at every line feed. A text without a line feed
/// is one line; every line feed ends a line, so a trailing line feed is
/// followed by one final empty line. The result is never empty.
pub open spec fn split_lines(s: Seq<char>) -> Seq<Seq<char>>
    decreases s.len(),
{
    if s.len() == 0 {
        seq![Seq::<char>::empty()]
    } else if s[0] == '\n' {
        seq![Seq::<char>::empty()] + split_lines(s.drop_first())
    } else {
        let rest = split_lines(s.drop_first());
        seq![seq![s[0]] + rest[0]] + rest.drop_first()
    }
}

pub proof fn lemma_split_lines_nonempty(s: Seq<char>)
    ensures
        split_lines(s).len() >= 1,
    decreases s.len(),
{
    if s.len() > 0 {
        lemma_split_lines_nonempty(s.drop_first());
    }
}

/// Unrolls [`split_lines`] at the first line feed: the first line is
/// everything before it, and the remaining lines split the text after it.
pub proof fn lemma_split_lines_unroll(s: Seq<char>)
    ensures
        first_newline(s) == s.len() ==> split_lines(s) =~~= seq![s],
        first_newline(s) < s.len() ==> split_lines(s) =~~= seq![s.take(first_newline(s))]
            + split_lines(s.skip(first_newline(s) + 1)),
    decreases s.len(),
{
    lemma_first_newline_bounds(s);
    if s.len() == 0 {
    } else if s[0] == '\n' {
        assert(s.take(0) =~= Seq::<char>::empty());
        assert(s.skip(1) =~= s.drop_first());
    } else {
        let d = s.drop_first();
        let k = first_newline(s);
        lemma_split_lines_unroll(d);
        lemma_split_lines_nonempty(d);
        lemma_first_newline_bounds(d);
        assert(k == 1 + first_newline(d));
        if first_newline(d) == d.len() {
            assert(split_lines(d) =~~= seq![d]);
            assert(seq![s[0]] + d =~= s);
        } else {
            assert(split_lines(d) =~~= seq![d.take(first_newline(d))] + split_lines(
                d.skip(first_newline(d) + 1),
            ));
            assert(seq![s[0]] + d.take(first_newline(d)) =~= s.take(k));
            assert(d.skip(first_newline(d) + 1) =~= s.skip(k + 1));
        }
    }
}

/// Splits a character vector into its lines.
pub fn split_lines_chars(v: &Vec<char>) -> (lines: Vec<Vec<char>>)
    ensures
        lines.deep_view() == split_lines(v@),
{
    let mut lines: Vec<Vec<char>> = Vec::new();
    let mut pos: usize = 0;
    let mut done = false;
    proof {
        assert(v@.skip(0) =~= v@);
        assert(lines.deep_view() + split_lines(v@) =~~= split_lines(v@));
    }
    while !done
        invariant
            pos <= v.len(),
            !done ==> split_lines(v@) =~~= lines.deep_view() + split_lines(
                v@.skip(pos as int),
            ),
            done ==> split_lines(v@) =~~= lines.deep_view(),
        decreases v.len() - pos + (if done { 0int } else { 1int }),
    {
        let ghost rest = v@.skip(pos as int);
        let mut j: usize = pos;
        while j < v.len() && v[j] != '\n'
            invariant
                pos <= j <= v.len(),
                forall|k: int| pos <= k < j ==> #[trigger] v@[k] != '\n',
            decreases v.len() - j,
        {
            j = j + 1;
        }
        proof {
            assert(forall|k: int|
                0 <= k < j - pos ==> #[trigger] rest[k] != '\n' && rest[k] == v@[pos + k]);
            lemma_first_newline_scan(rest, j - pos as int);
            lemma_split_lines_unroll(rest);
        }
        let line = copy_range(v, pos, j);
        proof {
            assert(line@ =~= rest.take(j - pos as int));
        }
        lines.push(line);
        if j < v.len() {
            proof {
                assert(rest.skip(j - pos as int + 1) =~= v@.skip(j + 1 as int));
            }
            pos = j + 1;
        } else {
            proof {
                assert(rest.take(j - pos as int) =~= rest);
            }
            done = true;
        }
    }
    lines
}

/// Collects the characters of a string slice.
pub fn str_to_chars(s: &str) -> (v: Vec<char>)
    ensures
        v@ == s@,
{
    let mut v: Vec<char> = Vec::new();
    for c in it: s.chars()
        invariant
            it.seq() == s@,
            v@ =~= it.seq().take(it.index()),
    {
        v.push(c);
    }
    proof {
        assert(v@ =~= s@);
    }
    v
}

/// Builds a string from a character vector.
pub fn chars_to_string(v: &Vec<char>) -> (s: String)
    ensures
        s@ == v@,
{
    let mut s = String::new();
    let mut i: usize = 0;
    while i < v.len()
        invariant
            i <= v.len(),
            s@ =~= v@.take(i as int),
        decreases v.len() - i,
    {
        s.push(v[i]);
        proof {
            assert(s@ =~= v@.take(i + 1 as int));
        }
        i = i + 1;
    }
    proof {
        assert(v@.take(v.len() as int) =~= v@);
    }
    s
}

/// The decimal digit character for `d` (meaningful for `d < 10`).
pub open spec fn digit_char(d: nat) -> char {
    if d == 0 {
        '0'
    } else if d == 1 {
        '1'
    } else if d == 2 {
        '2'
    } else if d == 3 {
        '3'
    } else if d == 4 {
        '4'
    } else if d == 5 {
        '5'
    } else if d == 6 {
        '6'
    } else if d == 7 {
        '7'
    } else if d == 8 {
        '8'
    } else {
        '9'
    }
}

/// The decimal rendering of `n`, most significant digit first.
pub open spec fn dec_str(n: nat) -> Seq<char>
    decreases n,
{
    if n < 10 {
        seq![digit_char(n)]
    } else {
        dec_str(n / 10).push(digit_char(n % 10))
    }
}

fn digit_to_char(d: u64) -> (c: char)
    requires
        d < 10,
    ensures
        c == digit_char(d as nat),
{
    if d == 0 {
        '0'
    } else if d == 1 {
        '1'
    } else if d == 2 {
        '2'
    } else if d == 3 {
        '3'
    } else if d == 4 {
        '4'
    } else if d == 5 {
        '5'
    } else if d == 6 {
        '6'
    } else if d == 7 {
        '7'
    } else if d == 8 {
        '8'
    } else {
        '9'
    }
}

/// Appends the decimal rendering of `n`.
pub fn push_decimal(out: &mut String, n: u64)
    ensures
        final (out)@ == old(out)@ + dec_str(n as nat),
    decreases n,
{
    if n >= 10 {
        push_decimal(out, n / 10);
        let c = digit_to_char(n % 10);
        out.push(c);
        proof {
            assert(old(out)@ + dec_str((n / 10) as nat).push(digit_char((n % 10) as nat)) =~= (old(
                out,
            )@ + dec_str((n / 10) as nat)).push(digit_char((n % 10) as nat)));
        }
    } else {
        let c = digit_to_char(n);
        out.push(c);
        proof {
            assert(old(out)@ + seq![digit_char(n as nat)] =~= old(out)@.push(
                digit_char(n as nat),
            ));
        }
    }
}

/// A decimal rendering always has at least one digit.
pub proof fn lemma_dec_str_nonempty(n: nat)
    ensures
        dec_str(n).len() >= 1,
{
    if n < 10 {
        assert(dec_str(n) == seq![digit_char(n)]);
    } else {
        assert(dec_str(n) == dec_str(n / 10).push(digit_char(n % 10)));
    }
}

/// The decimal rendering of `n` as a fresh string.
pub fn u64_to_string(n: u64) -> (s: String)
    ensures
        s@ == dec_str(n as nat),
{
    let mut s = String::new();
    push_decimal(&mut s, n);
    proof {
        assert(Seq::<char>::empty() + dec_str(n as nat) =~= dec_str(n as nat));
    }
    s
}

/// Whether `p` is a prefix of `s`.
pub open spec fn is_prefix(p: Seq<char>, s: Seq<char>) -> bool {
    p.len() <= s.len() && s.take(p.len() as int) == p
}

/// Whether the characters of `s` start with the characters of `p`.
pub fn chars_start_with(s: &Vec<char>, p: &Vec<char>) -> (b: bool)
    ensures
        b == is_prefix(p@, s@),
{
    if p.len() > s.len() {
        return false;
    }
    let mut i: usize = 0;
    while i < p.len()
        invariant
            i <= p.len() <= s.len(),
            forall|j: int| 0 <= j < i ==> s@[j] == p@[j],
        decreases p.len() - i,
    {
        if s[i] != p[i] {
            proof {
                assert(s@.take(p@.len() as int)[i as int] != p@[i as int]);
            }
            return false;
        }
        i = i + 1;
    }
    proof {
        assert(s@.take(p@.len() as int) =~= p@);
    }
    true
}

/// Whether two string slices hold the same characters.
pub fn str_eq(a: &str, b: &str) -> (r: bool)
    ensures
        r == (a@ == b@),
{
    let va = str_to_chars(a);
    let vb = str_to_chars(b);
    if va.len() != vb.len() {
        proof {
            assert(a@.len() != b@.len());
        }
        return false;
    }
    let mut i: usize = 0;
    while i < va.len()
        invariant
            i <= va.len() == vb.len(),
            va@ == a@ && vb@ == b@,
            forall|j: int| 0 <= j < i ==> a@[j] == b@[j],
        decreases va.len() - i,
    {
        if va[i] != vb[i] {
            return false;
        }
        i = i + 1;
    }
    proof {
        assert(a@ =~= b@);
    }
    true
}

/// Lexicographic order on character sequences, by code point.
pub open spec fn lex_le(a: Seq<char>, b: Seq<char>) -> bool
    decreases a.len(),
{
    if a.len() == 0 {
        true
    } else if b.len() == 0 {
        false
    } else if (a[0] as u32) < (b[0] as u32) {
        true
    } else if (a[0] as u32) > (b[0] as u32) {
        false
    } else {
        lex_le(a.drop_first(), b.drop_first())
    }
}

/// Lexicographic order is total.
pub proof fn lemma_lex_total(a: Seq<char>, b: Seq<char>)
    ensures
        lex_le(a, b) || lex_le(b, a),
    decreases a.len(),
{
    if a.len() > 0 && b.len() > 0 && !((a[0] as u32) < (b[0] as u32)) && !((a[0] as u32) > (
    b[0] as u32)) {
        lemma_lex_total(a.drop_first(), b.drop_first());
    }
}

/// Lexicographic order is transitive.
pub proof fn lemma_lex_trans(a: Seq<char>, b: Seq<char>, c: Seq<char>)
    requires
        lex_le(a, b),
        lex_le(b, c),
    ensures
        lex_le(a, c),
    decreases a.len(),
{
    if a.len() > 0 && b.len() > 0 && c.len() > 0 && (a[0] as u32) == (b[0] as u32) && (b[0] as u32)
        == (c[0] as u32) {
        lemma_lex_trans(a.drop_first(), b.drop_first(), c.drop_first());
    }
}

/// Whether the characters of `a` come at or before those of `b`,
/// lexicographically by code point.
pub fn lex_le_chars(a: &Vec<char>, b: &Vec<char>) -> (r: bool)
    ensures
        r == lex_le(a@, b@),
{
    let mut i: usize = 0;
    proof {
        assert(a@.skip(0) =~= a@);
        assert(b@.skip(0) =~= b@);
    }
    while i < a.len() && i < b.len()
        invariant
            i <= a.len(),
            i <= b.len(),
            lex_le(a@, b@) == lex_le(a@.skip(i as int), b@.skip(i as int)),
            lex_le(b@, a@) == lex_le(b@.skip(i as int), a@.skip(i as int)),
        decreases a.len() - i,
    {
        let ca = a[i] as u32;
        let cb = b[i] as u32;
        if ca < cb {
            return true;
        }
        if ca > cb {
            return false;
        }
        proof {
            assert(a@.skip(i as int).drop_first() =~= a@.skip(i + 1));
            assert(b@.skip(i as int).drop_first() =~= b@.skip(i + 1));
        }
        i = i + 1;
    }
    proof {
        if i >= a.len() {
            assert(a@.skip(i as int) =~= Seq::<char>::empty());
        } else {
            assert(b@.skip(i as int) =~= Seq::<char>::empty());
        }
    }
    i >= a.len()
}

} // verus!
