//! Character-level text utilities: line splitting, whitespace trimming, keyword
//! detection and ordering of texts, all stated over `Seq<char>`.

use vstd::prelude::*;
use vstd::std_specs::iter::IteratorSpec;

verus! {

broadcast use vstd::string::group_string_axioms;

/// The characters of `s`, in order.
pub fn chars_of(s: &str) -> (v: Vec<char>)
    ensures
        v@ == s@,
{
    let mut it = s.chars();
    let mut v: Vec<char> = Vec::new();
    loop
        invariant
            it.remaining() == s@.skip(v@.len() as int),
            v@ == s@.take(v@.len() as int),
            v@.len() <= s@.len(),
        decreases s@.len() - v@.len(),
    {
        let ghost before = it.remaining();
        match it.next() {
            Some(c) => {
                v.push(c);
                assert(s@.skip(v@.len() as int) =~= before.drop_first());
                assert(v@ =~= s@.take(v@.len() as int));
            },
            None => {
                assert(v@ =~= s@);
                return v;
            },
        }
    }
}

/// A copy of `s`.
pub fn copy_string(s: &String) -> (r: String)
    ensures
        r == *s,
{
    s.clone()
}

/// Appends one character to a `String` (`String::push`).
#[verifier::external_body]
pub(crate) fn push_char(s: &mut String, c: char)
    ensures
        final(s)@ == old(s)@.push(c),
{
    s.push(c);
}

/// Appends `v[from..to]` to `out`.
pub fn append_chars(out: &mut String, v: &Vec<char>, from: usize, to: usize)
    requires
        from <= to <= v@.len(),
    ensures
        final(out)@ == old(out)@ + v@.subrange(from as int, to as int),
{
    let mut i = from;
    while i < to
        invariant
            from <= i <= to <= v@.len(),
            out@ == old(out)@ + v@.subrange(from as int, i as int),
        decreases to - i,
    {
        push_char(out, v[i]);
        assert(v@.subrange(from as int, i + 1) =~= v@.subrange(from as int, i as int).push(v@[i as int]));
        i = i + 1;
    }
}

// ---------------------------------------------------------------------------
// Whitespace
// ---------------------------------------------------------------------------

/// The code point of `c`.
pub fn char_code(c: char) -> (u: u32)
    ensures
        u == c as int,
{
    proof {
        assert(0 <= (c as int) <= 0x10FFFF);
    }
    c as u32
}

/// Unicode `White_Space` characters, as `char::is_whitespace` decides.
pub open spec fn is_white_space(c: char) -> bool {
    let u = c as int;
    ||| 0x9 <= u <= 0xd
    ||| u == 0x20 || u == 0x85 || u == 0xa0 || u == 0x1680
    ||| 0x2000 <= u <= 0x200a
    ||| u == 0x2028 || u == 0x2029 || u == 0x202f || u == 0x205f || u == 0x3000
}

/// `s` without its leading white space (`str::trim_start`).
pub open spec fn trim_start(s: Seq<char>) -> Seq<char>
    decreases s.len(),
{
    if s.len() > 0 && is_white_space(s[0]) {
        trim_start(s.drop_first())
    } else {
        s
    }
}

fn char_is_white_space(c: char) -> (b: bool)
    ensures
        b == is_white_space(c),
{
    let u = char_code(c);
    (0x9 <= u && u <= 0xd) || u == 0x20 || u == 0x85 || u == 0xa0 || u == 0x1680 || (0x2000 <= u
        && u <= 0x200a) || u == 0x2028 || u == 0x2029 || u == 0x202f || u == 0x205f || u == 0x3000
}

proof fn lemma_trim_start_skip(s: Seq<char>, k: int)
    requires
        0 <= k <= s.len(),
        forall|j: int| 0 <= j < k ==> is_white_space(#[trigger] s[j]),
    ensures
        trim_start(s) == trim_start(s.subrange(k, s.len() as int)),
    decreases k,
{
    if k > 0 {
        lemma_trim_start_skip(s.drop_first(), k - 1);
        assert(s.drop_first().subrange(k - 1, s.drop_first().len() as int) =~= s.subrange(k, s.len() as int));
    } else {
        assert(s.subrange(0, s.len() as int) =~= s);
    }
}

// ---------------------------------------------------------------------------
// The PRAGMA keyword
// ---------------------------------------------------------------------------

/// `c` upper-cases to the ASCII capital `upper` (given as a capital letter).
pub open spec fn upper_cases_to(c: char, upper: char) -> bool {
    c == upper || c as int == upper as int + 32
}

/// Whether the upper-cased text begins with `PRAGMA`.
///
/// Upper-casing produces these capitals only from their ASCII letters, with one
/// exception: `ẚ` (U+1E9A), whose upper case is `A` followed by a modifier letter,
/// so it can stand for the last `A`.
pub open spec fn begins_with_pragma(t: Seq<char>) -> bool {
    &&& t.len() >= 6
    &&& upper_cases_to(t[0], 'P')
    &&& upper_cases_to(t[1], 'R')
    &&& upper_cases_to(t[2], 'A')
    &&& upper_cases_to(t[3], 'G')
    &&& upper_cases_to(t[4], 'M')
    &&& (upper_cases_to(t[5], 'A') || t[5] as int == 0x1e9a)
}

/// A line that, once its leading white space is trimmed and it is upper-cased,
/// starts with `PRAGMA`.
pub open spec fn is_pragma_line(line: Seq<char>) -> bool {
    begins_with_pragma(trim_start(line))
}

fn upper_is(c: char, upper: char) -> (b: bool)
    requires
        'A' <= upper <= 'Z',
    ensures
        b == upper_cases_to(c, upper),
{
    c == upper || char_code(c) == char_code(upper) + 32
}

/// Whether `v[from..to]` is a pragma line.
pub fn range_is_pragma_line(v: &Vec<char>, from: usize, to: usize) -> (b: bool)
    requires
        from <= to <= v@.len(),
    ensures
        b == is_pragma_line(v@.subrange(from as int, to as int)),
{
    let ghost line = v@.subrange(from as int, to as int);
    let mut k = from;
    while k < to && char_is_white_space(v[k])
        invariant
            from <= k <= to <= v@.len(),
            line == v@.subrange(from as int, to as int),
            forall|j: int| from <= j < k ==> is_white_space(#[trigger] v@[j]),
        decreases to - k,
    {
        k = k + 1;
    }
    proof {
        assert forall|j: int| 0 <= j < k - from implies is_white_space(#[trigger] line[j]) by {
            assert(line[j] == v@[from + j]);
        }
        lemma_trim_start_skip(line, k - from);
        let t = line.subrange(k - from, line.len() as int);
        assert(t =~= v@.subrange(k as int, to as int));
        if k < to {
            assert(!is_white_space(t[0]));
        }
        assert(trim_start(t) == t);
    }
    if to - k < 6 {
        return false;
    }
    upper_is(v[k], 'P') && upper_is(v[k + 1], 'R') && upper_is(v[k + 2], 'A') && upper_is(
        v[k + 3],
        'G',
    ) && upper_is(v[k + 4], 'M') && (upper_is(v[k + 5], 'A') || char_code(v[k + 5]) == 0x1e9a)
}

// ---------------------------------------------------------------------------
// Lines
// ---------------------------------------------------------------------------

/// `line` without one trailing carriage return.
pub open spec fn strip_cr(line: Seq<char>) -> Seq<char> {
    if line.len() > 0 && line.last() == '\r' {
        line.drop_last()
    } else {
        line
    }
}

/// Reading `s` from the left: the lines ended by a line feed so far, and the
/// characters of the line still open.
pub open spec fn line_scan(s: Seq<char>) -> (Seq<Seq<char>>, Seq<char>)
    decreases s.len(),
{
    if s.len() == 0 {
        (Seq::empty(), Seq::empty())
    } else {
        let (done, open) = line_scan(s.drop_last());
        if s.last() == '\n' {
            (done.push(strip_cr(open)), Seq::empty())
        } else {
            (done, open.push(s.last()))
        }
    }
}

/// The lines of `s`, as `str::lines` yields them: split at `\n`, each with one
/// `\r` before that `\n` removed, and no empty line after a final `\n`.
pub open spec fn text_lines(s: Seq<char>) -> Seq<Seq<char>> {
    let (done, open) = line_scan(s);
    if open.len() > 0 {
        done.push(open)
    } else {
        done
    }
}

/// The lines of `lines` that are not pragma lines, in order.
pub open spec fn non_pragma_lines(lines: Seq<Seq<char>>) -> Seq<Seq<char>>
    decreases lines.len(),
{
    if lines.len() == 0 {
        Seq::empty()
    } else if is_pragma_line(lines.last()) {
        non_pragma_lines(lines.drop_last())
    } else {
        non_pragma_lines(lines.drop_last()).push(lines.last())
    }
}

/// The lines joined with `\n` between them (`join("\n")`).
pub open spec fn join_lines(lines: Seq<Seq<char>>) -> Seq<char>
    decreases lines.len(),
{
    if lines.len() == 0 {
        Seq::empty()
    } else if lines.len() == 1 {
        lines[0]
    } else {
        join_lines(lines.drop_last()) + seq!['\n'] + lines.last()
    }
}

/// `text` with every pragma line removed, the other lines joined with `\n`.
pub open spec fn without_pragma_lines(text: Seq<char>) -> Seq<char> {
    join_lines(non_pragma_lines(text_lines(text)))
}

/// Appends the line `v[from..to]` to the joined non-pragma lines in `out`, if it is
/// not a pragma line.
fn keep_line(out: &mut String, kept: &mut bool, v: &Vec<char>, from: usize, to: usize, Ghost(lines): Ghost<Seq<Seq<char>>>)
    requires
        from <= to <= v@.len(),
        old(out)@ == join_lines(non_pragma_lines(lines)),
        *old(kept) == (non_pragma_lines(lines).len() > 0),
    ensures
        final(out)@ == join_lines(non_pragma_lines(lines.push(v@.subrange(from as int, to as int)))),
        *final(kept) == (non_pragma_lines(lines.push(v@.subrange(from as int, to as int))).len() > 0),
{
    let ghost line = v@.subrange(from as int, to as int);
    assert(lines.push(line).drop_last() =~= lines);
    if !range_is_pragma_line(v, from, to) {
        if *kept {
            push_char(out, '\n');
        }
        append_chars(out, v, from, to);
        *kept = true;
        let ghost kept_lines = non_pragma_lines(lines.push(line));
        assert(kept_lines.drop_last() =~= non_pragma_lines(lines));
    }
}

/// `text` with its pragma lines removed, the remaining lines joined with `\n`.
pub fn strip_pragma_lines(text: &str) -> (r: String)
    ensures
        r@ == without_pragma_lines(text@),
{
    let v = chars_of(text);
    let n = v.len();
    let mut out = String::new();
    let mut kept = false;
    let mut start: usize = 0;
    let mut i: usize = 0;
    while i < n
        invariant
            n == v@.len(),
            v@ == text@,
            start <= i <= n,
            line_scan(v@.take(i as int)).1 == v@.subrange(start as int, i as int),
            out@ == join_lines(non_pragma_lines(line_scan(v@.take(i as int)).0)),
            kept == (non_pragma_lines(line_scan(v@.take(i as int)).0).len() > 0),
        decreases n - i,
    {
        let ghost prefix = v@.take(i as int);
        let ghost next = v@.take(i + 1);
        assert(next.drop_last() =~= prefix);
        if v[i] == '\n' {
            let end = if i > start && v[i - 1] == '\r' { i - 1 } else { i };
            assert(strip_cr(v@.subrange(start as int, i as int)) =~= v@.subrange(start as int, end as int));
            keep_line(&mut out, &mut kept, &v, start, end, Ghost(line_scan(prefix).0));
            start = i + 1;
            assert(v@.subrange(start as int, i + 1) =~= Seq::<char>::empty());
        } else {
            assert(v@.subrange(start as int, i + 1) =~= v@.subrange(start as int, i as int).push(v@[i as int]));
        }
        i = i + 1;
    }
    assert(v@.take(n as int) =~= v@);
    if start < n {
        keep_line(&mut out, &mut kept, &v, start, n, Ghost(line_scan(v@).0));
    } else {
        assert(v@.subrange(start as int, n as int) =~= Seq::<char>::empty());
    }
    out
}


/// Whether the two texts are equal.
pub fn texts_equal(a: &str, b: &str) -> (r: bool)
    ensures
        r == (a@ == b@),
{
    let va = chars_of(a);
    let vb = chars_of(b);
    if va.len() != vb.len() {
        return false;
    }
    let mut i: usize = 0;
    while i < va.len()
        invariant
            va@ == a@,
            vb@ == b@,
            va@.len() == vb@.len(),
            i <= va@.len(),
            forall|j: int| 0 <= j < i ==> va@[j] == vb@[j],
        decreases va@.len() - i,
    {
        if va[i] != vb[i] {
            return false;
        }
        i = i + 1;
    }
    assert(va@ =~= vb@);
    true
}

// ---------------------------------------------------------------------------
// Order of texts
// ---------------------------------------------------------------------------

/// Strict lexicographic order of texts by character code, the order of `String`
/// (UTF-8 byte order and code point order agree).
pub open spec fn text_less(a: Seq<char>, b: Seq<char>) -> bool
    decreases a.len(),
{
    if a.len() == 0 {
        b.len() > 0
    } else if b.len() == 0 {
        false
    } else if a[0] != b[0] {
        (a[0] as int) < (b[0] as int)
    } else {
        text_less(a.drop_first(), b.drop_first())
    }
}

proof fn lemma_heads_tails(a: Seq<char>, b: Seq<char>)
    requires
        a.len() > 0,
        b.len() > 0,
        a[0] == b[0],
        a.drop_first() == b.drop_first(),
    ensures
        a == b,
{
    assert(a =~= seq![a[0]] + a.drop_first());
    assert(b =~= seq![b[0]] + b.drop_first());
}

/// `text_less` is irreflexive, asymmetric and total on distinct texts.
pub proof fn lemma_text_less_total(a: Seq<char>, b: Seq<char>)
    ensures
        !text_less(a, a),
        !(text_less(a, b) && text_less(b, a)),
        a != b ==> (text_less(a, b) || text_less(b, a)),
    decreases a.len(),
{
    if a.len() == 0 {
        if b.len() == 0 {
            assert(a =~= b);
        }
    } else if b.len() > 0 {
        lemma_text_less_total(a.drop_first(), b.drop_first());
        if a[0] == b[0] && a != b {
            if a.drop_first() == b.drop_first() {
                lemma_heads_tails(a, b);
            }
        }
    } else {
        lemma_text_less_total(a.drop_first(), a.drop_first());
    }
}

/// `text_less` is transitive.
pub proof fn lemma_text_less_transitive(a: Seq<char>, b: Seq<char>, c: Seq<char>)
    requires
        text_less(a, b),
        text_less(b, c),
    ensures
        text_less(a, c),
    decreases a.len(),
{
    if a.len() > 0 && b.len() > 0 && c.len() > 0 && a[0] == b[0] && b[0] == c[0] {
        lemma_text_less_transitive(a.drop_first(), b.drop_first(), c.drop_first());
    }
}

/// Whether `a` comes strictly before `b` in the order of texts.
pub fn is_text_less(a: &str, b: &str) -> (r: bool)
    ensures
        r == text_less(a@, b@),
{
    let va = chars_of(a);
    let vb = chars_of(b);
    let mut i: usize = 0;
    assert(a@.skip(0) =~= a@);
    assert(b@.skip(0) =~= b@);
    while i < va.len() && i < vb.len() && va[i] == vb[i]
        invariant
            va@ == a@,
            vb@ == b@,
            i <= va@.len(),
            i <= vb@.len(),
            text_less(a@, b@) == text_less(a@.skip(i as int), b@.skip(i as int)),
        decreases va@.len() - i,
    {
        assert(a@.skip(i as int).drop_first() =~= a@.skip(i + 1));
        assert(b@.skip(i as int).drop_first() =~= b@.skip(i + 1));
        i = i + 1;
    }
    if i == va.len() {
        i < vb.len()
    } else if i == vb.len() {
        false
    } else {
        char_code(va[i]) < char_code(vb[i])
    }
}

} // verus!
