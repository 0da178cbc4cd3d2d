//! Character-level helpers shared by the parsers: Unicode whitespace,
//! trimming, and conversions between `&str`, `Vec<char>` and `String`.

use vstd::prelude::*;

verus! {

/// Unicode `White_Space`, the set that `char::is_whitespace` and `str::trim` use.
pub open spec fn is_ws(c: char) -> bool {
    let v = c as u32;
    ||| 0x09 <= v <= 0x0D
    ||| v == 0x20
    ||| v == 0x85
    ||| v == 0xA0
    ||| v == 0x1680
    ||| 0x2000 <= v <= 0x200A
    ||| v == 0x2028
    ||| v == 0x2029
    ||| v == 0x202F
    ||| v == 0x205F
    ||| v == 0x3000
}

/// Drops the leading whitespace of `s`.
pub open spec fn trim_start(s: Seq<char>) -> Seq<char>
    decreases s.len(),
{
    if s.len() > 0 && is_ws(s[0]) {
        trim_start(s.drop_first())
    } else {
        s
    }
}

/// Drops the trailing whitespace of `s`.
pub open spec fn trim_end(s: Seq<char>) -> Seq<char>
    decreases s.len(),
{
    if s.len() > 0 && is_ws(s.last()) {
        trim_end(s.drop_last())
    } else {
        s
    }
}

/// What `str::trim` returns: `s` without its leading and trailing whitespace.
pub open spec fn trim(s: Seq<char>) -> Seq<char> {
    trim_end(trim_start(s))
}

/// Whether `c` is Unicode whitespace.
pub fn is_whitespace(c: char) -> (r: bool)
    ensures
        r == is_ws(c),
{
    let v = c as u32;
    (0x09 <= v && v <= 0x0D) || v == 0x20 || v == 0x85 || v == 0xA0 || v == 0x1680 || (0x2000
        <= v && v <= 0x200A) || v == 0x2028 || v == 0x2029 || v == 0x202F || v == 0x205F || v
        == 0x3000
}

proof fn lemma_trim_start_skip(s: Seq<char>, i: int)
    requires
        0 <= i < s.len(),
        is_ws(s[i]),
    ensures
        trim_start(s.skip(i)) == trim_start(s.skip(i + 1)),
{
    assert(s.skip(i).drop_first() =~= s.skip(i + 1));
}

proof fn lemma_trim_end_take(s: Seq<char>, j: int)
    requires
        0 < j <= s.len(),
        is_ws(s[j - 1]),
    ensures
        trim_end(s.take(j)) == trim_end(s.take(j - 1)),
{
    assert(s.take(j).drop_last() =~= s.take(j - 1));
}

/// The characters of `s`, in order.
pub fn chars_of(s: &str) -> (r: Vec<char>)
    ensures
        r@ == s@,
{
    let n = s.unicode_len();
    let mut v: Vec<char> = Vec::new();
    let mut i: usize = 0;
    while i < n
        invariant
            n == s@.len(),
            i <= n,
            v@ == s@.take(i as int),
        decreases n - i,
    {
        let c = s.get_char(i);
        v.push(c);
        i = i + 1;
        assert(v@ =~= s@.take(i as int));
    }
    assert(v@ =~= s@);
    v
}

/// The characters of `s` from `from` up to `to`.
pub fn slice_chars(s: &Vec<char>, from: usize, to: usize) -> (r: Vec<char>)
    requires
        from <= to <= s.len(),
    ensures
        r@ == s@.subrange(from as int, to as int),
{
    let mut v: Vec<char> = Vec::new();
    let mut i: usize = from;
    while i < to
        invariant
            from <= i <= to <= s.len(),
            v@ == s@.subrange(from as int, i as int),
        decreases to - i,
    {
        v.push(s[i]);
        i = i + 1;
        assert(v@ =~= s@.subrange(from as int, i as int));
    }
    v
}

/// `s` without its leading and trailing Unicode whitespace, as `str::trim` gives it.
pub fn trim_chars(s: &Vec<char>) -> (r: Vec<char>)
    ensures
        r@ == trim(s@),
{
    let mut i: usize = 0;
    assert(s@.skip(0) =~= s@);
    while i < s.len() && is_whitespace(s[i])
        invariant
            i <= s.len(),
            trim_start(s@) == trim_start(s@.skip(i as int)),
        decreases s.len() - i,
    {
        proof {
            lemma_trim_start_skip(s@, i as int);
        }
        i = i + 1;
    }
    let ghost rest = s@.skip(i as int);
    assert(trim_start(s@) == rest) by {
        if rest.len() > 0 {
            assert(rest[0] == s@[i as int]);
        }
    }
    let mut j: usize = s.len();
    assert(rest.take(rest.len() as int) =~= rest);
    while j > i && is_whitespace(s[j - 1])
        invariant
            i <= j <= s.len(),
            rest == s@.skip(i as int),
            trim_end(rest) == trim_end(rest.take(j - i)),
        decreases j,
    {
        proof {
            lemma_trim_end_take(rest, (j - i) as int);
        }
        j = j - 1;
    }
    let r = slice_chars(s, i, j);
    assert(r@ =~= rest.take(j - i));
    assert(trim_end(rest.take(j - i)) == rest.take(j - i)) by {
        let t = rest.take(j - i);
        if t.len() > 0 {
            assert(t.last() == s@[j - 1]);
        }
    }
    r
}

/// Drops the leading run of non-whitespace characters of `s`.
pub open spec fn skip_word(s: Seq<char>) -> Seq<char>
    decreases s.len(),
{
    if s.len() > 0 && !is_ws(s[0]) {
        skip_word(s.drop_first())
    } else {
        s
    }
}

/// The leading run of non-whitespace characters of `s`.
pub open spec fn take_word(s: Seq<char>) -> Seq<char> {
    s.take(s.len() - skip_word(s).len())
}

/// Whether no character of `s` is whitespace.
pub open spec fn no_ws(s: Seq<char>) -> bool {
    forall|i: int| 0 <= i < s.len() ==> !is_ws(#[trigger] s[i])
}

/// A word followed by text that starts at whitespace (or is empty): skipping
/// the word leaves that text.
pub(crate) proof fn lemma_skip_word_concat(w: Seq<char>, rest: Seq<char>)
    requires
        no_ws(w),
        rest.len() > 0 ==> is_ws(rest[0]),
    ensures
        skip_word(w + rest) == rest,
        take_word(w + rest) == w,
    decreases w.len(),
{
    if w.len() > 0 {
        assert((w + rest)[0] == w[0]);
        assert((w + rest).drop_first() =~= w.drop_first() + rest);
        lemma_skip_word_concat(w.drop_first(), rest);
    } else {
        assert(w + rest =~= rest);
    }
    assert((w + rest).take(w.len() as int) =~= w);
}

/// Whether every character of `s` is whitespace.
pub open spec fn all_ws(s: Seq<char>) -> bool {
    forall|i: int| 0 <= i < s.len() ==> is_ws(#[trigger] s[i])
}

/// The first index at or after `i` where `v` holds no whitespace (or its end).
pub fn skip_ws_from(v: &Vec<char>, i: usize) -> (j: usize)
    requires
        i <= v.len(),
    ensures
        i <= j <= v.len(),
        v@.skip(j as int) == trim_start(v@.skip(i as int)),
{
    let mut j = i;
    while j < v.len() && is_whitespace(v[j])
        invariant
            i <= j <= v.len(),
            trim_start(v@.skip(i as int)) == trim_start(v@.skip(j as int)),
        decreases v.len() - j,
    {
        proof {
            lemma_trim_start_skip(v@, j as int);
        }
        j = j + 1;
    }
    proof {
        let rest = v@.skip(j as int);
        if rest.len() > 0 {
            assert(rest[0] == v@[j as int]);
        }
    }
    j
}

/// The first index at or after `i` where `v` holds whitespace (or its end).
pub fn skip_word_from(v: &Vec<char>, i: usize) -> (j: usize)
    requires
        i <= v.len(),
    ensures
        i <= j <= v.len(),
        v@.skip(j as int) == skip_word(v@.skip(i as int)),
{
    let mut j = i;
    while j < v.len() && !is_whitespace(v[j])
        invariant
            i <= j <= v.len(),
            skip_word(v@.skip(i as int)) == skip_word(v@.skip(j as int)),
        decreases v.len() - j,
    {
        assert(v@.skip(j as int).drop_first() =~= v@.skip(j + 1));
        j = j + 1;
    }
    proof {
        let rest = v@.skip(j as int);
        if rest.len() > 0 {
            assert(rest[0] == v@[j as int]);
        }
    }
    j
}

/// The word of `v` that starts at `i`: its characters up to the next whitespace.
pub fn word_at(v: &Vec<char>, i: usize) -> (r: (Vec<char>, usize))
    requires
        i <= v.len(),
    ensures
        r.0@ == take_word(v@.skip(i as int)),
        i <= r.1 <= v.len(),
        v@.skip(r.1 as int) == skip_word(v@.skip(i as int)),
{
    let j = skip_word_from(v, i);
    let w = slice_chars(v, i, j);
    proof {
        let s = v@.skip(i as int);
        assert(s.take(s.len() - skip_word(s).len()) =~= v@.subrange(i as int, j as int));
    }
    (w, j)
}

pub(crate) proof fn lemma_trim_start_ws_prefix(p: Seq<char>, x: Seq<char>)
    requires
        all_ws(p),
    ensures
        trim_start(p + x) == trim_start(x),
    decreases p.len(),
{
    if p.len() > 0 {
        assert((p + x)[0] == p[0]);
        assert((p + x).drop_first() =~= p.drop_first() + x);
        lemma_trim_start_ws_prefix(p.drop_first(), x);
    } else {
        assert(p + x =~= x);
    }
}

proof fn lemma_trim_end_ws_suffix(x: Seq<char>, q: Seq<char>)
    requires
        all_ws(q),
    ensures
        trim_end(x + q) == trim_end(x),
    decreases q.len(),
{
    if q.len() > 0 {
        assert((x + q).last() == q.last());
        assert((x + q).drop_last() =~= x + q.drop_last());
        lemma_trim_end_ws_suffix(x, q.drop_last());
    } else {
        assert(x + q =~= x);
    }
}

proof fn lemma_trim_start_concat(s: Seq<char>, q: Seq<char>)
    ensures
        trim_start(s).len() > 0 ==> trim_start(s + q) == trim_start(s) + q,
        trim_start(s).len() == 0 ==> trim_start(s + q) == trim_start(q),
    decreases s.len(),
{
    if s.len() == 0 {
        assert(s + q =~= q);
    } else if is_ws(s[0]) {
        assert((s + q)[0] == s[0]);
        assert((s + q).drop_first() =~= s.drop_first() + q);
        lemma_trim_start_concat(s.drop_first(), q);
    } else {
        assert((s + q)[0] == s[0]);
    }
}

/// Surrounding whitespace does not change what `trim` gives: for whitespace
/// `p` and `q`, trimming `p + s + q` gives the trimmed `s`.
pub proof fn lemma_trim_ignores_surrounding_whitespace(p: Seq<char>, s: Seq<char>, q: Seq<char>)
    requires
        all_ws(p),
        all_ws(q),
    ensures
        trim(p + s + q) == trim(s),
{
    assert(p + s + q =~= p + (s + q));
    lemma_trim_start_ws_prefix(p, s + q);
    lemma_trim_start_concat(s, q);
    if trim_start(s).len() > 0 {
        lemma_trim_end_ws_suffix(trim_start(s), q);
    } else {
        lemma_trim_start_ws_prefix(q, Seq::<char>::empty());
        assert(q + Seq::<char>::empty() =~= q);
    }
}

/// A `String` holding the characters of `v`: calls `Iterator::collect` of std
/// over the characters, which the contract claims keeps them in order.
#[verifier::external_body]
pub(crate) fn string_from_chars(v: &Vec<char>) -> (r: String)
    ensures
        r@ == v@,
{
    v.iter().collect()
}


/// `t` without one trailing carriage return.
pub open spec fn strip_cr(t: Seq<char>) -> Seq<char> {
    if t.len() > 0 && t.last() == '\r' {
        t.drop_last()
    } else {
        t
    }
}

/// The lines of `s` from a line that began at `start`, scanning at `i`: each
/// ends at a '\n', with a '\r' just before it dropped; text after the last
/// '\n' is a last line when there is any.
pub open spec fn lines_from(s: Seq<char>, start: int, i: int) -> Seq<Seq<char>>
    recommends
        0 <= start <= i <= s.len(),
    decreases s.len() - i,
{
    if i >= s.len() || i < 0 {
        if start < s.len() {
            seq![s.subrange(start, s.len() as int)]
        } else {
            Seq::empty()
        }
    } else if s[i] == '\n' {
        seq![strip_cr(s.subrange(start, i))] + lines_from(s, i + 1, i + 1)
    } else {
        lines_from(s, start, i + 1)
    }
}

/// The lines of `s` as `str::lines` gives them.
pub open spec fn str_lines(s: Seq<char>) -> Seq<Seq<char>> {
    lines_from(s, 0, 0)
}

/// The lines of `text`, as `str::lines` gives them: split at "\n" and
/// "\r\n", with no empty line after a final line ending.
pub fn lines_of(text: &str) -> (r: Vec<String>)
    ensures
        r@.map_values(|l: String| l@) == str_lines(text@),
{
    let s = chars_of(text);
    let ghost sv = s@;
    let mut out: Vec<String> = Vec::new();
    let ghost mut done: Seq<Seq<char>> = Seq::empty();
    let mut start: usize = 0;
    let mut i: usize = 0;
    while i < s.len()
        invariant
            sv == s@,
            sv == text@,
            start <= i <= s.len(),
            str_lines(sv) == done + lines_from(sv, start as int, i as int),
            out@.map_values(|l: String| l@) == done,
        decreases s.len() - i,
    {
        if s[i] == '\n' {
            let end = if i > start && s[i - 1] == '\r' {
                i - 1
            } else {
                i
            };
            let line = slice_chars(&s, start, end);
            let text_line = string_from_chars(&line);
            proof {
                let whole = sv.subrange(start as int, i as int);
                if i > start && sv[i - 1] == '\r' {
                    assert(whole.drop_last() =~= line@);
                } else {
                    assert(whole =~= line@);
                }
                assert(line@ == strip_cr(whole));
                assert(done + lines_from(sv, start as int, i as int) =~= done.push(line@)
                    + lines_from(sv, i + 1, i + 1));
            }
            let ghost before = out@;
            out.push(text_line);
            proof {
                assert(out@ == before.push(text_line));
                assert(out@.map_values(|l: String| l@) =~= done.push(line@));
                done = done.push(line@);
            }
            i = i + 1;
            start = i;
        } else {
            i = i + 1;
        }
    }
    if start < s.len() {
        let line = slice_chars(&s, start, s.len());
        let text_line = string_from_chars(&line);
        let ghost before = out@;
        out.push(text_line);
        proof {
            assert(done + lines_from(sv, start as int, i as int) =~= done.push(line@));
            assert(out@ == before.push(text_line));
            assert(out@.map_values(|l: String| l@) =~= done.push(line@));
        }
    } else {
        proof {
            assert(done + lines_from(sv, start as int, i as int) =~= done);
        }
    }
    out
}

} // verus!
