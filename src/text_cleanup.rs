//! Clean-up of text extracted from documents: splitting into lines, trimming
//! white space, dropping blank lines, and reducing Markdown to plain text.
use vstd::prelude::*;
use crate::text::{chars_of, string_of};

verus! {

/// The characters with the Unicode White_Space property.
pub open spec fn is_ws(c: char) -> bool {
    let u = c as u32;
    (9 <= u && u <= 13) || u == 32 || u == 0x85 || u == 0xa0 || u == 0x1680 || (0x2000 <= u && u
        <= 0x200a) || u == 0x2028 || u == 0x2029 || u == 0x202f || u == 0x205f || u == 0x3000
}

pub fn is_whitespace(c: char) -> (r: bool)
    ensures
        r == is_ws(c),
{
    let u = c as u32;
    (9 <= u && u <= 13) || u == 32 || u == 0x85 || u == 0xa0 || u == 0x1680 || (0x2000 <= u && u
        <= 0x200a) || u == 0x2028 || u == 0x2029 || u == 0x202f || u == 0x205f || u == 0x3000
}

/// `s` without its leading white space.
pub open spec fn trim_start(s: Seq<char>) -> Seq<char>
    decreases s.len(),
{
    if s.len() > 0 && is_ws(s[0]) {
        trim_start(s.skip(1))
    } else {
        s
    }
}

/// `s` without its trailing white space.
pub open spec fn trim_end(s: Seq<char>) -> Seq<char>
    decreases s.len(),
{
    if s.len() > 0 && is_ws(s.last()) {
        trim_end(s.drop_last())
    } else {
        s
    }
}

pub open spec fn trim(s: Seq<char>) -> Seq<char> {
    trim_end(trim_start(s))
}

/// The pieces of `s` between newlines; the last piece may be empty.
pub open spec fn pieces(s: Seq<char>) -> Seq<Seq<char>>
    decreases s.len(),
{
    if s.len() == 0 {
        seq![Seq::empty()]
    } else {
        let p = pieces(s.drop_last());
        if s.last() == '\n' {
            p.push(Seq::empty())
        } else {
            p.update(p.len() - 1, p.last().push(s.last()))
        }
    }
}

/// The lines of `s`: the pieces between newlines, where a final newline
/// ends the last line rather than starting an empty one.
pub open spec fn lines(s: Seq<char>) -> Seq<Seq<char>> {
    let p = pieces(s);
    if p.last().len() == 0 {
        p.drop_last()
    } else {
        p
    }
}

/// The lines joined with a newline between each two.
pub open spec fn join_lines(ls: Seq<Seq<char>>) -> Seq<char>
    decreases ls.len(),
{
    if ls.len() == 0 {
        Seq::empty()
    } else if ls.len() == 1 {
        ls[0]
    } else {
        join_lines(ls.drop_last()) + seq!['\n'] + ls.last()
    }
}

/// Every text has at least one piece.
pub proof fn lemma_pieces_len(s: Seq<char>)
    ensures
        pieces(s).len() >= 1,
    decreases s.len(),
{
    if s.len() > 0 {
        lemma_pieces_len(s.drop_last());
    }
}

proof fn lemma_trim_start_at(s: Seq<char>, k: int)
    requires
        0 <= k <= s.len(),
        forall|j: int| 0 <= j < k ==> is_ws(#[trigger] s[j]),
        k == s.len() || !is_ws(s[k]),
    ensures
        trim_start(s) == s.skip(k),
    decreases k,
{
    if k == 0 {
        assert(s.skip(0) =~= s);
    } else {
        let t = s.skip(1);
        assert forall|j: int| 0 <= j < k - 1 implies is_ws(#[trigger] t[j]) by {
            assert(t[j] == s[j + 1]);
        }
        if k < s.len() {
            assert(t[k - 1] == s[k]);
        }
        lemma_trim_start_at(t, k - 1);
        assert(t.skip(k - 1) =~= s.skip(k));
    }
}

proof fn lemma_trim_end_at(s: Seq<char>, e: int)
    requires
        0 <= e <= s.len(),
        forall|j: int| e <= j < s.len() ==> is_ws(#[trigger] s[j]),
        e == 0 || !is_ws(s[e - 1]),
    ensures
        trim_end(s) == s.take(e),
    decreases s.len() - e,
{
    if e == s.len() {
        assert(s.take(e) =~= s);
    } else {
        let d = s.drop_last();
        assert forall|j: int| e <= j < d.len() implies is_ws(#[trigger] d[j]) by {
            assert(d[j] == s[j]);
        }
        if e > 0 {
            assert(d[e - 1] == s[e - 1]);
        }
        assert(is_ws(s[s.len() - 1]));
        lemma_trim_end_at(d, e);
        assert(d.take(e) =~= s.take(e));
    }
}

/// The characters of `v[from..to]` without leading and trailing white space.
fn trimmed_range(v: &Vec<char>, from: usize, to: usize) -> (r: Vec<char>)
    requires
        from <= to <= v@.len(),
    ensures
        r@ == trim(v@.subrange(from as int, to as int)),
{
    let ghost s = v@.subrange(from as int, to as int);
    let mut a = from;
    while a < to && is_whitespace(v[a])
        invariant
            from <= a <= to,
            to <= v@.len(),
            s == v@.subrange(from as int, to as int),
            forall|j: int| 0 <= j < a - from ==> is_ws(#[trigger] s[j]),
        decreases to - a,
    {
        proof {
            assert(s[a - from] == v@[a as int]);
        }
        a = a + 1;
    }
    proof {
        if a < to {
            assert(s[a - from] == v@[a as int]);
        }
        lemma_trim_start_at(s, (a - from) as int);
    }
    let ghost t = s.skip((a - from) as int);
    let mut b = to;
    while b > a && is_whitespace(v[b - 1])
        invariant
            from <= a <= b <= to,
            to <= v@.len(),
            t == v@.subrange(a as int, to as int),
            forall|j: int| b - a <= j < t.len() ==> is_ws(#[trigger] t[j]),
        decreases b - a,
    {
        proof {
            assert(t[b - 1 - a] == v@[b - 1]);
        }
        b = b - 1;
    }
    proof {
        assert(t =~= v@.subrange(a as int, to as int));
        if b > a {
            assert(t[b - 1 - a] == v@[b - 1]);
        }
        lemma_trim_end_at(t, (b - a) as int);
    }
    let mut r: Vec<char> = Vec::new();
    let mut i = a;
    while i < b
        invariant
            a <= i <= b,
            b <= v@.len(),
            r@ == v@.subrange(a as int, i as int),
        decreases b - i,
    {
        r.push(v[i]);
        proof {
            assert(r@ =~= v@.subrange(a as int, i + 1));
        }
        i = i + 1;
    }
    proof {
        assert(r@ =~= t.take((b - a) as int));
    }
    r
}

/// The characters of `v` without leading and trailing white space.
pub fn trimmed(v: &Vec<char>) -> (r: Vec<char>)
    ensures
        r@ == trim(v@),
{
    proof {
        assert(v@.subrange(0, v@.len() as int) =~= v@);
    }
    trimmed_range(v, 0, v.len())
}

/// The bounds of each line of `v`, in order.
fn split_lines(v: &Vec<char>) -> (r: Vec<(usize, usize)>)
    ensures
        r@.len() == lines(v@).len(),
        forall|k: int|
            #![trigger r@[k]]
            0 <= k < r@.len() ==> r@[k].0 <= r@[k].1 && r@[k].1 <= v@.len() && v@.subrange(
                r@[k].0 as int,
                r@[k].1 as int,
            ) == lines(v@)[k],
{
    let n = v.len();
    let mut r: Vec<(usize, usize)> = Vec::new();
    let mut start: usize = 0;
    let mut i: usize = 0;
    proof {
        assert(v@.take(0) =~= Seq::<char>::empty());
        assert(v@.subrange(0, 0) =~= Seq::<char>::empty());
    }
    while i < n
        invariant
            n == v@.len(),
            start <= i <= n,
            pieces(v@.take(i as int)).len() == r@.len() + 1,
            forall|k: int|
                #![trigger r@[k]]
                0 <= k < r@.len() ==> r@[k].0 <= r@[k].1 && r@[k].1 <= i && v@.subrange(
                    r@[k].0 as int,
                    r@[k].1 as int,
                ) == pieces(v@.take(i as int))[k],
            v@.subrange(start as int, i as int) == pieces(v@.take(i as int)).last(),
        decreases n - i,
    {
        let ghost p = pieces(v@.take(i as int));
        let ghost r0 = r@;
        proof {
            lemma_pieces_len(v@.take(i as int));
            assert(v@.take(i + 1).drop_last() =~= v@.take(i as int));
            assert(v@.take(i + 1).last() == v@[i as int]);
        }
        if v[i] == '\n' {
            r.push((start, i));
            start = i + 1;
            proof {
                let q = pieces(v@.take(i + 1));
                assert(q == p.push(Seq::<char>::empty()));
                assert forall|k: int| #![trigger r@[k]] 0 <= k < r@.len() implies r@[k].0 <= r@[k].1
                    && r@[k].1 <= i + 1 && v@.subrange(r@[k].0 as int, r@[k].1 as int) == q[k] by {
                    if k < r@.len() - 1 {
                        assert(r@[k] == r0[k]);
                        assert(q[k] == p[k]);
                    } else {
                        assert(q[k] == p.last());
                    }
                }
                assert(v@.subrange(start as int, i + 1) =~= Seq::<char>::empty());
            }
        } else {
            proof {
                let q = pieces(v@.take(i + 1));
                assert(q == p.update(p.len() - 1, p.last().push(v@[i as int])));
                assert forall|k: int| #![trigger r@[k]] 0 <= k < r@.len() implies r@[k].0 <= r@[k].1
                    && r@[k].1 <= i + 1 && v@.subrange(r@[k].0 as int, r@[k].1 as int) == q[k] by {
                    assert(q[k] == p[k]);
                }
                assert(v@.subrange(start as int, i + 1) =~= p.last().push(v@[i as int]));
            }
        }
        i = i + 1;
    }
    proof {
        assert(v@.take(n as int) =~= v@);
        lemma_pieces_len(v@);
    }
    let ghost p = pieces(v@);
    let ghost r0 = r@;
    if start < n {
        r.push((start, n));
        proof {
            assert forall|k: int| #![trigger r@[k]] 0 <= k < r@.len() implies r@[k].0 <= r@[k].1
                && r@[k].1 <= v@.len() && v@.subrange(r@[k].0 as int, r@[k].1 as int)
                == lines(v@)[k] by {
                if k < r@.len() - 1 {
                    assert(r@[k] == r0[k]);
                }
            }
        }
    } else {
        proof {
            assert(v@.subrange(start as int, n as int).len() == 0);
            assert forall|k: int| #![trigger r@[k]] 0 <= k < r@.len() implies r@[k].0 <= r@[k].1
                && r@[k].1 <= v@.len() && v@.subrange(r@[k].0 as int, r@[k].1 as int)
                == lines(v@)[k] by {
                assert(lines(v@)[k] == p[k]);
            }
        }
    }
    r
}

/// The lines, each trimmed, with those left empty dropped.
pub open spec fn non_blank_trimmed(ls: Seq<Seq<char>>) -> Seq<Seq<char>>
    decreases ls.len(),
{
    if ls.len() == 0 {
        Seq::empty()
    } else {
        let rest = non_blank_trimmed(ls.drop_last());
        if trim(ls.last()).len() > 0 {
            rest.push(trim(ls.last()))
        } else {
            rest
        }
    }
}

/// The lines, each without trailing white space.
pub open spec fn end_trimmed(ls: Seq<Seq<char>>) -> Seq<Seq<char>>
    decreases ls.len(),
{
    if ls.len() == 0 {
        Seq::empty()
    } else {
        end_trimmed(ls.drop_last()).push(trim_end(ls.last()))
    }
}

proof fn lemma_end_trimmed_len(ls: Seq<Seq<char>>)
    ensures
        end_trimmed(ls).len() == ls.len(),
    decreases ls.len(),
{
    if ls.len() > 0 {
        lemma_end_trimmed_len(ls.drop_last());
    }
}

proof fn lemma_join_push(ls: Seq<Seq<char>>, l: Seq<char>)
    ensures
        join_lines(ls.push(l)) == if ls.len() == 0 {
            l
        } else {
            join_lines(ls) + seq!['\n'] + l
        },
{
    assert(ls.push(l).drop_last() =~= ls);
    if ls.len() == 0 {
        assert(ls.push(l)[0] == l);
    }
}

/// Appends `v[from..to]` to `out`.
fn push_range(out: &mut Vec<char>, v: &Vec<char>, from: usize, to: usize)
    requires
        from <= to <= v@.len(),
    ensures
        final(out)@ == old(out)@ + v@.subrange(from as int, to as int),
{
    let mut i = from;
    while i < to
        invariant
            from <= i <= to,
            to <= v@.len(),
            out@ == old(out)@ + v@.subrange(from as int, i as int),
        decreases to - i,
    {
        out.push(v[i]);
        proof {
            assert(out@ =~= old(out)@ + v@.subrange(from as int, i + 1));
        }
        i = i + 1;
    }
}

/// The text with every line trimmed and blank lines dropped, joined by
/// newlines.
pub fn keep_non_blank_lines(text: &str) -> (r: String)
    ensures
        r@ == join_lines(non_blank_trimmed(lines(text@))),
{
    let v = chars_of(text);
    let ranges = split_lines(&v);
    let ghost ls = lines(v@);
    let mut out: Vec<char> = Vec::new();
    let mut emitted = false;
    let mut k: usize = 0;
    while k < ranges.len()
        invariant
            ranges@.len() == ls.len(),
            ls == lines(v@),
            k <= ranges@.len(),
            forall|j: int|
                #![trigger ranges@[j]]
                0 <= j < ranges@.len() ==> ranges@[j].0 <= ranges@[j].1 && ranges@[j].1 <= v@.len()
                    && v@.subrange(ranges@[j].0 as int, ranges@[j].1 as int) == ls[j],
            out@ == join_lines(non_blank_trimmed(ls.take(k as int))),
            emitted == (non_blank_trimmed(ls.take(k as int)).len() > 0),
        decreases ranges@.len() - k,
    {
        let (a, b) = ranges[k];
        let t = trimmed_range(&v, a, b);
        proof {
            assert(ls.take(k + 1).drop_last() =~= ls.take(k as int));
            assert(ls.take(k + 1).last() == ls[k as int]);
        }
        if t.len() > 0 {
            proof {
                lemma_join_push(non_blank_trimmed(ls.take(k as int)), t@);
            }
            if emitted {
                out.push('\n');
            }
            emitted = true;
            push_range(&mut out, &t, 0, t.len());
            proof {
                assert(t@.subrange(0, t@.len() as int) =~= t@);
            }
        }
        k = k + 1;
    }
    proof {
        assert(ls.take(ls.len() as int) =~= ls);
    }
    string_of(out.as_slice())
}

/// The text with trailing white space cut from every line, joined by
/// newlines, then trimmed as a whole.
pub fn join_trimmed_lines(text: &str) -> (r: String)
    ensures
        r@ == trim(join_lines(end_trimmed(lines(text@)))),
{
    let v = chars_of(text);
    let ranges = split_lines(&v);
    let ghost ls = lines(v@);
    let mut out: Vec<char> = Vec::new();
    let mut k: usize = 0;
    while k < ranges.len()
        invariant
            ranges@.len() == ls.len(),
            ls == lines(v@),
            k <= ranges@.len(),
            forall|j: int|
                #![trigger ranges@[j]]
                0 <= j < ranges@.len() ==> ranges@[j].0 <= ranges@[j].1 && ranges@[j].1 <= v@.len()
                    && v@.subrange(ranges@[j].0 as int, ranges@[j].1 as int) == ls[j],
            out@ == join_lines(end_trimmed(ls.take(k as int))),
        decreases ranges@.len() - k,
    {
        let (a, b) = ranges[k];
        let ghost line = v@.subrange(a as int, b as int);
        let mut e = b;
        while e > a && is_whitespace(v[e - 1])
            invariant
                a <= e <= b,
                b <= v@.len(),
                line == v@.subrange(a as int, b as int),
                forall|j: int| e - a <= j < line.len() ==> is_ws(#[trigger] line[j]),
            decreases e - a,
        {
            proof {
                assert(line[e - 1 - a] == v@[e - 1]);
            }
            e = e - 1;
        }
        proof {
            if e > a {
                assert(line[e - 1 - a] == v@[e - 1]);
            }
            lemma_trim_end_at(line, (e - a) as int);
            assert(line.take((e - a) as int) =~= v@.subrange(a as int, e as int));
            assert(ls.take(k + 1).drop_last() =~= ls.take(k as int));
            assert(ls.take(k + 1).last() == ls[k as int]);
            lemma_end_trimmed_len(ls.take(k as int));
            lemma_join_push(end_trimmed(ls.take(k as int)), trim_end(line));
        }
        if k > 0 {
            out.push('\n');
        }
        push_range(&mut out, &v, a, e);
        k = k + 1;
    }
    proof {
        assert(ls.take(ls.len() as int) =~= ls);
        assert(out@.subrange(0, out@.len() as int) =~= out@);
    }
    let t = trimmed_range(&out, 0, out.len());
    string_of(t.as_slice())
}

/// `l` without its leading `#` characters.
pub open spec fn hashes_dropped(l: Seq<char>) -> Seq<char>
    decreases l.len(),
{
    if l.len() > 0 && l[0] == '#' {
        hashes_dropped(l.skip(1))
    } else {
        l
    }
}

/// `l` without any `*` or `_`.
pub open spec fn without_emphasis(l: Seq<char>) -> Seq<char>
    decreases l.len(),
{
    if l.len() == 0 {
        Seq::empty()
    } else {
        let rest = without_emphasis(l.drop_last());
        if l.last() == '*' || l.last() == '_' {
            rest
        } else {
            rest.push(l.last())
        }
    }
}

/// What follows the first `". "` in `l`, if there is one.
pub open spec fn after_dot_space(l: Seq<char>) -> Option<Seq<char>>
    decreases l.len(),
{
    if l.len() < 2 {
        None
    } else if l[0] == '.' && l[1] == ' ' {
        Some(l.skip(2))
    } else {
        after_dot_space(l.skip(1))
    }
}

pub open spec fn is_digit(c: char) -> bool {
    '0' <= c && c <= '9'
}

/// `w` without a leading list bullet (`- ` or `* `) or list number (a
/// digit, then anything up to the first `". "`).
pub open spec fn list_mark_dropped(w: Seq<char>) -> Seq<char> {
    if w.len() >= 2 && (w[0] == '-' || w[0] == '*') && w[1] == ' ' {
        w.skip(2)
    } else if w.len() > 0 && is_digit(w[0]) {
        match after_dot_space(w) {
            Some(t) => t,
            None => w,
        }
    } else {
        w
    }
}

/// One Markdown line as plain text: image lines are dropped; heading marks,
/// emphasis marks, a list bullet and a list number are removed; a line left
/// empty is dropped.
pub open spec fn md_line(raw: Seq<char>) -> Option<Seq<char>> {
    let l = trim(raw);
    if l.len() >= 2 && l[0] == '!' && l[1] == '[' {
        None
    } else {
        let rest = list_mark_dropped(without_emphasis(trim(hashes_dropped(l))));
        if rest.len() > 0 {
            Some(rest)
        } else {
            None
        }
    }
}

/// The plain text of Markdown lines: each kept line followed by a newline.
pub open spec fn markdown_text(ls: Seq<Seq<char>>) -> Seq<char>
    decreases ls.len(),
{
    if ls.len() == 0 {
        Seq::empty()
    } else {
        markdown_text(ls.drop_last()) + match md_line(ls.last()) {
            Some(t) => t + seq!['\n'],
            None => Seq::empty(),
        }
    }
}

proof fn lemma_hashes_at(s: Seq<char>, k: int)
    requires
        0 <= k <= s.len(),
        forall|j: int| 0 <= j < k ==> #[trigger] s[j] == '#',
        k == s.len() || s[k] != '#',
    ensures
        hashes_dropped(s) == s.skip(k),
    decreases k,
{
    if k == 0 {
        assert(s.skip(0) =~= s);
    } else {
        let t = s.skip(1);
        assert forall|j: int| 0 <= j < k - 1 implies #[trigger] t[j] == '#' by {
            assert(t[j] == s[j + 1]);
        }
        if k < s.len() {
            assert(t[k - 1] == s[k]);
        }
        lemma_hashes_at(t, k - 1);
        assert(t.skip(k - 1) =~= s.skip(k));
    }
}

fn drop_emphasis(u: &Vec<char>) -> (w: Vec<char>)
    ensures
        w@ == without_emphasis(u@),
{
    let mut w: Vec<char> = Vec::new();
    let mut i: usize = 0;
    while i < u.len()
        invariant
            i <= u@.len(),
            w@ == without_emphasis(u@.take(i as int)),
        decreases u@.len() - i,
    {
        proof {
            assert(u@.take(i + 1).drop_last() =~= u@.take(i as int));
            assert(u@.take(i + 1).last() == u@[i as int]);
        }
        let c = u[i];
        if c != '*' && c != '_' {
            w.push(c);
        }
        i = i + 1;
    }
    proof {
        assert(u@.take(u@.len() as int) =~= u@);
    }
    w
}

/// Where the text of `w` starts once a list mark is dropped.
fn list_mark_end(w: &Vec<char>) -> (r: usize)
    ensures
        r <= w@.len(),
        w@.skip(r as int) == list_mark_dropped(w@),
{
    let m = w.len();
    let mut from_at: usize = 0;
    if m >= 2 && (w[0] == '-' || w[0] == '*') && w[1] == ' ' {
        from_at = 2;
    } else if m > 0 && '0' <= w[0] && w[0] <= '9' {
        let mut k: usize = 0;
        let mut found = false;
        proof {
            assert(w@.skip(0) =~= w@);
        }
        while k < m - 1 && !found
            invariant
                m == w@.len(),
                m > 0,
                k <= m,
                !found ==> after_dot_space(w@) == after_dot_space(w@.skip(k as int)),
                found ==> k + 2 <= m && after_dot_space(w@) == Some(w@.skip(k + 2)),
            decreases m - k + if found {
                0int
            } else {
                1int
            },
        {
            if w[k] == '.' && w[k + 1] == ' ' {
                proof {
                    let s = w@.skip(k as int);
                    assert(s[0] == w@[k as int] && s[1] == w@[k + 1]);
                    assert(s.skip(2) =~= w@.skip(k + 2));
                }
                found = true;
            } else {
                proof {
                    let s = w@.skip(k as int);
                    assert(s[0] == w@[k as int] && s[1] == w@[k + 1]);
                    assert(s.skip(1) =~= w@.skip(k + 1));
                }
                k = k + 1;
            }
        }
        if found {
            from_at = k + 2;
        } else {
            proof {
                assert(w@.skip(k as int).len() < 2);
            }
        }
    }
    proof {
        assert(w@.skip(0) =~= w@);
    }
    from_at
}

/// The plain text of the line `v[from..to]`, if it keeps any.
fn markdown_line(v: &Vec<char>, from: usize, to: usize) -> (r: Option<Vec<char>>)
    requires
        from <= to <= v@.len(),
    ensures
        match r {
            Some(x) => md_line(v@.subrange(from as int, to as int)) == Some(x@),
            None => md_line(v@.subrange(from as int, to as int)) is None,
        },
{
    let t = trimmed_range(v, from, to);
    if t.len() >= 2 && t[0] == '!' && t[1] == '[' {
        return None;
    }
    let n = t.len();
    let mut h: usize = 0;
    while h < n && t[h] == '#'
        invariant
            h <= n,
            n == t@.len(),
            forall|j: int| 0 <= j < h ==> #[trigger] t@[j] == '#',
        decreases n - h,
    {
        h = h + 1;
    }
    proof {
        lemma_hashes_at(t@, h as int);
        assert(t@.skip(h as int) =~= t@.subrange(h as int, n as int));
    }
    let u = trimmed_range(&t, h, n);
    let w = drop_emphasis(&u);
    let from_at = list_mark_end(&w);
    let m = w.len();
    if from_at < m {
        let mut rest: Vec<char> = Vec::new();
        push_range(&mut rest, &w, from_at, m);
        proof {
            assert(rest@ =~= w@.skip(from_at as int));
        }
        Some(rest)
    } else {
        proof {
            assert(w@.skip(from_at as int).len() == 0);
        }
        None
    }
}

/// Markdown reduced to plain text, line by line (see `md_line`).
pub fn strip_markdown(md: &str) -> (r: String)
    ensures
        r@ == markdown_text(lines(md@)),
{
    let v = chars_of(md);
    let ranges = split_lines(&v);
    let ghost ls = lines(v@);
    let mut out: Vec<char> = Vec::new();
    let mut k: usize = 0;
    while k < ranges.len()
        invariant
            ranges@.len() == ls.len(),
            ls == lines(v@),
            k <= ranges@.len(),
            forall|j: int|
                #![trigger ranges@[j]]
                0 <= j < ranges@.len() ==> ranges@[j].0 <= ranges@[j].1 && ranges@[j].1 <= v@.len()
                    && v@.subrange(ranges@[j].0 as int, ranges@[j].1 as int) == ls[j],
            out@ == markdown_text(ls.take(k as int)),
        decreases ranges@.len() - k,
    {
        let (a, b) = ranges[k];
        proof {
            assert(ls.take(k + 1).drop_last() =~= ls.take(k as int));
            assert(ls.take(k + 1).last() == ls[k as int]);
        }
        match markdown_line(&v, a, b) {
            Some(x) => {
                push_range(&mut out, &x, 0, x.len());
                out.push('\n');
                proof {
                    assert(x@.subrange(0, x@.len() as int) =~= x@);
                    assert(out@ =~= markdown_text(ls.take(k as int)) + (x@ + seq!['\n']));
                }
            },
            None => {
                proof {
                    assert(out@ =~= markdown_text(ls.take(k as int)) + Seq::<char>::empty());
                }
            },
        }
        k = k + 1;
    }
    proof {
        assert(ls.take(ls.len() as int) =~= ls);
    }
    string_of(out.as_slice())
}

} // verus!
