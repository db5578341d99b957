use vstd::prelude::*;

verus! {

/// `t` occurs in `s` as a contiguous run of characters.
pub open spec fn contains(s: Seq<char>, t: Seq<char>) -> bool {
    exists|i: int| 0 <= i && i + t.len() <= s.len() && #[trigger] s.subrange(i, i + t.len()) == t
}

/// The character views of a sequence of strings.
pub open spec fn views(v: Seq<String>) -> Seq<Seq<char>> {
    v.map_values(|l: String| l@)
}

/// The pieces of `s` between newline characters; there is always at least one.
pub open spec fn pieces(s: Seq<char>) -> Seq<Seq<char>>
    decreases s.len(),
{
    if s.len() == 0 {
        seq![Seq::empty()]
    } else {
        let init = pieces(s.drop_last());
        if s.last() == '\n' {
            init.push(Seq::empty())
        } else {
            init.update(init.len() - 1, init.last().push(s.last()))
        }
    }
}

/// `l` without the carriage return that ends it, if any.
pub open spec fn strip_cr(l: Seq<char>) -> Seq<char> {
    if l.len() > 0 && l.last() == '\r' {
        l.drop_last()
    } else {
        l
    }
}

/// The lines of a text: the pieces between newlines, where a final newline
/// ends the last line rather than starting an empty one, and a line ended by
/// `\r\n` loses its `\r`.
pub open spec fn lines_of(s: Seq<char>) -> Seq<Seq<char>> {
    if s.len() == 0 {
        Seq::empty()
    } else if s.last() == '\n' {
        pieces(s.drop_last()).map_values(|l: Seq<char>| strip_cr(l))
    } else {
        let p = pieces(s);
        p.drop_last().map_values(|l: Seq<char>| strip_cr(l)).push(p.last())
    }
}

/// The lines `ls` written one after another with a newline between each two.
pub open spec fn join_lines(ls: Seq<Seq<char>>) -> Seq<char>
    decreases ls.len(),
{
    if ls.len() == 0 {
        Seq::empty()
    } else if ls.len() == 1 {
        ls[0]
    } else {
        join_lines(ls.drop_last()) + seq!['\n'] + ls.last()
    }
}

/// `l` holds no newline character.
pub open spec fn no_newline(l: Seq<char>) -> bool {
    forall|j: int| 0 <= j < l.len() ==> l[j] != '\n'
}

pub proof fn lemma_pieces_nonempty(s: Seq<char>)
    ensures
        pieces(s).len() >= 1,
    decreases s.len(),
{
    if s.len() > 0 {
        lemma_pieces_nonempty(s.drop_last());
    }
}

/// No piece holds a newline.
pub proof fn lemma_pieces_no_newline(s: Seq<char>)
    ensures
        forall|k: int| 0 <= k < pieces(s).len() ==> no_newline(#[trigger] pieces(s)[k]),
    decreases s.len(),
{
    if s.len() > 0 {
        let t = s.drop_last();
        lemma_pieces_no_newline(t);
        lemma_pieces_nonempty(t);
        let p = pieces(t);
        if s.last() != '\n' {
            let q = p.last().push(s.last());
            assert(no_newline(p[p.len() - 1]));
            assert(no_newline(q));
            assert forall|k: int| 0 <= k < pieces(s).len() implies no_newline(#[trigger] pieces(s)[k]) by {
                if k < p.len() - 1 {
                    assert(pieces(s)[k] == p[k]);
                }
            }
        } else {
            assert forall|k: int| 0 <= k < pieces(s).len() implies no_newline(#[trigger] pieces(s)[k]) by {
                if k < p.len() {
                    assert(pieces(s)[k] == p[k]);
                }
            }
        }
    }
}

/// The lines of a text hold no newline.
pub proof fn lemma_lines_no_newline(s: Seq<char>)
    ensures
        forall|k: int| 0 <= k < lines_of(s).len() ==> no_newline(#[trigger] lines_of(s)[k]),
{
    if s.len() > 0 {
        let t = if s.last() == '\n' { s.drop_last() } else { s };
        lemma_pieces_no_newline(t);
        lemma_pieces_nonempty(t);
        let p = pieces(t);
        assert forall|k: int| 0 <= k < lines_of(s).len() implies no_newline(#[trigger] lines_of(s)[k]) by {
            assert(no_newline(p[k]));
            let l = lines_of(s)[k];
            if s.last() == '\n' || k < p.len() - 1 {
                assert(l == strip_cr(p[k]));
                assert forall|j: int| 0 <= j < l.len() implies l[j] != '\n' by {
                    assert(l[j] == p[k][j]);
                }
            } else {
                assert(l == p[k]);
            }
        }
    }
}

/// Text joined at a newline splits into the pieces of each side.
pub proof fn lemma_pieces_concat(x: Seq<char>, y: Seq<char>)
    ensures
        pieces(x + seq!['\n'] + y) == pieces(x) + pieces(y),
    decreases y.len(),
{
    let s = x + seq!['\n'] + y;
    if y.len() == 0 {
        assert(s.drop_last() =~= x);
        assert(pieces(s) =~= pieces(x) + pieces(y));
    } else {
        let y1 = y.drop_last();
        assert(s.drop_last() =~= x + seq!['\n'] + y1);
        lemma_pieces_concat(x, y1);
        lemma_pieces_nonempty(y1);
        assert(s.last() == y.last());
        assert(pieces(s) =~= pieces(x) + pieces(y));
    }
}

/// A text without newlines is a single piece.
pub proof fn lemma_pieces_single(l: Seq<char>)
    requires
        no_newline(l),
    ensures
        pieces(l) == seq![l],
    decreases l.len(),
{
    if l.len() > 0 {
        let l1 = l.drop_last();
        assert forall|j: int| 0 <= j < l1.len() implies l1[j] != '\n' by {
            assert(l1[j] == l[j]);
        }
        lemma_pieces_single(l1);
        assert(l.last() != '\n');
        assert(l1.push(l.last()) =~= l);
        assert(pieces(l) =~= seq![l]);
    } else {
        assert(l =~= Seq::<char>::empty());
    }
}

/// Joining lines without newlines and splitting again gives the lines back.
pub proof fn lemma_pieces_join(ls: Seq<Seq<char>>)
    requires
        ls.len() >= 1,
        forall|k: int| 0 <= k < ls.len() ==> no_newline(#[trigger] ls[k]),
    ensures
        pieces(join_lines(ls)) == ls,
    decreases ls.len(),
{
    if ls.len() == 1 {
        lemma_pieces_single(ls[0]);
        assert(seq![ls[0]] =~= ls);
    } else {
        let init = ls.drop_last();
        assert forall|k: int| 0 <= k < init.len() implies no_newline(#[trigger] init[k]) by {
            assert(init[k] == ls[k]);
        }
        lemma_pieces_join(init);
        lemma_pieces_concat(join_lines(init), ls.last());
        lemma_pieces_single(ls.last());
        assert(init + seq![ls.last()] =~= ls);
    }
}

/// Joining two non-empty runs of lines puts one newline between them.
pub proof fn lemma_join_append(a: Seq<Seq<char>>, b: Seq<Seq<char>>)
    requires
        a.len() >= 1,
        b.len() >= 1,
    ensures
        join_lines(a + b) == join_lines(a) + seq!['\n'] + join_lines(b),
    decreases b.len(),
{
    if b.len() == 1 {
        assert((a + b).drop_last() =~= a);
    } else {
        let b1 = b.drop_last();
        assert((a + b).drop_last() =~= a + b1);
        lemma_join_append(a, b1);
        assert(join_lines(a + b) =~= join_lines(a) + seq!['\n'] + join_lines(b));
    }
}

/// Every piece but the last is a line, without a carriage return at its end.
pub proof fn lemma_lines_of_piece(s: Seq<char>, k: int)
    requires
        0 <= k < pieces(s).len() - 1,
    ensures
        k < lines_of(s).len(),
        lines_of(s)[k] == strip_cr(pieces(s)[k]),
{
    if s.len() > 0 && s.last() == '\n' {
        assert(pieces(s) == pieces(s.drop_last()).push(Seq::empty()));
        assert(pieces(s)[k] == pieces(s.drop_last())[k]);
    }
}

pub proof fn lemma_contains_self(s: Seq<char>)
    ensures
        contains(s, s),
{
    assert(s.subrange(0int, 0int + s.len()) =~= s);
}

pub proof fn lemma_contains_prefix(a: Seq<char>, b: Seq<char>, t: Seq<char>)
    requires
        contains(a, t),
    ensures
        contains(a + b, t),
{
    let i = choose|i: int| 0 <= i && i + t.len() <= a.len() && #[trigger] a.subrange(i, i + t.len()) == t;
    assert((a + b).subrange(i, i + t.len()) =~= a.subrange(i, i + t.len()));
}

pub proof fn lemma_contains_suffix(a: Seq<char>, b: Seq<char>, t: Seq<char>)
    requires
        contains(b, t),
    ensures
        contains(a + b, t),
{
    let i = choose|i: int| 0 <= i && i + t.len() <= b.len() && #[trigger] b.subrange(i, i + t.len()) == t;
    let j = a.len() + i;
    assert((a + b).subrange(j, j + t.len()) =~= b.subrange(i, i + t.len()));
}

pub proof fn lemma_contains_trans(s: Seq<char>, t: Seq<char>, u: Seq<char>)
    requires
        contains(s, t),
        contains(t, u),
    ensures
        contains(s, u),
{
    let i = choose|i: int| 0 <= i && i + t.len() <= s.len() && #[trigger] s.subrange(i, i + t.len()) == t;
    let j = choose|j: int| 0 <= j && j + u.len() <= t.len() && #[trigger] t.subrange(j, j + u.len()) == u;
    assert(s.subrange(i + j, i + j + u.len()) =~= t.subrange(j, j + u.len()));
}

/// A joined text holds each of its lines.
pub proof fn lemma_join_contains_line(ls: Seq<Seq<char>>, k: int)
    requires
        0 <= k < ls.len(),
    ensures
        contains(join_lines(ls), ls[k]),
    decreases ls.len(),
{
    if ls.len() == 1 {
        lemma_contains_self(ls[0]);
    } else if k == ls.len() - 1 {
        lemma_contains_self(ls[k]);
        lemma_contains_suffix(join_lines(ls.drop_last()) + seq!['\n'], ls[k], ls[k]);
    } else {
        lemma_join_contains_line(ls.drop_last(), k);
        lemma_contains_prefix(join_lines(ls.drop_last()), seq!['\n'], ls[k]);
        lemma_contains_prefix(join_lines(ls.drop_last()) + seq!['\n'], ls.last(), ls[k]);
    }
}

/// The characters of `s`, one by one.
pub fn chars_of(s: &str) -> (r: Vec<char>)
    ensures
        r@ == s@,
{
    let n = s.unicode_len();
    let mut r: Vec<char> = Vec::new();
    let mut i: usize = 0;
    while i < n
        invariant
            n == s@.len(),
            i <= n,
            r@ == s@.subrange(0, i as int),
        decreases n - i,
    {
        r.push(s.get_char(i));
        i = i + 1;
        assert(r@ =~= s@.subrange(0, i as int));
    }
    assert(r@ =~= s@);
    r
}

/// Whether `t` occurs in `s`.
pub fn contains_str(s: &str, t: &str) -> (r: bool)
    ensures
        r == contains(s@, t@),
{
    let sv = chars_of(s);
    let tv = chars_of(t);
    let n = sv.len();
    let m = tv.len();
    if m > n {
        return false;
    }
    let mut i: usize = 0;
    while i <= n - m
        invariant
            sv@ == s@,
            tv@ == t@,
            n == sv@.len(),
            m == tv@.len(),
            m <= n,
            i <= n - m,
            forall|k: int| 0 <= k < i ==> #[trigger] s@.subrange(k, k + m) != t@,
        decreases n - m - i,
    {
        let mut j: usize = 0;
        let mut same = true;
        while j < m
            invariant
                sv@ == s@,
                tv@ == t@,
                n == sv@.len(),
                m == tv@.len(),
                i + m <= n,
                j <= m,
                same ==> forall|l: int| 0 <= l < j ==> sv@[i + l] == tv@[l],
                !same ==> s@.subrange(i as int, i + m) != t@,
            decreases m - j,
        {
            if sv[i + j] != tv[j] {
                same = false;
                assert(s@.subrange(i as int, i + m)[j as int] != t@[j as int]);
            }
            j = j + 1;
        }
        if same {
            assert(s@.subrange(i as int, i + m) =~= t@);
            return true;
        }
        if i == n - m {
            return false;
        }
        i = i + 1;
    }
    false
}

/// The lines of `s`, split at each newline; a final newline adds no empty
/// line, and a `\r` before a newline is dropped.
pub fn split_lines(s: &str) -> (r: Vec<String>)
    ensures
        views(r@) == lines_of(s@),
{
    let n = s.unicode_len();
    let mut out: Vec<String> = Vec::new();
    let mut start: usize = 0;
    let mut i: usize = 0;
    let mut last: char = ' ';
    proof {
        assert(s@.subrange(0, 0) =~= Seq::<char>::empty());
        assert(views(out@) =~= pieces(s@.subrange(0, 0)).drop_last().map_values(
            |l: Seq<char>| strip_cr(l),
        ));
    }
    while i < n
        invariant
            n == s@.len(),
            start <= i <= n,
            pieces(s@.subrange(0, i as int)).len() >= 1,
            views(out@) == pieces(s@.subrange(0, i as int)).drop_last().map_values(
                |l: Seq<char>| strip_cr(l),
            ),
            s@.subrange(start as int, i as int) == pieces(s@.subrange(0, i as int)).last(),
            i > 0 ==> last == s@[i - 1],
        decreases n - i,
    {
        let c = s.get_char(i);
        let ghost before = views(out@);
        let ghost pre = s@.subrange(0, i as int);
        let ghost prefix = s@.subrange(0, i + 1);
        assert(prefix.drop_last() =~= pre);
        assert(prefix.last() == c);
        if c == '\n' {
            let end = if i > start && s.get_char(i - 1) == '\r' {
                i - 1
            } else {
                i
            };
            let piece = String::from_str(s.substring_char(start, end));
            out.push(piece);
            proof {
                let cur = s@.subrange(start as int, i as int);
                assert(s@.subrange(start as int, end as int) =~= strip_cr(cur));
                assert(views(out@) =~= before.push(strip_cr(cur)));
                assert(pieces(prefix) == pieces(pre).push(Seq::empty()));
                assert(pieces(prefix).drop_last() =~= pieces(pre));
                assert(pieces(pre) =~= pieces(pre).drop_last().push(cur));
                assert(views(out@) =~= pieces(prefix).drop_last().map_values(
                    |l: Seq<char>| strip_cr(l),
                ));
            }
            start = i + 1;
            assert(s@.subrange(start as int, i + 1) =~= Seq::<char>::empty());
        } else {
            proof {
                let p = pieces(pre);
                assert(pieces(prefix) == p.update(p.len() - 1, p.last().push(c)));
                assert(pieces(prefix).drop_last() =~= p.drop_last());
                assert(s@.subrange(start as int, i + 1) =~= s@.subrange(start as int, i as int).push(
                    c,
                ));
            }
        }
        last = c;
        i = i + 1;
    }
    assert(s@.subrange(0, n as int) =~= s@);
    if n == 0 {
        assert(views(out@) =~= lines_of(s@));
    } else if last == '\n' {
        proof {
            assert(s@.drop_last() =~= s@.subrange(0, n - 1));
            assert(pieces(s@) == pieces(s@.drop_last()).push(Seq::empty()));
            assert(pieces(s@).drop_last() =~= pieces(s@.drop_last()));
            assert(views(out@) =~= lines_of(s@));
        }
    } else {
        let piece = String::from_str(s.substring_char(start, n));
        let ghost before = views(out@);
        out.push(piece);
        proof {
            assert(views(out@) =~= before.push(s@.subrange(start as int, n as int)));
            assert(s@.last() != '\n');
            assert(views(out@) =~= lines_of(s@));
        }
    }
    out
}

/// The lines of `ls` joined with a newline between each two.
pub fn join_lines_exec(ls: &Vec<String>) -> (r: String)
    ensures
        r@ == join_lines(views(ls@)),
{
    if ls.len() == 0 {
        assert(views(ls@) =~= Seq::<Seq<char>>::empty());
        return String::new();
    }
    let mut r = ls[0].clone();
    let mut i: usize = 1;
    proof {
        assert(views(ls@).take(1) =~= seq![ls@[0]@]);
    }
    while i < ls.len()
        invariant
            1 <= i <= ls@.len(),
            r@ == join_lines(views(ls@).take(i as int)),
        decreases ls@.len() - i,
    {
        let ghost prev = r@;
        r.append("\n");
        r.append(ls[i].as_str());
        proof {
            reveal_strlit("\n");
            let t = views(ls@).take(i + 1);
            assert(t.drop_last() =~= views(ls@).take(i as int));
            assert(r@ =~= prev + seq!['\n'] + ls@[i as int]@);
        }
        i = i + 1;
    }
    assert(views(ls@).take(ls@.len() as int) =~= views(ls@));
    r
}

} // verus!
