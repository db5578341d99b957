use vstd::prelude::*;

use crate::post::{archive_entry_of, home_entry_of, is_post_name};
use crate::text::{
    contains, contains_str, join_lines, join_lines_exec, lemma_contains_self,
    lemma_contains_suffix, lemma_contains_trans, lemma_join_append, lemma_join_contains_line,
    lemma_lines_no_newline, lemma_lines_of_piece, lemma_pieces_concat, lemma_pieces_join,
    lemma_pieces_nonempty, lines_of, no_newline, pieces, split_lines, views,
};

verus! {

/// How many entry lines the homepage keeps beneath its heading.
pub const HOME_WINDOW: usize = 5;

/// The view of an optional document.
pub open spec fn doc_view(doc: Option<&str>) -> Option<Seq<char>> {
    match doc {
        Some(d) => Some(d@),
        None => None,
    }
}

/// A document that holds only its heading, a blank line and one entry.
pub open spec fn fresh_doc(heading: Seq<char>, entry: Seq<char>) -> Seq<char> {
    heading + seq!['\n', '\n'] + entry
}

/// The heading of a year's archive: `# <year>`.
pub open spec fn archive_heading(year: Seq<char>) -> Seq<char> {
    seq!['#', ' '] + year
}

/// Some line of `ls` equals `h`.
pub open spec fn has_line(ls: Seq<Seq<char>>, h: Seq<char>) -> bool {
    exists|k: int| 0 <= k < ls.len() && ls[k] == h
}

/// The index of the first line of `ls` equal to `h`, or -1 where none is.
pub open spec fn first_index(ls: Seq<Seq<char>>, h: Seq<char>) -> int
    decreases ls.len(),
{
    if ls.len() == 0 {
        -1
    } else if ls[0] == h {
        0
    } else {
        let r = first_index(ls.drop_first(), h);
        if r < 0 {
            -1
        } else {
            r + 1
        }
    }
}

/// The archive after adding `entry`, keyed by `key`: a missing document, or
/// one without a line equal to the heading or without entries, becomes a
/// fresh one; a document that already holds `key` stays as it is; otherwise
/// the entry goes first in the list, under the heading and the blank line.
pub open spec fn archive_upsert(
    doc: Option<Seq<char>>,
    heading: Seq<char>,
    key: Seq<char>,
    entry: Seq<char>,
) -> Seq<char> {
    match doc {
        None => fresh_doc(heading, entry),
        Some(d) => if contains(d, key) {
            d
        } else {
            let ls = lines_of(d);
            if ls.len() > 2 && has_line(ls, heading) {
                join_lines(ls.take(2).push(entry) + ls.skip(2))
            } else {
                fresh_doc(heading, entry)
            }
        },
    }
}

/// The lines of a homepage whose heading stands at line `i`, after adding
/// `entry`: the line under the heading becomes blank, the entry follows it,
/// then the first `HOME_WINDOW - 1` old entry lines; the last line of the
/// window is dropped, and what comes after it is kept.
pub open spec fn home_lines(ls: Seq<Seq<char>>, i: int, entry: Seq<char>) -> Seq<Seq<char>> {
    let n = ls.len() as int;
    let start = if i + 2 < n { i + 2 } else { n };
    let keep = if i + HOME_WINDOW + 1 < n { i + HOME_WINDOW + 1 } else { n };
    let rest = if i + HOME_WINDOW + 2 < n { i + HOME_WINDOW + 2 } else { n };
    ls.take(i + 1) + seq![Seq::empty(), entry] + ls.subrange(start, keep) + ls.skip(rest)
}

/// The homepage after adding `entry`: a missing document, or one without a
/// line equal to the heading, becomes a fresh one; a document with the
/// heading that already holds `entry` stays as it is; otherwise the entry
/// goes to the top of the window under the first heading line.
pub open spec fn homepage_upsert(doc: Option<Seq<char>>, heading: Seq<char>, entry: Seq<char>) -> Seq<
    char,
> {
    match doc {
        None => fresh_doc(heading, entry),
        Some(d) => {
            let ls = lines_of(d);
            let i = first_index(ls, heading);
            if i < 0 {
                fresh_doc(heading, entry)
            } else if contains(d, entry) {
                d
            } else {
                join_lines(home_lines(ls, i, entry))
            }
        },
    }
}

proof fn lemma_first_index(ls: Seq<Seq<char>>, h: Seq<char>, i: int)
    requires
        0 <= i <= ls.len(),
        forall|k: int| 0 <= k < i ==> ls[k] != h,
        i < ls.len() ==> ls[i] == h,
    ensures
        first_index(ls, h) == if i < ls.len() {
            i
        } else {
            -1
        },
    decreases ls.len(),
{
    if ls.len() > 0 && i > 0 {
        assert(ls[0] != h);
        let t = ls.drop_first();
        assert forall|k: int| 0 <= k < i - 1 implies t[k] != h by {
            assert(t[k] == ls[k + 1]);
        }
        lemma_first_index(t, h, i - 1);
    }
}

proof fn lemma_first_index_is_line(ls: Seq<Seq<char>>, h: Seq<char>)
    ensures
        first_index(ls, h) >= 0 ==> first_index(ls, h) < ls.len() && ls[first_index(ls, h)] == h,
        first_index(ls, h) < 0 ==> !has_line(ls, h),
    decreases ls.len(),
{
    if ls.len() > 0 && ls[0] != h {
        let t = ls.drop_first();
        lemma_first_index_is_line(t, h);
        if first_index(t, h) < 0 {
            assert forall|k: int| 0 <= k < ls.len() implies ls[k] != h by {
                if k > 0 {
                    assert(ls[k] == t[k - 1]);
                }
            }
        }
    }
}

/// A fresh document holds its entry.
proof fn lemma_fresh_contains(heading: Seq<char>, entry: Seq<char>)
    ensures
        contains(fresh_doc(heading, entry), entry),
{
    lemma_contains_self(entry);
    lemma_contains_suffix(heading + seq!['\n', '\n'], entry, entry);
}

/// Appends the lines `ls[from..to]` to `out`.
fn push_lines(out: &mut Vec<String>, ls: &Vec<String>, from: usize, to: usize)
    requires
        from <= to <= ls@.len(),
    ensures
        views(final(out)@) == views(old(out)@) + views(ls@).subrange(from as int, to as int),
{
    let mut k: usize = from;
    while k < to
        invariant
            from <= k <= to <= ls@.len(),
            views(out@) == views(old(out)@) + views(ls@).subrange(from as int, k as int),
        decreases to - k,
    {
        let ghost before = views(out@);
        out.push(ls[k].clone());
        proof {
            assert(views(out@) =~= before.push(ls@[k as int]@));
            assert(views(ls@).subrange(from as int, k + 1) =~= views(ls@).subrange(
                from as int,
                k as int,
            ).push(ls@[k as int]@));
        }
        k = k + 1;
    }
}

/// A document holding only `heading`, a blank line and `entry`.
pub fn fresh_document(heading: &str, entry: &str) -> (r: String)
    ensures
        r@ == fresh_doc(heading@, entry@),
{
    let mut r = String::from_str(heading);
    r.append("\n\n");
    r.append(entry);
    proof {
        reveal_strlit("\n\n");
        assert(r@ =~= fresh_doc(heading@, entry@));
    }
    r
}

/// The index of the first line of `ls` equal to `h`, if any.
fn find_line(ls: &Vec<String>, h: &str) -> (r: Option<usize>)
    ensures
        r matches Some(i) ==> first_index(views(ls@), h@) == i,
        r is None ==> first_index(views(ls@), h@) == -1,
{
    let hs = String::from_str(h);
    let mut k: usize = 0;
    while k < ls.len()
        invariant
            k <= ls@.len(),
            hs@ == h@,
            forall|l: int| 0 <= l < k ==> views(ls@)[l] != h@,
        decreases ls@.len() - k,
    {
        if ls[k] == hs {
            proof {
                lemma_first_index(views(ls@), h@, k as int);
            }
            return Some(k);
        }
        k = k + 1;
    }
    proof {
        lemma_first_index(views(ls@), h@, ls@.len() as int);
    }
    None
}

/// The year archive `doc` (none where the file is absent) with `entry`
/// added under `heading`, unless `key` already occurs in it.
pub fn upsert_archive(doc: Option<&str>, heading: &str, key: &str, entry: &str) -> (r: String)
    ensures
        r@ == archive_upsert(doc_view(doc), heading@, key@, entry@),
{
    match doc {
        None => fresh_document(heading, entry),
        Some(d) => {
            if contains_str(d, key) {
                return String::from_str(d);
            }
            let ls = split_lines(d);
            let found = find_line(&ls, heading);
            proof {
                lemma_first_index_is_line(views(ls@), heading@);
                if let Some(i) = found {
                    assert(has_line(views(ls@), heading@));
                }
            }
            if ls.len() > 2 && found.is_some() {
                let mut out: Vec<String> = Vec::new();
                push_lines(&mut out, &ls, 0, 2);
                let ghost mid = views(out@);
                out.push(String::from_str(entry));
                let ghost mid2 = views(out@);
                assert(mid2 =~= mid.push(entry@));
                push_lines(&mut out, &ls, 2, ls.len());
                proof {
                    let vs = views(ls@);
                    assert(vs.subrange(0, 2) =~= vs.take(2));
                    assert(vs.subrange(2, vs.len() as int) =~= vs.skip(2));
                    assert(views(out@) =~= vs.take(2).push(entry@) + vs.skip(2));
                }
                join_lines_exec(&out)
            } else {
                fresh_document(heading, entry)
            }
        },
    }
}

/// The homepage `doc` (none where the file is absent) with `entry` put at
/// the top of the window under `heading`; a homepage without the heading is
/// replaced, and one with the heading that already holds `entry` is kept.
pub fn upsert_homepage(doc: Option<&str>, heading: &str, entry: &str) -> (r: String)
    ensures
        r@ == homepage_upsert(doc_view(doc), heading@, entry@),
{
    match doc {
        None => fresh_document(heading, entry),
        Some(d) => {
            let ls = split_lines(d);
            match find_line(&ls, heading) {
                None => fresh_document(heading, entry),
                Some(i) => {
                    if contains_str(d, entry) {
                        return String::from_str(d);
                    }
                    let n = ls.len();
                    proof {
                        lemma_first_index_is_line(views(ls@), heading@);
                    }
                    let start = if n - i > 2 { i + 2 } else { n };
                    let keep = if n - i > HOME_WINDOW + 1 { i + HOME_WINDOW + 1 } else { n };
                    let rest = if n - i > HOME_WINDOW + 2 { i + HOME_WINDOW + 2 } else { n };
                    let mut out: Vec<String> = Vec::new();
                    push_lines(&mut out, &ls, 0, i + 1);
                    let ghost a = views(out@);
                    out.push(String::new());
                    out.push(String::from_str(entry));
                    let ghost b = views(out@);
                    assert(b =~= a + seq![Seq::<char>::empty(), entry@]);
                    push_lines(&mut out, &ls, start, keep);
                    push_lines(&mut out, &ls, rest, n);
                    proof {
                        let vs = views(ls@);
                        assert(vs.subrange(0, i + 1) =~= vs.take(i + 1));
                        assert(vs.subrange(rest as int, n as int) =~= vs.skip(rest as int));
                        assert(views(out@) =~= home_lines(vs, i as int, entry@));
                    }
                    join_lines_exec(&out)
                },
            }
        },
    }
}

/// After an archive update the archive holds the entry.
proof fn lemma_archive_holds_entry(doc: Option<Seq<char>>, heading: Seq<char>, key: Seq<char>, entry: Seq<char>)
    requires
        contains(entry, key),
    ensures
        contains(archive_upsert(doc, heading, key, entry), key),
{
    let a1 = archive_upsert(doc, heading, key, entry);
    lemma_fresh_contains(heading, entry);
    if let Some(d) = doc {
        if !contains(d, key) {
            let ls = lines_of(d);
            if ls.len() > 2 && has_line(ls, heading) {
                let nl = ls.take(2).push(entry) + ls.skip(2);
                assert(nl[2] == entry);
                lemma_join_contains_line(nl, 2);
            }
            lemma_contains_trans(a1, entry, key);
        }
    } else {
        lemma_contains_trans(a1, entry, key);
    }
}

/// After a homepage update the homepage holds the entry.
proof fn lemma_homepage_holds_entry(doc: Option<Seq<char>>, heading: Seq<char>, entry: Seq<char>)
    ensures
        contains(homepage_upsert(doc, heading, entry), entry),
{
    lemma_fresh_contains(heading, entry);
    if let Some(d) = doc {
        let ls = lines_of(d);
        let i = first_index(ls, heading);
        if i >= 0 && !contains(d, entry) {
            lemma_first_index_is_line(ls, heading);
            let nl = home_lines(ls, i, entry);
            assert(nl[i + 2] == entry);
            lemma_join_contains_line(nl, i + 2);
        }
    }
}

/// After the entry goes in under a heading line, that line is still a line
/// of the new homepage, unless it ends in a carriage return.
proof fn lemma_heading_kept(ls: Seq<Seq<char>>, i: int, entry: Seq<char>)
    requires
        0 <= i < ls.len(),
        forall|k: int| 0 <= k < ls.len() ==> no_newline(#[trigger] ls[k]),
        !(ls[i].len() > 0 && ls[i].last() == '\r'),
    ensures
        has_line(lines_of(join_lines(home_lines(ls, i, entry))), ls[i]),
{
    let nl = home_lines(ls, i, entry);
    let a = ls.take(i + 1);
    let b = nl.skip(i + 1);
    assert(nl =~= a + b);
    lemma_join_append(a, b);
    assert forall|k: int| 0 <= k < a.len() implies no_newline(#[trigger] a[k]) by {
        assert(a[k] == ls[k]);
    }
    lemma_pieces_join(a);
    let h = join_lines(nl);
    lemma_pieces_concat(join_lines(a), join_lines(b));
    lemma_pieces_nonempty(join_lines(b));
    assert(pieces(h)[i] == a[i]);
    lemma_lines_of_piece(h, i);
    assert(lines_of(h)[i] == ls[i]);
}

/// A second homepage update with the same entry changes nothing, unless the
/// heading ends in a carriage return.
proof fn lemma_homepage_idempotent(doc: Option<Seq<char>>, heading: Seq<char>, entry: Seq<char>)
    requires
        !(heading.len() > 0 && heading.last() == '\r'),
    ensures
        homepage_upsert(Some(homepage_upsert(doc, heading, entry)), heading, entry)
            == homepage_upsert(doc, heading, entry),
{
    let h1 = homepage_upsert(doc, heading, entry);
    lemma_homepage_holds_entry(doc, heading, entry);
    lemma_first_index_is_line(lines_of(h1), heading);
    if let Some(d) = doc {
        let ls = lines_of(d);
        let i = first_index(ls, heading);
        if i >= 0 && !contains(d, entry) {
            lemma_first_index_is_line(ls, heading);
            lemma_lines_no_newline(d);
            lemma_heading_kept(ls, i, entry);
        }
    }
}

/// With no archive file yet, the update writes exactly the heading, a blank
/// line and the entry.
pub proof fn lemma_archive_created(heading: Seq<char>, key: Seq<char>, entry: Seq<char>)
    ensures
        archive_upsert(None, heading, key, entry) == heading + seq!['\n', '\n'] + entry,
{
}

/// An archive that already holds the key anywhere in its text is left as it
/// is.
pub proof fn lemma_listed_archive_unchanged(doc: Seq<char>, heading: Seq<char>, key: Seq<char>, entry: Seq<char>)
    requires
        contains(doc, key),
    ensures
        archive_upsert(Some(doc), heading, key, entry) == doc,
{
}

/// A homepage without a line equal to the heading is replaced by the heading,
/// a blank line and the entry.
pub proof fn lemma_homepage_without_heading_replaced(doc: Seq<char>, heading: Seq<char>, entry: Seq<char>)
    requires
        !has_line(lines_of(doc), heading),
    ensures
        homepage_upsert(Some(doc), heading, entry) == heading + seq!['\n', '\n'] + entry,
{
    lemma_first_index_is_line(lines_of(doc), heading);
}

/// Adding a post to both indexes a second time changes neither: after the
/// first update the archive holds the post's name, and the homepage has its
/// heading line and holds the entry, so both updates leave their documents
/// as they are. A heading that ends in a carriage return is left out: the
/// line that matched it loses that character once a newline follows it.
pub proof fn lemma_update_indexes_idempotent(
    archive: Option<Seq<char>>,
    home: Option<Seq<char>>,
    year: Seq<char>,
    heading: Seq<char>,
    name: Seq<char>,
    title: Seq<char>,
)
    requires
        is_post_name(name),
        !(heading.len() > 0 && heading.last() == '\r'),
    ensures
        ({
            let ah = archive_heading(year);
            let ae = archive_entry_of(name, title);
            let he = home_entry_of(year, name, title);
            let a1 = archive_upsert(archive, ah, name, ae);
            let h1 = homepage_upsert(home, heading, he);
            archive_upsert(Some(a1), ah, name, ae) == a1 && homepage_upsert(Some(h1), heading, he)
                == h1
        }),
{
    let ae = archive_entry_of(name, title);
    // the archive entry holds the name just after its `=> ` prefix
    assert(ae.subrange(3int, 3int + name.len()) =~= name);
    lemma_archive_holds_entry(archive, archive_heading(year), name, ae);
    lemma_homepage_idempotent(home, heading, home_entry_of(year, name, title));
}

} // verus!
