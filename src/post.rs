use vstd::prelude::*;

use crate::text::{lines_of, split_lines, views};

verus! {

/// Whether `c` is one of the ASCII digits `0` to `9`.
pub open spec fn is_digit(c: char) -> bool {
    '0' <= c && c <= '9'
}

/// The value of the digit `c`.
pub open spec fn digit(c: char) -> int {
    c as int - '0' as int
}

/// The extension that every post file carries.
pub open spec fn post_ext() -> Seq<char> {
    seq!['.', 'g', 'm', 'i']
}

/// `s` has the shape `YYYY-MM-DD`: four digits, a dash, two digits, a dash,
/// two digits. The values of month and day are not checked.
pub open spec fn is_date_stem(s: Seq<char>) -> bool {
    &&& s.len() == 10
    &&& s[4] == '-'
    &&& s[7] == '-'
    &&& forall|k: int| 0 <= k < 10 && k != 4 && k != 7 ==> is_digit(#[trigger] s[k])
}

/// `s` names a post: a date stem followed by the post extension.
pub open spec fn is_post_name(s: Seq<char>) -> bool {
    s.len() == 14 && is_date_stem(s.subrange(0, 10)) && s.subrange(10, 14) == post_ext()
}

/// The name of a post without its extension.
pub open spec fn stem_of(name: Seq<char>) -> Seq<char> {
    name.subrange(0, name.len() - 4)
}

/// The eight digits of a post's date read as one decimal number, so that
/// later dates have larger keys.
pub open spec fn date_key(s: Seq<char>) -> int {
    digit(s[0]) * 10000000 + digit(s[1]) * 1000000 + digit(s[2]) * 100000 + digit(s[3]) * 10000
        + digit(s[5]) * 1000 + digit(s[6]) * 100 + digit(s[8]) * 10 + digit(s[9])
}

/// `i` is the latest post among `names`: a post name whose key no other post
/// name exceeds, and which no earlier post name equals.
pub open spec fn is_latest(names: Seq<Seq<char>>, i: int) -> bool {
    &&& 0 <= i < names.len()
    &&& is_post_name(names[i])
    &&& forall|j: int|
        0 <= j < names.len() && is_post_name(#[trigger] names[j]) ==> date_key(names[j])
            <= date_key(names[i])
    &&& forall|j: int|
        0 <= j < i && is_post_name(#[trigger] names[j]) ==> date_key(names[j]) < date_key(
            names[i],
        )
}

/// The title of a post: its first line with the `# ` prefix taken off; none
/// where the post is empty or its first line lacks the prefix.
pub open spec fn title_of(contents: Seq<char>) -> Option<Seq<char>> {
    let ls = lines_of(contents);
    if ls.len() > 0 && ls[0].len() >= 2 && ls[0][0] == '#' && ls[0][1] == ' ' {
        Some(ls[0].subrange(2, ls[0].len() as int))
    } else {
        None
    }
}

/// The archive's line for a post: `=> <name> <stem> (<title>)`.
pub open spec fn archive_entry_of(name: Seq<char>, title: Seq<char>) -> Seq<char> {
    seq!['=', '>', ' '] + name + seq![' '] + stem_of(name) + seq![' ', '('] + title + seq![')']
}

/// The homepage's line for a post: `=> /<year>/<name> <stem> (<title>)`.
pub open spec fn home_entry_of(year: Seq<char>, name: Seq<char>, title: Seq<char>) -> Seq<char> {
    seq!['=', '>', ' ', '/'] + year + seq!['/'] + name + seq![' '] + stem_of(name) + seq![' ', '(']
        + title + seq![')']
}

fn digit_value(c: char) -> (r: u32)
    requires
        is_digit(c),
    ensures
        r == digit(c),
        r < 10,
{
    (c as u32) - ('0' as u32)
}

/// The date key of `name` where it names a post, and none otherwise.
pub fn post_key(name: &str) -> (r: Option<u32>)
    ensures
        r is Some <==> is_post_name(name@),
        r matches Some(k) ==> k == date_key(name@),
{
    let n = name.unicode_len();
    if n != 14 {
        return None;
    }
    let mut k: usize = 0;
    while k < 10
        invariant
            n == name@.len() == 14,
            k <= 10,
            forall|l: int| 0 <= l < k && l != 4 && l != 7 ==> is_digit(#[trigger] name@[l]),
            k > 4 ==> name@[4] == '-',
            k > 7 ==> name@[7] == '-',
        decreases 10 - k,
    {
        let c = name.get_char(k);
        if k == 4 || k == 7 {
            if c != '-' {
                assert(!is_date_stem(name@.subrange(0, 10)));
                return None;
            }
        } else if !('0' <= c && c <= '9') {
            assert(name@.subrange(0, 10)[k as int] == c);
            return None;
        }
        k = k + 1;
    }
    assert(is_date_stem(name@.subrange(0, 10)));
    if name.get_char(10) != '.' || name.get_char(11) != 'g' || name.get_char(12) != 'm'
        || name.get_char(13) != 'i' {
        assert(name@.subrange(10, 14) != post_ext()) by {
            let e = name@.subrange(10, 14);
            assert(e[0] == name@[10] && e[1] == name@[11] && e[2] == name@[12] && e[3] == name@[13]);
        }
        return None;
    }
    assert(name@.subrange(10, 14) =~= post_ext());
    let key = digit_value(name.get_char(0)) * 10000000 + digit_value(name.get_char(1)) * 1000000
        + digit_value(name.get_char(2)) * 100000 + digit_value(name.get_char(3)) * 10000
        + digit_value(name.get_char(5)) * 1000 + digit_value(name.get_char(6)) * 100
        + digit_value(name.get_char(8)) * 10 + digit_value(name.get_char(9));
    Some(key)
}

/// The index of the latest post among `names`, or none where no name is a
/// post's.
pub fn find_latest(names: &Vec<String>) -> (r: Option<usize>)
    ensures
        r is None <==> forall|j: int| 0 <= j < names@.len() ==> !is_post_name(#[trigger] names@[j]@),
        r matches Some(i) ==> is_latest(views(names@), i as int),
{
    let mut best: Option<usize> = None;
    let mut best_key: u32 = 0;
    let mut j: usize = 0;
    while j < names.len()
        invariant
            j <= names@.len(),
            best is None <==> forall|l: int| 0 <= l < j ==> !is_post_name(#[trigger] names@[l]@),
            best matches Some(i) ==> {
                &&& i < j
                &&& is_post_name(names@[i as int]@)
                &&& best_key == date_key(names@[i as int]@)
                &&& forall|l: int|
                    0 <= l < j && is_post_name(#[trigger] names@[l]@) ==> date_key(names@[l]@)
                        <= best_key
                &&& forall|l: int|
                    0 <= l < i && is_post_name(#[trigger] names@[l]@) ==> date_key(names@[l]@)
                        < best_key
            },
        decreases names@.len() - j,
    {
        match post_key(names[j].as_str()) {
            Some(k) => {
                if best.is_none() || best_key < k {
                    best = Some(j);
                    best_key = k;
                }
            },
            None => {},
        }
        j = j + 1;
    }
    proof {
        let vs = views(names@);
        assert forall|l: int| 0 <= l < vs.len() implies vs[l] == names@[l]@ by {}
    }
    best
}

/// The title of a post from its contents.
pub fn post_title(contents: &str) -> (r: Option<String>)
    ensures
        r matches Some(t) ==> title_of(contents@) == Some(t@),
        r is None ==> title_of(contents@) is None,
{
    let ls = split_lines(contents);
    if ls.len() == 0 {
        return None;
    }
    assert(views(ls@)[0] == ls@[0]@);
    let first = ls[0].as_str();
    let n = first.unicode_len();
    if n >= 2 && first.get_char(0) == '#' && first.get_char(1) == ' ' {
        Some(String::from_str(first.substring_char(2, n)))
    } else {
        None
    }
}

/// Appends `s` to `out`.
fn push_text(out: &mut String, s: &str)
    ensures
        final(out)@ == old(out)@ + s@,
{
    out.append(s);
}

/// The post's line in its year's archive.
pub fn archive_entry(name: &str, title: &str) -> (r: String)
    requires
        is_post_name(name@),
    ensures
        r@ == archive_entry_of(name@, title@),
{
    let stem = name.substring_char(0, 10);
    let mut r = String::from_str("=> ");
    push_text(&mut r, name);
    push_text(&mut r, " ");
    push_text(&mut r, stem);
    push_text(&mut r, " (");
    push_text(&mut r, title);
    push_text(&mut r, ")");
    proof {
        reveal_strlit("=> ");
        reveal_strlit(" ");
        reveal_strlit(" (");
        reveal_strlit(")");
        assert(r@ =~= archive_entry_of(name@, title@));
    }
    r
}

/// The post's line on the homepage, which links into its year's directory.
pub fn home_entry(year: &str, name: &str, title: &str) -> (r: String)
    requires
        is_post_name(name@),
    ensures
        r@ == home_entry_of(year@, name@, title@),
{
    let stem = name.substring_char(0, 10);
    let mut r = String::from_str("=> /");
    push_text(&mut r, year);
    push_text(&mut r, "/");
    push_text(&mut r, name);
    push_text(&mut r, " ");
    push_text(&mut r, stem);
    push_text(&mut r, " (");
    push_text(&mut r, title);
    push_text(&mut r, ")");
    proof {
        reveal_strlit("=> /");
        reveal_strlit("/");
        reveal_strlit(" ");
        reveal_strlit(" (");
        reveal_strlit(")");
        assert(r@ =~= home_entry_of(year@, name@, title@));
    }
    r
}

} // verus!
