use vstd::prelude::*;

use crate::text::views;

verus! {

/// Which way a sync copies.
#[derive(Clone, Copy, Debug, PartialEq, Eq, Structural)]
pub enum Direction {
    /// From the local tree to the server.
    Up,
    /// From the server to the local tree.
    Down,
}

/// What a sync does at the destination.
#[derive(Clone, Copy, Debug, PartialEq, Eq, Structural)]
pub enum Policy {
    /// Copy only files that are newer at the source.
    Update,
    /// Copy every file, whatever its age at the destination.
    Overwrite,
    /// Copy newer files and delete those that the source lacks.
    Delete,
}

/// What the command line asks for.
#[derive(Clone, Copy, Debug, PartialEq, Eq, Structural)]
pub enum Command {
    Help,
    Settings,
    Write,
    Publish,
    Sync(Direction, Policy),
}

/// The direction that a word names.
pub open spec fn direction_of(w: Seq<char>) -> Option<Direction> {
    if w == "up"@ {
        Some(Direction::Up)
    } else if w == "down"@ {
        Some(Direction::Down)
    } else {
        None
    }
}

/// The policy that a flag names.
pub open spec fn flag_policy(w: Seq<char>) -> Option<Policy> {
    if w == "--overwrite"@ {
        Some(Policy::Overwrite)
    } else if w == "--delete"@ {
        Some(Policy::Delete)
    } else {
        None
    }
}

/// The command that `args` (the program's name first) ask for. Anything not
/// understood asks for help.
pub open spec fn command_of(args: Seq<Seq<char>>) -> Command {
    if args.len() == 2 {
        if args[1] == "write"@ {
            Command::Write
        } else if args[1] == "settings"@ {
            Command::Settings
        } else if args[1] == "publish"@ {
            Command::Publish
        } else if args[1] == "sync"@ {
            Command::Sync(Direction::Up, Policy::Update)
        } else {
            Command::Help
        }
    } else if (args.len() == 3 || args.len() == 4) && args[1] == "sync"@ {
        match direction_of(args[2]) {
            None => Command::Help,
            Some(d) => if args.len() == 3 {
                Command::Sync(d, Policy::Update)
            } else {
                match flag_policy(args[3]) {
                    None => Command::Help,
                    Some(p) => Command::Sync(d, p),
                }
            },
        }
    } else {
        Command::Help
    }
}

/// The arguments of the mirroring tool for a sync between the local and
/// remote roots.
pub open spec fn sync_args_of(d: Direction, p: Policy, local: Seq<char>, remote: Seq<char>) -> Seq<
    Seq<char>,
> {
    let (src, dst) = match d {
        Direction::Up => (local, remote),
        Direction::Down => (remote, local),
    };
    match p {
        Policy::Update => seq!["-rtOq"@, "--update"@, src, dst],
        Policy::Overwrite => seq!["-rtO"@, "--quiet"@, src, dst],
        Policy::Delete => seq!["-rtOq"@, "--delete"@, src, dst],
    }
}

/// `s` with all trailing `/` taken off.
pub open spec fn trim_end_slashes(s: Seq<char>) -> Seq<char>
    decreases s.len(),
{
    if s.len() > 0 && s.last() == '/' {
        trim_end_slashes(s.drop_last())
    } else {
        s
    }
}

/// A directory path ending in exactly one `/`.
pub open spec fn dir_path(s: Seq<char>) -> Seq<char> {
    trim_end_slashes(s).push('/')
}

/// What the server said when asked whether a post exists.
#[derive(Clone, Copy, Debug, PartialEq, Eq, Structural)]
pub enum RemoteAnswer {
    Exists,
    Missing,
    Unexpected,
}

/// Whether `c` has the Unicode `White_Space` property.
pub open spec fn is_space(c: char) -> bool {
    ('\u{9}' <= c && c <= '\u{d}') || c == ' ' || c == '\u{85}' || c == '\u{a0}'
        || c == '\u{1680}' || ('\u{2000}' <= c && c <= '\u{200a}') || c == '\u{2028}'
        || c == '\u{2029}' || c == '\u{202f}' || c == '\u{205f}' || c == '\u{3000}'
}

/// `s` without white space at its end.
pub open spec fn trim_end_space(s: Seq<char>) -> Seq<char>
    decreases s.len(),
{
    if s.len() > 0 && is_space(s.last()) {
        trim_end_space(s.drop_last())
    } else {
        s
    }
}

/// `s` without white space at its start.
pub open spec fn trim_start_space(s: Seq<char>) -> Seq<char>
    decreases s.len(),
{
    if s.len() > 0 && is_space(s[0]) {
        trim_start_space(s.drop_first())
    } else {
        s
    }
}

/// The answer that the output `out` of the remote test gives.
pub open spec fn answer_of(out: Seq<char>) -> RemoteAnswer {
    let t = trim_start_space(trim_end_space(out));
    if t == "true"@ {
        RemoteAnswer::Exists
    } else if t == "false"@ {
        RemoteAnswer::Missing
    } else {
        RemoteAnswer::Unexpected
    }
}

/// The path of a day's post under a root: `<root><year>/<date>.gmi`.
pub open spec fn post_path_of(root: Seq<char>, year: Seq<char>, date: Seq<char>) -> Seq<char> {
    root + year + "/"@ + date + ".gmi"@
}

/// The shell test run on the server: it prints `true` where the file exists
/// and `false` where it does not.
pub open spec fn exists_test_of(path: Seq<char>) -> Seq<char> {
    "[[ -f "@ + path + " ]] && echo 'true' || echo 'false';"@
}

/// `s` is `host`, a colon, then `path`, then nothing or a colon and more;
/// neither part holds a colon.
pub open spec fn splits_remote(s: Seq<char>, host: Seq<char>, path: Seq<char>) -> bool {
    &&& !host.contains(':')
    &&& !path.contains(':')
    &&& s.len() > host.len() + path.len()
    &&& s.subrange(0, host.len() as int) == host
    &&& s[host.len() as int] == ':'
    &&& s.subrange(host.len() + 1int, host.len() + 1int + path.len()) == path
    &&& (s.len() == host.len() + 1 + path.len() || s[host.len() + 1int + path.len()] == ':')
}

fn same_text(s: &String, w: &str) -> (r: bool)
    ensures
        r == (s@ == w@),
{
    let t = String::from_str(w);
    *s == t
}

fn direction_word(w: &String) -> (r: Option<Direction>)
    ensures
        r == direction_of(w@),
{
    if same_text(w, "up") {
        Some(Direction::Up)
    } else if same_text(w, "down") {
        Some(Direction::Down)
    } else {
        None
    }
}

fn policy_flag(w: &String) -> (r: Option<Policy>)
    ensures
        r == flag_policy(w@),
{
    if same_text(w, "--overwrite") {
        Some(Policy::Overwrite)
    } else if same_text(w, "--delete") {
        Some(Policy::Delete)
    } else {
        None
    }
}

/// The command that the program's arguments ask for; the first argument is
/// the program's name.
pub fn parse_command(args: &Vec<String>) -> (r: Command)
    ensures
        r == command_of(views(args@)),
{
    proof {
        let vs = views(args@);
        assert forall|k: int| 0 <= k < args@.len() implies vs[k] == args@[k]@ by {}
    }
    let n = args.len();
    if n == 2 {
        if same_text(&args[1], "write") {
            Command::Write
        } else if same_text(&args[1], "settings") {
            Command::Settings
        } else if same_text(&args[1], "publish") {
            Command::Publish
        } else if same_text(&args[1], "sync") {
            Command::Sync(Direction::Up, Policy::Update)
        } else {
            Command::Help
        }
    } else if (n == 3 || n == 4) && same_text(&args[1], "sync") {
        match direction_word(&args[2]) {
            None => Command::Help,
            Some(d) => {
                if n == 3 {
                    Command::Sync(d, Policy::Update)
                } else {
                    match policy_flag(&args[3]) {
                        None => Command::Help,
                        Some(p) => Command::Sync(d, p),
                    }
                }
            },
        }
    } else {
        Command::Help
    }
}

/// The arguments of the mirroring tool for a sync in direction `d` with
/// policy `p` between the two roots.
pub fn sync_args(d: Direction, p: Policy, local: &str, remote: &str) -> (r: Vec<String>)
    ensures
        views(r@) == sync_args_of(d, p, local@, remote@),
{
    let (src, dst) = match d {
        Direction::Up => (local, remote),
        Direction::Down => (remote, local),
    };
    let (flags, mode) = match p {
        Policy::Update => ("-rtOq", "--update"),
        Policy::Overwrite => ("-rtO", "--quiet"),
        Policy::Delete => ("-rtOq", "--delete"),
    };
    let mut r: Vec<String> = Vec::new();
    r.push(String::from_str(flags));
    r.push(String::from_str(mode));
    r.push(String::from_str(src));
    r.push(String::from_str(dst));
    assert(views(r@) =~= sync_args_of(d, p, local@, remote@));
    r
}

/// `path` as a directory: its trailing `/` taken off, then one put back.
pub fn normalize_dir(path: &str) -> (r: String)
    ensures
        r@ == dir_path(path@),
{
    let mut n = path.unicode_len();
    assert(path@.subrange(0, n as int) =~= path@);
    while n > 0 && path.get_char(n - 1) == '/'
        invariant
            n <= path@.len(),
            trim_end_slashes(path@.subrange(0, n as int)) == trim_end_slashes(path@),
        decreases n,
    {
        proof {
            assert(path@.subrange(0, n as int).drop_last() =~= path@.subrange(0, n - 1));
        }
        n = n - 1;
    }
    let mut r = String::from_str(path.substring_char(0, n));
    r.append("/");
    proof {
        reveal_strlit("/");
        assert(trim_end_slashes(path@.subrange(0, n as int)) == path@.subrange(0, n as int));
        assert(r@ =~= dir_path(path@));
    }
    r
}

fn is_space_char(c: char) -> (r: bool)
    ensures
        r == is_space(c),
{
    ('\u{9}' <= c && c <= '\u{d}') || c == ' ' || c == '\u{85}' || c == '\u{a0}'
        || c == '\u{1680}' || ('\u{2000}' <= c && c <= '\u{200a}') || c == '\u{2028}'
        || c == '\u{2029}' || c == '\u{202f}' || c == '\u{205f}' || c == '\u{3000}'
}

/// What the output of the remote test says: that the post exists, that it
/// does not, or neither.
pub fn remote_answer(out: &str) -> (r: RemoteAnswer)
    ensures
        r == answer_of(out@),
{
    let mut hi = out.unicode_len();
    assert(out@.subrange(0, hi as int) =~= out@);
    while hi > 0 && is_space_char(out.get_char(hi - 1))
        invariant
            hi <= out@.len(),
            trim_end_space(out@.subrange(0, hi as int)) == trim_end_space(out@),
        decreases hi,
    {
        proof {
            assert(out@.subrange(0, hi as int).drop_last() =~= out@.subrange(0, hi - 1));
        }
        hi = hi - 1;
    }
    let ghost e = out@.subrange(0, hi as int);
    assert(trim_end_space(e) == e);
    let mut lo: usize = 0;
    while lo < hi && is_space_char(out.get_char(lo))
        invariant
            lo <= hi <= out@.len(),
            e == out@.subrange(0, hi as int),
            trim_start_space(out@.subrange(lo as int, hi as int)) == trim_start_space(e),
        decreases hi - lo,
    {
        proof {
            assert(out@.subrange(lo as int, hi as int).drop_first() =~= out@.subrange(lo + 1, hi as int));
        }
        lo = lo + 1;
    }
    assert(e.subrange(0, hi as int) =~= e);
    let t = String::from_str(out.substring_char(lo, hi));
    proof {
        assert(trim_start_space(t@) == t@);
    }
    if same_text(&t, "true") {
        RemoteAnswer::Exists
    } else if same_text(&t, "false") {
        RemoteAnswer::Missing
    } else {
        RemoteAnswer::Unexpected
    }
}

/// The path of the post for `date` in `year` under `root`.
pub fn post_path(root: &str, year: &str, date: &str) -> (r: String)
    ensures
        r@ == post_path_of(root@, year@, date@),
{
    let mut r = String::from_str(root);
    r.append(year);
    r.append("/");
    r.append(date);
    r.append(".gmi");
    proof {
        assert(r@ =~= post_path_of(root@, year@, date@));
    }
    r
}

/// The shell test that prints whether the file at `path` exists.
pub fn exists_test(path: &str) -> (r: String)
    ensures
        r@ == exists_test_of(path@),
{
    let mut r = String::from_str("[[ -f ");
    r.append(path);
    r.append(" ]] && echo 'true' || echo 'false';");
    proof {
        assert(r@ =~= exists_test_of(path@));
    }
    r
}

/// The host and the path of a remote root written `host:path`; none where
/// it holds no colon.
pub fn split_remote(remote: &str) -> (r: Option<(String, String)>)
    ensures
        r is None <==> !remote@.contains(':'),
        r matches Some((h, p)) ==> splits_remote(remote@, h@, p@),
{
    let n = remote.unicode_len();
    let mut i: usize = 0;
    while i < n && remote.get_char(i) != ':'
        invariant
            n == remote@.len(),
            i <= n,
            forall|k: int| 0 <= k < i ==> remote@[k] != ':',
        decreases n - i,
    {
        i = i + 1;
    }
    if i == n {
        assert(!remote@.contains(':'));
        return None;
    }
    let mut j: usize = i + 1;
    while j < n && remote.get_char(j) != ':'
        invariant
            n == remote@.len(),
            i < j <= n,
            forall|k: int| i < k < j ==> remote@[k] != ':',
        decreases n - j,
    {
        j = j + 1;
    }
    let host = String::from_str(remote.substring_char(0, i));
    let path = String::from_str(remote.substring_char(i + 1, j));
    proof {
        assert(remote@.contains(':')) by {
            assert(remote@[i as int] == ':');
        }
        assert forall|k: int| 0 <= k < host@.len() implies host@[k] != ':' by {
            assert(host@[k] == remote@[k]);
        }
        assert forall|k: int| 0 <= k < path@.len() implies path@[k] != ':' by {
            assert(path@[k] == remote@[i + 1 + k]);
        }
        assert(path@.len() == j - i - 1);
    }
    Some((host, path))
}

} // verus!
