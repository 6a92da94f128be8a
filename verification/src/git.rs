//! The decisions behind the git commands that the workspace runs.

use vstd::prelude::*;

use crate::text::{chars_of, join_path, path_join};

verus! {

/// The characters from `i` up to `j` form a line of `s`, as `str::lines`
/// splits it: `i` starts a line, no line feed lies between, and `j` is the
/// line feed that ends it or the end of the text (an empty remainder after
/// the last line feed is no line).
pub open spec fn is_line_at(s: Seq<char>, i: int, j: int) -> bool {
    &&& 0 <= i <= j <= s.len()
    &&& (i == 0 || s[i - 1] == '\n')
    &&& forall|k: int| i <= k < j ==> #[trigger] s[k] != '\n'
    &&& (j == s.len() || s[j] == '\n')
    &&& !(i == j && j == s.len())
}

/// The text of that line: a carriage return before its line feed is dropped.
pub open spec fn line_text(s: Seq<char>, i: int, j: int) -> Seq<char> {
    if j < s.len() && i < j && s[j - 1] == '\r' {
        s.subrange(i, j - 1)
    } else {
        s.subrange(i, j)
    }
}

/// Some line of `s` is `l`.
pub open spec fn has_line(s: Seq<char>, l: Seq<char>) -> bool {
    exists|i: int, j: int| is_line_at(s, i, j) && #[trigger] line_text(s, i, j) == l
}

/// A line of a text holds no line feed and stands in the text between line
/// breaks: at its start or after a line feed, and before its end, a line
/// feed, or a carriage return and line feed.
pub proof fn law_line_stands_in_the_text(s: Seq<char>, l: Seq<char>)
    requires
        has_line(s, l),
    ensures
        forall|k: int| 0 <= k < l.len() ==> #[trigger] l[k] != '\n',
        exists|i: int|
            0 <= i && i + l.len() <= s.len() && #[trigger] s.subrange(i, i + l.len()) == l && (i == 0 || s[i - 1]
                == '\n') && ({
                let e = i + l.len();
                ||| e == s.len()
                ||| s[e] == '\n'
                ||| e + 1 < s.len() && s[e] == '\r' && s[e + 1] == '\n'
            }),
{
    let (i, j) = choose|i: int, j: int| is_line_at(s, i, j) && #[trigger] line_text(s, i, j) == l;
    assert forall|k: int| 0 <= k < l.len() implies #[trigger] l[k] != '\n' by {
        assert(l[k] == s[i + k]);
    }
    assert(s.subrange(i, i + l.len()) =~= l);
}

/// A text without line feed that does not end in a carriage return is a line
/// of any text in which it stands between line breaks: at the start or after
/// a line feed, and followed by a line feed, a carriage return and line feed,
/// or (when not empty) the end of the text.
pub proof fn law_lines_are_found(l: Seq<char>, before: Seq<char>, after: Seq<char>)
    requires
        forall|k: int| 0 <= k < l.len() ==> #[trigger] l[k] != '\n',
        l.len() > 0 ==> l[l.len() - 1] != '\r',
    ensures
        has_line(l + seq!['\n'] + after, l),
        has_line(l + seq!['\r', '\n'] + after, l),
        has_line(before + seq!['\n'] + l + seq!['\n'] + after, l),
        has_line(before + seq!['\n'] + l + seq!['\r', '\n'] + after, l),
        l.len() > 0 ==> has_line(l, l),
        l.len() > 0 ==> has_line(before + seq!['\n'] + l, l),
{
    let n = l.len() as int;
    let s1 = l + seq!['\n'] + after;
    assert(is_line_at(s1, 0, n));
    assert(line_text(s1, 0, n) =~= l);
    let s2 = l + seq!['\r', '\n'] + after;
    assert(is_line_at(s2, 0, n + 1));
    assert(line_text(s2, 0, n + 1) =~= l);
    let b = before.len() as int + 1;
    let s3 = before + seq!['\n'] + l + seq!['\n'] + after;
    assert(s3[b - 1] == '\n');
    assert(is_line_at(s3, b, b + n));
    assert(line_text(s3, b, b + n) =~= l);
    let s4 = before + seq!['\n'] + l + seq!['\r', '\n'] + after;
    assert(s4[b - 1] == '\n');
    assert(is_line_at(s4, b, b + n + 1));
    assert(line_text(s4, b, b + n + 1) =~= l);
    if n > 0 {
        assert(is_line_at(l, 0, n));
        assert(line_text(l, 0, n) =~= l);
        let s5 = before + seq!['\n'] + l;
        assert(s5[b - 1] == '\n');
        assert(is_line_at(s5, b, b + n));
        assert(line_text(s5, b, b + n) =~= l);
    }
}

/// The characters of `v` from `start` up to `end` are those of `w`.
fn same_chars(v: &Vec<char>, start: usize, end: usize, w: &Vec<char>) -> (b: bool)
    requires
        start <= end <= v@.len(),
    ensures
        b == (v@.subrange(start as int, end as int) == w@),
{
    if end - start != w.len() {
        assert(v@.subrange(start as int, end as int).len() != w@.len());
        return false;
    }
    let mut k: usize = 0;
    while k < w.len()
        invariant
            start <= end <= v@.len(),
            end - start == w@.len(),
            k <= w@.len(),
            forall|m: int| 0 <= m < k ==> v@[start + m] == w@[m],
        decreases w@.len() - k,
    {
        if v[start + k] != w[k] {
            assert(v@.subrange(start as int, end as int)[k as int] != w@[k as int]);
            return false;
        }
        k = k + 1;
    }
    assert(v@.subrange(start as int, end as int) =~= w@);
    true
}

/// Whether `name` is a line of `listing` (what `git remote` printed).
pub fn remote_listed(listing: &str, name: &str) -> (b: bool)
    ensures
        b == has_line(listing@, name@),
{
    let v = chars_of(listing);
    let w = chars_of(name);
    let ghost s = listing@;
    let n = v.len();
    let mut start: usize = 0;
    let mut pos: usize = 0;
    while pos < n
        invariant
            v@ == s,
            s == listing@,
            w@ == name@,
            n == s.len(),
            start <= pos <= n,
            start == 0 || s[start - 1] == '\n',
            forall|k: int| start <= k < pos ==> #[trigger] s[k] != '\n',
            forall|i: int, j: int| #![trigger line_text(s, i, j)]
                is_line_at(s, i, j) && j < pos ==> line_text(s, i, j) != name@,
        decreases n - pos,
    {
        if v[pos] == '\n' {
            let end = if start < pos && v[pos - 1] == '\r' {
                pos - 1
            } else {
                pos
            };
            if same_chars(&v, start, end, &w) {
                assert(is_line_at(s, start as int, pos as int));
                assert(line_text(s, start as int, pos as int) == name@);
                assert(has_line(listing@, name@));
                return true;
            }
            proof {
                assert forall|i: int, j: int| #![trigger line_text(s, i, j)]
                    is_line_at(s, i, j) && j < pos + 1 implies line_text(s, i, j) != name@ by {
                    if j == pos {
                        if i < start {
                            assert(s[start - 1] == '\n');
                        } else if i > start {
                            assert(s[i - 1] != '\n');
                        }
                    }
                }
            }
            start = pos + 1;
        } else {
            proof {
                assert forall|i: int, j: int| #![trigger line_text(s, i, j)]
                    is_line_at(s, i, j) && j < pos + 1 implies line_text(s, i, j) != name@ by {
                    if j == pos {
                        assert(s[j] == '\n');
                    }
                }
            }
        }
        pos = pos + 1;
    }
    if start < n && same_chars(&v, start, n, &w) {
        assert(is_line_at(s, start as int, n as int));
        assert(line_text(s, start as int, n as int) == name@);
        assert(has_line(listing@, name@));
        return true;
    }
    proof {
        assert forall|i: int, j: int| is_line_at(s, i, j) implies #[trigger] line_text(s, i, j) != name@ by {
            if j == n {
                if i < start {
                    assert(s[start - 1] == '\n');
                } else if i > start {
                    assert(s[i - 1] != '\n');
                }
            }
        }
    }
    false
}

/// How a named remote is pointed at a URL in a checkout.
#[derive(PartialEq, Eq, Structural, Clone, Copy, Debug)]
pub enum RemoteUpdate {
    /// `git remote set-url`: the remote exists.
    SetUrl,
    /// `git remote add`: it does not.
    Add,
}

/// Chooses how to point the remote `name` at its URL, given what
/// `git remote` printed in the checkout.
pub fn ensure_remote(listing: &str, name: &str) -> (u: RemoteUpdate)
    ensures
        u == (if has_line(listing@, name@) {
            RemoteUpdate::SetUrl
        } else {
            RemoteUpdate::Add
        }),
{
    if remote_listed(listing, name) {
        RemoteUpdate::SetUrl
    } else {
        RemoteUpdate::Add
    }
}

/// The `.git` directory of a checkout, whose presence makes it a git repository.
pub fn git_dir(path: &str) -> (r: String)
    ensures
        r@ == path_join(path@, ".git"@),
{
    join_path(path, ".git")
}

} // verus!
