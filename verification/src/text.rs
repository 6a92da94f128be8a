//! Verified operations on text: whitespace, trimming, path joining and
//! line matching.

use vstd::prelude::*;

verus! {

/// Whether `c` has the Unicode `White_Space` property: tab, line feed, line
/// tabulation, form feed, carriage return, space, next line, no-break space,
/// ogham space mark, the spaces from en quad to hair space, line separator,
/// paragraph separator, narrow no-break space, medium mathematical space and
/// ideographic space. These are the characters that `char::is_whitespace`
/// accepts and that `str::trim` removes.
pub open spec fn char_is_whitespace(c: char) -> bool {
    let n = c as u32;
    ||| 0x09 <= n <= 0x0D
    ||| n == 0x20
    ||| n == 0x85
    ||| n == 0xA0
    ||| n == 0x1680
    ||| 0x2000 <= n <= 0x200A
    ||| n == 0x2028
    ||| n == 0x2029
    ||| n == 0x202F
    ||| n == 0x205F
    ||| n == 0x3000
}

/// Whether `c` is whitespace in the sense of `char_is_whitespace`.
pub fn is_whitespace(c: char) -> (b: bool)
    ensures
        b == char_is_whitespace(c),
{
    let n = c as u32;
    (0x09 <= n && n <= 0x0D) || n == 0x20 || n == 0x85 || n == 0xA0 || n == 0x1680 || (0x2000 <= n
        && n <= 0x200A) || n == 0x2028 || n == 0x2029 || n == 0x202F || n == 0x205F || n == 0x3000
}

/// The characters of `s`.
pub fn chars_of(s: &str) -> (v: Vec<char>)
    ensures
        v@ == s@,
{
    let mut v: Vec<char> = Vec::new();
    for c in it: s.chars()
        invariant
            it.seq() == s@,
            v@ == s@.take(it.index() as int),
    {
        assert(c == s@[it.index() as int]);
        v.push(c);
        assert(v@ =~= s@.take(it.index() + 1));
    }
    assert(s@.take(s@.len() as int) =~= s@);
    v
}

/// Every character of `s` is whitespace.
pub open spec fn all_whitespace(s: Seq<char>) -> bool {
    forall|i: int| 0 <= i < s.len() ==> #[trigger] char_is_whitespace(s[i])
}

/// Whether `s` holds nothing but whitespace (what `s.trim().is_empty()` tells).
pub fn is_blank(s: &str) -> (b: bool)
    ensures
        b == all_whitespace(s@),
{
    let mut blank = true;
    for c in it: s.chars()
        invariant
            it.index() <= s@.len(),
            it.seq() == s@,
            blank == (forall|i: int| 0 <= i < it.index() ==> #[trigger] char_is_whitespace(s@[i])),
    {
        if !is_whitespace(c) {
            blank = false;
        }
    }
    blank
}

/// `s` without its leading whitespace.
pub open spec fn trim_start(s: Seq<char>) -> Seq<char>
    decreases s.len(),
{
    if s.len() > 0 && char_is_whitespace(s[0]) {
        trim_start(s.drop_first())
    } else {
        s
    }
}

/// `s` without its trailing whitespace.
pub open spec fn trim_end(s: Seq<char>) -> Seq<char>
    decreases s.len(),
{
    if s.len() > 0 && char_is_whitespace(s.last()) {
        trim_end(s.drop_last())
    } else {
        s
    }
}

/// `s` without its leading and trailing whitespace.
pub open spec fn trimmed(s: Seq<char>) -> Seq<char> {
    trim_end(trim_start(s))
}

/// Dropping the whitespace before position `k`, where the first
/// non-whitespace character stands, leaves the rest.
proof fn lemma_trim_start(s: Seq<char>, k: int)
    requires
        0 <= k <= s.len(),
        forall|i: int| 0 <= i < k ==> #[trigger] char_is_whitespace(s[i]),
        k < s.len() ==> !char_is_whitespace(s[k]),
    ensures
        trim_start(s) == s.subrange(k, s.len() as int),
    decreases k,
{
    if k == 0 {
        assert(s.subrange(0, s.len() as int) =~= s);
    } else {
        let d = s.drop_first();
        assert forall|i: int| 0 <= i < k - 1 implies #[trigger] char_is_whitespace(d[i]) by {
            assert(d[i] == s[i + 1]);
        }
        if k - 1 < d.len() {
            assert(d[k - 1] == s[k]);
        }
        lemma_trim_start(d, k - 1);
        assert(d.subrange(k - 1, d.len() as int) =~= s.subrange(k, s.len() as int));
    }
}

/// Dropping the whitespace from position `k` on, where `k` follows the last
/// non-whitespace character, leaves the front.
proof fn lemma_trim_end(s: Seq<char>, k: int)
    requires
        0 <= k <= s.len(),
        forall|i: int| k <= i < s.len() ==> #[trigger] char_is_whitespace(s[i]),
        k > 0 ==> !char_is_whitespace(s[k - 1]),
    ensures
        trim_end(s) == s.subrange(0, k),
    decreases s.len() - k,
{
    if k == s.len() {
        assert(s.subrange(0, k) =~= s);
    } else {
        let d = s.drop_last();
        assert(char_is_whitespace(s[s.len() - 1]));
        assert forall|i: int| k <= i < d.len() implies #[trigger] char_is_whitespace(d[i]) by {
            assert(d[i] == s[i]);
        }
        if k > 0 {
            assert(d[k - 1] == s[k - 1]);
        }
        lemma_trim_end(d, k);
        assert(d.subrange(0, k) =~= s.subrange(0, k));
    }
}

/// What is left after dropping the leading whitespace is empty exactly when
/// everything was whitespace, and otherwise starts with other than whitespace.
proof fn lemma_trim_start_empty(s: Seq<char>)
    ensures
        trim_start(s).len() == 0 <==> all_whitespace(s),
        trim_start(s).len() > 0 ==> !char_is_whitespace(trim_start(s)[0]),
    decreases s.len(),
{
    if s.len() > 0 && char_is_whitespace(s[0]) {
        let d = s.drop_first();
        lemma_trim_start_empty(d);
        if all_whitespace(d) {
            assert forall|i: int| 0 <= i < s.len() implies #[trigger] char_is_whitespace(s[i]) by {
                if i > 0 {
                    assert(s[i] == d[i - 1]);
                }
            }
        }
        if all_whitespace(s) {
            assert forall|i: int| 0 <= i < d.len() implies #[trigger] char_is_whitespace(d[i]) by {
                assert(d[i] == s[i + 1]);
            }
        }
    }
}

/// Dropping trailing whitespace leaves a text that starts with other than
/// whitespace nonempty.
proof fn lemma_trim_end_nonempty(t: Seq<char>)
    requires
        t.len() > 0,
        !char_is_whitespace(t[0]),
    ensures
        trim_end(t).len() > 0,
    decreases t.len(),
{
    if char_is_whitespace(t.last()) {
        let d = t.drop_last();
        assert(d[0] == t[0]);
        lemma_trim_end_nonempty(d);
    }
}

/// A text trims to nothing exactly when it holds nothing but whitespace:
/// `is_blank` tells what `trim(..).is_empty()` tells.
pub proof fn law_blank_iff_trimmed_empty(s: Seq<char>)
    ensures
        trimmed(s).len() == 0 <==> all_whitespace(s),
{
    lemma_trim_start_empty(s);
    let t = trim_start(s);
    if t.len() > 0 {
        lemma_trim_end_nonempty(t);
    }
}

/// `s` without its leading and trailing whitespace (what `str::trim` gives).
pub fn trim(s: &str) -> (r: String)
    ensures
        r@ == trimmed(s@),
{
    let n = s.unicode_len();
    let mut i: usize = 0;
    let mut first: usize = 0;
    let mut last_end: usize = 0;
    for c in it: s.chars()
        invariant
            i == it.index(),
            it.seq() == s@,
            i <= s@.len() == n,
            first <= i,
            forall|j: int| 0 <= j < first ==> #[trigger] char_is_whitespace(s@[j]),
            first < i ==> !char_is_whitespace(s@[first as int]),
            last_end <= i,
            forall|j: int| last_end <= j < i ==> #[trigger] char_is_whitespace(s@[j]),
            last_end > 0 ==> !char_is_whitespace(s@[last_end - 1]),
    {
        assert(c == s@[i as int]);
        let ws = is_whitespace(c);
        if ws && first == i {
            first = i + 1;
        }
        if !ws {
            last_end = i + 1;
        }
        i = i + 1;
    }
    proof {
        lemma_trim_start(s@, first as int);
        let t = s@.subrange(first as int, s@.len() as int);
        if first < s@.len() {
            assert(first < last_end) by {
                if last_end <= first {
                    assert(char_is_whitespace(s@[first as int]));
                }
            }
            assert forall|j: int| last_end - first <= j < t.len() implies #[trigger] char_is_whitespace(t[j]) by {
                assert(t[j] == s@[j + first]);
            }
            assert(t[last_end - first - 1] == s@[last_end - 1]);
            lemma_trim_end(t, last_end - first);
            assert(t.subrange(0, last_end - first) =~= s@.subrange(first as int, last_end as int));
        } else {
            lemma_trim_end(t, 0);
        }
    }
    if first < last_end {
        s.substring_char(first, last_end).to_owned()
    } else {
        proof {
            assert(trimmed(s@) =~= Seq::<char>::empty());
        }
        String::new()
    }
}

/// Trimming keeps exactly the stretch between the leading and the trailing
/// whitespace: when everything before `i` and everything from `j` on is
/// whitespace, and the stretch from `i` to `j`, if not empty, begins and ends
/// with other than whitespace, the trimmed text is that stretch.
pub proof fn law_trim_keeps_the_core(s: Seq<char>, i: int, j: int)
    requires
        0 <= i <= j <= s.len(),
        forall|k: int| 0 <= k < i ==> #[trigger] char_is_whitespace(s[k]),
        forall|k: int| j <= k < s.len() ==> #[trigger] char_is_whitespace(s[k]),
        i < j ==> !char_is_whitespace(s[i]) && !char_is_whitespace(s[j - 1]),
    ensures
        trimmed(s) == s.subrange(i, j),
{
    if i == j {
        assert forall|k: int| 0 <= k < s.len() implies #[trigger] char_is_whitespace(s[k]) by {
            if k >= i {
                assert(j <= k);
            }
        }
        law_blank_iff_trimmed_empty(s);
        assert(trimmed(s) =~= s.subrange(i, j));
    } else {
        lemma_trim_start(s, i);
        let t = s.subrange(i, s.len() as int);
        assert forall|k: int| j - i <= k < t.len() implies #[trigger] char_is_whitespace(t[k]) by {
            assert(t[k] == s[k + i]);
        }
        assert(t[j - i - 1] == s[j - 1]);
        lemma_trim_end(t, j - i);
        assert(t.subrange(0, j - i) =~= s.subrange(i, j));
    }
}

/// `s` without its trailing `/` characters (what `trim_end_matches('/')` gives).
pub open spec fn strip_trailing_slashes(s: Seq<char>) -> Seq<char>
    decreases s.len(),
{
    if s.len() > 0 && s.last() == '/' {
        strip_trailing_slashes(s.drop_last())
    } else {
        s
    }
}

/// Dropping the slashes from position `k` on, where `k` follows the last
/// other character, leaves the front.
proof fn lemma_strip_slashes(s: Seq<char>, k: int)
    requires
        0 <= k <= s.len(),
        forall|i: int| k <= i < s.len() ==> #[trigger] s[i] == '/',
        k > 0 ==> s[k - 1] != '/',
    ensures
        strip_trailing_slashes(s) == s.subrange(0, k),
    decreases s.len() - k,
{
    if k == s.len() {
        assert(s.subrange(0, k) =~= s);
    } else {
        let d = s.drop_last();
        assert(s[s.len() - 1] == '/');
        assert forall|i: int| k <= i < d.len() implies #[trigger] d[i] == '/' by {
            assert(d[i] == s[i]);
        }
        if k > 0 {
            assert(d[k - 1] == s[k - 1]);
        }
        lemma_strip_slashes(d, k);
        assert(d.subrange(0, k) =~= s.subrange(0, k));
    }
}

/// Stripping trailing slashes keeps exactly the front up to the last
/// character that is not a slash: when everything from `k` on is a slash and
/// the character before `k`, if any, is not, the result is the text before `k`.
pub proof fn law_strip_slashes_keeps_the_front(s: Seq<char>, k: int)
    requires
        0 <= k <= s.len(),
        forall|i: int| k <= i < s.len() ==> #[trigger] s[i] == '/',
        k > 0 ==> s[k - 1] != '/',
    ensures
        strip_trailing_slashes(s) == s.subrange(0, k),
{
    lemma_strip_slashes(s, k);
}

/// Joining a name onto a base always ends with the name. An absolute name is
/// the whole result; a relative one follows the whole base, with a single
/// `/` between them when the base is not empty and does not end with one.
pub proof fn law_path_join_appends_the_name(base: Seq<char>, name: Seq<char>)
    ensures
        ({
            let r = path_join(base, name);
            &&& r.len() >= name.len()
            &&& r.subrange(r.len() - name.len(), r.len() as int) == name
            &&& (name.len() > 0 && name[0] == '/' ==> r == name)
            &&& (!(name.len() > 0 && name[0] == '/') ==> {
                &&& r.subrange(0, base.len() as int) == base
                &&& (base.len() > 0 && base[base.len() - 1] != '/' ==> r.len() == base.len() + 1 + name.len()
                    && r[base.len() as int] == '/')
                &&& (!(base.len() > 0 && base[base.len() - 1] != '/') ==> r.len() == base.len() + name.len())
            })
        }),
{
    let r = path_join(base, name);
    assert(r.subrange(r.len() - name.len(), r.len() as int) =~= name);
    if !(name.len() > 0 && name[0] == '/') {
        assert(r.subrange(0, base.len() as int) =~= base);
    }
}

/// `s` without its trailing `/` characters.
pub fn trim_end_slashes(s: &str) -> (r: String)
    ensures
        r@ == strip_trailing_slashes(s@),
{
    let n = s.unicode_len();
    let mut i: usize = 0;
    let mut last_end: usize = 0;
    for c in it: s.chars()
        invariant
            i == it.index(),
            it.seq() == s@,
            i <= s@.len() == n,
            last_end <= i,
            forall|j: int| last_end <= j < i ==> #[trigger] s@[j] == '/',
            last_end > 0 ==> s@[last_end - 1] != '/',
    {
        assert(c == s@[i as int]);
        if c != '/' {
            last_end = i + 1;
        }
        i = i + 1;
    }
    proof {
        lemma_strip_slashes(s@, last_end as int);
    }
    s.substring_char(0, last_end).to_owned()
}

/// `name` joined onto `base` as a path: an absolute `name` replaces `base`;
/// otherwise a separator goes between them unless `base` is empty or already
/// ends with one.
pub open spec fn path_join(base: Seq<char>, name: Seq<char>) -> Seq<char> {
    if name.len() > 0 && name[0] == '/' {
        name
    } else if base.len() > 0 && base.last() != '/' {
        base + seq!['/'] + name
    } else {
        base + name
    }
}

/// Joins `name` onto `base` as a path.
pub fn join_path(base: &str, name: &str) -> (r: String)
    ensures
        r@ == path_join(base@, name@),
{
    proof { reveal_strlit("/"); }
    let n = name.unicode_len();
    if n > 0 && name.get_char(0) == '/' {
        return name.to_owned();
    }
    let b = base.unicode_len();
    let mut r = base.to_owned();
    if b > 0 && base.get_char(b - 1) != '/' {
        r.append("/");
    }
    r.append(name);
    r
}

} // verus!
