//! Substring matching on strings, as used by the window rules.

use vstd::prelude::*;

verus! {

/// `needle` occurs in `hay` as a contiguous run of characters.
pub open spec fn seq_contains(hay: Seq<char>, needle: Seq<char>) -> bool {
    exists|i: int| 0 <= i <= hay.len() - needle.len() && #[trigger] hay.subrange(i, i + needle.len()) == needle
}

/// Every text contains itself.
pub proof fn lemma_contains_self(s: Seq<char>)
    ensures
        seq_contains(s, s),
{
    assert(s.subrange(0int, 0int + s.len()) =~= s);
}

/// The characters of `s`, in order.
pub fn chars_of(s: &str) -> (r: Vec<char>)
    ensures
        r@ == s@,
{
    let n = s.unicode_len();
    let mut r: Vec<char> = Vec::new();
    let mut i: usize = 0;
    while i < n
        invariant
            n == s@.len(),
            i <= n,
            r@ == s@.subrange(0, i as int),
        decreases n - i,
    {
        let c = s.get_char(i);
        r.push(c);
        i = i + 1;
        assert(r@ =~= s@.subrange(0, i as int));
    }
    assert(r@ =~= s@);
    r
}

/// The run of `needle` starts at position `at` of `hay`.
fn occurs_at(hay: &Vec<char>, needle: &Vec<char>, at: usize) -> (r: bool)
    requires
        at + needle@.len() <= hay@.len(),
    ensures
        r == (hay@.subrange(at as int, at + needle@.len()) == needle@),
{
    let hay_len = hay.len();
    let mut j: usize = 0;
    while j < needle.len()
        invariant
            at + needle@.len() <= hay@.len(),
            hay_len == hay@.len(),
            j <= needle@.len(),
            forall|k: int| 0 <= k < j ==> hay@[at + k] == needle@[k],
        decreases needle@.len() - j,
    {
        if hay[at + j] != needle[j] {
            assert(hay@.subrange(at as int, at + needle@.len())[j as int] != needle@[j as int]);
            return false;
        }
        j = j + 1;
    }
    assert(hay@.subrange(at as int, at + needle@.len()) =~= needle@);
    true
}

/// Whether `needle` occurs in `hay` (`str::contains` on a string pattern).
pub fn str_contains(hay: &str, needle: &str) -> (r: bool)
    ensures
        r == seq_contains(hay@, needle@),
{
    let h = chars_of(hay);
    let n = chars_of(needle);
    if n.len() > h.len() {
        return false;
    }
    let last = h.len() - n.len();
    let mut i: usize = 0;
    while i <= last
        invariant
            h@ == hay@,
            n@ == needle@,
            last == h@.len() - n@.len(),
            i <= last + 1,
            forall|k: int| 0 <= k < i ==> #[trigger] hay@.subrange(k, k + needle@.len()) != needle@,
        decreases last + 1 - i,
    {
        if occurs_at(&h, &n, i) {
            return true;
        }
        if i == last {
            return false;
        }
        i = i + 1;
    }
    false
}

/// A path separator (`\\` or `/`).
pub open spec fn is_path_sep(c: char) -> bool {
    c == '\\' || c == '/'
}

/// The last component of a path: the text after its last separator (all of it
/// when it has none).
pub open spec fn base_name(p: Seq<char>) -> Seq<char>
    decreases p.len(),
{
    if p.len() == 0 {
        Seq::empty()
    } else if is_path_sep(p.last()) {
        Seq::empty()
    } else {
        base_name(p.drop_last()).push(p.last())
    }
}

/// `base_name` is the part of the path after position `start`.
proof fn lemma_base_name_suffix(p: Seq<char>, start: int)
    requires
        0 <= start <= p.len(),
        forall|k: int| start <= k < p.len() ==> !is_path_sep(#[trigger] p[k]),
        start == 0 || is_path_sep(p[start - 1]),
    ensures
        base_name(p) == p.subrange(start, p.len() as int),
    decreases p.len(),
{
    if p.len() > 0 && start < p.len() {
        assert(!is_path_sep(p[p.len() - 1]));
        let q = p.drop_last();
        if start > 0 {
            assert(q[start - 1] == p[start - 1]);
        }
        assert forall|k: int| start <= k < q.len() implies !is_path_sep(#[trigger] q[k]) by {
            assert(q[k] == p[k]);
        }
        lemma_base_name_suffix(q, start);
        assert(q.subrange(start, q.len() as int).push(p.last()) =~= p.subrange(start, p.len() as int));
    } else if p.len() > 0 {
        assert(p.subrange(start, p.len() as int) =~= Seq::<char>::empty());
    }
}

/// The file name of a path (`split(['\\', '/']).last()`).
pub fn file_name_of(path: &str) -> (r: String)
    ensures
        r@ == base_name(path@),
{
    let cs = chars_of(path);
    let n = cs.len();
    let mut start = n;
    while start > 0 && cs[start - 1] != '\\' && cs[start - 1] != '/'
        invariant
            cs@ == path@,
            n == cs@.len(),
            start <= n,
            forall|k: int| start <= k < n ==> !is_path_sep(#[trigger] cs@[k]),
        decreases start,
    {
        start = start - 1;
    }
    proof {
        lemma_base_name_suffix(path@, start as int);
    }
    path.substring_char(start, n).to_owned()
}

} // verus!
