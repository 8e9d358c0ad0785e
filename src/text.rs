//! Character-level helpers on protocol records.
use vstd::prelude::*;

verus! {

/// `c` occurs somewhere in `s`.
pub open spec fn has_char(s: Seq<char>, c: char) -> bool {
    exists|i: int| 0 <= i < s.len() && s[i] == c
}

/// `i` is the position of the first `c` in `s`.
pub open spec fn is_first(s: Seq<char>, c: char, i: int) -> bool {
    &&& 0 <= i < s.len()
    &&& s[i] == c
    &&& forall|j: int| 0 <= j < i ==> s[j] != c
}

/// The text before and after the first `c` of `s`, or `None` when `s` holds no `c`.
pub open spec fn split_at_first(s: Seq<char>, c: char) -> Option<(Seq<char>, Seq<char>)> {
    if has_char(s, c) {
        let i = choose|i: int| is_first(s, c, i);
        Some((s.subrange(0, i), s.subrange(i + 1, s.len() as int)))
    } else {
        None
    }
}

proof fn lemma_first_unique(s: Seq<char>, c: char, i: int)
    requires
        is_first(s, c, i),
    ensures
        has_char(s, c),
        (choose|k: int| is_first(s, c, k)) == i,
{
    assert(is_first(s, c, i));
    let k = choose|k: int| is_first(s, c, k);
    if k < i {
        assert(s[k] == c);
    } else if k > i {
        assert(s[i] == c);
    }
}

/// `i` is the position of the last `c` in `s`.
pub open spec fn is_last(s: Seq<char>, c: char, i: int) -> bool {
    &&& 0 <= i < s.len()
    &&& s[i] == c
    &&& forall|j: int| i < j < s.len() ==> s[j] != c
}

/// The text before and after the last `c` of `s`, or `None` when `s` holds no `c`.
pub open spec fn split_at_last(s: Seq<char>, c: char) -> Option<(Seq<char>, Seq<char>)> {
    if has_char(s, c) {
        let i = choose|i: int| is_last(s, c, i);
        Some((s.subrange(0, i), s.subrange(i + 1, s.len() as int)))
    } else {
        None
    }
}

proof fn lemma_last_unique(s: Seq<char>, c: char, i: int)
    requires
        is_last(s, c, i),
    ensures
        has_char(s, c),
        (choose|k: int| is_last(s, c, k)) == i,
{
    assert(is_last(s, c, i));
    let k = choose|k: int| is_last(s, c, k);
    if k < i {
        assert(s[i] == c);
    } else if k > i {
        assert(s[k] == c);
    }
}

/// Splits `s` around its last `c`.
pub fn split_last<'a>(s: &'a str, c: char) -> (r: Option<(&'a str, &'a str)>)
    ensures
        r is None ==> split_at_last(s@, c) is None,
        r matches Some((a, b)) ==> split_at_last(s@, c) == Some((a@, b@)),
{
    let n = s.unicode_len();
    let mut i: usize = n;
    while i > 0
        invariant
            n == s@.len(),
            i <= n,
            forall|j: int| i <= j < n ==> s@[j] != c,
        decreases i,
    {
        if s.get_char(i - 1) == c {
            proof {
                lemma_last_unique(s@, c, i - 1);
            }
            return Some((s.substring_char(0, i - 1), s.substring_char(i, n)));
        }
        i = i - 1;
    }
    assert(!has_char(s@, c));
    None
}

/// Whether `s` contains the character `c`.
pub fn contains_char(s: &str, c: char) -> (r: bool)
    ensures
        r == has_char(s@, c),
{
    match find_char(s, c) {
        Some(_) => true,
        None => false,
    }
}

/// Position of the first `c` in `s`.
pub fn find_char(s: &str, c: char) -> (r: Option<usize>)
    ensures
        r is None ==> !has_char(s@, c),
        r matches Some(i) ==> is_first(s@, c, i as int),
{
    let n = s.unicode_len();
    let mut i: usize = 0;
    while i < n
        invariant
            n == s@.len(),
            i <= n,
            forall|j: int| 0 <= j < i ==> s@[j] != c,
        decreases n - i,
    {
        if s.get_char(i) == c {
            return Some(i);
        }
        i = i + 1;
    }
    None
}

/// Splits `s` around its first `c`.
pub fn split_once<'a>(s: &'a str, c: char) -> (r: Option<(&'a str, &'a str)>)
    ensures
        r is None ==> split_at_first(s@, c) is None,
        r matches Some((a, b)) ==> split_at_first(s@, c) == Some((a@, b@)),
{
    match find_char(s, c) {
        None => None,
        Some(i) => {
            proof {
                lemma_first_unique(s@, c, i as int);
            }
            let n = s.unicode_len();
            Some((s.substring_char(0, i), s.substring_char(i + 1, n)))
        },
    }
}

/// Whether two strings hold the same characters.
pub fn same_text(a: &str, b: &str) -> (r: bool)
    ensures
        r == (a@ == b@),
{
    let n = a.unicode_len();
    if n != b.unicode_len() {
        return false;
    }
    let mut i: usize = 0;
    while i < n
        invariant
            n == a@.len(),
            n == b@.len(),
            i <= n,
            forall|j: int| 0 <= j < i ==> a@[j] == b@[j],
        decreases n - i,
    {
        if a.get_char(i) != b.get_char(i) {
            return false;
        }
        i = i + 1;
    }
    assert(a@ =~= b@);
    true
}

/// Whether two owned strings hold the same characters.
pub fn same_string(a: &String, b: &String) -> (r: bool)
    ensures
        r == (a@ == b@),
{
    same_text(a.as_str(), b.as_str())
}

/// The list separator `", "`.
pub open spec fn list_sep() -> Seq<char> {
    seq![',', ' ']
}

/// `s` holds the list separator at position `i`.
pub open spec fn sep_at(s: Seq<char>, i: int) -> bool {
    0 <= i && i + 1 < s.len() && s[i] == ',' && s[i + 1] == ' '
}

/// `s` holds the list separator somewhere.
pub open spec fn has_sep(s: Seq<char>) -> bool {
    exists|i: int| sep_at(s, i)
}

/// The items of `parts` joined by the list separator.
pub open spec fn join_list(parts: Seq<Seq<char>>) -> Seq<char>
    decreases parts.len(),
{
    if parts.len() == 0 {
        Seq::empty()
    } else if parts.len() == 1 {
        parts[0]
    } else {
        join_list(parts.drop_last()) + list_sep() + parts.last()
    }
}

/// The views of a list of string slices.
pub open spec fn views(v: Seq<&str>) -> Seq<Seq<char>> {
    v.map_values(|x: &str| x@)
}

/// Splits `s` at every list separator: the items, joined again by the
/// separator, give `s` back, and none of them holds a separator.
pub fn split_list<'a>(s: &'a str) -> (r: Vec<&'a str>)
    ensures
        r@.len() >= 1,
        join_list(views(r@)) == s@,
        forall|i: int| 0 <= i < r@.len() ==> !has_sep(#[trigger] r@[i]@),
{
    let n = s.unicode_len();
    let mut parts: Vec<&'a str> = Vec::new();
    let mut start: usize = 0;
    let mut p: usize = 0;
    while p < n
        invariant
            n == s@.len(),
            start <= p <= n,
            join_list(views(parts@).push(s@.subrange(start as int, p as int))) == s@.subrange(0, p as int),
            forall|i: int| 0 <= i < parts@.len() ==> !has_sep(#[trigger] parts@[i]@),
            !has_sep(s@.subrange(start as int, p as int)),
            start < p && s@[p - 1] == ',' && p < n ==> s@[p as int] != ' ',
        decreases n - p,
    {
        let ghost cur = s@.subrange(start as int, p as int);
        let ghost vs = views(parts@);
        let c = s.get_char(p);
        if c == ',' && p + 1 < n && s.get_char(p + 1) == ' ' {
            let item = s.substring_char(start, p);
            parts.push(item);
            assert(views(parts@) =~= vs.push(cur));
            p = p + 2;
            start = p;
            assert(s@.subrange(start as int, p as int) =~= Seq::<char>::empty());
            assert(!has_sep(Seq::<char>::empty()));
            let ghost nv = views(parts@).push(Seq::<char>::empty());
            assert(nv.drop_last() =~= vs.push(cur));
            assert(join_list(nv) == join_list(vs.push(cur)) + list_sep() + Seq::<char>::empty());
            assert(s@.subrange(0, p as int) =~= s@.subrange(0, p - 2) + list_sep() + Seq::<char>::empty());
        } else {
            let ghost nxt = s@.subrange(start as int, p + 1);
            assert(nxt =~= cur.push(c));
            assert(!has_sep(nxt)) by {
                if has_sep(nxt) {
                    let i = choose|i: int| sep_at(nxt, i);
                    if i + 1 < cur.len() {
                        assert(sep_at(cur, i));
                    }
                }
            }
            proof {
                if vs.len() == 0 {
                    assert(vs.push(nxt) =~= seq![nxt]);
                    assert(vs.push(cur) =~= seq![cur]);
                } else {
                    assert(vs.push(nxt).drop_last() =~= vs);
                    assert(vs.push(cur).drop_last() =~= vs);
                }
            }
            assert(s@.subrange(0, p + 1) =~= s@.subrange(0, p as int).push(c));
            p = p + 1;
        }
    }
    let ghost vs = views(parts@);
    let last = s.substring_char(start, n);
    parts.push(last);
    assert(views(parts@) =~= vs.push(last@));
    assert(s@.subrange(0, n as int) =~= s@);
    parts
}

} // verus!
