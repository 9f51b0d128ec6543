use vstd::prelude::*;
use vstd::string::*;

verus! {

/// `q` occurs in `s` as a contiguous run of characters.
pub open spec fn contains_at(s: Seq<char>, q: Seq<char>, i: int) -> bool {
    0 <= i && i + q.len() <= s.len() && s.subrange(i, i + q.len()) == q
}

pub open spec fn seq_contains(s: Seq<char>, q: Seq<char>) -> bool {
    exists|i: int| contains_at(s, q, i)
}

/// Substring test: whether `q` occurs in `s`.
pub fn str_contains(s: &str, q: &str) -> (r: bool)
    ensures
        r == seq_contains(s@, q@),
{
    let n = s.unicode_len();
    let m = q.unicode_len();
    if m > n {
        assert forall|i: int| !contains_at(s@, q@, i) by {}
        return false;
    }
    let mut i: usize = 0;
    while i <= n - m
        invariant
            n == s@.len(),
            m == q@.len(),
            m <= n,
            i <= n - m + 1,
            forall|k: int| 0 <= k < i ==> !contains_at(s@, q@, k),
        decreases n - m + 1 - i,
    {
        let mut j: usize = 0;
        let mut same = true;
        while j < m
            invariant
                n == s@.len(),
                m == q@.len(),
                i + m <= n,
                j <= m,
                same == (forall|k: int| 0 <= k < j ==> s@[i + k] == q@[k]),
            decreases m - j,
        {
            if s.get_char(i + j) != q.get_char(j) {
                same = false;
            }
            j = j + 1;
        }
        if same {
            assert(s@.subrange(i as int, i + m) =~= q@);
            assert(contains_at(s@, q@, i as int));
            return true;
        }
        assert(!contains_at(s@, q@, i as int)) by {
            if s@.subrange(i as int, i + m) == q@ {
                let k = choose|k: int| 0 <= k < m && s@[i + k] != q@[k];
                assert(s@.subrange(i as int, i + m)[k] == s@[i + k]);
            }
        }
        i = i + 1;
    }
    false
}

/// The string contents of a sequence of strings.
pub open spec fn views(v: Seq<String>) -> Seq<Seq<char>> {
    v.map_values(|w: String| w@)
}

/// The run of characters other than `sep` at the end of `s`.
pub open spec fn trailing_piece(s: Seq<char>, sep: char) -> Seq<char>
    decreases s.len(),
{
    if s.len() == 0 || s.last() == sep {
        Seq::empty()
    } else {
        trailing_piece(s.drop_last(), sep).push(s.last())
    }
}

/// The non-empty `sep`-separated pieces of `s` that a later `sep` has closed.
pub open spec fn closed_pieces(s: Seq<char>, sep: char) -> Seq<Seq<char>>
    decreases s.len(),
{
    if s.len() == 0 {
        Seq::empty()
    } else if s.last() == sep {
        let w = trailing_piece(s.drop_last(), sep);
        if w.len() > 0 {
            closed_pieces(s.drop_last(), sep).push(w)
        } else {
            closed_pieces(s.drop_last(), sep)
        }
    } else {
        closed_pieces(s.drop_last(), sep)
    }
}

/// The non-empty pieces of `s` between runs of `sep`, in order.
pub open spec fn pieces(s: Seq<char>, sep: char) -> Seq<Seq<char>> {
    if trailing_piece(s, sep).len() > 0 {
        closed_pieces(s, sep).push(trailing_piece(s, sep))
    } else {
        closed_pieces(s, sep)
    }
}

/// The non-empty words of `s`, separated by runs of spaces, in order.
pub open spec fn words(s: Seq<char>) -> Seq<Seq<char>> {
    pieces(s, ' ')
}

/// `ws` joined into one sequence, with `sep` between neighbours.
pub open spec fn joined(ws: Seq<Seq<char>>, sep: Seq<char>) -> Seq<char>
    decreases ws.len(),
{
    if ws.len() == 0 {
        Seq::empty()
    } else if ws.len() == 1 {
        ws[0]
    } else {
        joined(ws.drop_last(), sep) + sep + ws.last()
    }
}

/// Splits `s` at each `sep`, dropping empty pieces.
pub fn split_on(s: &str, sep: char) -> (r: Vec<String>)
    ensures
        views(r@) == pieces(s@, sep),
{
    let n = s.unicode_len();
    let mut r: Vec<String> = Vec::new();
    let mut start: usize = 0;
    let mut i: usize = 0;
    while i < n
        invariant
            n == s@.len(),
            start <= i <= n,
            views(r@) == closed_pieces(s@.subrange(0, i as int), sep),
            s@.subrange(start as int, i as int) == trailing_piece(s@.subrange(0, i as int), sep),
        decreases n - i,
    {
        let ghost pre = s@.subrange(0, i as int);
        let ghost next = s@.subrange(0, i + 1);
        assert(next.drop_last() =~= pre);
        let c = s.get_char(i);
        if c == sep {
            if start < i {
                let w = String::from_str(s.substring_char(start, i));
                let ghost old_r = r@;
                r.push(w);
                assert(views(r@) =~= views(old_r).push(w@));
            }
            start = i + 1;
            assert(s@.subrange(start as int, i + 1) =~= Seq::<char>::empty());
        } else {
            assert(s@.subrange(start as int, i + 1) =~= s@.subrange(start as int, i as int).push(c));
        }
        i = i + 1;
    }
    assert(s@.subrange(0, n as int) =~= s@);
    if start < n {
        let w = String::from_str(s.substring_char(start, n));
        let ghost old_r = r@;
        r.push(w);
        assert(views(r@) =~= views(old_r).push(w@));
    }
    r
}

/// Splits `s` on spaces, dropping empty words.
pub fn split_words(s: &str) -> (r: Vec<String>)
    ensures
        views(r@) == words(s@),
{
    split_on(s, ' ')
}

/// Joins `ws` with `sep` between neighbours.
pub fn join(ws: &Vec<String>, sep: &str) -> (r: String)
    ensures
        r@ == joined(views(ws@), sep@),
{
    let mut r = String::new();
    let mut i: usize = 0;
    while i < ws.len()
        invariant
            i <= ws@.len(),
            r@ == joined(views(ws@).subrange(0, i as int), sep@),
        decreases ws@.len() - i,
    {
        let ghost pre = views(ws@).subrange(0, i as int);
        let ghost next = views(ws@).subrange(0, i + 1);
        assert(next.drop_last() =~= pre);
        if i > 0 {
            r.append(sep);
        }
        r.append(ws[i].as_str());
        i = i + 1;
    }
    assert(views(ws@).subrange(0, ws@.len() as int) =~= views(ws@));
    r
}

/// `s` begins with a dot (a hidden entry).
pub open spec fn is_dotted(s: Seq<char>) -> bool {
    s.len() > 0 && s[0] == '.'
}

pub fn starts_with_dot(s: &str) -> (r: bool)
    ensures
        r == is_dotted(s@),
{
    s.unicode_len() > 0 && s.get_char(0) == '.'
}

/// `p[b..e]` is the last segment of the path `p`: what follows the last
/// separator once trailing separators are set aside.
pub open spec fn last_segment_at(p: Seq<char>, b: int, e: int) -> bool {
    &&& 0 <= b <= e <= p.len()
    &&& forall|k: int| e <= k < p.len() ==> p[k] == '/'
    &&& forall|k: int| b <= k < e ==> p[k] != '/'
    &&& (b == 0 || p[b - 1] == '/')
    &&& (e == b || e == p.len() || p[e - 1] != '/')
    &&& (e == b ==> forall|k: int| 0 <= k < p.len() ==> p[k] == '/')
}

/// Final segment of a `/`-separated path (`"/a/b/"` gives `"b"`).
pub fn file_name(path: &str) -> (r: String)
    ensures
        exists|b: int, e: int| last_segment_at(path@, b, e) && r@ == path@.subrange(b, e),
{
    let n = path.unicode_len();
    let mut e: usize = n;
    while e > 0 && path.get_char(e - 1) == '/'
        invariant
            n == path@.len(),
            e <= n,
            forall|k: int| e <= k < n ==> path@[k] == '/',
        decreases e,
    {
        e = e - 1;
    }
    let mut b: usize = e;
    while b > 0 && path.get_char(b - 1) != '/'
        invariant
            n == path@.len(),
            b <= e <= n,
            forall|k: int| b <= k < e ==> path@[k] != '/',
        decreases b,
    {
        b = b - 1;
    }
    let r = String::from_str(path.substring_char(b, e));
    assert(last_segment_at(path@, b as int, e as int));
    r
}

/// Whether `a` and `b` hold the same characters.
pub fn str_eq(a: &str, b: &str) -> (r: bool)
    ensures
        r == (a@ == b@),
{
    let n = a.unicode_len();
    if n != b.unicode_len() {
        return false;
    }
    let mut k: usize = 0;
    while k < n
        invariant
            n == a@.len() == b@.len(),
            k <= n,
            forall|j: int| 0 <= j < k ==> a@[j] == b@[j],
        decreases n - k,
    {
        if a.get_char(k) != b.get_char(k) {
            return false;
        }
        k = k + 1;
    }
    assert(a@ =~= b@);
    true
}

} // verus!
