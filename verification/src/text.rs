//! Character-sequence utilities shared by the parsers.
//!
//! Text is handled as `Vec<char>` in executable code and as `Seq<char>` in
//! specifications; a `&str` or `String` is related to its characters by its
//! view (`s@`).

use vstd::prelude::*;
use vstd::slice::slice_subrange;
use vstd::slice::slice_to_vec;
use vstd::utf8::{decode_utf8, valid_utf8};

verus! {

/// Unicode `White_Space` property, as used by `char::is_whitespace`.
pub open spec fn is_ws(c: char) -> bool {
    let u = c as u32;
    ||| 0x9 <= u <= 0xD
    ||| u == 0x20
    ||| u == 0x85
    ||| u == 0xA0
    ||| u == 0x1680
    ||| 0x2000 <= u <= 0x200A
    ||| u == 0x2028
    ||| u == 0x2029
    ||| u == 0x202F
    ||| u == 0x205F
    ||| u == 0x3000
}

pub open spec fn is_digit(c: char) -> bool {
    '0' <= c && c <= '9'
}

/// The text with leading whitespace removed.
pub open spec fn trim_start(s: Seq<char>) -> Seq<char>
    decreases s.len(),
{
    if s.len() > 0 && is_ws(s[0]) {
        trim_start(s.drop_first())
    } else {
        s
    }
}

/// The text with trailing whitespace removed.
pub open spec fn trim_end(s: Seq<char>) -> Seq<char>
    decreases s.len(),
{
    if s.len() > 0 && is_ws(s.last()) {
        trim_end(s.drop_last())
    } else {
        s
    }
}

pub open spec fn trim(s: Seq<char>) -> Seq<char> {
    trim_end(trim_start(s))
}

/// `n` occurs in `h` at position `i`.
pub open spec fn occurs_at(h: Seq<char>, n: Seq<char>, i: int) -> bool {
    0 <= i && i + n.len() <= h.len() && h.subrange(i, i + n.len()) == n
}

/// `n` is a contiguous part of `h`.
pub open spec fn has_sub(h: Seq<char>, n: Seq<char>) -> bool {
    exists|i: int| occurs_at(h, n, i)
}

pub open spec fn starts_with(s: Seq<char>, p: Seq<char>) -> bool {
    p.len() <= s.len() && s.subrange(0, p.len() as int) == p
}

pub open spec fn ends_with(s: Seq<char>, p: Seq<char>) -> bool {
    p.len() <= s.len() && s.subrange(s.len() - p.len(), s.len() as int) == p
}

pub open spec fn has_char(s: Seq<char>, c: char) -> bool {
    exists|i: int| 0 <= i < s.len() && s[i] == c
}

/// `char::to_ascii_lowercase`.
pub open spec fn ascii_lower(c: char) -> char {
    if 'A' <= c && c <= 'Z' {
        ((c as u32) + 32) as char
    } else {
        c
    }
}

/// `str::to_ascii_lowercase`.
pub open spec fn ascii_lower_seq(s: Seq<char>) -> Seq<char> {
    Seq::new(s.len(), |i: int| ascii_lower(s[i]))
}

/// Views of a list of character vectors.
pub open spec fn views(v: Seq<Vec<char>>) -> Seq<Seq<char>> {
    v.map_values(|x: Vec<char>| x@)
}

/// The characters of a string slice.
pub fn chars_of(s: &str) -> (v: Vec<char>)
    ensures
        v@ == s@,
{
    let n = s.unicode_len();
    let mut v: Vec<char> = Vec::new();
    let mut i: usize = 0;
    while i < n
        invariant
            n == s@.len(),
            i <= n,
            v@ == s@.take(i as int),
        decreases n - i,
    {
        let c = s.get_char(i);
        v.push(c);
        i = i + 1;
        assert(v@ =~= s@.take(i as int));
    }
    assert(v@ =~= s@);
    v
}

/// `String::push`.
#[verifier::external_body]
fn string_push(s: &mut String, c: char)
    ensures
        final(s)@ == old(s)@.push(c),
{
    s.push(c);
}

/// A `String` holding the given characters.
pub fn string_of(v: &[char]) -> (s: String)
    ensures
        s@ == v@,
{
    let mut s = String::new();
    let mut i: usize = 0;
    while i < v.len()
        invariant
            i <= v.len(),
            s@ == v@.take(i as int),
        decreases v.len() - i,
    {
        string_push(&mut s, v[i]);
        i = i + 1;
        assert(s@ =~= v@.take(i as int));
    }
    assert(s@ =~= v@);
    s
}

/// Appends the characters of `s`.
pub fn push_str(out: &mut Vec<char>, s: &str)
    ensures
        final(out)@ == old(out)@ + s@,
{
    let cs = chars_of(s);
    push_chars(out, &cs);
}

/// Appends the given characters.
pub fn push_chars(out: &mut Vec<char>, cs: &[char])
    ensures
        final(out)@ == old(out)@ + cs@,
{
    let ghost start = out@;
    let mut i: usize = 0;
    while i < cs.len()
        invariant
            i <= cs.len(),
            out@ == start + cs@.take(i as int),
        decreases cs.len() - i,
    {
        out.push(cs[i]);
        i = i + 1;
        assert(out@ =~= start + cs@.take(i as int));
    }
    assert(cs@.take(cs.len() as int) =~= cs@);
}

/// Whether `h` holds `n` at position `i`.
pub fn matches_at(h: &[char], n: &[char], i: usize) -> (r: bool)
    ensures
        r == occurs_at(h@, n@, i as int),
{
    if i > h.len() || n.len() > h.len() - i {
        return false;
    }
    let mut j: usize = 0;
    while j < n.len()
        invariant
            i + n.len() <= h.len(),
            j <= n.len(),
            forall|k: int| 0 <= k < j ==> h@[i + k] == n@[k],
        decreases n.len() - j,
    {
        if h[i + j] != n[j] {
            assert(h@.subrange(i as int, i + n.len())[j as int] != n@[j as int]);
            return false;
        }
        j = j + 1;
    }
    assert(h@.subrange(i as int, i + n.len()) =~= n@);
    true
}

/// Position of the first occurrence of `n` in `h` at or after `from`.
pub fn find_from(h: &[char], n: &[char], from: usize) -> (r: Option<usize>)
    ensures
        match r {
            Some(i) => from <= i && occurs_at(h@, n@, i as int) && forall|k: int|
                from <= k < i ==> !occurs_at(h@, n@, k),
            None => forall|k: int| from <= k ==> !occurs_at(h@, n@, k),
        },
{
    if from > h.len() {
        return None;
    }
    let mut i = from;
    while i < h.len()
        invariant
            from <= i <= h.len(),
            forall|k: int| from <= k < i ==> !occurs_at(h@, n@, k),
        decreases h.len() - i,
    {
        if matches_at(h, n, i) {
            return Some(i);
        }
        i = i + 1;
    }
    if matches_at(h, n, i) {
        return Some(i);
    }
    None
}

/// The first position where `n` occurs in `h` (`str::find`).
pub open spec fn first_at(h: Seq<char>, n: Seq<char>) -> Option<int> {
    if exists|k: int| occurs_at(h, n, k) {
        Some(choose|k: int| occurs_at(h, n, k) && forall|j: int| 0 <= j < k ==> !occurs_at(h, n, j))
    } else {
        None
    }
}

/// The first position of `n` in `h` (`first_at`).
pub fn find_first(h: &[char], n: &[char]) -> (r: Option<usize>)
    ensures
        match r {
            Some(i) => first_at(h@, n@) == Some(i as int) && i + n.len() <= h.len(),
            None => first_at(h@, n@) is None,
        },
{
    match find_from(h, n, 0) {
        Some(i) => {
            assert(occurs_at(h@, n@, i as int));
            let ghost k = choose|k: int|
                occurs_at(h@, n@, k) && forall|j: int| 0 <= j < k ==> !occurs_at(h@, n@, j);
            assert(occurs_at(h@, n@, k) && forall|j: int| 0 <= j < k ==> !occurs_at(h@, n@, j));
            assert(k == i) by {
                if k < i {
                    assert(!occurs_at(h@, n@, k));
                } else if k > i {
                    assert(!occurs_at(h@, n@, i as int));
                }
            }
            Some(i)
        },
        None => {
            assert(!exists|k: int| occurs_at(h@, n@, k)) by {
                if exists|k: int| occurs_at(h@, n@, k) {
                    let k = choose|k: int| occurs_at(h@, n@, k);
                    assert(k >= 0);
                }
            }
            None
        },
    }
}

/// Whether `n` occurs in `h`.
pub fn contains(h: &[char], n: &[char]) -> (r: bool)
    ensures
        r == has_sub(h@, n@),
{
    match find_from(h, n, 0) {
        Some(_) => true,
        None => {
            assert(!has_sub(h@, n@)) by {
                if has_sub(h@, n@) {
                    let k = choose|k: int| occurs_at(h@, n@, k);
                    assert(!occurs_at(h@, n@, k));
                }
            }
            false
        },
    }
}

/// Whether the literal `n` occurs in `h`.
pub fn contains_str(h: &[char], n: &str) -> (r: bool)
    ensures
        r == has_sub(h@, n@),
{
    let nv = chars_of(n);
    contains(h, &nv)
}

/// Whether `c` occurs in `s`.
pub fn contains_char(s: &[char], c: char) -> (r: bool)
    ensures
        r == has_char(s@, c),
{
    let mut i: usize = 0;
    while i < s.len()
        invariant
            i <= s.len(),
            forall|k: int| 0 <= k < i ==> s@[k] != c,
        decreases s.len() - i,
    {
        if s[i] == c {
            return true;
        }
        i = i + 1;
    }
    false
}

pub fn starts_with_str(s: &[char], p: &str) -> (r: bool)
    ensures
        r == starts_with(s@, p@),
{
    let pv = chars_of(p);
    matches_at(s, &pv, 0)
}

pub fn ends_with_str(s: &[char], p: &str) -> (r: bool)
    ensures
        r == ends_with(s@, p@),
{
    let pv = chars_of(p);
    if pv.len() > s.len() {
        return false;
    }
    matches_at(s, &pv, s.len() - pv.len())
}

/// Whether the two sequences are equal.
pub fn chars_eq(a: &[char], b: &[char]) -> (r: bool)
    ensures
        r == (a@ == b@),
{
    if a.len() != b.len() {
        return false;
    }
    let r = matches_at(a, b, 0);
    proof {
        if r {
            assert(a@.subrange(0, b@.len() as int) =~= a@);
        } else {
            if a@ == b@ {
                assert(a@.subrange(0, b@.len() as int) =~= a@);
            }
        }
    }
    r
}

/// Whether the sequence equals the literal `b`.
pub fn eq_str(a: &[char], b: &str) -> (r: bool)
    ensures
        r == (a@ == b@),
{
    let bv = chars_of(b);
    chars_eq(a, &bv)
}

/// `char::is_whitespace`.
pub fn is_whitespace(c: char) -> (r: bool)
    ensures
        r == is_ws(c),
{
    let u = c as u32;
    (0x9 <= u && u <= 0xD) || u == 0x20 || u == 0x85 || u == 0xA0 || u == 0x1680 || (0x2000
        <= u && u <= 0x200A) || u == 0x2028 || u == 0x2029 || u == 0x202F || u == 0x205F || u
        == 0x3000
}

pub fn is_ascii_digit(c: char) -> (r: bool)
    ensures
        r == is_digit(c),
{
    '0' <= c && c <= '9'
}

proof fn lemma_trim_start_skip(s: Seq<char>, i: int)
    requires
        0 <= i <= s.len(),
        forall|k: int| 0 <= k < i ==> is_ws(s[k]),
    ensures
        trim_start(s) == trim_start(s.skip(i)),
    decreases i,
{
    if i > 0 {
        assert(s.drop_first().skip(i - 1) =~= s.skip(i));
        lemma_trim_start_skip(s.drop_first(), i - 1);
    } else {
        assert(s.skip(0) =~= s);
    }
}

proof fn lemma_trim_end_take(s: Seq<char>, j: int)
    requires
        0 <= j <= s.len(),
        forall|k: int| j <= k < s.len() ==> is_ws(s[k]),
    ensures
        trim_end(s) == trim_end(s.take(j)),
    decreases s.len() - j,
{
    if j < s.len() {
        assert(s.drop_last().take(j) =~= s.take(j));
        lemma_trim_end_take(s.drop_last(), j);
    } else {
        assert(s.take(j) =~= s);
    }
}

/// Bounds `(a, b)` such that `s[a..b]` is `s` trimmed.
pub fn trim_bounds(s: &[char]) -> (r: (usize, usize))
    ensures
        r.0 <= r.1 <= s.len(),
        s@.subrange(r.0 as int, r.1 as int) == trim(s@),
        trim_start(s@) == s@.subrange(r.0 as int, s.len() as int),
{
    let mut a: usize = 0;
    while a < s.len() && is_whitespace(s[a])
        invariant
            a <= s.len(),
            forall|k: int| 0 <= k < a ==> is_ws(s@[k]),
        decreases s.len() - a,
    {
        a = a + 1;
    }
    proof {
        lemma_trim_start_skip(s@, a as int);
        assert(s@.skip(a as int) =~= s@.subrange(a as int, s.len() as int));
    }
    let mut b: usize = s.len();
    while b > a && is_whitespace(s[b - 1])
        invariant
            a <= b <= s.len(),
            forall|k: int| b <= k < s.len() ==> is_ws(s@[k]),
        decreases b,
    {
        b = b - 1;
    }
    proof {
        let t = s@.subrange(a as int, s.len() as int);
        assert(forall|k: int| (b - a) <= k < t.len() ==> is_ws(t[k]));
        lemma_trim_end_take(t, b - a);
        assert(t.take(b - a) =~= s@.subrange(a as int, b as int));
    }
    (a, b)
}

/// The trimmed text.
pub fn trimmed(s: &[char]) -> (r: Vec<char>)
    ensures
        r@ == trim(s@),
{
    let (a, b) = trim_bounds(s);
    slice_to_vec(slice_subrange(s, a, b))
}

/// The length of the text without its trailing whitespace.
pub fn trim_end_len(s: &[char]) -> (n: usize)
    ensures
        n <= s.len(),
        s@.take(n as int) == trim_end(s@),
{
    let mut b: usize = s.len();
    while b > 0 && is_whitespace(s[b - 1])
        invariant
            b <= s.len(),
            forall|k: int| b <= k < s.len() ==> is_ws(s@[k]),
        decreases b,
    {
        b = b - 1;
    }
    proof {
        lemma_trim_end_take(s@, b as int);
        if b > 0 {
            assert(!is_ws(s@.take(b as int).last()));
        } else {
            assert(s@.take(0) =~= Seq::<char>::empty());
        }
    }
    b
}

/// The text without its leading whitespace.
pub fn trimmed_start(s: &[char]) -> (r: Vec<char>)
    ensures
        r@ == trim_start(s@),
{
    let (a, _) = trim_bounds(s);
    slice_to_vec(slice_subrange(s, a, s.len()))
}

/// State of a left-to-right split of `s` at every `c`: the finished pieces
/// and the piece being collected.
pub open spec fn split_acc(s: Seq<char>, c: char) -> (Seq<Seq<char>>, Seq<char>)
    decreases s.len(),
{
    if s.len() == 0 {
        (Seq::empty(), Seq::empty())
    } else {
        let p = split_acc(s.drop_last(), c);
        if s.last() == c {
            (p.0.push(p.1), Seq::empty())
        } else {
            (p.0, p.1.push(s.last()))
        }
    }
}

/// `str::split(c)`: the pieces between the separators, empty ones included.
pub open spec fn split(s: Seq<char>, c: char) -> Seq<Seq<char>> {
    split_acc(s, c).0.push(split_acc(s, c).1)
}

/// A line without the `'\r'` that ends it, if any.
pub open spec fn strip_cr(l: Seq<char>) -> Seq<char> {
    if l.len() > 0 && l.last() == '\r' {
        l.drop_last()
    } else {
        l
    }
}

/// `str::lines`: pieces ended by `'\n'` (a `"\r\n"` ending counts as one),
/// and the final unterminated piece when it is not empty.
pub open spec fn lines(s: Seq<char>) -> Seq<Seq<char>> {
    let p = split_acc(s, '\n');
    let done = p.0.map_values(|l: Seq<char>| strip_cr(l));
    if p.1.len() > 0 {
        done.push(p.1)
    } else {
        done
    }
}

/// State of a left-to-right split of `s` into whitespace-separated words.
pub open spec fn words_acc(s: Seq<char>) -> (Seq<Seq<char>>, Seq<char>)
    decreases s.len(),
{
    if s.len() == 0 {
        (Seq::empty(), Seq::empty())
    } else {
        let p = words_acc(s.drop_last());
        if is_ws(s.last()) {
            if p.1.len() > 0 {
                (p.0.push(p.1), Seq::empty())
            } else {
                (p.0, Seq::empty())
            }
        } else {
            (p.0, p.1.push(s.last()))
        }
    }
}

/// `str::split_whitespace`: the maximal runs of non-whitespace characters.
pub open spec fn words(s: Seq<char>) -> Seq<Seq<char>> {
    let p = words_acc(s);
    if p.1.len() > 0 {
        p.0.push(p.1)
    } else {
        p.0
    }
}

proof fn lemma_views_push(v: Seq<Vec<char>>, x: Vec<char>)
    ensures
        views(v.push(x)) == views(v).push(x@),
{
    assert(views(v.push(x)) =~= views(v).push(x@));
}

/// `str::split(c)`.
pub fn split_char(s: &[char], c: char) -> (r: Vec<Vec<char>>)
    ensures
        views(r@) == split(s@, c),
{
    let mut out: Vec<Vec<char>> = Vec::new();
    let mut cur: Vec<char> = Vec::new();
    let mut i: usize = 0;
    assert(views(out@) =~= Seq::<Seq<char>>::empty());
    assert(s@.take(0) =~= Seq::<char>::empty());
    while i < s.len()
        invariant
            i <= s.len(),
            views(out@) == split_acc(s@.take(i as int), c).0,
            cur@ == split_acc(s@.take(i as int), c).1,
        decreases s.len() - i,
    {
        assert(s@.take(i + 1).drop_last() =~= s@.take(i as int));
        if s[i] == c {
            proof {
                lemma_views_push(out@, cur);
            }
            out.push(cur);
            cur = Vec::new();
        } else {
            cur.push(s[i]);
        }
        i = i + 1;
    }
    assert(s@.take(s.len() as int) =~= s@);
    proof {
        lemma_views_push(out@, cur);
    }
    out.push(cur);
    out
}

/// `str::lines`.
pub fn lines_of(s: &[char]) -> (r: Vec<Vec<char>>)
    ensures
        views(r@) == lines(s@),
{
    let mut out: Vec<Vec<char>> = Vec::new();
    let mut cur: Vec<char> = Vec::new();
    let mut i: usize = 0;
    assert(views(out@) =~= Seq::<Seq<char>>::empty());
    assert(s@.take(0) =~= Seq::<char>::empty());
    while i < s.len()
        invariant
            i <= s.len(),
            views(out@) == split_acc(s@.take(i as int), '\n').0.map_values(
                |l: Seq<char>| strip_cr(l),
            ),
            cur@ == split_acc(s@.take(i as int), '\n').1,
        decreases s.len() - i,
    {
        assert(s@.take(i + 1).drop_last() =~= s@.take(i as int));
        if s[i] == '\n' {
            let ghost before = split_acc(s@.take(i as int), '\n');
            if cur.len() > 0 && cur[cur.len() - 1] == '\r' {
                cur.pop();
            }
            proof {
                lemma_views_push(out@, cur);
                assert(before.0.push(before.1).map_values(|l: Seq<char>| strip_cr(l))
                    =~= before.0.map_values(|l: Seq<char>| strip_cr(l)).push(strip_cr(before.1)));
            }
            out.push(cur);
            cur = Vec::new();
        } else {
            cur.push(s[i]);
        }
        i = i + 1;
    }
    assert(s@.take(s.len() as int) =~= s@);
    if cur.len() > 0 {
        proof {
            lemma_views_push(out@, cur);
        }
        out.push(cur);
    }
    out
}

/// `str::split_whitespace`.
pub fn words_of(s: &[char]) -> (r: Vec<Vec<char>>)
    ensures
        views(r@) == words(s@),
{
    let mut out: Vec<Vec<char>> = Vec::new();
    let mut cur: Vec<char> = Vec::new();
    let mut i: usize = 0;
    assert(views(out@) =~= Seq::<Seq<char>>::empty());
    assert(s@.take(0) =~= Seq::<char>::empty());
    while i < s.len()
        invariant
            i <= s.len(),
            views(out@) == words_acc(s@.take(i as int)).0,
            cur@ == words_acc(s@.take(i as int)).1,
        decreases s.len() - i,
    {
        assert(s@.take(i + 1).drop_last() =~= s@.take(i as int));
        if is_whitespace(s[i]) {
            if cur.len() > 0 {
                proof {
                    lemma_views_push(out@, cur);
                }
                out.push(cur);
                cur = Vec::new();
            }
        } else {
            cur.push(s[i]);
        }
        i = i + 1;
    }
    assert(s@.take(s.len() as int) =~= s@);
    if cur.len() > 0 {
        proof {
            lemma_views_push(out@, cur);
        }
        out.push(cur);
    }
    out
}

/// The pieces joined with `sep` between neighbours.
pub open spec fn join(parts: Seq<Seq<char>>, sep: Seq<char>) -> Seq<char>
    decreases parts.len(),
{
    if parts.len() == 0 {
        Seq::empty()
    } else if parts.len() == 1 {
        parts[0]
    } else {
        join(parts.drop_last(), sep) + sep + parts.last()
    }
}

/// `[T]::join(sep)` on text pieces.
pub fn join_with(parts: &Vec<Vec<char>>, sep: &str) -> (r: Vec<char>)
    ensures
        r@ == join(views(parts@), sep@),
{
    let mut out: Vec<char> = Vec::new();
    let mut i: usize = 0;
    while i < parts.len()
        invariant
            i <= parts.len(),
            out@ == join(views(parts@).take(i as int), sep@),
        decreases parts.len() - i,
    {
        assert(views(parts@).take(i + 1).drop_last() =~= views(parts@).take(i as int));
        if i > 0 {
            push_str(&mut out, sep);
        }
        push_chars(&mut out, parts[i].as_slice());
        i = i + 1;
        assert(views(parts@).take(i as int).last() == parts@[i - 1]@);
        assert(i == 1 ==> views(parts@).take(1)[0] == parts@[0]@);
        assert(i == 1 ==> out@ =~= parts@[0]@);
    }
    assert(views(parts@).take(parts.len() as int) =~= views(parts@));
    out
}

/// The decimal digit `d`.
pub open spec fn digit_char(d: int) -> char {
    if d == 0 {
        '0'
    } else if d == 1 {
        '1'
    } else if d == 2 {
        '2'
    } else if d == 3 {
        '3'
    } else if d == 4 {
        '4'
    } else if d == 5 {
        '5'
    } else if d == 6 {
        '6'
    } else if d == 7 {
        '7'
    } else if d == 8 {
        '8'
    } else {
        '9'
    }
}

/// Decimal representation of `n`, as `n.to_string()` writes it.
pub open spec fn dec(n: nat) -> Seq<char>
    decreases n,
{
    if n < 10 {
        seq![digit_char(n as int)]
    } else {
        dec(n / 10).push(digit_char((n % 10) as int))
    }
}

fn digit(d: u64) -> (c: char)
    requires
        d < 10,
    ensures
        c == digit_char(d as int),
{
    if d == 0 {
        '0'
    } else if d == 1 {
        '1'
    } else if d == 2 {
        '2'
    } else if d == 3 {
        '3'
    } else if d == 4 {
        '4'
    } else if d == 5 {
        '5'
    } else if d == 6 {
        '6'
    } else if d == 7 {
        '7'
    } else if d == 8 {
        '8'
    } else {
        '9'
    }
}

/// `n.to_string()`.
pub fn decimal(n: u64) -> (r: Vec<char>)
    ensures
        r@ == dec(n as nat),
    decreases n,
{
    if n < 10 {
        let mut v: Vec<char> = Vec::new();
        v.push(digit(n));
        assert(v@ =~= seq![digit_char(n as int)]);
        v
    } else {
        let mut v = decimal(n / 10);
        v.push(digit(n % 10));
        v
    }
}

/// Value of a run of decimal digits.
pub open spec fn digits_value(s: Seq<char>) -> nat
    decreases s.len(),
{
    if s.len() == 0 {
        0
    } else {
        digits_value(s.drop_last()) * 10 + ((s.last() as u32) - ('0' as u32)) as nat
    }
}

pub open spec fn all_digits(s: Seq<char>) -> bool {
    forall|i: int| 0 <= i < s.len() ==> is_digit(#[trigger] s[i])
}

/// The digits that `from_str` of an unsigned integer reads: one leading `'+'`
/// is allowed.
pub open spec fn unsigned_body(s: Seq<char>) -> Seq<char> {
    if s.len() > 0 && s[0] == '+' {
        s.drop_first()
    } else {
        s
    }
}

/// `s.parse::<uN>()` where `max` is `uN::MAX`: `Some(value)` on success.
pub open spec fn parse_unsigned(s: Seq<char>, max: nat) -> Option<nat> {
    let d = unsigned_body(s);
    if d.len() > 0 && all_digits(d) && digits_value(d) <= max {
        Some(digits_value(d))
    } else {
        None
    }
}

proof fn lemma_digits_value_prefix(s: Seq<char>, i: int)
    requires
        0 <= i <= s.len(),
        all_digits(s),
    ensures
        digits_value(s.take(i)) <= digits_value(s),
    decreases s.len(),
{
    if i < s.len() {
        assert(s.drop_last().take(i) =~= s.take(i));
        assert(all_digits(s.drop_last())) by {
            assert forall|k: int| 0 <= k < s.drop_last().len() implies is_digit(
                #[trigger] s.drop_last()[k],
            ) by {
                assert(s.drop_last()[k] == s[k]);
            }
        }
        lemma_digits_value_prefix(s.drop_last(), i);
    } else {
        assert(s.take(i) =~= s);
    }
}

/// `s.parse::<uN>()` for an unsigned type whose largest value is `max`.
pub fn parse_uint(s: &[char], max: u64) -> (r: Option<u64>)
    ensures
        match r {
            Some(v) => parse_unsigned(s@, max as nat) == Some(v as nat),
            None => parse_unsigned(s@, max as nat) is None,
        },
{
    let start: usize = if s.len() > 0 && s[0] == '+' {
        1
    } else {
        0
    };
    let ghost d = unsigned_body(s@);
    assert(d =~= s@.subrange(start as int, s.len() as int));
    if start >= s.len() {
        return None;
    }
    let mut v: u64 = 0;
    let mut i: usize = start;
    while i < s.len()
        invariant
            start <= i <= s.len(),
            d =~= s@.subrange(start as int, s.len() as int),
            d == unsigned_body(s@),
            all_digits(d.take(i - start)),
            v as nat == digits_value(d.take(i - start)),
            v <= max,
        decreases s.len() - i,
    {
        let c = s[i];
        assert(d.take(i - start + 1).drop_last() =~= d.take(i - start));
        assert(d[i - start] == c);
        if !is_ascii_digit(c) {
            proof {
                let k: int = i - start;
                if all_digits(d) {
                    assert(is_digit(d[k]));
                }
            }
            return None;
        }
        let dv: u64 = (c as u32 - '0' as u32) as u64;
        if dv > max || v > (max - dv) / 10 {
            proof {
                assert(all_digits(d.take(i - start + 1)));
                assert(digits_value(d.take(i - start + 1)) == v * 10 + dv);
                if dv <= max {
                    assert(v * 10 + dv > max) by (nonlinear_arith)
                        requires
                            v > (max - dv) / 10,
                            dv <= max,
                    ;
                }
                if all_digits(d) {
                    lemma_digits_value_prefix(d, i - start + 1);
                }
            }
            return None;
        }
        assert(v * 10 + dv <= max) by (nonlinear_arith)
            requires
                v <= (max - dv) / 10,
                dv <= max,
        ;
        v = v * 10 + dv;
        i = i + 1;
        assert(all_digits(d.take(i - start))) by {
            assert forall|k: int| 0 <= k < d.take(i - start).len() implies is_digit(
                #[trigger] d.take(i - start)[k],
            ) by {
                if k < i - start - 1 {
                    assert(d.take(i - start)[k] == d.take(i - start - 1)[k]);
                }
            }
        }
    }
    assert(d.take(s.len() - start) =~= d);
    Some(v)
}

/// `char::to_ascii_lowercase` on every character.
pub fn ascii_lowercase(s: &[char]) -> (r: Vec<char>)
    ensures
        r@ == ascii_lower_seq(s@),
{
    let mut out: Vec<char> = Vec::new();
    let mut i: usize = 0;
    while i < s.len()
        invariant
            i <= s.len(),
            out@ =~= ascii_lower_seq(s@).take(i as int),
        decreases s.len() - i,
    {
        let c = s[i];
        let l = if 'A' <= c && c <= 'Z' {
            let b: u8 = (c as u32 + 32) as u8;
            b as char
        } else {
            c
        };
        out.push(l);
        i = i + 1;
    }
    out
}

/// The lowercase mapping of a string slice (`str::to_lowercase`), as the
/// Unicode tables of the standard library define it.
pub uninterp spec fn unicode_lowercase(s: Seq<char>) -> Seq<char>;

/// The lowercase mapping of one character (`char::to_lowercase`), which may
/// be several characters long.
pub uninterp spec fn unicode_char_lowercase(c: char) -> Seq<char>;

/// `str::to_lowercase` from the standard library. Its result is taken to be
/// `unicode_lowercase` of the input; of an all-ASCII text, the Unicode
/// lowercase mapping that std applies is `to_ascii_lowercase`, character by
/// character. Nothing more is stated of it.
#[verifier::external_body]
fn str_to_lowercase(s: &str) -> (r: String)
    ensures
        r@ == unicode_lowercase(s@),
        all_ascii(s@) ==> r@ == ascii_lower_seq(s@),
{
    s.to_lowercase()
}

/// `char::to_lowercase` from the standard library, collected. Its result is
/// taken to be `unicode_char_lowercase` of the input; an ASCII character
/// lowercases as `to_ascii_lowercase` does.
#[verifier::external_body]
fn char_to_lowercase(c: char) -> (r: String)
    ensures
        r@ == unicode_char_lowercase(c),
        (c as u32) < 128 ==> r@ == seq![ascii_lower(c)],
{
    c.to_lowercase().collect()
}

/// `str::to_lowercase` on a character sequence.
/// Every character is ASCII.
pub open spec fn all_ascii(s: Seq<char>) -> bool {
    forall|i: int| 0 <= i < s.len() ==> (s[i] as u32) < 128
}

pub fn lowercase(s: &[char]) -> (r: Vec<char>)
    ensures
        r@ == unicode_lowercase(s@),
        all_ascii(s@) ==> r@ == ascii_lower_seq(s@),
{
    let st = string_of(s);
    let l = str_to_lowercase(st.as_str());
    chars_of(l.as_str())
}

/// `char::to_lowercase` as a character sequence.
pub fn char_lowercase(c: char) -> (r: Vec<char>)
    ensures
        r@ == unicode_char_lowercase(c),
        (c as u32) < 128 ==> r@ == seq![ascii_lower(c)],
{
    let l = char_to_lowercase(c);
    chars_of(l.as_str())
}

/// The characters of `s` that are not whitespace, in order.
pub open spec fn strip_ws(s: Seq<char>) -> Seq<char>
    decreases s.len(),
{
    if s.len() == 0 {
        s
    } else if is_ws(s.last()) {
        strip_ws(s.drop_last())
    } else {
        strip_ws(s.drop_last()).push(s.last())
    }
}

/// Nothing `strip_ws` leaves is whitespace.
pub proof fn lemma_strip_ws_clean(s: Seq<char>)
    ensures
        forall|i: int| 0 <= i < strip_ws(s).len() ==> !is_ws(#[trigger] strip_ws(s)[i]),
    decreases s.len(),
{
    if s.len() > 0 {
        let p = s.drop_last();
        lemma_strip_ws_clean(p);
        if !is_ws(s.last()) {
            let r = strip_ws(p).push(s.last());
            assert(strip_ws(s) == r);
            assert forall|i: int| 0 <= i < r.len() implies !is_ws(#[trigger] r[i]) by {
                if i < strip_ws(p).len() {
                    assert(r[i] == strip_ws(p)[i]);
                }
            }
        } else {
            assert(strip_ws(s) == strip_ws(p));
        }
    }
}

/// Removes all whitespace characters.
pub fn without_whitespace(s: &[char]) -> (r: Vec<char>)
    ensures
        r@ == strip_ws(s@),
{
    let mut out: Vec<char> = Vec::new();
    let mut i: usize = 0;
    assert(s@.take(0) =~= Seq::<char>::empty());
    while i < s.len()
        invariant
            i <= s.len(),
            out@ == strip_ws(s@.take(i as int)),
        decreases s.len() - i,
    {
        assert(s@.take(i + 1).drop_last() =~= s@.take(i as int));
        if !is_whitespace(s[i]) {
            out.push(s[i]);
        }
        i = i + 1;
    }
    assert(s@.take(s.len() as int) =~= s@);
    out
}

/// `s` from its first decimal digit on (empty when it has none).
pub open spec fn skip_non_digits(s: Seq<char>) -> Seq<char>
    decreases s.len(),
{
    if s.len() > 0 && !is_digit(s[0]) {
        skip_non_digits(s.drop_first())
    } else {
        s
    }
}

/// The leading run of decimal digits of `s`.
pub open spec fn take_digits(s: Seq<char>) -> Seq<char>
    decreases s.len(),
{
    if s.len() > 0 && is_digit(s[0]) {
        seq![s[0]] + take_digits(s.drop_first())
    } else {
        Seq::empty()
    }
}

/// The first run of decimal digits in `s`, as
/// `chars().skip_while(not digit).take_while(digit)` yields it.
pub open spec fn first_digit_run(s: Seq<char>) -> Seq<char> {
    take_digits(skip_non_digits(s))
}

proof fn lemma_skip_non_digits(s: Seq<char>, i: int)
    requires
        0 <= i <= s.len(),
        forall|k: int| 0 <= k < i ==> !is_digit(s[k]),
    ensures
        skip_non_digits(s) == skip_non_digits(s.skip(i)),
    decreases i,
{
    if i > 0 {
        assert(s.drop_first().skip(i - 1) =~= s.skip(i));
        lemma_skip_non_digits(s.drop_first(), i - 1);
    } else {
        assert(s.skip(0) =~= s);
    }
}

proof fn lemma_take_digits(s: Seq<char>, j: int)
    requires
        0 <= j <= s.len(),
        forall|k: int| 0 <= k < j ==> is_digit(s[k]),
        j == s.len() || !is_digit(s[j]),
    ensures
        take_digits(s) == s.take(j),
    decreases j,
{
    if j > 0 {
        lemma_take_digits(s.drop_first(), j - 1);
        assert(seq![s[0]] + s.drop_first().take(j - 1) =~= s.take(j));
    } else {
        assert(s.take(0) =~= Seq::<char>::empty());
    }
}

/// The first run of decimal digits.
pub fn digit_run(s: &[char]) -> (r: Vec<char>)
    ensures
        r@ == first_digit_run(s@),
        all_digits(r@),
{
    let mut a: usize = 0;
    while a < s.len() && !is_ascii_digit(s[a])
        invariant
            a <= s.len(),
            forall|k: int| 0 <= k < a ==> !is_digit(s@[k]),
        decreases s.len() - a,
    {
        a = a + 1;
    }
    proof {
        lemma_skip_non_digits(s@, a as int);
    }
    let mut b: usize = a;
    while b < s.len() && is_ascii_digit(s[b])
        invariant
            a <= b <= s.len(),
            forall|k: int| a <= k < b ==> is_digit(s@[k]),
        decreases s.len() - b,
    {
        b = b + 1;
    }
    let r = slice_to_vec(slice_subrange(s, a, b));
    proof {
        let t = s@.skip(a as int);
        assert forall|k: int| 0 <= k < b - a implies is_digit(t[k]) by {
            assert(t[k] == s@[a + k]);
        }
        assert(b - a < t.len() ==> t[b - a] == s@[b as int]);
        lemma_take_digits(t, b - a);
        assert(t.take(b - a) =~= r@);
    }
    r
}

/// Views of a list of strings.
pub open spec fn sviews(v: Seq<String>) -> Seq<Seq<char>> {
    v.map_values(|x: String| x@)
}

proof fn lemma_sviews_push(v: Seq<String>, x: String)
    ensures
        sviews(v.push(x)) == sviews(v).push(x@),
{
    assert(sviews(v.push(x)) =~= sviews(v).push(x@));
}

/// Appends an owned copy of `s`.
pub fn push_owned(out: &mut Vec<String>, s: &str)
    ensures
        sviews(final(out)@) == sviews(old(out)@).push(s@),
{
    let o = s.to_owned();
    proof {
        lemma_sviews_push(out@, o);
    }
    out.push(o);
}

/// Appends a string made of the given characters.
pub fn push_string(out: &mut Vec<String>, cs: &[char])
    ensures
        sviews(final(out)@) == sviews(old(out)@).push(cs@),
{
    let o = string_of(cs);
    proof {
        lemma_sviews_push(out@, o);
    }
    out.push(o);
}

/// Index of the first `c` in `s` from `k` on.
pub open spec fn find_char_from(s: Seq<char>, c: char, k: int) -> Option<int>
    decreases s.len() - k,
{
    if k < 0 || k >= s.len() {
        None
    } else if s[k] == c {
        Some(k)
    } else {
        find_char_from(s, c, k + 1)
    }
}

pub proof fn lemma_find_char_bounds(s: Seq<char>, c: char, k: int)
    requires
        0 <= k,
    ensures
        find_char_from(s, c, k) matches Some(j) ==> k <= j < s.len() && s[j] == c,
    decreases s.len() - k,
{
    if k < s.len() && s[k] != c {
        lemma_find_char_bounds(s, c, k + 1);
    }
}

/// The last position at or below `k` where `n` occurs in `h`.
pub open spec fn last_occurrence_below(h: Seq<char>, n: Seq<char>, k: int) -> Option<int>
    decreases k + 1,
{
    if k < 0 {
        None
    } else if occurs_at(h, n, k) {
        Some(k)
    } else {
        last_occurrence_below(h, n, k - 1)
    }
}

/// The position of the last occurrence of `n` in `h` (`str::rfind`).
pub open spec fn rfind(h: Seq<char>, n: Seq<char>) -> Option<int> {
    last_occurrence_below(h, n, h.len() - n.len())
}

/// The first position of `c` in `s` (`str::find` of a character).
pub fn find_char(s: &[char], c: char) -> (r: Option<usize>)
    ensures
        match r {
            Some(i) => find_char_from(s@, c, 0) == Some(i as int) && i < s.len(),
            None => find_char_from(s@, c, 0) is None,
        },
{
    let mut i: usize = 0;
    while i < s.len()
        invariant
            i <= s.len(),
            find_char_from(s@, c, 0) == find_char_from(s@, c, i as int),
        decreases s.len() - i,
    {
        if s[i] == c {
            return Some(i);
        }
        i = i + 1;
    }
    None
}

/// The position of the last occurrence of `n` in `h`.
pub fn rfind_chars(h: &[char], n: &[char]) -> (r: Option<usize>)
    ensures
        match r {
            Some(i) => rfind(h@, n@) == Some(i as int) && i + n.len() <= h.len(),
            None => rfind(h@, n@) is None,
        },
{
    if n.len() > h.len() {
        return None;
    }
    let mut k: usize = h.len() - n.len();
    loop
        invariant
            k + n.len() <= h.len(),
            rfind(h@, n@) == last_occurrence_below(h@, n@, k as int),
        decreases k,
    {
        if matches_at(h, n, k) {
            return Some(k);
        }
        if k == 0 {
            assert(last_occurrence_below(h@, n@, -1) is None);
            return None;
        }
        k = k - 1;
    }
}

/// The text that `String::from_utf8_lossy` makes of the bytes: their UTF-8
/// decoding, with U+FFFD in place of each invalid sequence.
pub uninterp spec fn utf8_lossy(b: Seq<u8>) -> Seq<char>;

/// `String::from_utf8_lossy`, owned. Its result is taken to be `utf8_lossy`
/// of the bytes, and, as its documentation says, the plain decoding when the
/// bytes are valid UTF-8.
#[verifier::external_body]
pub(crate) fn from_utf8_lossy(b: &[u8]) -> (r: String)
    ensures
        r@ == utf8_lossy(b@),
        valid_utf8(b@) ==> r@ == decode_utf8(b@),
{
    String::from_utf8_lossy(b).into_owned()
}

/// What `<str as Debug>::fmt` writes for `s`: the text in double quotes,
/// each character escaped as `char::escape_debug` does.
pub uninterp spec fn str_debug(s: Seq<char>) -> Seq<char>;

/// `format!("{:?}", s)` for a string. Its result is taken to be `str_debug`
/// of the input.
#[verifier::external_body]
pub(crate) fn debug_quoted(s: &str) -> (r: String)
    ensures
        r@ == str_debug(s@),
{
    format!("{:?}", s)
}

/// The non-empty pieces of `s` between the characters equal to `c`.
pub open spec fn nonempty_pieces(ps: Seq<Seq<char>>) -> Seq<Seq<char>>
    decreases ps.len(),
{
    if ps.len() == 0 {
        Seq::empty()
    } else if ps.last().len() == 0 {
        nonempty_pieces(ps.drop_last())
    } else {
        nonempty_pieces(ps.drop_last()).push(ps.last())
    }
}

/// The characters of `s`, each replaced by its lowercase mapping
/// (`chars().flat_map(char::to_lowercase)`).
pub open spec fn lower_each(s: Seq<char>) -> Seq<char>
    decreases s.len(),
{
    if s.len() == 0 {
        Seq::empty()
    } else {
        lower_each(s.drop_last()) + unicode_char_lowercase(s.last())
    }
}

pub fn lower_each_chars(s: &[char]) -> (r: Vec<char>)
    ensures
        r@ == lower_each(s@),
{
    let mut out: Vec<char> = Vec::new();
    let mut i: usize = 0;
    assert(s@.take(0) =~= Seq::<char>::empty());
    while i < s.len()
        invariant
            i <= s.len(),
            out@ == lower_each(s@.take(i as int)),
        decreases s.len() - i,
    {
        assert(s@.take(i + 1).drop_last() =~= s@.take(i as int));
        let l = char_lowercase(s[i]);
        push_chars(&mut out, &l);
        i = i + 1;
    }
    assert(s@.take(s.len() as int) =~= s@);
    out
}

pub open spec fn is_ascii_alnum(c: char) -> bool {
    ('0' <= c && c <= '9') || ('a' <= c && c <= 'z') || ('A' <= c && c <= 'Z')
}

/// A copy of a list of strings.
pub fn copy_strings(v: &Vec<String>) -> (r: Vec<String>)
    ensures
        sviews(r@) == sviews(v@),
{
    let mut out: Vec<String> = Vec::new();
    let mut i: usize = 0;
    while i < v.len()
        invariant
            i <= v.len(),
            sviews(out@) =~= sviews(v@).take(i as int),
        decreases v.len() - i,
    {
        let s = v[i].clone();
        proof {
            lemma_sviews_push(out@, s);
        }
        out.push(s);
        i = i + 1;
    }
    assert(sviews(v@).take(v.len() as int) =~= sviews(v@));
    out
}

/// `a` comes strictly before `b` in the order of `str`: by code points,
/// a proper prefix first (the order of their UTF-8 bytes).
pub open spec fn seq_lt(a: Seq<char>, b: Seq<char>) -> bool
    decreases a.len(),
{
    if a.len() == 0 {
        b.len() > 0
    } else if b.len() == 0 {
        false
    } else if a[0] != b[0] {
        a[0] < b[0]
    } else {
        seq_lt(a.drop_first(), b.drop_first())
    }
}

/// Whether `a < b` in the order of `str`.
pub fn chars_lt(a: &[char], b: &[char]) -> (r: bool)
    ensures
        r == seq_lt(a@, b@),
{
    let mut i: usize = 0;
    assert(a@.skip(0) =~= a@);
    assert(b@.skip(0) =~= b@);
    while i < a.len() && i < b.len() && a[i] == b[i]
        invariant
            i <= a.len(),
            i <= b.len(),
            seq_lt(a@, b@) == seq_lt(a@.skip(i as int), b@.skip(i as int)),
        decreases a.len() - i,
    {
        assert(a@.skip(i as int).drop_first() =~= a@.skip(i + 1));
        assert(b@.skip(i as int).drop_first() =~= b@.skip(i + 1));
        i = i + 1;
    }
    if i == a.len() {
        i < b.len()
    } else if i == b.len() {
        false
    } else {
        a[i] < b[i]
    }
}

pub proof fn lemma_seq_lt_irreflexive(a: Seq<char>)
    ensures
        !seq_lt(a, a),
    decreases a.len(),
{
    if a.len() > 0 {
        lemma_seq_lt_irreflexive(a.drop_first());
    }
}

pub proof fn lemma_seq_lt_total(a: Seq<char>, b: Seq<char>)
    ensures
        a == b || seq_lt(a, b) || seq_lt(b, a),
        !(seq_lt(a, b) && seq_lt(b, a)),
    decreases a.len(),
{
    if a.len() > 0 && b.len() > 0 && a[0] == b[0] {
        lemma_seq_lt_total(a.drop_first(), b.drop_first());
        if a.drop_first() == b.drop_first() {
            assert(a =~= seq![a[0]] + a.drop_first());
            assert(b =~= seq![b[0]] + b.drop_first());
        }
    } else if a.len() == 0 && b.len() == 0 {
        assert(a =~= b);
    }
}

pub proof fn lemma_seq_lt_transitive(a: Seq<char>, b: Seq<char>, c: Seq<char>)
    requires
        seq_lt(a, b),
        seq_lt(b, c),
    ensures
        seq_lt(a, c),
    decreases a.len(),
{
    if a.len() > 0 && b.len() > 0 && c.len() > 0 && a[0] == b[0] && b[0] == c[0] {
        lemma_seq_lt_transitive(a.drop_first(), b.drop_first(), c.drop_first());
    }
}

/// `r` is `s` sorted in the order of `str` with duplicates removed
/// (`sort` then `dedup`): strictly increasing, with the same elements.
pub open spec fn sorted_unique_of(r: Seq<Seq<char>>, s: Seq<Seq<char>>) -> bool {
    &&& forall|i: int, j: int| 0 <= i < j < r.len() ==> seq_lt(#[trigger] r[i], #[trigger] r[j])
    &&& forall|x: Seq<char>| r.contains(x) <==> s.contains(x)
}

/// Sorts the strings and drops duplicates (`sorted_unique_of`).
pub fn sort_dedup(v: Vec<String>) -> (r: Vec<String>)
    ensures
        sorted_unique_of(sviews(r@), sviews(v@)),
{
    let mut out: Vec<String> = Vec::new();
    let mut i: usize = 0;
    while i < v.len()
        invariant
            i <= v.len(),
            sorted_unique_of(sviews(out@), sviews(v@).take(i as int)),
        decreases v.len() - i,
    {
        let x = chars_of(v[i].as_str());
        let ghost o = sviews(out@);
        let mut j: usize = 0;
        while j < out.len() && chars_lt(&chars_of(out[j].as_str()), &x)
            invariant
                j <= out@.len(),
                o == sviews(out@),
                forall|q: int| 0 <= q < j ==> seq_lt(#[trigger] o[q], x@),
            decreases out@.len() - j,
        {
            assert(o[j as int] == out@[j as int]@);
            j = j + 1;
        }
        let dup = j < out.len() && chars_eq(&chars_of(out[j].as_str()), &x);
        proof {
            if j < out@.len() {
                assert(o[j as int] == out@[j as int]@);
            }
            assert(sviews(v@).take(i + 1) =~= sviews(v@).take(i as int).push(x@));
        }
        if dup {
            proof {
                assert forall|y: Seq<char>| o.contains(y) <==> sviews(v@).take(i + 1).contains(y) by {
                    if y == x@ {
                        assert(o[j as int] == y);
                    }
                    if sviews(v@).take(i + 1).contains(y) && y != x@ {
                        let k = choose|k: int| 0 <= k < i + 1 && #[trigger] sviews(v@).take(i + 1)[k] == y;
                        assert(sviews(v@).take(i as int)[k] == y);
                    }
                    if o.contains(y) {
                        let k = choose|k: int| 0 <= k < o.len() && #[trigger] o[k] == y;
                        assert(sviews(v@).take(i as int).contains(y));
                        let m = choose|m: int| 0 <= m < i && #[trigger] sviews(v@).take(i as int)[m] == y;
                        assert(sviews(v@).take(i + 1)[m] == y);
                    }
                }
            }
        } else {
            let s = string_of(&x);
            proof {
                if j < out@.len() {
                    lemma_seq_lt_total(o[j as int], x@);
                }
            }
            out.insert(j, s);
            proof {
                let n = sviews(out@);
                assert(n =~= o.insert(j as int, x@));
                assert forall|a: int, b: int| 0 <= a < b < n.len() implies seq_lt(
                    #[trigger] n[a],
                    #[trigger] n[b],
                ) by {
                    if b == j {
                        assert(n[a] == o[a]);
                    } else if a == j {
                        assert(n[b] == o[b - 1]);
                        if b - 1 > j {
                            assert(seq_lt(o[j as int], o[b - 1]));
                            lemma_seq_lt_transitive(x@, o[j as int], o[b - 1]);
                        }
                    } else if a < j && b > j {
                        assert(n[a] == o[a]);
                        assert(n[b] == o[b - 1]);
                        assert(seq_lt(o[a], o[b - 1]));
                    } else if b < j {
                        assert(n[a] == o[a] && n[b] == o[b]);
                    } else {
                        assert(n[a] == o[a - 1] && n[b] == o[b - 1]);
                    }
                }
                assert forall|y: Seq<char>| n.contains(y) <==> sviews(v@).take(i + 1).contains(y) by {
                    let t = sviews(v@).take(i as int);
                    let t1 = sviews(v@).take(i + 1);
                    if n.contains(y) {
                        let k = choose|k: int| 0 <= k < n.len() && #[trigger] n[k] == y;
                        if k == j {
                            assert(t1[i as int] == y);
                        } else {
                            let kk = if k < j { k } else { k - 1 };
                            assert(o[kk] == y);
                            assert(o.contains(y));
                            let m = choose|m: int| 0 <= m < t.len() && #[trigger] t[m] == y;
                            assert(t1[m] == y);
                        }
                    }
                    if t1.contains(y) {
                        let k = choose|k: int| 0 <= k < t1.len() && #[trigger] t1[k] == y;
                        if k == i {
                            assert(n[j as int] == y);
                        } else {
                            assert(t[k] == y);
                            assert(t.contains(y));
                            let m = choose|m: int| 0 <= m < o.len() && #[trigger] o[m] == y;
                            if m < j {
                                assert(n[m] == y);
                            } else {
                                assert(n[m + 1] == y);
                            }
                        }
                    }
                }
            }
        }
        i = i + 1;
    }
    assert(sviews(v@).take(v.len() as int) =~= sviews(v@));
    out
}

} // verus!
