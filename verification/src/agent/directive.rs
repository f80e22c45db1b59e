//! Where the text of a log filter is cut.
//!
//! The parser of log filters looks for the places to cut in a directive without the white space
//! before it, and cuts the directive with that white space. Where characters take several bytes, a
//! cut may then fall inside of one.

use crate::text;
use crate::text::white_space;
use vstd::prelude::*;

verus! {

/// The bytes that a character takes.
pub open spec fn width(c: char) -> int {
    if (c as int) < 0x80 {
        1
    } else if (c as int) < 0x800 {
        2
    } else if (c as int) < 0x10000 {
        3
    } else {
        4
    }
}

/// The bytes that the first `k` characters take.
pub open spec fn offset(s: Seq<char>, k: int) -> int
    decreases k,
{
    if k <= 0 {
        0
    } else {
        offset(s, k - 1) + width(s[k - 1])
    }
}

/// Whether `b` bytes are some number of whole characters, from the first one on.
pub open spec fn is_boundary(s: Seq<char>, b: int) -> bool {
    exists|m: int| 0 <= m <= s.len() && #[trigger] offset(s, m) == b
}

/// The place of the first `a` or `b` from `k` on; the length where there is none.
pub open spec fn find(s: Seq<char>, k: int, a: char, b: char) -> int
    decreases s.len() - k,
{
    if k >= s.len() {
        s.len() as int
    } else if s[k] == a || s[k] == b {
        k
    } else {
        find(s, k + 1, a, b)
    }
}

/// How many characters of white space there are from `k` on.
pub open spec fn spaces(s: Seq<char>, k: int) -> int
    decreases s.len() - k,
{
    if k >= s.len() || !text::is_white_space(s[k]) {
        0
    } else {
        1 + spaces(s, k + 1)
    }
}

/// A directive without the white space before it.
pub open spec fn unspaced(p: Seq<char>) -> Seq<char> {
    p.skip(spaces(p, 0))
}

/// Where the target of a directive ends.
pub open spec fn target_end(t: Seq<char>) -> int {
    if t.len() > 0 && t[0] == '[' {
        0
    } else {
        find(t, 1, '=', '[')
    }
}

/// The cut before the level, where `k` is behind the target and the span.
pub open spec fn level_cut(t: Seq<char>, k: int) -> Seq<int> {
    if k < t.len() && t[k] == '=' {
        seq![k + 1]
    } else {
        seq![]
    }
}

/// The places at which a directive without white space before it is cut, in order. A directive is
/// a target, a span in square brackets, which may end in a field in curly brackets, and a level
/// behind an equals sign; each of the three may be left out. It is cut behind the target, around
/// the span, around the field, and before the level, as far as they are complete.
pub open spec fn cuts(t: Seq<char>) -> Seq<int> {
    let e = target_end(t);
    if e >= t.len() {
        seq![]
    } else if t[e] == '=' {
        seq![e, e + 1]
    } else {
        let f = find(t, e + 1, ']', '{');
        if f >= t.len() {
            seq![e]
        } else if t[f] == ']' {
            seq![e, e + 1, f] + level_cut(t, f + 1)
        } else {
            let g = find(t, f + 1, '}', '}');
            if g >= t.len() {
                seq![e, e + 1, f]
            } else if f + 1 < g && g + 1 < t.len() && t[g + 1] == ']' {
                seq![e, e + 1, f, f + 1, g] + level_cut(t, g + 2)
            } else {
                seq![e, e + 1, f, f + 1, g]
            }
        }
    }
}

/// Whether the cut at the place `c` of a directive without the white space before it falls between
/// characters of the directive with it.
pub open spec fn cut_fits(p: Seq<char>, c: int) -> bool {
    is_boundary(p, offset(unspaced(p), c))
}

/// The first from the cut `j` on that falls inside of a character.
pub open spec fn unfit_from(p: Seq<char>, j: int) -> Option<int>
    decreases cuts(unspaced(p)).len() - j,
{
    let all = cuts(unspaced(p));
    if j >= all.len() {
        None
    } else if !cut_fits(p, all[j]) {
        Some(j)
    } else {
        unfit_from(p, j + 1)
    }
}

/// The first cut of the directive `p` that falls inside of a character.
pub open spec fn unfit_cut(p: Seq<char>) -> Option<int> {
    unfit_from(p, 0)
}

/// A directive that is understood as `p` is up to its first cut inside of a character, and has no
/// such cut: it begins like `p`, and holds the field of `p` where that lies before the cut.
pub open spec fn before_unfit_cut(p: Seq<char>) -> Seq<char> {
    let w = spaces(p, 0);
    let t = unspaced(p);
    if unfit_cut(p) == Some(5int) {
        p.take(w + cuts(t)[4] + 1).push(']')
    } else if t[0] == '[' {
        seq![]
    } else {
        p.take(w + 1)
    }
}

/// What `find` finds.
pub(crate) proof fn find_holds(s: Seq<char>, k: int, a: char, b: char)
    requires
        0 <= k <= s.len(),
    ensures
        k <= find(s, k, a, b) <= s.len(),
        forall|m: int| k <= m < find(s, k, a, b) ==> #[trigger] s[m] != a && s[m] != b,
        find(s, k, a, b) < s.len() ==> s[find(s, k, a, b)] == a || s[find(s, k, a, b)] == b,
    decreases s.len() - k,
{
    if k < s.len() && s[k] != a && s[k] != b {
        find_holds(s, k + 1, a, b);
    }
}

/// Only one place is the first one.
pub(crate) proof fn found(s: Seq<char>, k: int, a: char, b: char, r: int)
    requires
        0 <= k <= r <= s.len(),
        forall|m: int| k <= m < r ==> #[trigger] s[m] != a && s[m] != b,
        r < s.len() ==> s[r] == a || s[r] == b,
    ensures
        find(s, k, a, b) == r,
    decreases r - k,
{
    if k < r {
        found(s, k + 1, a, b, r);
    }
}

proof fn spaces_hold(s: Seq<char>, k: int)
    requires
        0 <= k <= s.len(),
    ensures
        0 <= spaces(s, k) <= s.len() - k,
        forall|m: int| k <= m < k + spaces(s, k) ==> text::is_white_space(#[trigger] s[m]),
        k + spaces(s, k) < s.len() ==> !text::is_white_space(s[k + spaces(s, k)]),
    decreases s.len() - k,
{
    if k < s.len() && text::is_white_space(s[k]) {
        spaces_hold(s, k + 1);
    }
}

proof fn spaces_are(s: Seq<char>, k: int, n: int)
    requires
        0 <= k <= k + n <= s.len(),
        forall|m: int| k <= m < k + n ==> text::is_white_space(#[trigger] s[m]),
        k + n < s.len() ==> !text::is_white_space(s[k + n]),
    ensures
        spaces(s, k) == n,
    decreases n,
{
    if n > 0 {
        spaces_are(s, k + 1, n - 1);
    }
}

proof fn cuts_are_places(t: Seq<char>)
    ensures
        forall|j: int| 0 <= j < cuts(t).len() ==> 0 <= #[trigger] cuts(t)[j] <= t.len(),
        cuts(t).len() <= 6,
        cuts(t).len() > 0 ==> t.len() > 0,
{
    if t.len() > 0 {
        find_holds(t, 1, '=', '[');
        let e = target_end(t);
        if e < t.len() && t[e] != '=' {
            find_holds(t, e + 1, ']', '{');
            let f = find(t, e + 1, ']', '{');
            if f < t.len() {
                find_holds(t, f + 1, '}', '}');
            }
        }
    }
}

proof fn offset_grows(s: Seq<char>, a: int, b: int)
    requires
        0 <= a <= b,
    ensures
        offset(s, a) + (b - a) <= offset(s, b) <= offset(s, a) + 4 * (b - a),
    decreases b - a,
{
    if a < b {
        offset_grows(s, a, b - 1);
    }
}

proof fn offset_of_same(s: Seq<char>, r: Seq<char>, k: int)
    requires
        forall|m: int| 0 <= m < k ==> #[trigger] s[m] == r[m],
    ensures
        offset(s, k) == offset(r, k),
    decreases k,
{
    if k > 0 {
        offset_of_same(s, r, k - 1);
        assert(s[k - 1] == r[k - 1]);
    }
}

proof fn offset_of_rest(s: Seq<char>, w: int, k: int)
    requires
        0 <= w <= s.len(),
        0 <= k <= s.len() - w,
    ensures
        offset(s, w + k) == offset(s, w) + offset(s.skip(w), k),
    decreases k,
{
    if k > 0 {
        offset_of_rest(s, w, k - 1);
    }
}

proof fn unfit_holds(p: Seq<char>, j: int)
    requires
        0 <= j,
    ensures
        unfit_from(p, j) matches Some(n) ==> {
            &&& j <= n < cuts(unspaced(p)).len()
            &&& !cut_fits(p, cuts(unspaced(p))[n])
            &&& forall|i: int| j <= i < n ==> cut_fits(p, #[trigger] cuts(unspaced(p))[i])
        },
    decreases cuts(unspaced(p)).len() - j,
{
    if j < cuts(unspaced(p)).len() && cut_fits(p, cuts(unspaced(p))[j]) {
        unfit_holds(p, j + 1);
    }
}

proof fn all_fit(p: Seq<char>, j: int)
    requires
        0 <= j,
        forall|i: int|
            j <= i < cuts(unspaced(p)).len() ==> cut_fits(p, #[trigger] cuts(unspaced(p))[i]),
    ensures
        unfit_from(p, j) is None,
    decreases cuts(unspaced(p)).len() - j,
{
    if j < cuts(unspaced(p)).len() {
        all_fit(p, j + 1);
    }
}

/// A directive without white space before it, and one that is all ASCII, is only cut between its
/// characters.
pub proof fn plain_directive_fits(p: Seq<char>)
    requires
        p.len() > 0 ==> !text::is_white_space(p[0]) || forall|i: int|
            0 <= i < p.len() ==> (#[trigger] p[i] as int) < 0x80,
    ensures
        unfit_cut(p) is None,
{
    let t = unspaced(p);
    let w = spaces(p, 0);
    spaces_hold(p, 0);
    cuts_are_places(t);
    assert forall|i: int| 0 <= i < cuts(t).len() implies cut_fits(p, #[trigger] cuts(t)[i]) by {
        let c = cuts(t)[i];
        if !text::is_white_space(p[0]) {
            assert(t =~= p);
            assert(offset(p, c) == offset(t, c));
        } else {
            ascii_offset(t, c);
            ascii_offset(p, c);
            assert(offset(p, c) == offset(t, c));
        }
    }
    all_fit(p, 0);
}

proof fn ascii_offset(s: Seq<char>, k: int)
    requires
        0 <= k <= s.len(),
        forall|i: int| 0 <= i < s.len() ==> (#[trigger] s[i] as int) < 0x80,
    ensures
        offset(s, k) == k,
    decreases k,
{
    if k > 0 {
        ascii_offset(s, k - 1);
    }
}

/// What a directive is like up to its first cut inside of a character is only cut between
/// characters.
pub proof fn before_unfit_cut_fits(p: Seq<char>)
    requires
        unfit_cut(p) is Some,
    ensures
        unfit_cut(before_unfit_cut(p)) is None,
        forall|m: int|
            0 <= m < before_unfit_cut(p).len() ==> (#[trigger] before_unfit_cut(p)[m] == ']'
                || exists|n: int| 0 <= n < p.len() && p[n] == before_unfit_cut(p)[m]),
{
    let w = spaces(p, 0);
    let t = unspaced(p);
    let q = before_unfit_cut(p);
    spaces_hold(p, 0);
    cuts_are_places(t);
    unfit_holds(p, 0);
    let n = unfit_cut(p)->Some_0;
    assert(p[w] == t[0]);
    if n == 5 {
        let e = target_end(t);
        let f = find(t, e + 1, ']', '{');
        let g = find(t, f + 1, '}', '}');
        let u = t.take(g + 1).push(']');
        find_holds(t, 1, '=', '[');
        find_holds(t, e + 1, ']', '{');
        find_holds(t, f + 1, '}', '}');
        assert(cuts(t)[4] == g);
        assert forall|m: int| 0 <= m < w implies text::is_white_space(#[trigger] q[m]) by {
            assert(q[m] == p[m]);
        }
        assert(q[w] == p[w]);
        spaces_are(q, 0, w);
        assert(unspaced(q) =~= u);
        if t[0] != '[' {
            found(u, 1, '=', '[', e);
        }
        found(u, e + 1, ']', '{', f);
        found(u, f + 1, '}', '}', g);
        assert(cuts(u) =~= seq![e, e + 1, f, f + 1, g]);
        assert forall|i: int| 0 <= i < cuts(u).len() implies cut_fits(
            q,
            #[trigger] cuts(u)[i],
        ) by {
            let c = cuts(u)[i];
            assert(cuts(t)[i] == c);
            offset_of_same(t, u, c);
            let b = offset(t, c);
            let m = choose|m: int| 0 <= m <= p.len() && #[trigger] offset(p, m) == b;
            offset_of_rest(p, w, c);
            offset_grows(p, 0, w);
            offset_grows(p, w + c, w + g);
            if m > w + g {
                offset_grows(p, w + g, m);
            }
            offset_of_same(p, q, m);
            assert(offset(q, m) == b);
        }
        all_fit(q, 0);
    } else if t[0] != '[' {
        assert forall|m: int| 0 <= m < w implies text::is_white_space(#[trigger] q[m]) by {
            assert(q[m] == p[m]);
        }
        assert(q[w] == p[w]);
        spaces_are(q, 0, w);
        assert(unspaced(q) =~= seq![t[0]]);
        assert(cuts(unspaced(q)) =~= seq![]);
    } else {
        assert(unspaced(q) =~= seq![]);
    }
    assert forall|m: int| 0 <= m < q.len() implies (#[trigger] q[m] == ']' || exists|n: int|
        0 <= n < p.len() && p[n] == q[m]) by {
        if q[m] != ']' {
            assert(p[m] == q[m]);
        }
    }
}

fn char_width(c: char) -> (n: u128)
    ensures
        n == width(c),
{
    let code: u32 = c as u32;
    if code < 0x80 {
        1
    } else if code < 0x800 {
        2
    } else if code < 0x10000 {
        3
    } else {
        4
    }
}

fn byte_offset(s: &Vec<char>, k: usize) -> (b: u128)
    requires
        k <= s@.len(),
    ensures
        b == offset(s@, k as int),
{
    let mut b: u128 = 0;
    let mut i: usize = 0;
    while i < k
        invariant
            i <= k <= s@.len(),
            b == offset(s@, i as int),
            b <= 4 * i,
        decreases k - i,
    {
        b = b + char_width(s[i]);
        i += 1;
    }
    b
}

fn boundary(s: &Vec<char>, b: u128) -> (r: bool)
    ensures
        r == is_boundary(s@, b as int),
{
    let mut at: u128 = 0;
    let mut m: usize = 0;
    while m < s.len()
        invariant
            m <= s@.len(),
            at == offset(s@, m as int),
            at <= 4 * m,
            forall|n: int| 0 <= n < m ==> #[trigger] offset(s@, n) != b,
        decreases s@.len() - m,
    {
        if at == b {
            return true;
        }
        at = at + char_width(s[m]);
        m += 1;
    }
    at == b
}

/// The place of the first `a` or `b` from `k` on; the length where there is none.
pub(crate) fn find_char(s: &Vec<char>, k: usize, a: char, b: char) -> (r: usize)
    requires
        k <= s@.len(),
    ensures
        r == find(s@, k as int, a, b),
        k <= r <= s@.len(),
        forall|m: int| k <= m < r ==> #[trigger] s@[m] != a && s@[m] != b,
        r < s@.len() ==> s@[r as int] == a || s@[r as int] == b,
{
    let mut r: usize = k;
    while r < s.len()
        invariant
            k <= r <= s@.len(),
            forall|m: int| k <= m < r ==> #[trigger] s@[m] != a && s@[m] != b,
        decreases s@.len() - r,
    {
        if s[r] == a || s[r] == b {
            proof {
                found(s@, k as int, a, b, r as int);
            }
            return r;
        }
        r += 1;
    }
    proof {
        found(s@, k as int, a, b, r as int);
    }
    r
}

fn count_spaces(s: &Vec<char>) -> (n: usize)
    ensures
        n == spaces(s@, 0),
        n <= s@.len(),
{
    let mut n: usize = 0;
    while n < s.len()
        invariant
            n <= s@.len(),
            forall|m: int| 0 <= m < n ==> text::is_white_space(#[trigger] s@[m]),
        decreases s@.len() - n,
    {
        if !white_space(s[n]) {
            proof {
                spaces_are(s@, 0, n as int);
            }
            return n;
        }
        n += 1;
    }
    proof {
        spaces_are(s@, 0, n as int);
    }
    n
}

/// The characters from `i` up to `k`.
pub(crate) fn part(s: &Vec<char>, i: usize, k: usize) -> (r: Vec<char>)
    requires
        i <= k <= s@.len(),
    ensures
        r@ == s@.subrange(i as int, k as int),
{
    let mut r: Vec<char> = Vec::new();
    let mut m: usize = i;
    while m < k
        invariant
            i <= m <= k <= s@.len(),
            r@ == s@.subrange(i as int, m as int),
        decreases k - m,
    {
        r.push(s[m]);
        m += 1;
        assert(r@ =~= s@.subrange(i as int, m as int));
    }
    r
}

spec fn places(v: Seq<usize>) -> Seq<int> {
    Seq::new(v.len(), |i: int| v[i] as int)
}

fn level_place(t: &Vec<char>, k: usize, all: &mut Vec<usize>)
    requires
        k <= t@.len(),
    ensures
        places(final(all)@) == places(old(all)@) + level_cut(t@, k as int),
{
    if k < t.len() && t[k] == '=' {
        all.push(k + 1);
    }
    assert(places(all@) =~= places(old(all)@) + level_cut(t@, k as int));
}

fn cut_places(t: &Vec<char>) -> (all: Vec<usize>)
    ensures
        places(all@) == cuts(t@),
{
    let mut all: Vec<usize> = Vec::new();
    if t.len() == 0 {
        assert(places(all@) =~= cuts(t@));
        return all;
    }
    let e: usize = if t[0] == '[' {
        0
    } else {
        find_char(t, 1, '=', '[')
    };
    if e >= t.len() {
        assert(places(all@) =~= cuts(t@));
        return all;
    }
    all.push(e);
    if t[e] == '=' {
        all.push(e + 1);
        assert(places(all@) =~= cuts(t@));
        return all;
    }
    let f: usize = find_char(t, e + 1, ']', '{');
    if f >= t.len() {
        assert(places(all@) =~= cuts(t@));
        return all;
    }
    all.push(e + 1);
    all.push(f);
    if t[f] == ']' {
        assert(places(all@) =~= seq![e as int, e + 1, f as int]);
        level_place(t, f + 1, &mut all);
        return all;
    }
    let g: usize = find_char(t, f + 1, '}', '}');
    if g >= t.len() {
        assert(places(all@) =~= cuts(t@));
        return all;
    }
    all.push(f + 1);
    all.push(g);
    assert(places(all@) =~= seq![e as int, e + 1, f as int, f + 1, g as int]);
    if f + 1 < g && g + 1 < t.len() && t[g + 1] == ']' {
        level_place(t, g + 2, &mut all);
    }
    all
}

/// Where the directive `p` has a cut that falls inside of a character, a directive that is
/// understood as `p` is up to there.
pub(crate) fn up_to_unfit_cut(p: &Vec<char>) -> (r: Option<Vec<char>>)
    ensures
        match r {
            None => unfit_cut(p@) is None,
            Some(q) => unfit_cut(p@) is Some && q@ == before_unfit_cut(p@),
        },
{
    let w: usize = count_spaces(p);
    let len: usize = p.len();
    let t: Vec<char> = part(p, w, len);
    assert(t@ =~= unspaced(p@));
    let all: Vec<usize> = cut_places(&t);
    proof {
        cuts_are_places(t@);
    }
    let ghost cs = cuts(t@);
    assert forall|i: int| 0 <= i < all@.len() implies #[trigger] all@[i] == cs[i] by {
        assert(places(all@)[i] == all@[i]);
    }
    assert(all@.len() == places(all@).len());
    let mut j: usize = 0;
    while j < all.len()
        invariant
            j <= all@.len() == cs.len(),
            w == spaces(p@, 0),
            w <= p@.len() == len,
            t@ == unspaced(p@),
            t@.len() == p@.len() - w,
            cs == cuts(t@),
            forall|i: int| 0 <= i < all@.len() ==> #[trigger] all@[i] == cs[i],
            forall|i: int| 0 <= i < cs.len() ==> 0 <= #[trigger] cs[i] <= t@.len(),
            cs.len() > 0 ==> t@.len() > 0,
            unfit_cut(p@) == unfit_from(p@, j as int),
        decreases all@.len() - j,
    {
        assert(all@[j as int] == cs[j as int]);
        assert(0 <= cs[j as int] <= t@.len());
        if !boundary(p, byte_offset(&t, all[j])) {
            assert(unfit_cut(p@) == Some(j as int));
            if j == 5 {
                proof {
                    cuts_are_complete(t@);
                    assert(all@[4] == cs[4]);
                }
                let mut q: Vec<char> = part(p, 0, w + all[4] + 1);
                assert(q@ =~= p@.take(w + cs[4] + 1));
                q.push(']');
                return Some(q);
            }
            if t[0] == '[' {
                return Some(Vec::new());
            }
            let q: Vec<char> = part(p, 0, w + 1);
            assert(q@ =~= p@.take(w + 1));
            return Some(q);
        }
        j += 1;
    }
    None
}

proof fn cuts_are_complete(t: Seq<char>)
    requires
        cuts(t).len() == 6,
    ensures
        cuts(t)[4] < t.len(),
{
}

} // verus!
