//! Log filters.

use crate::agent::directive;
use crate::agent::directive::{find_char, part, up_to_unfit_cut};
use crate::text;
use crate::text::push_char;
use vstd::prelude::*;
use vstd::string::*;

verus! {

/// Where the first directive from `i` on begins that has a cut inside of a character. Directives
/// are separated by commas.
pub open spec fn unfit_directive(s: Seq<char>, i: int) -> Option<int>
    decreases s.len() - i,
{
    let k = directive_end(s, i);
    if directive::unfit_cut(s.subrange(i, k)) is Some {
        Some(i)
    } else if i <= k < s.len() {
        unfit_directive(s, k + 1)
    } else {
        None
    }
}

/// Where the directive that begins at `i` ends.
pub open spec fn directive_end(s: Seq<char>, i: int) -> int {
    directive::find(s, i, ',', ',')
}

/// Whether each directive is only cut between its characters.
pub open spec fn fits(s: Seq<char>) -> bool {
    unfit_directive(s, 0) is None
}

/// A filter that is understood as `s` is up to the first cut inside of a character: the directives
/// before that, and what its directive is like up to there. Without such a cut it is `s`.
pub open spec fn before_unfit_cut(s: Seq<char>) -> Seq<char> {
    match unfit_directive(s, 0) {
        None => s,
        Some(i) => s.take(i) + directive::before_unfit_cut(s.subrange(i, directive_end(s, i))),
    }
}

/// What `tracing_subscriber::EnvFilter::try_new` objects to in the filter `directives`, in words;
/// nothing where it accepts the filter.
pub uninterp spec fn filter_objection(directives: Seq<char>) -> Option<Seq<char>>;

/// Calls `tracing_subscriber::EnvFilter::try_new` and gives back the error's text, where there is
/// an error. Whether and what it objects to depends on the directives alone; it accepts a filter
/// without directives. It looks for places in a directive without the white space around it and
/// cuts the directive with that white space there, which fails inside a character of several
/// bytes: hence the condition. A pattern for the value of a field is compiled into an automaton;
/// that there is memory for it is taken as given.
#[verifier::external_body]
pub(crate) fn check_filter(directives: &str) -> (r: Option<String>)
    requires
        fits(directives@),
    ensures
        r.deep_view() == filter_objection(directives@),
        directives@.len() == 0 ==> r is None,
{
    match tracing_subscriber::EnvFilter::try_new(directives) {
        Ok(_) => None,
        Err(e) => Some(e.to_string()),
    }
}

/// The words against a filter that there is nothing else against up to a cut inside of a
/// character.
pub open spec fn cut_objection() -> Seq<char> {
    "white space before a directive with characters outside ASCII"@
}

/// What there is against the filter `directives`: what is objected to in it, up to a cut inside
/// of a character, and else that cut.
pub open spec fn objection_spec(directives: Seq<char>) -> Option<Seq<char>> {
    match filter_objection(before_unfit_cut(directives)) {
        Some(words) => Some(words),
        None => if fits(directives) {
            None
        } else {
            Some(cut_objection())
        },
    }
}

/// Whether a filter is in ASCII, or has no white space at the start of its directives.
pub open spec fn is_plain(s: Seq<char>) -> bool {
    ||| forall|m: int| 0 <= m < s.len() ==> (#[trigger] s[m] as int) < 0x80
    ||| forall|k: int|
        0 <= k < s.len() && directive_begins(s, k) ==> !text::is_white_space(#[trigger] s[k])
}

/// A filter in ASCII, and one without white space at the start of its directives, is only cut
/// between its characters.
pub proof fn plain_filter_fits(s: Seq<char>)
    requires
        is_plain(s),
    ensures
        fits(s),
{
    plain_directives_fit(s, 0);
}

/// Whether a directive begins at `k`.
pub open spec fn directive_begins(s: Seq<char>, k: int) -> bool {
    k == 0 || s[k - 1] == ','
}

proof fn plain_directives_fit(s: Seq<char>, i: int)
    requires
        is_plain(s),
        0 <= i <= s.len(),
        directive_begins(s, i),
    ensures
        unfit_directive(s, i) is None,
    decreases s.len() - i,
{
    directive::find_holds(s, i, ',', ',');
    let k = directive_end(s, i);
    let p = s.subrange(i, k);
    if p.len() > 0 {
        assert(p[0] == s[i]);
    }
    assert forall|m: int| 0 <= m < p.len() implies p[m] == #[trigger] s[i + m] by {}
    if p.len() > 0 && text::is_white_space(p[0]) {
        assert forall|m: int| 0 <= m < p.len() implies (#[trigger] p[m] as int) < 0x80 by {
            assert((s[i + m] as int) < 0x80);
        }
    }
    directive::plain_directive_fits(p);
    if k < s.len() {
        plain_directives_fit(s, k + 1);
    }
}

proof fn unfit_directive_holds(s: Seq<char>, q: int)
    requires
        0 <= q <= s.len(),
    ensures
        unfit_directive(s, q) matches Some(i) ==> {
            &&& q <= i <= s.len()
            &&& i <= directive_end(s, i) <= s.len()
            &&& directive::unfit_cut(s.subrange(i, directive_end(s, i))) is Some
        },
    decreases s.len() - q,
{
    directive::find_holds(s, q, ',', ',');
    let k = directive_end(s, q);
    if directive::unfit_cut(s.subrange(q, k)) is None && k < s.len() {
        unfit_directive_holds(s, k + 1);
    }
}

proof fn changed_end_fits(s: Seq<char>, q: int, i: int, end: Seq<char>)
    requires
        0 <= q <= s.len(),
        unfit_directive(s, q) == Some(i),
        directive::unfit_cut(end) is None,
        forall|m: int| 0 <= m < end.len() ==> #[trigger] end[m] != ',',
    ensures
        unfit_directive(s.take(i) + end, q) is None,
    decreases s.len() - q,
{
    let r = s.take(i) + end;
    let k = directive_end(s, q);
    unfit_directive_holds(s, q);
    directive::find_holds(s, q, ',', ',');
    if directive::unfit_cut(s.subrange(q, k)) is Some {
        directive::found(r, q, ',', ',', r.len() as int);
        assert(r.subrange(q, r.len() as int) =~= end);
    } else {
        unfit_directive_holds(s, k + 1);
        directive::found(r, q, ',', ',', k);
        assert(r.subrange(q, k) =~= s.subrange(q, k));
        changed_end_fits(s, k + 1, i, end);
    }
}

/// What a filter is like up to a cut inside of a character has no such cut.
pub proof fn before_unfit_cut_fits(s: Seq<char>)
    ensures
        fits(before_unfit_cut(s)),
{
    if let Some(i) = unfit_directive(s, 0) {
        unfit_directive_holds(s, 0);
        directive::find_holds(s, i, ',', ',');
        let p = s.subrange(i, directive_end(s, i));
        let end = directive::before_unfit_cut(p);
        directive::before_unfit_cut_fits(p);
        assert forall|m: int| 0 <= m < end.len() implies #[trigger] end[m] != ',' by {
            if end[m] != ']' {
                let n = choose|n: int| 0 <= n < p.len() && p[n] == end[m];
                assert(s[i + n] == p[n]);
            }
        }
        changed_end_fits(s, 0, i, end);
    }
}

fn characters(s: &str) -> (v: Vec<char>)
    ensures
        v@ == s@,
{
    let n: usize = s.unicode_len();
    let mut v: Vec<char> = Vec::new();
    let mut i: usize = 0;
    while i < n
        invariant
            i <= n == s@.len(),
            v@ == s@.take(i as int),
        decreases n - i,
    {
        v.push(s.get_char(i));
        i += 1;
        assert(v@ =~= s@.take(i as int));
    }
    assert(s@.take(n as int) =~= s@);
    v
}

/// Where the filter `s` has a cut inside of a character, a filter that is understood as `s` is up
/// to there.
fn up_to_unfit_directive(s: &Vec<char>) -> (r: Option<String>)
    ensures
        match r {
            None => fits(s@),
            Some(t) => !fits(s@) && t@ == before_unfit_cut(s@),
        },
{
    let mut i: usize = 0;
    loop
        invariant
            i <= s@.len(),
            unfit_directive(s@, 0) == unfit_directive(s@, i as int),
        decreases s@.len() - i,
    {
        let k: usize = find_char(s, i, ',', ',');
        let p: Vec<char> = part(s, i, k);
        if let Some(end) = up_to_unfit_cut(&p) {
            let mut t: String = String::new();
            let mut m: usize = 0;
            while m < i
                invariant
                    m <= i <= s@.len(),
                    t@ == s@.take(m as int),
                decreases i - m,
            {
                push_char(&mut t, s[m]);
                m += 1;
                assert(t@ =~= s@.take(m as int));
            }
            let ghost start = t@;
            let mut n: usize = 0;
            assert(t@ =~= start + end@.take(0));
            while n < end.len()
                invariant
                    n <= end@.len(),
                    t@ == start + end@.take(n as int),
                decreases end@.len() - n,
            {
                push_char(&mut t, end[n]);
                n += 1;
                assert(t@ =~= start + end@.take(n as int));
            }
            assert(end@.take(end@.len() as int) =~= end@);
            return Some(t);
        }
        if k >= s.len() {
            return None;
        }
        i = k + 1;
    }
}

/// What there is against the filter `directives`.
pub fn objection_to(directives: &str) -> (r: Option<String>)
    ensures
        r.deep_view() == objection_spec(directives@),
        directives@.len() == 0 ==> r is None,
{
    match up_to_unfit_directive(&characters(directives)) {
        None => check_filter(directives),
        Some(start) => {
            proof {
                before_unfit_cut_fits(directives@);
                if directives@.len() == 0 {
                    plain_filter_fits(directives@);
                }
            }
            match check_filter(start.as_str()) {
                Some(words) => Some(words),
                None => Some(
                    "white space before a directive with characters outside ASCII".to_owned(),
                ),
            }
        },
    }
}

} // verus!
