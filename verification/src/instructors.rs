//! The instructor normalizer's page logic.  The review-site API is
//! paginated with a fixed page size; a page with fewer records than the
//! page size is the terminal page.  Fetching and decoding of pages is a
//! collaborator outside this crate; each decoded page is absorbed here.

use vstd::prelude::*;
use crate::types::{PlanetTerpProfessor, Professor, ProfessorM, RawProfessorM};

verus! {

/// The minimal record retained from a raw instructor record: role and
/// course list are discarded.
pub open spec fn minimized(raw: RawProfessorM) -> ProfessorM {
    ProfessorM { name: raw.name, slug: raw.slug, average_rating: raw.average_rating }
}

/// Appends one decoded page of raw instructor records to the accumulated
/// output, each reduced to its minimal fields, in page order.  Returns
/// whether this page is the terminal page: one with fewer records than
/// the page size, after which pagination must stop.
pub fn absorb_page(
    professors: &mut Vec<Professor>,
    page: Vec<PlanetTerpProfessor>,
    page_size: usize,
) -> (done: bool)
    ensures
        final(professors).deep_view() == old(professors).deep_view() + page.deep_view()
            .map_values(|r: RawProfessorM| minimized(r)),
        done == (page@.len() < page_size),
{
    let ghost page0 = page.deep_view();
    let n = page.len();
    let done = n < page_size;
    let mut rest = page;
    let mut i: usize = 0;
    while i < n
        invariant
            n == page0.len(),
            i <= n,
            rest@.len() == n - i,
            forall|t: int| 0 <= t < n - i ==> rest.deep_view()[t] == page0[i + t],
            professors.deep_view() == old(professors).deep_view() + page0.take(i as int)
                .map_values(|r: RawProfessorM| minimized(r)),
        decreases n - i,
    {
        let ghost prev = rest@;
        let ghost prev_deep = rest.deep_view();
        let raw = rest.remove(0);
        proof {
            assert(raw.deep_view() == prev_deep[0]);
            assert(raw.deep_view() == page0[i as int]);
            assert forall|t: int| 0 <= t < n - (i + 1) implies rest.deep_view()[t] == page0[
                (i + 1) + t
            ] by {
                assert(rest@[t] == prev[t + 1]);
                assert(rest.deep_view()[t] == prev_deep[t + 1]);
            }
        }
        let reduced = raw.minimize();
        proof {
            assert(reduced.deep_view() == minimized(page0[i as int]));
        }
        professors.push(reduced);
        proof {
            let f = |r: RawProfessorM| minimized(r);
            assert(professors.deep_view() =~= (old(professors).deep_view() + page0.take(
                i as int,
            ).map_values(f)).push(minimized(page0[i as int])));
            assert(professors.deep_view() =~= old(professors).deep_view() + page0.take(i + 1)
                .map_values(f));
        }
        i = i + 1;
    }
    proof {
        assert(page0.take(n as int) =~= page0);
    }
    done
}

/// The offset of the next page.  The page size is added to the current
/// offset; pagination never runs far enough to overflow the offset.
pub fn next_offset(offset: usize, page_size: usize) -> (r: usize)
    requires
        offset + page_size <= usize::MAX,
    ensures
        r == offset + page_size,
{
    offset + page_size
}

} // verus!
