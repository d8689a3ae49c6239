//! Choosing a rune page from the client's page listing: the first
//! deletable page whose name starts with a requested prefix, or, with no
//! prefix, the first deletable page that is current. Fetching the listing
//! is the caller's I/O; the choice is made here, on plain values.
use vstd::prelude::*;

use crate::text::first_where;
use crate::text::lemma_first_where;

verus! {

/// What the choice reads of one rune page.
#[derive(Debug)]
pub struct RunePageInfo {
    /// The client's id for the page.
    pub id: i64,
    /// Display name.
    pub name: String,
    /// Whether the client shows this page as the current one.
    pub current: bool,
    /// Whether the page may be replaced (preset pages may not).
    pub is_deletable: bool,
}

/// The mathematical content of a `RunePageInfo`.
#[verifier::ext_equal]
pub struct RunePageInfoView {
    pub id: i64,
    pub name: Seq<char>,
    pub current: bool,
    pub is_deletable: bool,
}

impl View for RunePageInfo {
    type V = RunePageInfoView;

    open spec fn view(&self) -> RunePageInfoView {
        RunePageInfoView {
            id: self.id,
            name: self.name@,
            current: self.current,
            is_deletable: self.is_deletable,
        }
    }
}

/// `p` is a prefix of `s`.
pub open spec fn starts_with_spec(s: Seq<char>, p: Seq<char>) -> bool {
    p.len() <= s.len() && s.take(p.len() as int) == p
}

/// The pages the choice accepts: deletable, and either named with the
/// requested prefix or current when no prefix was requested.
pub open spec fn page_pred(prefix: Option<Seq<char>>) -> spec_fn(RunePageInfoView) -> bool {
    match prefix {
        Some(p) => |pg: RunePageInfoView| pg.is_deletable && starts_with_spec(pg.name, p),
        None => |pg: RunePageInfoView| pg.is_deletable && pg.current,
    }
}

/// Whether `s` starts with `p`.
pub fn starts_with_str(s: &str, p: &str) -> (r: bool)
    ensures
        r == starts_with_spec(s@, p@),
{
    let n = s.unicode_len();
    let m = p.unicode_len();
    if m > n {
        return false;
    }
    let mut k: usize = 0;
    while k < m
        invariant
            m <= n == s@.len(),
            m == p@.len(),
            0 <= k <= m,
            forall|t: int| 0 <= t < k ==> s@[t] == p@[t],
        decreases m - k,
    {
        if s.get_char(k) != p.get_char(k) {
            proof {
                assert(s@.take(m as int)[k as int] == s@[k as int]);
            }
            return false;
        }
        k += 1;
    }
    proof {
        assert(s@.take(m as int) =~= p@);
    }
    true
}

/// Picks the index of the first acceptable page, if any.
pub fn pick_rune_page(pages: &Vec<RunePageInfo>, prefix: Option<&String>) -> (r: Option<usize>)
    ensures
        ({
            let pv = pages@.map_values(|pg: RunePageInfo| pg@);
            let pr = match prefix {
                Some(p) => Some(p@),
                None => None,
            };
            match r {
                Some(i) => first_where(pv, page_pred(pr)) == Some(i as int),
                None => first_where(pv, page_pred(pr)) is None,
            }
        }),
{
    let ghost pv = pages@.map_values(|pg: RunePageInfo| pg@);
    let ghost pr = match prefix {
        Some(p) => Some(p@),
        None => None,
    };
    let n = pages.len();
    let mut i: usize = 0;
    while i < n
        invariant
            0 <= i <= n == pages@.len(),
            pv == pages@.map_values(|pg: RunePageInfo| pg@),
            pr == (match prefix {
                Some(p) => Some(p@),
                None => None,
            }),
            forall|j: int| 0 <= j < i ==> !(page_pred(pr)(#[trigger] pv[j])),
        decreases n - i,
    {
        let page = &pages[i];
        let hit = match prefix {
            Some(p) => page.is_deletable && starts_with_str(page.name.as_str(), p.as_str()),
            None => page.is_deletable && page.current,
        };
        proof {
            assert(hit == page_pred(pr)(pv[i as int]));
        }
        if hit {
            proof {
                lemma_first_where(pv, page_pred(pr));
            }
            return Some(i);
        }
        i += 1;
    }
    proof {
        lemma_first_where(pv, page_pred(pr));
    }
    None
}

} // verus!
