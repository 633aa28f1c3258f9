//! The inactivity filter: which accounts lie beyond the retention window.

use vstd::prelude::*;
use crate::account::{Account, AccountView, views};

verus! {

/// Length of the retention window, 90 days, in milliseconds.
pub const RETENTION_WINDOW_MILLIS: i64 = 90 * 24 * 60 * 60 * 1000;

/// The instant, in milliseconds since the Unix epoch, that a timestamp
/// text denotes, or nothing where the text is not a valid RFC 3339
/// date-and-time.  The value depends on the characters alone.
pub uninterp spec fn rfc3339_millis(s: Seq<char>) -> Option<int>;

/// Relies on chrono's `DateTime::parse_from_rfc3339` and
/// `timestamp_millis`: whether a text parses as an RFC 3339 timestamp,
/// and the instant it denotes, are functions of the characters alone.
#[verifier::external_body]
fn parse_rfc3339_millis(s: &str) -> (r: Option<i64>)
    ensures
        match r {
            Some(m) => rfc3339_millis(s@) == Some(m as int),
            None => rfc3339_millis(s@) is None,
        },
{
    match chrono::DateTime::parse_from_rfc3339(s) {
        Ok(t) => Some(t.timestamp_millis()),
        Err(_) => None,
    }
}

/// The cutoff instant: the reference clock minus the retention window.
/// The clock is a parameter so that boundary decisions are reproducible.
pub fn cutoff_millis(now_millis: i64) -> (c: i64)
    requires
        now_millis - RETENTION_WINDOW_MILLIS >= i64::MIN,
    ensures
        c == now_millis - RETENTION_WINDOW_MILLIS,
{
    now_millis - RETENTION_WINDOW_MILLIS
}

/// An account counts as inactive exactly when its timestamp text is
/// present, parses, and denotes an instant strictly before the cutoff.
/// A missing or unparseable timestamp is never old.
pub open spec fn is_inactive(a: AccountView, cutoff: int) -> bool {
    match a.last_activity_at {
        Some(s) => match rfc3339_millis(s) {
            Some(t) => t < cutoff,
            None => false,
        },
        None => false,
    }
}

/// The subsequence of inactive accounts, in input order.
pub open spec fn filter_inactive(s: Seq<AccountView>, cutoff: int) -> Seq<AccountView>
    decreases s.len(),
{
    if s.len() == 0 {
        Seq::empty()
    } else {
        (if is_inactive(s.first(), cutoff) {
            seq![s.first()]
        } else {
            Seq::empty()
        }) + filter_inactive(s.drop_first(), cutoff)
    }
}

/// Keeps exactly the accounts whose last-activity timestamp parses and
/// lies strictly before the cutoff, preserving input order and
/// multiplicity.
pub fn filter_old_inactive_accounts(accounts: &Vec<Account>, cutoff: i64) -> (r: Vec<Account>)
    ensures
        views(r@) == filter_inactive(views(accounts@), cutoff as int),
{
    let ghost vs = views(accounts@);
    let n = accounts.len();
    let mut r: Vec<Account> = Vec::new();
    let mut i: usize = 0;
    proof {
        assert(vs.skip(0) == vs);
        assert(views(r@) =~= Seq::<AccountView>::empty());
    }
    while i < n
        invariant
            0 <= i <= n,
            n == accounts@.len(),
            vs == views(accounts@),
            filter_inactive(vs, cutoff as int) == views(r@) + filter_inactive(
                vs.skip(i as int),
                cutoff as int,
            ),
        decreases n - i,
    {
        proof {
            let rest = vs.skip(i as int);
            assert(rest.first() == vs[i as int]);
            assert(rest.drop_first() == vs.skip(i as int + 1));
            assert(vs[i as int] == accounts@[i as int]@);
        }
        let a = &accounts[i];
        let old_enough = match &a.last_activity_at {
            Some(s) => match parse_rfc3339_millis(s.as_str()) {
                Some(t) => t < cutoff,
                None => false,
            },
            None => false,
        };
        if old_enough {
            let ghost prev = r@;
            r.push(a.clone());
            proof {
                assert(views(r@) =~= views(prev).push(accounts@[i as int]@));
                assert(views(prev).push(accounts@[i as int]@) =~= views(prev) + seq![
                    vs[i as int],
                ]);
            }
        }
        i = i + 1;
    }
    proof {
        assert(vs.skip(i as int).len() == 0);
        assert(filter_inactive(vs.skip(i as int), cutoff as int) =~= Seq::<AccountView>::empty());
        assert(views(r@) + Seq::<AccountView>::empty() =~= views(r@));
    }
    r
}

/// Law: an account appears in the filter's output exactly when it
/// appears in the input and is inactive — its timestamp parses to an
/// instant strictly before the cutoff.  In particular an account whose
/// timestamp is missing, unparseable, or at or after the cutoff never
/// appears.
pub proof fn lemma_filter_membership(s: Seq<AccountView>, cutoff: int, a: AccountView)
    ensures
        filter_inactive(s, cutoff).contains(a) <==> (s.contains(a) && is_inactive(a, cutoff)),
    decreases s.len(),
{
    if s.len() == 0 {
        assert(!filter_inactive(s, cutoff).contains(a));
        assert(!s.contains(a));
    } else {
        lemma_filter_membership(s.drop_first(), cutoff, a);
        let head = if is_inactive(s.first(), cutoff) {
            seq![s.first()]
        } else {
            Seq::<AccountView>::empty()
        };
        assert(filter_inactive(s, cutoff) == head + filter_inactive(s.drop_first(), cutoff));
        lemma_contains_concat(head, filter_inactive(s.drop_first(), cutoff), a);
        assert(head.contains(a) <==> (is_inactive(s.first(), cutoff) && a == s.first())) by {
            if is_inactive(s.first(), cutoff) {
                assert(seq![s.first()][0] == s.first());
                if head.contains(a) {
                    let i = choose|i: int| 0 <= i < head.len() && head[i] == a;
                    assert(a == s.first());
                }
                if a == s.first() {
                    assert(head.contains(a));
                }
            }
        }
        assert(s.contains(a) <==> (s.first() == a || s.drop_first().contains(a))) by {
            if s.contains(a) {
                let i = choose|i: int| 0 <= i < s.len() && s[i] == a;
                if i > 0 {
                    assert(s.drop_first()[i - 1] == a);
                }
            }
            if s.drop_first().contains(a) {
                let i = choose|i: int| 0 <= i < s.drop_first().len() && s.drop_first()[i] == a;
                assert(s[i + 1] == a);
            }
        }
    }
}

/// An element lies in a concatenation exactly when it lies in one part.
proof fn lemma_contains_concat(u: Seq<AccountView>, v: Seq<AccountView>, a: AccountView)
    ensures
        (u + v).contains(a) <==> (u.contains(a) || v.contains(a)),
{
    if u.contains(a) {
        let i = choose|i: int| 0 <= i < u.len() && u[i] == a;
        assert((u + v)[i] == a);
    }
    if v.contains(a) {
        let i = choose|i: int| 0 <= i < v.len() && v[i] == a;
        assert((u + v)[u.len() + i] == a);
    }
    if (u + v).contains(a) {
        let i = choose|i: int| 0 <= i < (u + v).len() && (u + v)[i] == a;
        if i < u.len() {
            assert(u[i] == a);
        } else {
            assert(v[i - u.len()] == a);
        }
    }
}

/// Law: the filter distributes over concatenation of inputs.  With
/// `lemma_filter_singleton` this pins the output down completely: it
/// keeps the input's relative order and multiplicity, deduplicating and
/// reordering nothing.
pub proof fn lemma_filter_ordered(u: Seq<AccountView>, v: Seq<AccountView>, cutoff: int)
    ensures
        filter_inactive(u + v, cutoff) == filter_inactive(u, cutoff) + filter_inactive(v, cutoff),
    decreases u.len(),
{
    if u.len() == 0 {
        assert(u + v =~= v);
        assert(filter_inactive(u, cutoff) + filter_inactive(v, cutoff) =~= filter_inactive(
            v,
            cutoff,
        ));
    } else {
        assert((u + v).first() == u.first());
        assert((u + v).drop_first() =~= u.drop_first() + v);
        lemma_filter_ordered(u.drop_first(), v, cutoff);
        assert((if is_inactive(u.first(), cutoff) {
            seq![u.first()]
        } else {
            Seq::<AccountView>::empty()
        }) + (filter_inactive(u.drop_first(), cutoff) + filter_inactive(v, cutoff))
            =~= filter_inactive(u, cutoff) + filter_inactive(v, cutoff));
    }
}

/// Law: on a single account the filter keeps it or drops it by
/// `is_inactive` alone.
pub proof fn lemma_filter_singleton(a: AccountView, cutoff: int)
    ensures
        filter_inactive(seq![a], cutoff) == (if is_inactive(a, cutoff) {
            seq![a]
        } else {
            Seq::<AccountView>::empty()
        }),
{
    assert(seq![a].drop_first() =~= Seq::<AccountView>::empty());
    assert(filter_inactive(seq![a].drop_first(), cutoff) =~= Seq::<AccountView>::empty());
    assert(filter_inactive(seq![a], cutoff) =~= (if is_inactive(a, cutoff) {
        seq![a]
    } else {
        Seq::<AccountView>::empty()
    }));
}

} // verus!
