//! Natural ("human") ordering of version names, as the `human-sort` crate
//! computes it, and a stable sort of scanned versions by that order.
use vstd::prelude::*;
use std::cmp::Ordering;
use crate::versions::VersionInfo;

verus! {

/// What `human_sort::compare` returns for two strings.
pub uninterp spec fn human_order(a: Seq<char>, b: Seq<char>) -> Ordering;

/// The ordering seen from the other side.
pub open spec fn flipped(o: Ordering) -> Ordering {
    match o {
        Ordering::Less => Ordering::Greater,
        Ordering::Equal => Ordering::Equal,
        Ordering::Greater => Ordering::Less,
    }
}

pub open spec fn is_ascii_digit(c: char) -> bool {
    '0' <= c && c <= '9'
}

/// Value of the run of ASCII digits that ends just before index `j`
/// (zero where `s[j - 1]` is no digit).
pub open spec fn run_value(s: Seq<char>, j: int) -> nat
    decreases j,
{
    if j <= 0 || j > s.len() || !is_ascii_digit(s[j - 1]) {
        0
    } else {
        run_value(s, j - 1) * 10 + ((s[j - 1] as u32 - '0' as u32) as nat)
    }
}

/// Every run of ASCII digits in `s` has a value that fits in a `u32`, the
/// accumulator `human_sort::compare` reads numbers into.
pub open spec fn digit_runs_fit(s: Seq<char>) -> bool {
    forall|j: int| 0 <= j <= s.len() ==> #[trigger] run_value(s, j) <= u32::MAX
}

/// Relies on `human_sort::compare` (human-sort 0.2.2): its result depends on
/// the two strings alone, and swapping them reverses it (each branch of its
/// comparison loop, and its fallback `str::cmp`, is symmetric). It reads digit
/// runs into a `u32` with unchecked arithmetic, so runs that do not fit are
/// left out.
#[verifier::external_body]
fn natural_compare(a: &str, b: &str) -> (r: Ordering)
    requires
        digit_runs_fit(a@),
        digit_runs_fit(b@),
    ensures
        r == human_order(a@, b@),
        human_order(b@, a@) == flipped(r),
{
    human_sort::compare(a, b)
}

/// Whether every run of ASCII digits in `s` fits in a `u32`, so that `s` can
/// be compared in natural order.
pub fn fits_natural_order(s: &str) -> (r: bool)
    ensures
        r == digit_runs_fit(s@),
{
    let n = s.unicode_len();
    let mut v: u64 = 0;
    let mut i: usize = 0;
    while i < n
        invariant
            n == s@.len(),
            i <= n,
            v == run_value(s@, i as int),
            forall|j: int| 0 <= j <= i ==> #[trigger] run_value(s@, j) <= u32::MAX,
        decreases n - i,
    {
        let c = s.get_char(i);
        if '0' <= c && c <= '9' {
            v = v * 10 + (c as u32 - '0' as u32) as u64;
            proof {
                assert(run_value(s@, i + 1) == v);
            }
            if v > 4294967295 {
                return false;
            }
        } else {
            v = 0;
            proof {
                assert(run_value(s@, i + 1) == 0);
            }
        }
        i = i + 1;
    }
    true
}

/// The name at `i` does not order after the name at `i + 1`.
pub open spec fn in_order_at(vs: Seq<VersionInfo>, i: int) -> bool {
    human_order(vs[i].name@, vs[i + 1].name@) != Ordering::Greater
}

/// Adjacent versions are in natural order of their names.
pub open spec fn names_in_order(vs: Seq<VersionInfo>) -> bool {
    forall|i: int| 0 <= i < vs.len() - 1 ==> #[trigger] in_order_at(vs, i)
}

pub open spec fn all_names_fit(vs: Seq<VersionInfo>) -> bool {
    forall|i: int| 0 <= i < vs.len() ==> digit_runs_fit(#[trigger] vs[i].name@)
}

proof fn lemma_insert_to_multiset<A>(s: Seq<A>, j: int, x: A)
    requires
        0 <= j <= s.len(),
    ensures
        s.insert(j, x).to_multiset() =~= s.to_multiset().insert(x),
{
    broadcast use vstd::seq_lib::group_to_multiset_ensures;

    let t = s.insert(j, x);
    assert(t.remove(j) =~= s);
    assert(t[j] == x);
    assert(t.contains(x));
}

/// Inserts `x` after every version whose name does not order after it.
fn insert_in_order(out: &mut Vec<VersionInfo>, x: VersionInfo)
    requires
        names_in_order(old(out)@),
        all_names_fit(old(out)@),
        digit_runs_fit(x.name@),
    ensures
        final(out)@.to_multiset() == old(out)@.to_multiset().insert(x),
        names_in_order(final(out)@),
        all_names_fit(final(out)@),
{
    let mut j: usize = out.len();
    while j > 0 && matches!(
        natural_compare(out[j - 1].name.as_str(), x.name.as_str()),
        Ordering::Greater
    )
        invariant
            j <= out.len(),
            out@ == old(out)@,
            names_in_order(out@),
            all_names_fit(out@),
            digit_runs_fit(x.name@),
            forall|t: int|
                j <= t < out.len() ==> human_order(#[trigger] out@[t].name@, x.name@)
                    == Ordering::Greater,
            forall|t: int|
                j <= t < out.len() ==> human_order(x.name@, #[trigger] out@[t].name@)
                    == Ordering::Less,
        decreases j,
    {
        j = j - 1;
    }
    proof {
        if j > 0 {
            assert(human_order(out@[j - 1].name@, x.name@) != Ordering::Greater);
        }
        if j < out.len() {
            assert(human_order(out@[j as int].name@, x.name@) == Ordering::Greater);
        }
    }
    let ghost old_out = out@;
    out.insert(j, x);
    proof {
        lemma_insert_to_multiset(old_out, j as int, x);
        assert forall|i: int| 0 <= i < out@.len() - 1 implies #[trigger] in_order_at(
            out@,
            i,
        ) by {
            if i < j - 1 {
                assert(out@[i] == old_out[i] && out@[i + 1] == old_out[i + 1]);
                assert(in_order_at(old_out, i));
            } else if i == j - 1 {
            } else if i == j {
                assert(out@[i + 1] == old_out[j as int]);
            } else {
                assert(out@[i] == old_out[i - 1] && out@[i + 1] == old_out[i]);
                assert(in_order_at(old_out, i - 1));
            }
        }
        assert forall|i: int| 0 <= i < out@.len() implies digit_runs_fit(
            #[trigger] out@[i].name@,
        ) by {
            if i < j {
                assert(out@[i] == old_out[i]);
            } else if i > j {
                assert(out@[i] == old_out[i - 1]);
            }
        }
    }
}

/// Sorts scanned versions ascending by natural order of their names: the
/// result holds the same versions, and no name orders after the next one.
pub fn sort_versions(versions: Vec<VersionInfo>) -> (r: Vec<VersionInfo>)
    requires
        all_names_fit(versions@),
    ensures
        r@.to_multiset() == versions@.to_multiset(),
        names_in_order(r@),
{
    let ghost input = versions@;
    let mut rest = versions;
    let mut out: Vec<VersionInfo> = Vec::new();
    proof {
        assert(input.subrange(0, 0) =~= Seq::<VersionInfo>::empty());
        assert(input.subrange(0, input.len() as int) =~= input);
    }
    while rest.len() > 0
        invariant
            rest.len() <= input.len(),
            rest@ == input.subrange(input.len() - rest.len(), input.len() as int),
            out@.to_multiset() == input.subrange(0, input.len() - rest.len()).to_multiset(),
            names_in_order(out@),
            all_names_fit(input),
            all_names_fit(out@),
        decreases rest.len(),
    {
        let ghost k = input.len() - rest.len();
        let ghost old_rest = rest@;
        let x = rest.remove(0);
        proof {
            assert(x == old_rest[0]);
            assert(rest@ =~= input.subrange(k + 1, input.len() as int));
            assert(input.subrange(0, k + 1) =~= input.subrange(0, k).push(x));
        }
        let ghost before = out@;
        insert_in_order(&mut out, x);
        proof {
            let pre = input.subrange(0, k);
            pre.to_multiset_ensures();
            assert(pre.push(x).to_multiset() =~= pre.to_multiset().insert(x));
            assert(input.subrange(0, k + 1) == pre.push(x));
            assert(input.len() - rest.len() == k + 1);
        }
    }
    out
}

} // verus!
