//! Installed version directories and the decision of which of them to remove.
use vstd::prelude::*;

verus! {

/// One installed version: the directory's base name, its full path, and the
/// total byte length of the regular files under it.
pub struct VersionInfo {
    pub name: String,
    pub path: String,
    pub size_bytes: u64,
}

/// Sum of the lengths.
pub open spec fn sum_lengths(ls: Seq<u64>) -> nat
    decreases ls.len(),
{
    if ls.len() == 0 {
        0
    } else {
        sum_lengths(ls.drop_last()) + ls.last() as nat
    }
}

/// Total size of a directory from the byte lengths of its regular files,
/// held at `u64::MAX` should the sum exceed it.
pub fn total_size(file_lengths: &Vec<u64>) -> (r: u64)
    ensures
        r == if sum_lengths(file_lengths@) <= u64::MAX {
            sum_lengths(file_lengths@)
        } else {
            u64::MAX as nat
        },
{
    let mut total: u64 = 0;
    let mut i: usize = 0;
    let mut capped = false;
    proof {
        assert(file_lengths@.subrange(0, 0) =~= Seq::<u64>::empty());
    }
    while i < file_lengths.len()
        invariant
            i <= file_lengths.len(),
            !capped ==> total == sum_lengths(file_lengths@.subrange(0, i as int)),
            capped ==> total == u64::MAX && sum_lengths(file_lengths@.subrange(0, i as int))
                > u64::MAX,
        decreases file_lengths.len() - i,
    {
        proof {
            assert(file_lengths@.subrange(0, i + 1).drop_last() =~= file_lengths@.subrange(
                0,
                i as int,
            ));
        }
        if !capped {
            if total <= u64::MAX - file_lengths[i] {
                total = total + file_lengths[i];
            } else {
                total = u64::MAX;
                capped = true;
            }
        }
        i = i + 1;
    }
    proof {
        assert(file_lengths@.subrange(0, i as int) =~= file_lengths@);
    }
    total
}

/// Every index but `keep`, ascending, among `n` entries.
pub open spec fn all_but(n: nat, keep: nat) -> Seq<usize> {
    Seq::new((n - 1) as nat, |i: int| if i < keep { i as usize } else { (i + 1) as usize })
}

/// Default retention: when more than one version is installed, the newest (the
/// last in natural order) is removed and every other one is kept; with one or
/// none, nothing is removed. The result holds indices into `versions`.
pub fn heuristic_deletions(versions: &Vec<VersionInfo>) -> (r: Vec<usize>)
    ensures
        r@ == if versions.len() >= 2 {
            seq![(versions.len() - 1) as usize]
        } else {
            Seq::<usize>::empty()
        },
{
    let mut r: Vec<usize> = Vec::new();
    if versions.len() >= 2 {
        r.push(versions.len() - 1);
        proof {
            assert(r@ =~= seq![(versions.len() - 1) as usize]);
        }
    }
    proof {
        if versions.len() < 2 {
            assert(r@ =~= Seq::<usize>::empty());
        }
    }
    r
}

/// Explicit retention: with a valid selection `keep`, every other version is
/// removed, in ascending order; with no selection, or one out of range,
/// nothing is removed. The result holds indices into `versions`.
pub fn explicit_deletions(versions: &Vec<VersionInfo>, keep: Option<usize>) -> (r: Vec<usize>)
    ensures
        r@ == match keep {
            Some(k) if k < versions.len() => all_but(versions.len() as nat, k as nat),
            _ => Seq::<usize>::empty(),
        },
{
    let mut r: Vec<usize> = Vec::new();
    match keep {
        Some(k) => {
            if k < versions.len() {
                let n = versions.len();
                let mut i: usize = 0;
                while i < n
                    invariant
                        n == versions.len(),
                        k < n,
                        i <= n,
                        r@ =~= Seq::new(
                            (if i <= k { i } else { (i - 1) as usize }) as nat,
                            |t: int| if t < k { t as usize } else { (t + 1) as usize },
                        ),
                    decreases n - i,
                {
                    if i != k {
                        r.push(i);
                    }
                    i = i + 1;
                }
            }
        },
        None => {},
    }
    r
}

/// The paths of the versions at `picks`, in the order of `picks`.
pub fn paths_at(versions: &Vec<VersionInfo>, picks: &Vec<usize>) -> (r: Vec<String>)
    requires
        forall|i: int| 0 <= i < picks.len() ==> #[trigger] picks@[i] < versions.len(),
    ensures
        r.len() == picks.len(),
        forall|i: int| 0 <= i < picks.len() ==> #[trigger] r@[i]@ == versions@[picks@[i] as int].path@,
{
    let mut r: Vec<String> = Vec::new();
    let mut i: usize = 0;
    while i < picks.len()
        invariant
            i <= picks.len(),
            r.len() == i,
            forall|t: int| 0 <= t < picks.len() ==> #[trigger] picks@[t] < versions.len(),
            forall|t: int| 0 <= t < i ==> #[trigger] r@[t]@ == versions@[picks@[t] as int].path@,
        decreases picks.len() - i,
    {
        let p = versions[picks[i]].path.clone();
        r.push(p);
        i = i + 1;
    }
    r
}

} // verus!
