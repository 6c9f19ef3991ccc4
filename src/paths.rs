//! Base names of version paths, and the fixed places the protection run writes.
use vstd::prelude::*;

verus! {

pub open spec fn is_sep(c: char) -> bool {
    c == '/' || c == '\\'
}

/// `p` without trailing path separators.
pub open spec fn trim_seps(p: Seq<char>) -> Seq<char>
    decreases p.len(),
{
    if p.len() > 0 && is_sep(p.last()) {
        trim_seps(p.drop_last())
    } else {
        p
    }
}

/// The part of `p` after its last separator (all of `p` when it has none).
pub open spec fn after_last_sep(p: Seq<char>) -> Seq<char>
    decreases p.len(),
{
    if p.len() == 0 {
        p
    } else if is_sep(p.last()) {
        Seq::<char>::empty()
    } else {
        after_last_sep(p.drop_last()).push(p.last())
    }
}

/// The last component of a path written with `/` or `\` separators, trailing
/// separators ignored.
pub open spec fn base_name(p: Seq<char>) -> Seq<char> {
    after_last_sep(trim_seps(p))
}

/// The last component of `path`, trailing separators ignored.
pub fn base_name_of(path: &str) -> (r: String)
    ensures
        r@ == base_name(path@),
{
    let n = path.unicode_len();
    let mut b: usize = n;
    proof {
        assert(path@.subrange(0, n as int) =~= path@);
    }
    while b > 0 && (path.get_char(b - 1) == '/' || path.get_char(b - 1) == '\\')
        invariant
            n == path@.len(),
            b <= n,
            trim_seps(path@) == trim_seps(path@.subrange(0, b as int)),
        decreases b,
    {
        proof {
            assert(path@.subrange(0, b as int).drop_last() =~= path@.subrange(0, b - 1));
        }
        b = b - 1;
    }
    let ghost t = path@.subrange(0, b as int);
    proof {
        assert(trim_seps(path@) == t);
    }
    let mut a: usize = b;
    proof {
        assert(t.subrange(b as int, b as int) =~= Seq::<char>::empty());
        assert(t.subrange(0, b as int) =~= t);
        assert(after_last_sep(t) + Seq::<char>::empty() =~= after_last_sep(t));
    }
    while a > 0 && !(path.get_char(a - 1) == '/' || path.get_char(a - 1) == '\\')
        invariant
            n == path@.len(),
            a <= b <= n,
            t == path@.subrange(0, b as int),
            after_last_sep(t) == after_last_sep(t.subrange(0, a as int)) + t.subrange(
                a as int,
                b as int,
            ),
        decreases a,
    {
        proof {
            let u = t.subrange(0, a as int);
            assert(u.drop_last() =~= t.subrange(0, a - 1));
            assert(after_last_sep(u) == after_last_sep(t.subrange(0, a - 1)).push(u.last()));
            assert(after_last_sep(t.subrange(0, a - 1)).push(u.last()) + t.subrange(
                a as int,
                b as int,
            ) =~= after_last_sep(t.subrange(0, a - 1)) + t.subrange(a - 1, b as int));
        }
        a = a - 1;
    }
    proof {
        let u = t.subrange(0, a as int);
        if a > 0 {
            assert(is_sep(u.last()));
        }
        assert(after_last_sep(u) =~= Seq::<char>::empty());
        assert(after_last_sep(t) =~= t.subrange(a as int, b as int));
    }
    String::from_str(path.substring_char(a, b))
}

} // verus!
