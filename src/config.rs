//! The `last_version` rewrite of the line-oriented configuration file.
use vstd::prelude::*;
use crate::text::{
    join_lines, join_with_newlines, lemma_lines_read_back, lemma_lines_of_no_newline, lines_of,
    no_newline, reads_back, split_lines, trim, trim_bounds, trim_end, trim_start,
};

verus! {

/// The key whose lines are rewritten.
pub open spec fn version_key() -> Seq<char> {
    "last_version"@
}

/// The line that every key line becomes.
pub open spec fn locked_line() -> Seq<char> {
    "last_version=1.0.0.0"@
}

/// A line whose trimmed form starts with the key.
pub open spec fn is_key_line(l: Seq<char>) -> bool {
    version_key().is_prefix_of(trim(l))
}

pub open spec fn has_key_line(ls: Seq<Seq<char>>) -> bool {
    exists|i: int| 0 <= i < ls.len() && is_key_line(#[trigger] ls[i])
}

/// A key line becomes the locked line; any other line stays as it is.
pub open spec fn lock_line(l: Seq<char>) -> Seq<char> {
    if is_key_line(l) {
        locked_line()
    } else {
        l
    }
}

/// Every key line replaced in place by the locked line; the locked line appended
/// when there was none.
pub open spec fn locked_lines(ls: Seq<Seq<char>>) -> Seq<Seq<char>> {
    let mapped = ls.map_values(|l: Seq<char>| lock_line(l));
    if has_key_line(ls) {
        mapped
    } else {
        mapped.push(locked_line())
    }
}

/// The file's new text for its current text `s`.
pub open spec fn rewritten_config(s: Seq<char>) -> Seq<char> {
    join_lines(locked_lines(lines_of(s)))
}

/// Whether the trimmed line starts with `last_version`.
pub fn key_line(line: &str) -> (r: bool)
    ensures
        r == is_key_line(line@),
{
    let (a, b) = trim_bounds(line);
    let key = "last_version";
    proof {
        reveal_strlit("last_version");
    }
    if b - a < 12 {
        return false;
    }
    let mut k: usize = 0;
    while k < 12
        invariant
            a <= b <= line@.len(),
            b - a >= 12,
            k <= 12,
            key@ == version_key(),
            key@.len() == 12,
            line@.subrange(a as int, b as int) == trim(line@),
            forall|j: int| 0 <= j < k ==> line@[a + j] == key@[j],
        decreases 12 - k,
    {
        if line.get_char(a + k) != key.get_char(k) {
            return false;
        }
        k = k + 1;
    }
    proof {
        assert(version_key() =~= trim(line@).subrange(0, 12));
    }
    true
}

/// The lines with every key line replaced by `last_version=1.0.0.0`, and that
/// line appended when none was there.
pub fn lock_config_lines(lines: &Vec<String>) -> (r: Vec<String>)
    ensures
        r.deep_view() == locked_lines(lines.deep_view()),
{
    let ghost src = lines.deep_view();
    let mut out: Vec<String> = Vec::new();
    let mut found = false;
    let mut i: usize = 0;
    while i < lines.len()
        invariant
            i <= lines.len(),
            src == lines.deep_view(),
            out.deep_view() == src.subrange(0, i as int).map_values(|l: Seq<char>| lock_line(l)),
            found == has_key_line(src.subrange(0, i as int)),
        decreases lines.len() - i,
    {
        let ghost before = out.deep_view();
        let is_key = key_line(lines[i].as_str());
        let item = if is_key {
            found = true;
            let l = String::from_str("last_version=1.0.0.0");
            proof {
                assert(l@ == locked_line());
            }
            l
        } else {
            let l = lines[i].clone();
            proof {
                assert(l@ == lines@[i as int]@);
            }
            l
        };
        out.push(item);
        proof {
            assert(src[i as int] == lines@[i as int]@);
            assert(item@ == lock_line(src[i as int]));
            assert(out.deep_view() =~= before.push(item@));
            assert(src.subrange(0, i + 1) =~= src.subrange(0, i as int).push(src[i as int]));
            assert(out.deep_view() =~= src.subrange(0, i + 1).map_values(|l: Seq<char>| lock_line(l)));
            if is_key_line(src[i as int]) {
                assert(src.subrange(0, i + 1)[i as int] == src[i as int]);
            } else if found {
                let w = choose|w: int| 0 <= w < i && is_key_line(src.subrange(0, i as int)[w]);
                assert(src.subrange(0, i + 1)[w] == src.subrange(0, i as int)[w]);
            } else {
                assert forall|w: int| 0 <= w < i + 1 implies !is_key_line(
                    #[trigger] src.subrange(0, i + 1)[w],
                ) by {
                    if w < i {
                        assert(src.subrange(0, i + 1)[w] == src.subrange(0, i as int)[w]);
                    }
                }
            }
        }
        i = i + 1;
    }
    proof {
        assert(src.subrange(0, i as int) =~= src);
    }
    if !found {
        let ghost before = out.deep_view();
        let tail = String::from_str("last_version=1.0.0.0");
        out.push(tail);
        proof {
            assert(out.deep_view() =~= before.push(tail@));
        }
    }
    out
}

/// The configuration text after locking: split into lines, each key line
/// rewritten (or the locked line appended), joined by newlines.
pub fn rewrite_config(content: &str) -> (r: String)
    ensures
        r@ == rewritten_config(content@),
{
    let lines = split_lines(content);
    let locked = lock_config_lines(&lines);
    join_with_newlines(&locked)
}

proof fn lemma_locked_line_is_key_line()
    ensures
        is_key_line(locked_line()),
        no_newline(locked_line()),
{
    reveal_strlit("last_version=1.0.0.0");
    reveal_strlit("last_version");
    let l = locked_line();
    assert(trim_start(l) == l);
    assert(trim_end(l) == l);
    assert(version_key() =~= trim(l).subrange(0, 12));
}

proof fn lemma_locked_lines_stable(ls: Seq<Seq<char>>)
    ensures
        locked_lines(locked_lines(ls)) == locked_lines(ls),
        (forall|i: int| 0 <= i < ls.len() ==> no_newline(#[trigger] ls[i])) ==> (forall|i: int|
            0 <= i < locked_lines(ls).len() ==> no_newline(#[trigger] locked_lines(ls)[i])),
{
    lemma_locked_line_is_key_line();
    let r = locked_lines(ls);
    assert forall|i: int| 0 <= i < r.len() implies lock_line(#[trigger] r[i]) == r[i] by {}
    assert(r.map_values(|l: Seq<char>| lock_line(l)) =~= r);
    if has_key_line(ls) {
        let w = choose|w: int| 0 <= w < ls.len() && is_key_line(#[trigger] ls[w]);
        assert(is_key_line(r[w]));
    } else {
        assert(is_key_line(r[r.len() - 1]));
    }
}

/// Rewriting the configuration a second time gives the same text as rewriting it
/// once, for every text whose rewritten lines read back as themselves: no line
/// but the last ends in a carriage return, and the last line is not empty.
pub proof fn lemma_rewrite_idempotent(s: Seq<char>)
    requires
        reads_back(locked_lines(lines_of(s))),
    ensures
        rewritten_config(rewritten_config(s)) == rewritten_config(s),
{
    let r = locked_lines(lines_of(s));
    lemma_lines_of_no_newline(s);
    lemma_locked_lines_stable(lines_of(s));
    lemma_lines_read_back(r);
    lemma_locked_lines_stable(r);
}

/// The number of key lines in `ls`.
pub open spec fn key_line_count(ls: Seq<Seq<char>>) -> nat
    decreases ls.len(),
{
    if ls.len() == 0 {
        0
    } else {
        key_line_count(ls.drop_last()) + if is_key_line(ls.last()) {
            1nat
        } else {
            0nat
        }
    }
}

proof fn lemma_key_line_count(ls: Seq<Seq<char>>)
    ensures
        key_line_count(ls.map_values(|l: Seq<char>| lock_line(l))) == key_line_count(ls),
        has_key_line(ls) <==> key_line_count(ls) > 0,
    decreases ls.len(),
{
    lemma_locked_line_is_key_line();
    if ls.len() > 0 {
        let init = ls.drop_last();
        lemma_key_line_count(init);
        let m = ls.map_values(|l: Seq<char>| lock_line(l));
        assert(m.drop_last() =~= init.map_values(|l: Seq<char>| lock_line(l)));
        assert(m.last() == lock_line(ls.last()));
        if has_key_line(init) {
            let w = choose|w: int| 0 <= w < init.len() && is_key_line(#[trigger] init[w]);
            assert(ls[w] == init[w]);
        }
        if has_key_line(ls) && !is_key_line(ls.last()) {
            let w = choose|w: int| 0 <= w < ls.len() && is_key_line(#[trigger] ls[w]);
            assert(init[w] == ls[w]);
        }
        if is_key_line(ls.last()) {
            assert(is_key_line(ls[ls.len() - 1]));
        }
    }
}

/// After the rewrite every key line is the locked line, and there are exactly
/// as many key lines as before, or one where there were none: rewriting never
/// piles up key lines.
pub proof fn lemma_locked_key_lines(ls: Seq<Seq<char>>)
    ensures
        forall|i: int|
            0 <= i < locked_lines(ls).len() && is_key_line(#[trigger] locked_lines(ls)[i])
                ==> locked_lines(ls)[i] == locked_line(),
        key_line_count(locked_lines(ls)) == if key_line_count(ls) == 0 {
            1
        } else {
            key_line_count(ls)
        },
{
    lemma_locked_line_is_key_line();
    lemma_key_line_count(ls);
    let m = ls.map_values(|l: Seq<char>| lock_line(l));
    if !has_key_line(ls) {
        assert(m.push(locked_line()).drop_last() =~= m);
    }
}

} // verus!
