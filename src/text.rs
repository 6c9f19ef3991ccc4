//! Character-level text helpers shared by the configuration rewriter and the
//! protection run: Unicode whitespace, trimming, line splitting, joining and
//! decimal formatting.
use vstd::prelude::*;

verus! {

/// Unicode `White_Space` code points, as `char::is_whitespace` accepts them.
pub open spec fn is_ws(c: char) -> bool {
    ||| ('\u{9}' <= c && c <= '\u{d}')
    ||| c == ' '
    ||| c == '\u{85}'
    ||| c == '\u{a0}'
    ||| c == '\u{1680}'
    ||| ('\u{2000}' <= c && c <= '\u{200a}')
    ||| c == '\u{2028}'
    ||| c == '\u{2029}'
    ||| c == '\u{202f}'
    ||| c == '\u{205f}'
    ||| c == '\u{3000}'
}

/// `s` without its leading whitespace.
pub open spec fn trim_start(s: Seq<char>) -> Seq<char>
    decreases s.len(),
{
    if s.len() > 0 && is_ws(s[0]) {
        trim_start(s.drop_first())
    } else {
        s
    }
}

/// `s` without its trailing whitespace.
pub open spec fn trim_end(s: Seq<char>) -> Seq<char>
    decreases s.len(),
{
    if s.len() > 0 && is_ws(s.last()) {
        trim_end(s.drop_last())
    } else {
        s
    }
}

/// `s` without leading and trailing whitespace.
pub open spec fn trim(s: Seq<char>) -> Seq<char> {
    trim_end(trim_start(s))
}

/// The pieces of `s` between newline characters, in order; always at least one.
pub open spec fn segments(s: Seq<char>) -> Seq<Seq<char>>
    decreases s.len(),
{
    if s.len() == 0 {
        seq![Seq::<char>::empty()]
    } else if s.last() == '\n' {
        segments(s.drop_last()).push(Seq::<char>::empty())
    } else {
        let segs = segments(s.drop_last());
        segs.update(segs.len() - 1, segs.last().push(s.last()))
    }
}

/// A line ended by `"\r\n"` loses its carriage return.
pub open spec fn strip_cr(l: Seq<char>) -> Seq<char> {
    if l.len() > 0 && l.last() == '\r' {
        l.drop_last()
    } else {
        l
    }
}

/// The lines of `s`: split at `'\n'`, a `'\r'` before a `'\n'` dropped, and no
/// empty line after a final newline.
pub open spec fn lines_of(s: Seq<char>) -> Seq<Seq<char>> {
    let segs = segments(s);
    let body = segs.drop_last().map_values(|l: Seq<char>| strip_cr(l));
    if segs.last().len() == 0 {
        body
    } else {
        body.push(segs.last())
    }
}

/// The lines joined by single newline characters.
pub open spec fn join_lines(ls: Seq<Seq<char>>) -> Seq<char>
    decreases ls.len(),
{
    if ls.len() == 0 {
        Seq::<char>::empty()
    } else if ls.len() == 1 {
        ls[0]
    } else {
        join_lines(ls.drop_last()) + seq!['\n'] + ls.last()
    }
}

/// Decimal digits of `n`, most significant first, without leading zeros.
pub open spec fn decimal(n: nat) -> Seq<char>
    decreases n,
{
    if n < 10 {
        seq![digit_char(n)]
    } else {
        decimal(n / 10).push(digit_char(n % 10))
    }
}

pub open spec fn digit_char(d: nat) -> char {
    if d == 0 {
        '0'
    } else if d == 1 {
        '1'
    } else if d == 2 {
        '2'
    } else if d == 3 {
        '3'
    } else if d == 4 {
        '4'
    } else if d == 5 {
        '5'
    } else if d == 6 {
        '6'
    } else if d == 7 {
        '7'
    } else if d == 8 {
        '8'
    } else {
        '9'
    }
}

pub open spec fn no_newline(l: Seq<char>) -> bool {
    forall|k: int| 0 <= k < l.len() ==> l[k] != '\n'
}

/// Lines that `lines_of` gives back unchanged after `join_lines`: at least one,
/// none but the last ending in a carriage return, the last not empty.
pub open spec fn reads_back(ls: Seq<Seq<char>>) -> bool {
    &&& ls.len() > 0
    &&& ls.last().len() > 0
    &&& forall|i: int| 0 <= i < ls.len() - 1 ==> strip_cr(#[trigger] ls[i]) == ls[i]
}

proof fn lemma_segments_no_newline(s: Seq<char>)
    ensures
        forall|i: int| 0 <= i < segments(s).len() ==> no_newline(#[trigger] segments(s)[i]),
    decreases s.len(),
{
    lemma_segments_nonempty(s);
    if s.len() > 0 {
        lemma_segments_no_newline(s.drop_last());
        lemma_segments_nonempty(s.drop_last());
        let segs = segments(s.drop_last());
        if s.last() != '\n' {
            assert forall|i: int| 0 <= i < segments(s).len() implies no_newline(
                #[trigger] segments(s)[i],
            ) by {
                if i == segs.len() - 1 {
                    assert(no_newline(segs[i]));
                    let l = segs.last().push(s.last());
                    assert forall|k: int| 0 <= k < l.len() implies l[k] != '\n' by {
                        if k < l.len() - 1 {
                            assert(l[k] == segs.last()[k]);
                        }
                    }
                }
            }
        }
    }
}

/// No line of `lines_of(s)` holds a newline.
pub proof fn lemma_lines_of_no_newline(s: Seq<char>)
    ensures
        forall|i: int| 0 <= i < lines_of(s).len() ==> no_newline(#[trigger] lines_of(s)[i]),
{
    lemma_segments_no_newline(s);
    lemma_segments_nonempty(s);
    let segs = segments(s);
    assert forall|i: int| 0 <= i < lines_of(s).len() implies no_newline(
        #[trigger] lines_of(s)[i],
    ) by {
        assert(no_newline(segs[i]));
        if i < segs.len() - 1 {
            let l = segs[i];
            assert(lines_of(s)[i] == strip_cr(l));
            if l.len() > 0 && l.last() == '\r' {
                assert forall|k: int| 0 <= k < strip_cr(l).len() implies strip_cr(l)[k]
                    != '\n' by {
                    assert(strip_cr(l)[k] == l[k]);
                }
            }
        }
    }
}

/// Appending text without a newline extends the last segment.
proof fn lemma_segments_extend(a: Seq<char>, b: Seq<char>)
    requires
        no_newline(b),
    ensures
        segments(a + b) == segments(a).update(
            segments(a).len() - 1,
            segments(a).last() + b,
        ),
    decreases b.len(),
{
    lemma_segments_nonempty(a);
    if b.len() == 0 {
        assert(a + b =~= a);
        assert(segments(a).last() + b =~= segments(a).last());
        assert(segments(a).update(segments(a).len() - 1, segments(a).last() + b) =~= segments(a));
    } else {
        let b0 = b.drop_last();
        assert(no_newline(b0)) by {
            assert forall|k: int| 0 <= k < b0.len() implies b0[k] != '\n' by {
                assert(b0[k] == b[k]);
            }
        }
        lemma_segments_extend(a, b0);
        assert((a + b).drop_last() =~= a + b0);
        assert((a + b).last() == b.last());
        assert(segments(a).last() + b0 + seq![b.last()] =~= segments(a).last() + b);
        let segs = segments(a + b0);
        assert(segs.last() =~= segments(a).last() + b0);
        assert(b[b.len() - 1] != '\n');
        assert(segments(a + b) == segs.update(segs.len() - 1, segs.last().push(b.last())));
        assert(segs.last().push(b.last()) =~= segments(a).last() + b);
        assert(segments(a + b) =~= segments(a).update(
            segments(a).len() - 1,
            segments(a).last() + b,
        ));
    }
}

/// Joined lines without newlines split back into the same segments.
proof fn lemma_segments_join(ls: Seq<Seq<char>>)
    requires
        ls.len() > 0,
        forall|i: int| 0 <= i < ls.len() ==> no_newline(#[trigger] ls[i]),
    ensures
        segments(join_lines(ls)) == ls,
    decreases ls.len(),
{
    if ls.len() == 1 {
        lemma_segments_extend(Seq::<char>::empty(), ls[0]);
        assert(Seq::<char>::empty() + ls[0] =~= ls[0]);
        assert(segments(ls[0]) =~= ls);
    } else {
        let init = ls.drop_last();
        lemma_segments_join(init);
        let a = join_lines(init) + seq!['\n'];
        assert(a.drop_last() =~= join_lines(init));
        assert(segments(a) == init.push(Seq::<char>::empty()));
        assert(no_newline(ls[ls.len() - 1]));
        lemma_segments_extend(a, ls.last());
        assert(Seq::<char>::empty() + ls.last() =~= ls.last());
        assert(segments(join_lines(ls)) =~= ls);
    }
}

/// Lines that read back come out of `lines_of` after `join_lines` unchanged.
pub proof fn lemma_lines_read_back(ls: Seq<Seq<char>>)
    requires
        reads_back(ls),
        forall|i: int| 0 <= i < ls.len() ==> no_newline(#[trigger] ls[i]),
    ensures
        lines_of(join_lines(ls)) == ls,
{
    lemma_segments_join(ls);
    let segs = segments(join_lines(ls));
    let body = segs.drop_last().map_values(|l: Seq<char>| strip_cr(l));
    assert(body =~= ls.drop_last());
    assert(body.push(segs.last()) =~= ls);
}

/// Whether `c` is Unicode whitespace.
pub fn is_whitespace(c: char) -> (r: bool)
    ensures
        r == is_ws(c),
{
    ('\u{9}' <= c && c <= '\u{d}') || c == ' ' || c == '\u{85}' || c == '\u{a0}' || c
        == '\u{1680}' || ('\u{2000}' <= c && c <= '\u{200a}') || c == '\u{2028}' || c
        == '\u{2029}' || c == '\u{202f}' || c == '\u{205f}' || c == '\u{3000}'
}

proof fn lemma_segments_step(s: Seq<char>, i: int)
    requires
        0 <= i < s.len(),
    ensures
        segments(s.subrange(0, i + 1)) == (if s[i] == '\n' {
            segments(s.subrange(0, i)).push(Seq::<char>::empty())
        } else {
            let segs = segments(s.subrange(0, i));
            segs.update(segs.len() - 1, segs.last().push(s[i]))
        }),
{
    assert(s.subrange(0, i + 1).drop_last() =~= s.subrange(0, i));
}

proof fn lemma_segments_nonempty(s: Seq<char>)
    ensures
        segments(s).len() >= 1,
    decreases s.len(),
{
    if s.len() > 0 {
        lemma_segments_nonempty(s.drop_last());
    }
}

/// Splits `s` into its lines, as `str::lines` does.
pub fn split_lines(s: &str) -> (r: Vec<String>)
    ensures
        r.deep_view() == lines_of(s@),
{
    let n = s.unicode_len();
    let mut done: Vec<String> = Vec::new();
    let mut start: usize = 0;
    let mut i: usize = 0;
    proof {
        assert(s@.subrange(0, 0) =~= Seq::<char>::empty());
    }
    while i < n
        invariant
            n == s@.len(),
            start <= i <= n,
            segments(s@.subrange(0, i as int)).len() >= 1,
            done.deep_view() == segments(s@.subrange(0, i as int)).drop_last().map_values(
                |l: Seq<char>| strip_cr(l),
            ),
            s@.subrange(start as int, i as int) == segments(s@.subrange(0, i as int)).last(),
        decreases n - i,
    {
        let c = s.get_char(i);
        proof {
            lemma_segments_step(s@, i as int);
        }
        let ghost segs = segments(s@.subrange(0, i as int));
        if c == '\n' {
            let end: usize = if i > start && s.get_char(i - 1) == '\r' {
                i - 1
            } else {
                i
            };
            let line = String::from_str(s.substring_char(start, end));
            proof {
                assert(line@ == strip_cr(segs.last()));
            }
            let ghost before = done.deep_view();
            done.push(line);
            start = i + 1;
            proof {
                assert(done.deep_view() =~= before.push(line@));
                let nsegs = segments(s@.subrange(0, i + 1));
                assert(nsegs.drop_last() =~= segs);
                assert(done.deep_view() =~= nsegs.drop_last().map_values(
                    |l: Seq<char>| strip_cr(l),
                ));
                assert(s@.subrange(start as int, i + 1) =~= nsegs.last());
            }
        } else {
            proof {
                let nsegs = segments(s@.subrange(0, i + 1));
                assert(nsegs.drop_last() =~= segs.drop_last());
                assert(s@.subrange(start as int, i + 1) =~= nsegs.last());
            }
        }
        i = i + 1;
    }
    proof {
        assert(s@.subrange(0, n as int) =~= s@);
    }
    if start < n {
        let last = String::from_str(s.substring_char(start, n));
        let ghost before = done.deep_view();
        done.push(last);
        proof {
            assert(done.deep_view() =~= before.push(last@));
            assert(done.deep_view() =~= lines_of(s@));
        }
    } else {
        proof {
            assert(done.deep_view() =~= lines_of(s@));
        }
    }
    done
}

fn digit_str(d: usize) -> (r: &'static str)
    requires
        d < 10,
    ensures
        r@ == seq![digit_char(d as nat)],
{
    proof {
        reveal_strlit("0");
        reveal_strlit("1");
        reveal_strlit("2");
        reveal_strlit("3");
        reveal_strlit("4");
        reveal_strlit("5");
        reveal_strlit("6");
        reveal_strlit("7");
        reveal_strlit("8");
        reveal_strlit("9");
    }
    if d == 0 {
        "0"
    } else if d == 1 {
        "1"
    } else if d == 2 {
        "2"
    } else if d == 3 {
        "3"
    } else if d == 4 {
        "4"
    } else if d == 5 {
        "5"
    } else if d == 6 {
        "6"
    } else if d == 7 {
        "7"
    } else if d == 8 {
        "8"
    } else {
        "9"
    }
}

/// `n` written in decimal.
pub fn decimal_string(n: usize) -> (r: String)
    ensures
        r@ == decimal(n as nat),
    decreases n,
{
    if n < 10 {
        String::from_str(digit_str(n))
    } else {
        let mut s = decimal_string(n / 10);
        s.append(digit_str(n % 10));
        s
    }
}

/// The bounds `(a, b)` of `s` with surrounding whitespace removed.
pub fn trim_bounds(s: &str) -> (r: (usize, usize))
    ensures
        r.0 <= r.1 <= s@.len(),
        s@.subrange(r.0 as int, r.1 as int) == trim(s@),
{
    let n = s.unicode_len();
    let mut a: usize = 0;
    proof {
        assert(s@.subrange(0, n as int) =~= s@);
    }
    while a < n && is_whitespace(s.get_char(a))
        invariant
            n == s@.len(),
            a <= n,
            trim_start(s@) == trim_start(s@.subrange(a as int, n as int)),
        decreases n - a,
    {
        proof {
            assert(s@.subrange(a as int, n as int).drop_first() =~= s@.subrange(a + 1, n as int));
        }
        a = a + 1;
    }
    let mut b: usize = n;
    proof {
        assert(trim_start(s@) == s@.subrange(a as int, n as int));
    }
    while b > a && is_whitespace(s.get_char(b - 1))
        invariant
            n == s@.len(),
            a <= b <= n,
            trim(s@) == trim_end(s@.subrange(a as int, b as int)),
        decreases b - a,
    {
        proof {
            assert(s@.subrange(a as int, b as int).drop_last() =~= s@.subrange(a as int, b - 1));
        }
        b = b - 1;
    }
    (a, b)
}

/// The lines joined by single newline characters.
pub fn join_with_newlines(ls: &Vec<String>) -> (r: String)
    ensures
        r@ == join_lines(ls.deep_view()),
{
    let mut out = String::new();
    let mut i: usize = 0;
    proof {
        reveal_strlit("\n");
        assert(ls.deep_view().subrange(0, 0) =~= Seq::<Seq<char>>::empty());
    }
    while i < ls.len()
        invariant
            i <= ls.len(),
            out@ == join_lines(ls.deep_view().subrange(0, i as int)),
        decreases ls.len() - i,
    {
        let ghost pre = ls.deep_view().subrange(0, i as int);
        let ghost next = ls.deep_view().subrange(0, i + 1);
        proof {
            assert(next.drop_last() =~= pre);
            assert(next.last() == ls@[i as int]@);
            reveal_strlit("\n");
        }
        if i > 0 {
            out.append("\n");
        }
        out.append(ls[i].as_str());
        proof {
            if i == 0 {
                assert(next.len() == 1);
                assert(out@ =~= join_lines(next));
            } else {
                assert(out@ =~= join_lines(next));
            }
        }
        i = i + 1;
    }
    proof {
        assert(ls.deep_view().subrange(0, ls.len() as int) =~= ls.deep_view());
    }
    out
}

} // verus!
