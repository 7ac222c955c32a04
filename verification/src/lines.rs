use vstd::prelude::*;

verus! {

/// The index of the first line feed in `s` at or after `i`, or the length
/// if there is none.
pub open spec fn line_break_from(s: Seq<char>, i: int) -> int
    decreases s.len() - i,
{
    if i < 0 || i >= s.len() {
        s.len() as int
    } else if s[i] == '\n' {
        i
    } else {
        line_break_from(s, i + 1)
    }
}

/// A line segment with a carriage return before the break removed.
pub open spec fn strip_cr(l: Seq<char>) -> Seq<char> {
    if l.len() > 0 && l.last() == '\r' {
        l.drop_last()
    } else {
        l
    }
}

/// The lines of `s[i..]`, split at line feeds; a carriage return directly
/// before a line feed belongs to the break. A final segment without a
/// line feed stands as it is, and text ending in a line feed has no extra
/// empty line after it.
pub open spec fn lines_from(s: Seq<char>, i: int) -> Seq<Seq<char>>
    decreases s.len() - i,
    via lines_from_decreases
{
    if i < 0 || i >= s.len() {
        Seq::empty()
    } else {
        let j = line_break_from(s, i);
        if j >= s.len() {
            seq![s.subrange(i, s.len() as int)]
        } else {
            seq![strip_cr(s.subrange(i, j))] + lines_from(s, j + 1)
        }
    }
}

#[via_fn]
proof fn lines_from_decreases(s: Seq<char>, i: int) {
    if 0 <= i < s.len() {
        lemma_line_break_props(s, i);
    }
}

/// The lines of the whole of `s`.
pub open spec fn spec_lines(s: Seq<char>) -> Seq<Seq<char>> {
    lines_from(s, 0)
}

/// The line separator this library writes: a line feed.
pub open spec fn nl_seq() -> Seq<char> {
    seq!['\n']
}

/// The lines joined, with the separator between each two of them.
pub open spec fn join_lines(ls: Seq<Seq<char>>, sep: Seq<char>) -> Seq<char>
    decreases ls.len(),
{
    if ls.len() == 0 {
        Seq::empty()
    } else if ls.len() == 1 {
        ls[0]
    } else {
        ls[0] + sep + join_lines(ls.drop_first(), sep)
    }
}

/// The reconciled text: the fresh text with its first line replaced by the
/// original's first line, and with the original's trailing-line-feed
/// presence restored; empty when either text is empty.
pub open spec fn spec_fix(fresh: Seq<char>, orig: Seq<char>) -> Seq<char> {
    if fresh.len() == 0 || orig.len() == 0 {
        Seq::empty()
    } else {
        let replaced = seq![spec_lines(orig)[0]] + spec_lines(fresh).drop_first();
        let joined = join_lines(replaced, nl_seq());
        if orig.last() == '\n' {
            if joined.len() > 0 && joined.last() == '\n' {
                joined
            } else {
                joined + nl_seq()
            }
        } else {
            if joined.len() > 0 && joined.last() == '\n' {
                joined.drop_last()
            } else {
                joined
            }
        }
    }
}

/// The break index lies between `i` and the length, and points at a line
/// feed whenever it is not the length.
pub proof fn lemma_line_break_props(s: Seq<char>, i: int)
    requires
        0 <= i <= s.len(),
    ensures
        i <= line_break_from(s, i) <= s.len(),
        line_break_from(s, i) < s.len() ==> s[line_break_from(s, i)] == '\n',
    decreases s.len() - i,
{
    if i < s.len() && s[i] != '\n' {
        lemma_line_break_props(s, i + 1);
    }
}

/// Joining one more line appends one separator and that line.
pub proof fn lemma_join_push(ls: Seq<Seq<char>>, l: Seq<char>, sep: Seq<char>)
    requires
        ls.len() >= 1,
    ensures
        join_lines(ls.push(l), sep) == join_lines(ls, sep) + sep + l,
    decreases ls.len(),
{
    let p = ls.push(l);
    if ls.len() == 1 {
        assert(p.len() == 2);
        assert(p[0] == ls[0]);
        assert(p.drop_first() =~= seq![l]);
        assert(join_lines(seq![l], sep) == l);
        assert(join_lines(p, sep) == p[0] + sep + join_lines(p.drop_first(), sep));
        assert(join_lines(ls, sep) == ls[0]);
    } else {
        lemma_join_push(ls.drop_first(), l, sep);
        assert(p.drop_first() =~= ls.drop_first().push(l));
        assert(join_lines(p, sep) == p[0] + sep + join_lines(p.drop_first(), sep));
        assert(join_lines(ls, sep) == ls[0] + sep + join_lines(ls.drop_first(), sep));
        assert(join_lines(p, sep) =~= join_lines(ls, sep) + sep + l);
    }
}

/// The position of the first line feed in `v` at or after `i`.
pub(crate) fn find_break(v: &Vec<char>, i: usize) -> (r: usize)
    requires
        i <= v@.len(),
    ensures
        r == line_break_from(v@, i as int),
        i <= r <= v@.len(),
        r < v@.len() ==> v@[r as int] == '\n',
{
    let mut j = i;
    while j < v.len() && v[j] != '\n'
        invariant
            i <= j <= v@.len(),
            line_break_from(v@, i as int) == line_break_from(v@, j as int),
        decreases v@.len() - j,
    {
        j = j + 1;
    }
    proof {
        lemma_line_break_props(v@, i as int);
    }
    j
}

/// Appends `src[from..to]` to `out`.
pub(crate) fn push_range(out: &mut Vec<char>, src: &Vec<char>, from: usize, to: usize)
    requires
        from <= to <= src@.len(),
    ensures
        final(out)@ == old(out)@ + src@.subrange(from as int, to as int),
{
    let mut t = from;
    while t < to
        invariant
            from <= t <= to <= src@.len(),
            out@ == old(out)@ + src@.subrange(from as int, t as int),
        decreases to - t,
    {
        out.push(src[t]);
        proof {
            assert(old(out)@ + src@.subrange(from as int, (t + 1) as int) =~= (old(out)@
                + src@.subrange(from as int, t as int)).push(src@[t as int]));
        }
        t = t + 1;
    }
}

/// Builds the reconciled text from the fresh text and the original text,
/// both given as their characters.
pub(crate) fn fix_chars(fresh: &Vec<char>, orig: &Vec<char>) -> (r: Vec<char>)
    ensures
        r@ == spec_fix(fresh@, orig@),
{
    if fresh.len() == 0 || orig.len() == 0 {
        return Vec::new();
    }
    let ghost replaced: Seq<Seq<char>> = seq![spec_lines(orig@)[0]] + spec_lines(
        fresh@,
    ).drop_first();
    let mut out: Vec<char> = Vec::new();
    // The original's first line, as the first output line.
    let ob = find_break(orig, 0);
    let first_end = if ob < orig.len() && ob > 0 && orig[ob - 1] == '\r' {
        ob - 1
    } else {
        ob
    };
    push_range(&mut out, orig, 0, first_end);
    proof {
        assert(out@ =~= orig@.subrange(0, first_end as int));
        if ob < orig@.len() {
            assert(spec_lines(orig@)[0] =~= strip_cr(orig@.subrange(0, ob as int)));
            if ob > 0 && orig@[ob - 1] == '\r' {
                assert(strip_cr(orig@.subrange(0, ob as int)) =~= orig@.subrange(
                    0,
                    (ob - 1) as int,
                ));
            }
        } else {
            assert(spec_lines(orig@)[0] =~= orig@.subrange(0, orig@.len() as int));
        }
        assert(out@ == replaced[0]);
        assert(join_lines(replaced.take(1), nl_seq()) == replaced.take(1)[0]);
        assert(replaced.take(1)[0] == replaced[0]);
    }
    // The remaining lines of the fresh text, each after one separator.
    let ghost fresh_lines: Seq<Seq<char>> = spec_lines(fresh@);
    let mut pos = find_break(fresh, 0);
    let ghost mut k: int = 1;
    proof {
        if pos < fresh@.len() {
            assert(fresh_lines.skip(1) =~= lines_from(fresh@, pos + 1));
        } else {
            assert(fresh_lines =~= seq![fresh@.subrange(0, fresh@.len() as int)]);
            assert(fresh_lines.skip(1) =~= lines_from(fresh@, pos + 1));
        }
        assert(replaced.len() == fresh_lines.len());
    }
    while pos < fresh.len() - 1
        invariant
            pos <= fresh@.len(),
            pos < fresh@.len() ==> fresh@[pos as int] == '\n',
            fresh_lines == spec_lines(fresh@),
            replaced == seq![spec_lines(orig@)[0]] + fresh_lines.drop_first(),
            replaced.len() == fresh_lines.len(),
            1 <= k <= replaced.len(),
            fresh_lines.skip(k) == lines_from(fresh@, pos + 1),
            out@ == join_lines(replaced.take(k), nl_seq()),
        decreases fresh@.len() - pos,
    {
        let nb = find_break(fresh, pos + 1);
        let line_end = if nb < fresh.len() && nb > pos + 1 && fresh[nb - 1] == '\r' {
            nb - 1
        } else {
            nb
        };
        let ghost line: Seq<char> = if nb < fresh@.len() {
            strip_cr(fresh@.subrange((pos + 1) as int, nb as int))
        } else {
            fresh@.subrange((pos + 1) as int, fresh@.len() as int)
        };
        proof {
            assert(lines_from(fresh@, pos + 1) =~= seq![line] + lines_from(fresh@, nb + 1));
            assert(fresh_lines.skip(k).len() >= 1);
            assert(k < fresh_lines.len());
            assert(fresh_lines.skip(k)[0] == line);
            assert(fresh_lines.skip(k)[0] == fresh_lines[k]);
            assert(replaced[k] == line);
        }
        out.push('\n');
        push_range(&mut out, fresh, pos + 1, line_end);
        proof {
            if nb < fresh@.len() && nb > pos + 1 && fresh@[nb - 1] == '\r' {
                assert(fresh@.subrange((pos + 1) as int, (nb - 1) as int) =~= strip_cr(
                    fresh@.subrange((pos + 1) as int, nb as int),
                ));
            }
            assert(out@ =~= join_lines(replaced.take(k), nl_seq()) + nl_seq() + line);
            lemma_join_push(replaced.take(k), line, nl_seq());
            assert(replaced.take(k).push(replaced[k]) =~= replaced.take(k + 1));
            assert(out@ == join_lines(replaced.take(k + 1), nl_seq()));
            assert(fresh_lines.skip(k + 1) =~= fresh_lines.skip(k).drop_first());
            assert(fresh_lines.skip(k).drop_first() =~= lines_from(fresh@, nb + 1));
            k = k + 1;
        }
        pos = nb;
    }
    proof {
        assert(lines_from(fresh@, pos + 1) =~= Seq::<Seq<char>>::empty());
        assert(fresh_lines.skip(k).len() == 0);
        assert(k == replaced.len());
        assert(replaced.take(k) =~= replaced);
    }
    // The original's trailing-line-feed presence, restored.
    let ends_orig_nl = orig[orig.len() - 1] == '\n';
    let out_ends_nl = out.len() > 0 && out[out.len() - 1] == '\n';
    if ends_orig_nl {
        if !out_ends_nl {
            out.push('\n');
            proof {
                assert(out@ =~= join_lines(replaced, nl_seq()) + nl_seq());
            }
        }
    } else {
        if out_ends_nl {
            out.pop();
        }
    }
    out
}

} // verus!
