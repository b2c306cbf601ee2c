use vstd::prelude::*;

use crate::types::{highlight_of, lines_view, Span, SpanView, StyledLine};

verus! {

/// A run counts toward the link index exactly when it carries a role tag.
pub open spec fn is_tagged(s: SpanView) -> bool {
    s.role is Some
}

/// Number of link-tagged runs among the first `j` runs of one line.
pub open spec fn count_line_pre(line: Seq<SpanView>, j: int) -> nat
    decreases j,
{
    if j <= 0 {
        0
    } else {
        count_line_pre(line, j - 1) + (if is_tagged(line[j - 1]) {
            1nat
        } else {
            0nat
        })
    }
}

/// Number of link-tagged runs of one whole line.
pub open spec fn count_line(line: Seq<SpanView>) -> nat {
    count_line_pre(line, line.len() as int)
}

/// Number of link-tagged runs in the first `i` lines.
pub open spec fn count_pre(lines: Seq<Seq<SpanView>>, i: int) -> nat
    decreases i,
{
    if i <= 0 {
        0
    } else {
        count_pre(lines, i - 1) + count_line(lines[i - 1])
    }
}

/// Number of link-tagged runs across all lines, in document order.
pub open spec fn count_tagged(lines: Seq<Seq<SpanView>>) -> nat {
    count_pre(lines, lines.len() as int)
}

/// The link index of position `(l, j)`: how many tagged runs come strictly
/// before it in document order.
pub open spec fn tagged_before(lines: Seq<Seq<SpanView>>, l: int, j: int) -> nat {
    count_pre(lines, l) + count_line_pre(lines[l], j)
}

proof fn lemma_count_line_pre_mono(line: Seq<SpanView>, j1: int, j2: int)
    requires
        j1 <= j2,
    ensures
        count_line_pre(line, j1) <= count_line_pre(line, j2),
    decreases j2 - j1,
{
    if j1 < j2 {
        lemma_count_line_pre_mono(line, j1, j2 - 1);
    }
}

proof fn lemma_count_pre_mono(lines: Seq<Seq<SpanView>>, i1: int, i2: int)
    requires
        i1 <= i2,
    ensures
        count_pre(lines, i1) <= count_pre(lines, i2),
    decreases i2 - i1,
{
    if i1 < i2 {
        lemma_count_pre_mono(lines, i1, i2 - 1);
    }
}

/// Distinct tagged positions carry distinct link indices, in document order.
proof fn lemma_tagged_before_strict(lines: Seq<Seq<SpanView>>, l1: int, j1: int, l2: int, j2: int)
    requires
        0 <= l1 <= l2 < lines.len(),
        0 <= j1 < lines[l1].len(),
        0 <= j2 < lines[l2].len(),
        l1 < l2 || j1 < j2,
        is_tagged(lines[l1][j1]),
    ensures
        tagged_before(lines, l1, j1) < tagged_before(lines, l2, j2),
{
    assert(count_line_pre(lines[l1], j1 + 1) == count_line_pre(lines[l1], j1) + 1);
    if l1 == l2 {
        lemma_count_line_pre_mono(lines[l1], j1 + 1, j2);
    } else {
        lemma_count_line_pre_mono(lines[l1], j1 + 1, lines[l1].len() as int);
        assert(count_pre(lines, l1 + 1) == count_pre(lines, l1) + count_line(lines[l1]));
        lemma_count_pre_mono(lines, l1 + 1, l2);
    }
}

proof fn lemma_exists_in_line(line: Seq<SpanView>, m: int, k: nat)
    requires
        0 <= m <= line.len(),
        k < count_line_pre(line, m),
    ensures
        exists|j: int|
            0 <= j < m && is_tagged(line[j]) && count_line_pre(line, j) == k,
    decreases m,
{
    if k < count_line_pre(line, m - 1) {
        lemma_exists_in_line(line, m - 1, k);
    } else {
        assert(is_tagged(line[m - 1]) && count_line_pre(line, m - 1) == k);
    }
}

proof fn lemma_exists_in_lines(lines: Seq<Seq<SpanView>>, n: int, k: nat)
    requires
        0 <= n <= lines.len(),
        k < count_pre(lines, n),
    ensures
        exists|l: int, j: int|
            0 <= l < n && 0 <= j < lines[l].len() && is_tagged(lines[l][j]) && tagged_before(
                lines,
                l,
                j,
            ) == k,
    decreases n,
{
    if k < count_pre(lines, n - 1) {
        lemma_exists_in_lines(lines, n - 1, k);
        let (l, j) = choose|l: int, j: int|
            0 <= l < n - 1 && 0 <= j < lines[l].len() && is_tagged(lines[l][j]) && tagged_before(
                lines,
                l,
                j,
            ) == k;
        assert(0 <= l < n && 0 <= j < lines[l].len() && is_tagged(lines[l][j]) && tagged_before(
            lines,
            l,
            j,
        ) == k);
    } else {
        let k2 = (k - count_pre(lines, n - 1)) as nat;
        let line = lines[n - 1];
        lemma_exists_in_line(line, line.len() as int, k2);
        let j = choose|j: int|
            0 <= j < line.len() && is_tagged(line[j]) && #[trigger] count_line_pre(line, j) == k2;
        assert(tagged_before(lines, n - 1, j) == k);
    }
}

/// Law: for every index `i` below the number of link-tagged runs, exactly one
/// position in the document is the `i`-th tagged run — so highlighting by a
/// running counter marks exactly one run, and it is the `i`-th one.
pub proof fn lemma_selected_run_unique(lines: Seq<Seq<SpanView>>, i: nat)
    requires
        i < count_tagged(lines),
    ensures
        exists|l: int, j: int|
            0 <= l < lines.len() && 0 <= j < lines[l].len() && is_tagged(lines[l][j])
                && tagged_before(lines, l, j) == i,
        forall|l1: int, j1: int, l2: int, j2: int|
            (0 <= l1 < lines.len() && 0 <= j1 < lines[l1].len() && is_tagged(lines[l1][j1])
                && tagged_before(lines, l1, j1) == i && 0 <= l2 < lines.len() && 0 <= j2
                < lines[l2].len() && is_tagged(lines[l2][j2]) && tagged_before(lines, l2, j2)
                == i) ==> l1 == l2 && j1 == j2,
{
    lemma_exists_in_lines(lines, lines.len() as int, i);
    assert forall|l1: int, j1: int, l2: int, j2: int|
        (0 <= l1 < lines.len() && 0 <= j1 < lines[l1].len() && is_tagged(lines[l1][j1])
            && tagged_before(lines, l1, j1) == i && 0 <= l2 < lines.len() && 0 <= j2
            < lines[l2].len() && is_tagged(lines[l2][j2]) && tagged_before(lines, l2, j2)
            == i) implies l1 == l2 && j1 == j2 by {
        if l1 < l2 || (l1 == l2 && j1 < j2) {
            lemma_tagged_before_strict(lines, l1, j1, l2, j2);
        } else if l2 < l1 || (l1 == l2 && j2 < j1) {
            lemma_tagged_before_strict(lines, l2, j2, l1, j1);
        }
    }
}

/// The link index of any position is bounded by the document's tagged count.
proof fn lemma_tagged_before_le_total(lines: Seq<Seq<SpanView>>, l: int, j: int)
    requires
        0 <= l < lines.len(),
        0 <= j <= lines[l].len(),
    ensures
        tagged_before(lines, l, j) <= count_tagged(lines),
{
    lemma_count_line_pre_mono(lines[l], j, lines[l].len() as int);
    assert(count_pre(lines, l + 1) == count_pre(lines, l) + count_line(lines[l]));
    lemma_count_pre_mono(lines, l + 1, lines.len() as int);
}

/// The highlight overlay: walks the runs in document order keeping a counter
/// of tagged runs, and replaces the style of the run whose counter value
/// equals `selected` with the highlighted variant.  Text and role tags pass
/// through unchanged; untagged runs are untouched.
pub fn render_highlight(lines: &Vec<StyledLine>, selected: usize) -> (r: Vec<StyledLine>)
    requires
        count_tagged(lines_view(lines@)) <= usize::MAX,
    ensures
        r@.len() == lines@.len(),
        forall|l: int|
            0 <= l < lines@.len() ==> #[trigger] r@[l]@.len() == lines@[l]@.len(),
        forall|l: int, j: int|
            0 <= l < lines@.len() && 0 <= j < lines@[l]@.len() ==> {
                let o = lines@[l]@[j];
                let n = #[trigger] r@[l]@[j];
                n.text == o.text && n.role == o.role && n.style == (
                if is_tagged(o) && tagged_before(lines_view(lines@), l, j) == selected {
                    highlight_of(o.style)
                } else {
                    o.style
                })
            },
{
    let ghost lv = lines_view(lines@);
    let mut out: Vec<StyledLine> = Vec::new();
    let mut counter: usize = 0;
    let mut l: usize = 0;
    while l < lines.len()
        invariant
            0 <= l <= lines@.len(),
            lv == lines_view(lines@),
            lv.len() == lines@.len(),
            forall|i: int| 0 <= i < lines@.len() ==> #[trigger] lv[i] == lines@[i]@,
            counter == count_pre(lv, l as int),
            count_tagged(lv) <= usize::MAX,
            out@.len() == l,
            forall|i: int|
                0 <= i < l ==> #[trigger] out@[i]@.len() == lines@[i]@.len(),
            forall|i: int, j: int|
                0 <= i < l && 0 <= j < lines@[i]@.len() ==> {
                    let o = lines@[i]@[j];
                    let n = #[trigger] out@[i]@[j];
                    n.text == o.text && n.role == o.role && n.style == (
                    if is_tagged(o) && tagged_before(lv, i, j) == selected {
                        highlight_of(o.style)
                    } else {
                        o.style
                    })
                },
        decreases lines@.len() - l,
    {
        let line = &lines[l];
        let ghost line_v = line@;
        let mut spans: Vec<Span> = Vec::new();
        let mut j: usize = 0;
        proof {
            assert(count_line_pre(line_v, 0) == 0);
        }
        while j < line.spans.len()
            invariant
                0 <= j <= line.spans@.len(),
                line_v == line@,
                line_v.len() == line.spans@.len(),
                0 <= (l as int) < lv.len(),
                lv[l as int] == line_v,
                counter == count_pre(lv, l as int) + count_line_pre(line_v, j as int),
                count_tagged(lv) <= usize::MAX,
                spans@.len() == j,
                forall|i: int|
                    0 <= i < j ==> {
                        let o = line_v[i];
                        let n = #[trigger] spans@[i]@;
                        n.text == o.text && n.role == o.role && n.style == (
                        if is_tagged(o) && tagged_before(lv, l as int, i) == selected {
                            highlight_of(o.style)
                        } else {
                            o.style
                        })
                    },
            decreases line.spans@.len() - j,
        {
            let s = &line.spans[j];
            let tagged = s.role.is_some();
            proof {
                assert(line_v[j as int] == s@);
                assert(count_line_pre(line_v, j as int + 1) == count_line_pre(line_v, j as int)
                    + (if is_tagged(line_v[j as int]) {
                    1nat
                } else {
                    0nat
                }));
                lemma_tagged_before_le_total(lv, l as int, j as int + 1);
            }
            let style = if tagged && counter == selected {
                crate::types::make_highlight(s.style)
            } else {
                s.style
            };
            let new_span = Span { text: s.text.clone(), style, role: s.role };
            proof {
                assert(new_span@.text == s@.text);
            }
            spans.push(new_span);
            if tagged {
                counter = counter + 1;
            }
            j = j + 1;
        }
        let new_line = StyledLine { spans };
        proof {
            assert(new_line@ =~= new_line.spans@.map_values(|s: Span| s@));
            assert(new_line@.len() == line_v.len());
            assert(count_pre(lv, l as int + 1) == count_pre(lv, l as int) + count_line(line_v));
        }
        out.push(new_line);
        l = l + 1;
    }
    proof {
        assert(count_tagged(lv) == count_pre(lv, lv.len() as int));
    }
    out
}

} // verus!
