//! Text of the terminal frontend's gauge.

use vstd::prelude::*;
use crate::text::push_char;

verus! {

/// Centre tick: doubled, so "in tune" is unmistakable even on a narrow
/// terminal.
pub const BAR_CENTRE: char = '\u{256b}';
/// Left end of the bar.
pub const BAR_LEFT: char = '\u{251c}';
/// Right end of the bar.
pub const BAR_RIGHT: char = '\u{2524}';
/// Quarter-point tick.
pub const BAR_QUARTER: char = '\u{253c}';
/// Plain stretch of the bar.
pub const BAR_LINE: char = '\u{2500}';

/// The character at column `i` of a gauge bar `width` columns wide.
pub open spec fn gauge_bar_char(width: int, i: int) -> char {
    if i == width / 2 {
        BAR_CENTRE
    } else if i == 0 {
        BAR_LEFT
    } else if i == width - 1 {
        BAR_RIGHT
    } else if i == width / 4 || i == 3 * width / 4 {
        BAR_QUARTER
    } else {
        BAR_LINE
    }
}

/// The gauge bar drawn under the scale labels: one character per column, with
/// end caps, a doubled centre tick and minor ticks at the quarter points.
pub fn gauge_bar(width: u16) -> (bar: String)
    ensures
        bar@ == Seq::new(width as nat, |i: int| gauge_bar_char(width as int, i)),
{
    let w: usize = width as usize;
    let mid: usize = w / 2;
    let mut bar = String::new();
    for i in 0..w
        invariant
            w == width as usize,
            mid == w / 2,
            bar@ == Seq::new(i as nat, |k: int| gauge_bar_char(width as int, k)),
    {
        let c = if i == mid {
            BAR_CENTRE
        } else if i == 0 {
            BAR_LEFT
        } else if i == w - 1 {
            BAR_RIGHT
        } else if i == w / 4 || i == 3 * w / 4 {
            BAR_QUARTER
        } else {
            BAR_LINE
        };
        push_char(&mut bar, c);
        proof {
            assert(bar@ =~= Seq::new((i + 1) as nat, |k: int| gauge_bar_char(width as int, k)));
        }
    }
    bar
}

/// The gauge bar's columns: the centre tick sits at column `width / 2`; apart
/// from it and the two ends, a column is a quarter tick exactly when it is
/// column `width / 4` or `3 * width / 4`, and a plain stretch otherwise; so a
/// bar has at most two quarter ticks.
pub proof fn lemma_gauge_bar_ticks(width: u16)
    ensures
        forall|i: int|
            0 <= i < width ==> {
                let c = #[trigger] gauge_bar_char(width as int, i);
                &&& (c == BAR_CENTRE <==> i == width / 2)
                &&& (i != width / 2 && i != 0 && i != width - 1) ==> (c == BAR_QUARTER <==> (i
                    == width / 4 || i == 3 * width / 4))
                &&& (i != width / 2 && i != 0 && i != width - 1 && i != width / 4 && i != 3
                    * width / 4) ==> c == BAR_LINE
            },
        forall|i: int, j: int, k: int|
            0 <= i < j < k < width ==> !(gauge_bar_char(width as int, i) == BAR_QUARTER
                && gauge_bar_char(width as int, j) == BAR_QUARTER && gauge_bar_char(width as int, k)
                == BAR_QUARTER),
{
}

/// `a - b`, or 0 when `b` exceeds `a`.
pub open spec fn saturating_sub(a: int, b: int) -> int {
    if a > b { a - b } else { 0 }
}

/// First column of a label `len` characters long, centred on column `centre`
/// where there is room and nudged inward at the edges of a row `width` wide.
pub open spec fn label_start(width: int, centre: int, len: int) -> int {
    let centred = saturating_sub(centre, len / 2);
    let last = saturating_sub(width, len);
    if centred < last { centred } else { last }
}

/// `row` with `label` written over it from its start column on; characters
/// that would fall past the end of the row are dropped.
pub open spec fn place_label(row: Seq<char>, label: Seq<char>, centre: int) -> Seq<char> {
    let start = label_start(row.len() as int, centre, label.len() as int);
    Seq::new(row.len(), |j: int| if start <= j < start + label.len() { label[j - start] } else { row[j] })
}

/// A blank row `width` wide with the first `n` labels of `labels` written
/// over it in turn, each centred on its column.
pub open spec fn label_row_text(width: nat, labels: Seq<(usize, Seq<char>)>, n: int) -> Seq<char>
    decreases n,
{
    if n <= 0 {
        Seq::new(width, |_j: int| ' ')
    } else {
        place_label(label_row_text(width, labels, n - 1), labels[n - 1].1, labels[n - 1].0 as int)
    }
}

/// The scale-label row above the gauge bar: each `(centre, text)` label is
/// centred on its column where there is room and nudged inward at the edges;
/// a later label overwrites an earlier one where they meet.
pub fn label_row(width: u16, labels: &[(usize, String)]) -> (row: String)
    ensures
        row@ == label_row_text(width as nat, labels@.map_values(|l: (usize, String)| (l.0, l.1@)), labels@.len() as int),
{
    let ghost spec_labels = labels@.map_values(|l: (usize, String)| (l.0, l.1@));
    let w: usize = width as usize;
    let mut cells: Vec<char> = Vec::new();
    for j in 0..w
        invariant
            w == width as usize,
            cells@ == Seq::new(j as nat, |_j: int| ' '),
    {
        cells.push(' ');
        proof {
            assert(cells@ =~= Seq::new((j + 1) as nat, |_j: int| ' '));
        }
    }
    for k in 0..labels.len()
        invariant
            w == width as usize,
            spec_labels == labels@.map_values(|l: (usize, String)| (l.0, l.1@)),
            cells@ == label_row_text(w as nat, spec_labels, k as int),
            cells@.len() == w,
    {
        let centre = labels[k].0;
        let text = labels[k].1.as_str();
        let len = text.unicode_len();
        let centred = if centre > len / 2 { centre - len / 2 } else { 0 };
        let last = if w > len { w - len } else { 0 };
        let start = if centred < last { centred } else { last };
        let ghost before = cells@;
        assert(spec_labels[k as int] == (centre, text@));
        let mut i: usize = 0;
        for c in it: text.chars()
            invariant
                i == it.index(),
                len == text@.len(),
                w == cells@.len(),
                before.len() == w,
                it.seq() == text@,
                start == label_start(w as int, centre as int, text@.len() as int),
                forall|j: int| 0 <= j < w ==> cells@[j] == (if start <= j < start + it.index() {
                    text@[j - start]
                } else {
                    before[j]
                }),
        {
            if i < w && start < w - i {
                cells.set(start + i, c);
            }
            i = i + 1;
        }
        proof {
            assert(cells@ =~= place_label(before, text@, centre as int));
        }
    }
    let mut row = String::new();
    for j in 0..w
        invariant
            w == cells@.len(),
            row@ == cells@.take(j as int),
    {
        push_char(&mut row, cells[j]);
        proof {
            assert(cells@.take(j + 1) =~= cells@.take(j as int).push(cells@[j as int]));
        }
    }
    proof {
        assert(cells@.take(w as int) =~= cells@);
    }
    row
}

} // verus!
