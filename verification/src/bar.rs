//! Progress-bar rendering.
//!
//! A bar is a fixed-width piece of text: an opening delimiter, ten interior
//! cells showing the filled proportion as `=` against spaces, and a closing
//! delimiter. The delimiters must be exactly one character each.

use vstd::prelude::*;

verus! {

/// The number of interior cells of every bar.
pub const BAR_CELLS: u8 = 10;

/// `n` copies of the character `c`.
pub open spec fn repeat_char(c: char, n: nat) -> Seq<char> {
    Seq::new(n, |_i: int| c)
}

/// The full text of a bar: the opening delimiter, `filled` cells of `=`,
/// the remaining cells as spaces, and the closing delimiter.
pub open spec fn bar_view(open_delim: char, close_delim: char, filled: int) -> Seq<char>
    recommends
        0 <= filled <= BAR_CELLS,
{
    seq![open_delim] + repeat_char('=', filled as nat) + repeat_char(
        ' ',
        (BAR_CELLS - filled) as nat,
    ) + seq![close_delim]
}

/// Whether `d` is a valid delimiter: exactly one character long.
pub fn delim_ok(d: &str) -> (r: bool)
    ensures
        r == (d@.len() == 1),
{
    d.unicode_len() == 1
}

/// Render the bar for `filled` cells out of ten into a fresh string,
/// wrapped in the two delimiters. The result is always twelve characters.
pub fn render_bar(open_delim: &str, close_delim: &str, filled: u8) -> (r: String)
    requires
        open_delim@.len() == 1,
        close_delim@.len() == 1,
        filled <= BAR_CELLS,
    ensures
        r@ == bar_view(open_delim@[0], close_delim@[0], filled as int),
        r@.len() == 12,
{
    let mut r = String::from_str(open_delim);
    proof {
        assert(open_delim@ =~= seq![open_delim@[0]]);
        assert(r@ =~= seq![open_delim@[0]] + repeat_char('=', 0));
    }
    let mut i: u8 = 0;
    while i < filled
        invariant
            i <= filled <= BAR_CELLS,
            open_delim@.len() == 1,
            r@ == seq![open_delim@[0]] + repeat_char('=', i as nat),
        decreases filled - i,
    {
        r.append("=");
        proof {
            reveal_strlit("=");
            assert(r@ =~= seq![open_delim@[0]] + repeat_char('=', (i + 1) as nat));
        }
        i += 1;
    }
    let mut j: u8 = 0;
    while j < BAR_CELLS - filled
        invariant
            j <= BAR_CELLS - filled,
            filled <= BAR_CELLS,
            open_delim@.len() == 1,
            r@ == seq![open_delim@[0]] + repeat_char('=', filled as nat) + repeat_char(
                ' ',
                j as nat,
            ),
        decreases BAR_CELLS - filled - j,
    {
        r.append(" ");
        proof {
            reveal_strlit(" ");
            assert(r@ =~= seq![open_delim@[0]] + repeat_char('=', filled as nat) + repeat_char(
                ' ',
                (j + 1) as nat,
            ));
        }
        j += 1;
    }
    r.append(close_delim);
    proof {
        assert(close_delim@ =~= seq![close_delim@[0]]);
        assert(r@ =~= bar_view(open_delim@[0], close_delim@[0], filled as int));
    }
    r
}

/// Length invariant: for every fill level from empty to full, the bar's
/// text is exactly twelve characters — two delimiters around ten cells.
pub proof fn lemma_bar_view_len(open_delim: char, close_delim: char, filled: int)
    requires
        0 <= filled <= BAR_CELLS,
    ensures
        bar_view(open_delim, close_delim, filled).len() == 12,
{
}

} // verus!
