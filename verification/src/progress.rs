//! Drawing a progress bar as text.

use vstd::prelude::*;
use vstd::string::StringExecFns;

verus! {

/// The cell of a bar that stands for work done.
pub const FULL_CELL: char = '█';

/// The cell of a bar that stands for work ahead.
pub const EMPTY_CELL: char = '▁';

/// A bar of `width` cells of which the first `full` are filled.
pub open spec fn bar_cells(full: nat, width: nat) -> Seq<char> {
    Seq::new(
        width,
        |i: int|
            if i < full {
                FULL_CELL
            } else {
                EMPTY_CELL
            },
    )
}

/// Draws a bar of `width` cells of which the first `full` are filled.
pub fn progress_bar(full: usize, width: usize) -> (bar: String)
    requires
        full <= width,
    ensures
        bar@ == bar_cells(full as nat, width as nat),
{
    let mut bar = String::new();
    let mut drawn: usize = 0;
    proof {
        reveal_strlit("█");
        reveal_strlit("▁");
    }
    while drawn < width
        invariant
            drawn <= width,
            full <= width,
            "█"@ == seq![FULL_CELL],
            "▁"@ == seq![EMPTY_CELL],
            bar@ == bar_cells(full as nat, drawn as nat),
        decreases width - drawn,
    {
        if drawn < full {
            bar.append("█");
        } else {
            bar.append("▁");
        }
        drawn = drawn + 1;
        assert(bar@ =~= bar_cells(full as nat, drawn as nat));
    }
    bar
}

} // verus!
