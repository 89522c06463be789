//! Responsive grid layout arithmetic: how many columns of a minimum
//! width fit in the available width, and how wide each item becomes.

use vstd::prelude::*;

verus! {

/// Metrics of one responsive grid layout.
#[derive(Clone, Copy, Debug, PartialEq, Eq, Structural)]
pub struct GridMetrics {
    pub cols: usize,
    pub item_width: usize,
    pub column_spacing: u16,
}

/// The column count: one column always fits, and one more for every
/// further minimum width plus spacing of remaining room.
pub open spec fn spec_grid_cols(width: int, min_width: int, column_spacing: int) -> int {
    let width_m1 = if width >= min_width {
        width - min_width
    } else {
        0
    };
    width_m1 / (min_width + column_spacing) + 1
}

/// The width of each item: the available width minus the spacing between
/// columns, divided evenly.
pub open spec fn spec_grid_item_width(width: int, min_width: int, column_spacing: int) -> int {
    let cols_m1 = spec_grid_cols(width, min_width, column_spacing) - 1;
    let spent = cols_m1 * column_spacing;
    let rest = if width >= spent {
        width - spent
    } else {
        0
    };
    rest / (cols_m1 + 1)
}

impl GridMetrics {
    /// Compute the metrics for an available width, a minimum item width,
    /// and the spacing between columns. The width per column must be
    /// nonzero (else no column count is defined), and the machine must be
    /// able to hold the sum and the column count.
    pub fn new(width: usize, min_width: usize, column_spacing: u16) -> (r: GridMetrics)
        requires
            min_width + column_spacing >= 1,
            min_width + column_spacing <= usize::MAX,
            spec_grid_cols(width as int, min_width as int, column_spacing as int) <= usize::MAX,
        ensures
            r.cols == spec_grid_cols(width as int, min_width as int, column_spacing as int),
            r.item_width == spec_grid_item_width(
                width as int,
                min_width as int,
                column_spacing as int,
            ),
            r.column_spacing == column_spacing,
    {
        let width_m1 = if width >= min_width {
            width - min_width
        } else {
            0
        };
        let cols_m1 = width_m1 / (min_width + column_spacing as usize);
        proof {
            assert(cols_m1 as int == spec_grid_cols(
                width as int,
                min_width as int,
                column_spacing as int,
            ) - 1);
            let d = (min_width + column_spacing as usize) as int;
            vstd::arithmetic::div_mod::lemma_fundamental_div_mod(width_m1 as int, d);
            vstd::arithmetic::div_mod::lemma_mod_bound(width_m1 as int, d);
            vstd::arithmetic::mul::lemma_mul_is_commutative(cols_m1 as int, d);
            assert(cols_m1 * (min_width + column_spacing as usize) <= width_m1);
            assert(cols_m1 * (column_spacing as usize) <= cols_m1 * (min_width
                + column_spacing as usize)) by {
                vstd::arithmetic::mul::lemma_mul_inequality(
                    column_spacing as int,
                    (min_width + column_spacing as usize) as int,
                    cols_m1 as int,
                );
                vstd::arithmetic::mul::lemma_mul_is_commutative(
                    cols_m1 as int,
                    column_spacing as int,
                );
                vstd::arithmetic::mul::lemma_mul_is_commutative(
                    cols_m1 as int,
                    (min_width + column_spacing as usize) as int,
                );
            }
        }
        let cols = cols_m1 + 1;
        let spent = cols_m1 * (column_spacing as usize);
        let rest = if width >= spent {
            width - spent
        } else {
            0
        };
        let item_width = rest / cols;
        GridMetrics { cols, item_width, column_spacing }
    }
}

} // verus!
