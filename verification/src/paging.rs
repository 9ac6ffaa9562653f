//! Page arithmetic shared by the table-paging queries.

use vstd::prelude::*;

verus! {

/// The half-open row range of one page of an `n`-row table, and the
/// number of pages. `page` is 1-based; a page past the end is empty.
pub fn page_bounds(n: usize, page: u64, per_page: u64) -> (r: (usize, usize, u64))
    requires
        1 <= page,
        1 <= per_page,
    ensures
        ({
            let start = (page - 1) as int * per_page as int;
            &&& r.0 as int == if start <= n as int {
                start
            } else {
                n as int
            }
            &&& r.1 as int == if start + per_page as int <= n as int {
                start + per_page as int
            } else {
                n as int
            }
            &&& r.0 <= r.1 <= n
            &&& r.2 as int == n as int / per_page as int + (if n as int % per_page as int != 0 {
                1int
            } else {
                0int
            })
        }),
{
    proof {
        let ghost a: u128 = (page - 1) as u128;
        let ghost b: u128 = per_page as u128;
        assert(a * b <= u128::MAX) by (nonlinear_arith)
            requires
                a <= 0xffffffffffffffff,
                b <= 0xffffffffffffffff,
        ;
    }
    let start128: u128 = ((page - 1) as u128) * (per_page as u128);
    let lo: usize = if start128 <= n as u128 {
        start128 as usize
    } else {
        n
    };
    let hi128: u128 = (lo as u128) + (per_page as u128);
    let hi: usize = if start128 <= n as u128 && hi128 <= n as u128 {
        hi128 as usize
    } else {
        n
    };
    let n128: u128 = n as u128;
    let per128: u128 = per_page as u128;
    proof {
        vstd::arithmetic::div_mod::lemma_div_is_ordered_by_denominator(
            n as int,
            1,
            per_page as int,
        );
        if per_page >= 2 {
            vstd::arithmetic::div_mod::lemma_div_is_ordered_by_denominator(
                n as int,
                2,
                per_page as int,
            );
            assert(n as int / 2 <= 0xffffffffffffffffint / 2) by (nonlinear_arith)
                requires
                    0 <= n as int <= 0xffffffffffffffffint,
            ;
        }
    }
    let pages128: u128 = n128 / per128 + (if n128 % per128 != 0 {
        1
    } else {
        0
    });
    let num_pages: u64 = pages128 as u64;
    (lo, hi, num_pages)
}

} // verus!
