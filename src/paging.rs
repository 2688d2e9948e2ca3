//! Pagination arithmetic for collection listings.
use vstd::prelude::*;

verus! {

/// Query parameters of a collection listing.
pub struct ListQuery {
    pub page: Option<i32>,
    pub per_page: Option<i32>,
    pub sort: Option<String>,
    pub filter: Option<String>,
    pub expand: Option<String>,
}

/// Identity of a signed-in user as a listing shows it.
pub struct UserSessionInfo {
    pub id: String,
    pub name: Option<String>,
    pub email: String,
}

#[verifier::external_type_specification]
#[verifier::external_body]
pub struct ExJsonValue(serde_json::Value);

/// A payload with optional metadata, as listings return it.
pub struct DataList<T> {
    pub data: T,
    pub meta: Option<serde_json::Value>,
}

impl<T> DataList<T> {
    pub fn new(data: T) -> (r: DataList<T>)
        ensures
            r.data == data,
            r.meta is None,
    {
        DataList { data, meta: None }
    }

    pub fn with_meta(data: T, meta: serde_json::Value) -> (r: DataList<T>)
        ensures
            r.data == data,
            r.meta == Some(meta),
    {
        DataList { data, meta: Some(meta) }
    }
}

/// Page bookkeeping of a listing.
pub struct PaginationMeta {
    pub page: i32,
    pub per_page: i32,
    pub total_items: i64,
    pub total_pages: i64,
}

/// The least integer not below `t / p`, for `p > 0`.
pub open spec fn ceil_div(t: int, p: int) -> int
    recommends
        p > 0,
{
    if t >= 0 {
        (t + p - 1) / p
    } else {
        -((-t) / p)
    }
}

/// Pages needed for `t` items at `p` per page, the page size taken by its magnitude; with
/// no page size, every item count but zero needs unboundedly many pages.
pub open spec fn pages_needed(t: int, p: int) -> int {
    if p > 0 {
        ceil_div(t, p)
    } else if p < 0 {
        ceil_div(-t, -p)
    } else if t > 0 {
        i64::MAX as int
    } else if t < 0 {
        i64::MIN as int
    } else {
        0
    }
}

/// `v` held within the range of `i64`.
pub open spec fn clamp_i64(v: int) -> i64 {
    if v > i64::MAX {
        i64::MAX
    } else if v < i64::MIN {
        i64::MIN
    } else {
        v as i64
    }
}

proof fn lemma_ceil_div_bounds(t: int, p: int)
    requires
        p > 0,
    ensures
        t >= 0 ==> 0 <= ceil_div(t, p) <= t,
        t < 0 ==> t <= ceil_div(t, p) <= 0,
{
    if t >= 0 {
        assert(0 <= (t + p - 1) / p <= t) by (nonlinear_arith)
            requires
                t >= 0,
                p > 0,
        ;
    } else {
        assert(0 <= (-t) / p <= -t) by (nonlinear_arith)
            requires
                t < 0,
                p > 0,
        ;
    }
}

/// The ceiling of `t / p`, for `p > 0` and `|t| <= 2^63`.
fn ceil_div_exec(t: i128, p: i128) -> (r: i128)
    requires
        p > 0,
        -0x8000_0000_0000_0000 <= t <= 0x8000_0000_0000_0000,
        p <= 0x8000_0000,
    ensures
        r == ceil_div(t as int, p as int),
{
    proof {
        lemma_ceil_div_bounds(t as int, p as int);
    }
    let q = p as u128;
    if t >= 0 {
        let m = t as u128;
        ((m + q - 1) / q) as i128
    } else {
        let m = (-t) as u128;
        -((m / q) as i128)
    }
}

impl PaginationMeta {
    /// Bookkeeping for `total_items` items shown `per_page` to a page; `total_pages` is
    /// the ceiling of `total_items / per_page`, held within `i64`.
    pub fn new(page: i32, per_page: i32, total_items: i64) -> (r: PaginationMeta)
        ensures
            r.page == page,
            r.per_page == per_page,
            r.total_items == total_items,
            r.total_pages == clamp_i64(pages_needed(total_items as int, per_page as int)),
    {
        let t = total_items as i128;
        let p = per_page as i128;
        let v: i128 = if p > 0 {
            ceil_div_exec(t, p)
        } else if p < 0 {
            ceil_div_exec(-t, -p)
        } else if t > 0 {
            i64::MAX as i128
        } else if t < 0 {
            i64::MIN as i128
        } else {
            0
        };
        let total_pages: i64 = if v > i64::MAX as i128 {
            i64::MAX
        } else if v < i64::MIN as i128 {
            i64::MIN
        } else {
            v as i64
        };
        PaginationMeta { page, per_page, total_items, total_pages }
    }
}

/// Rows to skip before the first row of page `page` (counted from 1).
pub fn calculate_offset(page: i32, per_page: i32) -> (r: i32)
    requires
        i32::MIN <= (page - 1) * per_page <= i32::MAX,
    ensures
        r == (page - 1) * per_page,
{
    let k: i64 = page as i64 - 1;
    let v: i64 = k * per_page as i64;
    v as i32
}

/// `a / b` rounded toward zero, for `b > 0`.
pub open spec fn trunc_div(a: int, b: int) -> int
    recommends
        b > 0,
{
    if a >= 0 {
        a / b
    } else {
        -((-a) / b)
    }
}

/// Pages for `t` items at `p` to a page: none for no items, else `(t + p - 1) / p`
/// rounded toward zero, which is the ceiling of `t / p` for a positive `t`.
pub open spec fn total_pages_of(t: int, p: int) -> int {
    if t == 0 {
        0
    } else {
        trunc_div(t + p - 1, p)
    }
}

/// Pages needed for `total_items` items at `per_page` to a page: none for no items.
pub fn calculate_total_pages(total_items: i32, per_page: i32) -> (r: i32)
    requires
        total_items == 0 || per_page > 0,
    ensures
        r == total_pages_of(total_items as int, per_page as int),
        total_items > 0 ==> r == ceil_div(total_items as int, per_page as int),
{
    if total_items == 0 {
        return 0;
    }
    let a: i64 = total_items as i64 + per_page as i64 - 1;
    let b: u64 = per_page as u64;
    proof {
        let ai = a as int;
        let bi = b as int;
        if ai >= 0 {
            assert(0 <= ai / bi <= ai) by (nonlinear_arith)
                requires
                    ai >= 0,
                    bi > 0,
            ;
        } else {
            assert(0 <= (-ai) / bi <= -ai) by (nonlinear_arith)
                requires
                    ai < 0,
                    bi > 0,
            ;
        }
        if total_items > 0 {
            assert(ai / bi <= total_items) by (nonlinear_arith)
                requires
                    ai == total_items + bi - 1,
                    total_items > 0,
                    bi > 0,
            ;
        }
    }
    let q: i64 = if a >= 0 {
        ((a as u64) / b) as i64
    } else {
        -(((-a) as u64 / b) as i64)
    };
    q as i32
}

} // verus!
