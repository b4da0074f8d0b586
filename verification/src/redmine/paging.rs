//! Pagination over the Redmine issue list, and the retry schedule of the API
//! clients.

use vstd::prelude::*;

use core::time::Duration;

use crate::redmine::model::ImportError;

verus! {

/// The offset of the page that follows, or `None` at the end of the list.
pub open spec fn next_offset(current_offset: u64, total_count: u64, page_len: u64) -> Result<
    Option<u64>,
    ImportError,
> {
    if page_len == 0 {
        if current_offset >= total_count {
            Ok(None)
        } else {
            Err(ImportError::EmptyPageBeforeEnd { offset: current_offset, total_count })
        }
    } else if total_count == 0 {
        Err(ImportError::InvalidTotalCount)
    } else if current_offset + page_len > u64::MAX {
        Err(ImportError::OffsetOverflow)
    } else if current_offset + page_len >= total_count {
        Ok(None)
    } else {
        Ok(Some((current_offset + page_len) as u64))
    }
}

/// Where the next page of the Redmine issue list starts, given the offset of
/// the page just read, the total that Redmine reported, and how many issues
/// the page held.
pub fn next_page_offset(current_offset: u64, total_count: u64, page_len: u64) -> (r: Result<
    Option<u64>,
    ImportError,
>)
    ensures
        r == next_offset(current_offset, total_count, page_len),
{
    if page_len == 0 {
        if current_offset >= total_count {
            return Ok(None);
        }
        return Err(ImportError::EmptyPageBeforeEnd { offset: current_offset, total_count });
    }
    if total_count == 0 {
        return Err(ImportError::InvalidTotalCount);
    }
    let next_offset = match current_offset.checked_add(page_len) {
        Some(next) => next,
        None => return Err(ImportError::OffsetOverflow),
    };
    if next_offset >= total_count {
        Ok(None)
    } else if next_offset <= current_offset {
        Err(ImportError::OffsetNotAdvancing)
    } else {
        Ok(Some(next_offset))
    }
}

/// A page that is followed by another starts strictly before it, and the
/// list ends once the reported total is reached.
pub proof fn lemma_pagination_advances(current_offset: u64, total_count: u64, page_len: u64)
    ensures
        next_offset(current_offset, total_count, page_len) matches Ok(Some(next)) ==> current_offset
            < next < total_count,
        current_offset >= total_count && page_len == 0 ==> next_offset(
            current_offset,
            total_count,
            page_len,
        ) == Ok::<Option<u64>, ImportError>(None),
{
}

pub open spec fn pow2(n: nat) -> nat
    decreases n,
{
    if n == 0 {
        1
    } else {
        2 * pow2((n - 1) as nat)
    }
}

/// The delay before retry number `attempt + 1`: the base delay doubled once
/// per attempt, at most ten times, saturating at `u64::MAX` milliseconds.
pub open spec fn retry_delay_ms(attempt: u32, base_delay_ms: u64) -> nat {
    let doublings = if attempt < 10 {
        attempt as nat
    } else {
        10
    };
    let product = base_delay_ms * pow2(doublings);
    if product > u64::MAX {
        u64::MAX as nat
    } else {
        product as nat
    }
}

/// A duration of the given number of milliseconds, as
/// `Duration::from_millis` builds it.
pub uninterp spec fn duration_of_millis(ms: u64) -> Duration;

/// `Duration::from_millis`.
#[verifier::external_body]
fn duration_from_millis(ms: u64) -> (d: Duration)
    ensures
        d == duration_of_millis(ms),
{
    Duration::from_millis(ms)
}

pub fn retry_delay_millis(attempt: u32, base_delay_ms: u64) -> (ms: u64)
    ensures
        ms == retry_delay_ms(attempt, base_delay_ms),
{
    let doublings: u32 = if attempt < 10 {
        attempt
    } else {
        10
    };
    let mut multiplier: u64 = 1;
    let mut k: u32 = 0;
    while k < doublings
        invariant
            k <= doublings <= 10,
            multiplier == pow2(k as nat),
            multiplier <= 1024,
        decreases doublings - k,
    {
        proof {
            assert(pow2((k + 1) as nat) == 2 * pow2(k as nat));
            if k < 10 {
                lemma_pow2_bound(k as nat);
            }
        }
        multiplier = multiplier * 2;
        k = k + 1;
    }
    match base_delay_ms.checked_mul(multiplier) {
        Some(product) => product,
        None => u64::MAX,
    }
}

proof fn lemma_pow2_bound(n: nat)
    requires
        n < 10,
    ensures
        pow2(n) <= 512,
    decreases 9 - n,
{
    if n < 9 {
        lemma_pow2_bound(n + 1);
        assert(pow2(n + 1) == 2 * pow2(n));
    } else {
        reveal_with_fuel(pow2, 10);
    }
}

/// From the tenth attempt on, the delay stays the same.
pub proof fn lemma_retry_delay_saturates(a: u32, b: u32, base_delay_ms: u64)
    requires
        a >= 10,
        b >= 10,
    ensures
        retry_delay_ms(a, base_delay_ms) == retry_delay_ms(b, base_delay_ms),
{
}

/// Before the tenth attempt, each attempt doubles the delay, as long as the
/// doubled delay fits.
pub proof fn lemma_retry_delay_doubles(attempt: u32, base_delay_ms: u64)
    requires
        attempt < 9,
        base_delay_ms * pow2((attempt + 1) as nat) <= u64::MAX,
    ensures
        retry_delay_ms((attempt + 1) as u32, base_delay_ms) == 2 * retry_delay_ms(
            attempt,
            base_delay_ms,
        ),
{
    assert(pow2((attempt + 1) as nat) == 2 * pow2(attempt as nat));
    assert(base_delay_ms * pow2((attempt + 1) as nat) == 2 * (base_delay_ms * pow2(
        attempt as nat,
    ))) by (nonlinear_arith)
        requires
            pow2((attempt + 1) as nat) == 2 * pow2(attempt as nat),
    ;
}

/// The delay before retry number `attempt + 1`.
pub fn retry_delay(attempt: u32, base_delay_ms: u64) -> (d: Duration)
    ensures
        d == duration_of_millis(retry_delay_ms(attempt, base_delay_ms) as u64),
{
    duration_from_millis(retry_delay_millis(attempt, base_delay_ms))
}

/// Responses worth retrying: server errors, request timeouts and rate limits.
pub open spec fn retryable(status: u16) -> bool {
    (500 <= status <= 599) || status == 408 || status == 429 || status == 503
}

/// Whether a response with this HTTP status code is worth retrying.
pub fn is_retryable_status(status: u16) -> (r: bool)
    ensures
        r == retryable(status),
{
    (500 <= status && status <= 599) || status == 408 || status == 429 || status == 503
}

/// A Redmine user ID, accepted only when positive.
pub fn positive_redmine_user_id(id: i64) -> (r: Option<i64>)
    ensures
        r == (if id > 0 {
            Some(id)
        } else {
            None
        }),
{
    if id <= 0 {
        None
    } else {
        Some(id)
    }
}

/// The first 512 characters of an error body.
pub fn truncate_for_error(value: &str) -> (r: String)
    ensures
        r@ == (if value@.len() <= 512 {
            value@
        } else {
            value@.subrange(0, 512)
        }),
{
    let chars = crate::text::chars_of(value);
    let mut kept: Vec<char> = Vec::new();
    let mut i: usize = 0;
    while i < chars.len() && i < 512
        invariant
            i <= chars@.len(),
            i <= 512,
            chars@ == value@,
            kept@ == chars@.subrange(0, i as int),
        decreases chars@.len() - i,
    {
        kept.push(chars[i]);
        i = i + 1;
        assert(kept@ =~= chars@.subrange(0, i as int));
    }
    proof {
        if value@.len() <= 512 {
            assert(kept@ =~= value@);
        }
    }
    crate::text::string_of(&kept)
}

/// The backoff starts at the base delay and doubles with each attempt up
/// to the tenth, saturating at `u64::MAX`; from the tenth attempt on it
/// stays the same.
pub proof fn lemma_retry_delay_schedule(attempt: u32, base_delay_ms: u64)
    ensures
        retry_delay_ms(0, base_delay_ms) == base_delay_ms,
        attempt < 10 ==> retry_delay_ms((attempt + 1) as u32, base_delay_ms) == if 2
            * retry_delay_ms(attempt, base_delay_ms) > u64::MAX {
            u64::MAX as nat
        } else {
            2 * retry_delay_ms(attempt, base_delay_ms)
        },
        attempt >= 10 ==> retry_delay_ms(attempt, base_delay_ms) == retry_delay_ms(
            10,
            base_delay_ms,
        ),
{
    assert(pow2(0) == 1);
    assert(base_delay_ms * pow2(0) == base_delay_ms) by (nonlinear_arith)
        requires
            pow2(0) == 1,
    ;
    if attempt < 10 {
        let n = attempt as nat;
        assert(pow2(n + 1) == 2 * pow2(n));
        let x = base_delay_ms * pow2(n);
        assert(base_delay_ms * pow2(n + 1) == 2 * x) by (nonlinear_arith)
            requires
                pow2(n + 1) == 2 * pow2(n),
                x == base_delay_ms * pow2(n),
        ;
    }
}

} // verus!
