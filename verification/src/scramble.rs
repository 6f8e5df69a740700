//! The write buffer and its page-aware mutation between iterations.
//!
//! A buffer is cut into pages of `pagesize` bytes (one page spanning the whole
//! buffer where `pagesize` is 0). Each iteration folds, in every page, the byte
//! after the iteration's slot into the byte at that slot with XOR, so that
//! successive writes differ while costing one byte operation per page.

use vstd::prelude::*;
use vstd::arithmetic::div_mod::{
    lemma_fundamental_div_mod,
    lemma_fundamental_div_mod_converse,
    lemma_small_mod,
};
use vstd::arithmetic::power2::is_pow2;
use crate::entropy::random_byte;
use crate::powers::{lemma_mask_is_mod, lemma_pow2_positive};

verus! {

/// Width in bytes of one page of a buffer of `len` bytes.
pub open spec fn page_span(len: nat, pagesize: u64) -> nat {
    if pagesize == 0 {
        len
    } else {
        pagesize as nat
    }
}

/// Number of whole pages in a buffer of `len` bytes.
pub open spec fn page_count(len: nat, pagesize: u64) -> nat {
    if pagesize == 0 {
        1
    } else {
        len / (pagesize as nat)
    }
}

/// The iteration that follows `iteration`, wrapping at the top of `u64`.
pub open spec fn successor(iteration: u64) -> u64 {
    if iteration == u64::MAX {
        0
    } else {
        (iteration + 1) as u64
    }
}

/// The byte offset inside a page of `span` bytes that `iteration` selects.
pub open spec fn slot(span: nat, iteration: u64) -> nat {
    (iteration & ((span - 1) as u64)) as nat
}

/// The buffer after one mutation: in every whole page the byte at the
/// iteration's slot becomes its XOR with the byte at the following iteration's
/// slot of the same page; every other byte stays.
pub open spec fn scrambled(data: Seq<u8>, pagesize: u64, iteration: u64) -> Seq<u8> {
    let span = page_span(data.len(), pagesize);
    let this = slot(span, iteration) as int;
    let next = slot(span, successor(iteration)) as int;
    let covered = (page_count(data.len(), pagesize) * span) as int;
    Seq::new(data.len(), |i: int| scrambled_byte(data, span as int, this, next, covered, i))
}

/// Byte `i` of the mutated buffer, for pages of `span` bytes of which the
/// first `covered` bytes of the buffer are made up.
pub open spec fn scrambled_byte(
    data: Seq<u8>,
    span: int,
    this: int,
    next: int,
    covered: int,
    i: int,
) -> u8 {
    if i < covered && i % span == this {
        data[i] ^ data[i - this + next]
    } else {
        data[i]
    }
}

/// A buffer of `n` zero bytes.
pub fn zero(n: usize) -> (v: Vec<u8>)
    ensures
        v@ == Seq::new(n as nat, |i: int| 0u8),
{
    let mut v: Vec<u8> = Vec::new();
    let mut k: usize = 0;
    while k < n
        invariant
            k <= n,
            v@ == Seq::new(k as nat, |i: int| 0u8),
        decreases n - k,
    {
        v.push(0u8);
        k += 1;
        assert(v@ =~= Seq::new(k as nat, |i: int| 0u8));
    }
    v
}

/// A buffer of `n` bytes from the random number generator of the thread.
pub fn random_bytes(n: usize) -> (v: Vec<u8>)
    ensures
        v@.len() == n,
{
    let mut v: Vec<u8> = Vec::new();
    let mut k: usize = 0;
    while k < n
        invariant
            k <= n,
            v@.len() == k,
        decreases n - k,
    {
        v.push(random_byte());
        k += 1;
    }
    v
}

proof fn lemma_mask_bounded(x: u64, m: u64)
    ensures
        x & m <= m,
{
    assert(x & m <= m) by (bit_vector);
}

/// Inside page number `page`, the position relative to the page start is the
/// remainder modulo the page width.
proof fn lemma_page_position(i: int, span: int, page: int)
    requires
        span > 0,
        page * span <= i < page * span + span,
    ensures
        i % span == i - page * span,
{
    lemma_fundamental_div_mod_converse(i, span, page, i - page * span);
}

/// Mutates the buffer in place for one iteration.
///
/// `offset` is the iteration counter. The buffer must not be empty where
/// `pagesize` is 0, because the whole buffer is the page in that case.
pub fn xor_scramble(data: &mut Vec<u8>, pagesize: u64, offset: u64)
    requires
        pagesize != 0 || old(data).len() > 0,
    ensures
        final(data)@ == scrambled(old(data)@, pagesize, offset),
{
    let blocksize: u64 = data.len() as u64;
    let following: u64 = if offset == u64::MAX {
        0
    } else {
        offset + 1
    };
    let ghost before: Seq<u8> = data@;
    if pagesize != 0 {
        let num_pages: u64 = blocksize / pagesize;
        let this: u64 = offset & (pagesize - 1);
        let next: u64 = following & (pagesize - 1);
        let ghost span: int = pagesize as int;
        proof {
            lemma_mask_bounded(offset, (pagesize - 1) as u64);
            lemma_mask_bounded(following, (pagesize - 1) as u64);
            lemma_fundamental_div_mod(blocksize as int, span);
            assert(num_pages * span <= blocksize) by (nonlinear_arith)
                requires
                    blocksize == span * (blocksize as int / span) + (blocksize as int % span),
                    num_pages == blocksize as int / span,
                    0 <= blocksize as int % span,
            ;
        }
        let mut page: u64 = 0;
        let mut base: u64 = 0;
        while page < num_pages
            invariant
                span == pagesize > 0,
                this < span,
                next < span,
                page <= num_pages,
                num_pages * span <= blocksize,
                blocksize == before.len(),
                base == page * span,
                data@.len() == before.len(),
                forall|i: int|
                    0 <= i < before.len() ==> #[trigger] data@[i] == scrambled_byte(
                        before,
                        span,
                        this as int,
                        next as int,
                        base as int,
                        i,
                    ),
            decreases num_pages - page,
        {
            proof {
                assert((page + 1) * span <= num_pages * span) by (nonlinear_arith)
                    requires
                        page + 1 <= num_pages,
                        span > 0,
                ;
                assert((page + 1) * span == page * span + span) by (nonlinear_arith);
            }
            let here: usize = (base + this) as usize;
            let there: usize = (base + next) as usize;
            let ghost prior: Seq<u8> = data@;
            let mixed: u8 = data[here] ^ data[there];
            data.set(here, mixed);
            proof {
                lemma_page_position(here as int, span, page as int);
                lemma_page_position(there as int, span, page as int);
                assert(prior[here as int] == before[here as int]);
                assert(prior[there as int] == before[there as int]);
                assert forall|i: int| 0 <= i < before.len() implies #[trigger] data@[i]
                    == scrambled_byte(before, span, this as int, next as int, base + span, i) by {
                    if base <= i < base + span {
                        lemma_page_position(i, span, page as int);
                    }
                    assert(prior[i] == scrambled_byte(
                        before,
                        span,
                        this as int,
                        next as int,
                        base as int,
                        i,
                    ));
                }
            }
            base = base + pagesize;
            page = page + 1;
        }
        assert(data@ =~= scrambled(before, pagesize, offset));
    } else {
        let this: u64 = offset & (blocksize - 1);
        let next: u64 = following & (blocksize - 1);
        proof {
            lemma_mask_bounded(offset, (blocksize - 1) as u64);
            lemma_mask_bounded(following, (blocksize - 1) as u64);
        }
        let mixed: u8 = data[this as usize] ^ data[next as usize];
        data.set(this as usize, mixed);
        proof {
            assert forall|i: int| 0 <= i < before.len() implies #[trigger] data@[i]
                == scrambled_byte(
                before,
                blocksize as int,
                this as int,
                next as int,
                1 * blocksize,
                i,
            ) by {
                lemma_small_mod(i as nat, blocksize as nat);
            }
            assert(data@ =~= scrambled(before, pagesize, offset));
        }
    }
}

proof fn lemma_xor_changes(a: u8, b: u8)
    ensures
        (a ^ b != a) <==> b != 0,
        0u8 ^ 0u8 == 0u8,
{
    assert((a ^ b != a) <==> b != 0) by (bit_vector);
    assert(0u8 ^ 0u8 == 0u8) by (bit_vector);
}

/// A page lies inside the span that the whole pages cover.
proof fn lemma_page_inside(len: nat, pagesize: u64, page: nat)
    requires
        pagesize != 0 || len > 0,
        page < page_count(len, pagesize),
    ensures
        0 <= page * page_span(len, pagesize),
        page * page_span(len, pagesize) + page_span(len, pagesize) <= page_count(len, pagesize)
            * page_span(len, pagesize) <= len,
{
    let span = page_span(len, pagesize) as int;
    let count = page_count(len, pagesize) as int;
    if pagesize != 0 {
        lemma_fundamental_div_mod(len as int, span);
        assert(count * span <= len) by (nonlinear_arith)
            requires
                len == span * count + (len as int % span),
                0 <= len as int % span,
        ;
    }
    assert(page * span + span <= count * span && 0 <= page * span) by (nonlinear_arith)
        requires
            0 <= page < count,
            span > 0,
    ;
}

/// The slot of an iteration lies inside the page.
pub proof fn lemma_slot_in_page(span: nat, iteration: u64)
    requires
        1 <= span <= u64::MAX,
    ensures
        slot(span, iteration) < span,
{
    lemma_mask_bounded(iteration, (span - 1) as u64);
}

/// With a page size that is a power of two, the slot of an iteration is the
/// iteration counter modulo the page size, and the slot that is folded in is
/// that of the counter plus one.
pub proof fn lemma_slots_are_remainders(pagesize: u64, iteration: u64)
    requires
        is_pow2(pagesize as int),
    ensures
        slot(pagesize as nat, iteration) == iteration % pagesize,
        slot(pagesize as nat, successor(iteration)) == (iteration + 1) % (pagesize as int),
{
    lemma_pow2_positive(pagesize as int);
    lemma_mask_is_mod(iteration, pagesize);
    lemma_mask_is_mod(successor(iteration), pagesize);
    if iteration == u64::MAX {
        let top: u64 = u64::MAX;
        let mask: u64 = (pagesize - 1) as u64;
        lemma_mask_is_mod(top, pagesize);
        assert(top & mask == mask) by (bit_vector)
            requires
                top == 0xffff_ffff_ffff_ffffu64,
        ;
        lemma_fundamental_div_mod(top as int, pagesize as int);
        let q = top as int / (pagesize as int);
        assert(top + 1 == (q + 1) * pagesize + 0) by (nonlinear_arith)
            requires
                top == pagesize * q + (pagesize - 1),
        ;
        lemma_fundamental_div_mod_converse(top + 1, pagesize as int, q + 1, 0);
        assert(0u64 & mask == 0) by (bit_vector);
    }
}

/// A buffer that holds only zero bytes is a fixed point of the mutation.
pub proof fn lemma_zero_buffer_is_fixed(data: Seq<u8>, pagesize: u64, iteration: u64)
    requires
        data.len() <= u64::MAX,
        forall|i: int| 0 <= i < data.len() ==> data[i] == 0,
    ensures
        scrambled(data, pagesize, iteration) == data,
{
    let span = page_span(data.len(), pagesize);
    let this = slot(span, iteration) as int;
    let next = slot(span, successor(iteration)) as int;
    let covered = page_count(data.len(), pagesize) * span;
    lemma_xor_changes(0, 0);
    assert forall|i: int| 0 <= i < data.len() implies scrambled(data, pagesize, iteration)[i]
        == data[i] by {
        if i < covered && i % (span as int) == this {
            lemma_slot_in_page(span, successor(iteration));
            lemma_fundamental_div_mod(i, span as int);
            let page = i / (span as int);
            assert(page >= 0 && page < page_count(data.len(), pagesize)) by (nonlinear_arith)
                requires
                    i == span * page + this,
                    0 <= this < span,
                    0 <= i < page_count(data.len(), pagesize) * span,
            ;
            lemma_page_inside(data.len(), pagesize, page as nat);
            assert(span * page == page * span) by (nonlinear_arith);
            assert(0 <= i - this + next < data.len());
        }
    }
    assert(scrambled(data, pagesize, iteration) =~= data);
}

/// What the slot of page number `page` holds after the mutation: the XOR of
/// the two bytes that the iteration selects in that page. It differs from the
/// byte before exactly when the byte folded in is not zero.
pub proof fn lemma_slot_after(data: Seq<u8>, pagesize: u64, iteration: u64, page: nat)
    requires
        data.len() <= u64::MAX,
        pagesize != 0 || data.len() > 0,
        page < page_count(data.len(), pagesize),
    ensures
        ({
            let span = page_span(data.len(), pagesize);
            let here = (page * span + slot(span, iteration)) as int;
            let there = (page * span + slot(span, successor(iteration))) as int;
            let after = scrambled(data, pagesize, iteration);
            &&& 0 <= here < data.len()
            &&& 0 <= there < data.len()
            &&& after[here] == data[here] ^ data[there]
            &&& after[here] != data[here] <==> data[there] != 0
        }),
{
    let span = page_span(data.len(), pagesize);
    let here = (page * span + slot(span, iteration)) as int;
    let there = (page * span + slot(span, successor(iteration))) as int;
    lemma_page_inside(data.len(), pagesize, page);
    lemma_slot_in_page(span, iteration);
    lemma_slot_in_page(span, successor(iteration));
    lemma_page_position(here, span as int, page as int);
    lemma_xor_changes(data[here], data[there]);
}

/// Every byte that is not at the iteration's slot of a whole page stays.
pub proof fn lemma_other_bytes_stay(data: Seq<u8>, pagesize: u64, iteration: u64, i: int)
    requires
        0 <= i < data.len(),
        i % (page_span(data.len(), pagesize) as int) != slot(
            page_span(data.len(), pagesize),
            iteration,
        ) || i >= page_count(data.len(), pagesize) * page_span(data.len(), pagesize),
    ensures
        scrambled(data, pagesize, iteration)[i] == data[i],
{
}

} // verus!
