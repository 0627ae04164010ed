//! The fixed block of memory that everything is allocated from: whether it may be
//! used yet, and which addresses belong to it.

use core::alloc::Layout;
use linked_list_allocator::Heap;
use vstd::arithmetic::power2::is_pow2;
use vstd::prelude::*;

verus! {

/// `linked_list_allocator`'s `Heap`, which finds room in the block: a list of the
/// runs of memory that are free.
#[verifier::external_type_specification]
#[verifier::external_body]
pub struct ExHeap(linked_list_allocator::Heap);

/// How many bytes the block has.
pub const ARENA_BYTES: usize = 0x1_0000;

/// What the block's mark holds once the block may be used. It is none of the
/// words that memory holds by itself after power is applied.
pub const READY: u32 = 0x484c_4c31;

/// The address that stands for no memory.
pub const NULL: usize = 0;

/// The free runs of memory that a heap lists: where each begins, and how many bytes
/// it has.
pub uninterp spec fn free_runs(heap: Heap) -> Map<int, int>;

/// Where the memory of a heap ends.
pub uninterp spec fn heap_top(heap: Heap) -> int;

/// How much room above a heap its list and an alignment can ask for, in bytes, beside
/// the alignment itself.
pub const SLACK: usize = 32;

/// How many bytes an address has.
pub open spec fn word() -> int {
    usize::BITS as int / 8
}

/// The shortest run that can be listed: its length and where the next one begins.
pub open spec fn shortest_run() -> int {
    2 * word()
}

/// A number moved up to the next multiple of another.
pub open spec fn rounded_up(x: int, to: int) -> int {
    (x + to - 1) / to * to
}

/// How many bytes are taken for a request of `size` bytes: whole words, and at least
/// what a run needs to be listed again.
pub open spec fn bytes_taken(size: int) -> int {
    rounded_up(if size < shortest_run() { shortest_run() } else { size }, word())
}

/// Whether a size and an alignment make a layout: the alignment is a power of two,
/// and the size does not grow too large when it is moved up to it.
pub open spec fn is_layout(size: int, align: int) -> bool {
    is_pow2(align) && rounded_up(size, align) <= isize::MAX
}

/// Where in a free run a block begins: at its start if that lies on the alignment,
/// else on the first alignment that leaves a run in front.
pub open spec fn start_in(run: int, align: int) -> int {
    if run % align == 0 {
        run
    } else {
        rounded_up(run + shortest_run(), align)
    }
}

/// Where in a free run a block ends.
pub open spec fn end_in(run: int, size: int, align: int) -> int {
    start_in(run, align) + bytes_taken(size)
}

/// Whether a block has room in a free run: it ends with the run, or leaves a run
/// behind it.
pub open spec fn has_room(runs: Map<int, int>, run: int, size: int, align: int) -> bool {
    let end = end_in(run, size, align);
    &&& runs.dom().contains(run)
    &&& end == run + runs[run] || end + shortest_run() <= run + runs[run]
}

/// Whether this is the lowest free run that has room for a block.
pub open spec fn is_first_fit(runs: Map<int, int>, run: int, size: int, align: int) -> bool {
    &&& has_room(runs, run, size, align)
    &&& forall|other: int| #[trigger] has_room(runs, other, size, align) ==> run <= other
}

/// Whether looking for room in a free run counts past the last address.
pub open spec fn counts_past_the_end(
    runs: Map<int, int>,
    run: int,
    size: int,
    align: int,
) -> bool {
    let end = end_in(run, size, align);
    &&& runs.dom().contains(run)
    &&& bytes_taken(size) <= runs[run]
    &&& end > usize::MAX || (end < run + runs[run] && end + shortest_run() > usize::MAX)
}

/// Whether a block can be looked for without counting past the last address: every
/// run ends before it, and room is found before a run in which the search would.
pub open spec fn in_reach(runs: Map<int, int>, size: int, align: int) -> bool {
    &&& forall|run: int| #[trigger] runs.dom().contains(run) ==> run + runs[run] <= usize::MAX
    &&& forall|run: int| #[trigger]
        counts_past_the_end(runs, run, size, align) ==> exists|lower: int|
            lower < run && #[trigger] has_room(runs, lower, size, align)
}

/// The free runs once `len` bytes at `p` were taken out of the run at `run`: what was
/// in front of them and what was behind them are left.
pub open spec fn without(runs: Map<int, int>, run: int, p: int, len: int) -> Map<int, int> {
    let end = run + runs[run];
    let front = if run < p {
        runs.insert(run, p - run)
    } else {
        runs.remove(run)
    };
    if p + len < end {
        front.insert(p + len, end - (p + len))
    } else {
        front
    }
}

/// Whether a request was served with the block at `p`: it was taken out of the
/// lowest free run that has room for it.
pub open spec fn served(
    before: Map<int, int>,
    after: Map<int, int>,
    p: int,
    size: int,
    align: int,
) -> bool {
    exists|run: int| #[trigger]
        is_first_fit(before, run, size, align) && p == start_in(run, align) && after == without(
            before,
            run,
            p,
            bytes_taken(size),
        )
}

/// Whether a request can be served: it has a layout, and some free run has room.
pub open spec fn can_be_served(runs: Map<int, int>, size: int, align: int) -> bool {
    is_layout(bytes_taken(size), align) && exists|run: int| #[trigger]
        has_room(runs, run, size, align)
}

/// Whether each free run has room of its own: none is empty, and no two overlap.
pub open spec fn apart(runs: Map<int, int>) -> bool {
    &&& forall|run: int| #[trigger] runs.dom().contains(run) ==> runs[run] > 0
    &&& forall|one: int, other: int| #[trigger]
        runs.dom().contains(one) && #[trigger] runs.dom().contains(other) && one != other ==> one
            + runs[one] <= other || other + runs[other] <= one
}

/// How many bytes are at least taken for a request: a block of its own even where
/// none were asked for.
pub open spec fn at_least_one(size: int) -> int {
    if size == 0 {
        1
    } else {
        size
    }
}

/// Whether the `size` bytes at `p` were taken out of the free run at `run`, and
/// nothing else changed: every other run is as it was, and what is left of this one
/// lies beside the bytes that were taken.
pub open spec fn taken_from(
    run: int,
    before: Map<int, int>,
    after: Map<int, int>,
    p: int,
    size: int,
) -> bool {
    &&& before.dom().contains(run)
    &&& run <= p
    &&& p + size <= run + before[run]
    &&& forall|other: int| #[trigger]
        before.dom().contains(other) && other != run ==> after.dom().contains(other)
            && after[other] == before[other]
    &&& forall|left: int| #[trigger]
        after.dom().contains(left) && (left == run || !before.dom().contains(left)) ==> run <= left
            && left + after[left] <= run + before[run] && (left + after[left] <= p || p + size
            <= left)
}

/// Whether the `size` bytes at `p` were taken out of one of the free runs.
pub open spec fn taken(before: Map<int, int>, after: Map<int, int>, p: int, size: int) -> bool {
    exists|run: int| #[trigger] taken_from(run, before, after, p, size)
}

/// Asks `linked_list_allocator`'s `Heap::top` where the memory of a heap ends. Every
/// free run of the heap lies below that.
#[verifier::external_body]
fn top_of(heap: &Heap) -> (top: usize)
    ensures
        top == heap_top(*heap),
        forall|run: int| #[trigger]
            free_runs(*heap).dom().contains(run) ==> run + free_runs(*heap)[run] <= top,
{
    heap.top().addr()
}

/// Looks for room with `linked_list_allocator`'s `Heap::allocate_first_fit`.
///
/// It serves a request exactly where the request has a layout and some free run has
/// room for the block, and takes the block out of the lowest such run. What it finds
/// is not at the null address; where it finds nothing, the free runs stay as they
/// are. No two free runs overlap. A search that would count past the last address is
/// left out: the crate's sums overflow there.
#[verifier::external_body]
fn first_fit(heap: &mut Heap, size: usize, align: usize) -> (found: Option<usize>)
    requires
        is_layout(bytes_taken(size as int), align as int) ==> in_reach(
            free_runs(*old(heap)),
            size as int,
            align as int,
        ),
    ensures
        found is Some <==> can_be_served(free_runs(*old(heap)), size as int, align as int),
        found matches Some(p) ==> p != NULL && served(
            free_runs(*old(heap)),
            free_runs(*final(heap)),
            p as int,
            size as int,
            align as int,
        ),
        found is None ==> free_runs(*final(heap)) == free_runs(*old(heap)),
        apart(free_runs(*old(heap))),
        heap_top(*final(heap)) == heap_top(*old(heap)),
{
    let layout = Layout::from_size_align(size, align).ok()?;
    heap.allocate_first_fit(layout).ok().map(|p| p.addr().get())
}

/// Moving up to a multiple goes up by less than it, and to a multiple.
proof fn rounding_goes_up(x: int, to: int)
    requires
        to > 0,
    ensures
        x <= rounded_up(x, to) < x + to,
        rounded_up(x, to) % to == 0,
{
    vstd::arithmetic::div_mod::lemma_fundamental_div_mod(x + to - 1, to);
    vstd::arithmetic::div_mod::lemma_mod_bound(x + to - 1, to);
    vstd::arithmetic::div_mod::lemma_mod_multiples_basic((x + to - 1) / to, to);
    assert(to * ((x + to - 1) / to) == (x + to - 1) / to * to) by (nonlinear_arith);
}

/// What holds of a block in a free run: it begins on its alignment and not before the
/// run, and it is as long as was asked for.
proof fn a_block_lies_in_its_run(run: int, size: int, align: int)
    requires
        align > 0,
        size >= 0,
    ensures
        run <= start_in(run, align) < run + shortest_run() + align,
        start_in(run, align) % align == 0,
        at_least_one(size) <= bytes_taken(size),
        4 <= word() <= 8,
{
    rounding_goes_up(run + shortest_run(), align);
    rounding_goes_up(if size < shortest_run() { shortest_run() } else { size }, word());
}

/// What is handed out was taken out of a free run and lies on its alignment, and what
/// is left free is apart again.
pub proof fn what_is_served_was_free(
    before: Map<int, int>,
    after: Map<int, int>,
    p: int,
    size: int,
    align: int,
)
    requires
        apart(before),
        align > 0,
        size >= 0,
        served(before, after, p, size, align),
    ensures
        p % align == 0,
        taken(before, after, p, at_least_one(size)),
        apart(after),
{
    let run = choose|run: int| #[trigger]
        is_first_fit(before, run, size, align) && p == start_in(run, align) && after == without(
            before,
            run,
            p,
            bytes_taken(size),
        );
    a_block_lies_in_its_run(run, size, align);
    let len = bytes_taken(size);
    let end = run + before[run];
    assert(run <= p && p + len <= end);
    assert forall|other: int| #[trigger]
        before.dom().contains(other) && other != run implies other != p + len || p + len >= end by {
        assert(other + before[other] <= run || end <= other);
    }
    assert(taken_from(run, before, after, p, at_least_one(size)));
    assert forall|one: int, other: int| #[trigger]
        after.dom().contains(one) && #[trigger] after.dom().contains(other) && one != other implies
        one + after[one] <= other || other + after[other] <= one by {
        if before.dom().contains(one) && one != run {
            assert(one + before[one] <= run || end <= one);
        }
        if before.dom().contains(other) && other != run {
            assert(other + before[other] <= run || end <= other);
        }
    }
}

/// The same free runs serve the same request with the same block and leave the same
/// runs: a block that is free again, with everything around it as it was, is handed
/// out again.
pub proof fn the_same_room_is_handed_out_again(
    runs: Map<int, int>,
    once: Map<int, int>,
    again: Map<int, int>,
    p: int,
    q: int,
    size: int,
    align: int,
)
    requires
        served(runs, once, p, size, align),
        served(runs, again, q, size, align),
    ensures
        p == q,
        once == again,
{
}

/// A block of memory that begins at some address, with a mark that says whether it
/// may be used.
pub struct Arena {
    lo: usize,
    mark: u32,
}

impl Arena {
    /// The block ends within the addresses that there are.
    #[verifier::type_invariant]
    closed spec fn wf(self) -> bool {
        self.lo + ARENA_BYTES <= usize::MAX + 1
    }

    /// Where the block begins.
    pub closed spec fn start(self) -> int {
        self.lo as int
    }

    /// What the mark holds.
    pub closed spec fn marked(self) -> u32 {
        self.mark
    }

    /// Whether an address lies in the block.
    pub open spec fn holds(self, p: int) -> bool {
        self.start() <= p < self.start() + ARENA_BYTES
    }

    /// Whether the block may be used.
    pub open spec fn ready(self) -> bool {
        self.marked() == READY
    }

    /// The block at an address, with whatever its mark happens to hold.
    pub fn new(lo: usize, mark: u32) -> (arena: Arena)
        requires
            lo + ARENA_BYTES <= usize::MAX + 1,
        ensures
            arena.start() == lo,
            arena.marked() == mark,
    {
        Arena { lo, mark }
    }

    /// Where the block begins.
    pub fn lo(&self) -> (lo: usize)
        ensures
            lo == self.start(),
    {
        self.lo
    }

    /// Whether an address lies in the block.
    pub fn contains(&self, p: usize) -> (inside: bool)
        ensures
            inside == self.holds(p as int),
            inside <==> self.start() <= p < self.start() + 0x1_0000,
    {
        proof {
            use_type_invariant(self);
        }
        p.wrapping_sub(self.lo) < ARENA_BYTES
    }

    /// Whether the block may be used.
    pub fn is_ready(&self) -> (ready: bool)
        ensures
            ready == self.ready(),
            ready <==> self.marked() == 0x484c_4c31,
    {
        self.mark == READY
    }

    /// Makes the block usable, and says whether the allocator has to be given the
    /// block now. It is given the block once.
    pub fn init_once(&mut self) -> (first: bool)
        ensures
            first == !old(self).ready(),
            first <==> old(self).marked() != 0x484c_4c31,
            final(self).marked() == 0x484c_4c31,
            final(self).ready(),
            final(self).start() == old(self).start(),
            old(self).ready() ==> *final(self) == *old(self),
    {
        if self.mark == READY {
            return false;
        }
        proof {
            use_type_invariant(&*self);
        }
        self.mark = READY;
        true
    }

    /// The address to hand out, where `first_fit` is what the allocator found:
    /// none before the block may be used, and none where it found none.
    pub fn hand_out(&self, first_fit: Option<usize>) -> (p: usize)
        ensures
            !self.ready() ==> p == NULL,
            self.marked() != 0x484c_4c31 ==> p == NULL,
            self.marked() == 0x484c_4c31 ==> p == (match first_fit {
                Some(found) => found,
                None => NULL,
            }),
            self.ready() ==> p == (match first_fit {
                Some(found) => found,
                None => NULL,
            }),
    {
        if self.mark != READY {
            return NULL;
        }
        match first_fit {
            Some(found) => found,
            None => NULL,
        }
    }

    /// Whether a heap lists no memory but that of this block.
    pub open spec fn owns(self, heap: Heap) -> bool {
        forall|run: int| #[trigger]
            free_runs(heap).dom().contains(run) ==> self.start() <= run && run
                + free_runs(heap)[run] <= self.start() + ARENA_BYTES
    }

    /// What comes of a request for `size` bytes on the alignment `align`.
    ///
    /// Before the block may be used there is nothing to be had and the allocator is
    /// not asked. Otherwise the request is served exactly where it can be, out of the
    /// lowest free run with room for it: what is handed out was free before and is
    /// not free after, and of a heap over this block it is memory of this block.
    /// Where the request is not served, the free runs stay as they are.
    pub open spec fn hands_out(
        self,
        before: Heap,
        after: Heap,
        p: usize,
        size: int,
        align: int,
    ) -> bool {
        &&& !self.ready() ==> p == NULL && after == before
        &&& self.ready() ==> (p != NULL <==> can_be_served(free_runs(before), size, align))
        &&& p != NULL ==> {
            &&& served(free_runs(before), free_runs(after), p as int, size, align)
            &&& p as int % align == 0
            &&& apart(free_runs(before))
            &&& taken(free_runs(before), free_runs(after), p as int, at_least_one(size))
        }
        &&& p == NULL ==> free_runs(after) == free_runs(before)
        &&& apart(free_runs(before)) ==> apart(free_runs(after))
        &&& heap_top(after) == heap_top(before)
        &&& self.owns(before) ==> self.owns(after) && (p != NULL ==> self.holds(p as int) && p
            + size <= self.start() + ARENA_BYTES)
    }

    /// Hands out `size` bytes on the alignment `align`, or the null address: see
    /// [`Arena::hands_out`].
    ///
    /// The search may not count past the last address. Where that cannot be known
    /// beforehand, [`Arena::allocate_in_reach`] tests it.
    pub fn allocate(&self, heap: &mut Heap, size: usize, align: usize) -> (p: usize)
        requires
            self.ready() && is_layout(bytes_taken(size as int), align as int) ==> in_reach(
                free_runs(*old(heap)),
                size as int,
                align as int,
            ),
        ensures
            self.hands_out(*old(heap), *final(heap), p, size as int, align as int),
            self.marked() != 0x484c_4c31 ==> p == NULL && *final(heap) == *old(heap),
            self.marked() == 0x484c_4c31 ==> (p != NULL <==> can_be_served(
                free_runs(*old(heap)),
                size as int,
                align as int,
            )),
            p != NULL ==> served(
                free_runs(*old(heap)),
                free_runs(*final(heap)),
                p as int,
                size as int,
                align as int,
            ),
            p == NULL ==> free_runs(*final(heap)) == free_runs(*old(heap)),
    {
        if self.mark != READY {
            return NULL;
        }
        let p: usize = self.hand_out(first_fit(heap, size, align));
        proof {
            let before = free_runs(*old(heap));
            let after = free_runs(*final(heap));
            if p != NULL {
                reveal(is_pow2);
                what_is_served_was_free(before, after, p as int, size as int, align as int);
                if self.owns(*old(heap)) {
                    let run = choose|run: int| #[trigger]
                        taken_from(run, before, after, p as int, at_least_one(size as int));
                    assert forall|left: int| #[trigger]
                        after.dom().contains(left) implies self.start() <= left && left
                        + after[left] <= self.start() + ARENA_BYTES by {
                        if left != run && before.dom().contains(left) {
                            assert(after[left] == before[left]);
                        }
                    }
                }
            }
        }
        p
    }

    /// Hands out `size` bytes on the alignment `align` as [`Arena::allocate`] does,
    /// after a test that the search does not count past the last address: there has
    /// to be room for the alignment and [`SLACK`] above the heap. Where there is not,
    /// the allocator is not asked and nothing is said.
    pub fn allocate_in_reach(&self, heap: &mut Heap, size: usize, align: usize) -> (p: Option<usize>)
        ensures
            p is Some <==> !self.ready() || heap_top(*old(heap)) + align + SLACK <= usize::MAX,
            p matches Some(p) ==> self.hands_out(
                *old(heap),
                *final(heap),
                p,
                size as int,
                align as int,
            ),
            p is None ==> *final(heap) == *old(heap),
            p matches Some(p) ==> (p != NULL <==> self.marked() == 0x484c_4c31 && can_be_served(
                free_runs(*old(heap)),
                size as int,
                align as int,
            )),
            p matches Some(p) ==> (p != NULL ==> served(
                free_runs(*old(heap)),
                free_runs(*final(heap)),
                p as int,
                size as int,
                align as int,
            )),
    {
        if self.mark != READY {
            return Some(NULL);
        }
        let top: usize = top_of(heap);
        if top > usize::MAX - SLACK || align > usize::MAX - SLACK - top {
            return None;
        }
        proof {
            let runs = free_runs(*heap);
            if is_pow2(align as int) {
                reveal(is_pow2);
                assert forall|run: int| !#[trigger] counts_past_the_end(
                    runs,
                    run,
                    size as int,
                    align as int,
                ) by {
                    a_block_lies_in_its_run(run, size as int, align as int);
                }
            }
        }
        Some(self.allocate(heap, size, align))
    }

    /// Whether memory at an address may be handed back: only to a block that is in
    /// use, and only what belongs to it.
    pub fn takes_back(&self, p: usize) -> (ok: bool)
        ensures
            ok == (self.ready() && self.holds(p as int)),
            ok <==> self.marked() == 0x484c_4c31 && self.start() <= p < self.start() + 0x1_0000,
    {
        self.is_ready() && self.contains(p)
    }
}

/// Whether none of the `size` bytes at `p` is free.
pub open spec fn clear_of(runs: Map<int, int>, p: int, size: int) -> bool {
    forall|run: int| #[trigger]
        runs.dom().contains(run) ==> run + runs[run] <= p || p + size <= run
}

/// A block that was handed out is free no more.
pub proof fn a_block_is_free_no_more(
    before: Map<int, int>,
    after: Map<int, int>,
    p: int,
    size: int,
)
    requires
        apart(before),
        taken(before, after, p, size),
    ensures
        clear_of(after, p, size),
{
    let run = choose|run: int| #[trigger] taken_from(run, before, after, p, size);
    assert forall|left: int| #[trigger] after.dom().contains(left) implies left + after[left] <= p
        || p + size <= left by {
        if left != run && before.dom().contains(left) {
            assert(after[left] == before[left]);
            assert(left + before[left] <= run || run + before[run] <= left);
        }
    }
}

/// A block that is not free is not touched by what is handed out later: the later
/// block does not overlap it, and it stays as little free as it was.
pub proof fn later_blocks_stay_clear(
    before: Map<int, int>,
    after: Map<int, int>,
    p: int,
    size: int,
    later: int,
    later_size: int,
)
    requires
        size > 0,
        clear_of(before, p, size),
        taken(before, after, later, later_size),
    ensures
        p + size <= later || later + later_size <= p,
        clear_of(after, p, size),
{
    let run = choose|run: int| #[trigger] taken_from(run, before, after, later, later_size);
    assert(run + before[run] <= p || p + size <= run);
    assert forall|left: int| #[trigger] after.dom().contains(left) implies left + after[left] <= p
        || p + size <= left by {
        if left != run && before.dom().contains(left) {
            assert(after[left] == before[left]);
        }
    }
}

/// Two blocks that are handed out one after the other are different blocks, and
/// share no byte, as long as neither was taken back.
pub proof fn two_blocks_never_overlap(
    start: Map<int, int>,
    between: Map<int, int>,
    end: Map<int, int>,
    p: int,
    size: int,
    later: int,
    later_size: int,
)
    requires
        apart(start),
        size > 0,
        later_size > 0,
        taken(start, between, p, size),
        taken(between, end, later, later_size),
    ensures
        p + size <= later || later + later_size <= p,
        p != later,
        clear_of(end, p, size),
{
    a_block_is_free_no_more(start, between, p, size);
    later_blocks_stay_clear(between, end, p, size, later, later_size);
}

} // verus!
