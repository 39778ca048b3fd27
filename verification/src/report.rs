//! Layer resolution, anti-ghost blocking and report synthesis.
//!
//! Once per scan cycle, [`get_report`] takes the left half's fresh
//! matrix and the right half's reconstructed bit set, resolves each
//! half's active layer, blocks positions that were held across a layer
//! change until they are released, looks the unblocked pressed positions
//! up in the layout tables, and rebuilds the two bounded report buffers,
//! stamping "no event" sentinels over slots left over from a longer
//! previous cycle.

use vstd::prelude::*;

verus! {

use crate::bitset::PrimitiveBitset;
use crate::fixed_vec::FixedVec;
use crate::layout::{
    left_table, right_table, left_key_lookup, right_key_lookup, get_left_layer, get_right_layer,
    spec_left_layer, spec_right_layer_keys, MultiKey, KB_NO_EVENT, KB_LEFT_GUI, KB_LEFT_ALT,
    KB_LEFT_SHIFT, CON_UNASSIGNED, LEFT_KEY_COUNT, RIGHT_KEY_COUNT,
};

/// The right half's active layer: forced to 1 while the left half's
/// function layer is engaged (the cross-half override that enables
/// two-handed chords), otherwise the right half's own choice.
pub open spec fn spec_right_layer(left_layer: int, right: Seq<bool>) -> int {
    if left_layer == 1 {
        1
    } else {
        spec_right_layer_keys(right)
    }
}

/// Cross-half override law: while the left half's function layer is
/// engaged, the right half's layer resolves to 1 no matter which right
/// function keys are held.
pub proof fn lemma_cross_half_override(right: Seq<bool>)
    ensures
        spec_right_layer(1, right) == 1,
{
}

/// The first `n` entries of a half's matrix, as a block-mask snapshot.
pub open spec fn snapshot(matrix: Seq<bool>, n: nat) -> Seq<bool> {
    Seq::new(n, |i: int| matrix[i])
}

/// The block mask in force during a cycle: a fresh snapshot of the
/// half's matrix when that half's layer just changed, else the mask
/// stored from earlier cycles.
pub open spec fn mask_in_force(changed: bool, snap: Seq<bool>, stored: Seq<bool>) -> Seq<bool> {
    if changed {
        snap
    } else {
        stored
    }
}

/// The block mask left behind by a cycle: a position stays blocked
/// exactly while it is both blocked and still physically held.
pub open spec fn next_mask(mask: Seq<bool>, matrix: Seq<bool>) -> Seq<bool> {
    Seq::new(mask.len(), |i: int| mask[i] && matrix[i])
}

/// Whether position `i` contributes an output code this cycle: it must
/// be pressed and not ghost-suppressed by the block mask.
pub open spec fn emits(matrix: Seq<bool>, mask: Seq<bool>, i: int) -> bool {
    !mask[i] && matrix[i]
}

/// The output codes contributed by positions `[0, n)` of one half, in
/// position order: each emitting position contributes its table entry.
pub open spec fn half_codes(row: Seq<MultiKey>, matrix: Seq<bool>, mask: Seq<bool>, n: int) -> Seq<
    MultiKey,
>
    decreases n,
{
    if n <= 0 {
        Seq::empty()
    } else {
        let rest = half_codes(row, matrix, mask, n - 1);
        if emits(matrix, mask, n - 1) {
            rest.push(row[n - 1])
        } else {
            rest
        }
    }
}

/// The synthetic chord codes appended after the per-position lookups:
/// with the left function layer engaged, held right-half arrow keys add
/// GUI+Alt and held right-half navigation keys add GUI+Shift.
pub open spec fn combo_codes(left_layer: int, right: Seq<bool>) -> Seq<MultiKey> {
    (if left_layer == 1 && (right[13] || right[16]) {
        seq![MultiKey::KeyboardKey(KB_LEFT_GUI), MultiKey::KeyboardKey(KB_LEFT_ALT)]
    } else {
        Seq::empty()
    }) + (if left_layer == 1 && (right[19] || right[20] || right[21] || right[22]) {
        seq![MultiKey::KeyboardKey(KB_LEFT_GUI), MultiKey::KeyboardKey(KB_LEFT_SHIFT)]
    } else {
        Seq::empty()
    })
}

/// The keyboard-page codes of a code sequence, in order.
pub open spec fn keyboard_codes(s: Seq<MultiKey>) -> Seq<u8>
    decreases s.len(),
{
    if s.len() == 0 {
        Seq::empty()
    } else {
        let rest = keyboard_codes(s.drop_last());
        match s.last() {
            MultiKey::KeyboardKey(c) => rest.push(c),
            MultiKey::ConsumerKey(_) => rest,
        }
    }
}

/// The consumer-page codes of a code sequence, in order.
pub open spec fn consumer_codes(s: Seq<MultiKey>) -> Seq<u16>
    decreases s.len(),
{
    if s.len() == 0 {
        Seq::empty()
    } else {
        let rest = consumer_codes(s.drop_last());
        match s.last() {
            MultiKey::KeyboardKey(_) => rest,
            MultiKey::ConsumerKey(c) => rest.push(c),
        }
    }
}

/// A sequence cut down to a buffer's capacity: what remains once pushes
/// beyond the capacity are silently dropped.
pub open spec fn capped<A>(s: Seq<A>, cap: int) -> Seq<A> {
    if s.len() <= cap {
        s
    } else {
        s.take(cap)
    }
}

/// Every output code one cycle emits, in emission order: the left
/// half's positions, then the right half's, then the chord codes.
pub open spec fn spec_cycle_codes(st: ReportState, left: Seq<bool>, right: Seq<bool>) -> Seq<
    MultiKey,
> {
    let ll = spec_left_layer(left);
    let rl = spec_right_layer(ll, right);
    let lb = mask_in_force(ll != st.prev_left_layer, left, st.blocked_left@);
    let rb = mask_in_force(
        rl != st.prev_right_layer,
        snapshot(right, RIGHT_KEY_COUNT as nat),
        st.blocked_right@,
    );
    half_codes(left_table()[ll], left, lb, LEFT_KEY_COUNT as int) + half_codes(
        right_table()[rl],
        right,
        rb,
        RIGHT_KEY_COUNT as int,
    ) + combo_codes(ll, right)
}

/// The block mask the left half carries out of a cycle.
pub open spec fn spec_left_mask_after(st: ReportState, left: Seq<bool>) -> Seq<bool> {
    next_mask(
        mask_in_force(spec_left_layer(left) != st.prev_left_layer, left, st.blocked_left@),
        left,
    )
}

/// The block mask the right half carries out of a cycle.
pub open spec fn spec_right_mask_after(st: ReportState, left: Seq<bool>, right: Seq<bool>) -> Seq<
    bool,
> {
    let rl = spec_right_layer(spec_left_layer(left), right);
    next_mask(
        mask_in_force(
            rl != st.prev_right_layer,
            snapshot(right, RIGHT_KEY_COUNT as nat),
            st.blocked_right@,
        ),
        right,
    )
}

/// The block mask one half stores after `k` cycles, starting from
/// `mask0`: cycle `j` snapshots `snaps[j]` if `changes[j]` says that
/// half's layer changed, then clears every position `ms[j]` shows
/// released. This is exactly the evolution [`get_report`] ensures for
/// each half's stored mask, cycle by cycle.
pub open spec fn blocked_mask_at(
    mask0: Seq<bool>,
    changes: Seq<bool>,
    snaps: Seq<Seq<bool>>,
    ms: Seq<Seq<bool>>,
    k: int,
) -> Seq<bool>
    decreases k,
{
    if k <= 0 {
        mask0
    } else {
        next_mask(
            mask_in_force(
                changes[k - 1],
                snaps[k - 1],
                blocked_mask_at(mask0, changes, snaps, ms, k - 1),
            ),
            ms[k - 1],
        )
    }
}

/// One cycle of [`get_report`] advances the left half's stored mask by
/// exactly one [`blocked_mask_at`] step: its "layer changed" flag is
/// whether the resolved left layer differs from the stored one, and its
/// snapshot is the left matrix itself.
pub proof fn lemma_left_mask_is_one_step(st: ReportState, left: Seq<bool>)
    ensures
        spec_left_mask_after(st, left) == blocked_mask_at(
            st.blocked_left@,
            seq![spec_left_layer(left) != st.prev_left_layer],
            seq![left],
            seq![left],
            1,
        ),
{
    let changes = seq![spec_left_layer(left) != st.prev_left_layer];
    let snaps = seq![left];
    let ms = seq![left];
    assert(changes[0] == (spec_left_layer(left) != st.prev_left_layer));
    assert(snaps[0] == left);
    assert(ms[0] == left);
    assert(blocked_mask_at(st.blocked_left@, changes, snaps, ms, 0) == st.blocked_left@);
    assert(blocked_mask_at(st.blocked_left@, changes, snaps, ms, 1) == next_mask(
        mask_in_force(changes[0], snaps[0], st.blocked_left@),
        ms[0],
    ));
}

/// One cycle of [`get_report`] advances the right half's stored mask by
/// exactly one [`blocked_mask_at`] step: its "layer changed" flag is
/// whether the resolved right layer differs from the stored one, and
/// its snapshot is the right matrix cut to the right half's positions.
pub proof fn lemma_right_mask_is_one_step(st: ReportState, left: Seq<bool>, right: Seq<bool>)
    ensures
        spec_right_mask_after(st, left, right) == blocked_mask_at(
            st.blocked_right@,
            seq![spec_right_layer(spec_left_layer(left), right) != st.prev_right_layer],
            seq![snapshot(right, RIGHT_KEY_COUNT as nat)],
            seq![right],
            1,
        ),
{
    let rl = spec_right_layer(spec_left_layer(left), right);
    let changes = seq![rl != st.prev_right_layer];
    let snaps = seq![snapshot(right, RIGHT_KEY_COUNT as nat)];
    let ms = seq![right];
    assert(changes[0] == (rl != st.prev_right_layer));
    assert(snaps[0] == snapshot(right, RIGHT_KEY_COUNT as nat));
    assert(ms[0] == right);
    assert(blocked_mask_at(st.blocked_right@, changes, snaps, ms, 0) == st.blocked_right@);
    assert(blocked_mask_at(st.blocked_right@, changes, snaps, ms, 1) == next_mask(
        mask_in_force(changes[0], snaps[0], st.blocked_right@),
        ms[0],
    ));
}

proof fn lemma_blocked_stays(
    mask0: Seq<bool>,
    changes: Seq<bool>,
    snaps: Seq<Seq<bool>>,
    ms: Seq<Seq<bool>>,
    p: int,
    k: int,
)
    requires
        1 <= k <= ms.len(),
        0 <= p < mask0.len(),
        changes[0],
        forall|j: int| 0 <= j < ms.len() ==> (#[trigger] snaps[j]).len() == mask0.len(),
        forall|j: int| 0 <= j < ms.len() ==> (#[trigger] ms[j])[p],
        forall|j: int| 0 <= j < ms.len() ==> (#[trigger] snaps[j])[p] == ms[j][p],
    ensures
        blocked_mask_at(mask0, changes, snaps, ms, k).len() == mask0.len(),
        blocked_mask_at(mask0, changes, snaps, ms, k)[p],
    decreases k,
{
    if k == 1 {
        assert(mask_in_force(changes[0], snaps[0], mask0)[p]);
    } else {
        lemma_blocked_stays(mask0, changes, snaps, ms, p, k - 1);
        assert(mask_in_force(
            changes[k - 1],
            snaps[k - 1],
            blocked_mask_at(mask0, changes, snaps, ms, k - 1),
        )[p]);
    }
}

/// Blocking law (anti-ghost): if a position is pressed at the moment
/// its half's layer changes — cycle 0 here — and stays physically held
/// from then on, it emits no output code on that cycle or any later
/// one: the mask in force keeps it blocked every cycle.
pub proof fn lemma_blocking_invariant(
    mask0: Seq<bool>,
    changes: Seq<bool>,
    snaps: Seq<Seq<bool>>,
    ms: Seq<Seq<bool>>,
    p: int,
)
    requires
        0 <= p < mask0.len(),
        ms.len() > 0,
        changes[0],
        forall|j: int| 0 <= j < ms.len() ==> (#[trigger] snaps[j]).len() == mask0.len(),
        forall|j: int| 0 <= j < ms.len() ==> (#[trigger] ms[j])[p],
        forall|j: int| 0 <= j < ms.len() ==> (#[trigger] snaps[j])[p] == ms[j][p],
    ensures
        forall|k: int|
            0 <= k < ms.len() ==> !emits(
                ms[k],
                mask_in_force(
                    changes[k],
                    snaps[k],
                    #[trigger] blocked_mask_at(mask0, changes, snaps, ms, k),
                ),
                p,
            ),
{
    assert forall|k: int| 0 <= k < ms.len() implies !emits(
        ms[k],
        mask_in_force(
            changes[k],
            snaps[k],
            #[trigger] blocked_mask_at(mask0, changes, snaps, ms, k),
        ),
        p,
    ) by {
        if k == 0 || changes[k] {
            assert(mask_in_force(
                changes[k],
                snaps[k],
                blocked_mask_at(mask0, changes, snaps, ms, k),
            )[p]);
        } else {
            lemma_blocked_stays(mask0, changes, snaps, ms, p, k);
        }
    }
}

proof fn lemma_half_codes_agree(
    row: Seq<MultiKey>,
    m1: Seq<bool>,
    m2: Seq<bool>,
    mask: Seq<bool>,
    n: int,
)
    requires
        forall|j: int| 0 <= j < n ==> m1[j] == m2[j],
    ensures
        half_codes(row, m1, mask, n) == half_codes(row, m2, mask, n),
    decreases n,
{
    if n > 0 {
        lemma_half_codes_agree(row, m1, m2, mask, n - 1);
        assert(emits(m1, mask, n - 1) == emits(m2, mask, n - 1));
    }
}

/// A blocked position truly leaves no trace: a cycle's code sequence is
/// the one the same matrix would produce with that position released.
pub proof fn lemma_suppressed_position_contributes_nothing(
    row: Seq<MultiKey>,
    matrix: Seq<bool>,
    mask: Seq<bool>,
    p: int,
    n: int,
)
    requires
        0 <= p < n,
        n <= matrix.len(),
        !emits(matrix, mask, p),
    ensures
        half_codes(row, matrix, mask, n) == half_codes(row, matrix.update(p, false), mask, n),
    decreases n,
{
    if n > 0 {
        if p < n - 1 {
            lemma_suppressed_position_contributes_nothing(row, matrix, mask, p, n - 1);
            assert(emits(matrix, mask, n - 1) == emits(matrix.update(p, false), mask, n - 1));
        } else {
            lemma_half_codes_agree(row, matrix, matrix.update(p, false), mask, n - 1);
            assert(!emits(matrix.update(p, false), mask, n - 1));
        }
    }
}

/// The resolver's cross-cycle state: each half's layer from the
/// previous cycle and each half's block mask.
pub struct ReportState {
    pub prev_left_layer: usize,
    pub prev_right_layer: usize,
    pub blocked_left: [bool; 30],
    pub blocked_right: [bool; 29],
}

impl ReportState {
    /// The startup state: layer 0 on both halves, nothing blocked.
    pub fn new() -> (r: Self)
        ensures
            r.prev_left_layer == 0,
            r.prev_right_layer == 0,
            r.blocked_left@ == Seq::new(LEFT_KEY_COUNT as nat, |i: int| false),
            r.blocked_right@ == Seq::new(RIGHT_KEY_COUNT as nat, |i: int| false),
    {
        let r = ReportState {
            prev_left_layer: 0,
            prev_right_layer: 0,
            blocked_left: [false;30],
            blocked_right: [false;29],
        };
        proof {
            assert(r.blocked_left@ =~= Seq::new(LEFT_KEY_COUNT as nat, |i: int| false));
            assert(r.blocked_right@ =~= Seq::new(RIGHT_KEY_COUNT as nat, |i: int| false));
        }
        r
    }
}

proof fn lemma_kind_split_push(s: Seq<MultiKey>, k: MultiKey)
    ensures
        k matches MultiKey::KeyboardKey(c) ==> keyboard_codes(s.push(k)) == keyboard_codes(s).push(
            c,
        ) && consumer_codes(s.push(k)) == consumer_codes(s),
        k matches MultiKey::ConsumerKey(c) ==> consumer_codes(s.push(k)) == consumer_codes(s).push(
            c,
        ) && keyboard_codes(s.push(k)) == keyboard_codes(s),
{
    assert(s.push(k).drop_last() =~= s);
    assert(s.push(k).last() == k);
}

proof fn lemma_capped_push<A>(s: Seq<A>, x: A, cap: int)
    requires
        0 <= cap,
    ensures
        s.len() < cap ==> capped(s.push(x), cap) == capped(s, cap).push(x),
        s.len() >= cap ==> capped(s.push(x), cap) == capped(s, cap),
{
    if s.len() >= cap {
        assert(s.push(x).take(cap) =~= capped(s, cap));
    }
}

/// Resolve the layers, apply the blocking rules and the layout tables,
/// and rebuild both report buffers for one scan cycle.
///
/// The buffers come back holding exactly the cycle's keyboard and
/// consumer codes (capped at their capacities), the state carries the
/// new layers and block masks, and any trailing slots shortened since
/// the previous cycle are stamped with the "no event" sentinels.
#[verifier::loop_isolation(false)]
#[verifier::rlimit(100)]
pub fn get_report(
    state: &mut ReportState,
    left_matrix: &[bool; 30],
    right_matrix: PrimitiveBitset<u32>,
    key_report: &mut FixedVec<u8, 58>,
    media_report: &mut FixedVec<u16, 4>,
)
    requires
        old(key_report).wf(),
        old(media_report).wf(),
    ensures
        final(key_report).wf(),
        final(media_report).wf(),
        final(state).prev_left_layer == spec_left_layer(left_matrix@),
        final(state).prev_right_layer == spec_right_layer(
            spec_left_layer(left_matrix@),
            right_matrix@,
        ),
        final(state).blocked_left@ == spec_left_mask_after(*old(state), left_matrix@),
        final(state).blocked_right@ == spec_right_mask_after(
            *old(state),
            left_matrix@,
            right_matrix@,
        ),
        final(key_report).contents() == capped(
            keyboard_codes(spec_cycle_codes(*old(state), left_matrix@, right_matrix@)),
            58,
        ),
        final(media_report).contents() == capped(
            consumer_codes(spec_cycle_codes(*old(state), left_matrix@, right_matrix@)),
            4,
        ),
        old(key_report).len > final(key_report).len ==> forall|j: int|
            final(key_report).len <= j < 58 ==> final(key_report).data@[j] == KB_NO_EVENT,
        old(key_report).len <= final(key_report).len ==> forall|j: int|
            final(key_report).len <= j < 58 ==> final(key_report).data@[j] == old(
                key_report,
            ).data@[j],
        old(media_report).len > final(media_report).len ==> forall|j: int|
            final(media_report).len <= j < 4 ==> final(media_report).data@[j] == CON_UNASSIGNED,
        old(media_report).len <= final(media_report).len ==> forall|j: int|
            final(media_report).len <= j < 4 ==> final(media_report).data@[j] == old(
                media_report,
            ).data@[j],
{
    let key_prev_len = key_report.len;
    let media_prev_len = media_report.len;
    key_report.clear();
    media_report.clear();

    let left_layer = get_left_layer(left_matrix);
    let right_layer = if left_layer == 1 {
        // Cross-half override, for the ergonomic meta+alt+<arrows> chords.
        1
    } else {
        get_right_layer(&right_matrix)
    };

    let ghost ll: int = left_layer as int;
    let ghost rl: int = right_layer as int;
    let ghost lb0: Seq<bool> = mask_in_force(
        ll != state.prev_left_layer,
        left_matrix@,
        state.blocked_left@,
    );
    let ghost rb0: Seq<bool> = mask_in_force(
        rl != state.prev_right_layer,
        snapshot(right_matrix@, RIGHT_KEY_COUNT as nat),
        state.blocked_right@,
    );
    proof {
        assert(ll == spec_left_layer(left_matrix@));
        assert(rl == spec_right_layer(ll, right_matrix@));
    }

    if left_layer != state.prev_left_layer {
        state.prev_left_layer = left_layer;
        let mut i: usize = 0;
        while i < 30
            invariant
                i <= 30,
                state.prev_left_layer == left_layer,
                state.prev_right_layer == old(state).prev_right_layer,
                state.blocked_right == old(state).blocked_right,
                forall|j: int| 0 <= j < i ==> state.blocked_left@[j] == left_matrix@[j],
            decreases 30 - i,
        {
            state.blocked_left[i] = left_matrix[i];
            i = i + 1;
        }
        proof {
            assert(state.blocked_left@ =~= left_matrix@);
        }
    }
    proof {
        assert(state.blocked_left@ == lb0);
    }

    if right_layer != state.prev_right_layer {
        state.prev_right_layer = right_layer;
        let mut i: usize = 0;
        while i < 29
            invariant
                i <= 29,
                state.prev_left_layer as int == ll,
                state.prev_right_layer == right_layer,
                state.blocked_left@ == lb0,
                forall|j: int| 0 <= j < i ==> state.blocked_right@[j] == right_matrix@[j],
            decreases 29 - i,
        {
            state.blocked_right[i] = right_matrix.get(i);
            i = i + 1;
        }
        proof {
            assert(state.blocked_right@ =~= snapshot(right_matrix@, RIGHT_KEY_COUNT as nat));
        }
    }
    proof {
        assert(state.blocked_right@ == rb0);
        assert(state.prev_left_layer as int == ll);
        assert(state.prev_right_layer as int == rl);
    }

    let ghost left_row: Seq<MultiKey> = left_table()[ll];
    let ghost right_row: Seq<MultiKey> = right_table()[rl];

    let mut i: usize = 0;
    while i < 30
        invariant
            i <= 30,
            state.prev_left_layer as int == ll,
            state.prev_right_layer as int == rl,
            state.blocked_right@ == rb0,
            state.blocked_left@.len() == 30,
            forall|j: int|
                0 <= j < i ==> #[trigger] state.blocked_left@[j] == (lb0[j] && left_matrix@[j]),
            forall|j: int| i <= j < 30 ==> #[trigger] state.blocked_left@[j] == lb0[j],
            key_report.wf(),
            media_report.wf(),
            key_report.contents() == capped(
                keyboard_codes(half_codes(left_row, left_matrix@, lb0, i as int)),
                58,
            ),
            media_report.contents() == capped(
                consumer_codes(half_codes(left_row, left_matrix@, lb0, i as int)),
                4,
            ),
            forall|j: int|
                key_report.len <= j < 58 ==> #[trigger] key_report.data@[j] == old(
                    key_report,
                ).data@[j],
            forall|j: int|
                media_report.len <= j < 4 ==> #[trigger] media_report.data@[j] == old(
                    media_report,
                ).data@[j],
        decreases 30 - i,
    {
        let ghost pre = *state;
        let ghost prev = half_codes(left_row, left_matrix@, lb0, i as int);
        let ghost cur = half_codes(left_row, left_matrix@, lb0, i as int + 1);
        if !state.blocked_left[i] && left_matrix[i] {
            proof {
                assert(emits(left_matrix@, lb0, i as int));
                assert(cur == prev.push(left_row[i as int]));
                lemma_kind_split_push(prev, left_row[i as int]);
            }
            match left_key_lookup(left_layer, i) {
                MultiKey::KeyboardKey(key) => {
                    proof {
                        lemma_capped_push(keyboard_codes(prev), key, 58);
                    }
                    key_report.push(key);
                },
                MultiKey::ConsumerKey(key) => {
                    proof {
                        lemma_capped_push(consumer_codes(prev), key, 4);
                    }
                    media_report.push(key);
                },
            }
        } else {
            if !left_matrix[i] {
                state.blocked_left[i] = false;
            }
            proof {
                assert(!emits(left_matrix@, lb0, i as int));
                assert(cur == prev);
            }
        }
        proof {
            assert forall|j: int| 0 <= j < i + 1 implies state.blocked_left@[j] == (lb0[j]
                && left_matrix@[j]) by {
                if j == i {
                    assert(state.blocked_left@[j] == (lb0[j] && left_matrix@[j]));
                } else {
                    assert(state.blocked_left@[j] == pre.blocked_left@[j]);
                }
            }
            assert forall|j: int| i + 1 <= j < 30 implies state.blocked_left@[j] == lb0[j] by {
                assert(state.blocked_left@[j] == pre.blocked_left@[j]);
            }
        }
        i = i + 1;
    }

    let ghost left_part: Seq<MultiKey> = half_codes(left_row, left_matrix@, lb0, 30);
    proof {
        assert(state.blocked_left@ =~= spec_left_mask_after(*old(state), left_matrix@));
    }

    let mut i: usize = 0;
    while i < 29
        invariant
            i <= 29,
            state.prev_left_layer as int == ll,
            state.prev_right_layer as int == rl,
            state.blocked_left@ == spec_left_mask_after(*old(state), left_matrix@),
            state.blocked_right@.len() == 29,
            forall|j: int|
                0 <= j < i ==> #[trigger] state.blocked_right@[j] == (rb0[j] && right_matrix@[j]),
            forall|j: int| i <= j < 29 ==> #[trigger] state.blocked_right@[j] == rb0[j],
            key_report.wf(),
            media_report.wf(),
            key_report.contents() == capped(
                keyboard_codes(left_part + half_codes(right_row, right_matrix@, rb0, i as int)),
                58,
            ),
            media_report.contents() == capped(
                consumer_codes(left_part + half_codes(right_row, right_matrix@, rb0, i as int)),
                4,
            ),
            forall|j: int|
                key_report.len <= j < 58 ==> #[trigger] key_report.data@[j] == old(
                    key_report,
                ).data@[j],
            forall|j: int|
                media_report.len <= j < 4 ==> #[trigger] media_report.data@[j] == old(
                    media_report,
                ).data@[j],
        decreases 29 - i,
    {
        let ghost pre = *state;
        let ghost prev = left_part + half_codes(right_row, right_matrix@, rb0, i as int);
        let ghost cur = left_part + half_codes(right_row, right_matrix@, rb0, i as int + 1);
        if !state.blocked_right[i] && right_matrix.get(i) {
            proof {
                assert(emits(right_matrix@, rb0, i as int));
                assert(cur =~= prev.push(right_row[i as int]));
                lemma_kind_split_push(prev, right_row[i as int]);
            }
            match right_key_lookup(right_layer, i) {
                MultiKey::KeyboardKey(key) => {
                    proof {
                        lemma_capped_push(keyboard_codes(prev), key, 58);
                    }
                    key_report.push(key);
                },
                MultiKey::ConsumerKey(key) => {
                    proof {
                        lemma_capped_push(consumer_codes(prev), key, 4);
                    }
                    media_report.push(key);
                },
            }
        } else {
            if !right_matrix.get(i) {
                state.blocked_right[i] = false;
            }
            proof {
                assert(!emits(right_matrix@, rb0, i as int));
                assert(cur =~= prev);
            }
        }
        proof {
            assert forall|j: int| 0 <= j < i + 1 implies state.blocked_right@[j] == (rb0[j]
                && right_matrix@[j]) by {
                if j == i {
                    assert(state.blocked_right@[j] == (rb0[j] && right_matrix@[j]));
                } else {
                    assert(state.blocked_right@[j] == pre.blocked_right@[j]);
                }
            }
            assert forall|j: int| i + 1 <= j < 29 implies state.blocked_right@[j] == rb0[j] by {
                assert(state.blocked_right@[j] == pre.blocked_right@[j]);
            }
        }
        i = i + 1;
    }

    let ghost both_parts: Seq<MultiKey> = left_part + half_codes(right_row, right_matrix@, rb0, 29);
    proof {
        assert(state.blocked_right@ =~= spec_right_mask_after(
            *old(state),
            left_matrix@,
            right_matrix@,
        ));
    }

    // Meta + Alt + <arrows> chord: GUI before Alt, so a layer change
    // cannot block the Alt half of the chord.
    let ghost combo1: Seq<MultiKey> = if ll == 1 && (right_matrix@[13] || right_matrix@[16]) {
        seq![MultiKey::KeyboardKey(KB_LEFT_GUI), MultiKey::KeyboardKey(KB_LEFT_ALT)]
    } else {
        Seq::empty()
    };
    if left_layer == 1 && (right_matrix.get(13) || right_matrix.get(16)) {
        proof {
            lemma_capped_push(keyboard_codes(both_parts), KB_LEFT_GUI, 58);
            lemma_kind_split_push(both_parts, MultiKey::KeyboardKey(KB_LEFT_GUI));
        }
        key_report.push(KB_LEFT_GUI);
        proof {
            lemma_capped_push(keyboard_codes(both_parts).push(KB_LEFT_GUI), KB_LEFT_ALT, 58);
            lemma_kind_split_push(
                both_parts.push(MultiKey::KeyboardKey(KB_LEFT_GUI)),
                MultiKey::KeyboardKey(KB_LEFT_ALT),
            );
        }
        key_report.push(KB_LEFT_ALT);
        proof {
            assert(both_parts + combo1 =~= both_parts.push(
                MultiKey::KeyboardKey(KB_LEFT_GUI),
            ).push(MultiKey::KeyboardKey(KB_LEFT_ALT)));
        }
    } else {
        proof {
            assert(both_parts + combo1 =~= both_parts);
        }
    }
    let ghost with_combo1: Seq<MultiKey> = both_parts + combo1;
    proof {
        assert(key_report.contents() == capped(keyboard_codes(with_combo1), 58));
        assert(media_report.contents() == capped(consumer_codes(with_combo1), 4));
    }

    // Meta + Shift + <navigation> chord.
    let ghost combo2: Seq<MultiKey> = if ll == 1 && (right_matrix@[19] || right_matrix@[20]
        || right_matrix@[21] || right_matrix@[22]) {
        seq![MultiKey::KeyboardKey(KB_LEFT_GUI), MultiKey::KeyboardKey(KB_LEFT_SHIFT)]
    } else {
        Seq::empty()
    };
    if left_layer == 1 && (right_matrix.get(19) || right_matrix.get(20) || right_matrix.get(21)
        || right_matrix.get(22)) {
        proof {
            lemma_capped_push(keyboard_codes(with_combo1), KB_LEFT_GUI, 58);
            lemma_kind_split_push(with_combo1, MultiKey::KeyboardKey(KB_LEFT_GUI));
        }
        key_report.push(KB_LEFT_GUI);
        proof {
            lemma_capped_push(keyboard_codes(with_combo1).push(KB_LEFT_GUI), KB_LEFT_SHIFT, 58);
            lemma_kind_split_push(
                with_combo1.push(MultiKey::KeyboardKey(KB_LEFT_GUI)),
                MultiKey::KeyboardKey(KB_LEFT_SHIFT),
            );
        }
        key_report.push(KB_LEFT_SHIFT);
        proof {
            assert(with_combo1 + combo2 =~= with_combo1.push(
                MultiKey::KeyboardKey(KB_LEFT_GUI),
            ).push(MultiKey::KeyboardKey(KB_LEFT_SHIFT)));
        }
    } else {
        proof {
            assert(with_combo1 + combo2 =~= with_combo1);
        }
    }
    proof {
        assert(combo_codes(ll, right_matrix@) == combo1 + combo2);
        assert(with_combo1 + combo2 =~= both_parts + (combo1 + combo2));
        assert(spec_cycle_codes(*old(state), left_matrix@, right_matrix@) == both_parts + (combo1
            + combo2));
        assert(key_report.contents() == capped(
            keyboard_codes(spec_cycle_codes(*old(state), left_matrix@, right_matrix@)),
            58,
        ));
        assert(media_report.contents() == capped(
            consumer_codes(spec_cycle_codes(*old(state), left_matrix@, right_matrix@)),
            4,
        ));
    }

    if key_prev_len > key_report.len {
        let ghost before = *key_report;
        let start = key_report.len;
        key_report.fill(KB_NO_EVENT, start);
        proof {
            assert(key_report.contents() =~= before.contents());
        }
    }

    if media_prev_len > media_report.len {
        let ghost before = *media_report;
        let start = media_report.len;
        media_report.fill(CON_UNASSIGNED, start);
        proof {
            assert(media_report.contents() =~= before.contents());
        }
    }
}

} // verus!
