//! What the board state cache guarantees: the edits it finds bring the known state to the cue,
//! and a cue fired twice sends nothing the second time but the levels, which are not tracked.
use crate::cache::{
    all_assigns, all_unassigns, apply_all, assign_wanted, cue_assigned, cue_dca_name, cue_muted,
    dca_assigns, dca_unassigns, known_assigned, level_edits, mute_edits, name_edits, spec_cue_diff,
    unassign_wanted, SpecBoardState,
};
use crate::cues::SpecCue;
use crate::data::SpecBoardEdit;
use vstd::prelude::*;

verus! {

/// The value that the last edit of `es` to the assignment of channel `c` to DCA `d` gives it,
/// if `es` has such an edit.
pub open spec fn assign_effect(es: Seq<SpecBoardEdit>, d: u8, c: u8) -> Option<bool>
    decreases es.len(),
{
    if es.len() == 0 {
        None
    } else {
        match es.last() {
            SpecBoardEdit::ChannelDcaAssign(c2, d2, v) => if c2 == c && d2 == d {
                Some(v)
            } else {
                assign_effect(es.drop_last(), d, c)
            },
            _ => assign_effect(es.drop_last(), d, c),
        }
    }
}

/// The value that the last edit of `es` to the mute of channel `c` gives it, if any.
pub open spec fn mute_effect(es: Seq<SpecBoardEdit>, c: u8) -> Option<bool>
    decreases es.len(),
{
    if es.len() == 0 {
        None
    } else {
        match es.last() {
            SpecBoardEdit::ChannelMute(c2, v) => if c2 == c {
                Some(v)
            } else {
                mute_effect(es.drop_last(), c)
            },
            _ => mute_effect(es.drop_last(), c),
        }
    }
}

/// The value that the last edit of `es` to the name of DCA `d` gives it, if any.
pub open spec fn name_effect(es: Seq<SpecBoardEdit>, d: u8) -> Option<Seq<char>>
    decreases es.len(),
{
    if es.len() == 0 {
        None
    } else {
        match es.last() {
            SpecBoardEdit::DcaName(d2, n) => if d2 == d {
                Some(n)
            } else {
                name_effect(es.drop_last(), d)
            },
            _ => name_effect(es.drop_last(), d),
        }
    }
}

/// The known state agrees with the cue on the mutes of the first `n_ch` channels and on their
/// assignment to the first `n_dca` DCAs.
pub open spec fn agrees_on_channels(st: SpecBoardState, cue: SpecCue, n_ch: u8, n_dca: u8) -> bool {
    &&& forall|d: u8| d < n_dca && 0 < n_ch ==> #[trigger] st.assignments.contains_key(d)
    &&& forall|d: u8, c: u8|
        #![trigger known_assigned(st, d).contains(c)]
        d < n_dca && c < n_ch ==> known_assigned(st, d).contains(c) == cue_assigned(cue, d).contains(c)
    &&& forall|c: u8|
        c < n_ch ==> #[trigger] st.mutes.contains_key(c) && st.mutes[c] == cue_muted(cue, c, n_dca)
}

/// The known state agrees with the names that the cue gives its first `n_dca` DCAs.
pub open spec fn agrees_on_names(
    st: SpecBoardState,
    cue: SpecCue,
    nm: Map<u8, Seq<char>>,
    n_dca: u8,
) -> bool {
    forall|d: u8|
        d < n_dca ==> #[trigger] st.names.contains_key(d) && st.names[d] == cue_dca_name(
            cue,
            nm,
            d as int,
        )
}

/// The known state agrees with the cue on the first `n_ch` channels and `n_dca` DCAs, and, when
/// channel names are given, on the names of those DCAs.
pub open spec fn agrees_with_cue(
    st: SpecBoardState,
    cue: SpecCue,
    names: Option<Map<u8, Seq<char>>>,
    n_ch: u8,
    n_dca: u8,
) -> bool {
    &&& agrees_on_channels(st, cue, n_ch, n_dca)
    &&& match names {
        Some(nm) => agrees_on_names(st, cue, nm, n_dca),
        None => true,
    }
}

/// The number of DCAs whose levels a cue sends.
pub open spec fn level_count(cue: SpecCue, n_dca: u8) -> nat {
    if (n_dca as int) < cue.dcas.len() {
        n_dca as nat
    } else {
        cue.dcas.len()
    }
}

/// Taking `a` then `b` is taking `a + b`.
pub proof fn lemma_apply_all_append(st: SpecBoardState, a: Seq<SpecBoardEdit>, b: Seq<SpecBoardEdit>)
    ensures
        apply_all(st, a + b) == apply_all(apply_all(st, a), b),
    decreases b.len(),
{
    if b.len() == 0 {
        assert(a + b =~= a);
    } else {
        lemma_apply_all_append(st, a, b.drop_last());
        assert((a + b).drop_last() =~= a + b.drop_last());
    }
}

proof fn lemma_effects_append(a: Seq<SpecBoardEdit>, b: Seq<SpecBoardEdit>, d: u8, c: u8)
    ensures
        assign_effect(a + b, d, c) == match assign_effect(b, d, c) {
            Some(v) => Some(v),
            None => assign_effect(a, d, c),
        },
        mute_effect(a + b, c) == match mute_effect(b, c) {
            Some(v) => Some(v),
            None => mute_effect(a, c),
        },
        name_effect(a + b, d) == match name_effect(b, d) {
            Some(v) => Some(v),
            None => name_effect(a, d),
        },
    decreases b.len(),
{
    if b.len() == 0 {
        assert(a + b =~= a);
    } else {
        lemma_effects_append(a, b.drop_last(), d, c);
        assert((a + b).drop_last() =~= a + b.drop_last());
    }
}

proof fn lemma_effects_single(x: SpecBoardEdit, d: u8, c: u8)
    ensures
        assign_effect(seq![x], d, c) == match x {
            SpecBoardEdit::ChannelDcaAssign(c2, d2, v) => if c2 == c && d2 == d {
                Some(v)
            } else {
                None
            },
            _ => None,
        },
        mute_effect(seq![x], c) == match x {
            SpecBoardEdit::ChannelMute(c2, v) => if c2 == c {
                Some(v)
            } else {
                None
            },
            _ => None,
        },
        name_effect(seq![x], d) == match x {
            SpecBoardEdit::DcaName(d2, n) => if d2 == d {
                Some(n)
            } else {
                None
            },
            _ => None,
        },
{
    let s = seq![x];
    assert(s.last() == x);
    assert(s.drop_last() =~= Seq::<SpecBoardEdit>::empty());
    lemma_effects_empty(d, c);
}

proof fn lemma_effects_empty(d: u8, c: u8)
    ensures
        assign_effect(Seq::<SpecBoardEdit>::empty(), d, c) is None,
        mute_effect(Seq::<SpecBoardEdit>::empty(), c) is None,
        name_effect(Seq::<SpecBoardEdit>::empty(), d) is None,
{
}

/// How the assignment of channel `c` to DCA `d` stands after the edits `es`.
proof fn lemma_assign_after(st: SpecBoardState, es: Seq<SpecBoardEdit>, d: u8, c: u8)
    ensures
        (assign_effect(es, d, c) is Some || st.assignments.contains_key(d)) ==> apply_all(
            st,
            es,
        ).assignments.contains_key(d),
        known_assigned(apply_all(st, es), d).contains(c) == match assign_effect(es, d, c) {
            Some(v) => v,
            None => known_assigned(st, d).contains(c),
        },
    decreases es.len(),
{
    if es.len() > 0 {
        lemma_assign_after(st, es.drop_last(), d, c);
    }
}

/// How the mute of channel `c` stands after the edits `es`.
proof fn lemma_mute_after(st: SpecBoardState, es: Seq<SpecBoardEdit>, c: u8)
    ensures
        apply_all(st, es).mutes.contains_key(c) == (mute_effect(es, c) is Some
            || st.mutes.contains_key(c)),
        apply_all(st, es).mutes.contains_key(c) ==> apply_all(st, es).mutes[c] == match mute_effect(
            es,
            c,
        ) {
            Some(v) => v,
            None => st.mutes[c],
        },
    decreases es.len(),
{
    if es.len() > 0 {
        lemma_mute_after(st, es.drop_last(), c);
    }
}

/// How the name of DCA `d` stands after the edits `es`.
proof fn lemma_name_after(st: SpecBoardState, es: Seq<SpecBoardEdit>, d: u8)
    ensures
        apply_all(st, es).names.contains_key(d) == (name_effect(es, d) is Some
            || st.names.contains_key(d)),
        apply_all(st, es).names.contains_key(d) ==> apply_all(st, es).names[d] == match name_effect(
            es,
            d,
        ) {
            Some(v) => v,
            None => st.names[d],
        },
    decreases es.len(),
{
    if es.len() > 0 {
        lemma_name_after(st, es.drop_last(), d);
    }
}

proof fn lemma_dca_assigns_effects(st: SpecBoardState, cue: SpecCue, d2: u8, k: nat, d: u8, c: u8)
    requires
        k <= 256,
    ensures
        assign_effect(dca_assigns(st, cue, d2, k), d, c) == if d2 == d && (c as nat) < k
            && assign_wanted(st, cue, d, c) {
            Some(true)
        } else {
            None
        },
        mute_effect(dca_assigns(st, cue, d2, k), c) is None,
        name_effect(dca_assigns(st, cue, d2, k), d) is None,
        assign_effect(dca_unassigns(st, cue, d2, k), d, c) == if d2 == d && (c as nat) < k
            && unassign_wanted(st, cue, d, c) {
            Some(false)
        } else {
            None
        },
        mute_effect(dca_unassigns(st, cue, d2, k), c) is None,
        name_effect(dca_unassigns(st, cue, d2, k), d) is None,
    decreases k,
{
    if k > 0 {
        let c2 = (k - 1) as u8;
        lemma_dca_assigns_effects(st, cue, d2, (k - 1) as nat, d, c);
        let ea = if assign_wanted(st, cue, d2, c2) {
            seq![SpecBoardEdit::ChannelDcaAssign(c2, d2, true)]
        } else {
            Seq::empty()
        };
        let eu = if unassign_wanted(st, cue, d2, c2) {
            seq![SpecBoardEdit::ChannelDcaAssign(c2, d2, false)]
        } else {
            Seq::empty()
        };
        lemma_effects_append(dca_assigns(st, cue, d2, (k - 1) as nat), ea, d, c);
        lemma_effects_append(dca_unassigns(st, cue, d2, (k - 1) as nat), eu, d, c);
        lemma_effects_empty(d, c);
        lemma_effects_single(SpecBoardEdit::ChannelDcaAssign(c2, d2, true), d, c);
        lemma_effects_single(SpecBoardEdit::ChannelDcaAssign(c2, d2, false), d, c);
    }
}

proof fn lemma_all_assigns_effects(st: SpecBoardState, cue: SpecCue, n_ch: u8, m: nat, d: u8, c: u8)
    requires
        m <= 256,
    ensures
        assign_effect(all_assigns(st, cue, n_ch, m), d, c) == if (d as nat) < m && c < n_ch
            && assign_wanted(st, cue, d, c) {
            Some(true)
        } else {
            None
        },
        mute_effect(all_assigns(st, cue, n_ch, m), c) is None,
        name_effect(all_assigns(st, cue, n_ch, m), d) is None,
        assign_effect(all_unassigns(st, cue, n_ch, m), d, c) == if (d as nat) < m && c < n_ch
            && unassign_wanted(st, cue, d, c) {
            Some(false)
        } else {
            None
        },
        mute_effect(all_unassigns(st, cue, n_ch, m), c) is None,
        name_effect(all_unassigns(st, cue, n_ch, m), d) is None,
    decreases m,
{
    if m > 0 {
        let d2 = (m - 1) as u8;
        lemma_all_assigns_effects(st, cue, n_ch, (m - 1) as nat, d, c);
        lemma_dca_assigns_effects(st, cue, d2, n_ch as nat, d, c);
        lemma_effects_append(
            all_assigns(st, cue, n_ch, (m - 1) as nat),
            dca_assigns(st, cue, d2, n_ch as nat),
            d,
            c,
        );
        lemma_effects_append(
            all_unassigns(st, cue, n_ch, (m - 1) as nat),
            dca_unassigns(st, cue, d2, n_ch as nat),
            d,
            c,
        );
    }
}

proof fn lemma_mute_edits_effects(st: SpecBoardState, cue: SpecCue, n_dca: u8, k: nat, d: u8, c: u8)
    requires
        k <= 256,
    ensures
        assign_effect(mute_edits(st, cue, n_dca, k), d, c) is None,
        name_effect(mute_edits(st, cue, n_dca, k), d) is None,
        mute_effect(mute_edits(st, cue, n_dca, k), c) == if (c as nat) < k && !(st.mutes.contains_key(
            c,
        ) && st.mutes[c] == cue_muted(cue, c, n_dca)) {
            Some(cue_muted(cue, c, n_dca))
        } else {
            None
        },
    decreases k,
{
    if k > 0 {
        let c2 = (k - 1) as u8;
        let mu = cue_muted(cue, c2, n_dca);
        lemma_mute_edits_effects(st, cue, n_dca, (k - 1) as nat, d, c);
        let e = if st.mutes.contains_key(c2) && st.mutes[c2] == mu {
            Seq::empty()
        } else {
            seq![SpecBoardEdit::ChannelMute(c2, mu)]
        };
        assert(mute_edits(st, cue, n_dca, k) == mute_edits(st, cue, n_dca, (k - 1) as nat) + e);
        lemma_effects_append(mute_edits(st, cue, n_dca, (k - 1) as nat), e, d, c);
        lemma_effects_empty(d, c);
        lemma_effects_single(SpecBoardEdit::ChannelMute(c2, mu), d, c);
    }
}

proof fn lemma_level_edits_effects(cue: SpecCue, k: nat, d: u8, c: u8)
    ensures
        assign_effect(level_edits(cue, k), d, c) is None,
        mute_effect(level_edits(cue, k), c) is None,
        name_effect(level_edits(cue, k), d) is None,
    decreases k,
{
    if k > 0 {
        let d2 = k - 1;
        lemma_level_edits_effects(cue, (k - 1) as nat, d, c);
        let e = if d2 < cue.dcas.len() && cue.dcas[d2].level is Some {
            seq![SpecBoardEdit::DcaLevel(d2 as u8, cue.dcas[d2].level->0)]
        } else {
            Seq::empty()
        };
        assert(level_edits(cue, k) == level_edits(cue, (k - 1) as nat) + e);
        lemma_effects_append(level_edits(cue, (k - 1) as nat), e, d, c);
        lemma_effects_empty(d, c);
        if d2 < cue.dcas.len() && cue.dcas[d2].level is Some {
            lemma_effects_single(SpecBoardEdit::DcaLevel(d2 as u8, cue.dcas[d2].level->0), d, c);
        }
    }
}

proof fn lemma_name_edits_effects(
    st: SpecBoardState,
    cue: SpecCue,
    names: Map<u8, Seq<char>>,
    k: nat,
    d: u8,
    c: u8,
)
    requires
        k <= 256,
    ensures
        assign_effect(name_edits(st, cue, names, k), d, c) is None,
        mute_effect(name_edits(st, cue, names, k), c) is None,
        name_effect(name_edits(st, cue, names, k), d) == if (d as nat) < k && !(st.names.contains_key(
            d,
        ) && st.names[d] == cue_dca_name(cue, names, d as int)) {
            Some(cue_dca_name(cue, names, d as int))
        } else {
            None
        },
    decreases k,
{
    if k > 0 {
        let d2 = (k - 1) as u8;
        let n = cue_dca_name(cue, names, d2 as int);
        lemma_name_edits_effects(st, cue, names, (k - 1) as nat, d, c);
        let e = if st.names.contains_key(d2) && st.names[d2] == n {
            Seq::empty()
        } else {
            seq![SpecBoardEdit::DcaName(d2, n)]
        };
        assert(name_edits(st, cue, names, k) == name_edits(st, cue, names, (k - 1) as nat) + e);
        lemma_effects_append(name_edits(st, cue, names, (k - 1) as nat), e, d, c);
        lemma_effects_empty(d, c);
        lemma_effects_single(SpecBoardEdit::DcaName(d2, n), d, c);
    }
}

/// The effects of the whole diff on one DCA assignment, one mute and one DCA name.
proof fn lemma_diff_effects(
    st: SpecBoardState,
    cue: SpecCue,
    names: Option<Map<u8, Seq<char>>>,
    n_ch: u8,
    n_dca: u8,
    d: u8,
    c: u8,
)
    ensures
        assign_effect(spec_cue_diff(st, cue, names, n_ch, n_dca), d, c) == if d < n_dca && c < n_ch
            && unassign_wanted(st, cue, d, c) {
            Some(false)
        } else if d < n_dca && c < n_ch && assign_wanted(st, cue, d, c) {
            Some(true)
        } else {
            None
        },
        mute_effect(spec_cue_diff(st, cue, names, n_ch, n_dca), c) == if c < n_ch && !(
        st.mutes.contains_key(c) && st.mutes[c] == cue_muted(cue, c, n_dca)) {
            Some(cue_muted(cue, c, n_dca))
        } else {
            None
        },
        match names {
            Some(nm) => name_effect(spec_cue_diff(st, cue, names, n_ch, n_dca), d) == if d < n_dca
                && !(st.names.contains_key(d) && st.names[d] == cue_dca_name(cue, nm, d as int)) {
                Some(cue_dca_name(cue, nm, d as int))
            } else {
                None
            },
            None => true,
        },
{
    let a = all_assigns(st, cue, n_ch, n_dca as nat);
    let mu = mute_edits(st, cue, n_dca, n_ch as nat);
    let u = all_unassigns(st, cue, n_ch, n_dca as nat);
    let l = level_edits(cue, level_count(cue, n_dca));
    let n = match names {
        Some(nm) => name_edits(st, cue, nm, n_dca as nat),
        None => Seq::empty(),
    };
    lemma_all_assigns_effects(st, cue, n_ch, n_dca as nat, d, c);
    lemma_mute_edits_effects(st, cue, n_dca, n_ch as nat, d, c);
    lemma_level_edits_effects(cue, level_count(cue, n_dca), d, c);
    match names {
        Some(nm) => {
            lemma_name_edits_effects(st, cue, nm, n_dca as nat, d, c);
        },
        None => {},
    }
    lemma_effects_append(a, mu, d, c);
    lemma_effects_append(a + mu, u, d, c);
    lemma_effects_append(a + mu + u, l, d, c);
    lemma_effects_append(a + mu + u + l, n, d, c);
    assert(spec_cue_diff(st, cue, names, n_ch, n_dca) == a + mu + u + l + n);
}

/// After the board has taken the edits that the cache finds for a cue, the known state agrees
/// with the cue on every channel and DCA that the cache controls.
pub proof fn lemma_diff_reaches_cue(
    st: SpecBoardState,
    cue: SpecCue,
    names: Option<Map<u8, Seq<char>>>,
    n_ch: u8,
    n_dca: u8,
)
    ensures
        agrees_with_cue(apply_all(st, spec_cue_diff(st, cue, names, n_ch, n_dca)), cue, names, n_ch, n_dca),
{
    let es = spec_cue_diff(st, cue, names, n_ch, n_dca);
    let st2 = apply_all(st, es);
    assert forall|d: u8| d < n_dca && 0 < n_ch implies #[trigger] st2.assignments.contains_key(d) by {
        lemma_diff_effects(st, cue, names, n_ch, n_dca, d, 0);
        lemma_assign_after(st, es, d, 0);
    }
    assert forall|d: u8, c: u8|
        #![trigger known_assigned(st2, d).contains(c)]
        d < n_dca && c < n_ch implies known_assigned(st2, d).contains(c) == cue_assigned(
        cue,
        d,
    ).contains(c) by {
        lemma_diff_effects(st, cue, names, n_ch, n_dca, d, c);
        lemma_assign_after(st, es, d, c);
    }
    assert forall|c: u8|
        c < n_ch implies #[trigger] st2.mutes.contains_key(c) && st2.mutes[c] == cue_muted(cue, c, n_dca) by {
        lemma_diff_effects(st, cue, names, n_ch, n_dca, 0, c);
        lemma_mute_after(st, es, c);
        assert(st2.mutes.contains_key(c));
        assert(st2.mutes[c] == cue_muted(cue, c, n_dca));
    }
    assert(agrees_on_channels(st2, cue, n_ch, n_dca));
    match names {
        Some(nm) => {
            lemma_names_reach_cue(st, cue, nm, n_ch, n_dca);
            assert(es == spec_cue_diff(st, cue, Some(nm), n_ch, n_dca));
            assert(agrees_on_names(st2, cue, nm, n_dca));
        },
        None => {},
    }
}

proof fn lemma_names_reach_cue(
    st: SpecBoardState,
    cue: SpecCue,
    nm: Map<u8, Seq<char>>,
    n_ch: u8,
    n_dca: u8,
)
    ensures
        agrees_on_names(
            apply_all(st, spec_cue_diff(st, cue, Some(nm), n_ch, n_dca)),
            cue,
            nm,
            n_dca,
        ),
{
    let es = spec_cue_diff(st, cue, Some(nm), n_ch, n_dca);
    let st2 = apply_all(st, es);
    assert forall|d: u8|
        d < n_dca implies #[trigger] st2.names.contains_key(d) && st2.names[d] == cue_dca_name(
        cue,
        nm,
        d as int,
    ) by {
        lemma_diff_effects(st, cue, Some(nm), n_ch, n_dca, d, 0);
        lemma_name_after(st, es, d);
        assert(name_effect(es, d) matches Some(v) ==> v == cue_dca_name(cue, nm, d as int));
    }
}

proof fn lemma_agree_no_assigns(st: SpecBoardState, cue: SpecCue, n_ch: u8, n_dca: u8, d: u8, k: nat)
    requires
        agrees_on_channels(st, cue, n_ch, n_dca),
        d < n_dca,
        k <= n_ch,
    ensures
        dca_assigns(st, cue, d, k) == Seq::<SpecBoardEdit>::empty(),
        dca_unassigns(st, cue, d, k) == Seq::<SpecBoardEdit>::empty(),
    decreases k,
{
    if k > 0 {
        let c = (k - 1) as u8;
        lemma_agree_no_assigns(st, cue, n_ch, n_dca, d, (k - 1) as nat);
        assert(st.assignments.contains_key(d));
        assert(known_assigned(st, d).contains(c) == cue_assigned(cue, d).contains(c));
        assert(dca_assigns(st, cue, d, k) =~= Seq::<SpecBoardEdit>::empty());
        assert(dca_unassigns(st, cue, d, k) =~= Seq::<SpecBoardEdit>::empty());
    }
}

proof fn lemma_agree_no_all_assigns(st: SpecBoardState, cue: SpecCue, n_ch: u8, n_dca: u8, m: nat)
    requires
        agrees_on_channels(st, cue, n_ch, n_dca),
        m <= n_dca,
    ensures
        all_assigns(st, cue, n_ch, m) == Seq::<SpecBoardEdit>::empty(),
        all_unassigns(st, cue, n_ch, m) == Seq::<SpecBoardEdit>::empty(),
    decreases m,
{
    if m > 0 {
        lemma_agree_no_all_assigns(st, cue, n_ch, n_dca, (m - 1) as nat);
        lemma_agree_no_assigns(st, cue, n_ch, n_dca, (m - 1) as u8, n_ch as nat);
        assert(all_assigns(st, cue, n_ch, m) =~= Seq::<SpecBoardEdit>::empty());
        assert(all_unassigns(st, cue, n_ch, m) =~= Seq::<SpecBoardEdit>::empty());
    }
}

proof fn lemma_agree_no_mutes(st: SpecBoardState, cue: SpecCue, n_ch: u8, n_dca: u8, k: nat)
    requires
        agrees_on_channels(st, cue, n_ch, n_dca),
        k <= n_ch,
    ensures
        mute_edits(st, cue, n_dca, k) == Seq::<SpecBoardEdit>::empty(),
    decreases k,
{
    if k > 0 {
        let c = (k - 1) as u8;
        lemma_agree_no_mutes(st, cue, n_ch, n_dca, (k - 1) as nat);
        assert(st.mutes.contains_key(c) && st.mutes[c] == cue_muted(cue, c, n_dca));
        assert(mute_edits(st, cue, n_dca, k) =~= Seq::<SpecBoardEdit>::empty());
    }
}

proof fn lemma_agree_no_names(
    st: SpecBoardState,
    cue: SpecCue,
    nm: Map<u8, Seq<char>>,
    n_ch: u8,
    n_dca: u8,
    k: nat,
)
    requires
        agrees_on_names(st, cue, nm, n_dca),
        k <= n_dca,
    ensures
        name_edits(st, cue, nm, k) == Seq::<SpecBoardEdit>::empty(),
    decreases k,
{
    if k > 0 {
        let d = (k - 1) as u8;
        lemma_agree_no_names(st, cue, nm, n_ch, n_dca, (k - 1) as nat);
        assert(st.names.contains_key(d));
        assert(st.names[d] == cue_dca_name(cue, nm, d as int));
        assert(name_edits(st, cue, nm, k) =~= Seq::<SpecBoardEdit>::empty());
    }
}

/// When the known state agrees with a cue, the only edits found for the cue are its levels.
pub proof fn lemma_agreeing_state_needs_only_levels(
    st: SpecBoardState,
    cue: SpecCue,
    names: Option<Map<u8, Seq<char>>>,
    n_ch: u8,
    n_dca: u8,
)
    requires
        agrees_with_cue(st, cue, names, n_ch, n_dca),
    ensures
        spec_cue_diff(st, cue, names, n_ch, n_dca) == level_edits(cue, level_count(cue, n_dca)),
{
    lemma_agree_no_all_assigns(st, cue, n_ch, n_dca, n_dca as nat);
    lemma_agree_no_mutes(st, cue, n_ch, n_dca, n_ch as nat);
    match names {
        Some(nm) => {
            lemma_agree_no_names(st, cue, nm, n_ch, n_dca, n_dca as nat);
        },
        None => {},
    }
    assert(spec_cue_diff(st, cue, names, n_ch, n_dca) =~= level_edits(cue, level_count(cue, n_dca)));
}

/// Firing the same cue a second time finds no mute, assignment or name edit: only the levels,
/// which are not tracked, are sent again.
pub proof fn lemma_refire_sends_only_levels(
    st: SpecBoardState,
    cue: SpecCue,
    names: Option<Map<u8, Seq<char>>>,
    n_ch: u8,
    n_dca: u8,
)
    ensures
        spec_cue_diff(
            apply_all(st, spec_cue_diff(st, cue, names, n_ch, n_dca)),
            cue,
            names,
            n_ch,
            n_dca,
        ) == level_edits(cue, level_count(cue, n_dca)),
{
    lemma_diff_reaches_cue(st, cue, names, n_ch, n_dca);
    lemma_agreeing_state_needs_only_levels(
        apply_all(st, spec_cue_diff(st, cue, names, n_ch, n_dca)),
        cue,
        names,
        n_ch,
        n_dca,
    );
}

/// The level edits of `es`, in order.
pub open spec fn keep_levels(es: Seq<SpecBoardEdit>) -> Seq<SpecBoardEdit>
    decreases es.len(),
{
    if es.len() == 0 {
        Seq::empty()
    } else {
        keep_levels(es.drop_last()) + if es.last() is DcaLevel {
            seq![es.last()]
        } else {
            Seq::empty()
        }
    }
}

/// Keeping the level edits of `a + b` is keeping those of `a`, then those of `b`.
proof fn lemma_keep_levels_append(a: Seq<SpecBoardEdit>, b: Seq<SpecBoardEdit>)
    ensures
        keep_levels(a + b) == keep_levels(a) + keep_levels(b),
    decreases b.len(),
{
    if b.len() == 0 {
        assert(a + b =~= a);
        assert(keep_levels(a) + keep_levels(b) =~= keep_levels(a));
    } else {
        lemma_keep_levels_append(a, b.drop_last());
        assert((a + b).drop_last() =~= a + b.drop_last());
        assert((a + b).last() == b.last());
        let t = if b.last() is DcaLevel {
            seq![b.last()]
        } else {
            Seq::<SpecBoardEdit>::empty()
        };
        assert(keep_levels(a) + keep_levels(b.drop_last()) + t =~= keep_levels(a) + (keep_levels(
            b.drop_last(),
        ) + t));
    }
}

/// A sequence with no level edit keeps nothing.
proof fn lemma_keep_levels_single(e: SpecBoardEdit)
    ensures
        keep_levels(seq![e]) == (if e is DcaLevel {
            seq![e]
        } else {
            Seq::<SpecBoardEdit>::empty()
        }),
{
    let s = seq![e];
    assert(s.drop_last() =~= Seq::<SpecBoardEdit>::empty());
    assert(keep_levels(Seq::<SpecBoardEdit>::empty()) == Seq::<SpecBoardEdit>::empty());
    assert(keep_levels(s) =~= (if e is DcaLevel {
        seq![e]
    } else {
        Seq::<SpecBoardEdit>::empty()
    }));
}

proof fn lemma_keep_levels_empty()
    ensures
        keep_levels(Seq::<SpecBoardEdit>::empty()) == Seq::<SpecBoardEdit>::empty(),
{
}

proof fn lemma_no_levels_assigns(st: SpecBoardState, cue: SpecCue, d: u8, k: nat)
    ensures
        keep_levels(dca_assigns(st, cue, d, k)) == Seq::<SpecBoardEdit>::empty(),
        keep_levels(dca_unassigns(st, cue, d, k)) == Seq::<SpecBoardEdit>::empty(),
    decreases k,
{
    if k > 0 {
        let c = (k - 1) as u8;
        lemma_no_levels_assigns(st, cue, d, (k - 1) as nat);
        lemma_keep_levels_empty();
        let ta = if assign_wanted(st, cue, d, c) {
            seq![SpecBoardEdit::ChannelDcaAssign(c, d, true)]
        } else {
            Seq::empty()
        };
        let tu = if unassign_wanted(st, cue, d, c) {
            seq![SpecBoardEdit::ChannelDcaAssign(c, d, false)]
        } else {
            Seq::empty()
        };
        lemma_keep_levels_append(dca_assigns(st, cue, d, (k - 1) as nat), ta);
        lemma_keep_levels_append(dca_unassigns(st, cue, d, (k - 1) as nat), tu);
        lemma_keep_levels_single(SpecBoardEdit::ChannelDcaAssign(c, d, true));
        lemma_keep_levels_single(SpecBoardEdit::ChannelDcaAssign(c, d, false));
        assert(keep_levels(ta) =~= Seq::<SpecBoardEdit>::empty());
        assert(keep_levels(tu) =~= Seq::<SpecBoardEdit>::empty());
        assert(Seq::<SpecBoardEdit>::empty() + Seq::<SpecBoardEdit>::empty() =~= Seq::<
            SpecBoardEdit,
        >::empty());
    }
}

proof fn lemma_no_levels_all(st: SpecBoardState, cue: SpecCue, n_ch: u8, m: nat)
    ensures
        keep_levels(all_assigns(st, cue, n_ch, m)) == Seq::<SpecBoardEdit>::empty(),
        keep_levels(all_unassigns(st, cue, n_ch, m)) == Seq::<SpecBoardEdit>::empty(),
    decreases m,
{
    if m > 0 {
        lemma_no_levels_all(st, cue, n_ch, (m - 1) as nat);
        lemma_no_levels_assigns(st, cue, (m - 1) as u8, n_ch as nat);
        lemma_keep_levels_append(
            all_assigns(st, cue, n_ch, (m - 1) as nat),
            dca_assigns(st, cue, (m - 1) as u8, n_ch as nat),
        );
        lemma_keep_levels_append(
            all_unassigns(st, cue, n_ch, (m - 1) as nat),
            dca_unassigns(st, cue, (m - 1) as u8, n_ch as nat),
        );
        assert(Seq::<SpecBoardEdit>::empty() + Seq::<SpecBoardEdit>::empty() =~= Seq::<
            SpecBoardEdit,
        >::empty());
    } else {
        lemma_keep_levels_empty();
    }
}

proof fn lemma_no_levels_mutes(st: SpecBoardState, cue: SpecCue, n_dca: u8, k: nat)
    ensures
        keep_levels(mute_edits(st, cue, n_dca, k)) == Seq::<SpecBoardEdit>::empty(),
    decreases k,
{
    lemma_keep_levels_empty();
    if k > 0 {
        let c = (k - 1) as u8;
        let m = cue_muted(cue, c, n_dca);
        lemma_no_levels_mutes(st, cue, n_dca, (k - 1) as nat);
        let t = if st.mutes.contains_key(c) && st.mutes[c] == m {
            Seq::empty()
        } else {
            seq![SpecBoardEdit::ChannelMute(c, m)]
        };
        lemma_keep_levels_append(mute_edits(st, cue, n_dca, (k - 1) as nat), t);
        lemma_keep_levels_single(SpecBoardEdit::ChannelMute(c, m));
        assert(keep_levels(t) =~= Seq::<SpecBoardEdit>::empty());
        assert(Seq::<SpecBoardEdit>::empty() + Seq::<SpecBoardEdit>::empty() =~= Seq::<
            SpecBoardEdit,
        >::empty());
    }
}

proof fn lemma_no_levels_names(st: SpecBoardState, cue: SpecCue, names: Map<u8, Seq<char>>, k: nat)
    ensures
        keep_levels(name_edits(st, cue, names, k)) == Seq::<SpecBoardEdit>::empty(),
    decreases k,
{
    lemma_keep_levels_empty();
    if k > 0 {
        let d = (k - 1) as u8;
        let n = cue_dca_name(cue, names, d as int);
        lemma_no_levels_names(st, cue, names, (k - 1) as nat);
        let t = if st.names.contains_key(d) && st.names[d] == n {
            Seq::empty()
        } else {
            seq![SpecBoardEdit::DcaName(d, n)]
        };
        lemma_keep_levels_append(name_edits(st, cue, names, (k - 1) as nat), t);
        lemma_keep_levels_single(SpecBoardEdit::DcaName(d, n));
        assert(keep_levels(t) =~= Seq::<SpecBoardEdit>::empty());
        assert(Seq::<SpecBoardEdit>::empty() + Seq::<SpecBoardEdit>::empty() =~= Seq::<
            SpecBoardEdit,
        >::empty());
    }
}

proof fn lemma_levels_kept(cue: SpecCue, k: nat)
    ensures
        keep_levels(level_edits(cue, k)) == level_edits(cue, k),
    decreases k,
{
    lemma_keep_levels_empty();
    if k > 0 {
        let d = k - 1;
        lemma_levels_kept(cue, (k - 1) as nat);
        let t = if d < cue.dcas.len() && cue.dcas[d].level is Some {
            seq![SpecBoardEdit::DcaLevel(d as u8, cue.dcas[d].level->0)]
        } else {
            Seq::empty()
        };
        lemma_keep_levels_append(level_edits(cue, (k - 1) as nat), t);
        if d < cue.dcas.len() && cue.dcas[d].level is Some {
            lemma_keep_levels_single(SpecBoardEdit::DcaLevel(d as u8, cue.dcas[d].level->0));
        }
        assert(keep_levels(t) =~= t);
    }
}

/// Firing the same cue a second time sends exactly the level edits of the first firing, in the
/// same order: every mute, assignment and name edit of the first firing is not sent again.
pub proof fn lemma_refire_sends_first_levels(
    st: SpecBoardState,
    cue: SpecCue,
    names: Option<Map<u8, Seq<char>>>,
    n_ch: u8,
    n_dca: u8,
)
    ensures
        spec_cue_diff(
            apply_all(st, spec_cue_diff(st, cue, names, n_ch, n_dca)),
            cue,
            names,
            n_ch,
            n_dca,
        ) == keep_levels(spec_cue_diff(st, cue, names, n_ch, n_dca)),
{
    lemma_refire_sends_only_levels(st, cue, names, n_ch, n_dca);
    let a = all_assigns(st, cue, n_ch, n_dca as nat);
    let m = mute_edits(st, cue, n_dca, n_ch as nat);
    let u = all_unassigns(st, cue, n_ch, n_dca as nat);
    let l = level_edits(cue, level_count(cue, n_dca));
    let nm = match names {
        Some(x) => name_edits(st, cue, x, n_dca as nat),
        None => Seq::<SpecBoardEdit>::empty(),
    };
    lemma_no_levels_all(st, cue, n_ch, n_dca as nat);
    lemma_no_levels_mutes(st, cue, n_dca, n_ch as nat);
    lemma_levels_kept(cue, level_count(cue, n_dca));
    lemma_keep_levels_empty();
    match names {
        Some(x) => lemma_no_levels_names(st, cue, x, n_dca as nat),
        None => {},
    }
    lemma_keep_levels_append(a, m);
    lemma_keep_levels_append(a + m, u);
    lemma_keep_levels_append(a + m + u, l);
    lemma_keep_levels_append(a + m + u + l, nm);
    assert(spec_cue_diff(st, cue, names, n_ch, n_dca) == a + m + u + l + nm);
    assert(keep_levels(a + m + u + l + nm) =~= l);
}

/// A sequence whose level edits are none holds no level edit.
proof fn lemma_no_level_in(s: Seq<SpecBoardEdit>)
    requires
        keep_levels(s) == Seq::<SpecBoardEdit>::empty(),
    ensures
        forall|i: int| 0 <= i < s.len() ==> !((#[trigger] s[i]) is DcaLevel),
    decreases s.len(),
{
    if s.len() > 0 {
        let last = s.last();
        let tail = if last is DcaLevel {
            seq![last]
        } else {
            Seq::<SpecBoardEdit>::empty()
        };
        assert(keep_levels(s) == keep_levels(s.drop_last()) + tail);
        assert(keep_levels(s.drop_last()).len() + tail.len() == 0);
        assert(keep_levels(s.drop_last()) =~= Seq::<SpecBoardEdit>::empty());
        lemma_no_level_in(s.drop_last());
        assert forall|i: int| 0 <= i < s.len() implies !((#[trigger] s[i]) is DcaLevel) by {
            if i < s.len() - 1 {
                assert(s[i] == s.drop_last()[i]);
            }
        }
    }
}

/// The level edits for the DCAs below `k` are, each, the level that the cue sets for the DCA it
/// names, and name only DCAs below `k`; and every DCA below `k` whose level the cue sets has
/// its edit.
proof fn lemma_level_edits_by_dca(cue: SpecCue, k: nat)
    requires
        k <= 256,
    ensures
        forall|i: int|
            0 <= i < level_edits(cue, k).len() ==> ((#[trigger] level_edits(cue, k)[i]) matches SpecBoardEdit::DcaLevel(j, lv)
                && (j as int) < k && (j as int) < cue.dcas.len() && cue.dcas[j as int].level == Some(lv)),
        forall|j: int|
            0 <= j < k && j < cue.dcas.len() && (#[trigger] cue.dcas[j]).level is Some ==> level_edits(
                cue,
                k,
            ).contains(SpecBoardEdit::DcaLevel(j as u8, cue.dcas[j].level->0)),
    decreases k,
{
    if k > 0 {
        let prev = level_edits(cue, (k - 1) as nat);
        lemma_level_edits_by_dca(cue, (k - 1) as nat);
        let top: int = k - 1;
        let tail = if top < cue.dcas.len() && cue.dcas[top].level is Some {
            seq![SpecBoardEdit::DcaLevel(top as u8, cue.dcas[top].level.unwrap())]
        } else {
            Seq::<SpecBoardEdit>::empty()
        };
        let all = level_edits(cue, k);
        assert(all == prev + tail);
        assert((top as u8) as int == top);
        assert forall|i: int| 0 <= i < all.len() implies ((#[trigger] all[i]) matches SpecBoardEdit::DcaLevel(j, lv)
            && (j as int) < k && (j as int) < cue.dcas.len() && cue.dcas[j as int].level == Some(lv)) by {
            if i < prev.len() {
                assert(all[i] == prev[i]);
            } else {
                assert(all[i] == tail[i - prev.len()]);
            }
        }
        assert forall|j: int|
            0 <= j < k && j < cue.dcas.len() && (#[trigger] cue.dcas[j]).level is Some implies all.contains(
                SpecBoardEdit::DcaLevel(j as u8, cue.dcas[j].level->0),
            ) by {
            let want = SpecBoardEdit::DcaLevel(j as u8, cue.dcas[j].level->0);
            if j < top {
                assert(prev.contains(want));
                let q = choose|q: int| 0 <= q < prev.len() && prev[q] == want;
                assert(all[q] == want);
            } else {
                assert(all[prev.len() as int] == want);
            }
        }
    }
}

/// Every level edit found for a cue is the level that the cue sets for the DCA it names, and
/// names one of the first `n_dca` DCAs; and every one of those DCAs whose level the cue sets
/// gets that level sent to it.
pub proof fn lemma_diff_levels_by_dca(
    st: SpecBoardState,
    cue: SpecCue,
    names: Option<Map<u8, Seq<char>>>,
    n_ch: u8,
    n_dca: u8,
)
    ensures
        forall|i: int|
            0 <= i < spec_cue_diff(st, cue, names, n_ch, n_dca).len() ==> ((#[trigger] spec_cue_diff(
                st,
                cue,
                names,
                n_ch,
                n_dca,
            )[i]) matches SpecBoardEdit::DcaLevel(j, lv) ==> j < n_dca && (j as int) < cue.dcas.len()
                && cue.dcas[j as int].level == Some(lv)),
        forall|j: int|
            0 <= j < n_dca && j < cue.dcas.len() && (#[trigger] cue.dcas[j]).level is Some
                ==> spec_cue_diff(st, cue, names, n_ch, n_dca).contains(
                SpecBoardEdit::DcaLevel(j as u8, cue.dcas[j].level->0),
            ),
{
    let a = all_assigns(st, cue, n_ch, n_dca as nat);
    let m = mute_edits(st, cue, n_dca, n_ch as nat);
    let u = all_unassigns(st, cue, n_ch, n_dca as nat);
    let k = level_count(cue, n_dca);
    let l = level_edits(cue, k);
    let nm = match names {
        Some(x) => name_edits(st, cue, x, n_dca as nat),
        None => Seq::<SpecBoardEdit>::empty(),
    };
    lemma_no_levels_all(st, cue, n_ch, n_dca as nat);
    lemma_no_levels_mutes(st, cue, n_dca, n_ch as nat);
    lemma_keep_levels_empty();
    match names {
        Some(x) => lemma_no_levels_names(st, cue, x, n_dca as nat),
        None => {},
    }
    lemma_keep_levels_append(a, m);
    lemma_keep_levels_append(a + m, u);
    assert(keep_levels(a + m + u) =~= Seq::<SpecBoardEdit>::empty());
    lemma_no_level_in(a + m + u);
    lemma_no_level_in(nm);
    lemma_level_edits_by_dca(cue, k);
    let core = a + m + u;
    let diff = spec_cue_diff(st, cue, names, n_ch, n_dca);
    assert(diff == core + l + nm);
    assert forall|i: int| 0 <= i < diff.len() implies ((#[trigger] diff[i]) matches SpecBoardEdit::DcaLevel(j, lv)
        ==> j < n_dca && (j as int) < cue.dcas.len() && cue.dcas[j as int].level == Some(lv)) by {
        if i < core.len() {
            assert(diff[i] == core[i]);
        } else if i < core.len() + l.len() {
            assert(diff[i] == l[i - core.len()]);
        } else {
            assert(diff[i] == nm[i - core.len() - l.len()]);
        }
    }
    assert forall|j: int|
        0 <= j < n_dca && j < cue.dcas.len() && (#[trigger] cue.dcas[j]).level is Some implies diff.contains(
            SpecBoardEdit::DcaLevel(j as u8, cue.dcas[j].level->0),
        ) by {
        let want = SpecBoardEdit::DcaLevel(j as u8, cue.dcas[j].level->0);
        assert(l.contains(want));
        let q = choose|q: int| 0 <= q < l.len() && l[q] == want;
        assert(diff[core.len() + q] == want);
    }
}

} // verus!
