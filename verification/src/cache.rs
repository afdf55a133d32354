//! The known state of a board, used to find the edits that bring the board to a cue without
//! sending the ones that would change nothing.
use crate::cues::{dca_display_name, dca_name_computable, ChannelNames, Cue, SpecCue};
use crate::data::{edits_view, BoardEdit, Channel, Dca, SpecBoardEdit};
use std::collections::{BTreeMap, BTreeSet};
use vstd::prelude::*;

verus! {

/// What is known of a board: the mute of some channels, the channels assigned to some DCAs and
/// the names of some DCAs. A missing key means that the value is not known.
pub struct SpecBoardState {
    pub mutes: Map<u8, bool>,
    pub assignments: Map<u8, Set<u8>>,
    pub names: Map<u8, Seq<char>>,
}

/// The known state of a board.
pub struct BoardStateCache {
    channel_mute: BTreeMap<u8, bool>,
    dca_assignments: BTreeMap<u8, BTreeSet<u8>>,
    dca_names: BTreeMap<u8, String>,
}

impl View for BoardStateCache {
    type V = SpecBoardState;

    closed spec fn view(&self) -> SpecBoardState {
        SpecBoardState {
            mutes: self.channel_mute@,
            assignments: self.dca_assignments@.map_values(|s: BTreeSet<u8>| s@),
            names: self.dca_names@.map_values(|s: String| s@),
        }
    }
}

/// The channels of DCA `d` as far as they are known (none when the DCA is not known).
pub open spec fn known_assigned(st: SpecBoardState, d: u8) -> Set<u8> {
    if st.assignments.contains_key(d) {
        st.assignments[d]
    } else {
        Set::empty()
    }
}

/// The state after the board has taken the edit `e`. Channel names and DCA levels are not
/// tracked.
pub open spec fn spec_apply(st: SpecBoardState, e: SpecBoardEdit) -> SpecBoardState {
    match e {
        SpecBoardEdit::ChannelMute(c, m) => SpecBoardState { mutes: st.mutes.insert(c, m), ..st },
        SpecBoardEdit::ChannelDcaAssign(c, d, a) => SpecBoardState {
            assignments: st.assignments.insert(
                d,
                if a {
                    known_assigned(st, d).insert(c)
                } else {
                    known_assigned(st, d).remove(c)
                },
            ),
            ..st
        },
        SpecBoardEdit::DcaName(d, n) => SpecBoardState { names: st.names.insert(d, n), ..st },
        SpecBoardEdit::ChannelName(..) => st,
        SpecBoardEdit::DcaLevel(..) => st,
    }
}

/// The state after the board has taken the edits `es` in order.
pub open spec fn apply_all(st: SpecBoardState, es: Seq<SpecBoardEdit>) -> SpecBoardState
    decreases es.len(),
{
    if es.len() == 0 {
        st
    } else {
        spec_apply(apply_all(st, es.drop_last()), es.last())
    }
}

/// The channels that the cue assigns to DCA `d` (none when the cue has no such DCA).
pub open spec fn cue_assigned(cue: SpecCue, d: u8) -> Set<u8> {
    if (d as int) < cue.dcas.len() {
        cue.dcas[d as int].assigned
    } else {
        Set::empty()
    }
}

/// Channel `c` must be assigned to DCA `d`: the cue assigns it and it is not known to be.
pub open spec fn assign_wanted(st: SpecBoardState, cue: SpecCue, d: u8, c: u8) -> bool {
    cue_assigned(cue, d).contains(c) && !(st.assignments.contains_key(d)
        && st.assignments[d].contains(c))
}

/// Channel `c` must be unassigned from DCA `d`: the cue does not assign it and it is not known
/// to be unassigned.
pub open spec fn unassign_wanted(st: SpecBoardState, cue: SpecCue, d: u8, c: u8) -> bool {
    !cue_assigned(cue, d).contains(c) && !(st.assignments.contains_key(d)
        && !st.assignments[d].contains(c))
}

/// The assign edits for DCA `d` and the channels below `k`, in increasing order of channel.
pub open spec fn dca_assigns(st: SpecBoardState, cue: SpecCue, d: u8, k: nat) -> Seq<
    SpecBoardEdit,
>
    decreases k,
{
    if k == 0 {
        Seq::empty()
    } else {
        let c = (k - 1) as u8;
        dca_assigns(st, cue, d, (k - 1) as nat) + if assign_wanted(st, cue, d, c) {
            seq![SpecBoardEdit::ChannelDcaAssign(c, d, true)]
        } else {
            Seq::empty()
        }
    }
}

/// The unassign edits for DCA `d` and the channels below `k`, in increasing order of channel.
pub open spec fn dca_unassigns(st: SpecBoardState, cue: SpecCue, d: u8, k: nat) -> Seq<
    SpecBoardEdit,
>
    decreases k,
{
    if k == 0 {
        Seq::empty()
    } else {
        let c = (k - 1) as u8;
        dca_unassigns(st, cue, d, (k - 1) as nat) + if unassign_wanted(st, cue, d, c) {
            seq![SpecBoardEdit::ChannelDcaAssign(c, d, false)]
        } else {
            Seq::empty()
        }
    }
}

/// The assign edits for the DCAs below `m` and the channels below `n_ch`, DCA by DCA.
pub open spec fn all_assigns(st: SpecBoardState, cue: SpecCue, n_ch: u8, m: nat) -> Seq<
    SpecBoardEdit,
>
    decreases m,
{
    if m == 0 {
        Seq::empty()
    } else {
        all_assigns(st, cue, n_ch, (m - 1) as nat) + dca_assigns(st, cue, (m - 1) as u8, n_ch as nat)
    }
}

/// The unassign edits for the DCAs below `m` and the channels below `n_ch`, DCA by DCA.
pub open spec fn all_unassigns(st: SpecBoardState, cue: SpecCue, n_ch: u8, m: nat) -> Seq<
    SpecBoardEdit,
>
    decreases m,
{
    if m == 0 {
        Seq::empty()
    } else {
        all_unassigns(st, cue, n_ch, (m - 1) as nat) + dca_unassigns(
            st,
            cue,
            (m - 1) as u8,
            n_ch as nat,
        )
    }
}

/// Whether channel `c` must be muted in the cue: it is in none of the cue's first `n_dca`
/// DCAs.
pub open spec fn cue_muted(cue: SpecCue, c: u8, n_dca: u8) -> bool {
    !exists|d: int| 0 <= d < n_dca && d < cue.dcas.len() && #[trigger] cue.dcas[d].assigned.contains(c)
}

/// The mute edits for the channels below `k`: those whose mute is unknown or wrong.
pub open spec fn mute_edits(st: SpecBoardState, cue: SpecCue, n_dca: u8, k: nat) -> Seq<
    SpecBoardEdit,
>
    decreases k,
{
    if k == 0 {
        Seq::empty()
    } else {
        let c = (k - 1) as u8;
        let m = cue_muted(cue, c, n_dca);
        mute_edits(st, cue, n_dca, (k - 1) as nat) + if st.mutes.contains_key(c) && st.mutes[c]
            == m {
            Seq::empty()
        } else {
            seq![SpecBoardEdit::ChannelMute(c, m)]
        }
    }
}

/// The edits that bring the mutes and DCA assignments to the cue: assigns first, then mutes,
/// then unassigns, so that no channel is heard through a DCA it is leaving.
pub open spec fn spec_cue_diff_core(st: SpecBoardState, cue: SpecCue, n_ch: u8, n_dca: u8) -> Seq<
    SpecBoardEdit,
> {
    all_assigns(st, cue, n_ch, n_dca as nat) + mute_edits(st, cue, n_dca, n_ch as nat)
        + all_unassigns(st, cue, n_ch, n_dca as nat)
}

/// The level edits for the cue's DCAs below `k` that set a level.
pub open spec fn level_edits(cue: SpecCue, k: nat) -> Seq<SpecBoardEdit>
    decreases k,
{
    if k == 0 {
        Seq::empty()
    } else {
        let d = k - 1;
        level_edits(cue, (k - 1) as nat) + if d < cue.dcas.len() && cue.dcas[d].level is Some {
            seq![SpecBoardEdit::DcaLevel(d as u8, cue.dcas[d].level->0)]
        } else {
            Seq::empty()
        }
    }
}

/// The name the cue gives DCA `d` (empty when the cue has no such DCA).
pub open spec fn cue_dca_name(cue: SpecCue, names: Map<u8, Seq<char>>, d: int) -> Seq<char> {
    if 0 <= d < cue.dcas.len() {
        dca_display_name(cue.dcas[d], names)
    } else {
        Seq::empty()
    }
}

/// The name edits for the DCAs below `k` whose name is unknown or wrong.
pub open spec fn name_edits(st: SpecBoardState, cue: SpecCue, names: Map<u8, Seq<char>>, k: nat) -> Seq<
    SpecBoardEdit,
>
    decreases k,
{
    if k == 0 {
        Seq::empty()
    } else {
        let d = (k - 1) as u8;
        let n = cue_dca_name(cue, names, d as int);
        name_edits(st, cue, names, (k - 1) as nat) + if st.names.contains_key(d) && st.names[d]
            == n {
            Seq::empty()
        } else {
            seq![SpecBoardEdit::DcaName(d, n)]
        }
    }
}

/// The edits that bring the board to the cue: mutes and assignments, then every level the cue
/// sets (levels are not tracked), then, when channel names are given, the DCA names.
pub open spec fn spec_cue_diff(
    st: SpecBoardState,
    cue: SpecCue,
    names: Option<Map<u8, Seq<char>>>,
    n_ch: u8,
    n_dca: u8,
) -> Seq<SpecBoardEdit> {
    spec_cue_diff_core(st, cue, n_ch, n_dca) + level_edits(
        cue,
        if (n_dca as int) < cue.dcas.len() {
            n_dca as nat
        } else {
            cue.dcas.len()
        },
    ) + match names {
        Some(names) => name_edits(st, cue, names, n_dca as nat),
        None => Seq::empty(),
    }
}

/// The shown names of the cue's first `n_dca` DCAs can be computed.
pub open spec fn cue_names_computable(cue: SpecCue, names: Map<u8, Seq<char>>, n_dca: u8) -> bool {
    forall|d: int|
        0 <= d < n_dca && d < cue.dcas.len() ==> dca_name_computable(#[trigger] cue.dcas[d], names)
}

/// The value of an optional map of channel names.
pub open spec fn opt_names(names: Option<&ChannelNames>) -> Option<Map<u8, Seq<char>>> {
    match names {
        Some(n) => Some(n@),
        None => None,
    }
}

impl Default for BoardStateCache {
    /// A cache that knows nothing.
    fn default() -> (r: BoardStateCache)
        ensures
            r@.mutes == Map::<u8, bool>::empty(),
            r@.assignments == Map::<u8, Set<u8>>::empty(),
            r@.names == Map::<u8, Seq<char>>::empty(),
    {
        let r = BoardStateCache {
            channel_mute: BTreeMap::new(),
            dca_assignments: BTreeMap::new(),
            dca_names: BTreeMap::new(),
        };
        assert(r@.assignments =~= Map::<u8, Set<u8>>::empty());
        assert(r@.names =~= Map::<u8, Seq<char>>::empty());
        r
    }
}

impl BoardStateCache {
    /// Updates the cache with the change that `edit` makes to the board.
    pub fn apply_board_edit(&mut self, edit: &BoardEdit)
        ensures
            final(self)@ == spec_apply(old(self)@, edit@),
    {
        match edit {
            BoardEdit::ChannelMute(ch, mute) => {
                self.channel_mute.insert(ch.index(), *mute);
            },
            BoardEdit::ChannelDcaAssign(ch, dca, assign) => {
                let d = dca.index();
                let mut set = match self.dca_assignments.get(&d) {
                    Some(s) => s.clone(),
                    None => BTreeSet::new(),
                };
                if *assign {
                    set.insert(ch.index());
                } else {
                    set.remove(&ch.index());
                }
                self.dca_assignments.insert(d, set);
            },
            BoardEdit::DcaName(dca, name) => {
                self.dca_names.insert(dca.index(), name.clone());
            },
            BoardEdit::ChannelName(..) => {},
            BoardEdit::DcaLevel(..) => {},
        }
        assert(self@.assignments =~= spec_apply(old(self)@, edit@).assignments);
        assert(self@.names =~= spec_apply(old(self)@, edit@).names);
    }

    /// Updates the cache with the changes that `edits` make to the board, in order.
    pub fn apply_board_edits(&mut self, edits: &[BoardEdit])
        ensures
            final(self)@ == apply_all(old(self)@, edits_view(edits@)),
    {
        let ghost start = self@;
        for i in 0..edits.len()
            invariant
                self@ == apply_all(start, edits_view(edits@.take(i as int))),
        {
            self.apply_board_edit(&edits[i]);
            assert(edits_view(edits@.take(i + 1)).drop_last() =~= edits_view(edits@.take(i as int)));
        }
        assert(edits@.take(edits.len() as int) =~= edits@);
    }
}


impl BoardStateCache {
    /// The assign edits and, apart, the unassign edits that bring the DCA assignments of the
    /// first `num_dcas` DCAs and `num_channels` channels to the cue.
    fn cue_diff_dca_assign(&self, cue: &Cue, num_channels: u8, num_dcas: u8) -> (r: (
        Vec<BoardEdit>,
        Vec<BoardEdit>,
    ))
        ensures
            edits_view(r.0@) == all_assigns(self@, cue@, num_channels, num_dcas as nat),
            edits_view(r.1@) == all_unassigns(self@, cue@, num_channels, num_dcas as nat),
    {
        let mut channel_assigns: Vec<BoardEdit> = Vec::new();
        let mut channel_unassigns: Vec<BoardEdit> = Vec::new();
        let dcas = cue.dcas();
        let ghost st = self@;
        let ghost cv = cue@;
        for dca_ind in 0..num_dcas
            invariant
                st == self@,
                cv == cue@,
                crate::cues::dcas_view(dcas@) == cv.dcas,
                edits_view(channel_assigns@) == all_assigns(st, cv, num_channels, dca_ind as nat),
                edits_view(channel_unassigns@) == all_unassigns(
                    st,
                    cv,
                    num_channels,
                    dca_ind as nat,
                ),
        {
            let empty: BTreeSet<u8> = BTreeSet::new();
            let new_assign: &BTreeSet<u8> = if (dca_ind as usize) < dcas.len() {
                dcas[dca_ind as usize].assigned()
            } else {
                &empty
            };
            assert(new_assign@ =~= cue_assigned(cv, dca_ind));
            let current = self.dca_assignments.get(&dca_ind);
            proof {
                if let Some(cur) = current {
                    assert(st.assignments.contains_key(dca_ind));
                    assert(st.assignments[dca_ind] == cur@);
                } else {
                    assert(!st.assignments.contains_key(dca_ind));
                }
            }
            let ghost base_a = edits_view(channel_assigns@);
            let ghost base_u = edits_view(channel_unassigns@);
            for ch_ind in 0..num_channels
                invariant
                    st == self@,
                    cv == cue@,
                    new_assign@ == cue_assigned(cv, dca_ind),
                    current matches Some(cur) ==> st.assignments.contains_key(dca_ind)
                        && st.assignments[dca_ind] == cur@,
                    current is None ==> !st.assignments.contains_key(dca_ind),
                    base_a == all_assigns(st, cv, num_channels, dca_ind as nat),
                    base_u == all_unassigns(st, cv, num_channels, dca_ind as nat),
                    edits_view(channel_assigns@) == base_a + dca_assigns(
                        st,
                        cv,
                        dca_ind,
                        ch_ind as nat,
                    ),
                    edits_view(channel_unassigns@) == base_u + dca_unassigns(
                        st,
                        cv,
                        dca_ind,
                        ch_ind as nat,
                    ),
            {
                let in_new = new_assign.contains(&ch_ind);
                let in_current: Option<bool> = match current {
                    Some(cur) => Some(cur.contains(&ch_ind)),
                    None => None,
                };
                let ghost old_a = channel_assigns@;
                let ghost old_u = channel_unassigns@;
                let assign = match in_current {
                    Some(cur) => in_new && !cur,
                    None => in_new,
                };
                let unassign = match in_current {
                    Some(cur) => !in_new && cur,
                    None => !in_new,
                };
                assert(assign == assign_wanted(st, cv, dca_ind, ch_ind));
                assert(unassign == unassign_wanted(st, cv, dca_ind, ch_ind));
                let ghost ea = SpecBoardEdit::ChannelDcaAssign(ch_ind, dca_ind, true);
                let ghost eu = SpecBoardEdit::ChannelDcaAssign(ch_ind, dca_ind, false);
                if assign {
                    let e = BoardEdit::ChannelDcaAssign(
                        Channel::from_index(ch_ind),
                        Dca::from_index(dca_ind),
                        true,
                    );
                    assert(e@ == ea);
                    channel_assigns.push(e);
                }
                if unassign {
                    let e = BoardEdit::ChannelDcaAssign(
                        Channel::from_index(ch_ind),
                        Dca::from_index(dca_ind),
                        false,
                    );
                    assert(e@ == eu);
                    channel_unassigns.push(e);
                }
                proof {
                    assert(dca_assigns(st, cv, dca_ind, (ch_ind + 1) as nat) == dca_assigns(
                        st,
                        cv,
                        dca_ind,
                        ch_ind as nat,
                    ) + if assign {
                        seq![ea]
                    } else {
                        Seq::empty()
                    });
                    assert(dca_unassigns(st, cv, dca_ind, (ch_ind + 1) as nat) == dca_unassigns(
                        st,
                        cv,
                        dca_ind,
                        ch_ind as nat,
                    ) + if unassign {
                        seq![eu]
                    } else {
                        Seq::empty()
                    });
                    assert(edits_view(channel_assigns@) =~= edits_view(old_a) + if assign {
                        seq![ea]
                    } else {
                        Seq::empty()
                    });
                    assert(edits_view(channel_unassigns@) =~= edits_view(old_u) + if unassign {
                        seq![eu]
                    } else {
                        Seq::empty()
                    });
                    assert(edits_view(channel_assigns@) =~= base_a + dca_assigns(
                        st,
                        cv,
                        dca_ind,
                        (ch_ind + 1) as nat,
                    ));
                    assert(edits_view(channel_unassigns@) =~= base_u + dca_unassigns(
                        st,
                        cv,
                        dca_ind,
                        (ch_ind + 1) as nat,
                    ));
                }
            }
            assert(all_assigns(st, cv, num_channels, (dca_ind + 1) as nat) == base_a + dca_assigns(
                st,
                cv,
                dca_ind,
                num_channels as nat,
            ));
            assert(all_unassigns(st, cv, num_channels, (dca_ind + 1) as nat) == base_u
                + dca_unassigns(st, cv, dca_ind, num_channels as nat));
        }
        (channel_assigns, channel_unassigns)
    }

    /// The mute edits that bring the first `num_channels` channels to the cue: a channel in any
    /// of the first `num_dcas` DCAs is unmuted, every other one is muted.
    fn cue_diff_channel_mutes(&self, cue: &Cue, num_channels: u8, num_dcas: u8) -> (r: Vec<
        BoardEdit,
    >)
        ensures
            edits_view(r@) == mute_edits(self@, cue@, num_dcas, num_channels as nat),
    {
        let mut channel_mutes: Vec<BoardEdit> = Vec::new();
        let dcas = cue.dcas();
        let ghost st = self@;
        let ghost cv = cue@;
        let limit: usize = if (num_dcas as usize) < dcas.len() {
            num_dcas as usize
        } else {
            dcas.len()
        };
        for ch_ind in 0..num_channels
            invariant
                st == self@,
                cv == cue@,
                crate::cues::dcas_view(dcas@) == cv.dcas,
                limit as int == if (num_dcas as int) < cv.dcas.len() {
                    num_dcas as int
                } else {
                    cv.dcas.len() as int
                },
                edits_view(channel_mutes@) == mute_edits(st, cv, num_dcas, ch_ind as nat),
        {
            // A channel in any DCA is unmuted.
            let mut is_channel_muted = true;
            let mut d: usize = 0;
            while d < limit && is_channel_muted
                invariant
                    d <= limit,
                    limit <= dcas@.len(),
                    crate::cues::dcas_view(dcas@) == cv.dcas,
                    limit as int == if (num_dcas as int) < cv.dcas.len() {
                        num_dcas as int
                    } else {
                        cv.dcas.len() as int
                    },
                    is_channel_muted == !exists|e: int|
                        0 <= e < d && #[trigger] cv.dcas[e].assigned.contains(ch_ind),
                    !is_channel_muted ==> !cue_muted(cv, ch_ind, num_dcas),
                decreases limit - d,
            {
                assert(dcas@[d as int]@ == cv.dcas[d as int]);
                if dcas[d].assigned().contains(&ch_ind) {
                    is_channel_muted = false;
                }
                d = d + 1;
            }
            assert(is_channel_muted == cue_muted(cv, ch_ind, num_dcas));
            let ghost old_m = channel_mutes@;
            match self.channel_mute.get(&ch_ind) {
                Some(mute_state) => {
                    if *mute_state != is_channel_muted {
                        channel_mutes.push(
                            BoardEdit::ChannelMute(Channel::from_index(ch_ind), is_channel_muted),
                        );
                    }
                },
                None => {
                    channel_mutes.push(
                        BoardEdit::ChannelMute(Channel::from_index(ch_ind), is_channel_muted),
                    );
                },
            }
            assert(edits_view(channel_mutes@) =~= mute_edits(st, cv, num_dcas, (ch_ind + 1) as nat))
                by {
                assert(edits_view(old_m) == mute_edits(st, cv, num_dcas, ch_ind as nat));
            }
        }
        channel_mutes
    }

    /// The edits that bring the mutes and DCA assignments of the first `num_channels` channels
    /// and `num_dcas` DCAs to the cue: all assigns, then all mutes, then all unassigns.
    pub fn cue_diff_core(&self, cue: &Cue, num_channels: u8, num_dcas: u8) -> (r: Vec<BoardEdit>)
        ensures
            edits_view(r@) == spec_cue_diff_core(self@, cue@, num_channels, num_dcas),
    {
        let (channel_assigns, mut channel_unassigns) = self.cue_diff_dca_assign(
            cue,
            num_channels,
            num_dcas,
        );
        let mut channel_mutes = self.cue_diff_channel_mutes(cue, num_channels, num_dcas);
        let ghost a = channel_assigns@;
        let ghost m = channel_mutes@;
        let ghost u = channel_unassigns@;
        let mut out = channel_assigns;
        out.append(&mut channel_mutes);
        out.append(&mut channel_unassigns);
        assert(out@ =~= a + m + u);
        assert(edits_view(a + m + u) =~= edits_view(a) + edits_view(m) + edits_view(u));
        out
    }

    /// The edits that bring the board to the cue. Levels are not tracked, so every level that
    /// the cue sets is always sent; DCA names are sent only when `channel_names` are given.
    fn cue_diff(
        &self,
        cue: &Cue,
        channel_names: Option<&ChannelNames>,
        num_channels: u8,
        num_dcas: u8,
    ) -> (r: Vec<BoardEdit>)
        requires
            channel_names matches Some(names) ==> cue_names_computable(cue@, names@, num_dcas),
        ensures
            edits_view(r@) == spec_cue_diff(
                self@,
                cue@,
                opt_names(channel_names),
                num_channels,
                num_dcas,
            ),
    {
        let mute_and_assign = self.cue_diff_core(cue, num_channels, num_dcas);
        let dcas = cue.dcas();
        let ghost st = self@;
        let ghost cv = cue@;
        // DCA levels
        let limit: usize = if (num_dcas as usize) < dcas.len() {
            num_dcas as usize
        } else {
            dcas.len()
        };
        let mut dca_levels: Vec<BoardEdit> = Vec::new();
        for dca_ind in 0..limit
            invariant
                limit <= dcas@.len(),
                limit <= num_dcas,
                cv == cue@,
                crate::cues::dcas_view(dcas@) == cv.dcas,
                edits_view(dca_levels@) == level_edits(cv, dca_ind as nat),
        {
            let ghost old_l = dca_levels@;
            assert(dcas@[dca_ind as int]@ == cv.dcas[dca_ind as int]);
            if let Some(level) = dcas[dca_ind].level() {
                dca_levels.push(BoardEdit::DcaLevel(Dca::from_index(dca_ind as u8), *level));
            }
            assert(edits_view(dca_levels@) =~= level_edits(cv, (dca_ind + 1) as nat)) by {
                assert(edits_view(old_l) == level_edits(cv, dca_ind as nat));
            }
        }
        // DCA names
        let mut dca_names: Vec<BoardEdit> = Vec::new();
        if let Some(channel_names) = channel_names {
            let ghost names = channel_names@;
            for dca_ind in 0..num_dcas
                invariant
                    st == self@,
                    cv == cue@,
                    names == channel_names@,
                    cue_names_computable(cv, names, num_dcas),
                    crate::cues::dcas_view(dcas@) == cv.dcas,
                    edits_view(dca_names@) == name_edits(st, cv, names, dca_ind as nat),
            {
                let ghost old_n = dca_names@;
                let new_name = if (dca_ind as usize) < dcas.len() {
                    assert(dcas@[dca_ind as int]@ == cv.dcas[dca_ind as int]);
                    dcas[dca_ind as usize].name(channel_names)
                } else {
                    String::new()
                };
                assert(new_name@ == cue_dca_name(cv, names, dca_ind as int));
                match self.dca_names.get(&dca_ind) {
                    Some(current_name) => {
                        if *current_name != new_name {
                            dca_names.push(BoardEdit::DcaName(Dca::from_index(dca_ind), new_name));
                        }
                    },
                    None => {
                        dca_names.push(BoardEdit::DcaName(Dca::from_index(dca_ind), new_name));
                    },
                }
                assert(edits_view(dca_names@) =~= name_edits(st, cv, names, (dca_ind + 1) as nat))
                    by {
                    assert(edits_view(old_n) == name_edits(st, cv, names, dca_ind as nat));
                }
            }
        }
        let ghost a = mute_and_assign@;
        let ghost l = dca_levels@;
        let ghost n = dca_names@;
        let mut out = mute_and_assign;
        out.append(&mut dca_levels);
        out.append(&mut dca_names);
        assert(out@ =~= a + l + n);
        assert(edits_view(a + l + n) =~= edits_view(a) + edits_view(l) + edits_view(n));
        out
    }

    /// Finds the edits that bring the board to the cue (see `cue_diff_core` for the order of
    /// mutes and assignments; then every level the cue sets; then, when `channel_names` are
    /// given, the DCA names that are unknown or wrong), records them in the cache and returns
    /// them.
    pub fn cue_diff_and_apply(
        &mut self,
        cue: &Cue,
        channel_names: Option<&ChannelNames>,
        num_channels: u8,
        num_dcas: u8,
    ) -> (r: Vec<BoardEdit>)
        requires
            channel_names matches Some(names) ==> cue_names_computable(cue@, names@, num_dcas),
        ensures
            edits_view(r@) == spec_cue_diff(
                old(self)@,
                cue@,
                opt_names(channel_names),
                num_channels,
                num_dcas,
            ),
            final(self)@ == apply_all(old(self)@, edits_view(r@)),
    {
        let edits = self.cue_diff(cue, channel_names, num_channels, num_dcas);
        self.apply_board_edits(edits.as_slice());
        edits
    }
}

} // verus!
