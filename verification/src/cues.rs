//! The data of a show: cues, the DCA states they call up, and the names of the channels.
use crate::data::{Channel, Decibels};
use crate::text::{
    append_decimal, append_decimal_succ, chars_of, decimal, is_digit, lemma_decimal_digits,
    lemma_parse_decimal, parse_usize, spec_parse_usize,
};
use std::collections::{BTreeSet, HashMap};
use vstd::prelude::*;

verus! {

/// The value of an optional string, as characters.
pub open spec fn opt_chars(o: Option<String>) -> Option<Seq<char>> {
    match o {
        Some(s) => Some(s@),
        None => None,
    }
}

/// The value of an optional level, as a bit pattern.
pub open spec fn opt_level(o: Option<Decibels>) -> Option<u32> {
    match o {
        Some(l) => Some(l@),
        None => None,
    }
}

/// The mathematical value of a `DcaState`.
pub struct SpecDcaState {
    /// The indices of the channels assigned to the DCA.
    pub assigned: Set<u8>,
    /// The name given by hand, if any.
    pub name: Option<Seq<char>>,
    /// The level, if the cue sets one.
    pub level: Option<u32>,
}

/// The state of a DCA, which a cue calls up.
pub struct DcaState {
    assigned: BTreeSet<u8>,
    name: Option<String>,
    level: Option<Decibels>,
}

impl View for DcaState {
    type V = SpecDcaState;

    closed spec fn view(&self) -> SpecDcaState {
        SpecDcaState {
            assigned: self.assigned@,
            name: opt_chars(self.name),
            level: opt_level(self.level),
        }
    }
}

/// The label of a channel in a DCA's name: its name when it has a non-empty one, else
/// "Ch " and its number.
pub open spec fn channel_label(c: u8, names: Map<u8, Seq<char>>) -> Seq<char> {
    if names.contains_key(c) && names[c].len() > 0 {
        names[c]
    } else {
        seq!['C', 'h', ' '] + decimal((c + 1) as nat)
    }
}

/// The title of a channel in a list of channels: its name when it has a non-empty one, else
/// "Channel " and its number.
pub open spec fn channel_title(c: u8, names: Map<u8, Seq<char>>) -> Seq<char> {
    if names.contains_key(c) && names[c].len() > 0 {
        names[c]
    } else {
        seq!['C', 'h', 'a', 'n', 'n', 'e', 'l', ' '] + decimal((c + 1) as nat)
    }
}

/// The assignment after setting channels `0..flags.len()` to the ticks in `flags`, the other
/// channels kept as in `a`.
pub open spec fn checked_assignment(a: Set<u8>, flags: Seq<bool>) -> Set<u8> {
    Set::new(|c: u8| if (c as int) < flags.len() { flags[c as int] } else { a.contains(c) })
}

/// The labels of the assigned channels with index below `k`, in increasing order of index,
/// separated by ", ".
pub open spec fn joined_labels(assigned: Set<u8>, names: Map<u8, Seq<char>>, k: nat) -> Seq<char>
    decreases k,
{
    if k == 0 {
        Seq::empty()
    } else {
        let prev = joined_labels(assigned, names, (k - 1) as nat);
        let c = (k - 1) as u8;
        if assigned.contains(c) {
            if prev.len() == 0 {
                channel_label(c, names)
            } else {
                prev + seq![',', ' '] + channel_label(c, names)
            }
        } else {
            prev
        }
    }
}

/// The name shown for a DCA: the name given by hand, or else the labels of its channels.
pub open spec fn dca_display_name(d: SpecDcaState, names: Map<u8, Seq<char>>) -> Seq<char> {
    match d.name {
        Some(n) => n,
        None => joined_labels(d.assigned, names, 256),
    }
}

/// Whether the shown name of `d` can be computed: the last channel has no number that fits in
/// a byte, so it must have a name of its own when its label is needed.
pub open spec fn dca_name_computable(d: SpecDcaState, names: Map<u8, Seq<char>>) -> bool {
    d.name is None && d.assigned.contains(255u8) ==> names.contains_key(255u8) && names[255u8].len()
        > 0
}

impl Default for DcaState {
    fn default() -> (r: DcaState)
        ensures
            r@.assigned == Set::<u8>::empty(),
            r@.name is None,
            r@.level is None,
    {
        DcaState { assigned: BTreeSet::new(), name: None, level: None }
    }
}

impl Clone for DcaState {
    fn clone(&self) -> (r: DcaState)
        ensures
            r@ == self@,
    {
        let name = match &self.name {
            Some(n) => Some(n.clone()),
            None => None,
        };
        DcaState { assigned: self.assigned.clone(), name, level: self.level }
    }
}

impl DcaState {
    /// A DCA state made of its parts.
    pub fn from_parts(assigned: BTreeSet<u8>, name: Option<String>, level: Option<Decibels>) -> (r:
        DcaState)
        ensures
            r@.assigned == assigned@,
            r@.name == opt_chars(name),
            r@.level == opt_level(level),
    {
        DcaState { assigned, name, level }
    }

    /// The name shown for the DCA: the name given by hand, or else the names of the assigned
    /// channels in increasing order, separated by ", ", with "Ch n" for a channel whose name is
    /// unset or empty.
    pub fn name(&self, ch_names: &ChannelNames) -> (r: String)
        requires
            dca_name_computable(self@, ch_names@),
        ensures
            r@ == dca_display_name(self@, ch_names@),
    {
        if let Some(n) = &self.name {
            return n.clone();
        }
        let mut out = String::new();
        let mut k: u16 = 0;
        while k < 256
            invariant
                k <= 256,
                self@.name is None,
                dca_name_computable(self@, ch_names@),
                out@ == joined_labels(self@.assigned, ch_names@, k as nat),
            decreases 256 - k,
        {
            let c = k as u8;
            if self.assigned.contains(&c) {
                let label = ch_names.label(c);
                if out.as_str().is_empty() {
                    out = label;
                } else {
                    proof {
                        reveal_strlit(", ");
                    }
                    out.append(", ");
                    out.append(label.as_str());
                }
            }
            k = k + 1;
        }
        out
    }

    /// The title of the DCA with index `dca_ind`: its shown name, or its number when that name
    /// is empty.
    pub fn heading_name(&self, ch_names: &ChannelNames, dca_ind: usize) -> (r: String)
        requires
            dca_name_computable(self@, ch_names@),
            dca_ind < usize::MAX,
        ensures
            r@ == (if dca_display_name(self@, ch_names@).len() > 0 {
                dca_display_name(self@, ch_names@)
            } else {
                decimal((dca_ind + 1) as nat)
            }),
    {
        let name = self.name(ch_names);
        if !name.as_str().is_empty() {
            name
        } else {
            let mut out = String::new();
            append_decimal(&mut out, dca_ind + 1);
            proof {
                assert(out@ =~= decimal((dca_ind + 1) as nat));
            }
            out
        }
    }

    /// Sets the name given by hand from the text typed for it: empty text clears it.
    pub fn set_name_text(&mut self, text: String)
        ensures
            final(self)@ == (SpecDcaState {
                name: if text@.len() == 0 {
                    None
                } else {
                    Some(text@)
                },
                ..old(self)@
            }),
    {
        if text.as_str().is_empty() {
            self.name = None;
        } else {
            self.name = Some(text);
        }
    }

    /// Assigns the channels `0..flags.len()` as ticked in `flags`, leaving the other channels
    /// as they are.
    pub fn apply_checkboxes(&mut self, flags: &[bool])
        requires
            flags@.len() <= 256,
        ensures
            final(self)@ == (SpecDcaState {
                assigned: checked_assignment(old(self)@.assigned, flags@),
                ..old(self)@
            }),
    {
        let ghost start = self@;
        for i in 0..flags.len()
            invariant
                flags@.len() <= 256,
                self@.name == start.name,
                self@.level == start.level,
                self@.assigned =~= Set::new(
                    |c: u8| if (c as int) < i { flags@[c as int] } else { start.assigned.contains(c) },
                ),
        {
            let c = i as u8;
            if flags[i] {
                self.assigned.insert(c);
            } else {
                self.assigned.remove(&c);
            }
        }
        assert(self@.assigned =~= checked_assignment(start.assigned, flags@));
    }

    /// The name given to the DCA by hand, if any.
    pub fn assigned_name(&self) -> (r: &Option<String>)
        ensures
            opt_chars(*r) == self@.name,
    {
        &self.name
    }

    /// Mutable access to the name given by hand.
    pub fn edit_name(&mut self) -> (r: &mut Option<String>)
        ensures
            opt_chars(*r) == old(self)@.name,
            final(self)@ == (SpecDcaState { name: opt_chars(*final(r)), ..old(self)@ }),
    {
        &mut self.name
    }

    /// The level the cue sets, if any.
    pub fn level(&self) -> (r: &Option<Decibels>)
        ensures
            opt_level(*r) == self@.level,
    {
        &self.level
    }

    /// The indices of the channels assigned to the DCA.
    pub fn assigned(&self) -> (r: &BTreeSet<u8>)
        ensures
            r@ == self@.assigned,
    {
        &self.assigned
    }

    /// Replaces the assignment with the channels whose indices are in `assignment`.
    pub fn set_assigned(&mut self, assignment: BTreeSet<u8>)
        ensures
            final(self)@ == (SpecDcaState { assigned: assignment@, ..old(self)@ }),
    {
        self.assigned = assignment;
    }

    /// Assigns the given channel to this DCA.
    pub fn assign(&mut self, ch: Channel)
        ensures
            final(self)@ == (SpecDcaState { assigned: old(self)@.assigned.insert(ch@), ..old(self)@ }),
    {
        self.assigned.insert(ch.index());
    }

    /// Unassigns the given channel from this DCA.
    pub fn unassign(&mut self, ch: Channel)
        ensures
            final(self)@ == (SpecDcaState { assigned: old(self)@.assigned.remove(ch@), ..old(self)@ }),
    {
        self.assigned.remove(&ch.index());
    }
}

/// The names of the channels.
pub struct ChannelNames {
    // Keys are the indices of the channels.
    names: HashMap<u8, String>,
}

impl View for ChannelNames {
    type V = Map<u8, Seq<char>>;

    /// The name of each channel whose name is set, by index.
    closed spec fn view(&self) -> Map<u8, Seq<char>> {
        self.names@.map_values(|s: String| s@)
    }
}

impl Default for ChannelNames {
    fn default() -> (r: ChannelNames)
        ensures
            r@ == Map::<u8, Seq<char>>::empty(),
    {
        let r = ChannelNames { names: HashMap::new() };
        assert(r@ =~= Map::<u8, Seq<char>>::empty());
        r
    }
}

/// Setting a name and then taking the names as characters is taking them as characters and then
/// setting the name.
proof fn lemma_names_view_insert(m: Map<u8, String>, k: u8, v: String)
    ensures
        m.insert(k, v).map_values(|s: String| s@) == m.map_values(|s: String| s@).insert(k, v@),
{
    assert(m.insert(k, v).map_values(|s: String| s@) =~= m.map_values(|s: String| s@).insert(
        k,
        v@,
    ));
}

impl Clone for ChannelNames {
    fn clone(&self) -> (r: ChannelNames)
        ensures
            r@ == self@,
    {
        ChannelNames { names: self.names.clone() }
    }
}

impl ChannelNames {
    /// Sets the name of the given channel.
    pub fn set_name(&mut self, ch: &Channel, name: String)
        ensures
            final(self)@ == old(self)@.insert(ch@, name@),
    {
        self.names.insert(ch.index(), name);
        assert(self@ =~= old(self)@.insert(ch@, name@));
    }

    /// Mutable access to the given channel's name, which is first set to the empty name where
    /// it is not set.
    pub fn edit_name(&mut self, ch: &Channel) -> (r: &mut String)
        ensures
            r@ == (if old(self)@.contains_key(ch@) {
                old(self)@[ch@]
            } else {
                Seq::<char>::empty()
            }),
            final(self)@ == old(self)@.insert(ch@, final(r)@),
    {
        proof {
            broadcast use vstd::std_specs::hash::group_hash_axioms;
        }
        let ghost before = self.names@;
        let r = self.names.entry(ch.index()).or_insert(String::new());
        proof {
            lemma_names_view_insert(before, ch@, *final(r));
        }
        r
    }

    /// The name of the channel, if set.
    pub fn get_name(&self, ch: &Channel) -> (r: Option<String>)
        ensures
            r is Some <==> self@.contains_key(ch@),
            r matches Some(n) ==> n@ == self@[ch@],
    {
        match self.names.get(&ch.index()) {
            Some(n) => Some(n.clone()),
            None => None,
        }
    }

    /// The title of the channel in a list of channels.
    pub fn channel_title(&self, ch: &Channel) -> (r: String)
        requires
            ch@ < 255 || (self@.contains_key(ch@) && self@[ch@].len() > 0),
        ensures
            r@ == channel_title(ch@, self@),
    {
        if let Some(n) = self.get_name(ch) {
            if !n.as_str().is_empty() {
                return n;
            }
        }
        proof {
            reveal_strlit("Channel ");
        }
        let mut out = String::from_str("Channel ");
        append_decimal(&mut out, (ch.index() as usize) + 1);
        out
    }

    /// The label of the channel with index `c` in a DCA's name.
    fn label(&self, c: u8) -> (r: String)
        requires
            c < 255 || (self@.contains_key(c) && self@[c].len() > 0),
        ensures
            r@ == channel_label(c, self@),
    {
        if let Some(n) = self.get_name(&Channel::from_index(c)) {
            if !n.as_str().is_empty() {
                return n;
            }
        }
        proof {
            reveal_strlit("Ch ");
        }
        let mut out = String::from_str("Ch ");
        append_decimal(&mut out, (c as usize) + 1);
        out
    }

    /// Each channel whose name is set, with its name, once each, in the order in which the map
    /// of names is walked.
    pub fn iterator(&self) -> (r: Vec<(u8, String)>)
        ensures
            r@.len() == self@.dom().len(),
            forall|i: int|
                0 <= i < r@.len() ==> #[trigger] self@.contains_key(r@[i].0) && self@[r@[i].0]
                    == r@[i].1@,
            forall|k: u8| #[trigger]
                self@.contains_key(k) ==> exists|i: int| 0 <= i < r@.len() && r@[i].0 == k,
            forall|i: int, j: int| 0 <= i < j < r@.len() ==> r@[i].0 != r@[j].0,
    {
        let mut out: Vec<(u8, String)> = Vec::new();
        let ghost names = self.names@;
        for entry in it: self.names.iter()
            invariant
                names == self.names@,
                out@.len() == it.index(),
                it.seq().len() == names.dom().len(),
                it.seq().no_duplicates(),
                forall|i: int|
                    #![trigger it.seq()[i]]
                    0 <= i < it.seq().len() ==> names.contains_key(*it.seq()[i].0)
                        && names[*it.seq()[i].0] == *it.seq()[i].1,
                forall|k: u8| #[trigger]
                    names.contains_key(k) ==> it.seq().contains((&k, &names[k])),
                forall|i: int|
                    0 <= i < out@.len() ==> out@[i].0 == *it.seq()[i].0 && out@[i].1@ == (
                    *it.seq()[i].1)@,
                forall|i: int|
                    0 <= i < out@.len() ==> #[trigger] names.contains_key(out@[i].0)
                        && names[out@[i].0]@ == out@[i].1@,
                forall|i: int, j: int| 0 <= i < j < out@.len() ==> out@[i].0 != out@[j].0,
                forall|k: u8| #[trigger]
                    names.contains_key(k) ==> (exists|i: int| 0 <= i < out@.len() && out@[i].0 == k)
                        || (exists|j: int| it.index() <= j < it.seq().len() && *it.seq()[j].0 == k),
        {
            let ghost s = it.seq();
            let ghost idx = it.index();
            let (k, v) = entry;
            assert(*k == *s[idx as int].0);
            let ghost old_out = out@;
            out.push((*k, v.clone()));
            proof {
                assert(names.contains_key(*s[idx].0));
                assert forall|i: int, j: int| 0 <= i < j < out@.len() implies out@[i].0 != out@[j].0 by {
                    if j == idx && out@[i].0 == out@[j].0 {
                        assert(names.contains_key(*s[i].0));
                        assert(s[i] == s[j]);
                    }
                }
                assert forall|kk: u8| #[trigger]
                    names.contains_key(kk) implies (exists|i: int| 0 <= i < out@.len() && out@[i].0 == kk)
                        || (exists|j: int| idx + 1 <= j < s.len() && *s[j].0 == kk) by {
                    if exists|i: int| 0 <= i < old_out.len() && old_out[i].0 == kk {
                        let i = choose|i: int| 0 <= i < old_out.len() && old_out[i].0 == kk;
                        assert(out@[i] == old_out[i]);
                    } else {
                        let j = choose|j: int| idx <= j < s.len() && *s[j].0 == kk;
                        if j == idx {
                            assert(out@[idx as int].0 == kk);
                        }
                    }
                }
            }
        }
        assert forall|k: u8| #[trigger] self@.contains_key(k) implies exists|i: int|
            0 <= i < out@.len() && out@[i].0 == k by {
            assert(names.contains_key(k));
        }
        assert(self@.dom() =~= names.dom());
        assert(out@.len() == names.dom().len());
        out
    }
}

/// The mathematical value of a `Cue`.
pub struct SpecCue {
    pub name: Seq<char>,
    pub dcas: Seq<SpecDcaState>,
}

/// One cue (scene): a description and the state of each DCA.
pub struct Cue {
    name: String,
    dcas: Vec<DcaState>,
}

/// The values of a sequence of DCA states.
pub open spec fn dcas_view(dcas: Seq<DcaState>) -> Seq<SpecDcaState> {
    dcas.map_values(|d: DcaState| d@)
}

impl View for Cue {
    type V = SpecCue;

    closed spec fn view(&self) -> SpecCue {
        SpecCue { name: self.name@, dcas: dcas_view(self.dcas@) }
    }
}

/// A copy of each DCA state of `dcas`.
fn clone_dcas(dcas: &Vec<DcaState>) -> (r: Vec<DcaState>)
    ensures
        dcas_view(r@) == dcas_view(dcas@),
{
    let mut out: Vec<DcaState> = Vec::new();
    for i in 0..dcas.len()
        invariant
            out@.len() == i,
            forall|j: int| 0 <= j < i ==> (#[trigger] out@[j])@ == dcas@[j]@,
    {
        out.push(dcas[i].clone());
    }
    assert(dcas_view(out@) =~= dcas_view(dcas@));
    out
}

impl Clone for Cue {
    fn clone(&self) -> (r: Cue)
        ensures
            r@ == self@,
    {
        Cue { name: self.name.clone(), dcas: clone_dcas(&self.dcas) }
    }
}

impl Default for Cue {
    /// A cue with an empty description and eight DCAs with nothing assigned.
    fn default() -> (r: Cue)
        ensures
            r@.name == Seq::<char>::empty(),
            r@.dcas.len() == 8,
            forall|i: int|
                0 <= i < 8 ==> (#[trigger] r@.dcas[i]).assigned == Set::<u8>::empty()
                    && r@.dcas[i].name is None && r@.dcas[i].level is None,
    {
        let mut dcas: Vec<DcaState> = Vec::new();
        for i in 0..8usize
            invariant
                dcas@.len() == i,
                forall|j: int|
                    0 <= j < i ==> (#[trigger] dcas@[j])@.assigned == Set::<u8>::empty()
                        && dcas@[j]@.name is None && dcas@[j]@.level is None,
        {
            dcas.push(DcaState::default());
        }
        Cue { name: String::new(), dcas }
    }
}

impl Cue {
    /// A cue made of its parts.
    pub fn from_parts(name: String, dcas: Vec<DcaState>) -> (r: Cue)
        ensures
            r@ == (SpecCue { name: name@, dcas: dcas_view(dcas@) }),
    {
        Cue { name, dcas }
    }

    /// The description of the cue.
    pub fn name(&self) -> (r: &str)
        ensures
            r@ == self@.name,
    {
        self.name.as_str()
    }

    /// Mutable access to the description of the cue.
    pub fn edit_name(&mut self) -> (r: &mut String)
        ensures
            r@ == old(self)@.name,
            final(self)@ == (SpecCue { name: final(r)@, ..old(self)@ }),
    {
        &mut self.name
    }

    /// The DCA states of the cue.
    pub fn dcas(&self) -> (r: &Vec<DcaState>)
        ensures
            dcas_view(r@) == self@.dcas,
    {
        &self.dcas
    }

    /// Mutable access to the DCA states of the cue.
    pub fn dcas_mut(&mut self) -> (r: &mut Vec<DcaState>)
        ensures
            dcas_view(r@) == old(self)@.dcas,
            final(self)@ == (SpecCue { dcas: dcas_view(final(r)@), ..old(self)@ }),
    {
        &mut self.dcas
    }
}


/// The value of a cue number: the cue, and optionally a sub-cue and a sub-sub-cue.
pub type CueNumberValue = (usize, Option<(usize, Option<usize>)>);

/// A cue's number. Cues nest up to three levels deep; the second and third level are optional,
/// and the third only comes with the second. Each level is shown as one plus the value held:
/// (0, None) is cue 1 and (0, Some((0, None))) is cue 1.1.
#[derive(Clone, Copy, Debug, PartialEq, Eq, PartialOrd, Ord, Hash)]
pub struct CueNumber(usize, Option<(usize, Option<usize>)>);

impl View for CueNumber {
    type V = CueNumberValue;

    closed spec fn view(&self) -> CueNumberValue {
        (self.0, self.1)
    }
}

/// Whether `a` comes before `b`: by cue, then a missing sub-cue before any sub-cue, then by
/// sub-cue, then likewise for the sub-sub-cue.
pub open spec fn cue_number_lt(a: CueNumberValue, b: CueNumberValue) -> bool {
    a.0 < b.0 || (a.0 == b.0 && match (a.1, b.1) {
        (None, Some(_)) => true,
        (Some(x), Some(y)) => x.0 < y.0 || (x.0 == y.0 && match (x.1, y.1) {
            (None, Some(_)) => true,
            (Some(p), Some(q)) => p < q,
            _ => false,
        }),
        _ => false,
    })
}

/// `cue_number_lt` is a strict total order.
pub proof fn lemma_cue_number_order(a: CueNumberValue, b: CueNumberValue, c: CueNumberValue)
    ensures
        !cue_number_lt(a, a),
        cue_number_lt(a, b) ==> !cue_number_lt(b, a),
        cue_number_lt(a, b) && cue_number_lt(b, c) ==> cue_number_lt(a, c),
        a != b ==> cue_number_lt(a, b) || cue_number_lt(b, a),
{
}

/// Whether `c` separates the numbers of a cue number in text.
pub open spec fn is_separator(c: char) -> bool {
    c == '.' || c == '-' || c == ' '
}

/// The pieces of `s` between separators: the finished ones, and the one being read.
pub open spec fn split_pieces(s: Seq<char>) -> (Seq<Seq<char>>, Seq<char>)
    decreases s.len(),
{
    if s.len() == 0 {
        (Seq::empty(), Seq::empty())
    } else {
        let (done, cur) = split_pieces(s.drop_last());
        if is_separator(s.last()) {
            (done.push(cur), Seq::empty())
        } else {
            (done, cur.push(s.last()))
        }
    }
}

/// The pieces of `s` between separators, as `str::split` gives them.
pub open spec fn pieces(s: Seq<char>) -> Seq<Seq<char>> {
    split_pieces(s).0.push(split_pieces(s).1)
}

/// The value of a piece of text as a shown level: the number it reads as, less one (0, which
/// no level is shown as, stands for the first value, as 1 does); `None` where it is no number.
pub open spec fn piece_level(p: Seq<char>) -> Option<usize> {
    match spec_parse_usize(p) {
        Some(n) => if n >= 1 {
            Some((n - 1) as usize)
        } else {
            Some(0usize)
        },
        None => None,
    }
}

/// The level values read from those pieces that are shown levels, in order.
pub open spec fn piece_numbers(ps: Seq<Seq<char>>) -> Seq<usize>
    decreases ps.len(),
{
    if ps.len() == 0 {
        Seq::empty()
    } else {
        let prev = piece_numbers(ps.drop_last());
        match piece_level(ps.last()) {
            Some(n) => prev.push(n),
            None => prev,
        }
    }
}

/// The cue number read from text: the first three numbers found between separators, each less
/// one (a 0 counting as a 1), make the cue, sub-cue and sub-sub-cue; with no number there is
/// none.
pub open spec fn spec_parse_cue_number(s: Seq<char>) -> Option<CueNumberValue> {
    let nums = piece_numbers(pieces(s));
    if nums.len() == 0 {
        None
    } else if nums.len() == 1 {
        Some((nums[0], None))
    } else {
        Some(
            (
                nums[0],
                Some(
                    (
                        nums[1],
                        if nums.len() >= 3 {
                            Some(nums[2])
                        } else {
                            None
                        },
                    ),
                ),
            ),
        )
    }
}

/// The text of a cue number: each level shown as one plus its value, joined by dots.
pub open spec fn cue_number_text(n: CueNumberValue) -> Seq<char> {
    match n.1 {
        None => decimal((n.0 + 1) as nat),
        Some((b, None)) => decimal((n.0 + 1) as nat) + seq!['.'] + decimal((b + 1) as nat),
        Some((b, Some(c))) => decimal((n.0 + 1) as nat) + seq!['.'] + decimal((b + 1) as nat)
            + seq!['.'] + decimal((c + 1) as nat),
    }
}

impl Default for CueNumber {
    /// The value 0 at the first level only, shown as cue 1.
    fn default() -> (r: CueNumber)
        ensures
            r@ == (0usize, None::<(usize, Option<usize>)>),
    {
        CueNumber(0, None)
    }
}

impl CueNumber {
    /// The cue number made of the given parts.
    pub fn from_parts(major: usize, minor: Option<(usize, Option<usize>)>) -> (r: CueNumber)
        ensures
            r@ == (major, minor),
    {
        CueNumber(major, minor)
    }

    /// The parts of the cue number.
    pub fn parts(&self) -> (r: (usize, Option<(usize, Option<usize>)>))
        ensures
            r == self@,
    {
        (self.0, self.1)
    }

    /// Whether this number comes before `other`.
    pub fn precedes(&self, other: &CueNumber) -> (r: bool)
        ensures
            r == cue_number_lt(self@, other@),
    {
        if self.0 != other.0 {
            return self.0 < other.0;
        }
        match (self.1, other.1) {
            (None, Some(_)) => true,
            (Some(x), Some(y)) => {
                if x.0 != y.0 {
                    x.0 < y.0
                } else {
                    match (x.1, y.1) {
                        (None, Some(_)) => true,
                        (Some(p), Some(q)) => p < q,
                        _ => false,
                    }
                }
            },
            _ => false,
        }
    }

    /// Reads a cue number typed by the user: the pieces of the text between '.', '-' and ' '
    /// that are numbers give the cue, sub-cue and sub-sub-cue, in order; with none it fails.
    /// Each level is typed as it is shown, one above the value held, so each number read is
    /// lowered by one; a typed 0 gives the value 0, as a typed 1 does.
    pub fn parse(input: &str) -> (r: Result<CueNumber, ()>)
        ensures
            match r {
                Ok(n) => spec_parse_cue_number(input@) == Some(n@),
                Err(_) => spec_parse_cue_number(input@) is None,
            },
    {
        let chars = chars_of(input);
        let mut nums: Vec<usize> = Vec::new();
        let mut cur: Vec<char> = Vec::new();
        let ghost mut done: Seq<Seq<char>> = Seq::empty();
        for i in 0..chars.len()
            invariant
                chars@ == input@,
                split_pieces(chars@.take(i as int)) == (done, cur@),
                nums@ == piece_numbers(done),
        {
            let c = chars[i];
            assert(chars@.take(i + 1).drop_last() =~= chars@.take(i as int));
            if c == '.' || c == '-' || c == ' ' {
                let n = parse_usize(cur.as_slice());
                proof {
                    assert(done.push(cur@).drop_last() =~= done);
                    done = done.push(cur@);
                }
                if let Some(n) = n {
                    if n >= 1 {
                        nums.push(n - 1);
                    } else {
                        nums.push(0);
                    }
                }
                cur = Vec::new();
            } else {
                cur.push(c);
            }
        }
        assert(chars@.take(chars.len() as int) =~= chars@);
        let n = parse_usize(cur.as_slice());
        assert(done.push(cur@).drop_last() =~= done);
        if let Some(n) = n {
            if n >= 1 {
                nums.push(n - 1);
            } else {
                nums.push(0);
            }
        }
        let ghost all = nums@;
        assert(all == piece_numbers(pieces(input@)));
        if nums.len() == 0 {
            Err(())
        } else if nums.len() == 1 {
            Ok(CueNumber(nums[0], None))
        } else {
            let third = if nums.len() >= 3 {
                Some(nums[2])
            } else {
                None
            };
            Ok(CueNumber(nums[0], Some((nums[1], third))))
        }
    }

    /// Moves to the number after this one by adding one to its lowest level that is set.
    pub fn increment_lowest(&mut self)
        requires
            match old(self)@.1 {
                None => old(self)@.0 < usize::MAX,
                Some((b, None)) => b < usize::MAX,
                Some((_, Some(c))) => c < usize::MAX,
            },
        ensures
            final(self)@ == match old(self)@.1 {
                None => ((old(self)@.0 + 1) as usize, None),
                Some((b, None)) => (old(self)@.0, Some(((b + 1) as usize, None))),
                Some((b, Some(c))) => (old(self)@.0, Some((b, Some((c + 1) as usize)))),
            },
    {
        match self.1 {
            None => {
                self.0 = self.0 + 1;
            },
            Some((b, None)) => {
                self.1 = Some((b + 1, None));
            },
            Some((b, Some(c))) => {
                self.1 = Some((b, Some(c + 1)));
            },
        }
    }

    /// The number as text, its numbers joined by dots (such as "1.2").
    pub fn to_string(&self) -> (r: String)
        ensures
            r@ == cue_number_text(self@),
    {
        let mut out = String::new();
        append_decimal_succ(&mut out, self.0);
        proof {
            reveal_strlit(".");
        }
        match self.1 {
            None => {},
            Some((b, None)) => {
                out.append(".");
                append_decimal_succ(&mut out, b);
            },
            Some((b, Some(c))) => {
                out.append(".");
                append_decimal_succ(&mut out, b);
                out.append(".");
                append_decimal_succ(&mut out, c);
            },
        }
        out
    }
}

/// Reading on through text with no separator only lengthens the piece being read.
proof fn lemma_split_pieces_no_separator(x: Seq<char>, y: Seq<char>)
    requires
        forall|i: int| 0 <= i < y.len() ==> !is_separator(#[trigger] y[i]),
    ensures
        split_pieces(x + y) == (split_pieces(x).0, split_pieces(x).1 + y),
    decreases y.len(),
{
    if y.len() == 0 {
        assert(x + y =~= x);
        assert(split_pieces(x).1 + y =~= split_pieces(x).1);
    } else {
        lemma_split_pieces_no_separator(x, y.drop_last());
        assert((x + y).drop_last() =~= x + y.drop_last());
        assert(split_pieces(x).1 + y.drop_last() + seq![y.last()] =~= split_pieces(x).1 + y);
    }
}

/// A separator finishes the piece being read.
proof fn lemma_split_pieces_separator(x: Seq<char>, c: char)
    requires
        is_separator(c),
    ensures
        split_pieces(x.push(c)) == (split_pieces(x).0.push(split_pieces(x).1), Seq::<char>::empty()),
{
    assert(x.push(c).drop_last() =~= x);
}

/// A decimal number holds no separator.
proof fn lemma_decimal_no_separator(n: nat)
    ensures
        forall|i: int| 0 <= i < decimal(n).len() ==> !is_separator(#[trigger] decimal(n)[i]),
{
    lemma_decimal_digits(n);
    assert forall|i: int| 0 <= i < decimal(n).len() implies !is_separator(#[trigger] decimal(n)[i]) by {
        assert(is_digit(decimal(n)[i]));
    }
}

proof fn lemma_piece_numbers_push(ps: Seq<Seq<char>>, p: Seq<char>)
    ensures
        piece_numbers(ps.push(p)) == match piece_level(p) {
            Some(n) => piece_numbers(ps).push(n),
            None => piece_numbers(ps),
        },
{
    assert(ps.push(p).drop_last() =~= ps);
}

/// Reading back the text of a cue number gives the cue number, when no level is the largest
/// `usize` (whose shown value does not fit in a `usize`).
pub proof fn lemma_parse_cue_number_text(n: CueNumberValue)
    requires
        n.0 < usize::MAX,
        n.1 matches Some((b, c)) ==> b < usize::MAX && (c matches Some(cc) ==> cc < usize::MAX),
    ensures
        spec_parse_cue_number(cue_number_text(n)) == Some(n),
{
    let e: Seq<char> = Seq::empty();
    let da = decimal((n.0 + 1) as nat);
    lemma_decimal_no_separator((n.0 + 1) as nat);
    lemma_parse_decimal((n.0 + 1) as usize);
    lemma_split_pieces_no_separator(e, da);
    assert(e + da =~= da);
    assert(split_pieces(e) == (Seq::<Seq<char>>::empty(), e));
    match n.1 {
        None => {
            let ps = pieces(da);
            assert(ps =~= seq![da]);
            let e2: Seq<Seq<char>> = Seq::empty();
            assert(ps =~= e2.push(da));
            lemma_piece_numbers_push(e2, da);
            assert(piece_numbers(e2) =~= Seq::<usize>::empty());
            assert(piece_numbers(ps) =~= seq![n.0]);
        },
        Some((b, None)) => {
            let db = decimal((b + 1) as nat);
            lemma_decimal_no_separator((b + 1) as nat);
            lemma_parse_decimal((b + 1) as usize);
            lemma_split_pieces_separator(da, '.');
            lemma_split_pieces_no_separator(da.push('.'), db);
            assert(da + seq!['.'] =~= da.push('.'));
            let t = cue_number_text(n);
            assert(t =~= da.push('.') + db);
            let ps = pieces(t);
            assert(ps =~= seq![da, db]);
            let e2: Seq<Seq<char>> = Seq::empty();
            assert(ps =~= e2.push(da).push(db));
            lemma_piece_numbers_push(e2, da);
            lemma_piece_numbers_push(e2.push(da), db);
            assert(piece_numbers(e2) =~= Seq::<usize>::empty());
            assert(piece_numbers(ps) =~= seq![n.0, b]);
        },
        Some((b, Some(c))) => {
            let db = decimal((b + 1) as nat);
            let dc = decimal((c + 1) as nat);
            lemma_decimal_no_separator((b + 1) as nat);
            lemma_decimal_no_separator((c + 1) as nat);
            lemma_parse_decimal((b + 1) as usize);
            lemma_parse_decimal((c + 1) as usize);
            lemma_split_pieces_separator(da, '.');
            lemma_split_pieces_no_separator(da.push('.'), db);
            let x = da.push('.') + db;
            lemma_split_pieces_separator(x, '.');
            lemma_split_pieces_no_separator(x.push('.'), dc);
            let t = cue_number_text(n);
            assert(t =~= x.push('.') + dc);
            let ps = pieces(t);
            assert(ps =~= seq![da, db, dc]);
            let e2: Seq<Seq<char>> = Seq::empty();
            assert(ps =~= e2.push(da).push(db).push(dc));
            lemma_piece_numbers_push(e2, da);
            lemma_piece_numbers_push(e2.push(da), db);
            lemma_piece_numbers_push(e2.push(da).push(db), dc);
            assert(piece_numbers(e2) =~= Seq::<usize>::empty());
            assert(piece_numbers(ps) =~= seq![n.0, b, c]);
        },
    }
}

} // verus!
