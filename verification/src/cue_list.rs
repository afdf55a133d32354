//! The cue list of a show: cues kept in order of their numbers, each number at most once, with
//! the names of the channels.
use crate::cues::{cue_number_lt, lemma_cue_number_order, ChannelNames, Cue, CueNumber,
    CueNumberValue, SpecCue};
use vstd::prelude::*;

verus! {

/// A cue with its number, as values.
pub type CueEntry = (CueNumberValue, SpecCue);

/// The values of a sequence of numbered cues.
pub open spec fn entries_view(v: Seq<(CueNumber, Cue)>) -> Seq<CueEntry> {
    v.map_values(|e: (CueNumber, Cue)| (e.0@, e.1@))
}

/// Whether the numbers of the cues strictly increase along `s` (so none occurs twice).
pub open spec fn numbers_sorted(s: Seq<CueEntry>) -> bool {
    forall|i: int, j: int| 0 <= i < j < s.len() ==> cue_number_lt(#[trigger] s[i].0, #[trigger] s[j].0)
}

/// Whether some cue of `s` has the number `n`.
pub open spec fn has_number(s: Seq<CueEntry>, n: CueNumberValue) -> bool {
    exists|i: int| 0 <= i < s.len() && #[trigger] s[i].0 == n
}

/// Whether `pos` splits `s` into the cues numbered before `n` and the others.
pub open spec fn splits_at(s: Seq<CueEntry>, n: CueNumberValue, pos: int) -> bool {
    &&& 0 <= pos <= s.len()
    &&& forall|j: int| 0 <= j < pos ==> cue_number_lt(#[trigger] s[j].0, n)
    &&& forall|j: int| pos <= j < s.len() ==> !cue_number_lt(#[trigger] s[j].0, n)
}

/// Where the number `n` stands, or would stand, in the ordered cues `s`.
pub open spec fn number_position(s: Seq<CueEntry>, n: CueNumberValue) -> int {
    choose|pos: int| splits_at(s, n, pos)
}

/// The value of a `CuesData`: its cues in order, and the channel names.
pub struct SpecCuesData {
    pub cues: Seq<CueEntry>,
    pub ch_names: Map<u8, Seq<char>>,
}

/// The cue list after adding the cue `c` under the number `n`: unchanged where `n` is taken,
/// else with `(n, c)` in its place in order.
pub open spec fn spec_add_cue(d: SpecCuesData, n: CueNumberValue, c: SpecCue) -> SpecCuesData {
    if has_number(d.cues, n) {
        d
    } else {
        SpecCuesData { cues: d.cues.insert(number_position(d.cues, n), (n, c)), ..d }
    }
}

/// The cue list after removing the cue numbered `n`, and that cue; unchanged, with nothing,
/// where no cue has that number.
pub open spec fn spec_remove_cue(d: SpecCuesData, n: CueNumberValue) -> (SpecCuesData, Option<SpecCue>) {
    let pos = number_position(d.cues, n);
    if has_number(d.cues, n) {
        (SpecCuesData { cues: d.cues.remove(pos), ..d }, Some(d.cues[pos].1))
    } else {
        (d, None)
    }
}

/// The cue list after moving the cue numbered `a` to the number `b`: unchanged where `b` is
/// taken or no cue is numbered `a`.
pub open spec fn spec_renumber_cue(d: SpecCuesData, a: CueNumberValue, b: CueNumberValue) -> SpecCuesData {
    if has_number(d.cues, b) || !has_number(d.cues, a) {
        d
    } else {
        let (removed, c) = spec_remove_cue(d, a);
        spec_add_cue(removed, b, c.unwrap())
    }
}

/// At most one position splits a sequence for a number.
pub proof fn lemma_splits_unique(s: Seq<CueEntry>, n: CueNumberValue, p: int, q: int)
    requires
        splits_at(s, n, p),
        splits_at(s, n, q),
    ensures
        p == q,
{
    if p < q {
        assert(cue_number_lt(s[p].0, n));
    } else if q < p {
        assert(cue_number_lt(s[q].0, n));
    }
}

/// A position that splits `s` for `n` is the one that `number_position` names.
pub proof fn lemma_position_is(s: Seq<CueEntry>, n: CueNumberValue, pos: int)
    requires
        splits_at(s, n, pos),
    ensures
        number_position(s, n) == pos,
        splits_at(s, n, number_position(s, n)),
{
    let p = number_position(s, n);
    assert(splits_at(s, n, p));
    lemma_splits_unique(s, n, p, pos);
}

/// In ordered cues, `n` is taken exactly where the cue at its position has it.
pub proof fn lemma_has_number_at_position(s: Seq<CueEntry>, n: CueNumberValue, pos: int)
    requires
        numbers_sorted(s),
        splits_at(s, n, pos),
    ensures
        has_number(s, n) <==> (pos < s.len() && s[pos].0 == n),
{
    if has_number(s, n) {
        let i = choose|i: int| 0 <= i < s.len() && #[trigger] s[i].0 == n;
        lemma_cue_number_order(n, n, n);
        if i < pos {
            assert(cue_number_lt(s[i].0, n));
        } else if i > pos {
            assert(cue_number_lt(s[pos].0, s[i].0));
            assert(!cue_number_lt(s[pos].0, n));
        }
    }
    if pos < s.len() && s[pos].0 == n {
        assert(has_number(s, n));
    }
}

/// Ordered cues have a position for every number.
pub proof fn lemma_position_exists(s: Seq<CueEntry>, n: CueNumberValue)
    requires
        numbers_sorted(s),
    ensures
        splits_at(s, n, number_position(s, n)),
    decreases s.len(),
{
    if s.len() == 0 {
        lemma_position_is(s, n, 0);
    } else {
        let s0 = s.drop_last();
        assert(numbers_sorted(s0)) by {
            assert forall|i: int, j: int| 0 <= i < j < s0.len() implies cue_number_lt(
                #[trigger] s0[i].0,
                #[trigger] s0[j].0,
            ) by {
                assert(s0[i] == s[i] && s0[j] == s[j]);
            }
        }
        lemma_position_exists(s0, n);
        let p0 = number_position(s0, n);
        let last = s.len() - 1;
        if p0 < s0.len() {
            assert forall|j: int| p0 <= j < s.len() implies !cue_number_lt(#[trigger] s[j].0, n) by {
                if j == last {
                    assert(cue_number_lt(s[p0].0, s[last].0));
                    lemma_cue_number_order(s[p0].0, s[last].0, n);
                    assert(s0[p0] == s[p0]);
                } else {
                    assert(s0[j] == s[j]);
                }
            }
            assert forall|j: int| 0 <= j < p0 implies cue_number_lt(#[trigger] s[j].0, n) by {
                assert(s0[j] == s[j]);
            }
            lemma_position_is(s, n, p0);
        } else if cue_number_lt(s[last].0, n) {
            assert forall|j: int| 0 <= j < s.len() implies cue_number_lt(#[trigger] s[j].0, n) by {
                if j < last {
                    assert(s0[j] == s[j]);
                }
            }
            lemma_position_is(s, n, s.len() as int);
        } else {
            assert forall|j: int| 0 <= j < last implies cue_number_lt(#[trigger] s[j].0, n) by {
                assert(s0[j] == s[j]);
            }
            lemma_position_is(s, n, last);
        }
    }
}

/// Inserting a cue at the position of its free number keeps the cues ordered.
proof fn lemma_insert_sorted(s: Seq<CueEntry>, e: CueEntry, pos: int)
    requires
        numbers_sorted(s),
        splits_at(s, e.0, pos),
        !has_number(s, e.0),
    ensures
        numbers_sorted(s.insert(pos, e)),
{
    let t = s.insert(pos, e);
    assert forall|i: int, j: int| 0 <= i < j < t.len() implies cue_number_lt(
        #[trigger] t[i].0,
        #[trigger] t[j].0,
    ) by {
        if j < pos {
            assert(t[i] == s[i] && t[j] == s[j]);
        } else if j == pos {
            assert(t[i] == s[i]);
        } else {
            assert(t[j] == s[j - 1]);
            assert(!cue_number_lt(s[j - 1].0, e.0));
            assert(s[j - 1].0 != e.0);
            lemma_cue_number_order(e.0, s[j - 1].0, e.0);
            if i < pos {
                assert(t[i] == s[i]);
                lemma_cue_number_order(s[i].0, e.0, s[j - 1].0);
            } else if i > pos {
                assert(t[i] == s[i - 1]);
            }
        }
    }
}

/// Removing a cue keeps the cues ordered.
proof fn lemma_remove_sorted(s: Seq<CueEntry>, pos: int)
    requires
        numbers_sorted(s),
        0 <= pos < s.len(),
    ensures
        numbers_sorted(s.remove(pos)),
{
    let t = s.remove(pos);
    assert forall|i: int, j: int| 0 <= i < j < t.len() implies cue_number_lt(
        #[trigger] t[i].0,
        #[trigger] t[j].0,
    ) by {
        let si = if i < pos { i } else { i + 1 };
        let sj = if j < pos { j } else { j + 1 };
        assert(t[i] == s[si] && t[j] == s[sj]);
    }
}

/// Adding a cue keeps the cue list ordered.
pub proof fn lemma_add_keeps_order(d: SpecCuesData, n: CueNumberValue, c: SpecCue)
    requires
        numbers_sorted(d.cues),
    ensures
        numbers_sorted(spec_add_cue(d, n, c).cues),
{
    if !has_number(d.cues, n) {
        lemma_position_exists(d.cues, n);
        lemma_insert_sorted(d.cues, (n, c), number_position(d.cues, n));
    }
}

/// Removing a cue keeps the cue list ordered.
pub proof fn lemma_remove_keeps_order(d: SpecCuesData, n: CueNumberValue)
    requires
        numbers_sorted(d.cues),
    ensures
        numbers_sorted(spec_remove_cue(d, n).0.cues),
{
    if has_number(d.cues, n) {
        lemma_position_exists(d.cues, n);
        lemma_has_number_at_position(d.cues, n, number_position(d.cues, n));
        lemma_remove_sorted(d.cues, number_position(d.cues, n));
    }
}

/// Renumbering a cue keeps the cue list ordered.
pub proof fn lemma_renumber_keeps_order(d: SpecCuesData, a: CueNumberValue, b: CueNumberValue)
    requires
        numbers_sorted(d.cues),
    ensures
        numbers_sorted(spec_renumber_cue(d, a, b).cues),
{
    lemma_remove_keeps_order(d, a);
    let (removed, c) = spec_remove_cue(d, a);
    if c is Some {
        lemma_add_keeps_order(removed, b, c.unwrap());
    }
}

/// The cues of a show, ordered by number, and the names of the channels.
///
/// The cues are held in a vector kept in order of their numbers, each number at most once (the
/// type invariant below), rather than in a `BTreeMap` keyed by `CueNumber`: the order of such a
/// map comes from the derived `Ord` of `CueNumber`, whose code Verus does not read, so nothing
/// could be proved about which cue stands where. Here the order is `cue_number_lt`, stated and
/// proved a strict total order.
pub struct CuesData {
    cues: Vec<(CueNumber, Cue)>,
    ch_names: ChannelNames,
}

impl View for CuesData {
    type V = SpecCuesData;

    closed spec fn view(&self) -> SpecCuesData {
        SpecCuesData { cues: entries_view(self.cues@), ch_names: self.ch_names@ }
    }
}

impl CuesData {
    /// No number occurs twice, and the cues stand in order of their numbers.
    #[verifier::type_invariant]
    pub closed spec fn ordered(&self) -> bool {
        numbers_sorted(entries_view(self.cues@))
    }
}

/// Where `n` stands, or would stand, among the ordered cues `cues`.
fn find_position(cues: &Vec<(CueNumber, Cue)>, n: &CueNumber) -> (pos: usize)
    requires
        numbers_sorted(entries_view(cues@)),
    ensures
        pos <= cues@.len(),
        splits_at(entries_view(cues@), n@, pos as int),
        pos == number_position(entries_view(cues@), n@),
{
    let ghost s = entries_view(cues@);
    let mut i: usize = 0;
    while i < cues.len() && cues[i].0.precedes(n)
        invariant
            i <= cues@.len(),
            s == entries_view(cues@),
            numbers_sorted(s),
            forall|j: int| 0 <= j < i ==> cue_number_lt(#[trigger] s[j].0, n@),
        decreases cues@.len() - i,
    {
        assert(s[i as int].0 == cues@[i as int].0@);
        i = i + 1;
    }
    proof {
        if i < cues@.len() {
            assert(s[i as int].0 == cues@[i as int].0@);
        }
        assert forall|j: int| i <= j < s.len() implies !cue_number_lt(#[trigger] s[j].0, n@) by {
            if j > i {
                assert(cue_number_lt(s[i as int].0, s[j].0));
                lemma_cue_number_order(s[i as int].0, s[j].0, n@);
            }
        }
        lemma_position_is(s, n@, i as int);
    }
    i
}

impl Default for CuesData {
    fn default() -> (r: CuesData)
        ensures
            r@.cues == Seq::<CueEntry>::empty(),
            r@.ch_names == Map::<u8, Seq<char>>::empty(),
            numbers_sorted(r@.cues),
    {
        let r = CuesData { cues: Vec::new(), ch_names: ChannelNames::default() };
        assert(r@.cues =~= Seq::<CueEntry>::empty());
        r
    }
}

impl Clone for CuesData {
    fn clone(&self) -> (r: CuesData)
        ensures
            r@ == self@,
    {
        proof {
            use_type_invariant(self);
        }
        let mut out: Vec<(CueNumber, Cue)> = Vec::new();
        for i in 0..self.cues.len()
            invariant
                out@.len() == i,
                i <= self.cues@.len(),
                forall|j: int|
                    0 <= j < i ==> (#[trigger] out@[j]).0@ == self.cues@[j].0@ && out@[j].1@
                        == self.cues@[j].1@,
        {
            let n = self.cues[i].0;
            let c = self.cues[i].1.clone();
            out.push((n, c));
        }
        assert(entries_view(out@) =~= entries_view(self.cues@));
        CuesData { cues: out, ch_names: self.ch_names.clone() }
    }
}

impl CuesData {
    /// The cues, in order of their numbers.
    pub fn cues(&self) -> (r: &Vec<(CueNumber, Cue)>)
        ensures
            entries_view(r@) == self@.cues,
    {
        &self.cues
    }

    /// The number of cues.
    pub fn len(&self) -> (r: usize)
        ensures
            r == self@.cues.len(),
    {
        self.cues.len()
    }

    /// The names of the channels.
    pub fn ch_names(&self) -> (r: &ChannelNames)
        ensures
            r@ == self@.ch_names,
    {
        &self.ch_names
    }

    /// Replaces the names of the channels.
    pub fn set_ch_names(&mut self, names: ChannelNames)
        ensures
            final(self)@ == (SpecCuesData { ch_names: names@, ..old(self)@ }),
            numbers_sorted(final(self)@.cues),
    {
        proof {
            use_type_invariant(&*self);
        }
        self.ch_names = names;
    }

    /// Whether some cue has the number `n`.
    pub fn contains_number(&self, n: &CueNumber) -> (r: bool)
        ensures
            r == has_number(self@.cues, n@),
    {
        proof {
            use_type_invariant(self);
        }
        let pos = find_position(&self.cues, n);
        proof {
            lemma_has_number_at_position(self@.cues, n@, pos as int);
        }
        if pos < self.cues.len() && !n.precedes(&self.cues[pos].0) {
            proof {
                lemma_cue_number_order(n@, self.cues@[pos as int].0@, n@);
            }
            true
        } else {
            false
        }
    }

    /// Replaces the cue at `ind` (in order of numbers), keeping its number.
    pub fn set_cue(&mut self, ind: usize, cue: Cue)
        requires
            ind < old(self)@.cues.len(),
        ensures
            final(self)@ == (SpecCuesData {
                cues: old(self)@.cues.update(ind as int, (old(self)@.cues[ind as int].0, cue@)),
                ..old(self)@
            }),
            numbers_sorted(final(self)@.cues),
    {
        proof {
            use_type_invariant(&*self);
        }
        let ghost before = self.cues@;
        let mut cues: Vec<(CueNumber, Cue)> = Vec::new();
        std::mem::swap(&mut cues, &mut self.cues);
        let n = cues[ind].0;
        cues.set(ind, (n, cue));
        proof {
            assert(entries_view(cues@) =~= entries_view(before).update(
                ind as int,
                (entries_view(before)[ind as int].0, cue@),
            ));
            let s = entries_view(cues@);
            let t = entries_view(before);
            assert forall|i: int, j: int| 0 <= i < j < s.len() implies cue_number_lt(
                #[trigger] s[i].0,
                #[trigger] s[j].0,
            ) by {
                assert(s[i].0 == t[i].0 && s[j].0 == t[j].0);
            }
        }
        self.cues = cues;
    }

    /// Adds the cue under the given number; does nothing where a cue already has that number.
    pub fn add_cue(&mut self, cue: Cue, number: CueNumber)
        ensures
            final(self)@ == spec_add_cue(old(self)@, number@, cue@),
            numbers_sorted(final(self)@.cues),
    {
        proof {
            use_type_invariant(&*self);
        }
        if self.contains_number(&number) {
            return;
        }
        let ghost before = self@;
        let pos = find_position(&self.cues, &number);
        let mut cues: Vec<(CueNumber, Cue)> = Vec::new();
        std::mem::swap(&mut cues, &mut self.cues);
        cues.insert(pos, (number, cue));
        proof {
            assert(entries_view(cues@) =~= before.cues.insert(pos as int, (number@, cue@)));
            lemma_insert_sorted(before.cues, (number@, cue@), pos as int);
        }
        self.cues = cues;
    }

    /// Removes the cue with the given number and returns it; `None` where no cue has it.
    pub fn remove_cue(&mut self, number: &CueNumber) -> (r: Option<Cue>)
        ensures
            final(self)@ == spec_remove_cue(old(self)@, number@).0,
            r matches Some(c) ==> spec_remove_cue(old(self)@, number@).1 == Some(c@),
            r is None ==> spec_remove_cue(old(self)@, number@).1 is None,
            numbers_sorted(final(self)@.cues),
    {
        proof {
            use_type_invariant(&*self);
        }
        let ghost before = self@;
        let pos = find_position(&self.cues, number);
        proof {
            lemma_has_number_at_position(before.cues, number@, pos as int);
        }
        if pos < self.cues.len() && !number.precedes(&self.cues[pos].0) {
            proof {
                lemma_cue_number_order(number@, self.cues@[pos as int].0@, number@);
            }
            let mut cues: Vec<(CueNumber, Cue)> = Vec::new();
        std::mem::swap(&mut cues, &mut self.cues);
            let (_, cue) = cues.remove(pos);
            proof {
                assert(entries_view(cues@) =~= before.cues.remove(pos as int));
                lemma_remove_sorted(before.cues, pos as int);
            }
            self.cues = cues;
            Some(cue)
        } else {
            None
        }
    }

    /// Moves the cue numbered `start_num` to `end_num`; does nothing where `end_num` is taken
    /// or no cue has `start_num`.
    pub fn renumber_cue(&mut self, start_num: CueNumber, end_num: CueNumber)
        ensures
            final(self)@ == spec_renumber_cue(old(self)@, start_num@, end_num@),
            numbers_sorted(final(self)@.cues),
    {
        proof {
            use_type_invariant(&*self);
        }
        if self.contains_number(&end_num) {
            return;
        }
        if let Some(cue) = self.remove_cue(&start_num) {
            self.add_cue(cue, end_num);
        }
    }
}

/// Adding a cue under a free number and then removing that number gives back the cue and the
/// list as it was.
pub proof fn lemma_remove_undoes_add(d: SpecCuesData, n: CueNumberValue, c: SpecCue)
    requires
        numbers_sorted(d.cues),
        !has_number(d.cues, n),
    ensures
        spec_remove_cue(spec_add_cue(d, n, c), n) == (d, Some(c)),
{
    lemma_position_exists(d.cues, n);
    let p = number_position(d.cues, n);
    let t = d.cues.insert(p, (n, c));
    lemma_cue_number_order(n, n, n);
    assert(splits_at(t, n, p)) by {
        assert forall|j: int| 0 <= j < p implies cue_number_lt(#[trigger] t[j].0, n) by {
            assert(t[j] == d.cues[j]);
        }
        assert forall|j: int| p <= j < t.len() implies !cue_number_lt(#[trigger] t[j].0, n) by {
            if j > p {
                assert(t[j] == d.cues[j - 1]);
            }
        }
    }
    lemma_position_is(t, n, p);
    assert(t[p].0 == n);
    assert(has_number(t, n));
    assert(t.remove(p) =~= d.cues);
}

/// Removing a cue and then adding it back under its number gives back the list as it was.
pub proof fn lemma_add_undoes_remove(d: SpecCuesData, n: CueNumberValue)
    requires
        numbers_sorted(d.cues),
        has_number(d.cues, n),
    ensures
        spec_add_cue(spec_remove_cue(d, n).0, n, spec_remove_cue(d, n).1.unwrap()) == d,
{
    lemma_position_exists(d.cues, n);
    let p = number_position(d.cues, n);
    lemma_has_number_at_position(d.cues, n, p);
    let t = d.cues.remove(p);
    assert(splits_at(t, n, p)) by {
        assert forall|j: int| 0 <= j < p implies cue_number_lt(#[trigger] t[j].0, n) by {
            assert(t[j] == d.cues[j]);
        }
        assert forall|j: int| p <= j < t.len() implies !cue_number_lt(#[trigger] t[j].0, n) by {
            assert(t[j] == d.cues[j + 1]);
        }
    }
    lemma_position_is(t, n, p);
    lemma_remove_sorted(d.cues, p);
    lemma_has_number_at_position(t, n, p);
    if p < t.len() && t[p].0 == n {
        assert(t[p] == d.cues[p + 1]);
        assert(cue_number_lt(d.cues[p].0, d.cues[p + 1].0));
        lemma_cue_number_order(n, n, n);
    }
    assert(t.insert(p, d.cues[p]) =~= d.cues);
}

/// Moving a cue from `a` to a free number `b` and then back from `b` to `a` gives back the
/// list as it was.
pub proof fn lemma_renumber_back(d: SpecCuesData, a: CueNumberValue, b: CueNumberValue)
    requires
        numbers_sorted(d.cues),
        has_number(d.cues, a),
        !has_number(d.cues, b),
    ensures
        spec_renumber_cue(spec_renumber_cue(d, a, b), b, a) == d,
{
    let (removed, c) = spec_remove_cue(d, a);
    lemma_remove_keeps_order(d, a);
    lemma_position_exists(d.cues, a);
    lemma_has_number_at_position(d.cues, a, number_position(d.cues, a));
    // `b` is still free once `a` is gone
    assert(!has_number(removed.cues, b)) by {
        if has_number(removed.cues, b) {
            let i = choose|i: int| 0 <= i < removed.cues.len() && #[trigger] removed.cues[i].0 == b;
            let p = number_position(d.cues, a);
            let k = if i < p { i } else { i + 1 };
            assert(removed.cues[i] == d.cues[k]);
        }
    }
    let moved = spec_add_cue(removed, b, c.unwrap());
    assert(moved == spec_renumber_cue(d, a, b));
    lemma_remove_undoes_add(removed, b, c.unwrap());
    // `a` is free in `removed`, and so in `moved`
    lemma_add_undoes_remove(d, a);
    assert(!has_number(removed.cues, a)) by {
        lemma_position_exists(removed.cues, a);
        lemma_remove_undoes_add(removed, a, c.unwrap());
        if has_number(removed.cues, a) {
            assert(spec_add_cue(removed, a, c.unwrap()) == removed);
        }
        let p = number_position(d.cues, a);
        let t = d.cues.remove(p);
        lemma_remove_sorted(d.cues, p);
        assert(splits_at(t, a, p)) by {
            assert forall|j: int| 0 <= j < p implies cue_number_lt(#[trigger] t[j].0, a) by {
                assert(t[j] == d.cues[j]);
            }
            assert forall|j: int| p <= j < t.len() implies !cue_number_lt(#[trigger] t[j].0, a) by {
                assert(t[j] == d.cues[j + 1]);
            }
        }
        lemma_has_number_at_position(t, a, p);
        if p < t.len() && t[p].0 == a {
            assert(t[p] == d.cues[p + 1]);
            assert(cue_number_lt(d.cues[p].0, d.cues[p + 1].0));
            lemma_cue_number_order(a, a, a);
        }
    }
    lemma_add_keeps_order(removed, b, c.unwrap());
    lemma_position_exists(removed.cues, b);
    assert(has_number(moved.cues, b)) by {
        let q = number_position(removed.cues, b);
        assert(moved.cues[q].0 == b);
    }
    assert(!has_number(moved.cues, a)) by {
        if has_number(moved.cues, a) {
            let q = number_position(removed.cues, b);
            let i = choose|i: int| 0 <= i < moved.cues.len() && #[trigger] moved.cues[i].0 == a;
            if i < q {
                assert(moved.cues[i] == removed.cues[i]);
            } else if i > q {
                assert(moved.cues[i] == removed.cues[i - 1]);
            } else {
                assert(moved.cues[q].0 == b);
            }
        }
    }
}

} // verus!
