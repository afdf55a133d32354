use miq::cache::BoardStateCache;
use miq::cues::{ChannelNames, Cue, DcaState};
use miq::data::{BoardEdit, Channel, Dca};

/// Returns a `DcaState` with the channels given by the provided indices assigned
fn dca_with_chs(chs: &[u8]) -> DcaState {
    let mut dca = DcaState::default();
    for ind in chs {
        dca.assign(Channel::from_index(*ind));
    }
    dca
}
/// Returns a `Cue` with the given DCAs
fn cue_with_dcas(dcas: Vec<DcaState>) -> Cue {
    Cue::from_parts(String::new(), dcas)
}
/// Cue diff core and apply
fn cdcaa(cache: &mut BoardStateCache, cue: &Cue, num_channels: u8, num_dcas: u8) -> Vec<BoardEdit> {
    let diff = cache.cue_diff_core(cue, num_channels, num_dcas);
    cache.apply_board_edits(&diff);
    diff
}
/// Returns the channel with the given index
fn ch(ind: u8) -> Channel {
    Channel::from_index(ind)
}
/// Returns the DCA with the given index
fn dca(ind: u8) -> Dca {
    Dca::from_index(ind)
}
/// Returns a cache which knows that nothing is assigned anywhere and everything is muted
fn warm_cache(num_channels: u8, num_dcas: u8) -> BoardStateCache {
    let mut cache = BoardStateCache::default();
    let mydca = dca_with_chs(&[]);
    let mycue = cue_with_dcas(vec![mydca; num_dcas.into()]);
    let _: Vec<BoardEdit> = cdcaa(&mut cache, &mycue, num_channels, num_dcas);
    cache
}

#[test]
fn one_ch_one_dca_cold() {
    let mut cache = BoardStateCache::default();
    let mydca = dca_with_chs(&[0]);
    let mycue = cue_with_dcas(vec![mydca]);
    let edits: Vec<BoardEdit> = cdcaa(&mut cache, &mycue, 1, 1);
    assert_eq!(
        edits,
        vec![
            BoardEdit::ChannelDcaAssign(ch(0), dca(0), true),
            BoardEdit::ChannelMute(ch(0), false),
        ]
    );
}
#[test]
fn one_ch_two_dca_cold() {
    let mut cache = BoardStateCache::default();
    let mydca = dca_with_chs(&[0]);
    let mycue = cue_with_dcas(vec![mydca]);
    let edits: Vec<BoardEdit> = cdcaa(&mut cache, &mycue, 1, 2);
    assert_eq!(
        edits,
        vec![
            BoardEdit::ChannelDcaAssign(ch(0), dca(0), true),
            BoardEdit::ChannelMute(ch(0), false),
            BoardEdit::ChannelDcaAssign(ch(0), dca(1), false),
        ]
    );
}
#[test]
fn two_ch_one_dca_cold() {
    let mut cache = BoardStateCache::default();
    let mydca = dca_with_chs(&[0]);
    let mycue = cue_with_dcas(vec![mydca]);
    let edits: Vec<BoardEdit> = cdcaa(&mut cache, &mycue, 2, 1);
    assert_eq!(
        edits,
        vec![
            BoardEdit::ChannelDcaAssign(ch(0), dca(0), true),
            BoardEdit::ChannelMute(ch(0), false),
            BoardEdit::ChannelMute(ch(1), true),
            BoardEdit::ChannelDcaAssign(ch(1), dca(0), false),
        ]
    );
}
#[test]
fn two_ch_two_dca_cold() {
    let mut cache = BoardStateCache::default();
    let dca1 = dca_with_chs(&[0]);
    let dca2 = dca_with_chs(&[1]);
    let mycue = cue_with_dcas(vec![dca1, dca2]);
    let edits: Vec<BoardEdit> = cdcaa(&mut cache, &mycue, 2, 2);
    assert_eq!(
        edits,
        vec![
            BoardEdit::ChannelDcaAssign(ch(0), dca(0), true),
            BoardEdit::ChannelDcaAssign(ch(1), dca(1), true),
            BoardEdit::ChannelMute(ch(0), false),
            BoardEdit::ChannelMute(ch(1), false),
            BoardEdit::ChannelDcaAssign(ch(1), dca(0), false),
            BoardEdit::ChannelDcaAssign(ch(0), dca(1), false),
        ]
    );
}
#[test]
fn move_to_new_dca() {
    let mut cache = BoardStateCache::default();
    let dca11 = dca_with_chs(&[0]);
    let dca12 = dca_with_chs(&[]);
    let dca21 = dca_with_chs(&[]);
    let dca22 = dca_with_chs(&[0]);
    let cue1 = cue_with_dcas(vec![dca11, dca12]);
    let cue2 = cue_with_dcas(vec![dca21, dca22]);
    let _: Vec<BoardEdit> = cdcaa(&mut cache, &cue1, 1, 2);
    let edits: Vec<BoardEdit> = cdcaa(&mut cache, &cue2, 1, 2);
    assert_eq!(
        edits,
        vec![
            BoardEdit::ChannelDcaAssign(ch(0), dca(1), true),
            BoardEdit::ChannelDcaAssign(ch(0), dca(0), false),
        ]
    );
}
#[test]
fn one_ch_one_dca_warm() {
    let mut cache = warm_cache(1, 1);
    let mydca = dca_with_chs(&[0]);
    let mycue = cue_with_dcas(vec![mydca]);
    let edits: Vec<BoardEdit> = cdcaa(&mut cache, &mycue, 1, 1);
    assert_eq!(
        edits,
        vec![
            BoardEdit::ChannelDcaAssign(ch(0), dca(0), true),
            BoardEdit::ChannelMute(ch(0), false),
        ]
    );
}
#[test]
fn two_ch_two_dca_warm() {
    let mut cache = warm_cache(2, 2);
    let mydca = dca_with_chs(&[0]);
    let mycue = cue_with_dcas(vec![mydca]);
    let edits: Vec<BoardEdit> = cdcaa(&mut cache, &mycue, 2, 2);
    assert_eq!(
        edits,
        vec![
            BoardEdit::ChannelDcaAssign(ch(0), dca(0), true),
            BoardEdit::ChannelMute(ch(0), false),
        ]
    );
}
#[test]
fn five_ch_two_dca_warm() {
    let mut cache = warm_cache(5, 2);
    let dca1 = dca_with_chs(&[0, 1]);
    let dca2 = dca_with_chs(&[2, 3]);
    let mycue = cue_with_dcas(vec![dca1, dca2]);
    let edits: Vec<BoardEdit> = cdcaa(&mut cache, &mycue, 5, 2);
    assert_eq!(
        edits,
        vec![
            BoardEdit::ChannelDcaAssign(ch(0), dca(0), true),
            BoardEdit::ChannelDcaAssign(ch(1), dca(0), true),
            BoardEdit::ChannelDcaAssign(ch(2), dca(1), true),
            BoardEdit::ChannelDcaAssign(ch(3), dca(1), true),
            BoardEdit::ChannelMute(ch(0), false),
            BoardEdit::ChannelMute(ch(1), false),
            BoardEdit::ChannelMute(ch(2), false),
            BoardEdit::ChannelMute(ch(3), false),
        ]
    );
}
#[test]
fn name_caching() {
    let mut cache = BoardStateCache::default();
    let names = ChannelNames::default();
    let mut dca1 = dca_with_chs(&[0]);
    *dca1.edit_name() = Some("Name".to_string());
    let mut dca2 = dca_with_chs(&[]);
    *dca2.edit_name() = Some("Name".to_string());
    let cue1 = cue_with_dcas(vec![dca1]);
    let cue2 = cue_with_dcas(vec![dca2]);
    let _: Vec<BoardEdit> = cache.cue_diff_and_apply(&cue1, Some(&names), 1, 1);
    let edits: Vec<BoardEdit> = cache.cue_diff_and_apply(&cue2, Some(&names), 1, 1);
    assert_eq!(
        edits,
        vec![
            BoardEdit::ChannelMute(ch(0), true),
            BoardEdit::ChannelDcaAssign(ch(0), dca(0), false),
        ]
    );
}
#[test]
fn name_caching_cue_missing_dcas() {
    let mut cache = BoardStateCache::default();
    let names = ChannelNames::default();
    let mut dca1 = dca_with_chs(&[0]);
    *dca1.edit_name() = Some("Name".to_string());
    let mut dca2 = dca_with_chs(&[]);
    *dca2.edit_name() = Some("Name".to_string());
    let cue1 = cue_with_dcas(vec![dca1, dca2.clone()]);
    let cue2 = cue_with_dcas(vec![dca2]);
    let _: Vec<BoardEdit> = cache.cue_diff_and_apply(&cue1, Some(&names), 1, 2);
    let edits: Vec<BoardEdit> = cache.cue_diff_and_apply(&cue2, Some(&names), 1, 2);
    assert_eq!(
        edits,
        vec![
            BoardEdit::ChannelMute(ch(0), true),
            BoardEdit::ChannelDcaAssign(ch(0), dca(0), false),
            BoardEdit::DcaName(dca(1), "".to_string())
        ]
    );
}

#[test]
fn refiring_a_cue_sends_nothing() {
    let mut cache = BoardStateCache::default();
    let mycue = cue_with_dcas(vec![dca_with_chs(&[0, 2]), dca_with_chs(&[1])]);
    let first = cdcaa(&mut cache, &mycue, 3, 2);
    assert!(!first.is_empty());
    let second = cdcaa(&mut cache, &mycue, 3, 2);
    assert_eq!(second, vec![]);
}

#[test]
fn dca_names_from_channel_names() {
    let mut cache = BoardStateCache::default();
    let mut names = ChannelNames::default();
    names.set_name(&ch(0), "Vox".to_string());
    let mycue = cue_with_dcas(vec![dca_with_chs(&[0, 2])]);
    let edits = cache.cue_diff_and_apply(&mycue, Some(&names), 3, 1);
    assert_eq!(
        edits,
        vec![
            BoardEdit::ChannelDcaAssign(ch(0), dca(0), true),
            BoardEdit::ChannelDcaAssign(ch(2), dca(0), true),
            BoardEdit::ChannelMute(ch(0), false),
            BoardEdit::ChannelMute(ch(1), true),
            BoardEdit::ChannelMute(ch(2), false),
            BoardEdit::ChannelDcaAssign(ch(1), dca(0), false),
            BoardEdit::DcaName(dca(0), "Vox, Ch 3".to_string()),
        ]
    );
    let again = cache.cue_diff_and_apply(&mycue, Some(&names), 3, 1);
    assert_eq!(again, vec![]);
}

#[test]
fn applied_edits_are_known() {
    let mut cache = BoardStateCache::default();
    cache.apply_board_edit(&BoardEdit::ChannelMute(ch(4), true));
    cache.apply_board_edit(&BoardEdit::ChannelDcaAssign(ch(4), dca(1), true));
    let mycue = cue_with_dcas(vec![dca_with_chs(&[]), dca_with_chs(&[4])]);
    let edits = cdcaa(&mut cache, &mycue, 5, 2);
    assert!(edits.contains(&BoardEdit::ChannelMute(ch(4), false)));
    assert!(!edits.contains(&BoardEdit::ChannelDcaAssign(ch(4), dca(1), true)));
}

#[test]
fn refire_resends_only_levels() {
    let mut cache = BoardStateCache::default();
    let names = ChannelNames::default();
    let mut set = std::collections::BTreeSet::new();
    set.insert(0u8);
    let leveled = DcaState::from_parts(set, None, Some(miq::data::Decibels::from_bits(42)));
    let mycue = cue_with_dcas(vec![leveled, dca_with_chs(&[1])]);
    let first = cache.cue_diff_and_apply(&mycue, Some(&names), 2, 2);
    let second = cache.cue_diff_and_apply(&mycue, Some(&names), 2, 2);
    let levels: Vec<BoardEdit> =
        first.into_iter().filter(|e| matches!(e, BoardEdit::DcaLevel(..))).collect();
    assert_eq!(levels.len(), 1);
    assert_eq!(second, levels);
}
