use auto_abloop::i18n::{get_language, set_language, t, Language};
use auto_abloop::player::{export_order, LoopingSource};
use auto_abloop::LoopPoints;

#[test]
fn source_jumps_back_on_frame_boundary() {
    let lp = LoopPoints { start_sample: 2, end_sample: 4, confidence: 0 };
    let mut src = LoopingSource::new(6, 2, lp, Some(1));
    let mut played = Vec::new();
    while let Some(i) = src.next_index() {
        played.push(i);
    }
    assert_eq!(played, vec![0, 1, 2, 3, 2, 3, 4, 5]);
    assert_eq!(src.loop_count, 1);
}

#[test]
fn source_waits_for_frame_alignment() {
    let lp = LoopPoints { start_sample: 0, end_sample: 3, confidence: 0 };
    let mut src = LoopingSource::new(8, 2, lp, Some(1));
    let mut played = Vec::new();
    while let Some(i) = src.next_index() {
        played.push(i);
    }
    assert_eq!(played, vec![0, 1, 2, 3, 0, 1, 2, 3, 4, 5, 6, 7]);
}

#[test]
fn unbounded_source_keeps_looping() {
    let lp = LoopPoints { start_sample: 1, end_sample: 3, confidence: 0 };
    let mut src = LoopingSource::new(4, 1, lp, None);
    let mut played = Vec::new();
    for _ in 0..7 {
        played.push(src.next_index().unwrap());
    }
    assert_eq!(played, vec![0, 1, 2, 1, 2, 1, 2]);
    assert_eq!(src.loop_count, 3);
    assert_eq!(src.channels(), 1);
}

#[test]
fn export_plays_each_loop_then_the_rest() {
    let lp = LoopPoints { start_sample: 1, end_sample: 3, confidence: 0 };
    assert_eq!(export_order(4, 1, lp, 2), vec![0, 1, 2, 1, 2, 1, 2, 3]);
    assert_eq!(export_order(4, 1, lp, 0), vec![0, 1, 2, 3]);
    assert_eq!(export_order(0, 1, lp, 3), Vec::<usize>::new());
}

#[test]
fn translation_in_both_languages() {
    assert_eq!(t(Language::En, "play"), "Play");
    assert_eq!(t(Language::Zh, "play"), "播放");
    assert_eq!(t(Language::En, "export_fail"), "Export Failed: ");
    assert_eq!(t(Language::Zh, "no_such_key"), "no_such_key");
}

#[test]
fn language_setting() {
    let mut lang = Language::Zh;
    assert_eq!(get_language(&lang), Language::Zh);
    set_language(&mut lang, Language::En);
    assert_eq!(get_language(&lang), Language::En);
}
