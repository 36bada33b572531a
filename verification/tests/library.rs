use ober::browser::Browser;
use ober::decode::{
    after_decode, after_read, check_decoded, to_stereo, DecodeError, DecodeStep, DecodedTrack, PacketDecode,
    PacketRead, CHANNELS, TARGET_SAMPLE_RATE,
};
use ober::listing::{file_extension, file_rows, folder_rows, is_hidden, text_before, ListedEntry};
use ober::mapping::{text_contains, Action, Deck};
use ober::midi::translate::{ControlEvent, ControlValue};
use ober::power::{Activity, PowerChange, IDLE_AFTER_MICROS};
use ober::widgets::{all_widgets, label_text, lit, press, release, ButtonKind, Press, SliderKind, Widget};

// ---------------------------------------------------------------- browser

fn listed(dirs: usize, current: usize, files: usize) -> Browser {
    let mut b = Browser::new();
    b.listed_dirs(dirs, current);
    b.listed_files(files);
    b
}

#[test]
fn a_new_browser_asks_for_both_listings() {
    let b = Browser::new();
    assert!(!b.focused);
    assert!(b.needs_dir_listing());
    assert!(b.needs_file_listing());
    assert_eq!(b.dir_selected(), 0);
    assert_eq!(b.file_selected(), 0);
}

#[test]
fn listing_the_folders_selects_the_current_one() {
    let mut b = Browser::new();
    b.listed_dirs(5, 1);
    assert!(!b.needs_dir_listing());
    assert!(b.needs_file_listing());
    assert_eq!(b.dir_selected(), 1);
    assert_eq!(b.dir_scroll(), 0);
    b.listed_files(3);
    assert!(!b.needs_file_listing());
    assert_eq!(b.file_selected(), 0);
}

#[test]
fn the_file_selection_stays_in_the_list() {
    let mut b = listed(3, 1, 4);
    b.scroll_by(2);
    assert_eq!(b.file_selected(), 2);
    b.scroll_by(10);
    assert_eq!(b.file_selected(), 3);
    b.scroll_by(-1);
    assert_eq!(b.file_selected(), 2);
    b.scroll_by(-100);
    assert_eq!(b.file_selected(), 0);
    assert!(!b.needs_file_listing());
}

#[test]
fn an_empty_file_list_hands_the_encoder_to_the_folders() {
    let mut b = listed(4, 1, 0);
    b.scroll_by(1);
    assert_eq!(b.dir_selected(), 2);
    assert!(b.needs_file_listing());
}

#[test]
fn folder_moves_ask_for_the_files_again_only_when_they_move() {
    let mut b = listed(3, 2, 5);
    b.scroll_dirs_by(1);
    assert_eq!(b.dir_selected(), 2);
    assert!(!b.needs_file_listing());
    b.scroll_dirs_by(-2);
    assert_eq!(b.dir_selected(), 0);
    assert!(b.needs_file_listing());
}

#[test]
fn clicking_the_selected_folder_enters_it() {
    let mut b = listed(4, 1, 2);
    assert!(!b.click_dir_row(3));
    assert_eq!(b.dir_selected(), 3);
    assert!(b.needs_file_listing());
    assert!(b.click_dir_row(3));
    assert!(!b.click_dir_row(9));
    assert_eq!(b.dir_selected(), 3);
}

#[test]
fn clicking_a_file_selects_it() {
    let mut b = listed(2, 0, 3);
    b.click_file_row(2);
    assert_eq!(b.file_selected(), 2);
    b.click_file_row(3);
    assert_eq!(b.file_selected(), 2);
}

#[test]
fn navigation_asks_for_the_folders_again() {
    let mut b = listed(2, 0, 3);
    b.navigate();
    assert!(b.needs_dir_listing());
}

#[test]
fn the_view_follows_the_selection() {
    let mut b = listed(30, 0, 30);
    b.scroll_by(12);
    b.follow_selection(5);
    assert_eq!(b.file_scroll(), 8);
    b.scroll_by(-10);
    b.follow_selection(5);
    assert_eq!(b.file_scroll(), 2);
    b.scroll_by(1);
    b.follow_selection(5);
    assert_eq!(b.file_scroll(), 2);
    b.scroll_dirs_by(7);
    b.follow_selection(0);
    assert_eq!(b.dir_scroll(), 7);
}

// ---------------------------------------------------------------- power

#[test]
fn idle_after_five_seconds_without_activity() {
    let mut a = Activity::default();
    assert_eq!(a.update(false, 4_000_000), PowerChange::Stay);
    assert_eq!(a.update(false, 1_000_000), PowerChange::Stay);
    assert_eq!(a.micros_since, IDLE_AFTER_MICROS);
    assert_eq!(a.update(false, 1), PowerChange::Sleep);
    assert!(a.idle);
    assert_eq!(a.update(false, 16_000), PowerChange::Stay);
}

#[test]
fn any_activity_wakes_at_once() {
    let mut a = Activity::default();
    a.update(false, 6_000_000);
    assert!(a.idle);
    assert_eq!(a.update(true, 16_000), PowerChange::Wake);
    assert!(!a.idle);
    assert_eq!(a.micros_since, 0);
    assert_eq!(a.update(true, 16_000), PowerChange::Stay);
}

#[test]
fn inactivity_time_saturates() {
    let mut a = Activity { micros_since: u64::MAX - 1, idle: true };
    assert_eq!(a.update(false, 10), PowerChange::Stay);
    assert_eq!(a.micros_since, u64::MAX);
}

// ---------------------------------------------------------------- decode

#[test]
fn mono_is_duplicated_on_both_channels() {
    assert_eq!(to_stereo(vec![0.5f32, -0.25], 1), vec![0.5, 0.5, -0.25, -0.25]);
}

#[test]
fn stereo_is_kept() {
    assert_eq!(to_stereo(vec![1i16, 2, 3, 4], 2), vec![1, 2, 3, 4]);
}

#[test]
fn multichannel_keeps_the_first_two_channels() {
    let six: Vec<i32> = (0..13).collect();
    // Two complete 6-channel frames; the trailing sample is dropped.
    assert_eq!(to_stereo(six, 6), vec![0, 1, 6, 7]);
}

#[test]
fn decoded_frames() {
    let track = DecodedTrack { samples: vec![0.0f32; 2 * 480], sample_rate: TARGET_SAMPLE_RATE, truncated: false };
    assert_eq!(track.frames(), 480);
    assert_eq!(CHANNELS, 2);
    assert_eq!(TARGET_SAMPLE_RATE, 48_000);
}

#[test]
fn the_current_folder_row_follows_the_parent_row() {
    let mut b = Browser::new();
    b.listed_folder(true, 3);
    assert_eq!(b.dir_selected(), 1);
    assert!(b.needs_file_listing());
    assert_eq!(b.enter(), None);
    assert!(!b.needs_dir_listing());
    b.scroll_dirs_by(-1);
    assert_eq!(b.enter(), Some(0));
    assert!(b.needs_dir_listing());

    let mut root = Browser::new();
    root.listed_folder(false, 0);
    assert_eq!(root.dir_selected(), 0);
    assert_eq!(root.enter(), None);
    root.listed_files(0);
    root.scroll_by(1);
    assert_eq!(root.dir_selected(), 0);
}

#[test]
fn entering_a_subfolder_returns_its_row() {
    let mut b = Browser::new();
    b.listed_folder(true, 2);
    b.scroll_dirs_by(2);
    assert_eq!(b.dir_selected(), 3);
    assert_eq!(b.enter(), Some(3));
}

// ---------------------------------------------------------------- listing

fn entry(name: &str, is_dir: bool) -> ListedEntry {
    ListedEntry { name: name.to_string(), is_dir }
}

#[test]
fn hidden_names_start_with_a_dot() {
    assert!(is_hidden(".config"));
    assert!(!is_hidden("Music"));
    assert!(!is_hidden(""));
}

#[test]
fn extensions_follow_the_last_dot() {
    assert_eq!(file_extension("track.MP3"), Some("MP3"));
    assert_eq!(file_extension("a.b.flac"), Some("flac"));
    assert_eq!(file_extension("README"), None);
    assert_eq!(file_extension(".bashrc"), None);
    assert_eq!(file_extension("trailing."), Some(""));
    assert_eq!(file_extension("été.wav"), Some("wav"));
}

#[test]
fn text_order_is_by_characters() {
    assert!(text_before("abc", "abd"));
    assert!(text_before("ab", "abc"));
    assert!(!text_before("abc", "abc"));
    assert!(!text_before("b", "abc"));
    assert!(text_before("Zebra", "apple"));
}

#[test]
fn folders_are_sorted_without_case() {
    let entries = vec![
        entry("rock", true),
        entry(".cache", true),
        entry("Jazz", true),
        entry("notes.txt", false),
        entry("ambient", true),
    ];
    assert_eq!(folder_rows(&entries), vec![4, 2, 0]);
}

#[test]
fn only_audio_files_show() {
    let entries = vec![
        entry("b.FLAC", false),
        entry("cover.jpg", false),
        entry("A.mp3", false),
        entry(".hidden.mp3", false),
        entry("sub.wav", true),
        entry("c.Ogg", false),
        entry("d.m4a", false),
        entry("e.aac", false),
        entry("f.wav", false),
        entry("noext", false),
    ];
    assert_eq!(file_rows(&entries), vec![2, 0, 5, 6, 7, 8]);
}

#[test]
fn equal_names_keep_the_listing_order() {
    let entries = vec![entry("Track.mp3", false), entry("track.mp3", false), entry("TRACK.mp3", false)];
    assert_eq!(file_rows(&entries), vec![0, 1, 2]);
}

#[test]
fn the_decoding_loop_keeps_what_was_decoded() {
    assert_eq!(after_read(PacketRead::Packet { ours: true }), DecodeStep::Decode);
    assert_eq!(after_read(PacketRead::Packet { ours: false }), DecodeStep::Next);
    assert_eq!(after_read(PacketRead::End), DecodeStep::Finish { truncated: false });
    assert_eq!(after_read(PacketRead::Failed), DecodeStep::Finish { truncated: true });
    assert_eq!(after_decode(PacketDecode::Samples), DecodeStep::Next);
    assert_eq!(after_decode(PacketDecode::Corrupt), DecodeStep::Next);
    assert_eq!(after_decode(PacketDecode::Failed), DecodeStep::Finish { truncated: true });
}

#[test]
fn nothing_decoded_is_an_error() {
    assert!(matches!(check_decoded(0, 2, 44_100, 48_000), Err(DecodeError::Empty)));
    assert!(matches!(check_decoded(10, 0, 44_100, 48_000), Err(DecodeError::Empty)));
    assert!(matches!(check_decoded(10, 2, 0, 48_000), Err(DecodeError::Empty)));
    assert!(matches!(check_decoded(10, 2, 44_100, 48_000), Ok(true)));
    assert!(matches!(check_decoded(10, 1, 48_000, 48_000), Ok(false)));
}

// ---------------------------------------------------------------- widgets

#[test]
fn buttons_ask_for_the_opposite_of_what_they_show() {
    assert_eq!(
        press::<f32>(ButtonKind::Play(0), false, false),
        Press::Emit(ControlEvent { action: Action::Play { deck: Deck::A }, value: ControlValue::Toggled(true) })
    );
    assert_eq!(
        press::<f32>(ButtonKind::Play(1), true, false),
        Press::Emit(ControlEvent { action: Action::Play { deck: Deck::B }, value: ControlValue::Toggled(false) })
    );
    assert_eq!(
        press::<f32>(ButtonKind::Pfl(1), false, true),
        Press::Emit(ControlEvent { action: Action::HeadphoneCue { deck: Deck::B }, value: ControlValue::Toggled(false) })
    );
    assert_eq!(
        press::<f32>(ButtonKind::Cue(0), true, true),
        Press::Emit(ControlEvent { action: Action::Cue { deck: Deck::A }, value: ControlValue::Pressed(true) })
    );
    assert_eq!(press::<f32>(ButtonKind::Load(1), false, false), Press::ChooseTrack(Deck::B));
    assert_eq!(
        release::<f32>(ButtonKind::Cue(1)),
        Some(ControlEvent { action: Action::Cue { deck: Deck::B }, value: ControlValue::Pressed(false) })
    );
    assert_eq!(release::<f32>(ButtonKind::Play(0)), None);
}

#[test]
fn the_screen_lists_every_control_with_its_label() {
    let widgets = all_widgets();
    assert_eq!(widgets.len(), 22);
    assert_eq!(widgets[0], Widget::Button(ButtonKind::Play(0)));
    assert_eq!(widgets[8], Widget::Slider(SliderKind::Eq(0, 2)));
    assert_eq!(widgets[9], Widget::Button(ButtonKind::Play(1)));
    assert_eq!(widgets[21], Widget::Slider(SliderKind::Master));
    let labels: Vec<&str> = widgets.iter().map(|w| label_text(*w)).collect();
    assert_eq!(&labels[..9], &["PLAY", "CUE", "PFL", "LOAD", "vol", "pitch", "low", "mid", "high"]);
    assert_eq!(&labels[18..], &["crossfader", "cue", "phones", "master"]);
    assert!(SliderKind::CrossFader.horizontal());
    assert!(!SliderKind::Volume(0).horizontal());
    assert!(lit(ButtonKind::Play(0), true, false, false));
    assert!(lit(ButtonKind::Cue(0), false, true, false));
    assert!(!lit(ButtonKind::Load(0), true, true, true));
}

#[test]
fn text_search_finds_runs_of_characters() {
    assert!(text_contains("DJControl Inpulse 200 MK2 MIDI 1", "Inpulse 200"));
    assert!(text_contains("anything", ""));
    assert!(text_contains("ééa", "éa"));
    assert!(!text_contains("MK2", "DJControl MK2"));
    assert!(!text_contains("DJControl", "djcontrol"));
}

#[test]
fn a_render_leaves_nothing_to_list_and_shows_the_selections() {
    let mut b = Browser::new();
    // What the library's render does: list when asked, then follow.
    if b.needs_dir_listing() {
        b.listed_folder(true, 20);
    }
    if b.needs_file_listing() {
        b.listed_files(40);
    }
    b.scroll_by(30);
    b.scroll_dirs_by(15);
    if b.needs_file_listing() {
        b.listed_files(40);
    }
    b.scroll_by(30);
    b.follow_selection(10);
    assert!(!b.needs_dir_listing());
    assert!(!b.needs_file_listing());
    assert!(b.dir_scroll() <= b.dir_selected() && b.dir_selected() < b.dir_scroll() + 10);
    assert!(b.file_scroll() <= b.file_selected() && b.file_selected() < b.file_scroll() + 10);
    // Least move: the selection ends on the last visible row.
    assert_eq!(b.dir_selected(), 16);
    assert_eq!(b.dir_scroll(), 7);
    assert_eq!(b.file_selected(), 30);
    assert_eq!(b.file_scroll(), 21);
    // Already visible: no move.
    b.scroll_by(-5);
    b.follow_selection(10);
    assert_eq!(b.file_scroll(), 21);
}
