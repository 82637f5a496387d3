use upright::image::{rotate, apply_winning_orientation, Angle, Image};
use upright::score::{count_recognizable, score_text, MIN_SEGMENT_CHARS};
use upright::select::{
    candidate_angle_list, rotate_code_to_angle_int, select_orientation, SelectionState,
    CODE_ROTATE_180, CODE_ROTATE_90_CLOCKWISE, CODE_ROTATE_90_COUNTERCLOCKWISE, NO_ROTATE,
};
use upright::OrientationError;

fn chars(s: &str) -> Vec<char> {
    s.chars().collect()
}

fn image_2x3() -> Image {
    // width 2, height 3, rows [1 2] [3 4] [5 6]
    Image::new(2, 3, vec![1, 2, 3, 4, 5, 6]).unwrap()
}

#[test]
fn image_new_accepts_matching_buffer() {
    let img = Image::new(2, 3, vec![0; 6]).unwrap();
    assert_eq!(img.width, 2);
    assert_eq!(img.height, 3);
    assert_eq!(img.data.len(), 6);
}

#[test]
fn image_new_rejects_short_buffer() {
    let r = Image::new(2, 3, vec![0; 5]);
    assert!(matches!(r, Err(OrientationError::DecodeFailed)));
}

#[test]
fn rotate_quarter_clockwise_exact_pixels() {
    let img = image_2x3();
    let r = rotate(&img, Angle::Deg90);
    assert_eq!(r.width, 3);
    assert_eq!(r.height, 2);
    assert_eq!(r.data, vec![5, 3, 1, 6, 4, 2]);
}

#[test]
fn rotate_half_turn_exact_pixels() {
    let img = image_2x3();
    let r = rotate(&img, Angle::Deg180);
    assert_eq!(r.width, 2);
    assert_eq!(r.height, 3);
    assert_eq!(r.data, vec![6, 5, 4, 3, 2, 1]);
}

#[test]
fn rotate_quarter_counter_clockwise_exact_pixels() {
    let img = image_2x3();
    let r = rotate(&img, Angle::Deg270);
    assert_eq!(r.width, 3);
    assert_eq!(r.height, 2);
    assert_eq!(r.data, vec![2, 4, 6, 1, 3, 5]);
}

#[test]
fn rotate_zero_copies_the_image() {
    let img = image_2x3();
    let r = rotate(&img, Angle::Deg0);
    assert!(r.same_pixels(&img));
}

#[test]
fn four_quarter_turns_round_trip() {
    let img = image_2x3();
    let once = rotate(&img, Angle::Deg90);
    let twice = rotate(&once, Angle::Deg90);
    let thrice = rotate(&twice, Angle::Deg90);
    let full = rotate(&thrice, Angle::Deg90);
    assert!(full.same_pixels(&img));
}

#[test]
fn apply_winning_orientation_zero_is_identity() {
    let img = image_2x3();
    let out = apply_winning_orientation(&img, 0).unwrap();
    assert!(out.same_pixels(&img));
}

#[test]
fn apply_winning_orientation_rotates_nonzero_winner() {
    let img = image_2x3();
    let out = apply_winning_orientation(&img, 90).unwrap();
    let expected = rotate(&img, Angle::Deg90);
    assert!(out.same_pixels(&expected));
}

#[test]
fn apply_winning_orientation_rejects_out_of_set_angle() {
    let img = image_2x3();
    let r = apply_winning_orientation(&img, 45);
    assert!(matches!(r, Err(OrientationError::RotationFailed)));
}

#[test]
fn angle_degrees_round_trip() {
    for deg in [0u32, 90, 180, 270] {
        let a = Angle::from_degrees(deg).unwrap();
        assert_eq!(a.to_degrees(), deg);
    }
    assert!(Angle::from_degrees(30).is_none());
}

#[test]
fn min_length_filter_boundary() {
    // A two-character surface form passes the filter; a one-character one
    // does not.
    assert_eq!(MIN_SEGMENT_CHARS, 2);
    assert_eq!(score_text("ab\tX\nEOS"), 1);
    assert_eq!(score_text("c\tX\nEOS"), 0);
    assert_eq!(score_text("ab\tX\nc\tX\n1\tX\ndefg\tX\nEOS"), 2);
    assert_eq!(score_text("ab\tX\nc1\tX\ndefg\tX\nEOS"), 3);
}

#[test]
fn count_recognizable_counts_long_segments_only() {
    let segments = vec![chars("ab"), chars("c"), chars("defg"), chars("")];
    assert_eq!(count_recognizable(&segments), 2);
}

#[test]
fn score_surface_form_ends_at_comma_too() {
    // Fields may be separated by a comma as well as a tab; only the first
    // field is the surface form.
    assert_eq!(score_text("ab,X,Y\nEOS"), 1);
    assert_eq!(score_text("a,XY\nEOS"), 0);
}

#[test]
fn score_ignores_terminal_marker_line() {
    // The final line of the analyzer output is its end marker and is never
    // counted, however long it is.
    assert_eq!(score_text("EOS"), 0);
    assert_eq!(score_text("whatever"), 0);
}

#[test]
fn score_empty_output_is_zero() {
    assert_eq!(score_text(""), 0);
    assert_eq!(score_text("\n"), 0);
}

#[test]
fn score_trims_surrounding_whitespace() {
    assert_eq!(score_text("ab\tX\nEOS\n"), 1);
    assert_eq!(score_text("  ab\tX\nEOS  \r\n"), 1);
}

#[test]
fn score_counts_multibyte_characters_not_bytes() {
    // One five-character word and one one-character punctuation mark.
    assert_eq!(score_text("こんにちは\t感動詞,*,*\n、\t記号,読点\nEOS"), 1);
}

#[test]
fn candidate_angles_ascend_from_zero() {
    assert_eq!(candidate_angle_list(), vec![0, 90, 180, 270]);
}

#[test]
fn selection_state_keeps_first_on_tie() {
    let mut st = SelectionState::start();
    assert_eq!(st.best_angle, 0);
    assert_eq!(st.best_score, 0);
    st.observe(0, 2);
    st.observe(90, 2);
    assert_eq!(st.best_angle, 0);
    assert_eq!(st.best_score, 2);
    st.observe(180, 3);
    assert_eq!(st.best_angle, 180);
    assert_eq!(st.best_score, 3);
}

#[test]
fn select_all_zero_scores_reports_angle_zero() {
    let analyses = vec![chars("EOS"), chars("EOS"), chars("EOS"), chars("EOS")];
    let outcome = select_orientation(&analyses);
    assert_eq!(outcome.winning_angle, 0);
    assert_eq!(outcome.winning_score, 0);
}

#[test]
fn select_picks_best_scoring_angle() {
    // Recognizable words only at the upright candidate; noise elsewhere.
    let analyses = vec![
        chars("今日\t名詞\nは\t助詞\n晴れ\t名詞\nです\t助動詞\nEOS"),
        chars("w\t記号\nEOS"),
        chars("x\t記号\ny\t記号\nEOS"),
        chars("EOS"),
    ];
    let outcome = select_orientation(&analyses);
    assert_eq!(outcome.winning_angle, 0);
    assert_eq!(outcome.winning_score, 3);
    for c in &outcome.candidates[1..] {
        assert!(c.score < outcome.winning_score);
    }
}

#[test]
fn select_upside_down_text_reports_180() {
    // Only the half-turn candidate yields recognizable segments.
    let analyses = vec![
        chars("q\tX\nEOS"),
        chars("EOS"),
        chars("文書\t名詞\nを\t助詞\n読む\t動詞\nEOS"),
        chars("z\tX\nEOS"),
    ];
    let outcome = select_orientation(&analyses);
    assert_eq!(outcome.winning_angle, 180);
    assert_eq!(outcome.winning_score, 2);
}

#[test]
fn select_tie_goes_to_first_angle() {
    // The same recognizable output at 0 and at 270: the ascending order
    // makes 0 the first seen, and strict comparison keeps it.
    let good = "単語\t名詞\nです\t助動詞\nEOS";
    let analyses = vec![chars(good), chars("EOS"), chars("EOS"), chars(good)];
    let outcome = select_orientation(&analyses);
    assert_eq!(outcome.winning_angle, 0);
    assert_eq!(outcome.winning_score, 2);
}

#[test]
fn select_winner_is_from_candidate_set() {
    let analyses = vec![
        chars("aa\tX\nEOS"),
        chars("bb\tX\ncc\tX\nEOS"),
        chars("dd\tX\nEOS"),
        chars("ee\tX\nff\tX\ngg\tX\nEOS"),
    ];
    let outcome = select_orientation(&analyses);
    assert!([0, 90, 180, 270].contains(&outcome.winning_angle));
    assert_eq!(outcome.winning_angle, 270);
    assert_eq!(outcome.winning_score, 3);
}

#[test]
fn select_records_every_candidate() {
    let analyses = vec![
        chars("aa\tX\nEOS"),
        chars("EOS"),
        chars("bb\tX\ncc\tX\nEOS"),
        chars("d\tX\nEOS"),
    ];
    let outcome = select_orientation(&analyses);
    assert_eq!(outcome.candidates.len(), 4);
    let angles: Vec<u32> = outcome.candidates.iter().map(|c| c.angle).collect();
    assert_eq!(angles, vec![0, 90, 180, 270]);
    let scores: Vec<usize> = outcome.candidates.iter().map(|c| c.score).collect();
    assert_eq!(scores, vec![1, 0, 2, 0]);
    for (c, a) in outcome.candidates.iter().zip(analyses.iter()) {
        assert_eq!(&c.analysis, a);
    }
}

#[test]
fn select_runs_are_deterministic() {
    let analyses = vec![
        chars("aa\tX\nEOS"),
        chars("bb\tX\nEOS"),
        chars("EOS"),
        chars("cc\tX\ndd\tX\nEOS"),
    ];
    let first = select_orientation(&analyses);
    let second = select_orientation(&analyses);
    assert_eq!(first.winning_angle, second.winning_angle);
    assert_eq!(first.winning_score, second.winning_score);
}

#[test]
fn rotate_codes_map_to_ascending_angles() {
    assert_eq!(rotate_code_to_angle_int(NO_ROTATE), 0);
    assert_eq!(rotate_code_to_angle_int(CODE_ROTATE_90_CLOCKWISE), 90);
    assert_eq!(rotate_code_to_angle_int(CODE_ROTATE_180), 180);
    assert_eq!(rotate_code_to_angle_int(CODE_ROTATE_90_COUNTERCLOCKWISE), 270);
}
