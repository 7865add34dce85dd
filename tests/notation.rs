use wavtone::octave::{note_samples, parse_note, read, DecodeError, Note, Pitch};

fn note(length: u32, pitch: Pitch) -> Note {
    Note { length, pitch }
}

#[test]
fn garbage() {
    assert_eq!(read("FG"), Err(DecodeError::InvalidOffset));
}

#[test]
fn no_n() {
    assert_eq!(read("1"), Err(DecodeError::UnexpectedEnd));
}

#[test]
fn empty_string() {
    assert_eq!(read(""), Ok(vec![]));
}

#[test]
fn one_and_a_half_notes() {
    assert_eq!(read("101"), Err(DecodeError::UnexpectedEnd));
}

#[test]
fn weird_sign() {
    assert_eq!(read("1-"), Err(DecodeError::UnexpectedEnd));
}

#[test]
fn one_note() {
    assert_eq!(read("10"), Ok(vec![note(1, Pitch::Offset(0))]));
    assert_eq!(read("1-3"), Ok(vec![note(1, Pitch::Offset(-3))]));
    assert_eq!(read("FF"), Ok(vec![note(15, Pitch::Offset(15))]));
    assert_eq!(read("F-F"), Ok(vec![note(15, Pitch::Offset(-15))]));
}

#[test]
fn silence() {
    assert_eq!(read("1_"), Ok(vec![note(1, Pitch::Silence)]));
    assert_eq!(read("1-_"), Ok(vec![note(1, Pitch::Silence)]));
}

#[test]
fn multiple_notes() {
    assert_eq!(
        read("101-1121-3"),
        Ok(vec![
            note(1, Pitch::Offset(0)),
            note(1, Pitch::Offset(-1)),
            note(1, Pitch::Offset(2)),
            note(1, Pitch::Offset(-3)),
        ])
    );
}

#[test]
fn invalid_length_digit() {
    assert_eq!(read("G0"), Err(DecodeError::InvalidLength));
    assert_eq!(read("10G0"), Err(DecodeError::InvalidLength));
}

#[test]
fn first_error_wins() {
    assert_eq!(read("1Z1"), Err(DecodeError::InvalidOffset));
    assert_eq!(read("10-"), Err(DecodeError::UnexpectedEnd));
}

#[test]
fn hex_letters_in_either_case() {
    assert_eq!(read("1C"), Ok(vec![note(1, Pitch::Offset(12))]));
    assert_eq!(read("1-C"), Ok(vec![note(1, Pitch::Offset(-12))]));
    assert_eq!(read("ac"), Ok(vec![note(10, Pitch::Offset(12))]));
    assert_eq!(read("00"), Ok(vec![note(0, Pitch::Offset(0))]));
}

#[test]
fn one_note_per_cluster() {
    let notes = read("313-333528_52313-13-3508_51").unwrap();
    assert_eq!(notes.len(), 12);
    assert_eq!(notes[4], note(8, Pitch::Silence));
    assert_eq!(notes[7], note(3, Pitch::Offset(-1)));
}

#[test]
fn parse_note_fields() {
    assert_eq!(parse_note(['2', '-', '5']), Ok(note(2, Pitch::Offset(-5))));
    assert_eq!(parse_note(['2', ' ', 'b']), Ok(note(2, Pitch::Offset(11))));
    assert_eq!(parse_note(['2', '-', '_']), Ok(note(2, Pitch::Silence)));
    assert_eq!(parse_note(['x', ' ', '1']), Err(DecodeError::InvalidLength));
    assert_eq!(parse_note(['1', ' ', '-']), Err(DecodeError::InvalidOffset));
}

#[test]
fn note_length_in_seconds_at_tempo_120() {
    // one measure is two seconds
    assert_eq!(note_samples(120, 1, 44100), 88200);
    assert_eq!(note_samples(120, 2, 44100), 44100);
    assert_eq!(note_samples(120, 0, 44100), 176400);
    assert_eq!(note_samples(120, 15, 44100), 5);
}

#[test]
fn note_length_is_rounded() {
    // 21168000 / 744 = 28451.61...
    assert_eq!(note_samples(93, 3, 44100), 28452);
    // 21168000 / (93 * 4) = 56903.22...
    assert_eq!(note_samples(93, 2, 44100), 56903);
    // 480 / 32 = 15 exactly, 480 / 64 = 7.5 rounds up
    assert_eq!(note_samples(1, 5, 1), 15);
    assert_eq!(note_samples(1, 6, 1), 8);
}
