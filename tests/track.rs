use midnote::track::{select_track, Meta, TrackText};

fn name(s: &str) -> TrackText {
    TrackText::Name(s.to_string())
}

fn inst(s: &str) -> TrackText {
    TrackText::Instrument(s.to_string())
}

#[test]
fn track_without_texts_is_unnamed() {
    let m = Meta::from_track(&vec![TrackText::Other, TrackText::Other]);
    assert_eq!(m, Meta { name: None, instrument: None });
    assert_eq!(m.label(), "Unnamed Track");
}

#[test]
fn track_name_and_instrument() {
    let m = Meta::from_track(&vec![TrackText::Other, name("Melody"), inst("Cello")]);
    assert_eq!(m.label(), "Melody (Cello)");
    let m = Meta::from_track(&vec![inst("Flute")]);
    assert_eq!(m.label(), "Unnamed Track (Flute)");
    let m = Meta::from_track(&vec![name("Bass")]);
    assert_eq!(m.label(), "Bass");
}

#[test]
fn later_texts_replace_until_the_pair_is_complete() {
    let m = Meta::from_track(&vec![name("A"), name("B"), inst("Piano"), name("C"), inst("Organ")]);
    assert_eq!(m, Meta { name: Some("B".to_string()), instrument: Some("Piano".to_string()) });
    let m = Meta::from_track(&vec![inst("X"), inst("Y"), name("N"), inst("Z")]);
    assert_eq!(m.label(), "N (Y)");
}

#[test]
fn track_choice_must_be_listed() {
    assert_eq!(select_track(0, 3), Some(0));
    assert_eq!(select_track(2, 3), Some(2));
    assert_eq!(select_track(3, 3), None);
    assert_eq!(select_track(0, 0), None);
}
