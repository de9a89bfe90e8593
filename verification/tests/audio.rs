use tincan::audio::{speaker_bus, take_microphone, MicTest, FRAME, TEST_SAMPLES};

#[test]
fn the_test_state_survives_the_shared_number() {
    for test in [MicTest::Off, MicTest::Recording, MicTest::Playing, MicTest::Monitoring] {
        assert_eq!(MicTest::from_bits(test.bits()), test);
    }
    assert_eq!(MicTest::from_bits(200), MicTest::Off);
    assert_eq!(MicTest::default(), MicTest::Off);
}

#[test]
fn only_recording_and_monitoring_listen() {
    assert!(MicTest::Recording.listening());
    assert!(MicTest::Monitoring.listening());
    assert!(!MicTest::Playing.listening());
    assert!(!MicTest::Off.listening());
}

#[test]
fn the_speaker_stays_out_of_it_while_the_microphone_is_recording() {
    let mut speaker: Vec<f32> = Vec::new();
    let mut recorded: Vec<f32> = Vec::new();
    take_microphone(MicTest::Recording, vec![0.5; 100], &mut speaker, &mut recorded);
    assert!(speaker.is_empty());
    assert_eq!(recorded.len(), 100);

    take_microphone(MicTest::Monitoring, vec![0.5; 100], &mut speaker, &mut recorded);
    assert_eq!(speaker.len(), 100, "monitoring goes straight to the speaker");
    assert_eq!(recorded.len(), 100);
}

#[test]
fn a_recording_cannot_grow_past_its_own_length() {
    let mut speaker: Vec<f32> = Vec::new();
    let mut recorded: Vec<f32> = Vec::new();
    for _ in 0..(TEST_SAMPLES / FRAME + 10) {
        take_microphone(MicTest::Recording, vec![0.1; FRAME], &mut speaker, &mut recorded);
    }
    assert_eq!(recorded.len(), TEST_SAMPLES);
}

#[test]
fn a_test_that_is_over_takes_nothing() {
    let mut speaker: Vec<f32> = Vec::new();
    let mut recorded: Vec<f32> = Vec::new();
    take_microphone(MicTest::Off, vec![0.5; 100], &mut speaker, &mut recorded);
    take_microphone(MicTest::Playing, vec![0.5; 100], &mut speaker, &mut recorded);
    assert!(speaker.is_empty() && recorded.is_empty());
}

#[test]
fn deafening_silences_the_room_but_not_the_interface() {
    let room = vec![vec![0.5f32; 4], vec![0.25f32; 4]];
    let interface = vec![0.1f32; 4];
    let shut = speaker_bus(&room, &interface, false);
    assert_eq!(shut.len(), 1);
    assert_eq!(shut[0], &interface[..]);
    let open = speaker_bus(&room, &interface, true);
    assert_eq!(open.len(), 3);
    assert_eq!(open[0], &room[0][..]);
    assert_eq!(open[2], &interface[..]);
}
