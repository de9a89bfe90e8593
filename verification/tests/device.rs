use anyhow::{Context, Result};
use tincan::audio::device::{device_report, missing_note, open_wanted, pick, recover_side, DeviceListing, Recovered, Side, Wanted};

/// Stands in for the sound card: `present` is what is plugged in, and `None` asks for
/// the default the way `switch_*` does.
fn hardware<'a>(present: &'a [&'a str]) -> impl Fn(Option<&str>) -> Result<String> + 'a {
    move |wanted| match wanted {
        None => present.first().map(|name| name.to_string()).context("no default device"),
        Some(name) => present
            .iter()
            .find(|have| have.to_lowercase().contains(&name.to_lowercase()))
            .map(|have| have.to_string())
            .with_context(|| format!("no device named '{name}'")),
    }
}

#[test]
fn a_device_typed_on_the_command_line_outranks_one_remembered() {
    assert_eq!(Wanted::pick(Some("QCY".into()), Some("MacBook".into())), Wanted::Named("QCY".into()));
    assert_eq!(Wanted::pick(None, Some("MacBook".into())), Wanted::Remembered("MacBook".into()));
    assert_eq!(Wanted::pick(None, None), Wanted::Default);
}

#[test]
fn a_remembered_device_that_is_unplugged_falls_back_to_the_default() {
    let devices = hardware(&["MacBook Pro Microphone"]);
    let (opened, missing) = open_wanted(&Wanted::Remembered("QCY H4".into()), &devices)
        .expect("a missing preference must not be fatal");

    assert_eq!(opened, "MacBook Pro Microphone");
    assert_eq!(missing.as_deref(), Some("QCY H4"), "and the room has to be told why");
}

#[test]
fn a_device_named_on_the_command_line_is_an_error_when_it_is_missing() {
    let devices = hardware(&["MacBook Pro Microphone"]);
    assert!(
        open_wanted(&Wanted::Named("QCY H4".into()), &devices).is_err(),
        "the user typed it, so silently using something else would be a lie"
    );
}

#[test]
fn a_remembered_device_that_is_here_is_simply_used() {
    let devices = hardware(&["MacBook Pro Microphone", "QCY H4"]);
    let (opened, missing) = open_wanted(&Wanted::Remembered("QCY".into()), &devices).unwrap();
    assert_eq!(opened, "QCY H4");
    assert_eq!(missing, None, "nothing went wrong, so there is nothing to report");
}

#[test]
fn with_no_preference_at_all_the_default_is_opened() {
    let devices = hardware(&["MacBook Pro Microphone"]);
    let (opened, missing) = open_wanted(&Wanted::Default, &devices).unwrap();
    assert_eq!(opened, "MacBook Pro Microphone");
    assert_eq!(missing, None);
}

#[test]
fn a_machine_with_no_devices_at_all_still_fails() {
    let devices = hardware(&[]);
    assert!(open_wanted(&Wanted::Remembered("QCY H4".into()), &devices).is_err());
    assert!(open_wanted(&Wanted::Default, &devices).is_err());
}

// ── Further cases ────────────────────────────────────────────────────────────────

#[test]
fn a_named_device_that_is_here_is_opened() {
    let devices = hardware(&["MacBook Pro Microphone", "QCY H4"]);
    let (opened, missing) = open_wanted(&Wanted::Named("qcy".into()), &devices).unwrap();
    assert_eq!(opened, "QCY H4");
    assert_eq!(missing, None);
}

#[test]
fn a_lost_stream_comes_back_where_it_was_or_on_the_default() {
    let here = hardware(&["Built-in", "USB Headset"]);
    let back = recover_side(Side::Speaker, Some("USB Headset".into()), &here);
    assert_eq!(back, Recovered { side: Side::Speaker, device: Some("USB Headset".into()) });

    let gone = hardware(&["Built-in"]);
    let fallback = recover_side(Side::Microphone, Some("USB Headset".into()), &gone);
    assert_eq!(fallback, Recovered { side: Side::Microphone, device: Some("Built-in".into()) });

    let nothing = hardware(&[]);
    let dead = recover_side(Side::Microphone, None, &nothing);
    assert_eq!(dead, Recovered { side: Side::Microphone, device: None });
}

#[test]
fn picking_is_case_insensitive_and_partial() {
    let names = vec![None, Some("MacBook Pro Microphone".to_string()), Some("QCY H4".to_string())];
    assert_eq!(pick(&names, "qcy"), Some(2));
    assert_eq!(pick(&names, "PRO"), Some(1));
    assert_eq!(pick(&names, ""), Some(1), "an unreadable name never matches, even the empty search");
    assert_eq!(pick(&names, "airpods"), None);
}

#[test]
fn a_missing_device_is_explained() {
    assert_eq!(missing_note("QCY H4", Some("Built-in")), "QCY H4 is not here — using Built-in");
    assert_eq!(missing_note("QCY H4", None), "QCY H4 is not here");
}

#[test]
fn sides_name_themselves() {
    assert_eq!(Side::Microphone.name(), "microphone");
    assert_eq!(Side::Speaker.name(), "speaker");
}

#[test]
fn the_device_list_sets_name_rate_and_default_in_columns() {
    let inputs = vec![
        DeviceListing { name: Some("Built-in Microphone".into()), format: Some((48000, 1)) },
        DeviceListing { name: None, format: None },
    ];
    let outputs = vec![DeviceListing { name: Some("Speakers".into()), format: Some((44100, 2)) }];
    let report = device_report(&Some("Built-in Microphone".into()), &inputs, &None, &outputs);

    let lines: Vec<&str> = report.lines().collect();
    assert_eq!(lines[0], "");
    assert_eq!(lines[1], "  MICROPHONES");
    assert_eq!(lines[2], format!("    {:<38}  {:<16}  default", "Built-in Microphone", "48 kHz · 1 ch"));
    assert_eq!(lines[3], format!("    {:<38}  {:<16}  ", "(unnamed)", "reports no format"));
    assert_eq!(lines[5], "  SPEAKERS");
    assert_eq!(lines[6], format!("    {:<38}  {:<16}  ", "Speakers", "44 kHz · 2 ch"));
    assert!(report.ends_with("Every rate is resampled — 16 kHz Bluetooth headsets included.\n"));
}
