use soundpad_remote_client::soundlist::{Date, Sound, SoundList};

const MYLIST: &str = r#"<?xml version="1.0" encoding="UTF-8"?>
<Soundlist>
  <Sound index="1" url="O:\SteamLibrary\steamapps\common\Soundpad\sounds\ba dum tss.mp3" artist="" title="ba dum tss" duration="0:02" addedOn="2022-11-27" lastPlayedOn="2022-11-27" playCount="15"/>
  <Sound index="2" url="O:\SteamLibrary\steamapps\common\Soundpad\sounds\firework.mp3" artist="" title="firework" duration="0:02" addedOn="2022-11-27" lastPlayedOn="2022-11-27" playCount="1"/>
  <Sound index="3" url="O:\SteamLibrary\steamapps\common\Soundpad\sounds\cue.mp3" artist="" title="cue" duration="0:03" addedOn="2022-11-27" lastPlayedOn="2022-11-27" playCount="9"/>
  <Sound index="4" url="O:\SteamLibrary\steamapps\common\Soundpad\sounds\scream.mp3" artist="" title="scream" duration="0:03" addedOn="2022-11-27" lastPlayedOn="2022-11-27" playCount="1"/>
</Soundlist>"#;

fn get_sounds() -> Vec<Sound> {
    let deserialized: SoundList = SoundList::from_str(MYLIST.as_bytes()).unwrap();
    deserialized.sounds
}

#[test]
fn title_field() {
    let sounds = get_sounds();
    assert_eq!("cue".as_bytes(), sounds[2].title.as_slice());
}

#[test]
fn date_field() {
    let sounds = get_sounds();
    assert_eq!(
        Date::from_calendar_date(2022, 11, 27).unwrap(),
        sounds[3].last_played_on
    )
}

#[test]
fn duration_field() {
    let sounds = get_sounds();
    assert_eq!(3, sounds[3].duration)
}

#[test]
fn every_entry_read() {
    let sounds = get_sounds();
    assert_eq!(4, sounds.len());
    assert_eq!(1, sounds[0].index);
    assert_eq!(15, sounds[0].play_count);
    assert_eq!(None, sounds[0].artist);
    assert_eq!(
        r"O:\SteamLibrary\steamapps\common\Soundpad\sounds\cue.mp3".as_bytes(),
        sounds[2].url.as_slice()
    );
}

#[test]
fn malformed_entry_fails_the_listing() {
    let listing = r#"<Soundlist><Sound index="nope" url="a" artist="" title="t" duration="0:02" addedOn="2022-11-27" lastPlayedOn="2022-11-27" playCount="1"/></Soundlist>"#;
    assert!(SoundList::from_str(listing.as_bytes()).is_err());
}

#[test]
fn missing_attribute_fails_the_listing() {
    let listing = r#"<Soundlist><Sound index="1" artist="" title="t" duration="0:02" addedOn="2022-11-27" lastPlayedOn="2022-11-27" playCount="1"/></Soundlist>"#;
    assert!(SoundList::from_str(listing.as_bytes()).is_err());
}

#[test]
fn empty_listing_has_no_sounds() {
    let listing = "<Soundlist></Soundlist>";
    assert_eq!(0, SoundList::from_str(listing.as_bytes()).unwrap().sounds.len());
}

#[test]
fn artist_kept_when_not_empty() {
    let listing = r#"<Sound index="1" url="a" artist="someone" title="t" duration="0:02" addedOn="2022-11-27" lastPlayedOn="2022-11-27" playCount="1"/>"#;
    let sounds = SoundList::from_str(listing.as_bytes()).unwrap().sounds;
    assert_eq!(Some("someone".as_bytes().to_vec()), sounds[0].artist);
}

#[test]
fn durations_with_hours() {
    let listing = r#"<Sound index="1" url="a" artist="" title="t" duration="1:30:05" addedOn="2022-11-27" lastPlayedOn="2022-11-27" playCount="1"/>"#;
    let sounds = SoundList::from_str(listing.as_bytes()).unwrap().sounds;
    assert_eq!(3600 + 30 * 60 + 5, sounds[0].duration);
}

#[test]
fn unreadable_duration_counts_as_zero() {
    let listing = r#"<Sound index="1" url="a" artist="" title="t" duration="soon" addedOn="2022-11-27" lastPlayedOn="2022-11-27" playCount="1"/>"#;
    let sounds = SoundList::from_str(listing.as_bytes()).unwrap().sounds;
    assert_eq!(0, sounds[0].duration);
}

#[test]
fn bad_date_fails_the_listing() {
    let listing = r#"<Sound index="1" url="a" artist="" title="t" duration="0:02" addedOn="2022-02-30" lastPlayedOn="2022-11-27" playCount="1"/>"#;
    assert!(SoundList::from_str(listing.as_bytes()).is_err());
}

#[test]
fn leap_day_dates() {
    assert_eq!(
        Some(Date { year: 2024, month: 2, day: 29 }),
        Date::from_calendar_date(2024, 2, 29)
    );
    assert_eq!(None, Date::from_calendar_date(2023, 2, 29));
    assert_eq!(None, Date::from_calendar_date(2100, 2, 29));
    assert_eq!(
        Some(Date { year: 2000, month: 2, day: 29 }),
        Date::from_calendar_date(2000, 2, 29)
    );
}
