use soundpad_remote_client::client::Client;
use soundpad_remote_client::connection::{Channel, Connection};
use soundpad_remote_client::play::{find_sound, play, to_lower};
use soundpad_remote_client::soundlist::{Date, Sound};

fn sound(index: u64, title: &str, duration: u64) -> Sound {
    Sound {
        index,
        title: title.as_bytes().to_vec(),
        url: b"x.mp3".to_vec(),
        duration,
        artist: None,
        added_on: Date { year: 2022, month: 11, day: 27 },
        last_played_on: Date { year: 2022, month: 11, day: 27 },
        play_count: 0,
    }
}

#[test]
fn lowering_folds_only_ascii_capitals() {
    assert_eq!(b"ba dum tss!".to_vec(), to_lower(b"Ba DUM tss!"));
}

#[test]
fn words_match_titles_without_regard_to_case() {
    let sounds = vec![sound(1, "Ba Dum Tss", 2), sound(2, "Firework", 2)];
    assert_eq!(Some(0), find_sound(&sounds, b"DUM"));
    assert_eq!(Some(1), find_sound(&sounds, b"fire"));
    assert_eq!(None, find_sound(&sounds, b"cue"));
}

#[test]
fn the_first_matching_sound_wins() {
    let sounds = vec![sound(1, "alpha one", 2), sound(2, "alpha two", 2)];
    assert_eq!(Some(0), find_sound(&sounds, b"alpha"));
}

#[test]
fn a_message_plays_each_matched_word_in_order() {
    let sounds = vec![sound(1, "ba dum tss", 1), sound(2, "firework", 1)];
    let words = vec![b"firework".to_vec(), b"nothing".to_vec(), b"dum".to_vec()];
    let replies = vec![b"R-200".to_vec(), b"R-200".to_vec()];
    let mut conn = Connection::over(Channel::of_script(replies, vec![]));
    let client = Client { debounce: 0 };
    assert_eq!(Ok(()), play(&words, &sounds, &client, &mut conn));
    assert_eq!(
        "DoPlaySound(2)DoPlaySound(1)".as_bytes(),
        conn.channel.wire.as_slice()
    );
}

#[test]
fn an_empty_message_plays_nothing() {
    let sounds = vec![sound(1, "ba dum tss", 1)];
    let words: Vec<Vec<u8>> = Vec::new();
    let mut conn = Connection::over(Channel::of_script(vec![], vec![]));
    let client = Client { debounce: 0 };
    assert_eq!(Ok(()), play(&words, &sounds, &client, &mut conn));
    assert_eq!(0, conn.channel.wire.len());
}
