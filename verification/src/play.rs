//! Playing sounds by spoken words: match each word of a message against
//! the catalog titles, case-insensitively, and play what matches.

use vstd::prelude::*;
use vstd::slice::slice_subrange;

use crate::ascii::has_prefix;
use crate::client::{spec_play_payload, Client, Error};
use crate::connection::Connection;
use crate::soundlist::{occurs_at, Sound, SoundV};

verus! {

/// A byte with any ASCII capital letter folded to its small form.
pub open spec fn lower_byte(x: u8) -> u8 {
    if 65 <= x <= 90 {
        (x + 32) as u8
    } else {
        x
    }
}

/// The text with every ASCII capital letter folded.
pub open spec fn spec_to_lower(b: Seq<u8>) -> Seq<u8> {
    b.map_values(|x: u8| lower_byte(x))
}

/// Fold the ASCII capital letters of a text.
pub fn to_lower(b: &[u8]) -> (r: Vec<u8>)
    ensures
        r@ == spec_to_lower(b@),
{
    let n: usize = b.len();
    let mut r: Vec<u8> = Vec::new();
    let mut i: usize = 0;
    while i < n
        invariant
            i <= n == b@.len(),
            r@ == spec_to_lower(b@.take(i as int)),
        decreases n - i,
    {
        let c = b[i];
        if c >= 65 && c <= 90 {
            r.push(c + 32);
        } else {
            r.push(c);
        }
        proof {
            assert(r@ =~= spec_to_lower(b@.take(i as int + 1))) by {
                assert(b@.take(i as int + 1).drop_last() =~= b@.take(i as int));
                assert(spec_to_lower(b@.take(i as int + 1)) =~= spec_to_lower(
                    b@.take(i as int),
                ).push(lower_byte(b@[i as int])));
            }
        }
        i += 1;
    }
    proof {
        assert(b@.take(n as int) =~= b@);
    }
    r
}

/// Does `needle` occur somewhere in `haystack`?
pub open spec fn is_substring(haystack: Seq<u8>, needle: Seq<u8>) -> bool {
    exists|k: int| occurs_at(haystack, needle, k)
}

/// Search `haystack` for `needle`.
pub fn contains_sub(haystack: &[u8], needle: &[u8]) -> (r: bool)
    ensures
        r == is_substring(haystack@, needle@),
{
    let n: usize = haystack.len();
    let m: usize = needle.len();
    if m == 0 {
        proof {
            assert(haystack@.subrange(0, 0) =~= needle@);
            assert(occurs_at(haystack@, needle@, 0));
        }
        return true;
    }
    if m > n {
        proof {
            assert forall|k: int| !occurs_at(haystack@, needle@, k) by {
                if 0 <= k && k + needle@.len() <= haystack@.len() {
                    assert(needle@.len() <= haystack@.len());
                }
            }
        }
        return false;
    }
    let mut j: usize = 0;
    while j <= n - m
        invariant
            1 <= m <= n == haystack@.len(),
            m == needle@.len(),
            j <= n - m + 1,
            forall|k: int| 0 <= k < j ==> !occurs_at(haystack@, needle@, k),
        decreases n - m + 1 - j,
    {
        let window = slice_subrange(haystack, j, n);
        if has_prefix(window, needle) {
            proof {
                assert(haystack@.subrange(j as int, j + m as int) =~= haystack@.skip(
                    j as int,
                ).take(m as int));
                assert(occurs_at(haystack@, needle@, j as int));
            }
            return true;
        }
        proof {
            assert(haystack@.subrange(j as int, j + m as int) =~= haystack@.skip(j as int).take(
                m as int,
            ));
        }
        j += 1;
    }
    proof {
        assert forall|k: int| !occurs_at(haystack@, needle@, k) by {
            if 0 <= k < j {
            } else if k >= j {
                assert(k + needle@.len() > haystack@.len());
            }
        }
    }
    false
}

/// Does the word name the sound? The word must occur in the title, both
/// read without regard to ASCII case.
pub open spec fn spec_word_matches(title: Seq<u8>, word: Seq<u8>) -> bool {
    is_substring(spec_to_lower(title), spec_to_lower(word))
}

/// The first sound of the catalog whose title the word names.
pub open spec fn spec_find_sound(sounds: Seq<SoundV>, word: Seq<u8>) -> Option<int>
    decreases sounds.len(),
{
    if sounds.len() == 0 {
        None
    } else if spec_word_matches(sounds[0].title, word) {
        Some(0)
    } else {
        match spec_find_sound(sounds.skip(1), word) {
            Some(j) => Some(j + 1),
            None => None,
        }
    }
}

proof fn lemma_find_sound_at(sounds: Seq<SoundV>, word: Seq<u8>, i: int)
    requires
        0 <= i < sounds.len(),
        spec_word_matches(sounds[i].title, word),
        forall|j: int| 0 <= j < i ==> !spec_word_matches(#[trigger] sounds[j].title, word),
    ensures
        spec_find_sound(sounds, word) == Some(i),
    decreases i,
{
    if i > 0 {
        assert(!spec_word_matches(sounds[0].title, word));
        assert(sounds.skip(1)[i - 1] == sounds[i]);
        assert(forall|j: int|
            0 <= j < i - 1 ==> #[trigger] sounds.skip(1)[j] == sounds[j + 1]
                && !spec_word_matches(sounds[j + 1].title, word));
        lemma_find_sound_at(sounds.skip(1), word, i - 1);
    }
}

proof fn lemma_find_sound_none(sounds: Seq<SoundV>, word: Seq<u8>)
    requires
        forall|j: int| 0 <= j < sounds.len() ==> !spec_word_matches(#[trigger] sounds[j].title, word),
    ensures
        spec_find_sound(sounds, word) is None,
    decreases sounds.len(),
{
    if sounds.len() > 0 {
        assert(forall|j: int|
            0 <= j < sounds.len() - 1 ==> #[trigger] sounds.skip(1)[j] == sounds[j + 1]
                && !spec_word_matches(sounds[j + 1].title, word));
        lemma_find_sound_none(sounds.skip(1), word);
    }
}

/// Find the first sound the word names.
pub fn find_sound(sounds: &Vec<Sound>, word: &[u8]) -> (r: Option<usize>)
    ensures
        match r {
            Some(i) => spec_find_sound(sounds@.map_values(|s: Sound| s@), word@) == Some(i as int)
                && i < sounds@.len(),
            None => spec_find_sound(sounds@.map_values(|s: Sound| s@), word@) is None,
        },
{
    let ghost sv = sounds@.map_values(|s: Sound| s@);
    let needle = to_lower(word);
    let n: usize = sounds.len();
    let mut i: usize = 0;
    while i < n
        invariant
            i <= n == sounds@.len(),
            sv == sounds@.map_values(|s: Sound| s@),
            needle@ == spec_to_lower(word@),
            forall|j: int| 0 <= j < i ==> !spec_word_matches(#[trigger] sv[j].title, word@),
        decreases n - i,
    {
        let lowered = to_lower(sounds[i].title.as_slice());
        if contains_sub(lowered.as_slice(), needle.as_slice()) {
            proof {
                assert(sv[i as int].title == sounds@[i as int].title@);
                lemma_find_sound_at(sv, word@, i as int);
            }
            return Some(i);
        }
        proof {
            assert(sv[i as int].title == sounds@[i as int].title@);
        }
        i += 1;
    }
    proof {
        lemma_find_sound_none(sv, word@);
    }
    None
}

/// The byte stream the channel sees when a message is played against a
/// catalog: one play payload for each word that names a sound, in the
/// order of the words; a word naming nothing contributes nothing.
pub open spec fn spec_play_stream(words: Seq<Seq<u8>>, sounds: Seq<SoundV>) -> Seq<u8>
    decreases words.len(),
{
    if words.len() == 0 {
        Seq::<u8>::empty()
    } else {
        spec_play_stream(words.drop_last(), sounds) + match spec_find_sound(
            sounds,
            words.last(),
        ) {
            Some(i) => spec_play_payload(sounds[i].index),
            None => Seq::<u8>::empty(),
        }
    }
}

/// Play, in order, the first matching sound for every word of the
/// message; words that name nothing are skipped. Stops at the first
/// failed play. On a channel with no injected failure, a fully
/// successful run puts exactly the matched play payloads on the wire,
/// in message order.
pub fn play(message: &Vec<Vec<u8>>, sounds: &Vec<Sound>, client: &Client, conn: &mut Connection)
    -> (r: Result<(), Error>)
    requires
        old(conn).wf(),
    ensures
        final(conn).wf(),
        old(conn).channel.clean() ==> final(conn).channel.clean(),
        r is Ok && old(conn).channel.clean() ==> final(conn).channel.wire@ == old(
            conn,
        ).channel.wire@ + spec_play_stream(
            message@.map_values(|w: Vec<u8>| w@),
            sounds@.map_values(|s: Sound| s@),
        ),
{
    let ghost words = message@.map_values(|w: Vec<u8>| w@);
    let ghost sv = sounds@.map_values(|s: Sound| s@);
    let n: usize = message.len();
    let mut i: usize = 0;
    while i < n
        invariant
            i <= n == message@.len(),
            words == message@.map_values(|w: Vec<u8>| w@),
            sv == sounds@.map_values(|s: Sound| s@),
            conn.wf(),
            old(conn).channel.clean() ==> conn.channel.clean() && conn.channel.wire@ == old(
                conn,
            ).channel.wire@ + spec_play_stream(words.take(i as int), sv),
        decreases n - i,
    {
        match find_sound(sounds, message[i].as_slice()) {
            Some(idx) => {
                match client.play_sound(conn, &sounds[idx]) {
                    Ok(()) => {},
                    Err(e) => {
                        return Err(e);
                    },
                }
                proof {
                    assert(sv[idx as int].index == sounds@[idx as int].index);
                }
            },
            None => {},
        }
        proof {
            if old(conn).channel.clean() {
                assert(words.take(i as int + 1).drop_last() =~= words.take(i as int));
                assert(words.take(i as int + 1).last() == words[i as int]);
                assert(words[i as int] == message@[i as int]@);
                assert(conn.channel.wire@ =~= old(conn).channel.wire@ + spec_play_stream(
                    words.take(i as int + 1),
                    sv,
                ));
            }
        }
        i += 1;
    }
    proof {
        assert(words.take(n as int) =~= words);
    }
    Ok(())
}

} // verus!
