//! Letter search for a word-guessing game: find the first position where a
//! guessed letter uncovers a still-hidden character of the secret word.

use vstd::prelude::*;

verus! {

/// Position `j` of the secret word holds `guess_char` and is still hidden
/// (shown as `'-'`) in the guessed word.
pub open spec fn uncovers(
    secret: Seq<char>,
    guessed: Seq<char>,
    guess_char: char,
    j: int,
) -> bool {
    guessed[j] == '-' && secret[j] == guess_char
}

/// The first index where `guess_char` matches a still-hidden character of
/// the secret word, if any.
pub fn find_in_word(
    secret_word_chars: &Vec<char>,
    guessed_word_chars: &Vec<char>,
    guess_char: char,
) -> (r: Option<usize>)
    requires
        secret_word_chars@.len() <= guessed_word_chars@.len(),
    ensures
        match r {
            Some(i) => i < secret_word_chars@.len() && uncovers(
                secret_word_chars@,
                guessed_word_chars@,
                guess_char,
                i as int,
            ) && (forall|j: int|
                0 <= j < i ==> !uncovers(
                    secret_word_chars@,
                    guessed_word_chars@,
                    guess_char,
                    j,
                )),
            None => forall|j: int|
                0 <= j < secret_word_chars@.len() ==> !uncovers(
                    secret_word_chars@,
                    guessed_word_chars@,
                    guess_char,
                    j,
                ),
        },
{
    let mut i: usize = 0;
    while i < secret_word_chars.len()
        invariant
            i <= secret_word_chars@.len(),
            secret_word_chars@.len() <= guessed_word_chars@.len(),
            forall|j: int|
                0 <= j < i ==> !uncovers(
                    secret_word_chars@,
                    guessed_word_chars@,
                    guess_char,
                    j,
                ),
        decreases secret_word_chars@.len() - i,
    {
        if guessed_word_chars[i] == '-' && secret_word_chars[i] == guess_char {
            return Some(i);
        }
        i += 1;
    }
    None
}

} // verus!
