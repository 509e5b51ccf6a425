//! A personal package manager for fonts: the rules by which a descriptor is
//! resolved to a download, checked, staged and installed.
pub mod action;
pub mod actions;
pub mod args;
pub mod bar;
pub mod checksum;
pub mod config;
pub mod encoding;
pub mod error;
pub mod file_action;
pub mod font;
pub mod font_page;
pub mod installed;
pub mod installer;
pub mod numbers;
pub mod options;
pub mod ordered;
pub mod paths;
pub mod source;
pub mod stage;
pub mod text;
pub mod wildcard_laws;
pub mod wildcards;

use vstd::prelude::*;

verus! {

/// What an answer to a question of the program means: `true` for yes, `false`
/// for no, and nothing for anything else. An answer ends with the end of its
/// line; capital letters count as small ones.
pub open spec fn answer_of(input: Seq<char>) -> Option<bool> {
    let answer = crate::text::lowered(input);
    if answer == "y\n"@ || answer == "yes\n"@ || answer == "yabadabadoo\n"@ {
        Some(true)
    } else if answer == "n\n"@ || answer == "no\n"@ || answer == "nope\n"@ {
        Some(false)
    } else {
        None
    }
}

/// Answers a question of the program: with the answer that was given
/// beforehand, if one was; else with what `input` means. Where it means
/// nothing the question has to be asked again.
#[must_use]
pub fn user_prompt(given: Option<bool>, input: &str) -> (r: Option<bool>)
    ensures
        r == match given {
            Some(answer) => Some(answer),
            None => answer_of(input@),
        },
{
    match given {
        Some(answer) => Some(answer),
        None => {
            let answer = crate::text::lower_text(input);
            let answer = answer.as_str();
            if crate::text::same_text(answer, "y\n") || crate::text::same_text(answer, "yes\n")
                || crate::text::same_text(answer, "yabadabadoo\n") {
                Some(true)
            } else if crate::text::same_text(answer, "n\n") || crate::text::same_text(
                answer,
                "no\n",
            ) || crate::text::same_text(answer, "nope\n") {
                Some(false)
            } else {
                None
            }
        },
    }
}

} // verus!
