use vstd::prelude::*;
use crate::chars::{is_space, lower_char, push_char, space, to_lower};

verus! {

/// A diagnostic: its kind, and a message for the author of the program.
pub struct Error {
    error_type: String,
    error_message: String,
}

impl View for Error {
    type V = (Seq<char>, Seq<char>);

    closed spec fn view(&self) -> (Seq<char>, Seq<char>) {
        (self.error_type@, self.error_message@)
    }
}

impl Error {
    pub fn error_type(&self) -> (r: &String)
        ensures
            r@ == self@.0,
    {
        &self.error_type
    }

    pub fn error_message(&self) -> (r: &String)
        ensures
            r@ == self@.1,
    {
        &self.error_message
    }

    /// The kind, a line break, and the message.
    pub fn get_error(&self) -> (r: String)
        ensures
            r@ == self@.0 + "\n"@ + self@.1,
    {
        let mut r = self.error_type.clone();
        r.append("\n");
        r.append(self.error_message.as_str());
        r
    }
}

pub open spec fn unfinished_thought_model() -> (Seq<char>, Seq<char>) {
    (
        "Unfinished Thought Error"@,
        "A good story deserves an ending, and so does your statement! Make sure you to conclude all your thoughts with a period, question mark, or exclamation mark."@,
    )
}

pub open spec fn pronoun_no_antecedent_model() -> (Seq<char>, Seq<char>) {
    (
        "Lonely Pronoun Error"@,
        "Oh, the tragedy that has befallen us! A forlorn pronoun meanders aimlessly, searching for its lost noun companion. Alas, it finds itself adrift in a sea of ambiguity, yearning for connection."@,
    )
}

pub open spec fn label_not_found_model() -> (Seq<char>, Seq<char>) {
    (
        "Place Not Found Error"@,
        "One of your characters, in a wave of fiery determination and unyielding defiance, attempted to go to a place that doesn't exist. You hear their final screams as they get consumed by nothingness."@,
    )
}

pub open spec fn input_error_model() -> (Seq<char>, Seq<char>) {
    (
        "Unruly Spectator Error"@,
        "A mischievous sprite sneaked into the narrative! It's tampering with your input. Halt the mischief by providing valid data or use a charm to banish the sprite."@,
    )
}

pub open spec fn output_error_model() -> (Seq<char>, Seq<char>) {
    (
        "Vanishing Ink Error"@,
        "Your message was etched onto the fabric of reality, but the ink quickly fades into the void. Fear not, for proper encoding and clarity will grant permanence to your words."@,
    )
}

/// A sentence was not concluded with a period, question mark or exclamation mark.
pub fn unfinished_thought_error() -> (r: Error)
    ensures
        r@ == unfinished_thought_model(),
{
    Error {
        error_type: String::from_str("Unfinished Thought Error"),
        error_message: String::from_str(
            "A good story deserves an ending, and so does your statement! Make sure you to conclude all your thoughts with a period, question mark, or exclamation mark.",
        ),
    }
}

/// The source file could not be read.
pub fn file_not_found_error() -> (r: Error)
    ensures
        r@ == (
            "Plot Not Found Error"@,
            "In the vast library of tales, you rummage through the bookshelves but fail to find the chapter you seek. Perhaps it slipped through the cracks of existence or became entangled in the quantum flux. Seek it elsewhere, fearless adventurer, for it eludes us here."@,
        ),
{
    Error {
        error_type: String::from_str("Plot Not Found Error"),
        error_message: String::from_str(
            "In the vast library of tales, you rummage through the bookshelves but fail to find the chapter you seek. Perhaps it slipped through the cracks of existence or became entangled in the quantum flux. Seek it elsewhere, fearless adventurer, for it eludes us here.",
        ),
    }
}

/// The command line could not be understood.
pub fn illegal_argument_error() -> (r: Error)
    ensures
        r@ == (
            "Enigmatic Whispers Error"@,
            "Listen closely, brave programmer, for the cryptic whispers of your command-line summons are incomprehensible even to the wise compiler. Alas, the words you offer are but echoes of disarray. Invoke your commands with precision to unravel the mysteries your story can offer."@,
        ),
{
    Error {
        error_type: String::from_str("Enigmatic Whispers Error"),
        error_message: String::from_str(
            "Listen closely, brave programmer, for the cryptic whispers of your command-line summons are incomprehensible even to the wise compiler. Alas, the words you offer are but echoes of disarray. Invoke your commands with precision to unravel the mysteries your story can offer.",
        ),
    }
}

/// A pronoun was used before any variable it could stand for.
pub fn pronoun_no_antecedent_error() -> (r: Error)
    ensures
        r@ == pronoun_no_antecedent_model(),
{
    Error {
        error_type: String::from_str("Lonely Pronoun Error"),
        error_message: String::from_str(
            "Oh, the tragedy that has befallen us! A forlorn pronoun meanders aimlessly, searching for its lost noun companion. Alas, it finds itself adrift in a sea of ambiguity, yearning for connection.",
        ),
    }
}

/// Input could not be read.
pub fn input_error() -> (r: Error)
    ensures
        r@ == input_error_model(),
{
    Error {
        error_type: String::from_str("Unruly Spectator Error"),
        error_message: String::from_str(
            "A mischievous sprite sneaked into the narrative! It's tampering with your input. Halt the mischief by providing valid data or use a charm to banish the sprite.",
        ),
    }
}

/// Output could not be written.
pub fn output_error() -> (r: Error)
    ensures
        r@ == output_error_model(),
{
    Error {
        error_type: String::from_str("Vanishing Ink Error"),
        error_message: String::from_str(
            "Your message was etched onto the fabric of reality, but the ink quickly fades into the void. Fear not, for proper encoding and clarity will grant permanence to your words.",
        ),
    }
}

pub open spec fn variable_not_found_model(variable: Seq<char>) -> (Seq<char>, Seq<char>) {
    (
        "Existential Crisis Error"@,
        "The character "@ + capitalized(variable)
            + " stands in the shadows, uncertain of their identity. Try giving them an introduction before peeking into their world."@,
    )
}

/// A variable was read before it was given a value.
pub fn variable_not_found(variable: String) -> (r: Error)
    ensures
        r@ == variable_not_found_model(variable@),
{
    let mut msg = String::from_str("The character ");
    let name = capitalize_first_letter_of_each_word(variable.as_str());
    msg.append(name.as_str());
    msg.append(
        " stands in the shadows, uncertain of their identity. Try giving them an introduction before peeking into their world.",
    );
    Error { error_type: String::from_str("Existential Crisis Error"), error_message: msg }
}

/// A jump went to a label that does not exist.
pub fn label_not_found() -> (r: Error)
    ensures
        r@ == label_not_found_model(),
{
    Error {
        error_type: String::from_str("Place Not Found Error"),
        error_message: String::from_str(
            "One of your characters, in a wave of fiery determination and unyielding defiance, attempted to go to a place that doesn't exist. You hear their final screams as they get consumed by nothingness.",
        ),
    }
}

pub open spec fn is_ascii_letter(c: char) -> bool {
    ('a' <= c && c <= 'z') || ('A' <= c && c <= 'Z')
}

pub open spec fn upper_char(c: char) -> char {
    if 'a' <= c && c <= 'z' {
        ((c as u32) - 32) as char
    } else {
        c
    }
}

/// The text so far, and whether the next ASCII letter starts a word.
pub open spec fn capitalize_state(s: Seq<char>) -> (Seq<char>, bool)
    decreases s.len(),
{
    if s.len() == 0 {
        (Seq::empty(), true)
    } else {
        let (out, next) = capitalize_state(s.drop_last());
        let c = s.last();
        if is_ascii_letter(c) {
            if next {
                (out.push(upper_char(c)), false)
            } else {
                (out.push(lower_char(c)), false)
            }
        } else {
            (out.push(c), is_space(c))
        }
    }
}

/// `s` with the first ASCII letter of each word upper case and the other
/// ASCII letters lower case; a word starts after white space.
pub open spec fn capitalized(s: Seq<char>) -> Seq<char> {
    capitalize_state(s).0
}

pub fn capitalize_first_letter_of_each_word(input: &str) -> (r: String)
    ensures
        r@ == capitalized(input@),
{
    let mut result = String::new();
    let mut capitalize_next = true;
    let ghost mut seen: Seq<char> = Seq::empty();
    for c in it: input.chars()
        invariant
            it.seq() == input@,
            seen == it.seq().take(it.index() as int),
            (result@, capitalize_next) == capitalize_state(seen),
    {
        proof {
            assert(seen.push(c).drop_last() == seen);
        }
        if ('a' <= c && c <= 'z') || ('A' <= c && c <= 'Z') {
            if capitalize_next {
                let u = if 'a' <= c && c <= 'z' {
                    ((c as u8) - 32) as char
                } else {
                    c
                };
                push_char(&mut result, u);
                capitalize_next = false;
            } else {
                push_char(&mut result, to_lower(c));
            }
        } else {
            push_char(&mut result, c);
            capitalize_next = space(c);
        }
        proof {
            seen = seen.push(c);
            assert(seen == it.seq().take(it.index() as int + 1));
        }
    }
    assert(seen =~= input@);
    result
}

} // verus!
