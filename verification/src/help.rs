//! The examples section of the help text.

use vstd::prelude::*;
use vstd::string::*;
use crate::text::{join, joined, string_views};

verus! {

/// The escape sequence that switches a style on: `ESC [ code m`.
pub open spec fn style_on(code: Seq<char>) -> Seq<char> {
    "\u{1b}["@ + code + "m"@
}

/// The escape sequence that switches every style off: `ESC [ 0 m`.
pub open spec fn style_off() -> Seq<char> {
    "\u{1b}[0m"@
}

/// The style code of yellow foreground.
pub open spec fn yellow_code() -> Seq<char> {
    "33"@
}

/// The style code of dimmed text.
pub open spec fn dimmed_code() -> Seq<char> {
    "2"@
}

/// `out` is `text` in the style `code`, as a terminal library may hand it
/// back: untouched where styling is switched off, else between the
/// sequence that switches the style on and the one that switches it off.
/// A text that holds an escape character of its own may be altered in
/// between.
pub open spec fn is_styled(out: Seq<char>, text: Seq<char>, code: Seq<char>) -> bool {
    out == text || exists|body: Seq<char>|
        #![auto]
        out == style_on(code) + body + style_off() && (!text.contains('\u{1b}') ==> body == text)
}

/// The second components of the pairs: the command lines.
pub open spec fn commands_of(pairs: Seq<(&'static str, &'static str)>) -> Seq<Seq<char>> {
    pairs.map_values(|p: (&'static str, &'static str)| p.1@)
}

/// The comment line of an example: `# ` and its description.
pub open spec fn note_of(description: Seq<char>) -> Seq<char> {
    "# "@ + description
}

/// A line break followed by the indentation of an example.
pub open spec fn indent() -> Seq<char> {
    "\n    "@
}

/// The gap between two examples: an empty line, then the indentation.
pub open spec fn gap() -> Seq<char> {
    "\n\n    "@
}

/// One example: its note, then its command on an indented line.
pub open spec fn example_blocks(notes: Seq<Seq<char>>, commands: Seq<Seq<char>>) -> Seq<Seq<char>> {
    Seq::new(notes.len(), |i: int| notes[i] + indent() + commands[i])
}

/// The examples section: the heading, then the examples on indented
/// lines, an empty line between neighbours.
pub open spec fn examples_text(
    heading: Seq<char>,
    notes: Seq<Seq<char>>,
    commands: Seq<Seq<char>>,
) -> Seq<char> {
    heading + indent() + joined(example_blocks(notes, commands), gap())
}

/// `colored::Colorize::yellow`, formatted: `text` in yellow. Whether the
/// escape sequences are written depends on the terminal and the
/// environment, so the contract admits both outcomes.
#[verifier::external_body]
pub(crate) fn yellow(text: &str) -> (styled: String)
    ensures
        is_styled(styled@, text@, yellow_code()),
{
    colored::Colorize::yellow(text).to_string()
}

/// `colored::Colorize::dimmed`, formatted: `text` dimmed. Whether the
/// escape sequences are written depends on the terminal and the
/// environment, so the contract admits both outcomes.
#[verifier::external_body]
pub(crate) fn dimmed(text: &str) -> (styled: String)
    ensures
        is_styled(styled@, text@, dimmed_code()),
{
    colored::Colorize::dimmed(text).to_string()
}

/// The styled notes of a list of examples.
pub open spec fn entry_notes(entries: Seq<(String, &'static str)>) -> Seq<Seq<char>> {
    entries.map_values(|e: (String, &'static str)| e.0@)
}

/// The command lines of a list of examples.
pub open spec fn entry_commands(entries: Seq<(String, &'static str)>) -> Seq<Seq<char>> {
    entries.map_values(|e: (String, &'static str)| e.1@)
}

/// Lays out the examples section from a heading and examples whose notes
/// are already styled: the heading, then for each example its note and,
/// on the next line, its command, all indented by four spaces and
/// separated by empty lines.
pub fn layout_examples(heading: &str, entries: &Vec<(String, &'static str)>) -> (help: String)
    ensures
        help@ == examples_text(heading@, entry_notes(entries@), entry_commands(entries@)),
{
    let ghost goal = example_blocks(entry_notes(entries@), entry_commands(entries@));
    let mut blocks: Vec<String> = Vec::new();
    let mut i: usize = 0;
    while i < entries.len()
        invariant
            i <= entries.len(),
            goal == example_blocks(entry_notes(entries@), entry_commands(entries@)),
            string_views(blocks@) == goal.take(i as int),
        decreases entries.len() - i,
    {
        let ghost before = string_views(blocks@);
        let mut block = entries[i].0.clone();
        block.append("\n    ");
        block.append(entries[i].1);
        blocks.push(block);
        proof {
            assert(block@ =~= goal[i as int]);
            assert(before.len() == i);
            assert(string_views(blocks@) =~= goal.take(i + 1));
        }
        i += 1;
    }
    assert(string_views(blocks@) =~= goal);
    let body = join(&blocks, "\n\n    ");
    let mut help = String::from_str(heading);
    help.append("\n    ");
    help.append(body.as_str());
    help
}

/// The examples section of the help text. `pairs` holds, for each
/// example, a description and a command line. The section reads
/// `EXAMPLES:` in yellow, then each example as a dimmed `# description`
/// line followed by the command, indented by four spaces, with an empty
/// line between examples.
pub fn examples(pairs: &[(&'static str, &'static str)]) -> (help: String)
    ensures
        exists|heading: Seq<char>, notes: Seq<Seq<char>>|
            #![auto]
            is_styled(heading, "EXAMPLES:"@, yellow_code()) && notes.len() == pairs@.len() && (forall|
                i: int,
            |
                0 <= i < notes.len() ==> is_styled(
                    #[trigger] notes[i],
                    note_of(pairs@[i].0@),
                    dimmed_code(),
                )) && help@ == examples_text(heading, notes, commands_of(pairs@)),
{
    let heading = yellow("EXAMPLES:");
    let mut entries: Vec<(String, &'static str)> = Vec::new();
    let mut i: usize = 0;
    while i < pairs.len()
        invariant
            i <= pairs.len(),
            entries@.len() == i,
            entry_commands(entries@) == commands_of(pairs@).take(i as int),
            forall|j: int|
                0 <= j < i ==> is_styled(
                    #[trigger] entry_notes(entries@)[j],
                    note_of(pairs@[j].0@),
                    dimmed_code(),
                ),
        decreases pairs.len() - i,
    {
        let mut note = String::from_str("# ");
        note.append(pairs[i].0);
        let ghost before = entries@;
        entries.push((dimmed(note.as_str()), pairs[i].1));
        proof {
            assert forall|j: int| 0 <= j < i + 1 implies is_styled(
                #[trigger] entry_notes(entries@)[j],
                note_of(pairs@[j].0@),
                dimmed_code(),
            ) by {
                if j < i {
                    assert(entry_notes(entries@)[j] == entry_notes(before)[j]);
                }
            }
            assert(entry_commands(before).len() == i);
            assert(entry_commands(entries@) =~= commands_of(pairs@).take(i + 1));
        }
        i += 1;
    }
    let help = layout_examples(heading.as_str(), &entries);
    assert(commands_of(pairs@).take(i as int) =~= commands_of(pairs@));
    assert(is_styled(heading@, "EXAMPLES:"@, yellow_code()));
    assert(entry_notes(entries@).len() == pairs@.len());
    help
}

} // verus!
