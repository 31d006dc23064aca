//! Highlighting of directory names with ANSI escape sequences.

use crate::entry::EntryKind;
use vstd::prelude::*;
use vstd::string::StringExecFns;

verus! {

/// The escape sequences that switch to the style of a directory name:
/// reset, bold, blue foreground.
pub open spec fn highlight_on_text() -> Seq<char> {
    "\u{1b}[0m\u{1b}[1m\u{1b}[34m"@
}

/// The escape sequence that switches back to the plain style.
pub open spec fn highlight_off_text() -> Seq<char> {
    "\u{1b}[0m"@
}

/// Calls `set_color` of termcolor's `Ansi` writer, with a fresh colour
/// specification set to a blue foreground and bold, on an empty buffer,
/// and hands back what it wrote. The contract claims that these are the
/// three sequences that the writer's source spells out for such a
/// specification: the reset that a fresh specification asks for, bold,
/// and foreground colour 4.
#[verifier::external_body]
pub(crate) fn highlight_on() -> (codes: String)
    ensures
        codes@ == highlight_on_text(),
{
    let mut sink = termcolor::Ansi::new(Vec::new());
    let mut style = termcolor::ColorSpec::new();
    style.set_fg(Some(termcolor::Color::Blue)).set_bold(true);
    let _ = termcolor::WriteColor::set_color(&mut sink, &style);
    String::from_utf8_lossy(&sink.into_inner()).into_owned()
}

/// Calls `reset` of termcolor's `Ansi` writer on an empty buffer and
/// hands back what it wrote. The contract claims that this is the one
/// reset sequence that the writer's source spells out.
#[verifier::external_body]
pub(crate) fn highlight_off() -> (codes: String)
    ensures
        codes@ == highlight_off_text(),
{
    let mut sink = termcolor::Ansi::new(Vec::new());
    let _ = termcolor::WriteColor::reset(&mut sink);
    String::from_utf8_lossy(&sink.into_inner()).into_owned()
}

/// What follows a name: a line break in the long format, two spaces in the
/// compact one.
pub open spec fn name_tail(long_option: bool) -> Seq<char> {
    if long_option {
        "\n"@
    } else {
        "  "@
    }
}

/// A directory name as it is written: highlighted, with the tail inside
/// the highlighting.
pub open spec fn colored_text(dir_name: Seq<char>, long_option: bool) -> Seq<char> {
    highlight_on_text() + dir_name + name_tail(long_option) + highlight_off_text()
}

/// A name as it is written: a directory's highlighted, a file's plain,
/// each with its tail.
pub open spec fn name_cell_text(name: Seq<char>, kind: EntryKind, long_option: bool) -> Seq<char> {
    match kind {
        EntryKind::Directory => colored_text(name, long_option),
        EntryKind::File => name + name_tail(long_option),
    }
}

/// Writes a directory name in bold blue, followed by a line break in the
/// long format and by two spaces in the compact one, and switches the
/// style back after that.
pub fn colored_dir_path(dir_name: &str, long_option: bool) -> (text: String)
    ensures
        text@ == colored_text(dir_name@, long_option),
{
    let mut text = highlight_on();
    text.append(dir_name);
    text.append(if long_option { "\n" } else { "  " });
    let off = highlight_off();
    text.append(off.as_str());
    text
}

/// Writes the name of an entry with its tail, highlighted when the entry
/// is a directory.
pub fn name_cell(name: &str, kind: EntryKind, long_option: bool) -> (text: String)
    ensures
        text@ == name_cell_text(name@, kind, long_option),
{
    match kind {
        EntryKind::Directory => colored_dir_path(name, long_option),
        EntryKind::File => {
            let mut text = String::from_str(name);
            text.append(if long_option { "\n" } else { "  " });
            text
        },
    }
}

} // verus!
