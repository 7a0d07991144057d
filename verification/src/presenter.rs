//! How paths, counts and messages are turned into text for a terminal.

use crate::entry::{views, Entry, EntryView};
use crate::results::{SearchResults, Tally};
use vstd::prelude::*;
use vstd::string::StringExecFns;

verus! {

/// The colours that the output uses.
#[derive(Clone, Copy, Debug, PartialEq, Eq, Structural)]
pub enum Colour {
    Red,
    Green,
    Yellow,
    Blue,
    Purple,
}

impl Colour {
    /// The digits that select the colour as a foreground in an escape sequence.
    pub open spec fn code(self) -> Seq<char> {
        match self {
            Colour::Red => seq!['3', '1'],
            Colour::Green => seq!['3', '2'],
            Colour::Yellow => seq!['3', '3'],
            Colour::Blue => seq!['3', '4'],
            Colour::Purple => seq!['3', '5'],
        }
    }
}

/// The text between the escape sequence that switches the colour on, in bold or
/// not, and the one that resets the terminal.
pub open spec fn painted(colour: Colour, bold: bool, text: Seq<char>) -> Seq<char> {
    let bold_code = if bold {
        seq!['1', ';']
    } else {
        Seq::<char>::empty()
    };
    seq!['\x1b', '['] + bold_code + colour.code() + seq!['m'] + text + seq!['\x1b', '[', '0', 'm']
}

/// Calls `ansi_term::Colour::paint` and turns the result into a string. Trusted:
/// the string is the text between the colour's foreground sequence and the reset
/// sequence.
#[verifier::external_body]
fn paint(colour: Colour, text: &str) -> (styled: String)
    ensures
        styled@ == painted(colour, false, text@),
{
    let ink = match colour {
        Colour::Red => ansi_term::Colour::Red,
        Colour::Green => ansi_term::Colour::Green,
        Colour::Yellow => ansi_term::Colour::Yellow,
        Colour::Blue => ansi_term::Colour::Blue,
        Colour::Purple => ansi_term::Colour::Purple,
    };
    ink.paint(text).to_string()
}

/// Calls `ansi_term::Colour::bold` and `ansi_term::Style::paint` and turns the
/// result into a string. Trusted: the string is the text between the sequence for
/// bold in the colour and the reset sequence.
#[verifier::external_body]
fn paint_bold(colour: Colour, text: &str) -> (styled: String)
    ensures
        styled@ == painted(colour, true, text@),
{
    let ink = match colour {
        Colour::Red => ansi_term::Colour::Red,
        Colour::Green => ansi_term::Colour::Green,
        Colour::Yellow => ansi_term::Colour::Yellow,
        Colour::Blue => ansi_term::Colour::Blue,
        Colour::Purple => ansi_term::Colour::Purple,
    };
    ink.bold().paint(text).to_string()
}

/// What is shown for an entry: its base name if `short`, else its path as given;
/// a directory in purple, anything else unstyled.
pub open spec fn rendered(entry: EntryView, short: bool) -> Seq<char> {
    let text = if short {
        entry.name
    } else {
        entry.path
    };
    if entry.kind is Directory {
        painted(Colour::Purple, false, text)
    } else {
        text
    }
}

/// Renders an entry for display.
pub fn render(entry: &Entry, short: bool) -> (styled: String)
    ensures
        styled@ == rendered(entry@, short),
{
    let text = if short {
        entry.name.as_str()
    } else {
        entry.path.as_str()
    };
    if entry.kind.is_directory() {
        paint(Colour::Purple, text)
    } else {
        text.to_owned()
    }
}

/// The block that shows one directory when a tree is listed rather than searched:
/// the directory's path with a colon, then its children by base name, one to a
/// line. Blocks are set apart by an empty line.
pub open spec fn block(path: Seq<char>, children: Seq<EntryView>) -> Seq<Seq<char>> {
    seq![path.push(':')] + Seq::new(children.len(), |i: int| rendered(children[i], true))
}

/// Writes the lines of the block that shows one directory in a listing.
pub fn block_lines(path: &str, children: &Vec<Entry>) -> (shown: Vec<String>)
    ensures
        shown.deep_view() == block(path@, views(children@)),
{
    let mut heading = path.to_owned();
    heading.append(":");
    proof {
        reveal_strlit(":");
        assert(heading@ =~= path@.push(':'));
    }
    let mut shown: Vec<String> = Vec::new();
    shown.push(heading);
    let mut i: usize = 0;
    while i < children.len()
        invariant
            i <= children.len(),
            shown.len() == i + 1,
            shown.deep_view()[0] == path@.push(':'),
            forall|k: int| 0 <= k < i ==> shown.deep_view()[k + 1] == rendered(children@[k]@, true),
        decreases children.len() - i,
    {
        let ghost so_far = shown.deep_view();
        shown.push(render(&children[i], true));
        assert(shown.deep_view() =~= so_far.push(rendered(children@[i as int]@, true)));
        i += 1;
    }
    assert(shown.deep_view() =~= block(path@, views(children@)));
    shown
}

/// The character of a decimal digit.
pub open spec fn digit(d: nat) -> char {
    if d == 0 {
        '0'
    } else if d == 1 {
        '1'
    } else if d == 2 {
        '2'
    } else if d == 3 {
        '3'
    } else if d == 4 {
        '4'
    } else if d == 5 {
        '5'
    } else if d == 6 {
        '6'
    } else if d == 7 {
        '7'
    } else if d == 8 {
        '8'
    } else {
        '9'
    }
}

/// A number in decimal, without leading zeros.
pub open spec fn digits(n: nat) -> Seq<char>
    decreases n,
{
    if n < 10 {
        seq![digit(n)]
    } else {
        digits(n / 10).push(digit(n % 10))
    }
}

fn digit_text(d: u64) -> (text: &'static str)
    requires
        d < 10,
    ensures
        text@ == seq![digit(d as nat)],
{
    let text = if d == 0 {
        "0"
    } else if d == 1 {
        "1"
    } else if d == 2 {
        "2"
    } else if d == 3 {
        "3"
    } else if d == 4 {
        "4"
    } else if d == 5 {
        "5"
    } else if d == 6 {
        "6"
    } else if d == 7 {
        "7"
    } else if d == 8 {
        "8"
    } else {
        "9"
    };
    proof {
        reveal_strlit("0");
        reveal_strlit("1");
        reveal_strlit("2");
        reveal_strlit("3");
        reveal_strlit("4");
        reveal_strlit("5");
        reveal_strlit("6");
        reveal_strlit("7");
        reveal_strlit("8");
        reveal_strlit("9");
        assert(text@ =~= seq![digit(d as nat)]);
    }
    text
}

/// Writes a number in decimal.
pub fn decimal(n: u64) -> (text: String)
    ensures
        text@ == digits(n as nat),
    decreases n,
{
    if n < 10 {
        String::from_str(digit_text(n))
    } else {
        let mut text = decimal(n / 10);
        text.append(digit_text(n % 10));
        assert(text@ =~= digits(n as nat));
        text
    }
}

/// The closing line of a search: how much was explored and how much was found,
/// the work in bold yellow and the finds in bold green.
pub open spec fn summary(tally: Tally) -> Seq<char> {
    "Explored "@ + painted(Colour::Yellow, true, digits(tally.directories_pushed))
        + " directories and searched "@ + painted(
        Colour::Yellow,
        true,
        digits(tally.objects_scanned),
    ) + " objects, found "@ + painted(Colour::Green, true, digits(tally.directories_matched))
        + " directories and "@ + painted(Colour::Green, true, digits(tally.files_matched))
        + " files."@
}

/// Writes the closing line of a search.
pub fn summary_line(results: &SearchResults) -> (line: String)
    ensures
        line@ == summary(results@),
{
    let pushed = paint_bold(Colour::Yellow, decimal(results.directories_pushed()).as_str());
    let scanned = paint_bold(Colour::Yellow, decimal(results.objects_scanned()).as_str());
    let directories = paint_bold(Colour::Green, decimal(results.directories_matched()).as_str());
    let files = paint_bold(Colour::Green, decimal(results.files_matched()).as_str());
    let mut line = String::from_str("Explored ");
    line.append(pushed.as_str());
    line.append(" directories and searched ");
    line.append(scanned.as_str());
    line.append(" objects, found ");
    line.append(directories.as_str());
    line.append(" directories and ");
    line.append(files.as_str());
    line.append(" files.");
    line
}

/// The line that opens a search: where it looks, in bold yellow, and for what, in
/// bold green.
pub open spec fn banner(root: Seq<char>, pattern: Seq<char>) -> Seq<char> {
    "Searching "@ + painted(Colour::Yellow, true, root) + " for "@ + painted(
        Colour::Green,
        true,
        pattern,
    )
}

/// Writes the line that opens a search.
pub fn banner_line(root: &str, pattern: &str) -> (line: String)
    ensures
        line@ == banner(root@, pattern@),
{
    let mut line = String::from_str("Searching ");
    line.append(paint_bold(Colour::Yellow, root).as_str());
    line.append(" for ");
    line.append(paint_bold(Colour::Green, pattern).as_str());
    line
}

/// The complaint about a root that does not exist, the path in bold red.
pub open spec fn invalid_path(path: Seq<char>) -> Seq<char> {
    "Invalid search path: "@ + painted(Colour::Red, true, path)
}

/// Writes the complaint about a root that does not exist.
pub fn invalid_path_line(path: &str) -> (line: String)
    ensures
        line@ == invalid_path(path@),
{
    let mut line = String::from_str("Invalid search path: ");
    line.append(paint_bold(Colour::Red, path).as_str());
    line
}

/// The line that tells how long a search took, the time in bold blue.
pub open spec fn elapsed(millis: nat) -> Seq<char> {
    "Search took "@ + painted(Colour::Blue, true, digits(millis) + "ms"@)
}

/// Writes the line that tells how long a search took.
pub fn elapsed_line(millis: u64) -> (line: String)
    ensures
        line@ == elapsed(millis as nat),
{
    let mut time = decimal(millis);
    time.append("ms");
    let mut line = String::from_str("Search took ");
    line.append(paint_bold(Colour::Blue, time.as_str()).as_str());
    line
}

} // verus!
