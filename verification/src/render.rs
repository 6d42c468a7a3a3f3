//! The text that shows a state: one line for each container, the line under
//! the cursor emphasised.

use crate::roster::Container;
use crate::roster::ContainerView;
use crate::state::State;
use crate::state::StateView;
use crate::text::views;
use owo_colors::OwoColorize;
use vstd::prelude::*;
use vstd::string::StringExecFns;

verus! {

/// `s` in red: after the escape sequence that sets the red foreground, and
/// before the one that sets the foreground back.
pub open spec fn red_text(s: Seq<char>) -> Seq<char> {
    "\x1b[31m"@ + s + "\x1b[39m"@
}

/// `s` in bold: after the escape sequence that switches bold on, and before
/// the one that switches all styles off.
pub open spec fn bold_text(s: Seq<char>) -> Seq<char> {
    "\x1b[1m"@ + s + "\x1b[0m"@
}

/// `s` with emphasis: in red, and that in bold.
pub open spec fn emphasis(s: Seq<char>) -> Seq<char> {
    bold_text(red_text(s))
}

/// `s` as it stands in a line: emphasised where the line is under the cursor.
pub open spec fn styled(s: Seq<char>, selected: bool) -> Seq<char> {
    if selected {
        emphasis(s)
    } else {
        s
    }
}

/// The line for one container: its name, a blank and its status. A container
/// without a status has a fixed line in place of its name.
pub open spec fn line_of(c: ContainerView, selected: bool) -> Seq<char> {
    match c.status {
        Some(status) => styled(c.name, selected) + " "@ + styled(status, selected),
        None => "There is no container to display"@,
    }
}

/// The lines for a state: one for each container, in the roster's order;
/// the one whose index is the cursor is emphasised.
pub open spec fn lines_of(s: StateView) -> Seq<Seq<char>> {
    Seq::new(s.roster.len(), |i: int| line_of(s.roster[i], i == s.cursor))
}

/// `lines` with a line feed between each two of them.
pub open spec fn joined(lines: Seq<Seq<char>>) -> Seq<char>
    decreases lines.len(),
{
    if lines.len() == 0 {
        Seq::empty()
    } else if lines.len() == 1 {
        lines[0]
    } else {
        joined(lines.drop_last()) + "\n"@ + lines.last()
    }
}

/// `OwoColorize::red` of owo_colors, written out: what it returns displays
/// the escape sequence of the red foreground, then the text, then the escape
/// sequence of the default foreground.
#[verifier::external_body]
fn red(s: &str) -> (out: String)
    ensures
        out@ == red_text(s@),
{
    s.red().to_string()
}

/// `OwoColorize::bold` of owo_colors, written out: what it returns displays
/// the escape sequence of the bold style, then the text, then the escape
/// sequence that resets all styles.
#[verifier::external_body]
fn bold(s: &str) -> (out: String)
    ensures
        out@ == bold_text(s@),
{
    s.bold().to_string()
}

/// `s` with emphasis.
pub fn emphasized(s: &str) -> (out: String)
    ensures
        out@ == emphasis(s@),
{
    let coloured = red(s);
    bold(coloured.as_str())
}

/// The line for one container.
pub fn render_line(c: &Container, selected: bool) -> (line: String)
    ensures
        line@ == line_of(c@, selected),
{
    match &c.status {
        Some(status) => {
            if selected {
                let mut line = emphasized(c.name.as_str());
                line.append(" ");
                let tail = emphasized(status.as_str());
                line.append(tail.as_str());
                line
            } else {
                let mut line = c.name.clone();
                line.append(" ");
                line.append(status.as_str());
                line
            }
        },
        None => String::from_str("There is no container to display"),
    }
}

/// The lines for a state, in the roster's order.
pub fn render_lines(state: &State) -> (lines: Vec<String>)
    ensures
        views(lines@) == lines_of(state@),
{
    let mut lines: Vec<String> = Vec::new();
    let mut i: usize = 0;
    while i < state.containers.len()
        invariant
            i <= state.containers.len(),
            lines.len() == i,
            forall|j: int|
                0 <= j < i ==> lines[j]@ == line_of(
                    #[trigger] state.containers[j]@,
                    j == state.selected,
                ),
        decreases state.containers.len() - i,
    {
        let line = render_line(&state.containers[i], i == state.selected);
        lines.push(line);
        i += 1;
    }
    assert(views(lines@) =~= lines_of(state@));
    lines
}

/// `lines` as one text, with a line feed between each two of them.
pub fn join_lines(lines: &Vec<String>) -> (text: String)
    ensures
        text@ == joined(views(lines@)),
{
    let mut text = String::new();
    let mut i: usize = 0;
    while i < lines.len()
        invariant
            i <= lines.len(),
            text@ == joined(views(lines@).take(i as int)),
        decreases lines.len() - i,
    {
        let ghost done = views(lines@).take(i as int);
        let ghost next = views(lines@).take(i as int + 1);
        if i > 0 {
            text.append("\n");
        }
        text.append(lines[i].as_str());
        proof {
            assert(next.drop_last() =~= done);
            assert(next.last() == lines[i as int]@);
            if i == 0 {
                assert(text@ =~= lines[0]@);
            }
        }
        i += 1;
    }
    assert(views(lines@).take(lines.len() as int) =~= views(lines@));
    text
}

/// The text that shows `state`: its lines, joined by line feeds. An empty
/// roster gives the empty text.
pub fn render(state: &State) -> (text: String)
    ensures
        text@ == joined(lines_of(state@)),
{
    let lines = render_lines(state);
    join_lines(&lines)
}

/// A state is shown with one line for each container, so an empty roster
/// is shown as the empty text.
pub proof fn lemma_one_line_per_container(s: StateView)
    ensures
        lines_of(s).len() == s.roster.len(),
        s.roster.len() == 0 ==> joined(lines_of(s)) == Seq::<char>::empty(),
{
}

} // verus!
