//! The roster: the containers that a listing names, in the listing's order.

use crate::text::chars_of;
use crate::text::is_word;
use crate::text::lemma_tokens_are_words;
use crate::text::lemma_line_end_bounds;
use crate::text::line_end;
use crate::text::scan_line;
use crate::text::split_tokens;
use crate::text::tokens;
use crate::text::views;
use vstd::prelude::*;
use vstd::string::StrSliceExecFns;

verus! {

/// One entry of a listing: a container's name and, where the line gave one,
/// its status.
#[derive(Debug, Clone, PartialEq, Eq)]
pub struct Container {
    pub name: String,
    pub status: Option<String>,
}

/// What a `Container` holds, as sequences of characters.
pub struct ContainerView {
    pub name: Seq<char>,
    pub status: Option<Seq<char>>,
}

impl View for Container {
    type V = ContainerView;

    open spec fn view(&self) -> ContainerView {
        ContainerView {
            name: self.name@,
            status: match self.status {
                Some(s) => Some(s@),
                None => None,
            },
        }
    }
}

/// The views of the containers in `v`, in order.
pub open spec fn roster_view(v: Seq<Container>) -> Seq<ContainerView> {
    v.map_values(|c: Container| c@)
}

/// The entries that one line gives: none where it has no token, else one,
/// named by the first token, with the second token as its status. Tokens
/// after the second are not read.
pub open spec fn line_entries(line: Seq<char>) -> Seq<ContainerView> {
    let t = tokens(line);
    if t.len() == 0 {
        Seq::empty()
    } else {
        seq![
            ContainerView {
                name: t[0],
                status: if t.len() > 1 {
                    Some(t[1])
                } else {
                    None
                },
            },
        ]
    }
}

/// The entries of the lines of `s` that start at `i` or later. A line runs
/// up to the next line feed or to the end of `s`.
pub open spec fn roster_from(s: Seq<char>, i: int) -> Seq<ContainerView>
    decreases s.len() - i,
    via roster_from_decreases
{
    if 0 <= i < s.len() {
        line_entries(s.subrange(i, line_end(s, i))) + if line_end(s, i) < s.len() {
            roster_from(s, line_end(s, i) + 1)
        } else {
            Seq::empty()
        }
    } else {
        Seq::empty()
    }
}

#[via_fn]
proof fn roster_from_decreases(s: Seq<char>, i: int) {
    if 0 <= i < s.len() {
        lemma_line_end_bounds(s, i);
    }
}

/// The roster that the listing `s` gives: the entries of its lines, in order.
pub open spec fn roster_of(s: Seq<char>) -> Seq<ContainerView> {
    roster_from(s, 0)
}

/// Whether `c` can come from a line: its name is a word, and so is its
/// status where it has one.
pub open spec fn is_entry(c: ContainerView) -> bool {
    is_word(c.name) && (c.status is Some ==> is_word(c.status->0))
}

/// Every container of a roster has a name that is not empty and holds no
/// white space, and a status of that kind or none.
pub proof fn lemma_roster_holds_entries(s: Seq<char>, i: int)
    requires
        0 <= i <= s.len(),
    ensures
        forall|k: int|
            0 <= k < roster_from(s, i).len() ==> is_entry(#[trigger] roster_from(s, i)[k]),
    decreases s.len() - i,
{
    if i < s.len() {
        let e = line_end(s, i);
        lemma_line_end_bounds(s, i);
        lemma_tokens_are_words(s.subrange(i, e), 0);
        if e < s.len() {
            lemma_roster_holds_entries(s, e + 1);
        }
        let first = line_entries(s.subrange(i, e));
        assert forall|k: int| 0 <= k < roster_from(s, i).len() implies is_entry(
            #[trigger] roster_from(s, i)[k],
        ) by {
            if k >= first.len() {
                assert(roster_from(s, i)[k] == roster_from(s, e + 1)[k - first.len()]);
            } else {
                assert(roster_from(s, i)[k] == first[k]);
            }
        }
    }
}

/// An empty listing gives an empty roster.
pub proof fn lemma_empty_listing()
    ensures
        roster_of(Seq::<char>::empty()) == Seq::<ContainerView>::empty(),
{
}

/// Reads one line of a listing.
pub fn parse_line(line: &str) -> (entry: Option<Container>)
    ensures
        match entry {
            Some(c) => line_entries(line@) == seq![c@],
            None => line_entries(line@) == Seq::<ContainerView>::empty(),
        },
{
    let toks = split_tokens(line);
    if toks.len() == 0 {
        None
    } else {
        assert(views(toks@)[0] == toks@[0]@);
        let name = toks[0].clone();
        let status = if toks.len() > 1 {
            assert(views(toks@)[1] == toks@[1]@);
            Some(toks[1].clone())
        } else {
            None
        };
        Some(Container { name, status })
    }
}

/// Reads a listing: one container for each line that has a token, in the
/// order of the lines.
pub fn parse_roster(listing: &str) -> (roster: Vec<Container>)
    ensures
        roster_view(roster@) == roster_of(listing@),
{
    let chars = chars_of(listing);
    let mut roster: Vec<Container> = Vec::new();
    let mut i: usize = 0;
    while i < chars.len()
        invariant
            chars@ == listing@,
            roster_of(listing@) == roster_view(roster@) + roster_from(listing@, i as int),
        decreases chars.len() - i,
    {
        let e = scan_line(&chars, i);
        let ghost before = roster@;
        match parse_line(listing.substring_char(i, e)) {
            Some(c) => {
                roster.push(c);
                assert(roster_view(roster@) =~= roster_view(before) + seq![c@]);
            },
            None => {
                assert(roster_view(before) + Seq::<ContainerView>::empty() =~= roster_view(before));
            },
        }
        if e == chars.len() {
            assert(roster_view(roster@) + Seq::<ContainerView>::empty() =~= roster_view(roster@));
            return roster;
        }
        i = e + 1;
    }
    assert(roster_view(roster@) + Seq::<ContainerView>::empty() =~= roster_view(roster@));
    roster
}

} // verus!
