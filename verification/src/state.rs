//! The panel's state: the roster and the cursor that selects one of its
//! entries.

use crate::roster::parse_roster;
use crate::roster::roster_of;
use crate::roster::roster_view;
use crate::roster::Container;
use crate::roster::ContainerView;
use vstd::arithmetic::div_mod::lemma_mod_bound;
use vstd::arithmetic::div_mod::lemma_mod_self_0;
use vstd::arithmetic::div_mod::lemma_small_mod;
use vstd::prelude::*;

verus! {

/// The roster and the cursor. A new roster replaces the old one whole and
/// leaves the cursor as it is, so the cursor may point past the end of a
/// roster that has shrunk, until it is moved again.
#[derive(Debug, Clone, PartialEq, Eq)]
pub struct State {
    pub selected: usize,
    pub containers: Vec<Container>,
}

/// What a `State` holds: the cursor as a number, the roster as a sequence.
pub struct StateView {
    pub cursor: nat,
    pub roster: Seq<ContainerView>,
}

impl View for State {
    type V = StateView;

    open spec fn view(&self) -> StateView {
        StateView { cursor: self.selected as nat, roster: roster_view(self.containers@) }
    }
}

impl StateView {
    /// The cursor is 0 over an empty roster, and else the index of an entry.
    pub open spec fn cursor_valid(self) -> bool {
        self.cursor < self.roster.len() || self.cursor == 0
    }

    /// The entry under the cursor, if there is one.
    pub open spec fn addressed(self) -> Option<ContainerView> {
        if self.cursor < self.roster.len() {
            Some(self.roster[self.cursor as int])
        } else {
            None
        }
    }

    /// The state after the cursor moved one entry down: past the last entry
    /// it is at the first again. Over an empty roster nothing moves.
    pub open spec fn down(self) -> StateView {
        if self.roster.len() == 0 {
            self
        } else {
            StateView {
                cursor: ((self.cursor + 1) % self.roster.len()) as nat,
                roster: self.roster,
            }
        }
    }

    /// The state after the cursor moved one entry up: from the first entry
    /// it goes to the last. Over an empty roster nothing moves.
    pub open spec fn up(self) -> StateView {
        if self.roster.len() == 0 {
            self
        } else if self.cursor == 0 {
            StateView { cursor: (self.roster.len() - 1) as nat, roster: self.roster }
        } else {
            StateView { cursor: (self.cursor - 1) as nat, roster: self.roster }
        }
    }

    /// The state after `k` moves down.
    pub open spec fn down_times(self, k: nat) -> StateView
        decreases k,
    {
        if k == 0 {
            self
        } else {
            self.down_times((k - 1) as nat).down()
        }
    }

    /// The state after `k` moves up.
    pub open spec fn up_times(self, k: nat) -> StateView
        decreases k,
    {
        if k == 0 {
            self
        } else {
            self.up_times((k - 1) as nat).up()
        }
    }

    /// The state with the roster that `listing` gives and the same cursor.
    pub open spec fn refreshed(self, listing: Seq<char>) -> StateView {
        StateView { cursor: self.cursor, roster: roster_of(listing) }
    }
}

impl State {
    /// The state at the start: no containers, the cursor at 0.
    pub fn new() -> (s: State)
        ensures
            s@.cursor == 0,
            s@.roster == Seq::<ContainerView>::empty(),
    {
        let s = State { selected: 0, containers: Vec::new() };
        assert(s@.roster =~= Seq::<ContainerView>::empty());
        s
    }

    /// Moves the cursor one entry down, or to the first entry from the last.
    pub fn select_down(&mut self)
        ensures
            final(self)@ == old(self)@.down(),
            final(self).containers == old(self).containers,
    {
        let len = self.containers.len();
        if len > 0 {
            let wide: u128 = (self.selected as u128 + 1) % (len as u128);
            self.selected = wide as usize;
        }
    }

    /// Moves the cursor one entry up, or to the last entry from the first.
    pub fn select_up(&mut self)
        ensures
            final(self)@ == old(self)@.up(),
            final(self).containers == old(self).containers,
    {
        let len = self.containers.len();
        if len > 0 {
            if self.selected == 0 {
                self.selected = len - 1;
            } else {
                self.selected = self.selected - 1;
            }
        }
    }

    /// Replaces the roster by what `listing` gives; the cursor stays.
    pub fn refresh(&mut self, listing: &str)
        ensures
            final(self)@ == old(self)@.refreshed(listing@),
    {
        self.containers = parse_roster(listing);
    }

    /// The container under the cursor, if the cursor points at one.
    pub fn addressed(&self) -> (c: Option<&Container>)
        ensures
            match c {
                Some(c) => self@.addressed() == Some(c@),
                None => self@.addressed() is None,
            },
            c is Some ==> self.selected < self.containers.len() && *c->0
                == self.containers[self.selected as int],
    {
        if self.selected < self.containers.len() {
            Some(&self.containers[self.selected])
        } else {
            None
        }
    }
}

impl Default for State {
    fn default() -> (s: State)
        ensures
            s@.cursor == 0,
            s@.roster == Seq::<ContainerView>::empty(),
    {
        State::new()
    }
}

/// A move up keeps a valid cursor valid, and a move down leaves the cursor
/// valid wherever it was.
pub proof fn lemma_moves_keep_cursor_valid(s: StateView)
    ensures
        s.cursor_valid() ==> s.up().cursor_valid(),
        s.cursor_valid() || s.roster.len() > 0 ==> s.down().cursor_valid(),
{
    if s.roster.len() > 0 {
        lemma_mod_bound((s.cursor + 1) as int, s.roster.len() as int);
    }
}

/// One step down from an entry of a roster: the next entry, or the first
/// after the last.
pub proof fn lemma_down_from_entry(s: StateView)
    requires
        s.cursor < s.roster.len(),
    ensures
        s.down().roster == s.roster,
        s.down().cursor == if s.cursor + 1 == s.roster.len() {
            0
        } else {
            s.cursor + 1
        },
{
    if s.cursor + 1 == s.roster.len() {
        lemma_mod_self_0(s.roster.len() as int);
    } else {
        lemma_small_mod(s.cursor + 1, s.roster.len());
    }
}

/// Down and then up, or up and then down, from a valid cursor leads back
/// to where it was.
pub proof fn lemma_down_up_inverse(s: StateView)
    requires
        s.cursor_valid(),
    ensures
        s.down().up() == s,
        s.up().down() == s,
{
    if s.roster.len() > 0 {
        lemma_down_from_entry(s);
        lemma_down_from_entry(s.up());
    }
}

/// Over a roster of `n` entries, `k` moves down from a valid cursor lead to
/// the entry `k` places on, counted round the roster once.
pub proof fn lemma_down_times(s: StateView, k: nat)
    requires
        s.cursor < s.roster.len(),
        k <= s.roster.len(),
    ensures
        s.down_times(k).roster == s.roster,
        s.down_times(k).cursor == if s.cursor + k < s.roster.len() {
            s.cursor + k
        } else {
            (s.cursor + k - s.roster.len()) as nat
        },
    decreases k,
{
    if k > 0 {
        lemma_down_times(s, (k - 1) as nat);
        lemma_down_from_entry(s.down_times((k - 1) as nat));
    }
}

/// Over a roster of `n` entries, `k` moves up from a valid cursor lead to
/// the entry `k` places back, counted round the roster once.
pub proof fn lemma_up_times(s: StateView, k: nat)
    requires
        s.cursor < s.roster.len(),
        k <= s.roster.len(),
    ensures
        s.up_times(k).roster == s.roster,
        s.up_times(k).cursor == if k <= s.cursor {
            (s.cursor - k) as nat
        } else {
            (s.cursor + s.roster.len() - k) as nat
        },
    decreases k,
{
    if k > 0 {
        lemma_up_times(s, (k - 1) as nat);
    }
}

/// As many moves down as the roster has entries lead back to the cursor
/// they started from.
pub proof fn lemma_down_cycle(s: StateView)
    requires
        s.cursor_valid(),
    ensures
        s.down_times(s.roster.len()) == s,
{
    if s.roster.len() > 0 {
        lemma_down_times(s, s.roster.len());
    }
}

/// As many moves up as the roster has entries lead back to the cursor they
/// started from.
pub proof fn lemma_up_cycle(s: StateView)
    requires
        s.cursor_valid(),
    ensures
        s.up_times(s.roster.len()) == s,
{
    if s.roster.len() > 0 {
        lemma_up_times(s, s.roster.len());
    }
}

/// Over an empty roster no number of moves changes the state.
pub proof fn lemma_empty_roster_is_still(s: StateView, k: nat)
    requires
        s.roster.len() == 0,
    ensures
        s.down() == s,
        s.up() == s,
        s.down_times(k) == s,
        s.up_times(k) == s,
    decreases k,
{
    if k > 0 {
        lemma_empty_roster_is_still(s, (k - 1) as nat);
    }
}

} // verus!
