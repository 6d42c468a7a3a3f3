//! The reaction to one host event: the next state, the requests to the
//! container runtime and to the host, and whether the panel is drawn again.

use crate::state::State;
use crate::state::StateView;
use crate::text::decode_text;
use crate::text::text_of;
use crate::text::views;
use vstd::prelude::*;
use vstd::string::StringExecFns;

verus! {

/// A key, without its modifiers.
#[derive(Debug, Clone, Copy, PartialEq, Eq)]
pub enum Key {
    Down,
    Up,
    Enter,
    Char(char),
    Other,
}

/// What the host reports.
#[derive(Debug, PartialEq, Eq)]
pub enum Event {
    /// A command has ended; the bytes are what it wrote to its output.
    CommandResult(Vec<u8>),
    /// The host's panes have changed.
    PaneUpdate,
    /// A key was pressed.
    Key(Key),
    /// Anything else.
    Other,
}

/// A request that the reaction to an event makes.
#[derive(Debug, PartialEq, Eq)]
pub enum Effect {
    /// List all containers, each with its name and its state.
    List,
    /// Start the container of this name.
    Start(String),
    /// Stop the container of this name.
    Stop(String),
    /// Open a shell in the container of this name, in a pane of its own.
    Attach(String),
    /// Hide the panel.
    Hide,
}

/// An `Effect`, its name as a sequence of characters.
pub enum EffectView {
    List,
    Start(Seq<char>),
    Stop(Seq<char>),
    Attach(Seq<char>),
    Hide,
}

impl View for Effect {
    type V = EffectView;

    open spec fn view(&self) -> EffectView {
        match self {
            Effect::List => EffectView::List,
            Effect::Start(name) => EffectView::Start(name@),
            Effect::Stop(name) => EffectView::Stop(name@),
            Effect::Attach(name) => EffectView::Attach(name@),
            Effect::Hide => EffectView::Hide,
        }
    }
}

/// What a key asks for.
#[derive(Debug, Clone, Copy, PartialEq, Eq)]
pub enum Command {
    MoveDown,
    MoveUp,
    Start,
    Stop,
    Attach,
    Hide,
    Nothing,
}

/// The views of the effects in `v`, in order.
pub open spec fn effects_view(v: Seq<Effect>) -> Seq<EffectView> {
    v.map_values(|e: Effect| e@)
}

/// The command that a key stands for.
pub open spec fn command_of(key: Key) -> Command {
    match key {
        Key::Down => Command::MoveDown,
        Key::Up => Command::MoveUp,
        Key::Enter => Command::Start,
        Key::Char(c) => if c == 'j' {
            Command::MoveDown
        } else if c == 'k' {
            Command::MoveUp
        } else if c == 'l' {
            Command::Start
        } else if c == 's' {
            Command::Stop
        } else if c == 'e' {
            Command::Attach
        } else if c == 'q' {
            Command::Hide
        } else {
            Command::Nothing
        },
        Key::Other => Command::Nothing,
    }
}

/// The state after `event`: a command's output replaces the roster, a move
/// key moves the cursor, and nothing else changes the state.
pub open spec fn next_state(s: StateView, event: Event) -> StateView {
    match event {
        Event::CommandResult(bytes) => s.refreshed(text_of(bytes@)),
        Event::Key(key) => match command_of(key) {
            Command::MoveDown => s.down(),
            Command::MoveUp => s.up(),
            _ => s,
        },
        _ => s,
    }
}

/// What a key requests in state `s`: to start, to stop or to enter the
/// container under the cursor, if there is one, or to hide the panel.
pub open spec fn key_effects(s: StateView, key: Key) -> Seq<EffectView> {
    match command_of(key) {
        Command::Start => match s.addressed() {
            Some(c) => seq![EffectView::Start(c.name)],
            None => Seq::empty(),
        },
        Command::Stop => match s.addressed() {
            Some(c) => seq![EffectView::Stop(c.name)],
            None => Seq::empty(),
        },
        Command::Attach => match s.addressed() {
            Some(c) => seq![EffectView::Attach(c.name)],
            None => Seq::empty(),
        },
        Command::Hide => seq![EffectView::Hide],
        _ => Seq::empty(),
    }
}

/// The requests that `event` leads to in state `s`: always one to list the
/// containers, and after it what a key requests.
pub open spec fn effects_of(s: StateView, event: Event) -> Seq<EffectView> {
    seq![EffectView::List] + match event {
        Event::Key(key) => key_effects(s, key),
        _ => Seq::empty(),
    }
}

/// Whether the panel is drawn again after `event` in state `s`: after a
/// command's output and a change of panes, and after a move key where the
/// roster is not empty.
pub open spec fn render_requested(s: StateView, event: Event) -> bool {
    match event {
        Event::CommandResult(_) => true,
        Event::PaneUpdate => true,
        Event::Key(key) => match command_of(key) {
            Command::MoveDown => s.roster.len() > 0,
            Command::MoveUp => s.roster.len() > 0,
            _ => false,
        },
        Event::Other => false,
    }
}

/// The words of the command that carries out `effect`, the program first.
/// To hide the panel takes no command.
pub open spec fn command_line(effect: EffectView) -> Seq<Seq<char>> {
    match effect {
        EffectView::List => seq!["podman"@, "ps"@, "-a"@, "--format"@, "{{.Names}} {{.State}}"@],
        EffectView::Start(name) => seq!["podman"@, "start"@, name],
        EffectView::Stop(name) => seq!["podman"@, "stop"@, name],
        EffectView::Attach(name) => seq!["podman"@, "exec"@, "-it"@, name, "/bin/bash"@],
        EffectView::Hide => Seq::empty(),
    }
}

/// What one event has led to.
#[derive(Debug, PartialEq, Eq)]
pub struct Outcome {
    /// The requests to carry out, in order.
    pub effects: Vec<Effect>,
    /// Whether to draw the panel again.
    pub render: bool,
}

impl Key {
    /// The command that this key stands for.
    pub fn command(self) -> (c: Command)
        ensures
            c == command_of(self),
    {
        match self {
            Key::Down => Command::MoveDown,
            Key::Up => Command::MoveUp,
            Key::Enter => Command::Start,
            Key::Char(c) => if c == 'j' {
                Command::MoveDown
            } else if c == 'k' {
                Command::MoveUp
            } else if c == 'l' {
                Command::Start
            } else if c == 's' {
                Command::Stop
            } else if c == 'e' {
                Command::Attach
            } else if c == 'q' {
                Command::Hide
            } else {
                Command::Nothing
            },
            Key::Other => Command::Nothing,
        }
    }
}

impl Effect {
    /// The words of the command that carries out this effect, the program
    /// first; none for hiding the panel.
    pub fn command_line(&self) -> (words: Vec<String>)
        ensures
            views(words@) == command_line(self@),
    {
        let mut words: Vec<String> = Vec::new();
        match self {
            Effect::List => {
                words.push(String::from_str("podman"));
                words.push(String::from_str("ps"));
                words.push(String::from_str("-a"));
                words.push(String::from_str("--format"));
                words.push(String::from_str("{{.Names}} {{.State}}"));
            },
            Effect::Start(name) => {
                words.push(String::from_str("podman"));
                words.push(String::from_str("start"));
                words.push(name.clone());
            },
            Effect::Stop(name) => {
                words.push(String::from_str("podman"));
                words.push(String::from_str("stop"));
                words.push(name.clone());
            },
            Effect::Attach(name) => {
                words.push(String::from_str("podman"));
                words.push(String::from_str("exec"));
                words.push(String::from_str("-it"));
                words.push(name.clone());
                words.push(String::from_str("/bin/bash"));
            },
            Effect::Hide => {},
        }
        assert(views(words@) =~= command_line(self@));
        words
    }
}

impl State {
    /// What is requested when the panel is loaded: a first listing.
    pub fn load(&self) -> (effects: Vec<Effect>)
        ensures
            effects_view(effects@) == seq![EffectView::List],
    {
        let mut effects: Vec<Effect> = Vec::new();
        effects.push(Effect::List);
        assert(effects_view(effects@) =~= seq![EffectView::List]);
        effects
    }

    /// What a key requests of the runtime or the host in this state.
    pub fn key_effects(&self, key: Key) -> (effects: Vec<Effect>)
        ensures
            effects_view(effects@) == key_effects(self@, key),
    {
        let mut effects: Vec<Effect> = Vec::new();
        match key.command() {
            Command::Start => {
                if let Some(c) = self.addressed() {
                    effects.push(Effect::Start(c.name.clone()));
                }
            },
            Command::Stop => {
                if let Some(c) = self.addressed() {
                    effects.push(Effect::Stop(c.name.clone()));
                }
            },
            Command::Attach => {
                if let Some(c) = self.addressed() {
                    effects.push(Effect::Attach(c.name.clone()));
                }
            },
            Command::Hide => {
                effects.push(Effect::Hide);
            },
            _ => {},
        }
        assert(effects_view(effects@) =~= key_effects(self@, key));
        effects
    }

    /// Reacts to one event: requests a new listing, then takes in a
    /// command's output, moves the cursor or makes the request that a key
    /// stands for.
    pub fn update(&mut self, event: Event) -> (outcome: Outcome)
        ensures
            final(self)@ == next_state(old(self)@, event),
            effects_view(outcome.effects@) == effects_of(old(self)@, event),
            outcome.render == render_requested(old(self)@, event),
    {
        let mut effects: Vec<Effect> = Vec::new();
        effects.push(Effect::List);
        let mut render = false;
        match event {
            Event::CommandResult(bytes) => {
                let listing = decode_text(bytes);
                self.refresh(listing.as_str());
                render = true;
            },
            Event::PaneUpdate => {
                render = true;
            },
            Event::Key(key) => {
                match key.command() {
                    Command::MoveDown => {
                        if self.containers.len() > 0 {
                            self.select_down();
                            render = true;
                        }
                    },
                    Command::MoveUp => {
                        if self.containers.len() > 0 {
                            self.select_up();
                            render = true;
                        }
                    },
                    _ => {
                        let mut requested = self.key_effects(key);
                        let ghost head = effects@;
                        let ghost tail = requested@;
                        effects.append(&mut requested);
                        assert(effects_view(effects@) =~= effects_view(head) + effects_view(tail));
                    },
                }
            },
            Event::Other => {},
        }
        assert(effects_view(effects@) =~= effects_of(old(self)@, event));
        Outcome { effects, render }
    }
}

/// A key that starts, stops or enters a container requests exactly that of
/// the container under the cursor, by its name, where the cursor points at
/// one; where it points at none, as over an empty roster, it requests
/// nothing. A listing is requested either way.
pub proof fn lemma_container_key_requests(s: StateView, key: Key)
    requires
        command_of(key) is Start || command_of(key) is Stop || command_of(key) is Attach,
    ensures
        next_state(s, Event::Key(key)) == s,
        !render_requested(s, Event::Key(key)),
        s.cursor < s.roster.len() ==> key_effects(s, key).len() == 1 && key_effects(s, key)[0]
            == match command_of(key) {
            Command::Start => EffectView::Start(s.roster[s.cursor as int].name),
            Command::Stop => EffectView::Stop(s.roster[s.cursor as int].name),
            _ => EffectView::Attach(s.roster[s.cursor as int].name),
        },
        s.cursor >= s.roster.len() ==> key_effects(s, key).len() == 0,
        effects_of(s, Event::Key(key)) == seq![EffectView::List] + key_effects(s, key),
{
}

/// Over an empty roster no key changes the state, and none has the panel
/// drawn again.
pub proof fn lemma_empty_roster_keys(s: StateView, key: Key)
    requires
        s.roster.len() == 0,
    ensures
        next_state(s, Event::Key(key)) == s,
        !render_requested(s, Event::Key(key)),
{
}

/// Every event leads to a request for a new listing, before any other.
pub proof fn lemma_listing_always_requested(s: StateView, event: Event)
    ensures
        effects_of(s, event).len() >= 1,
        effects_of(s, event)[0] == EffectView::List,
{
}

} // verus!
