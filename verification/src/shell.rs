//! The shell that hosts the games under one menu.

use vstd::prelude::*;
use crate::input::{Frame, Keys};

verus! {

/// A game that the shell can host: it is ticked once per frame while it is
/// active, and reset when it asks to leave.
///
/// The three spec functions say what a game promises of itself. A game that
/// leaves them as they are promises nothing.
pub trait Game: Sized {
    /// The states in which the game may be ticked and reset.
    open spec fn valid(&self) -> bool {
        true
    }

    /// Whether one tick on `frame` may take the game from `self` to `after`
    /// and answer `exit`.
    open spec fn ticks_to(&self, frame: Frame, after: Self, exit: bool) -> bool {
        true
    }

    /// Whether a reset may take the game from `self` to `after`.
    open spec fn resets_to(&self, after: Self) -> bool {
        true
    }

    /// Advances the game by one frame and says whether it asks to leave.
    fn tick(&mut self, frame: &Frame) -> (exit: bool)
        requires
            old(self).valid(),
        ensures
            final(self).valid(),
            old(self).ticks_to(*frame, *final(self), exit),
    ;

    /// Puts the game back to its start.
    fn reset(&mut self)
        requires
            old(self).valid(),
        ensures
            final(self).valid(),
            old(self).resets_to(*final(self)),
    ;
}

/// Which part of the hub is doing the work: the menu, or the game at a
/// place of the registry.
#[derive(Clone, Copy, PartialEq, Eq, Structural, Debug)]
pub enum ActiveSlot {
    Menu,
    Game(usize),
}

/// What a shell is: the registry of names and games, the selected entry of
/// the menu, and the active slot.
pub struct Shell<G> {
    pub names: Seq<Seq<char>>,
    pub games: Seq<G>,
    pub selected: nat,
    pub slot: ActiveSlot,
}

impl<G: Game> Shell<G> {
    /// Each game has a name and is valid, the selection is an entry of the
    /// registry (entry zero while it is empty), and an active game is one of
    /// the registry.
    pub open spec fn wf(self) -> bool {
        &&& self.names.len() == self.games.len()
        &&& self.games.len() == 0 ==> self.selected == 0
        &&& self.games.len() > 0 ==> self.selected < self.games.len()
        &&& self.slot matches ActiveSlot::Game(i) ==> i < self.games.len()
        &&& forall|i: int| 0 <= i < self.games.len() ==> (#[trigger] self.games[i]).valid()
    }

    /// The selection one entry up, from the first entry to the last.
    pub open spec fn up(self) -> Shell<G> {
        if self.games.len() == 0 {
            self
        } else if self.selected == 0 {
            Shell { selected: (self.games.len() - 1) as nat, ..self }
        } else {
            Shell { selected: (self.selected - 1) as nat, ..self }
        }
    }

    /// The selection one entry down, from the last entry to the first.
    pub open spec fn down(self) -> Shell<G> {
        if self.games.len() == 0 {
            self
        } else {
            Shell { selected: (self.selected + 1) % (self.games.len() as int) as nat, ..self }
        }
    }

    /// The selected game made active.
    pub open spec fn confirmed(self) -> Shell<G> {
        if self.games.len() == 0 {
            self
        } else {
            Shell { slot: ActiveSlot::Game(self.selected as usize), ..self }
        }
    }

    /// The shell after the keys of one frame in the menu: up, down and
    /// confirm, each applied in this order to what the one before left.
    pub open spec fn after_menu(self, keys: Keys) -> Shell<G> {
        let a = if keys.up {
            self.up()
        } else {
            self
        };
        let b = if keys.down {
            a.down()
        } else {
            a
        };
        if keys.enter {
            b.confirmed()
        } else {
            b
        }
    }

    /// One frame with game `i` active takes the shell to `after`: the game
    /// is ticked to `mid` and answers `exit`; if it asks to leave it is reset
    /// and the menu becomes active, otherwise it stays active as the tick
    /// left it. Nothing else changes.
    pub open spec fn steps_game(self, i: int, frame: Frame, after: Shell<G>, exit: bool, mid: G) -> bool {
        &&& self.games[i].ticks_to(frame, mid, exit)
        &&& after.names == self.names
        &&& after.selected == self.selected
        &&& after.games.len() == self.games.len()
        &&& forall|j: int| 0 <= j < self.games.len() && j != i ==> after.games[j] == self.games[j]
        &&& exit ==> mid.resets_to(after.games[i]) && after.slot is Menu
        &&& !exit ==> after.games[i] == mid && after.slot == self.slot
    }

    /// One frame takes the shell to `after`: in the menu the keys are
    /// applied; with a game active the frame goes to that game.
    pub open spec fn ticks_to(self, frame: Frame, after: Shell<G>) -> bool {
        match self.slot {
            ActiveSlot::Menu => after == self.after_menu(frame.keys),
            ActiveSlot::Game(i) => exists|exit: bool, mid: G| #[trigger]
                self.steps_game(i as int, frame, after, exit, mid),
        }
    }
}

/// Menu navigation wraps: up from the first entry selects the last, and
/// down from the last entry selects the first.
pub proof fn lemma_menu_wraps<G: Game>(s: Shell<G>)
    requires
        s.wf(),
        s.games.len() > 0,
    ensures
        s.selected == 0 ==> s.up().selected == s.games.len() - 1,
        s.selected == s.games.len() - 1 ==> s.down().selected == 0,
        s.selected > 0 ==> s.up().selected == s.selected - 1,
        s.selected < s.games.len() - 1 ==> s.down().selected == s.selected + 1,
        s.up().wf(),
        s.down().wf(),
{
    let n = s.games.len() as int;
    let k = s.selected as int;
    if k == n - 1 {
        assert((k + 1) % n == 0) by (nonlinear_arith)
            requires
                k + 1 == n,
                n > 0,
        ;
    } else {
        assert((k + 1) % n == k + 1) by (nonlinear_arith)
            requires
                0 <= k + 1 < n,
        ;
    }
}

/// Confirming in the menu makes the selected game active and leaves every
/// game as it was.
pub proof fn lemma_confirm_activates<G: Game>(s: Shell<G>, keys: Keys)
    requires
        s.wf(),
        s.slot is Menu,
        s.games.len() > 0,
        keys.enter,
        !keys.up,
        !keys.down,
    ensures
        s.after_menu(keys).slot == ActiveSlot::Game(s.selected as usize),
        s.after_menu(keys).games == s.games,
        s.after_menu(keys).selected == s.selected,
        s.after_menu(keys).wf(),
{
}

/// A frame in which the active game asks to leave ends with the menu
/// active, the selection where it was, and that game in a state that its
/// reset produced from the state its tick left.
pub proof fn lemma_exit_returns_to_menu<G: Game>(
    s: Shell<G>,
    i: usize,
    frame: Frame,
    after: Shell<G>,
    mid: G,
)
    requires
        s.wf(),
        s.slot == ActiveSlot::Game(i),
        s.steps_game(i as int, frame, after, true, mid),
    ensures
        s.ticks_to(frame, after),
        after.slot is Menu,
        after.selected == s.selected,
        s.games[i as int].ticks_to(frame, mid, true),
        mid.resets_to(after.games[i as int]),
        forall|j: int| 0 <= j < s.games.len() && j != i ==> after.games[j] == s.games[j],
{
}

/// The hub's shell: the registry of games, the menu selection and the
/// active slot.
pub struct GameShell<G: Game> {
    names: Vec<String>,
    games: Vec<G>,
    selected: usize,
    slot: ActiveSlot,
}

impl<G: Game> View for GameShell<G> {
    type V = Shell<G>;

    closed spec fn view(&self) -> Shell<G> {
        Shell {
            names: Seq::new(self.names.len() as nat, |i: int| self.names[i]@),
            games: self.games@,
            selected: self.selected as nat,
            slot: self.slot,
        }
    }
}

impl<G: Game> GameShell<G> {
    /// The shell stands for a well-formed registry.
    pub open spec fn wf(&self) -> bool {
        self@.wf()
    }

    /// A shell with an empty registry, in the menu.
    pub fn new() -> (shell: GameShell<G>)
        ensures
            shell.wf(),
            shell@ == (Shell::<G> {
                names: Seq::empty(),
                games: Seq::empty(),
                selected: 0,
                slot: ActiveSlot::Menu,
            }),
    {
        let shell = GameShell { names: Vec::new(), games: Vec::new(), selected: 0, slot: ActiveSlot::Menu };
        assert(shell@.names =~= Seq::<Seq<char>>::empty());
        shell
    }

    /// Adds a game under a name at the end of the registry.
    pub fn register(&mut self, name: String, game: G)
        requires
            old(self).wf(),
            game.valid(),
        ensures
            final(self).wf(),
            final(self)@ == (Shell {
                names: old(self)@.names.push(name@),
                games: old(self)@.games.push(game),
                ..old(self)@
            }),
    {
        self.names.push(name);
        self.games.push(game);
        assert(self@.names =~= old(self)@.names.push(name@));
    }

    /// Number of registered games.
    pub fn len(&self) -> (n: usize)
        requires
            self.wf(),
        ensures
            n == self@.games.len(),
    {
        self.games.len()
    }

    /// The selected entry of the menu.
    pub fn selected(&self) -> (i: usize)
        ensures
            i == self@.selected,
    {
        self.selected
    }

    /// The active slot.
    pub fn slot(&self) -> (slot: ActiveSlot)
        ensures
            slot == self@.slot,
    {
        self.slot
    }

    /// The name of the game at place `i`, if there is one.
    pub fn name(&self, i: usize) -> (name: Option<&String>)
        requires
            self.wf(),
        ensures
            name.is_some() <==> i < self@.names.len(),
            name matches Some(n) ==> n@ == self@.names[i as int],
    {
        if i < self.names.len() {
            Some(&self.names[i])
        } else {
            None
        }
    }

    /// The game at place `i`, if there is one.
    pub fn game(&self, i: usize) -> (game: Option<&G>)
        requires
            self.wf(),
        ensures
            game.is_some() <==> i < self@.games.len(),
            game matches Some(g) ==> *g == self@.games[i as int] && g.valid(),
    {
        if i < self.games.len() {
            Some(&self.games[i])
        } else {
            None
        }
    }

    /// Applies the keys of one frame to the menu: up and down move the
    /// selection and wrap around, enter makes the selected game active.
    pub fn handle_menu_input(&mut self, keys: &Keys)
        requires
            old(self).wf(),
        ensures
            final(self).wf(),
            final(self)@ == old(self)@.after_menu(*keys),
    {
        let n: usize = self.games.len();
        if n == 0 {
            return ;
        }
        if keys.up {
            self.selected = if self.selected == 0 {
                n - 1
            } else {
                self.selected - 1
            };
        }
        if keys.down {
            self.selected = (self.selected + 1) % n;
            proof {
                lemma_menu_wraps(
                    if keys.up {
                        old(self)@.up()
                    } else {
                        old(self)@
                    },
                );
            }
        }
        if keys.enter {
            self.slot = ActiveSlot::Game(self.selected);
        }
    }

    /// One frame of the hub. In the menu the keys move the selection or
    /// start the selected game. With a game active the frame is handed to
    /// that game; when it asks to leave, it is reset and the menu becomes
    /// active again.
    pub fn tick(&mut self, frame: &Frame)
        requires
            old(self).wf(),
        ensures
            final(self).wf(),
            old(self)@.ticks_to(*frame, final(self)@),
    {
        match self.slot {
            ActiveSlot::Menu => {
                self.handle_menu_input(&frame.keys);
            },
            ActiveSlot::Game(i) => {
                let exit = self.games[i].tick(frame);
                let ghost mid = self.games[i as int];
                if exit {
                    self.games[i].reset();
                    self.slot = ActiveSlot::Menu;
                }
                assert(old(self)@.steps_game(i as int, *frame, self@, exit, mid));
            },
        }
    }
}

} // verus!
