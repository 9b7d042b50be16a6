use vstd::prelude::*;

verus! {

/// The screens of the game.
#[derive(Clone, Copy, Debug, PartialEq, Eq, Hash, Structural)]
pub enum GameState {
    MainMenu,
    Playing,
    Restarting,
    Victory,
    Defeat,
}

impl Default for GameState {
    /// The game opens on the main menu.
    fn default() -> (r: Self)
        ensures
            r == GameState::MainMenu,
    {
        GameState::MainMenu
    }
}

/// A change of screen that some part of the game asks for during a frame.
#[derive(Clone, Copy, Debug, PartialEq, Eq, Structural)]
pub enum StateRequest {
    /// The menu's play button was pressed.
    StartGame,
    /// The player was destroyed or crashed.
    Lose,
    /// The enemy ship is gone.
    Win,
    /// The restart key was pressed on the victory or defeat screen.
    Restart,
    /// The old round has been cleared away.
    Resume,
}

/// The screen a request leads to.
pub open spec fn target(r: StateRequest) -> GameState {
    match r {
        StateRequest::StartGame => GameState::Playing,
        StateRequest::Lose => GameState::Defeat,
        StateRequest::Win => GameState::Victory,
        StateRequest::Restart => GameState::Restarting,
        StateRequest::Resume => GameState::Playing,
    }
}

/// Whether the part of the game that makes a request runs on a screen:
/// the menu on the main menu, the combat rules while playing, the restart key
/// on the victory and defeat screens, the clean-up while restarting.
pub open spec fn heard(s: GameState, r: StateRequest) -> bool {
    match r {
        StateRequest::StartGame => s == GameState::MainMenu,
        StateRequest::Lose | StateRequest::Win => s == GameState::Playing,
        StateRequest::Restart => s == GameState::Victory || s == GameState::Defeat,
        StateRequest::Resume => s == GameState::Restarting,
    }
}

/// The screen after a frame on screen `s` in which `reqs` were made, in
/// order: the last request heard on `s` wins; with none, the screen stays.
pub open spec fn frame_result(s: GameState, reqs: Seq<StateRequest>) -> GameState
    decreases reqs.len(),
{
    if reqs.len() == 0 {
        s
    } else if heard(s, reqs.last()) {
        target(reqs.last())
    } else {
        frame_result(s, reqs.drop_last())
    }
}

fn heard_on(s: GameState, r: StateRequest) -> (b: bool)
    ensures
        b == heard(s, r),
{
    match r {
        StateRequest::StartGame => s == GameState::MainMenu,
        StateRequest::Lose | StateRequest::Win => s == GameState::Playing,
        StateRequest::Restart => s == GameState::Victory || s == GameState::Defeat,
        StateRequest::Resume => s == GameState::Restarting,
    }
}

/// The screen a request leads to.
pub fn target_of(r: StateRequest) -> (s: GameState)
    ensures
        s == target(r),
{
    match r {
        StateRequest::StartGame => GameState::Playing,
        StateRequest::Lose => GameState::Defeat,
        StateRequest::Win => GameState::Victory,
        StateRequest::Restart => GameState::Restarting,
        StateRequest::Resume => GameState::Playing,
    }
}

/// The screen for the next frame (see `frame_result`).
pub fn next_state(s: GameState, requests: &Vec<StateRequest>) -> (r: GameState)
    ensures
        r == frame_result(s, requests@),
{
    let mut cur = s;
    let mut i: usize = 0;
    while i < requests.len()
        invariant
            i <= requests.len(),
            cur == frame_result(s, requests@.take(i as int)),
        decreases requests.len() - i,
    {
        assert(requests@.take(i + 1).drop_last() =~= requests@.take(i as int));
        let r = requests[i];
        if heard_on(s, r) {
            cur = target_of(r);
        }
        i = i + 1;
    }
    assert(requests@.take(requests.len() as int) =~= requests@);
    cur
}

/// The round is won as soon as the enemy ship is gone, whatever UFOs remain.
pub fn check_victory(enemy_count: usize) -> (r: Option<StateRequest>)
    ensures
        r == (if enemy_count == 0 { Some(StateRequest::Win) } else { None }),
{
    if enemy_count == 0 {
        Some(StateRequest::Win)
    } else {
        None
    }
}

/// On the victory or defeat screen, the restart key clears the round away and
/// asks for a restart.
pub fn restart_game(restart_key_pressed: bool) -> (r: Option<StateRequest>)
    ensures
        r == (if restart_key_pressed { Some(StateRequest::Restart) } else { None }),
{
    if restart_key_pressed {
        Some(StateRequest::Restart)
    } else {
        None
    }
}

/// A menu button whose interaction changed this frame.
#[derive(Clone, Copy, Debug, PartialEq, Eq, Structural)]
pub struct MenuButton {
    pub pressed: bool,
    pub is_play: bool,
    pub is_quit: bool,
}

/// What the main menu does this frame.
#[derive(Clone, Copy, Debug, PartialEq, Eq, Structural)]
pub struct MenuOutcome {
    /// Ask for `StartGame`.
    pub start: bool,
    /// Close the application.
    pub quit: bool,
}

/// Pressing the play button starts the game; pressing the quit button closes it.
pub fn menu_interaction(buttons: &Vec<MenuButton>) -> (r: MenuOutcome)
    ensures
        r.start == exists|i: int| 0 <= i < buttons.len() && (#[trigger] buttons@[i]).pressed && buttons@[i].is_play,
        r.quit == exists|i: int| 0 <= i < buttons.len() && (#[trigger] buttons@[i]).pressed && buttons@[i].is_quit,
{
    let mut start = false;
    let mut quit = false;
    let mut i: usize = 0;
    while i < buttons.len()
        invariant
            i <= buttons.len(),
            start == exists|k: int| 0 <= k < i && (#[trigger] buttons@[k]).pressed && buttons@[k].is_play,
            quit == exists|k: int| 0 <= k < i && (#[trigger] buttons@[k]).pressed && buttons@[k].is_quit,
        decreases buttons.len() - i,
    {
        let b = buttons[i];
        if b.pressed {
            if b.is_play {
                start = true;
            }
            if b.is_quit {
                quit = true;
            }
        }
        i = i + 1;
    }
    MenuOutcome { start, quit }
}

/// The victory and defeat screens are left only through a restart.
pub proof fn lemma_end_screens_wait_for_restart(s: GameState, reqs: Seq<StateRequest>)
    requires
        s == GameState::Victory || s == GameState::Defeat,
    ensures
        frame_result(s, reqs) == s || frame_result(s, reqs) == GameState::Restarting,
    decreases reqs.len(),
{
    if reqs.len() > 0 {
        lemma_end_screens_wait_for_restart(s, reqs.drop_last());
    }
}

/// A round in play ends only in victory or defeat.
pub proof fn lemma_play_ends_in_victory_or_defeat(reqs: Seq<StateRequest>)
    ensures
        frame_result(GameState::Playing, reqs) == GameState::Playing || frame_result(GameState::Playing, reqs)
            == GameState::Victory || frame_result(GameState::Playing, reqs) == GameState::Defeat,
    decreases reqs.len(),
{
    if reqs.len() > 0 {
        lemma_play_ends_in_victory_or_defeat(reqs.drop_last());
    }
}

/// The main menu is left only for a round in play.
pub proof fn lemma_menu_leads_to_play(reqs: Seq<StateRequest>)
    ensures
        frame_result(GameState::MainMenu, reqs) == GameState::MainMenu || frame_result(GameState::MainMenu, reqs)
            == GameState::Playing,
    decreases reqs.len(),
{
    if reqs.len() > 0 {
        lemma_menu_leads_to_play(reqs.drop_last());
    }
}

/// Restarting after a victory or a defeat, then clearing up, starts a new round.
pub proof fn lemma_restart_starts_new_round(s: GameState)
    requires
        s == GameState::Victory || s == GameState::Defeat,
    ensures
        frame_result(frame_result(s, seq![StateRequest::Restart]), seq![StateRequest::Resume])
            == GameState::Playing,
{
    assert(seq![StateRequest::Restart].drop_last() =~= Seq::<StateRequest>::empty());
}

/// Within one frame of play, the last outcome asked for wins: a victory asked
/// after a defeat is a victory, and the other way round.
pub proof fn lemma_last_outcome_wins(reqs: Seq<StateRequest>, r: StateRequest)
    requires
        r == StateRequest::Win || r == StateRequest::Lose,
    ensures
        frame_result(GameState::Playing, reqs.push(r)) == target(r),
{
    assert(reqs.push(r).last() == r);
}

/// Requests that the current screen does not hear leave the screen as it is.
pub proof fn lemma_unheard_requests_ignored(s: GameState, reqs: Seq<StateRequest>)
    requires
        forall|i: int| 0 <= i < reqs.len() ==> !heard(s, #[trigger] reqs[i]),
    ensures
        frame_result(s, reqs) == s,
    decreases reqs.len(),
{
    if reqs.len() > 0 {
        lemma_unheard_requests_ignored(s, reqs.drop_last());
    }
}


/// Which request moves which screen, in full: play from the menu, defeat or
/// victory while playing, restart from the victory or defeat screen, and back
/// to play once restarted. A request made last in a frame decides the screen
/// when it is one of these; any other request leaves the screen as it is.
pub proof fn lemma_request_table(s: GameState, r: StateRequest, earlier: Seq<StateRequest>)
    ensures
        s == GameState::MainMenu && r == StateRequest::StartGame ==> frame_result(s, earlier.push(r)) == GameState::Playing,
        s == GameState::Playing && r == StateRequest::Lose ==> frame_result(s, earlier.push(r)) == GameState::Defeat,
        s == GameState::Playing && r == StateRequest::Win ==> frame_result(s, earlier.push(r)) == GameState::Victory,
        (s == GameState::Victory || s == GameState::Defeat) && r == StateRequest::Restart ==> frame_result(
            s,
            earlier.push(r),
        ) == GameState::Restarting,
        s == GameState::Restarting && r == StateRequest::Resume ==> frame_result(s, earlier.push(r))
            == GameState::Playing,
        !(s == GameState::MainMenu && r == StateRequest::StartGame) && !(s == GameState::Playing && (r
            == StateRequest::Lose || r == StateRequest::Win)) && !((s == GameState::Victory || s == GameState::Defeat)
            && r == StateRequest::Restart) && !(s == GameState::Restarting && r == StateRequest::Resume)
            ==> frame_result(s, earlier.push(r)) == frame_result(s, earlier),
        frame_result(s, Seq::<StateRequest>::empty()) == s,
{
    assert(earlier.push(r).drop_last() =~= earlier);
}

} // verus!
