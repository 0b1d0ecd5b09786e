use crate::db::Text;
use crate::race::Race;
use vstd::prelude::*;

verus! {

/// The phase the game is in: the menu, a running round, or the results screen.
#[derive(Debug, Clone)]
pub enum GameState {
    New,
    Running,
    Complete,
}

/// An input event the presentation layer hands to the game: start a round,
/// quit, or the text field's new contents.
#[derive(Debug, Clone)]
pub enum Message {
    GameStart,
    GameQuit,
    OnInput(String),
}

/// The whole game: its phase, at most one current session, the last finished
/// session kept for the results screen, and the running totals.
#[derive(Debug, Clone)]
pub struct Application {
    pub state: GameState,
    pub session: Option<Race>,
    pub previous_session: Option<Race>,
    pub score: u64,
    pub playcount: u64,
}

impl Application {
    /// A fresh game: at the menu, no session, nothing scored or played yet.
    pub fn new() -> (r: Application)
        ensures
            r.state is New,
            r.session is None,
            r.previous_session is None,
            r.score == 0,
            r.playcount == 0,
    {
        Application {
            state: GameState::New,
            session: None,
            previous_session: None,
            score: 0,
            playcount: 0,
        }
    }

    /// Begins a round over the given text: a fresh session becomes current,
    /// the game runs, and one more play is counted.
    pub fn start_game(&mut self, text: Text)
        requires
            old(self).playcount < u64::MAX,
        ensures
            final(self).state is Running,
            final(self).session is Some,
            (final(self).session->0).wf(),
            (final(self).session->0).line@ == text.text@,
            (final(self).session->0).source@ == text.source@,
            (final(self).session->0).input@ == Seq::<char>::empty(),
            (final(self).session->0).start is None,
            (final(self).session->0).end is None,
            final(self).playcount == old(self).playcount + 1,
            final(self).score == old(self).score,
            final(self).previous_session == old(self).previous_session,
    {
        self.session = Some(Race::with_line(text));
        self.state = GameState::Running;
        self.playcount = self.playcount + 1;
    }

    /// Closes the finished round: its score joins the total, the session is
    /// retired to `previous_session`, and the results screen is shown.
    pub fn complete(&mut self)
        requires
            old(self).session is Some,
            (old(self).session->0).wf(),
            (old(self).session->0).completed(),
            old(self).score + (old(self).session->0).score_spec(0) <= u64::MAX,
        ensures
            final(self).state is Complete,
            final(self).session is None,
            final(self).previous_session == old(self).session,
            final(self).score as int == old(self).score + (old(self).session->0).score_spec(0),
            final(self).playcount == old(self).playcount,
    {
        let sess = self.session.take();
        match sess {
            Some(r) => {
                let pts = r.score();
                proof {
                    crate::race::lemma_completed_iff_ended(r);
                    if r.end is None {
                        assert(r.line@.len() == 0);
                        assert(r.input@.len() == 0);
                        assert(r.start is None);
                    }
                }
                self.score = self.score + pts;
                self.previous_session = Some(r);
                self.state = GameState::Complete;
            },
            None => {
                proof {
                    assert(false);
                }
            },
        }
    }
}

} // verus!
