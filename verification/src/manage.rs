//! The screens beside a session: past sessions, personas and the configuration.

use vstd::prelude::*;

use crate::app;
use crate::app::{Action, CoachApp, Stage};
use crate::draft::PersonaDraft;
use crate::history;

verus! {

/// What can be pressed in the list of personas. The number is the position of the
/// persona that a button belongs to.
#[derive(Debug)]
pub enum PersonaPress {
    Back,
    /// Ask for the history to be cleared; this is to be confirmed.
    ClearHistory(usize),
    ConfirmClear(usize),
    CancelClear(usize),
    SetActive(usize),
    Edit(usize),
    Delete(usize),
    Create,
}

impl<A> CoachApp<A> {
    // ------------------------------------------------------------ past sessions

    /// The session that is selected: the one that was picked, or else the one that
    /// was selected before, where it is one of the persona's.
    pub open spec fn selection(self, selected: Option<usize>, picked: Option<usize>) -> Option<
        usize,
    > {
        let own = self.own_sessions();
        if own.len() == 0 {
            selected
        } else if picked is Some && own.contains(picked->0) {
            picked
        } else if selected is Some && own.contains(selected->0) {
            selected
        } else {
            None
        }
    }

    /// Selects a past session, or leaves them.
    pub fn past_sessions(&mut self, back: bool, trends: bool, picked: Option<usize>)
        requires
            old(self).wf(),
        ensures
            final(self).wf(),
            final(self).differs_in_stage(*old(self)),
            final(self).stage == match old(self).stage {
                Stage::History { selected } => if trends {
                    Stage::Trends
                } else if back {
                    Stage::Welcome
                } else {
                    Stage::History { selected: old(self).selection(selected, picked) }
                },
                _ => old(self).stage,
            },
    {
        if let Stage::History { selected } = &self.stage {
            let selected: Option<usize> = *selected;
            if trends {
                self.stage = Stage::Trends;
            } else if back {
                self.stage = Stage::Welcome;
            } else {
                self.stage = Stage::History { selected: self.select(selected, picked) };
            }
        }
    }

    fn select(&self, selected: Option<usize>, picked: Option<usize>) -> (r: Option<usize>)
        requires
            self.wf(),
        ensures
            r == self.selection(selected, picked),
    {
        let own = self.active_persona_indices();
        if own.len() == 0 {
            return selected;
        }
        if let Some(i) = picked {
            if holds(&own, i) {
                return picked;
            }
        }
        if let Some(i) = selected {
            if holds(&own, i) {
                return selected;
            }
        }
        None
    }

    /// The past session that is shown: the one that is selected, or else the
    /// persona's last one.
    pub fn shown_session(&self) -> (r: Option<usize>)
        requires
            self.wf(),
        ensures
            r == match self.stage {
                Stage::History { selected } => if self.own_sessions().len() == 0 {
                    None
                } else if selected is Some && self.own_sessions().contains(selected->0) {
                    selected
                } else {
                    Some(self.own_sessions().last())
                },
                _ => None,
            },
            r matches Some(i) ==> i < self.sessions@.len(),
    {
        if let Stage::History { selected } = &self.stage {
            let own = self.active_persona_indices();
            if own.len() == 0 {
                return None;
            }
            if let Some(i) = *selected {
                if holds(&own, i) {
                    return Some(i);
                }
            }
            return Some(own[own.len() - 1]);
        }
        None
    }

    /// Leaves the charts.
    pub fn trends(&mut self, back: bool, history: bool)
        requires
            old(self).wf(),
        ensures
            final(self).wf(),
            final(self).differs_in_stage(*old(self)),
            final(self).stage == match old(self).stage {
                Stage::Trends => if history {
                    Stage::History { selected: None }
                } else if back {
                    Stage::Welcome
                } else {
                    Stage::Trends
                },
                _ => old(self).stage,
            },
    {
        if let Stage::Trends = &self.stage {
            if history {
                self.stage = Stage::History { selected: None };
            } else if back {
                self.stage = Stage::Welcome;
            }
        }
    }

    // ------------------------------------------------------------ personas

    /// Whether a persona has any past sessions.
    pub open spec fn has_history(self, i: int) -> bool {
        history::owned_count(self.sessions@, self.persona_store.personas@[i].name@) > 0
    }

    /// Whether the list of personas offers a button. A history is cleared in two
    /// steps, and the last persona stays.
    pub open spec fn offers(self, press: PersonaPress) -> bool {
        let n = self.persona_store.personas@.len();
        &&& self.stage is Personas
        &&& match press {
            PersonaPress::Back => true,
            PersonaPress::ClearHistory(i) => i < n && self.has_history(i as int)
                && self.confirm_clear_idx != Some(i),
            PersonaPress::ConfirmClear(i) => i < n && self.has_history(i as int)
                && self.confirm_clear_idx == Some(i),
            PersonaPress::CancelClear(i) => i < n && self.has_history(i as int)
                && self.confirm_clear_idx == Some(i),
            PersonaPress::SetActive(i) => i < n && i != self.persona_store.active,
            PersonaPress::Edit(i) => i < n,
            PersonaPress::Delete(i) => i < n && n > 1,
            PersonaPress::Create => true,
        }
    }

    /// Whether the list of personas offers a button.
    pub fn is_offered(&self, press: &PersonaPress) -> (r: bool)
        ensures
            r == self.offers(*press),
    {
        let n: usize = self.persona_store.personas.len();
        if let Stage::Personas = &self.stage {
            match press {
                PersonaPress::Back => true,
                PersonaPress::ClearHistory(i) => *i < n && self.exercise_count(*i) > 0
                    && !is_at(self.confirm_clear_idx, *i),
                PersonaPress::ConfirmClear(i) => *i < n && self.exercise_count(*i) > 0 && is_at(
                    self.confirm_clear_idx,
                    *i,
                ),
                PersonaPress::CancelClear(i) => *i < n && self.exercise_count(*i) > 0 && is_at(
                    self.confirm_clear_idx,
                    *i,
                ),
                PersonaPress::SetActive(i) => *i < n && *i != self.persona_store.active,
                PersonaPress::Edit(i) => *i < n,
                PersonaPress::Delete(i) => *i < n && n > 1,
                PersonaPress::Create => true,
            }
        } else {
            false
        }
    }

    /// How many past sessions a persona has.
    pub fn exercise_count(&self, i: usize) -> (r: usize)
        requires
            i < self.persona_store.personas@.len(),
        ensures
            r == history::owned_count(
                self.sessions@,
                self.persona_store.personas@[i as int].name@,
            ),
    {
        history::count_for_persona(
            &self.sessions,
            self.persona_store.personas[i].name.as_str(),
        )
    }

    /// Follows a press in the list of personas.
    pub fn personas_list(&mut self, press: PersonaPress) -> (r: Vec<Action>)
        requires
            old(self).wf(),
        ensures
            final(self).wf(),
            final(self).mic_follows(*old(self), r@),
            !old(self).offers(press) ==> *final(self) == *old(self) && r@.len() == 0,
            old(self).offers(press) ==> match press {
                PersonaPress::Back => {
                    &&& final(self).stage is Welcome
                    &&& final(self).differs_in_stage(*old(self))
                    &&& r@.len() == 0
                },
                PersonaPress::ClearHistory(i) => {
                    &&& *final(self) == (CoachApp { confirm_clear_idx: Some(i), ..*old(self) })
                    &&& r@.len() == 0
                },
                PersonaPress::ConfirmClear(i) => {
                    &&& *final(self) == (CoachApp { confirm_clear_idx: None, ..*old(self) })
                    &&& r@.len() == 1
                    &&& r@[0] matches Action::ClearHistory(name)
                    &&& name@ == old(self).persona_store.personas@[i as int].name@
                },
                PersonaPress::CancelClear(i) => {
                    &&& *final(self) == (CoachApp { confirm_clear_idx: None, ..*old(self) })
                    &&& r@.len() == 0
                },
                PersonaPress::SetActive(i) => {
                    &&& final(self).persona_store.active == i
                    &&& final(self).persona_store.personas == old(self).persona_store.personas
                    &&& *final(self) == (CoachApp {
                        persona_store: final(self).persona_store,
                        ..*old(self)
                    })
                    &&& r@ == seq![Action::SavePersonas]
                },
                PersonaPress::Edit(i) => {
                    &&& final(self).stage matches Stage::EditPersona { draft }
                    &&& draft.shows(Some(i), old(self).persona_store.personas@[i as int])
                    &&& final(self).differs_in_stage(*old(self))
                    &&& r@.len() == 0
                },
                PersonaPress::Delete(i) => {
                    &&& final(self).persona_store.personas@
                        == old(self).persona_store.personas@.remove(i as int)
                    &&& final(self).persona_store.active
                        == crate::personas::active_after_removal(
                        old(self).persona_store.active as int,
                        i as int,
                        old(self).persona_store.personas@.len() as int,
                    )
                    &&& *final(self) == (CoachApp {
                        persona_store: final(self).persona_store,
                        ..*old(self)
                    })
                    &&& r@ == seq![Action::SavePersonas]
                },
                PersonaPress::Create => {
                    &&& final(self).stage matches Stage::EditPersona { draft }
                    &&& draft.is_empty()
                    &&& final(self).differs_in_stage(*old(self))
                    &&& r@.len() == 0
                },
            },
    {
        proof {
            reveal_with_fuel(app::mic_after, 4);
        }
        let mut actions: Vec<Action> = Vec::new();
        if !self.is_offered(&press) {
            return actions;
        }
        match press {
            PersonaPress::Back => {
                self.stage = Stage::Welcome;
            },
            PersonaPress::ClearHistory(i) => {
                self.confirm_clear_idx = Some(i);
            },
            PersonaPress::ConfirmClear(i) => {
                self.confirm_clear_idx = None;
                actions.push(Action::ClearHistory(self.persona_store.personas[i].name.clone()));
            },
            PersonaPress::CancelClear(_) => {
                self.confirm_clear_idx = None;
            },
            PersonaPress::SetActive(i) => {
                self.persona_store.set_active(i);
                actions.push(Action::SavePersonas);
            },
            PersonaPress::Edit(i) => {
                let draft = PersonaDraft::from_persona(Some(i), &self.persona_store.personas[i]);
                self.stage = Stage::EditPersona { draft };
            },
            PersonaPress::Delete(i) => {
                self.persona_store.remove(i);
                actions.push(Action::SavePersonas);
            },
            PersonaPress::Create => {
                self.stage = Stage::EditPersona { draft: PersonaDraft::new() };
            },
        }
        actions
    }

    /// Tries out a voice, saves the draft where it has a name, or drops it. A new
    /// persona becomes the active one.
    pub fn edit_persona(&mut self, preview: bool, save: bool, cancel: bool, busy: bool) -> (r: Vec<
        Action,
    >)
        requires
            old(self).wf(),
        ensures
            final(self).wf(),
            final(self).mic_follows(*old(self), r@),
            match old(self).stage {
                Stage::EditPersona { draft } => {
                    let spoken: int = if old(self).replays(preview, busy) {
                        1
                    } else {
                        0
                    };
                    let saves = save && draft.has_name();
                    &&& r@.len() >= spoken
                    &&& spoken == 1 ==> {
                        &&& r@[0] matches Action::Speak { text, voice_id }
                        &&& text@ == app::VOICE_SAMPLE@
                        &&& voice_id == draft.voice_id
                    }
                    &&& r@.skip(spoken) == if saves {
                        seq![Action::SavePersonas]
                    } else {
                        seq![]
                    }
                    &&& final(self).stage == if saves || cancel {
                        Stage::<A>::Personas
                    } else {
                        old(self).stage
                    }
                    &&& !saves ==> final(self).persona_store == old(self).persona_store
                    &&& saves ==> match draft.edit_idx {
                        Some(i) => {
                            let p = final(self).persona_store.personas@[i as int];
                            &&& draft.describes(p)
                            &&& final(self).persona_store.personas@
                                == old(self).persona_store.personas@.update(i as int, p)
                            &&& final(self).persona_store.active
                                == old(self).persona_store.active
                        },
                        None => {
                            let p = final(self).persona_store.personas@.last();
                            &&& draft.describes(p)
                            &&& final(self).persona_store.personas@
                                == old(self).persona_store.personas@.push(p)
                            &&& final(self).persona_store.active
                                == old(self).persona_store.personas@.len()
                        },
                    }
                    &&& *final(self) == (CoachApp {
                        stage: final(self).stage,
                        persona_store: final(self).persona_store,
                        ..*old(self)
                    })
                },
                _ => *final(self) == *old(self) && r@.len() == 0,
            },
    {
        proof {
            reveal_with_fuel(app::mic_after, 4);
        }
        let mut actions: Vec<Action> = Vec::new();
        match self.take_stage() {
            Stage::EditPersona { draft } => {
                if preview && self.tts_ready && !busy {
                    actions.push(
                        Action::Speak {
                            text: String::from_str(app::VOICE_SAMPLE),
                            voice_id: draft.voice_id,
                        },
                    );
                }
                if save && draft.can_save() {
                    let place: Option<usize> = draft.edit_idx;
                    let persona = draft.into_persona();
                    self.persona_store.put(place, persona);
                    actions.push(Action::SavePersonas);
                    self.stage = Stage::Personas;
                } else if cancel {
                    self.stage = Stage::Personas;
                } else {
                    self.stage = Stage::EditPersona { draft };
                }
            },
            other => {
                self.stage = other;
            },
        }
        actions
    }

    // ------------------------------------------------------------ configuration

    /// Tests the microphone, or leaves the configuration. A test ends by itself
    /// after a while.
    pub fn debug(&mut self, back: bool, start: bool, stop: bool, elapsed: u64) -> (r: Vec<Action>)
        requires
            old(self).wf(),
        ensures
            final(self).wf(),
            r@ != seq![Action::FinishRecording] ==> final(self).mic_follows(*old(self), r@),
            final(self).differs_in_stage(*old(self)),
            match old(self).stage {
                Stage::Debug { test_recording, test_result } => {
                    &&& final(self).stage == if back {
                        Stage::<A>::Welcome
                    } else {
                        Stage::<A>::Debug {
                            test_recording: test_recording || start,
                            test_result,
                        }
                    }
                    &&& r@ == if back && test_recording {
                        seq![Action::DropRecording]
                    } else if !back && !test_recording && start {
                        seq![Action::OpenMic]
                    } else if !back && test_recording && (stop || elapsed > app::TEST_MAX) {
                        seq![Action::FinishRecording]
                    } else {
                        seq![]
                    }
                },
                _ => final(self).stage == old(self).stage && r@.len() == 0,
            },
    {
        proof {
            reveal_with_fuel(app::mic_after, 3);
        }
        let mut actions: Vec<Action> = Vec::new();
        match self.take_stage() {
            Stage::Debug { test_recording, test_result } => {
                if back {
                    if test_recording {
                        actions.push(Action::DropRecording);
                    }
                } else {
                    if test_recording {
                        if stop || elapsed > app::TEST_MAX {
                            actions.push(Action::FinishRecording);
                        }
                    } else if start {
                        actions.push(Action::OpenMic);
                    }
                    self.stage = Stage::Debug {
                        test_recording: test_recording || start,
                        test_result,
                    };
                }
            },
            other => {
                self.stage = other;
            },
        }
        actions
    }
}

fn is_at(position: Option<usize>, i: usize) -> (r: bool)
    ensures
        r == (position == Some(i)),
{
    match position {
        Some(k) => k == i,
        None => false,
    }
}

fn holds(list: &Vec<usize>, i: usize) -> (r: bool)
    ensures
        r == list@.contains(i),
{
    let mut k: usize = 0;
    while k < list.len()
        invariant
            k <= list.len(),
            forall|j: int| 0 <= j < k ==> list@[j] != i,
        decreases list.len() - k,
    {
        if list[k] == i {
            return true;
        }
        k += 1;
    }
    false
}

/// The session that is selected is the persona's, where it has any. The one that was
/// picked comes first, if it is the persona's, then the one that was selected. Where the
/// persona has none, the selection stays.
pub proof fn law_selection_is_the_personas<A>(
    app: CoachApp<A>,
    selected: Option<usize>,
    picked: Option<usize>,
)
    ensures
        app.own_sessions().len() == 0 ==> app.selection(selected, picked) == selected,
        app.own_sessions().len() > 0 ==> ({
            let own = app.own_sessions();
            let mine = |i: Option<usize>| i is Some && own.contains(i->0);
            let r = app.selection(selected, picked);
            &&& r is Some ==> own.contains(r->0) && (r == picked || r == selected)
            &&& mine(picked) ==> r == picked
            &&& !mine(picked) && mine(selected) ==> r == selected
            &&& !mine(picked) && !mine(selected) ==> r is None
        }),
{
}

/// A persona has a history just where a session belongs to it.
pub proof fn law_history_is_what_belongs<A>(app: CoachApp<A>, i: int)
    ensures
        app.has_history(i) <==> exists|k: int|
            0 <= k < app.sessions@.len() && history::owner(#[trigger] app.sessions@[k])
                == app.persona_store.personas@[i].name@,
{
    lemma_owned(app.sessions@, app.persona_store.personas@[i].name@);
}

proof fn lemma_owned(sessions: Seq<history::Session>, name: Seq<char>)
    ensures
        history::owned_count(sessions, name) > 0 <==> exists|k: int|
            0 <= k < sessions.len() && history::owner(#[trigger] sessions[k]) == name,
    decreases sessions.len(),
{
    reveal(Seq::filter);
    if sessions.len() > 0 {
        let front = sessions.drop_last();
        let n = front.len() as int;
        lemma_owned(front, name);
        assert(sessions.last() == sessions[n]);
        if history::owned_count(front, name) > 0 {
            let k = choose|k: int|
                0 <= k < front.len() && history::owner(#[trigger] front[k]) == name;
            assert(sessions[k] == front[k]);
        }
        if exists|k: int| 0 <= k < sessions.len() && history::owner(#[trigger] sessions[k]) == name {
            let k = choose|k: int|
                0 <= k < sessions.len() && history::owner(#[trigger] sessions[k]) == name;
            if k < n {
                assert(front[k] == sessions[k]);
            }
        }
    }
}

/// Beside the list of personas nothing is offered. In it one can go back and create; each
/// persona can be edited, any but the active one made active, and any but the last one
/// deleted. A history that there is can be cleared: first that is asked for, and then,
/// for the persona that it was asked for, it is confirmed or called off.
pub proof fn law_personas_can_be_managed<A>(app: CoachApp<A>, press: PersonaPress, i: usize)
    ensures
        !(app.stage is Personas) ==> !app.offers(press),
        app.stage is Personas ==> {
            let listed = i < app.persona_store.personas@.len();
            &&& app.offers(PersonaPress::Back) && app.offers(PersonaPress::Create)
            &&& app.offers(PersonaPress::Edit(i)) <==> listed
            &&& app.offers(PersonaPress::Delete(i)) <==> listed
                && app.persona_store.personas@.len() >= 2
            &&& app.offers(PersonaPress::SetActive(i)) <==> listed && i
                != app.persona_store.active
            &&& app.offers(PersonaPress::ClearHistory(i)) || app.offers(
                PersonaPress::ConfirmClear(i),
            ) <==> listed && app.has_history(i as int)
            &&& !(app.offers(PersonaPress::ClearHistory(i)) && app.offers(
                PersonaPress::ConfirmClear(i),
            ))
            &&& app.offers(PersonaPress::ConfirmClear(i)) ==> app.confirm_clear_idx == Some(i)
            &&& app.offers(PersonaPress::ConfirmClear(i)) == app.offers(
                PersonaPress::CancelClear(i),
            )
            &&& app.offers(PersonaPress::ClearHistory(i)) ==> app.confirm_clear_idx != Some(i)
        },
{
}

} // verus!
