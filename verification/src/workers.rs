//! How a session goes on when something from outside is reported: a reply of the
//! model, a recording, a transcript, a measurement.

use vstd::prelude::*;

use crate::analysis::DeliveryMetrics;
use crate::app::{Action, CoachApp, Stage};
use crate::coach;
use crate::stt::TranscriptionResult;
use crate::text;

verus! {

/// What is said where the model could not be asked.
pub open spec fn model_error_text(e: Seq<char>, model: Seq<char>) -> Seq<char> {
    "Ollama error: "@ + e + "\n\nIs `ollama serve` running and is the model `"@ + model
        + "` pulled?\nTry: `ollama pull "@ + model + "`"@
}

/// What is said where there is no transcript and no reason is known.
pub const NO_TRANSCRIBER: &'static str = "whisper not loaded";

/// Whether a session goes on from one stage to another with the recorded answer to
/// a follow-up.
pub open spec fn is_followup_recorded<A>(before: Stage<A>, samples: A, after: Stage<A>) -> bool {
    &&& before matches Stage::RecordingFollowup {
        theme,
        prompt,
        primary_transcript,
        primary_samples,
        followups,
        current,
        followup_answers,
    }
    &&& after == (Stage::TranscribingFollowup {
        theme,
        prompt,
        primary_transcript,
        primary_samples,
        followups,
        current,
        followup_answers,
        samples,
    })
}

/// Whether a session goes on from one stage to another with the transcript of the
/// answer to a follow-up: to the next follow-up, and after the last one to the
/// measuring of the main answer. The answer joins those that were given before.
pub open spec fn is_followup_answered<A>(before: Stage<A>, answer: String, after: Stage<A>) -> bool {
    &&& before matches Stage::TranscribingFollowup {
        theme,
        prompt,
        primary_transcript,
        primary_samples,
        followups,
        current,
        followup_answers,
        samples,
    }
    &&& if current + 1 < followups@.len() {
        &&& after matches Stage::RecordingFollowup {
            theme: theme2,
            prompt: prompt2,
            primary_transcript: transcript2,
            primary_samples: samples2,
            followups: followups2,
            current: current2,
            followup_answers: answers2,
        }
        &&& (theme2, prompt2, transcript2, samples2, followups2) == (
            theme,
            prompt,
            primary_transcript,
            primary_samples,
            followups,
        )
        &&& current2 == current + 1
        &&& answers2@ == followup_answers@.push(answer)
    } else {
        &&& after matches Stage::Measuring {
            theme: theme2,
            prompt: prompt2,
            transcript: transcript2,
            samples: samples2,
            followups: followups2,
            followup_answers: answers2,
        }
        &&& (theme2, prompt2, transcript2, samples2, followups2) == (
            theme,
            prompt,
            primary_transcript,
            primary_samples,
            followups,
        )
        &&& answers2@ == followup_answers@.push(answer)
    }
}

/// What is done where a session is given up: a recording under way is dropped.
pub open spec fn closes_mic<A>(stage: Stage<A>) -> Seq<Action> {
    if stage.records() {
        seq![Action::DropRecording]
    } else {
        seq![]
    }
}

impl<A> CoachApp<A> {
    /// Gives the session up and shows why.
    fn fail(&mut self, message: String) -> (r: Vec<Action>)
        ensures
            final(self).stage == Stage::<A>::Error(message),
            final(self).differs_in_stage(*old(self)),
            r@ == closes_mic(old(self).stage),
    {
        let mut actions: Vec<Action> = Vec::new();
        if self.stage.is_recording() {
            actions.push(Action::DropRecording);
        }
        self.stage = Stage::Error(message);
        actions
    }

    pub(crate) fn take_stage(&mut self) -> (r: Stage<A>)
        ensures
            r == old(self).stage,
            final(self).stage is Welcome,
            final(self).differs_in_stage(*old(self)),
    {
        let mut stage = Stage::Welcome;
        std::mem::swap(&mut stage, &mut self.stage);
        stage
    }

    /// Goes on when the model has replied, or could not be asked. A proposal is
    /// read and spoken. Follow-ups are asked one after the other, the first one
    /// now; where there are none, the answer is measured at once. Feedback ends
    /// the session. A reply that nothing waits for changes nothing. An error ends
    /// whatever is under way, and a recording with it.
    pub fn handle_stream_done(&mut self, done: Result<String, String>) -> (r: Vec<Action>)
        requires
            old(self).wf(),
        ensures
            final(self).wf(),
            final(self).mic_follows(*old(self), r@),
            final(self).differs_in_stage(*old(self)),
            match done {
                Err(e) => {
                    &&& r@ == closes_mic(old(self).stage)
                    &&& final(self).stage matches Stage::Error(m)
                    &&& m@ == model_error_text(e@, old(self).model_name@)
                },
                Ok(reply) => match old(self).stage {
                    Stage::ProposingTheme => {
                        &&& final(self).stage matches Stage::ConfirmReady { theme, prompt }
                        &&& theme@ == coach::proposed_theme(reply@)
                        &&& prompt@ == coach::proposed_prompt(reply@)
                        &&& r@.len() == 1
                        &&& old(self).reads_aloud(r@[0], prompt@)
                    },
                    Stage::AskingFollowups { theme, prompt, transcript, samples } => {
                        let questions = coach::followups_in(reply@);
                        if questions.len() == 0 {
                            &&& final(self).stage matches Stage::Measuring {
                                theme: theme2,
                                prompt: prompt2,
                                transcript: transcript2,
                                samples: samples2,
                                followups,
                                followup_answers,
                            }
                            &&& (theme2, prompt2, transcript2, samples2) == (
                                theme,
                                prompt,
                                transcript,
                                samples,
                            )
                            &&& followups@.len() == 0
                            &&& followup_answers@.len() == 0
                            &&& r@ == seq![Action::Measure]
                        } else {
                            &&& final(self).stage matches Stage::RecordingFollowup {
                                theme: theme2,
                                prompt: prompt2,
                                primary_transcript,
                                primary_samples,
                                followups,
                                current,
                                followup_answers,
                            }
                            &&& (theme2, prompt2, primary_transcript, primary_samples) == (
                                theme,
                                prompt,
                                transcript,
                                samples,
                            )
                            &&& text::texts(followups@) == questions
                            &&& current == 0
                            &&& followup_answers@.len() == 0
                            &&& r@.len() == 2
                            &&& old(self).reads_aloud(r@[0], questions[0])
                            &&& r@[1] is OpenMic
                        }
                    },
                    Stage::GeneratingFeedback {
                        theme,
                        prompt,
                        transcript,
                        followups,
                        followup_answers,
                        metrics,
                    } => {
                        &&& final(self).stage == (Stage::<A>::Feedback {
                            theme,
                            prompt,
                            transcript,
                            followups,
                            followup_answers,
                            metrics,
                            feedback: reply,
                            saved: false,
                        })
                        &&& r@.len() == 0
                    },
                    _ => final(self).stage == old(self).stage && r@.len() == 0,
                },
            },
    {
        proof {
            reveal_with_fuel(crate::app::mic_after, 4);
        }
        let reply = match done {
            Ok(reply) => reply,
            Err(e) => {
                let mut m = String::from_str("Ollama error: ");
                m.append(e.as_str());
                m.append("\n\nIs `ollama serve` running and is the model `");
                m.append(self.model_name.as_str());
                m.append("` pulled?\nTry: `ollama pull ");
                m.append(self.model_name.as_str());
                m.append("`");
                return self.fail(m);
            },
        };
        let mut actions: Vec<Action> = Vec::new();
        match self.take_stage() {
            Stage::ProposingTheme => {
                let (theme, prompt) = coach::parse_theme_response(reply.as_str());
                actions.push(self.speak(prompt.clone()));
                self.stage = Stage::ConfirmReady { theme, prompt };
            },
            Stage::AskingFollowups { theme, prompt, transcript, samples } => {
                let followups = coach::parse_numbered_questions(reply.as_str());
                if followups.len() == 0 {
                    actions.push(Action::Measure);
                    self.stage = Stage::Measuring {
                        theme,
                        prompt,
                        transcript,
                        samples,
                        followups,
                        followup_answers: Vec::new(),
                    };
                } else {
                    actions.push(self.speak(followups[0].clone()));
                    actions.push(Action::OpenMic);
                    assert(text::texts(followups@)[0] == followups@[0]@);
                    self.stage = Stage::RecordingFollowup {
                        theme,
                        prompt,
                        primary_transcript: transcript,
                        primary_samples: samples,
                        followups,
                        current: 0,
                        followup_answers: Vec::new(),
                    };
                }
            },
            Stage::GeneratingFeedback {
                theme,
                prompt,
                transcript,
                followups,
                followup_answers,
                metrics,
            } => {
                self.stage = Stage::Feedback {
                    theme,
                    prompt,
                    transcript,
                    followups,
                    followup_answers,
                    metrics,
                    feedback: reply,
                    saved: false,
                };
            },
            other => {
                self.stage = other;
            },
        }
        actions
    }

    /// Goes on when the delivery of the main answer has been measured: the model
    /// is asked for feedback.
    pub fn measured(&mut self, metrics: DeliveryMetrics) -> (r: Vec<Action>)
        requires
            old(self).wf(),
        ensures
            final(self).wf(),
            final(self).mic_follows(*old(self), r@),
            final(self).differs_in_stage(*old(self)),
            match old(self).stage {
                Stage::Measuring {
                    theme,
                    prompt,
                    transcript,
                    samples,
                    followups,
                    followup_answers,
                } => {
                    &&& final(self).stage == (Stage::<A>::GeneratingFeedback {
                        theme,
                        prompt,
                        transcript,
                        followups,
                        followup_answers,
                        metrics,
                    })
                    &&& r@.len() == 1
                    &&& old(self).puts(
                        r@[0],
                        coach::feedback_question(theme@, prompt@, transcript@, metrics),
                        4,
                        700,
                    )
                },
                _ => final(self).stage == old(self).stage && r@.len() == 0,
            },
    {
        proof {
            reveal_with_fuel(crate::app::mic_after, 4);
        }
        let mut actions: Vec<Action> = Vec::new();
        match self.take_stage() {
            Stage::Measuring {
                theme,
                prompt,
                transcript,
                samples: _,
                followups,
                followup_answers,
            } => {
                let messages = coach::feedback_messages(
                    self.persona_store.active(),
                    theme.as_str(),
                    prompt.as_str(),
                    transcript.as_str(),
                    &metrics,
                );
                actions.push(Action::Ask { messages, temperature_tenths: 4, max_tokens: 700 });
                self.stage = Stage::GeneratingFeedback {
                    theme,
                    prompt,
                    transcript,
                    followups,
                    followup_answers,
                    metrics,
                };
            },
            other => {
                self.stage = other;
            },
        }
        actions
    }

    /// Decides what becomes of a recording: it is transcribed, unless there is no
    /// program for it.
    pub fn launch_transcription(&self) -> (r: Action)
        ensures
            self.transcriber_ready ==> r is Transcribe,
            !self.transcriber_ready ==> {
                &&& r matches Action::TranscriptionFailed(e)
                &&& e@ == match self.transcriber_error {
                    Some(why) => why@,
                    None => NO_TRANSCRIBER@,
                }
            },
    {
        if self.transcriber_ready {
            return Action::Transcribe;
        }
        match &self.transcriber_error {
            Some(why) => Action::TranscriptionFailed(why.clone()),
            None => Action::TranscriptionFailed(String::from_str(NO_TRANSCRIBER)),
        }
    }

    /// Whether the actions are those that a recording calls for.
    pub open spec fn transcribes(self, actions: Seq<Action>) -> bool {
        &&& actions.len() == 1
        &&& self.transcriber_ready ==> actions[0] is Transcribe
        &&& !self.transcriber_ready ==> {
            &&& actions[0] matches Action::TranscriptionFailed(e)
            &&& e@ == match self.transcriber_error {
                Some(why) => why@,
                None => NO_TRANSCRIBER@,
            }
        }
    }

    /// Goes on when a recording has come in: it is to be transcribed.
    pub fn recording_finished(&mut self, samples: A) -> (r: Vec<Action>)
        requires
            old(self).wf(),
        ensures
            final(self).wf(),
            !final(self).stage.records(),
            final(self).differs_in_stage(*old(self)),
            match old(self).stage {
                Stage::Recording { theme, prompt } => {
                    &&& final(self).stage == (Stage::Transcribing { theme, prompt, samples })
                    &&& old(self).transcribes(r@)
                },
                Stage::RecordingFollowup { .. } => {
                    &&& is_followup_recorded(old(self).stage, samples, final(self).stage)
                    &&& old(self).transcribes(r@)
                },
                Stage::Debug { test_recording, test_result } => {
                    &&& final(self).stage == (Stage::<A>::Debug {
                        test_recording: false,
                        test_result,
                    })
                    &&& old(self).transcribes(r@)
                },
                _ => final(self).stage == old(self).stage && r@.len() == 0,
            },
    {
        let mut actions: Vec<Action> = Vec::new();
        match self.take_stage() {
            Stage::Recording { theme, prompt } => {
                self.stage = Stage::Transcribing { theme, prompt, samples };
                actions.push(self.launch_transcription());
            },
            Stage::RecordingFollowup {
                theme,
                prompt,
                primary_transcript,
                primary_samples,
                followups,
                current,
                followup_answers,
            } => {
                self.stage = Stage::TranscribingFollowup {
                    theme,
                    prompt,
                    primary_transcript,
                    primary_samples,
                    followups,
                    current,
                    followup_answers,
                    samples,
                };
                actions.push(self.launch_transcription());
            },
            Stage::Debug { test_recording: _, test_result } => {
                self.stage = Stage::Debug { test_recording: false, test_result };
                actions.push(self.launch_transcription());
            },
            other => {
                self.stage = other;
            },
        }
        actions
    }

    /// Goes on when a transcript has come in. That of the main answer leads to
    /// follow-ups. That of a follow-up is kept as its answer, and the next one is
    /// asked; after the last one the main answer is measured.
    pub fn handle_stt_done(&mut self, result: TranscriptionResult) -> (r: Vec<Action>)
        requires
            old(self).wf(),
        ensures
            final(self).wf(),
            final(self).mic_follows(*old(self), r@),
            final(self).differs_in_stage(*old(self)),
            match old(self).stage {
                Stage::Transcribing { theme, prompt, samples } => {
                    &&& final(self).stage == (Stage::AskingFollowups {
                        theme,
                        prompt,
                        transcript: result.text,
                        samples,
                    })
                    &&& r@.len() == 1
                    &&& old(self).puts(
                        r@[0],
                        coach::followup_question(theme@, prompt@, result.text@),
                        5,
                        300,
                    )
                },
                Stage::TranscribingFollowup { followups, current, .. } => {
                    &&& is_followup_answered(old(self).stage, result.text, final(self).stage)
                    &&& if current + 1 < followups@.len() {
                        &&& r@.len() == 2
                        &&& old(self).reads_aloud(r@[0], followups@[current + 1]@)
                        &&& r@[1] is OpenMic
                    } else {
                        r@ == seq![Action::Measure]
                    }
                },
                Stage::Debug { test_recording, test_result } => {
                    &&& final(self).stage == (Stage::<A>::Debug {
                        test_recording,
                        test_result: Some(Ok(result)),
                    })
                    &&& r@.len() == 0
                },
                _ => final(self).stage == old(self).stage && r@.len() == 0,
            },
    {
        proof {
            reveal_with_fuel(crate::app::mic_after, 4);
        }
        let mut actions: Vec<Action> = Vec::new();
        match self.take_stage() {
            Stage::Transcribing { theme, prompt, samples } => {
                let transcript = result.text;
                let messages = coach::followup_messages(
                    self.persona_store.active(),
                    theme.as_str(),
                    prompt.as_str(),
                    transcript.as_str(),
                );
                actions.push(Action::Ask { messages, temperature_tenths: 5, max_tokens: 300 });
                self.stage = Stage::AskingFollowups { theme, prompt, transcript, samples };
            },
            Stage::TranscribingFollowup {
                theme,
                prompt,
                primary_transcript,
                primary_samples,
                followups,
                current,
                followup_answers,
                samples: _,
            } => {
                let mut answers = followup_answers;
                answers.push(result.text);
                let next: usize = current + 1;
                if next < followups.len() {
                    actions.push(self.speak(followups[next].clone()));
                    actions.push(Action::OpenMic);
                    self.stage = Stage::RecordingFollowup {
                        theme,
                        prompt,
                        primary_transcript,
                        primary_samples,
                        followups,
                        current: next,
                        followup_answers: answers,
                    };
                } else {
                    actions.push(Action::Measure);
                    self.stage = Stage::Measuring {
                        theme,
                        prompt,
                        transcript: primary_transcript,
                        samples: primary_samples,
                        followups,
                        followup_answers: answers,
                    };
                }
            },
            Stage::Debug { test_recording, test_result: _ } => {
                self.stage = Stage::Debug { test_recording, test_result: Some(Ok(result)) };
            },
            other => {
                self.stage = other;
            },
        }
        actions
    }

    /// Goes on when there is no transcript. A test shows why; anything else that is
    /// under way ends, and a recording with it.
    pub fn handle_stt_error(&mut self, err: String) -> (r: Vec<Action>)
        requires
            old(self).wf(),
        ensures
            final(self).wf(),
            final(self).mic_follows(*old(self), r@),
            final(self).differs_in_stage(*old(self)),
            match old(self).stage {
                Stage::Debug { test_recording, test_result } => {
                    &&& final(self).stage == (Stage::<A>::Debug {
                        test_recording,
                        test_result: Some(Err(err)),
                    })
                    &&& r@.len() == 0
                },
                _ => {
                    &&& final(self).stage matches Stage::Error(m)
                    &&& m@ == "Transcription error: "@ + err@
                    &&& r@ == closes_mic(old(self).stage)
                },
            },
    {
        proof {
            reveal_with_fuel(crate::app::mic_after, 4);
        }
        if let Stage::Debug { test_recording, test_result: _ } = &self.stage {
            self.stage = Stage::Debug {
                test_recording: *test_recording,
                test_result: Some(Err(err)),
            };
            return Vec::new();
        }
        let mut m = String::from_str("Transcription error: ");
        m.append(err.as_str());
        self.fail(m)
    }

    /// Goes on when the microphone could not be opened. A session cannot go on; a
    /// test ends, and the message is to be shown.
    pub fn mic_failed(&mut self, err: &str) -> (r: Option<String>)
        requires
            old(self).wf(),
        ensures
            final(self).wf(),
            !final(self).stage.records(),
            final(self).differs_in_stage(*old(self)),
            match old(self).stage {
                Stage::Recording { .. } | Stage::RecordingFollowup { .. } => {
                    &&& final(self).stage matches Stage::Error(m)
                    &&& m@ == "Mic error: "@ + err@
                    &&& r is None
                },
                Stage::Debug { test_recording, test_result } => {
                    &&& final(self).stage == (Stage::<A>::Debug {
                        test_recording: false,
                        test_result,
                    })
                    &&& r matches Some(m)
                    &&& m@ == "Mic error: "@ + err@
                },
                _ => final(self).stage == old(self).stage && r is None,
            },
    {
        let mut message = String::from_str("Mic error: ");
        message.append(err);
        match self.take_stage() {
            Stage::Recording { theme: _, prompt: _ } => {
                self.stage = Stage::Error(message);
                None
            },
            Stage::RecordingFollowup { .. } => {
                self.stage = Stage::Error(message);
                None
            },
            Stage::Debug { test_recording: _, test_result } => {
                self.stage = Stage::Debug { test_recording: false, test_result };
                Some(message)
            },
            other => {
                self.stage = other;
                None
            },
        }
    }
}

/// Whether a session goes on from one stage to another by one follow-up: its answer
/// is recorded and then transcribed.
pub open spec fn is_followup_done<A>(before: Stage<A>, answer: String, after: Stage<A>) -> bool {
    exists|samples: A, between: Stage<A>|
        #![trigger is_followup_recorded(before, samples, between), is_followup_answered(
            between,
            answer,
            after,
        )]
        is_followup_recorded(before, samples, between) && is_followup_answered(
            between,
            answer,
            after,
        )
}

/// Whether a session stands before the follow-up number `n`, or after the last one,
/// with the main answer and the follow-ups of the stage `first`, and the answers
/// given so far in the order of the follow-ups.
pub open spec fn stands_before_followup<A>(
    stage: Stage<A>,
    first: Stage<A>,
    answers: Seq<String>,
    n: int,
) -> bool {
    &&& first matches Stage::RecordingFollowup {
        theme,
        prompt,
        primary_transcript,
        primary_samples,
        followups,
        current,
        followup_answers,
    }
    &&& match stage {
        Stage::RecordingFollowup {
            theme: theme2,
            prompt: prompt2,
            primary_transcript: transcript2,
            primary_samples: samples2,
            followups: followups2,
            current: current2,
            followup_answers: answers2,
        } => {
            &&& n < followups@.len()
            &&& (theme2, prompt2, transcript2, samples2, followups2) == (
                theme,
                prompt,
                primary_transcript,
                primary_samples,
                followups,
            )
            &&& current2 == n
            &&& answers2@ == answers.take(n)
        },
        Stage::Measuring {
            theme: theme2,
            prompt: prompt2,
            transcript: transcript2,
            samples: samples2,
            followups: followups2,
            followup_answers: answers2,
        } => {
            &&& n == followups@.len()
            &&& (theme2, prompt2, transcript2, samples2, followups2) == (
                theme,
                prompt,
                primary_transcript,
                primary_samples,
                followups,
            )
            &&& answers2@ == answers.take(n)
        },
        _ => false,
    }
}

/// Follow-ups are gone through one by one. After each of them the next one is up,
/// and when all have been answered the main answer is measured: then each follow-up
/// has its answer, in the order in which they were asked.
pub proof fn law_followups_take_turns<A>(stages: Seq<Stage<A>>, answers: Seq<String>, n: int)
    requires
        stages.len() > 0,
        stages[0] matches Stage::RecordingFollowup { followups, current, followup_answers, .. }
            && current == 0 && followup_answers@.len() == 0 && followups@.len() > 0
            && answers.len() <= followups@.len(),
        stages.len() == answers.len() + 1,
        forall|i: int|
            #![trigger answers[i]]
            0 <= i < answers.len() ==> is_followup_done(stages[i], answers[i], stages[i + 1]),
        0 <= n <= answers.len(),
    ensures
        stands_before_followup(stages[n], stages[0], answers, n),
    decreases n,
{
    if n == 0 {
        if let Stage::RecordingFollowup { followup_answers, .. } = stages[0] {
            assert(followup_answers@ == answers.take(0));
        }
    } else {
        law_followups_take_turns(stages, answers, n - 1);
        assert(is_followup_done(stages[n - 1], answers[n - 1], stages[n]));
        assert(answers.take(n) == answers.take(n - 1).push(answers[n - 1]));
    }
}

/// What is said where the model could not be asked names the error, and twice the model.
pub proof fn law_model_error_names_error_and_model(e: Seq<char>, model: Seq<char>)
    ensures
        ({
            let said = model_error_text(e, model);
            &&& text::stands_under(
                said,
                "Ollama error: "@,
                e,
                "\n\nIs `ollama serve` running and is the model `"@,
            )
            &&& text::stands_under(
                said,
                "\n\nIs `ollama serve` running and is the model `"@,
                model,
                "` pulled?\nTry: `ollama pull "@,
            )
            &&& text::stands_under(said, "` pulled?\nTry: `ollama pull "@, model, "`"@)
            &&& said.len() == "Ollama error: "@.len() + e.len()
                + "\n\nIs `ollama serve` running and is the model `"@.len() + model.len()
                + "` pulled?\nTry: `ollama pull "@.len() + model.len() + "`"@.len()
        }),
{
    let said = model_error_text(e, model);
    let none = Seq::<char>::empty();
    let a = "Ollama error: "@;
    let b = "\n\nIs `ollama serve` running and is the model `"@;
    let c = "` pulled?\nTry: `ollama pull "@;
    let d = "`"@;
    assert(said == none + a + e + b + (model + c + model + d));
    assert(said == (a + e) + b + model + c + (model + d));
    assert(said == (a + e + b + model) + c + model + d + none);
}

/// Giving a session up leaves the microphone closed, hands no recording on, and does
/// nothing at all where none was under way.
pub proof fn law_giving_up_closes_the_microphone<A>(stage: Stage<A>)
    ensures
        !crate::app::mic_after(stage.records(), closes_mic(stage)),
        !stage.records() ==> closes_mic(stage).len() == 0,
        forall|i: int|
            0 <= i < closes_mic(stage).len() ==> #[trigger] closes_mic(stage)[i] is DropRecording,
{
    reveal_with_fuel(crate::app::mic_after, 2);
}

/// A recording is transcribed once where there is a program for it. Where there is none, it
/// is said why, as far as that is known.
pub proof fn law_recording_is_transcribed_once<A>(app: CoachApp<A>, actions: Seq<Action>)
    requires
        app.transcribes(actions),
    ensures
        app.transcriber_ready ==> actions == seq![Action::Transcribe],
        !app.transcriber_ready ==> actions.len() == 1 && (
        actions[0] matches Action::TranscriptionFailed(e) && {
            &&& app.transcriber_error matches Some(why) ==> e@ == why@
            &&& app.transcriber_error is None ==> e@ == "whisper not loaded"@
        }),
{
}

/// Nothing of a session is lost when the answer to a follow-up has been recorded.
pub proof fn law_recorded_followup_keeps_the_session<A>(
    before: Stage<A>,
    answer: A,
    after: Stage<A>,
)
    requires
        is_followup_recorded(before, answer, after),
    ensures
        before matches Stage::RecordingFollowup {
            theme,
            prompt,
            primary_transcript,
            primary_samples,
            followups,
            current,
            followup_answers,
        } && (after matches Stage::TranscribingFollowup {
            theme: theme2,
            prompt: prompt2,
            primary_transcript: transcript2,
            primary_samples: samples2,
            followups: followups2,
            current: current2,
            followup_answers: answers2,
            samples,
        } && {
            &&& theme2 == theme
            &&& prompt2 == prompt
            &&& transcript2 == primary_transcript
            &&& samples2 == primary_samples
            &&& followups2 == followups
            &&& current2 == current
            &&& answers2 == followup_answers
            &&& samples == answer
        }),
{
}

} // verus!
