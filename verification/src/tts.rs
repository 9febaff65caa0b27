//! Text to speech with a local Kokoro model, and the playing of what it speaks.
//!
//! A program renders a text into a sound file. The clips are played elsewhere,
//! one at a time and in the order in which they are asked for; here it is kept
//! which one is next, and whether speech is under way.

use vstd::prelude::*;

use crate::personas;
use crate::text;
use crate::tools;
use crate::tools::Place;

verus! {

// ---------------------------------------------------------------- finding the program

/// The variable that names the program.
pub const BINARY_VARIABLE: &'static str = "SHERPA_BIN";

/// The variable that names the folder with the model.
pub const MODEL_VARIABLE: &'static str = "KOKORO_MODEL_DIR";

/// The variable that names a voice.
pub const VOICE_VARIABLE: &'static str = "KOKORO_VOICE_ID";

/// Where the model usually is, below the place for settings.
pub const MODEL_PATH: &'static str = "comms-coach/models/kokoro-en-v0_19";

/// What is said where no program was found.
pub const BINARY_NOT_FOUND: &'static str = "sherpa-onnx-offline-tts not found. Either add it to PATH or set SHERPA_BIN. Download a prebuilt from https://github.com/k2-fsa/sherpa-onnx/releases.";

/// The name of the program.
pub fn binary_name(windows: bool) -> (r: &'static str)
    ensures
        windows ==> r@ == "sherpa-onnx-offline-tts.exe"@,
        !windows ==> r@ == "sherpa-onnx-offline-tts"@,
{
    if windows {
        "sherpa-onnx-offline-tts.exe"
    } else {
        "sherpa-onnx-offline-tts"
    }
}

/// Decides which program to use: the one that the variable names, or else the one
/// that was found.
pub fn resolve_binary<P>(named: Option<Place<P>>, found: Option<Place<P>>) -> (r: Result<
    Place<P>,
    String,
>)
    ensures
        tools::is_resolved(r, named, seq![found], BINARY_VARIABLE@, BINARY_NOT_FOUND@),
{
    let list = vec![found];
    assert(list@ == seq![found]);
    tools::resolve_program(named, list, BINARY_VARIABLE, BINARY_NOT_FOUND)
}

/// Decides where the model is: where the variable says, or else at the usual place.
pub fn resolve_model_dir<P>(named: Option<P>, usual: Option<P>) -> (r: Result<P, String>)
    ensures
        match named {
            Some(path) => r == Ok::<P, String>(path),
            None => match usual {
                Some(path) => r == Ok::<P, String>(path),
                None => r matches Err(e) && e@ == tools::NO_CONFIG_DIR@,
            },
        },
{
    tools::resolve_model_place(named, usual)
}

// ---------------------------------------------------------------- the program

/// The files of a model, as they are named in its folder.
pub const MODEL_FILE: &'static str = "model.onnx";

pub const VOICES_FILE: &'static str = "voices.bin";

pub const TOKENS_FILE: &'static str = "tokens.txt";

pub const DATA_FOLDER: &'static str = "espeak-ng-data";

/// The places of a model's files.
#[derive(Debug)]
pub struct ModelFiles<P> {
    pub model: Place<P>,
    pub voices: Place<P>,
    pub tokens: Place<P>,
    /// A folder.
    pub data: Place<P>,
}

/// The first of the model's files that is missing.
pub open spec fn missing_file<P>(files: ModelFiles<P>) -> Option<Place<P>> {
    if !files.model.is_there {
        Some(files.model)
    } else if !files.voices.is_there {
        Some(files.voices)
    } else if !files.tokens.is_there {
        Some(files.tokens)
    } else {
        None
    }
}

/// What is said where a file of the model is missing.
pub open spec fn file_missing_text(file: Seq<char>) -> Seq<char> {
    "Kokoro model file missing: "@ + file
        + "\nDownload kokoro-en-v0_19 from https://github.com/k2-fsa/sherpa-onnx/releases/tag/tts-models"@
}

/// The number of threads for a run: as many as are available, two where that is
/// not known, but at least one and no more than four.
pub open spec fn thread_limit(available: Option<usize>) -> int {
    let n = match available {
        Some(n) => n as u32,
        None => 2,
    };
    if n < 1 {
        1
    } else if n > 4 {
        4
    } else {
        n as int
    }
}

/// A speech program that can be used, with its model.
#[derive(Debug)]
pub struct Tts<P> {
    pub bin: P,
    pub model_dir: P,
    pub files: ModelFiles<P>,
    pub threads: u32,
}

impl<P> Tts<P> {
    /// Where the program is.
    pub fn bin_path(&self) -> (r: &P)
        ensures
            *r == self.bin,
    {
        &self.bin
    }

    /// Where the model is.
    pub fn model_dir(&self) -> (r: &P)
        ensures
            *r == self.model_dir,
    {
        &self.model_dir
    }

    /// Takes a program and its model into use, where all of the model is there.
    pub fn load(
        bin: P,
        model_dir: Place<P>,
        files: ModelFiles<P>,
        available: Option<usize>,
    ) -> (r: Result<Tts<P>, String>)
        ensures
            r is Ok <==> missing_file(files) is None && files.data.is_there,
            r matches Ok(t) ==> {
                &&& t.bin == bin
                &&& t.model_dir == model_dir.path
                &&& t.files == files
                &&& t.threads == thread_limit(available)
            },
            r matches Err(e) ==> match missing_file(files) {
                Some(file) => e@ == file_missing_text(file.shown@),
                None => e@ == "espeak-ng-data directory missing under "@ + model_dir.shown@,
            },
    {
        if !files.model.is_there {
            return Err(file_missing(&files.model));
        }
        if !files.voices.is_there {
            return Err(file_missing(&files.voices));
        }
        if !files.tokens.is_there {
            return Err(file_missing(&files.tokens));
        }
        if !files.data.is_there {
            let mut e = String::from_str("espeak-ng-data directory missing under ");
            e.append(model_dir.shown.as_str());
            return Err(e);
        }
        let n: u32 = match available {
            Some(n) => n as u32,
            None => 2,
        };
        let threads: u32 = if n < 1 {
            1
        } else if n > 4 {
            4
        } else {
            n
        };
        Ok(Tts { bin, model_dir: model_dir.path, files, threads })
    }

    /// The arguments for speaking a text in a voice into a file.
    pub fn arguments(&self, text: &str, voice_id: u32, out_path: &str) -> (r: Vec<String>)
        ensures
            text::texts(r@) == seq![
                "--kokoro-model="@ + self.files.model.shown@,
                "--kokoro-voices="@ + self.files.voices.shown@,
                "--kokoro-tokens="@ + self.files.tokens.shown@,
                "--kokoro-data-dir="@ + self.files.data.shown@,
                "--num-threads="@ + text::decimal(self.threads as nat),
                "--sid="@ + text::decimal(voice_id as nat),
                "--output-filename="@ + out_path@,
                text@,
            ],
    {
        let mut threads = String::from_str("--num-threads=");
        text::push_number(&mut threads, self.threads as u128);
        let mut sid = String::from_str("--sid=");
        text::push_number(&mut sid, voice_id as u128);
        vec![
            option("--kokoro-model=", self.files.model.shown.as_str()),
            option("--kokoro-voices=", self.files.voices.shown.as_str()),
            option("--kokoro-tokens=", self.files.tokens.shown.as_str()),
            option("--kokoro-data-dir=", self.files.data.shown.as_str()),
            threads,
            sid,
            option("--output-filename=", out_path),
            String::from_str(text),
        ]
    }
}

fn file_missing<P>(file: &Place<P>) -> (r: String)
    ensures
        r@ == file_missing_text(file.shown@),
{
    let mut e = String::from_str("Kokoro model file missing: ");
    e.append(file.shown.as_str());
    e.append(
        "\nDownload kokoro-en-v0_19 from https://github.com/k2-fsa/sherpa-onnx/releases/tag/tts-models",
    );
    e
}

fn option(key: &str, value: &str) -> (r: String)
    ensures
        r@ == key@ + value@,
{
    let mut out = String::from_str(key);
    out.append(value);
    out
}

/// The name of the temporary sound file made at a given time.
pub fn temp_wav_name(stamp: u128) -> (r: String)
    ensures
        r@ == "comms-coach-tts-"@ + text::decimal(stamp as nat) + ".wav"@,
{
    let mut out = String::from_str("comms-coach-tts-");
    text::push_number(&mut out, stamp);
    out.append(".wav");
    out
}

/// Reads the outcome of a run, with the bytes that the program printed about it. It
/// went well where the program ended well and the sound file is there.
pub fn read_output(success: bool, status: &str, stderr: &[u8], out_path: &Place<String>) -> (r:
    Result<(), String>)
    ensures
        r is Ok <==> success && out_path.is_there,
        r matches Err(e) ==> if success {
            e@ == "sherpa-onnx-offline-tts did not produce "@ + out_path.shown@
        } else {
            &&& e@ == failure_text(status@, text::lossy_text(stderr@))
            &&& vstd::utf8::valid_utf8(stderr@) ==> e@ == failure_text(
                status@,
                vstd::utf8::decode_utf8(stderr@),
            )
        },
{
    let said = text::read_lossy(stderr);
    read_texts(success, status, said.as_str(), out_path)
}

/// What is said where the program failed.
pub open spec fn failure_text(status: Seq<char>, stderr: Seq<char>) -> Seq<char> {
    "sherpa-onnx-offline-tts exited with "@ + status + ": "@ + text::trimmed(stderr)
}

/// Reads the outcome of a run, with the text that the program printed about it.
pub fn read_texts(success: bool, status: &str, stderr: &str, out_path: &Place<String>) -> (r:
    Result<(), String>)
    ensures
        r is Ok <==> success && out_path.is_there,
        r matches Err(e) ==> e@ == if success {
            "sherpa-onnx-offline-tts did not produce "@ + out_path.shown@
        } else {
            failure_text(status@, stderr@)
        },
{
    if !success {
        let mut e = String::from_str("sherpa-onnx-offline-tts exited with ");
        e.append(status);
        e.append(": ");
        let err = text::trim_text(stderr);
        e.append(err.as_str());
        return Err(e);
    }
    if !out_path.is_there {
        let mut e = String::from_str("sherpa-onnx-offline-tts did not produce ");
        e.append(out_path.shown.as_str());
        return Err(e);
    }
    Ok(())
}

/// Whether `named` is the number of a voice.
pub open spec fn names_voice(named: Seq<char>, voice_id: u32) -> bool {
    voice_id < personas::KOKORO_VOICES@.len() && named == text::decimal(voice_id as nat)
}

/// A text names one voice at most.
pub proof fn law_named_voice_is_unique(named: Seq<char>, a: u32, b: u32)
    requires
        names_voice(named, a),
        names_voice(named, b),
    ensures
        a == b,
{
    text::law_decimals_differ(a as nat, b as nat);
}

/// Decides on a voice: the one that the variable names by its number, or else the
/// one that the persona speaks in.
pub fn choose_voice(named: Option<&str>, persona_voice: u32) -> (r: u32)
    ensures
        match named {
            Some(s) => names_voice(s@, r) || (r == persona_voice && forall|v: u32|
                !names_voice(s@, v)),
            None => r == persona_voice,
        },
{
    match named {
        Some(s) => {
            let mut v: u32 = 0;
            while v < 11
                invariant
                    named == Some(s),
                    v <= 11,
                    personas::KOKORO_VOICES@.len() == 11,
                    forall|w: u32| w < v ==> !names_voice(s@, w),
                decreases 11 - v,
            {
                let n = text::number(v as u128);
                if text::same_text(s, n.as_str()) {
                    return v;
                }
                v += 1;
            }
            persona_voice
        },
        None => persona_voice,
    }
}

// ---------------------------------------------------------------- playback

/// What the player is asked to do.
#[derive(Debug)]
pub enum PlayCmd {
    /// Play a sound file in place of what is playing.
    Play(Vec<u8>),
    /// Stop what is playing.
    Stop,
}

/// What the player does next.
#[derive(Debug)]
pub enum PlayerAction {
    /// Stop the current clip, where there is one, and play this sound file.
    Replace(Vec<u8>),
    /// Stop the current clip, where there is one.
    StopClip,
    /// Go on as before.
    Nothing,
}

/// What is asked of the player, and what it is at.
#[derive(Debug)]
pub struct Player {
    /// What it has been asked to do and has not done yet, the oldest first.
    pub queue: Vec<PlayCmd>,
    /// Whether a sound file is being made or a clip is playing.
    pub busy: bool,
    /// Whether there is a current clip.
    pub loaded: bool,
    /// The number of the text whose sound file is being made, if one is and nothing
    /// has overtaken it.
    pub making: Option<u64>,
    /// The number that the next text will have.
    pub next: u64,
}

/// Whether the player is asked to stop somewhere in a list.
pub open spec fn has_stop(cmds: Seq<PlayCmd>) -> bool {
    exists|i: int| 0 <= i < cmds.len() && #[trigger] cmds[i] is Stop
}

/// Whether the player is asked to play somewhere in a list.
pub open spec fn has_play(cmds: Seq<PlayCmd>) -> bool {
    exists|i: int| 0 <= i < cmds.len() && #[trigger] cmds[i] is Play
}

/// The number that comes after another. After the last one they begin anew.
pub open spec fn number_after(n: u64) -> u64 {
    if n < u64::MAX {
        (n + 1) as u64
    } else {
        0
    }
}

proof fn lemma_stop_stays(cmds: Seq<PlayCmd>, cmd: PlayCmd)
    ensures
        has_stop(cmds.push(cmd)) == (has_stop(cmds) || cmd is Stop),
{
    let longer = cmds.push(cmd);
    assert(longer[cmds.len() as int] == cmd);
    if has_stop(cmds) {
        let i = choose|i: int| 0 <= i < cmds.len() && #[trigger] cmds[i] is Stop;
        assert(longer[i] is Stop);
    }
    if has_stop(longer) && !(cmd is Stop) {
        let i = choose|i: int| 0 <= i < longer.len() && #[trigger] longer[i] is Stop;
        assert(cmds[i] is Stop);
    }
}

impl Player {
    /// Whether the sound file of the text with this number is being made, and nothing
    /// has overtaken it.
    pub open spec fn makes(self, number: u64) -> bool {
        self.making == Some(number)
    }

    /// Whether a clip is playing, or will be once all that was asked for has been done.
    pub open spec fn sounds(self) -> bool {
        if self.queue@.len() == 0 {
            self.loaded
        } else {
            self.queue@.last() is Play
        }
    }

    /// Whether the player is busy with a clip: it plays it, or will.
    pub open spec fn plays_clip(self) -> bool {
        self.busy && self.sounds()
    }

    /// Whether the player is busy wherever it has to be: while a sound file is being
    /// made that nothing has overtaken, and while there is a current clip, unless it is
    /// about to be stopped.
    pub open spec fn wf(self) -> bool {
        &&& self.making is Some ==> self.busy && self.next == number_after(self.making->0)
        &&& self.loaded ==> self.busy || has_stop(self.queue@)
    }

    /// Whether the player is busy for a reason: a sound file is being made, or a clip is
    /// playing or will be.
    pub open spec fn is_busy_for_a_reason(self) -> bool {
        self.busy ==> self.making is Some || self.sounds()
    }

    /// A player that has nothing to do.
    pub fn new() -> (r: Player)
        ensures
            r.wf(),
            r.is_busy_for_a_reason(),
            r.queue@ == Seq::<PlayCmd>::empty(),
            !r.busy,
            !r.loaded,
            r.making is None,
    {
        Player { queue: Vec::new(), busy: false, loaded: false, making: None, next: 0 }
    }

    /// Asks for a sound file to be played in place of what is playing.
    pub fn play_wav_bytes(&mut self, bytes: Vec<u8>)
        ensures
            old(self).wf() ==> final(self).wf(),
            final(self).is_busy_for_a_reason(),
            final(self).queue@ == old(self).queue@.push(PlayCmd::Play(bytes)),
            *final(self) == (Player { queue: final(self).queue, ..*old(self) }),
    {
        self.queue.push(PlayCmd::Play(bytes));
        proof {
            lemma_stop_stays(old(self).queue@, PlayCmd::Play(bytes));
        }
    }

    /// Asks for what is playing to be stopped. A sound file that is being made is
    /// overtaken: it will not be played. From now on the player is not busy.
    pub fn stop(&mut self)
        ensures
            old(self).wf() ==> final(self).wf(),
            final(self).is_busy_for_a_reason(),
            final(self).queue@ == old(self).queue@.push(PlayCmd::Stop),
            !final(self).busy,
            final(self).making is None,
            *final(self) == (Player {
                queue: final(self).queue,
                busy: false,
                making: None,
                ..*old(self)
            }),
    {
        self.busy = false;
        self.making = None;
        self.queue.push(PlayCmd::Stop);
        proof {
            lemma_stop_stays(old(self).queue@, PlayCmd::Stop);
        }
    }

    /// Makes the player busy, before a sound file is made.
    pub fn mark_busy(&mut self)
        ensures
            old(self).wf() ==> final(self).wf(),
            final(self).busy,
            *final(self) == (Player { busy: true, ..*old(self) }),
    {
        self.busy = true;
    }

    /// Whether a sound file is being made or a clip is playing.
    pub fn is_busy(&self) -> (r: bool)
        ensures
            r == self.busy,
    {
        self.busy
    }

    /// Begins to speak a text, where speech is possible and the text is not blank:
    /// what is playing is stopped, a sound file that is being made is overtaken, and the
    /// player is busy from now on. The text gets a number.
    pub fn begin_speaking(&mut self, enabled: bool, text: &str) -> (r: Option<u64>)
        ensures
            old(self).wf() ==> final(self).wf(),
            old(self).is_busy_for_a_reason() ==> final(self).is_busy_for_a_reason(),
            r is Some <==> enabled && text::trimmed(text@).len() > 0,
            r matches Some(number) ==> {
                &&& number == old(self).next
                &&& final(self).makes(number)
                &&& old(self).wf() ==> !old(self).makes(number)
                &&& final(self).queue@ == old(self).queue@.push(PlayCmd::Stop)
                &&& *final(self) == (Player {
                    queue: final(self).queue,
                    busy: true,
                    loaded: old(self).loaded,
                    making: Some(number),
                    next: number_after(number),
                })
            },
            r is None ==> *final(self) == *old(self),
    {
        if !enabled || text::is_blank(text) {
            return None;
        }
        self.stop();
        self.mark_busy();
        let number: u64 = self.next;
        self.making = Some(number);
        self.next = if number < u64::MAX {
            number + 1
        } else {
            0
        };
        Some(number)
    }

    /// Goes on with the sound file that was made for a text, or gives up where none
    /// was. A file that has been overtaken is dropped.
    pub fn finish_speaking(&mut self, number: u64, clip: Option<Vec<u8>>)
        ensures
            old(self).wf() ==> final(self).wf(),
            old(self).is_busy_for_a_reason() ==> final(self).is_busy_for_a_reason(),
            !old(self).makes(number) ==> *final(self) == *old(self),
            old(self).wf() && old(self).makes(number) && clip is Some ==> final(self).plays_clip(),
            old(self).makes(number) ==> match clip {
                Some(bytes) => {
                    &&& final(self).queue@ == old(self).queue@.push(PlayCmd::Play(bytes))
                    &&& *final(self) == (Player {
                        queue: final(self).queue,
                        making: None,
                        ..*old(self)
                    })
                },
                None => {
                    &&& final(self).queue@ == old(self).queue@.push(PlayCmd::Stop)
                    &&& *final(self) == (Player {
                        queue: final(self).queue,
                        busy: false,
                        making: None,
                        ..*old(self)
                    })
                },
            },
    {
        let awaited: bool = match self.making {
            Some(n) => n == number,
            None => false,
        };
        if awaited {
            match clip {
                Some(bytes) => {
                    self.making = None;
                    self.play_wav_bytes(bytes);
                },
                None => self.stop(),
            }
        }
    }

    fn stops(&self) -> (r: bool)
        ensures
            r == has_stop(self.queue@),
    {
        let mut i: usize = 0;
        while i < self.queue.len()
            invariant
                i <= self.queue@.len(),
                forall|k: int| 0 <= k < i ==> !(#[trigger] self.queue@[k] is Stop),
            decreases self.queue@.len() - i,
        {
            if let PlayCmd::Stop = &self.queue[i] {
                return true;
            }
            i += 1;
        }
        false
    }

    fn plays(&self) -> (r: bool)
        ensures
            r == has_play(self.queue@),
    {
        let mut i: usize = 0;
        while i < self.queue.len()
            invariant
                i <= self.queue@.len(),
                forall|k: int| 0 <= k < i ==> !(#[trigger] self.queue@[k] is Play),
            decreases self.queue@.len() - i,
        {
            if let PlayCmd::Play(_) = &self.queue[i] {
                return true;
            }
            i += 1;
        }
        false
    }

    /// Decides what to do next. What has been asked for is done in turn; a clip that
    /// starts makes the player busy, unless it is to be stopped again. Where nothing
    /// is left to do and the current clip has ended, the player is busy only if a sound
    /// file is being made.
    pub fn step(&mut self, clip_ended: bool) -> (r: PlayerAction)
        ensures
            old(self).wf() ==> final(self).wf(),
            old(self).is_busy_for_a_reason() ==> final(self).is_busy_for_a_reason(),
            old(self).plays_clip() && !(old(self).queue@.len() == 0 && clip_ended)
                ==> final(self).plays_clip(),
            final(self).making == old(self).making,
            final(self).next == old(self).next,
            old(self).queue@.len() > 0 ==> {
                &&& final(self).queue@ == old(self).queue@.drop_first()
                &&& match old(self).queue@[0] {
                    PlayCmd::Play(bytes) => {
                        &&& r == PlayerAction::Replace(bytes)
                        &&& final(self).loaded
                        &&& final(self).busy == (old(self).busy || !has_stop(final(self).queue@))
                    },
                    PlayCmd::Stop => {
                        &&& r == PlayerAction::StopClip
                        &&& !final(self).loaded
                        &&& final(self).busy == old(self).busy
                    },
                }
            },
            old(self).queue@.len() == 0 ==> {
                &&& final(self).queue == old(self).queue
                &&& r == PlayerAction::Nothing
                &&& final(self).loaded == (old(self).loaded && !clip_ended)
                &&& final(self).busy == if old(self).loaded && clip_ended {
                    old(self).making is Some
                } else {
                    old(self).busy
                }
            },
    {
        if self.queue.len() > 0 {
            let ghost before = self.queue@;
            let cmd = self.queue.remove(0);
            assert(self.queue@ == before.drop_first());
            match cmd {
                PlayCmd::Play(bytes) => {
                    self.loaded = true;
                    if !self.stops() {
                        self.busy = true;
                    }
                    proof {
                        let rest = self.queue@;
                        if rest.len() > 0 && !has_stop(rest) {
                            assert(!(rest[rest.len() - 1] is Stop));
                        }
                    }
                    PlayerAction::Replace(bytes)
                },
                PlayCmd::Stop => {
                    self.loaded = false;
                    PlayerAction::StopClip
                },
            }
        } else {
            if self.loaded && clip_ended {
                self.busy = self.making.is_some();
                self.loaded = false;
            }
            PlayerAction::Nothing
        }
    }

    /// Notes that a sound file could not be played. The player is then busy only if
    /// another one is being made.
    pub fn start_failed(&mut self)
        ensures
            old(self).wf() ==> final(self).wf(),
            final(self).is_busy_for_a_reason(),
            *final(self) == (Player {
                busy: old(self).making is Some,
                loaded: false,
                ..*old(self)
            }),
    {
        self.busy = self.making.is_some();
        self.loaded = false;
    }

    /// Notes that there is nothing to play on: what has been asked for is dropped,
    /// and a clip that cannot be played keeps nobody waiting.
    pub fn discard(&mut self)
        ensures
            old(self).wf() ==> final(self).wf(),
            old(self).is_busy_for_a_reason() ==> final(self).is_busy_for_a_reason(),
            final(self).queue@ == Seq::<PlayCmd>::empty(),
            *final(self) == (Player {
                queue: final(self).queue,
                busy: old(self).busy && (old(self).making is Some || !(old(self).loaded
                    || has_play(old(self).queue@))),
                loaded: false,
                ..*old(self)
            }),
    {
        if self.making.is_none() && (self.loaded || self.plays()) {
            self.busy = false;
        }
        self.loaded = false;
        self.queue = Vec::new();
    }
}

// ---------------------------------------------------------------- laws

/// The file that is told as missing is the first of the model, its voices and its tokens
/// that is.
pub proof fn law_first_missing_file_is_told<P>(files: ModelFiles<P>)
    ensures
        !files.model.is_there ==> missing_file(files) == Some(files.model),
        files.model.is_there && !files.voices.is_there ==> missing_file(files) == Some(
            files.voices,
        ),
        files.model.is_there && files.voices.is_there && !files.tokens.is_there ==> missing_file(
            files,
        ) == Some(files.tokens),
        files.model.is_there && files.voices.is_there && files.tokens.is_there ==> missing_file(
            files,
        ) is None,
{
}

/// What is said of a missing file names the file and says where to get it.
pub proof fn law_missing_file_is_named(file: Seq<char>)
    ensures
        text::stands_under(
            file_missing_text(file),
            "Kokoro model file missing: "@,
            file,
            "\nDownload kokoro-en-v0_19 from https://github.com/k2-fsa/sherpa-onnx/releases/tag/tts-models"@,
        ),
{
    let none = Seq::<char>::empty();
    let a = "Kokoro model file missing: "@;
    let b = "\nDownload kokoro-en-v0_19 from https://github.com/k2-fsa/sherpa-onnx/releases/tag/tts-models"@;
    assert(file_missing_text(file) == none + a + file + b + none);
}

/// What is said of a failure holds how the program ended and what it printed, without the
/// white space around it.
pub proof fn law_failure_is_told(status: Seq<char>, stderr: Seq<char>)
    ensures
        text::stands_under(
            failure_text(status, stderr),
            "sherpa-onnx-offline-tts exited with "@,
            status,
            ": "@ + text::trimmed(stderr),
        ),
        failure_text(status, stderr).len() == "sherpa-onnx-offline-tts exited with "@.len()
            + status.len() + ": "@.len() + text::trimmed(stderr).len(),
{
    let none = Seq::<char>::empty();
    let a = "sherpa-onnx-offline-tts exited with "@;
    let b = ": "@ + text::trimmed(stderr);
    assert(failure_text(status, stderr) == none + a + status + b + none);
}

/// One to four threads are used: as many as there are, and two where that is not known.
pub proof fn law_threads_are_one_to_four(n: usize)
    requires
        n <= u32::MAX,
    ensures
        n == 0 ==> thread_limit(Some(n)) == 1,
        1 <= n <= 4 ==> thread_limit(Some(n)) == n,
        n > 4 ==> thread_limit(Some(n)) == 4,
        thread_limit(None) == 2,
{
}

/// Each voice is named by its number, and by nothing else.
pub proof fn law_voices_are_named_by_number(v: u32, named: Seq<char>)
    ensures
        v <= 10 ==> names_voice(text::decimal(v as nat), v),
        v > 10 ==> !names_voice(named, v),
        names_voice(named, v) ==> named == text::decimal(v as nat),
{
}

/// The numbers of two texts in a row differ, and they go up one by one until they begin
/// anew.
pub proof fn law_numbers_go_up(n: u64)
    ensures
        number_after(n) != n,
        n < u64::MAX ==> number_after(n) == n + 1,
        n == u64::MAX ==> number_after(n) == 0,
{
}

/// Whether there is a current clip once some requests have been met in turn.
pub open spec fn loaded_after(loaded: bool, cmds: Seq<PlayCmd>) -> bool
    decreases cmds.len(),
{
    if cmds.len() == 0 {
        loaded
    } else {
        loaded_after(cmds[0] is Play, cmds.drop_first())
    }
}

proof fn lemma_last_request_counts(loaded: bool, cmds: Seq<PlayCmd>)
    requires
        cmds.len() > 0,
    ensures
        loaded_after(loaded, cmds) == cmds.last() is Play,
    decreases cmds.len(),
{
    let rest = cmds.drop_first();
    if rest.len() > 0 {
        lemma_last_request_counts(cmds[0] is Play, rest);
        assert(rest.last() == cmds.last());
    } else {
        reveal_with_fuel(loaded_after, 2);
        assert(cmds.last() == cmds[0]);
    }
}

/// The player sounds, now or later, just where there is a current clip once all that was
/// asked for has been done.
pub proof fn law_sound_is_what_is_left(player: Player)
    ensures
        player.sounds() == loaded_after(player.loaded, player.queue@),
        player.plays_clip() == (player.busy && loaded_after(player.loaded, player.queue@)),
{
    if player.queue@.len() > 0 {
        lemma_last_request_counts(player.loaded, player.queue@);
    }
}

/// Every request in a queue is seen, wherever it stands, and nothing else is.
pub proof fn law_requests_are_seen(a: Seq<PlayCmd>, bytes: Vec<u8>, b: Seq<PlayCmd>)
    ensures
        has_stop(a + seq![PlayCmd::Stop] + b),
        has_play(a + seq![PlayCmd::Play(bytes)] + b),
        has_stop(a + seq![PlayCmd::Play(bytes)] + b) == (has_stop(a) || has_stop(b)),
        has_play(a + seq![PlayCmd::Stop] + b) == (has_play(a) || has_play(b)),
        !has_stop(Seq::<PlayCmd>::empty()),
        !has_play(Seq::<PlayCmd>::empty()),
{
    let stopped = a + seq![PlayCmd::Stop] + b;
    let played = a + seq![PlayCmd::Play(bytes)] + b;
    let n = a.len() as int;
    assert(stopped[n] is Stop && played[n] is Play);
    if has_stop(a) {
        let i = choose|i: int| 0 <= i < a.len() && #[trigger] a[i] is Stop;
        assert(played[i] is Stop);
    }
    if has_stop(b) {
        let i = choose|i: int| 0 <= i < b.len() && #[trigger] b[i] is Stop;
        assert(played[n + 1 + i] is Stop);
    }
    if has_play(a) {
        let i = choose|i: int| 0 <= i < a.len() && #[trigger] a[i] is Play;
        assert(stopped[i] is Play);
    }
    if has_play(b) {
        let i = choose|i: int| 0 <= i < b.len() && #[trigger] b[i] is Play;
        assert(stopped[n + 1 + i] is Play);
    }
    if has_stop(played) {
        let i = choose|i: int| 0 <= i < played.len() && #[trigger] played[i] is Stop;
        if i < n {
            assert(a[i] is Stop);
        } else {
            assert(b[i - n - 1] is Stop);
        }
    }
    if has_play(stopped) {
        let i = choose|i: int| 0 <= i < stopped.len() && #[trigger] stopped[i] is Play;
        if i < n {
            assert(a[i] is Play);
        } else {
            assert(b[i - n - 1] is Play);
        }
    }
}

} // verus!
