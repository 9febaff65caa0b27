use speakflow::audio;
use speakflow::audio::Recorder;
use speakflow::stt;
use speakflow::stt::{CliArg, Transcriber, WhisperDialect};
use speakflow::tools;
use speakflow::tools::Place;
use speakflow::tts;
use speakflow::tts::{ModelFiles, PlayCmd, Player, PlayerAction, Tts};

fn place(path: &str, is_there: bool) -> Place<String> {
    Place { path: path.to_string(), shown: path.to_string(), is_there }
}

// ---------------------------------------------------------------- programs

#[test]
fn the_first_place_with_something_is_taken() {
    let found = tools::which_on_path(vec![place("a", false), place("b", true), place("c", true)]);
    assert_eq!(found.unwrap().path, "b");
    assert!(tools::which_on_path(vec![place("a", false)]).is_none());
    assert_eq!(tools::take_first(vec![None, Some(2), Some(3)]), Some(2));
    assert_eq!(tools::take_first::<u8>(vec![None]), None);
}

#[test]
fn a_named_program_is_taken_where_it_exists() {
    let r = stt::resolve_binary(Some(place("w", true)), vec![Some(place("x", true))]);
    assert_eq!(r.unwrap().path, "w");
    let r = stt::resolve_binary(Some(place("w", false)), vec![Some(place("x", true))]);
    assert_eq!(r.unwrap_err(), "WHISPER_BIN points to w which doesn't exist");
    let r = tts::resolve_binary(Some(place("s", false)), None);
    assert_eq!(r.unwrap_err(), "SHERPA_BIN points to s which doesn't exist");
}

#[test]
fn otherwise_the_first_program_found_is() {
    let r = stt::resolve_binary(None, vec![None, Some(place("x", true)), Some(place("y", true))]);
    assert_eq!(r.unwrap().path, "x");
    let r: Result<Place<String>, String> = stt::resolve_binary(None, vec![None, None, None]);
    assert!(r.unwrap_err().starts_with("whisper-cli not found. Either add it to PATH"));
    assert_eq!(tts::resolve_binary(None, Some(place("x", true))).unwrap().path, "x");
    let r: Result<Place<String>, String> = tts::resolve_binary(None, None);
    assert!(r.unwrap_err().starts_with("sherpa-onnx-offline-tts not found."));
}

#[test]
fn programs_go_by_their_names() {
    assert_eq!(stt::binary_names(true), ["whisper-cli.exe", "whisper.exe", "main.exe"]);
    assert_eq!(stt::binary_names(false), ["whisper-cli", "whisper", "main"]);
    assert_eq!(tts::binary_name(true), "sherpa-onnx-offline-tts.exe");
    assert_eq!(tts::binary_name(false), "sherpa-onnx-offline-tts");
}

#[test]
fn a_model_is_where_the_variable_says_or_at_the_usual_place() {
    assert_eq!(stt::resolve_model(Some("a"), Some("b")), Ok("a"));
    assert_eq!(stt::resolve_model(None, Some("b")), Ok("b"));
    assert_eq!(stt::resolve_model::<&str>(None, None), Err("no config dir".to_string()));
    assert_eq!(tts::resolve_model_dir(None, Some("b")), Ok("b"));
    assert_eq!(tts::resolve_model_dir::<&str>(None, None), Err("no config dir".to_string()));
}

// ---------------------------------------------------------------- speech to text

#[test]
fn the_dialect_shows_in_the_help() {
    assert_eq!(WhisperDialect::detect("see github.com/ggerganov"), WhisperDialect::Cpp);
    assert_eq!(WhisperDialect::detect("whisper.cpp 1.5"), WhisperDialect::Cpp);
    assert_eq!(WhisperDialect::detect("usage: whisper"), WhisperDialect::OpenAi);
    let help = stt::help_text(Ok(("a".to_string(), "b".to_string())));
    assert_eq!(help, "ab");
    assert_eq!(stt::help_text(Err("no".to_string())), "Error running --help: no");
    assert_eq!(stt::read_help(Ok(("ü".as_bytes().to_vec(), b"b".to_vec()))), "üb");
    assert_eq!(stt::read_help(Ok((vec![b'a', 0xff], vec![]))), "a\u{fffd}");
    assert_eq!(stt::read_help(Err("no".to_string())), "Error running --help: no");
}

#[test]
fn one_program_needs_its_model_file() {
    let r = Transcriber::load(place("w", true), place("m", false), "whisper.cpp");
    assert_eq!(
        r.err().unwrap(),
        "Whisper model not found at m. Download e.g. ggml-base.en.bin from \
         https://huggingface.co/ggerganov/whisper.cpp and place it there, or set WHISPER_MODEL."
    );
    let t = Transcriber::load(place("w", true), place("m", false), "other").ok().unwrap();
    assert_eq!(t.dialect, WhisperDialect::OpenAi);
    assert_eq!(t.bin_info(), "Binary: w\nDialect: OpenAi\nModel: m\n\n--help output:\nother");
    assert!(Transcriber::load(place("w", true), place("m", true), "whisper.cpp").is_ok());
}

fn shown(args: Vec<CliArg>) -> Vec<String> {
    args.into_iter()
        .map(|a| match a {
            CliArg::Text(s) => s,
            CliArg::ModelPath => "<model>".to_string(),
            CliArg::AudioPath => "<audio>".to_string(),
        })
        .collect()
}

#[test]
fn each_dialect_has_its_arguments() {
    let t = Transcriber::load(place("w", true), place("m", true), "whisper.cpp").ok().unwrap();
    assert_eq!(
        shown(t.arguments(4, Some("ggml-base.en"))).join(" "),
        "--model <model> --language en --threads 4 -nt --no-prints <audio>"
    );
    let t = Transcriber::load(place("w", true), place("m", true), "other").ok().unwrap();
    assert_eq!(
        shown(t.arguments(8, Some("ggml-base.en"))).join(" "),
        "--model base.en --language en --threads 8 --device cpu --verbose True \
         --output_format txt <audio>"
    );
    assert_eq!(stt::model_name(Some("small")), "small");
    assert_eq!(stt::model_name(None), "base");
}

#[test]
fn threads_are_limited() {
    assert_eq!(stt::thread_count(Some(3)), 3);
    assert_eq!(stt::thread_count(Some(64)), 8);
    assert_eq!(stt::thread_count(None), 2);
}

#[test]
fn temporary_files_carry_the_time() {
    assert_eq!(stt::temp_wav_name(17), "speakflow-17.wav");
    assert_eq!(tts::temp_wav_name(17), "comms-coach-tts-17.wav");
}

#[test]
fn a_transcript_is_cleaned() {
    let raw = "whisper_init: x\nsystem_info: y\nmain: z\n\n   Hello world. \n\
               [00:00.000 --> 00:05.000]  How are you?\n[00:05.000 --> 00:06.000]\n[music]\n";
    assert_eq!(stt::clean_transcript(raw), "Hello world. How are you? [music]");
    assert_eq!(stt::clean_transcript("\n \n"), "");
    assert_eq!(stt::clean_transcript("[a --> b"), "[a --> b");
    assert_eq!(stt::clean_transcript("a\r\nb"), "a b");
}

#[test]
fn a_transcript_is_one_line() {
    let t = stt::clean_transcript(" one \n\n two\n[0 --> 1] \tthree \n");
    assert_eq!(t, "one two three");
    assert!(!t.contains('\n'));
    assert_eq!(t.trim(), t);
}

#[test]
fn transcripts_of_two_outputs_add_up() {
    for (a, b, expected) in [
        ("one", "two", "one two"),
        ("", "two", "two"),
        ("one\r", "", "one"),
        ("main: x", "[0 --> 1] two", "two"),
        ("one\n\n", "\ntwo", "one two"),
    ] {
        assert_eq!(stt::clean_transcript(&format!("{}\n{}", a, b)), expected);
    }
}

#[test]
fn a_run_ends_well_or_says_why_not() {
    let r = stt::read_texts(true, "exit status: 0", " Hi \n".to_string(), "log".to_string());
    let t = r.ok().unwrap();
    assert_eq!((t.text.as_str(), t.stdout.as_str(), t.stderr.as_str()), ("Hi", " Hi \n", "log"));
    let r = stt::read_texts(false, "exit status: 1", " a \n".to_string(), " b ".to_string());
    assert_eq!(r.err().unwrap(), "whisper-cli exited with exit status: 1:\nSTDOUT: a\nSTDERR: b");
    let t = stt::read_output(true, "ok", " Grüß \n".as_bytes(), &[0xff]).ok().unwrap();
    assert_eq!((t.text.as_str(), t.stdout.as_str(), t.stderr.as_str()),
        ("Grüß", " Grüß \n", "\u{fffd}"));
    let r = stt::read_output(false, "exit status: 1", b" a \n", b" b ");
    assert_eq!(r.err().unwrap(), "whisper-cli exited with exit status: 1:\nSTDOUT: a\nSTDERR: b");
}

// ---------------------------------------------------------------- text to speech

fn files(there: [bool; 4]) -> ModelFiles<String> {
    ModelFiles {
        model: place("d/model.onnx", there[0]),
        voices: place("d/voices.bin", there[1]),
        tokens: place("d/tokens.txt", there[2]),
        data: place("d/espeak-ng-data", there[3]),
    }
}

fn load(there: [bool; 4], available: Option<usize>) -> Result<Tts<String>, String> {
    Tts::load("bin".to_string(), place("d", true), files(there), available)
}

#[test]
fn all_of_the_model_has_to_be_there() {
    assert!(load([true; 4], None).is_ok());
    let e = load([false, false, true, true], None).unwrap_err();
    assert!(e.starts_with("Kokoro model file missing: d/model.onnx\nDownload kokoro-en-v0_19"));
    let e = load([true, false, false, true], None).unwrap_err();
    assert!(e.starts_with("Kokoro model file missing: d/voices.bin\n"));
    let e = load([true, true, false, true], None).unwrap_err();
    assert!(e.starts_with("Kokoro model file missing: d/tokens.txt\n"));
    let e = load([true, true, true, false], None).unwrap_err();
    assert_eq!(e, "espeak-ng-data directory missing under d");
}

#[test]
fn a_text_is_spoken_with_these_arguments() {
    let t = load([true; 4], Some(16)).unwrap();
    assert_eq!(t.bin_path(), "bin");
    assert_eq!(t.model_dir(), "d");
    assert_eq!(t.arguments("Hello", 3, "/tmp/o.wav"), vec![
        "--kokoro-model=d/model.onnx".to_string(),
        "--kokoro-voices=d/voices.bin".to_string(),
        "--kokoro-tokens=d/tokens.txt".to_string(),
        "--kokoro-data-dir=d/espeak-ng-data".to_string(),
        "--num-threads=4".to_string(),
        "--sid=3".to_string(),
        "--output-filename=/tmp/o.wav".to_string(),
        "Hello".to_string(),
    ]);
    assert_eq!(load([true; 4], Some(0)).unwrap().threads, 1);
    assert_eq!(load([true; 4], None).unwrap().threads, 2);
}

#[test]
fn speaking_ends_well_or_says_why_not() {
    assert_eq!(tts::read_output(true, "ok", b"", &place("o", true)), Ok(()));
    assert_eq!(
        tts::read_output(true, "ok", b"", &place("o", false)),
        Err("sherpa-onnx-offline-tts did not produce o".to_string())
    );
    assert_eq!(
        tts::read_output(false, "exit status: 1", b" bad \n", &place("o", true)),
        Err("sherpa-onnx-offline-tts exited with exit status: 1: bad".to_string())
    );
    assert_eq!(
        tts::read_texts(false, "exit status: 1", " bad \n", &place("o", true)),
        Err("sherpa-onnx-offline-tts exited with exit status: 1: bad".to_string())
    );
}

#[test]
fn the_variable_names_a_voice() {
    assert_eq!(tts::choose_voice(Some("7"), 3), 7);
    assert_eq!(tts::choose_voice(Some("10"), 3), 10);
    assert_eq!(tts::choose_voice(Some("11"), 3), 3);
    assert_eq!(tts::choose_voice(Some("x"), 3), 3);
    assert_eq!(tts::choose_voice(Some(""), 3), 3);
    assert_eq!(tts::choose_voice(None, 3), 3);
}

// ---------------------------------------------------------------- playback

#[test]
fn a_text_is_spoken_from_begin_to_end() {
    let mut p = Player::new();
    assert!(!p.is_busy());
    let n = p.begin_speaking(true, "Hello").unwrap();
    assert!(p.is_busy());
    assert!(matches!(p.step(false), PlayerAction::StopClip));
    assert!(matches!(p.step(false), PlayerAction::Nothing));
    assert!(p.is_busy());
    p.finish_speaking(n, Some(vec![1, 2]));
    assert!(matches!(p.step(false), PlayerAction::Replace(b) if b == vec![1, 2]));
    assert!(matches!(p.step(false), PlayerAction::Nothing));
    assert!(p.is_busy());
    assert!(matches!(p.step(true), PlayerAction::Nothing));
    assert!(!p.is_busy());
}

#[test]
fn a_clip_that_plays_makes_the_player_busy() {
    let mut p = Player::new();
    p.play_wav_bytes(vec![1]);
    assert!(matches!(p.step(false), PlayerAction::Replace(_)));
    assert!(p.is_busy());
    p.step(true);
    assert!(!p.is_busy());
}

#[test]
fn a_file_that_is_overtaken_is_not_played() {
    let mut p = Player::new();
    let first = p.begin_speaking(true, "Hello").unwrap();
    p.stop();
    assert!(!p.is_busy());
    p.finish_speaking(first, Some(vec![1]));
    assert!(p.queue.iter().all(|c| matches!(c, PlayCmd::Stop)));

    let second = p.begin_speaking(true, "One").unwrap();
    let third = p.begin_speaking(true, "Two").unwrap();
    assert!(first != second && second != third);
    p.finish_speaking(second, Some(vec![2]));
    assert!(p.is_busy());
    p.finish_speaking(second, None);
    assert!(p.is_busy());
    p.finish_speaking(third, Some(vec![3]));
    let mut played = Vec::new();
    while !p.queue.is_empty() {
        if let PlayerAction::Replace(bytes) = p.step(false) {
            played.push(bytes);
        }
        assert!(p.is_busy());
    }
    assert_eq!(played, vec![vec![3]]);
    p.step(true);
    assert!(!p.is_busy());
}

#[test]
fn the_end_of_a_clip_does_not_end_the_making_of_another() {
    let mut p = Player::new();
    let n = p.begin_speaking(true, "Hello").unwrap();
    p.play_wav_bytes(vec![1]);
    p.step(false);
    p.step(false);
    p.step(true);
    assert!(p.is_busy());
    p.start_failed();
    assert!(p.is_busy());
    p.finish_speaking(n, None);
    assert!(!p.is_busy());
}

#[test]
fn a_clip_that_is_to_be_stopped_does_not() {
    let mut p = Player::new();
    p.play_wav_bytes(vec![1]);
    p.stop();
    assert!(matches!(p.step(false), PlayerAction::Replace(_)));
    assert!(!p.is_busy());
    assert!(matches!(p.step(false), PlayerAction::StopClip));
    assert!(!p.is_busy());
}

#[test]
fn nothing_is_spoken_without_a_voice_or_a_text() {
    let mut p = Player::new();
    assert!(p.begin_speaking(false, "Hello").is_none());
    assert!(p.begin_speaking(true, " \n").is_none());
    assert!(!p.is_busy());
    assert!(p.queue.is_empty());
}

#[test]
fn a_later_clip_replaces_an_earlier_one() {
    let mut p = Player::new();
    p.play_wav_bytes(vec![1]);
    p.play_wav_bytes(vec![2]);
    assert!(matches!(p.step(false), PlayerAction::Replace(b) if b == vec![1]));
    assert!(matches!(p.step(false), PlayerAction::Replace(b) if b == vec![2]));
}

#[test]
fn stopping_ends_speech_at_once() {
    let mut p = Player::new();
    p.mark_busy();
    p.play_wav_bytes(vec![1]);
    p.stop();
    assert!(!p.is_busy());
    assert!(matches!(p.queue[1], PlayCmd::Stop));
}

#[test]
fn failures_leave_nobody_waiting() {
    let mut p = Player::new();
    let n = p.begin_speaking(true, "Hello").unwrap();
    p.finish_speaking(n, None);
    assert!(!p.is_busy());

    let mut p = Player::new();
    let n = p.begin_speaking(true, "Hello").unwrap();
    p.finish_speaking(n, Some(vec![1]));
    p.step(false);
    p.step(false);
    p.start_failed();
    assert!(!p.is_busy());
    assert!(!p.loaded);

    let mut p = Player::new();
    let n = p.begin_speaking(true, "Hello").unwrap();
    p.discard();
    assert!(p.is_busy());
    p.finish_speaking(n, Some(vec![1]));
    p.discard();
    assert!(!p.is_busy());
    assert!(p.queue.is_empty());
}

// ---------------------------------------------------------------- the microphone

#[test]
fn a_source_may_have_no_name() {
    let r = Recorder::new(None, 48_000, 2);
    assert_eq!(r.device_name(), "unknown");
    assert_eq!(r.source_info(), (48_000, 2));
    assert_eq!(Recorder::new(Some("Mic".to_string()), 1, 1).device_name(), "Mic");
}

#[test]
fn devices_without_a_name_are_not_listed() {
    let names = vec![Some("a".to_string()), None, Some("b".to_string())];
    assert_eq!(audio::list_devices(Some(names)), vec!["a".to_string(), "b".to_string()]);
    assert!(audio::list_devices(None).is_empty());
    assert_eq!(audio::default_device_name(None), "none");
    assert_eq!(audio::default_device_name(Some("m".to_string())), "m");
}

#[test]
fn samples_are_laid_out_frame_by_frame() {
    assert_eq!(audio::frame_count(7, 2), 3);
    assert_eq!(audio::frame_bounds(7, 2, 2), (4, 6));
    assert_eq!(audio::frame_count(5, 0), 5);
    assert_eq!(audio::frame_bounds(5, 0, 4), (4, 5));
    assert_eq!(audio::frame_count(0, 2), 0);
    assert_eq!(audio::TARGET_SAMPLE_RATE, 16_000);
}
