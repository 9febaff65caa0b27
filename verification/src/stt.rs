//! Speech to text with a local Whisper program.
//!
//! Two programs go by that name, and they take different arguments; which one is
//! at hand shows in what it says of itself.

use vstd::prelude::*;
use vstd::slice::slice_subrange;

use crate::text;
use crate::tools;
use crate::tools::Place;

verus! {

/// Which Whisper program is at hand.
#[derive(Clone, Copy, PartialEq, Eq, Structural, Debug)]
pub enum WhisperDialect {
    /// The C++ program.
    Cpp,
    /// The Python program.
    OpenAi,
}

impl WhisperDialect {
    /// The dialect's name.
    pub open spec fn name(self) -> Seq<char> {
        match self {
            WhisperDialect::Cpp => "Cpp"@,
            WhisperDialect::OpenAi => "OpenAi"@,
        }
    }

    fn shown(self) -> (r: &'static str)
        ensures
            r@ == self.name(),
    {
        match self {
            WhisperDialect::Cpp => "Cpp",
            WhisperDialect::OpenAi => "OpenAi",
        }
    }

    /// The dialect of a program that says `help` of itself.
    pub open spec fn told_by(help: Seq<char>) -> WhisperDialect {
        if text::has_part(help, "ggerganov"@) || text::has_part(help, "whisper.cpp"@) {
            WhisperDialect::Cpp
        } else {
            WhisperDialect::OpenAi
        }
    }

    /// Tells the dialect of a program from what it says of itself.
    pub fn detect(help: &str) -> (r: WhisperDialect)
        ensures
            r == WhisperDialect::told_by(help@),
    {
        let chars = text::to_chars(help);
        if text::contains(chars.as_slice(), "ggerganov") || text::contains(
            chars.as_slice(),
            "whisper.cpp",
        ) {
            WhisperDialect::Cpp
        } else {
            WhisperDialect::OpenAi
        }
    }
}

// ---------------------------------------------------------------- finding the program

/// The variable that names the program.
pub const BINARY_VARIABLE: &'static str = "WHISPER_BIN";

/// The variable that names the model.
pub const MODEL_VARIABLE: &'static str = "WHISPER_MODEL";

/// Where the model usually is, below the place for settings.
pub const MODEL_PATH: &'static str = "speakflow/models/ggml-base.en.bin";

/// What is said where no program was found.
pub const BINARY_NOT_FOUND: &'static str = "whisper-cli not found. Either add it to PATH or set WHISPER_BIN. Download from https://github.com/ggerganov/whisper.cpp/releases (Windows: whisper-bin-x64.zip).";

/// The names under which the program may be found, the newest first.
pub fn binary_names(windows: bool) -> (r: [&'static str; 3])
    ensures
        windows ==> r@ == seq!["whisper-cli.exe", "whisper.exe", "main.exe"],
        !windows ==> r@ == seq!["whisper-cli", "whisper", "main"],
{
    if windows {
        ["whisper-cli.exe", "whisper.exe", "main.exe"]
    } else {
        ["whisper-cli", "whisper", "main"]
    }
}

/// Decides which program to use: the one that the variable names, or else the
/// first of those found under the program's names.
pub fn resolve_binary<P>(named: Option<Place<P>>, found: Vec<Option<Place<P>>>) -> (r: Result<
    Place<P>,
    String,
>)
    ensures
        tools::is_resolved(r, named, found@, BINARY_VARIABLE@, BINARY_NOT_FOUND@),
{
    tools::resolve_program(named, found, BINARY_VARIABLE, BINARY_NOT_FOUND)
}

/// Decides where the model is: where the variable says, or else at the usual place.
pub fn resolve_model<P>(named: Option<P>, usual: Option<P>) -> (r: Result<P, String>)
    ensures
        match named {
            Some(path) => r == Ok::<P, String>(path),
            None => match usual {
                Some(path) => r == Ok::<P, String>(path),
                None => r matches Err(e) && e@ == tools::NO_CONFIG_DIR@,
            },
        },
{
    tools::resolve_model_place(named, usual)
}

/// What the program says of itself: all it printed, or why it could not be run.
pub fn help_text(run: Result<(String, String), String>) -> (r: String)
    ensures
        match run {
            Ok((stdout, stderr)) => r@ == stdout@ + stderr@,
            Err(e) => r@ == "Error running --help: "@ + e@,
        },
{
    match run {
        Ok((stdout, stderr)) => {
            let mut out = stdout;
            out.append(stderr.as_str());
            out
        },
        Err(e) => {
            let mut out = String::from_str("Error running --help: ");
            out.append(e.as_str());
            out
        },
    }
}

/// What the program says of itself, read from the bytes it printed.
pub fn read_help(run: Result<(Vec<u8>, Vec<u8>), String>) -> (r: String)
    ensures
        match run {
            Ok((stdout, stderr)) => {
                &&& r@ == text::lossy_text(stdout@) + text::lossy_text(stderr@)
                &&& vstd::utf8::valid_utf8(stdout@) && vstd::utf8::valid_utf8(stderr@) ==> r@
                    == vstd::utf8::decode_utf8(stdout@) + vstd::utf8::decode_utf8(stderr@)
            },
            Err(e) => r@ == "Error running --help: "@ + e@,
        },
{
    match run {
        Ok((stdout, stderr)) => help_text(
            Ok((text::read_lossy(stdout.as_slice()), text::read_lossy(stderr.as_slice()))),
        ),
        Err(e) => help_text(Err(e)),
    }
}

// ---------------------------------------------------------------- the program

/// One argument of the program. The two paths are put in by the caller.
#[derive(Debug)]
pub enum CliArg {
    Text(String),
    ModelPath,
    AudioPath,
}

/// An argument by what it holds.
pub enum ArgModel {
    Text(Seq<char>),
    ModelPath,
    AudioPath,
}

impl View for CliArg {
    type V = ArgModel;

    open spec fn view(&self) -> ArgModel {
        match self {
            CliArg::Text(s) => ArgModel::Text(s@),
            CliArg::ModelPath => ArgModel::ModelPath,
            CliArg::AudioPath => ArgModel::AudioPath,
        }
    }
}

/// A list of arguments by what they hold.
pub open spec fn arg_models(args: Seq<CliArg>) -> Seq<ArgModel> {
    Seq::new(args.len(), |i: int| args[i]@)
}

fn arg(s: &str) -> (r: CliArg)
    ensures
        r@ == ArgModel::Text(s@),
{
    CliArg::Text(String::from_str(s))
}

/// A Whisper program that can be used, with its model.
pub struct Transcriber<P> {
    pub bin: P,
    pub model: P,
    pub dialect: WhisperDialect,
    pub info: String,
}

/// What a run of the program brought.
#[derive(Clone, Debug)]
pub struct TranscriptionResult {
    pub text: String,
    pub stdout: String,
    pub stderr: String,
}

/// What is shown of a program and its model.
pub open spec fn info_text(
    bin: Seq<char>,
    dialect: WhisperDialect,
    model: Seq<char>,
    help: Seq<char>,
) -> Seq<char> {
    "Binary: "@ + bin + "\nDialect: "@ + dialect.name() + "\nModel: "@ + model
        + "\n\n--help output:\n"@ + help
}

/// What is said where the model is missing.
pub open spec fn model_missing_text(model: Seq<char>) -> Seq<char> {
    "Whisper model not found at "@ + model
        + ". Download e.g. ggml-base.en.bin from https://huggingface.co/ggerganov/whisper.cpp and place it there, or set WHISPER_MODEL."@
}

impl<P> Transcriber<P> {
    /// Takes a program and its model into use. The C++ program needs the model
    /// file; the other one finds its models by name.
    pub fn load(bin: Place<P>, model: Place<P>, help: &str) -> (r: Result<Transcriber<P>, String>)
        ensures
            r is Err <==> WhisperDialect::told_by(help@) == WhisperDialect::Cpp && !model.is_there,
            r matches Err(e) ==> e@ == model_missing_text(model.shown@),
            r matches Ok(t) ==> {
                &&& t.bin == bin.path
                &&& t.model == model.path
                &&& t.dialect == WhisperDialect::told_by(help@)
                &&& t.info@ == info_text(bin.shown@, t.dialect, model.shown@, help@)
            },
    {
        let dialect = WhisperDialect::detect(help);
        if dialect == WhisperDialect::Cpp && !model.is_there {
            let mut e = String::from_str("Whisper model not found at ");
            e.append(model.shown.as_str());
            e.append(
                ". Download e.g. ggml-base.en.bin from https://huggingface.co/ggerganov/whisper.cpp and place it there, or set WHISPER_MODEL.",
            );
            return Err(e);
        }
        let mut info = String::from_str("Binary: ");
        info.append(bin.shown.as_str());
        info.append("\nDialect: ");
        info.append(dialect.shown());
        info.append("\nModel: ");
        info.append(model.shown.as_str());
        info.append("\n\n--help output:\n");
        info.append(help);
        Ok(Transcriber { bin: bin.path, model: model.path, dialect, info })
    }

    /// What is shown of the program.
    pub fn bin_info(&self) -> (r: &str)
        ensures
            r@ == self.info@,
    {
        self.info.as_str()
    }

    /// The arguments for a run with `threads` threads; `model_stem` is the model's
    /// file name without its ending.
    pub fn arguments(&self, threads: usize, model_stem: Option<&str>) -> (r: Vec<CliArg>)
        ensures
            self.dialect == WhisperDialect::Cpp ==> arg_models(r@) == seq![
                ArgModel::Text("--model"@),
                ArgModel::ModelPath,
                ArgModel::Text("--language"@),
                ArgModel::Text("en"@),
                ArgModel::Text("--threads"@),
                ArgModel::Text(text::decimal(threads as nat)),
                ArgModel::Text("-nt"@),
                ArgModel::Text("--no-prints"@),
                ArgModel::AudioPath,
            ],
            self.dialect == WhisperDialect::OpenAi ==> arg_models(r@) == seq![
                ArgModel::Text("--model"@),
                ArgModel::Text(
                    model_name_of(
                        match model_stem {
                            Some(s) => Some(s@),
                            None => None,
                        },
                    ),
                ),
                ArgModel::Text("--language"@),
                ArgModel::Text("en"@),
                ArgModel::Text("--threads"@),
                ArgModel::Text(text::decimal(threads as nat)),
                ArgModel::Text("--device"@),
                ArgModel::Text("cpu"@),
                ArgModel::Text("--verbose"@),
                ArgModel::Text("True"@),
                ArgModel::Text("--output_format"@),
                ArgModel::Text("txt"@),
                ArgModel::AudioPath,
            ],
    {
        let count = CliArg::Text(text::number(threads as u128));
        match self.dialect {
            WhisperDialect::Cpp => {
                vec![
                    arg("--model"),
                    CliArg::ModelPath,
                    arg("--language"),
                    arg("en"),
                    arg("--threads"),
                    count,
                    arg("-nt"),
                    arg("--no-prints"),
                    CliArg::AudioPath,
                ]
            },
            WhisperDialect::OpenAi => {
                let name = model_name(model_stem);
                vec![
                    arg("--model"),
                    CliArg::Text(name),
                    arg("--language"),
                    arg("en"),
                    arg("--threads"),
                    count,
                    arg("--device"),
                    arg("cpu"),
                    arg("--verbose"),
                    arg("True"),
                    arg("--output_format"),
                    arg("txt"),
                    CliArg::AudioPath,
                ]
            },
        }
    }
}

/// The name by which the Python program knows a model: the file name without its
/// ending and without the mark of the other program's models.
pub open spec fn model_name_of(stem: Option<Seq<char>>) -> Seq<char> {
    match stem {
        Some(s) => if text::begins_with(s, "ggml-"@) {
            s.skip("ggml-"@.len() as int)
        } else {
            s
        },
        None => "base"@,
    }
}

/// The name by which the Python program knows a model.
pub fn model_name(stem: Option<&str>) -> (r: String)
    ensures
        r@ == model_name_of(
            match stem {
                Some(s) => Some(s@),
                None => None,
            },
        ),
{
    match stem {
        Some(s) => {
            let chars = text::to_chars(s);
            match text::strip_prefix(chars.as_slice(), "ggml-") {
                Some(rest) => text::from_chars(rest),
                None => String::from_str(s),
            }
        },
        None => String::from_str("base"),
    }
}

/// The number of threads for a run: as many as are available, two where that is
/// not known, and no more than eight.
pub fn thread_count(available: Option<usize>) -> (r: usize)
    ensures
        ({
            let n = match available {
                Some(n) => n,
                None => 2,
            };
            r == if n < 8 {
                n
            } else {
                8
            }
        }),
{
    let n: usize = match available {
        Some(n) => n,
        None => 2,
    };
    if n < 8 {
        n
    } else {
        8
    }
}

/// The name of the temporary recording made at a given time.
pub fn temp_wav_name(stamp: u128) -> (r: String)
    ensures
        r@ == "speakflow-"@ + text::decimal(stamp as nat) + ".wav"@,
{
    let mut out = String::from_str("speakflow-");
    text::push_number(&mut out, stamp);
    out.append(".wav");
    out
}

// ---------------------------------------------------------------- the transcript

/// Whether a line is one that the program prints about itself.
pub open spec fn is_log_line(line: Seq<char>) -> bool {
    text::begins_with(line, "whisper_"@) || text::begins_with(line, "system_info"@)
        || text::begins_with(line, "main:"@)
}

/// A line without the time stamp it begins with, as in `[00:00.000 --> 00:05.000]  Hello`.
pub open spec fn without_timestamp(line: Seq<char>) -> Seq<char> {
    let end = text::position_of(line, ']');
    if line.len() > 0 && line[0] == '[' && text::has_part(line, " --> "@) && end < line.len() {
        text::trimmed(line.skip(end as int + 1))
    } else {
        line
    }
}

/// What is spoken in a line of the program's output; nothing in a blank line or
/// one that the program prints about itself.
pub open spec fn spoken_in(line: Seq<char>) -> Seq<char> {
    let l = text::trimmed(line);
    if is_log_line(l) {
        seq![]
    } else {
        without_timestamp(l)
    }
}

/// What is spoken in some lines, line by line, without those in which nothing is.
pub open spec fn spoken_lines(lines: Seq<Seq<char>>) -> Seq<Seq<char>>
    decreases lines.len(),
{
    if lines.len() == 0 {
        seq![]
    } else {
        let before = spoken_lines(lines.drop_last());
        let spoken = spoken_in(lines.last());
        if spoken.len() > 0 {
            before.push(spoken)
        } else {
            before
        }
    }
}

/// The transcript in the program's output.
pub open spec fn transcript_in(raw: Seq<char>) -> Seq<char> {
    text::joined(spoken_lines(text::lines_of(raw)), " "@)
}

fn clean_line(line: &[char]) -> (r: &[char])
    ensures
        r@ == spoken_in(line@),
{
    let l = text::trim(line);
    if text::starts_with(l, "whisper_") || text::starts_with(l, "system_info") || text::starts_with(
        l,
        "main:",
    ) {
        let nothing = slice_subrange(l, 0, 0);
        assert(nothing@ == Seq::<char>::empty());
        return nothing;
    }
    if l.len() > 0 && l[0] == '[' && text::contains(l, " --> ") {
        assert(l@.skip(0) == l@);
        let end: usize = text::find_char(l, 0, ']');
        if end < l.len() {
            let rest = slice_subrange(l, end + 1, l.len());
            assert(rest@ == l@.skip(end + 1));
            return text::trim(rest);
        }
    }
    l
}

/// Reads the transcript out of the program's output: lines about the program
/// itself and time stamps are dropped, and what is left is put in one line.
pub fn clean_transcript(raw: &str) -> (r: String)
    ensures
        r@ == transcript_in(raw@),
{
    let chars = text::to_chars(raw);
    let lines = text::lines(chars.as_slice());
    let ghost all = text::lines_of(raw@);
    let mut parts: Vec<String> = Vec::new();
    let mut i: usize = 0;
    while i < lines.len()
        invariant
            i <= lines.len(),
            text::slice_texts(lines@) == all,
            text::texts(parts@) == spoken_lines(all.take(i as int)),
        decreases lines.len() - i,
    {
        let ghost before = parts@;
        assert(all.take(i + 1).drop_last() == all.take(i as int));
        assert(all.take(i + 1).last() == lines@[i as int]@);
        let spoken = clean_line(lines[i]);
        if spoken.len() > 0 {
            parts.push(text::from_chars(spoken));
            assert(text::texts(parts@) == text::texts(before).push(spoken@));
        }
        i += 1;
    }
    assert(all.take(all.len() as int) == all);
    text::join(&parts, " ")
}

proof fn lemma_spoken_is_clean(line: Seq<char>)
    requires
        !line.contains('\n'),
    ensures
        spoken_in(line).len() > 0 ==> text::is_clean(spoken_in(line)),
{
    let l = text::trimmed(line);
    text::lemma_trimmed(line);
    let end = text::position_of(l, ']');
    if end < l.len() {
        let rest = l.skip(end as int + 1);
        text::lemma_trimmed(rest);
        if rest.contains('\n') {
            let k = choose|k: int| 0 <= k < rest.len() && rest[k] == '\n';
            assert(l[k + end + 1] == '\n');
            assert(l.contains('\n'));
        }
    }
}

proof fn lemma_spoken_lines_are_clean(lines: Seq<Seq<char>>)
    requires
        forall|i: int| 0 <= i < lines.len() ==> !(#[trigger] lines[i]).contains('\n'),
    ensures
        forall|i: int|
            0 <= i < spoken_lines(lines).len() ==> text::is_clean(#[trigger] spoken_lines(lines)[i]),
    decreases lines.len(),
{
    if lines.len() > 0 {
        assert forall|i: int| 0 <= i < lines.drop_last().len() implies !(
        #[trigger] lines.drop_last()[i]).contains('\n') by {
            assert(lines.drop_last()[i] == lines[i]);
        }
        lemma_spoken_lines_are_clean(lines.drop_last());
        assert(!lines[lines.len() - 1].contains('\n'));
        lemma_spoken_is_clean(lines.last());
        let before = spoken_lines(lines.drop_last());
        assert forall|i: int| 0 <= i < spoken_lines(lines).len() implies text::is_clean(
            #[trigger] spoken_lines(lines)[i],
        ) by {
            if i < before.len() {
                assert(spoken_lines(lines)[i] == before[i]);
            }
        }
    }
}

/// A transcript is one line without white space around it, unless nothing was said.
pub proof fn law_transcript_is_one_line(raw: Seq<char>)
    ensures
        transcript_in(raw).len() > 0 ==> text::is_clean(transcript_in(raw)),
{
    let lines = text::lines_of(raw);
    assert forall|i: int| 0 <= i < lines.len() implies !(#[trigger] lines[i]).contains('\n') by {
        text::lemma_lines_hold_no_feed(raw, i);
    }
    lemma_spoken_lines_are_clean(lines);
    if spoken_lines(lines).len() > 0 {
        text::lemma_joined_clean(spoken_lines(lines));
    }
}

/// What is spoken in a line, if anything, as a list.
spec fn spoken_list(line: Seq<char>) -> Seq<Seq<char>> {
    if spoken_in(line).len() > 0 {
        seq![spoken_in(line)]
    } else {
        seq![]
    }
}

proof fn lemma_spoken_line_by_line(lines: Seq<Seq<char>>)
    ensures
        spoken_lines(lines) == text::gathered(lines, |l: Seq<char>| spoken_list(l)),
        forall|i: int|
            0 <= i < spoken_lines(lines).len() ==> #[trigger] spoken_lines(lines)[i].len() > 0,
    decreases lines.len(),
{
    let read = |l: Seq<char>| spoken_list(l);
    if lines.len() > 0 {
        let before = spoken_lines(lines.drop_last());
        lemma_spoken_line_by_line(lines.drop_last());
        assert(read(lines.last()) == spoken_list(lines.last()));
        assert(spoken_lines(lines) == before + spoken_list(lines.last()));
        assert forall|i: int| 0 <= i < spoken_lines(lines).len() implies #[trigger] spoken_lines(
            lines,
        )[i].len() > 0 by {
            if i < before.len() {
                assert(spoken_lines(lines)[i] == before[i]);
            }
        }
    }
}

proof fn lemma_joined_is_not_empty(list: Seq<Seq<char>>)
    requires
        forall|i: int| 0 <= i < list.len() ==> #[trigger] list[i].len() > 0,
    ensures
        text::joined(list, " "@).len() == 0 <==> list.len() == 0,
{
    if list.len() > 0 {
        assert(list[list.len() - 1].len() > 0);
    }
}

/// The transcript in two outputs joined by a line feed is that of the first and then that
/// of the second, with a space between them where both say something.
#[verifier::rlimit(50)]
pub proof fn law_transcripts_add_up(a: Seq<char>, b: Seq<char>)
    ensures
        transcript_in(a + seq!['\n'] + b) == if transcript_in(a).len() == 0 {
            transcript_in(b)
        } else if transcript_in(b).len() == 0 {
            transcript_in(a)
        } else {
            transcript_in(a) + " "@ + transcript_in(b)
        },
{
    let read = |l: Seq<char>| spoken_list(l);
    assert(read(Seq::<char>::empty()) == Seq::<Seq<char>>::empty()) by {
        reveal_strlit("whisper_");
        reveal_strlit("system_info");
        reveal_strlit("main:");
        assert(text::trimmed(Seq::<char>::empty()) == Seq::<char>::empty());
    }
    assert forall|s: Seq<char>| #[trigger] read(s) == read(text::trimmed(s)) by {
        text::lemma_trimmed(s);
    }
    text::law_lines_add_up(a, b, read);
    lemma_spoken_line_by_line(text::lines_of(a + seq!['\n'] + b));
    lemma_spoken_line_by_line(text::lines_of(a));
    lemma_spoken_line_by_line(text::lines_of(b));
    let x = spoken_lines(text::lines_of(a));
    let y = spoken_lines(text::lines_of(b));
    lemma_joined_is_not_empty(x);
    lemma_joined_is_not_empty(y);
    if x.len() == 0 {
        assert(x + y == y);
    } else if y.len() == 0 {
        assert(x + y == x);
    } else {
        text::lemma_joined_parts(x, y, " "@);
    }
}

/// What is said where the program failed.
pub open spec fn failure_text(status: Seq<char>, stdout: Seq<char>, stderr: Seq<char>) -> Seq<char> {
    "whisper-cli exited with "@ + status + ":\nSTDOUT: "@ + text::trimmed(stdout) + "\nSTDERR: "@
        + text::trimmed(stderr)
}

/// Reads the outcome of a run from the bytes that the program printed: the transcript
/// where it ended well, and all that it printed where it failed.
pub fn read_output(success: bool, status: &str, stdout: &[u8], stderr: &[u8]) -> (r: Result<
    TranscriptionResult,
    String,
>)
    ensures
        r is Ok <==> success,
        r matches Ok(t) ==> {
            &&& t.stdout@ == text::lossy_text(stdout@)
            &&& t.stderr@ == text::lossy_text(stderr@)
            &&& t.text@ == transcript_in(t.stdout@)
            &&& vstd::utf8::valid_utf8(stdout@) ==> t.stdout@ == vstd::utf8::decode_utf8(stdout@)
            &&& vstd::utf8::valid_utf8(stderr@) ==> t.stderr@ == vstd::utf8::decode_utf8(stderr@)
        },
        r matches Err(e) ==> {
            &&& e@ == failure_text(
                status@,
                text::lossy_text(stdout@),
                text::lossy_text(stderr@),
            )
            &&& vstd::utf8::valid_utf8(stdout@) && vstd::utf8::valid_utf8(stderr@) ==> e@
                == failure_text(
                status@,
                vstd::utf8::decode_utf8(stdout@),
                vstd::utf8::decode_utf8(stderr@),
            )
        },
{
    read_texts(success, status, text::read_lossy(stdout), text::read_lossy(stderr))
}

/// Reads the outcome of a run from the texts that the program printed.
pub fn read_texts(success: bool, status: &str, stdout: String, stderr: String) -> (r: Result<
    TranscriptionResult,
    String,
>)
    ensures
        r is Ok <==> success,
        r matches Ok(t) ==> t.text@ == transcript_in(stdout@) && t.stdout == stdout && t.stderr
            == stderr,
        r matches Err(e) ==> e@ == failure_text(status@, stdout@, stderr@),
{
    if success {
        let text = clean_transcript(stdout.as_str());
        Ok(TranscriptionResult { text, stdout, stderr })
    } else {
        let mut e = String::from_str("whisper-cli exited with ");
        e.append(status);
        e.append(":\nSTDOUT: ");
        let out = text::trim_text(stdout.as_str());
        e.append(out.as_str());
        e.append("\nSTDERR: ");
        let err = text::trim_text(stderr.as_str());
        e.append(err.as_str());
        Err(e)
    }
}

// ---------------------------------------------------------------- laws of a line

proof fn lemma_transcript_of_line(line: Seq<char>)
    requires
        !line.contains('\n'),
    ensures
        transcript_in(line) == spoken_in(line),
{
    reveal_strlit("whisper_");
    reveal_strlit("system_info");
    reveal_strlit("main:");
    if line.len() == 0 {
        assert(text::trimmed(line) == Seq::<char>::empty());
        assert(text::lines_of(line) == Seq::<Seq<char>>::empty());
        assert(spoken_lines(text::lines_of(line)) == Seq::<Seq<char>>::empty());
        assert(spoken_in(line) == Seq::<char>::empty());
    } else {
        text::lemma_only_line(line);
        let lines = seq![line];
        let none = Seq::<Seq<char>>::empty();
        assert(lines.drop_last() == none);
        assert(lines.last() == line);
        assert(spoken_lines(none) == none);
        if spoken_in(line).len() > 0 {
            assert(spoken_lines(lines) == seq![spoken_in(line)]);
            assert(text::joined(seq![spoken_in(line)], " "@) == spoken_in(line)) by {
                assert(seq![spoken_in(line)].last() == spoken_in(line));
            }
        } else {
            assert(spoken_lines(lines) == none);
        }
    }
}

/// A line that the program prints about itself says nothing: one that begins with
/// "whisper_", "system_info" or "main:".
pub proof fn law_log_lines_say_nothing(line: Seq<char>, rest: Seq<char>)
    requires
        !line.contains('\n'),
        text::trimmed(line) == "whisper_"@ + rest || text::trimmed(line) == "system_info"@ + rest
            || text::trimmed(line) == "main:"@ + rest,
    ensures
        transcript_in(line).len() == 0,
{
    lemma_transcript_of_line(line);
    let l = text::trimmed(line);
    assert(text::begins_with(l, "whisper_"@) || text::begins_with(l, "system_info"@)
        || text::begins_with(l, "main:"@));
}

/// Whether a line is none that the program prints about itself.
pub open spec fn is_no_log(line: Seq<char>) -> bool {
    forall|rest: Seq<char>|
        {
            &&& text::trimmed(line) != #[trigger] ("whisper_"@ + rest)
            &&& text::trimmed(line) != "system_info"@ + rest
            &&& text::trimmed(line) != "main:"@ + rest
        }
}

proof fn lemma_no_log(line: Seq<char>)
    requires
        is_no_log(line),
    ensures
        !is_log_line(text::trimmed(line)),
{
    reveal_strlit("whisper_");
    reveal_strlit("system_info");
    reveal_strlit("main:");
    let l = text::trimmed(line);
    let a = l.skip(8);
    let b = l.skip(11);
    let c = l.skip(5);
    assert(l != "whisper_"@ + a);
    assert(l != "system_info"@ + b) by {
        assert(l != "whisper_"@ + b);
    }
    assert(l != "main:"@ + c) by {
        assert(l != "whisper_"@ + c);
    }
    if text::begins_with(l, "whisper_"@) {
        assert(l == "whisper_"@ + a);
    }
    if text::begins_with(l, "system_info"@) {
        assert(l == "system_info"@ + b);
    }
    if text::begins_with(l, "main:"@) {
        assert(l == "main:"@ + c);
    }
}

/// Any other line is spoken, word for word and without the white space around it, unless
/// it begins with a bracket.
pub proof fn law_line_is_spoken_verbatim(line: Seq<char>)
    requires
        !line.contains('\n'),
        is_no_log(line),
        text::trimmed(line).len() > 0 ==> text::trimmed(line)[0] != '[',
    ensures
        transcript_in(line) == text::trimmed(line),
        text::is_clean(line) ==> transcript_in(line) == line,
{
    lemma_transcript_of_line(line);
    lemma_no_log(line);
}

/// The time stamp at the beginning of a line is not spoken, and what stands behind it is.
/// A bracket with no arrow in the line, or one that is never closed, is no time stamp.
#[verifier::rlimit(50)]
pub proof fn law_time_stamp_is_dropped(line: Seq<char>, stamp: Seq<char>, rest: Seq<char>)
    requires
        !line.contains('\n'),
        !stamp.contains(']'),
        text::trimmed(line) == seq!['['] + stamp + seq![']'] + rest || text::trimmed(line)
            == seq!['['] + stamp,
    ensures
        text::trimmed(line) == seq!['['] + stamp + seq![']'] + rest && text::has_part(
            text::trimmed(line),
            " --> "@,
        ) ==> transcript_in(line) == text::trimmed(rest),
        text::trimmed(line) == seq!['['] + stamp ==> transcript_in(line) == text::trimmed(line),
        !text::has_part(text::trimmed(line), " --> "@) ==> transcript_in(line) == text::trimmed(
            line,
        ),
{
    lemma_transcript_of_line(line);
    reveal_strlit("whisper_");
    reveal_strlit("system_info");
    reveal_strlit("main:");
    let l = text::trimmed(line);
    assert(l[0] == '[');
    assert(!is_log_line(l)) by {
        assert(text::begins_with(l, "whisper_"@) ==> l[0] == "whisper_"@[0]);
        assert(text::begins_with(l, "system_info"@) ==> l[0] == "system_info"@[0]);
        assert(text::begins_with(l, "main:"@) ==> l[0] == "main:"@[0]);
    }
    let end = text::position_of(l, ']');
    text::lemma_position_of(l, ']');
    let open = seq!['['] + stamp;
    assert forall|i: int| 0 <= i < open.len() implies #[trigger] open[i] != ']' by {
        if i > 0 {
            assert(open[i] == stamp[i - 1]);
            assert(stamp.contains(stamp[i - 1]));
        }
    }
    if l == open + seq![']'] + rest {
        assert(l[open.len() as int] == ']');
        if end < open.len() {
            assert(open[end as int] == l[end as int]);
        }
        assert(end == open.len());
        assert(l.skip(end as int + 1) == rest);
    }
}

/// The C++ program is the one that names its author or itself.
pub proof fn law_dialect_is_told(help: Seq<char>, a: Seq<char>, b: Seq<char>)
    ensures
        help == a + "ggerganov"@ + b || help == a + "whisper.cpp"@ + b
            ==> WhisperDialect::told_by(help) == WhisperDialect::Cpp,
        WhisperDialect::told_by(help) == WhisperDialect::OpenAi <==> !text::has_part(
            help,
            "ggerganov"@,
        ) && !text::has_part(help, "whisper.cpp"@),
{
    if help == a + "ggerganov"@ + b {
        text::law_parts_are_parts(help, "ggerganov"@);
    }
    if help == a + "whisper.cpp"@ + b {
        text::law_parts_are_parts(help, "whisper.cpp"@);
    }
}

/// The mark of the C++ program's models is dropped, and nothing else of a name is.
pub proof fn law_model_mark_is_dropped(stem: Seq<char>, name: Seq<char>)
    ensures
        stem == "ggml-"@ + name ==> model_name_of(Some(stem)) == name,
        (forall|rest: Seq<char>| stem != #[trigger] ("ggml-"@ + rest)) ==> model_name_of(
            Some(stem),
        ) == stem,
        model_name_of(None) == "base"@,
{
    reveal_strlit("ggml-");
    if stem == "ggml-"@ + name {
        assert(stem.skip(5) == name);
    }
    if text::begins_with(stem, "ggml-"@) {
        assert(stem == "ggml-"@ + stem.skip(5));
    }
}

/// What is shown of a program names the program, its dialect, its model and all that it
/// says of itself, each under its own heading.
pub proof fn law_info_names_program_and_model(
    bin: Seq<char>,
    dialect: WhisperDialect,
    model: Seq<char>,
    help: Seq<char>,
)
    ensures
        ({
            let info = info_text(bin, dialect, model, help);
            let kind = if dialect == WhisperDialect::Cpp {
                "Cpp"@
            } else {
                "OpenAi"@
            };
            &&& text::stands_under(info, "Binary: "@, bin, "\nDialect: "@)
            &&& text::stands_under(info, "\nDialect: "@, kind, "\nModel: "@)
            &&& text::stands_under(info, "\nModel: "@, model, "\n\n--help output:\n"@)
            &&& text::stands_under(info, "\n\n--help output:\n"@, help, seq![])
            &&& info.len() == "Binary: "@.len() + bin.len() + "\nDialect: "@.len() + kind.len()
                + "\nModel: "@.len() + model.len() + "\n\n--help output:\n"@.len() + help.len()
        }),
{
    let info = info_text(bin, dialect, model, help);
    let none = Seq::<char>::empty();
    let kind = dialect.name();
    let a = "Binary: "@;
    let b = "\nDialect: "@;
    let c = "\nModel: "@;
    let d = "\n\n--help output:\n"@;
    assert(info == none + a + bin + b + (kind + c + model + d + help));
    assert(info == (a + bin) + b + kind + c + (model + d + help));
    assert(info == (a + bin + b + kind) + c + model + d + help);
    assert(info == (a + bin + b + kind + c + model) + d + help + none + none);
}

/// What is said of a failure holds how the program ended and both that it printed, each
/// under its own heading and without the white space around it.
pub proof fn law_failure_tells_what_was_printed(
    status: Seq<char>,
    stdout: Seq<char>,
    stderr: Seq<char>,
)
    ensures
        ({
            let said = failure_text(status, stdout, stderr);
            let out = text::trimmed(stdout);
            let err = text::trimmed(stderr);
            &&& text::stands_under(said, "whisper-cli exited with "@, status, ":\nSTDOUT: "@)
            &&& text::stands_under(said, ":\nSTDOUT: "@, out, "\nSTDERR: "@)
            &&& text::stands_under(said, "\nSTDERR: "@, err, seq![])
            &&& said.len() == "whisper-cli exited with "@.len() + status.len()
                + ":\nSTDOUT: "@.len() + out.len() + "\nSTDERR: "@.len() + err.len()
        }),
{
    let said = failure_text(status, stdout, stderr);
    let none = Seq::<char>::empty();
    let out = text::trimmed(stdout);
    let err = text::trimmed(stderr);
    let a = "whisper-cli exited with "@;
    let b = ":\nSTDOUT: "@;
    let c = "\nSTDERR: "@;
    assert(said == none + a + status + b + (out + c + err));
    assert(said == (a + status) + b + out + c + err);
    assert(said == (a + status + b + out) + c + err + none + none);
}

} // verus!
