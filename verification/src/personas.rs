//! Coaching personas: whom the coach speaks as, what about, and to whom.
//!
//! A persona bundles a description of the coaching style, which is woven into
//! the system prompt, a list of topics to draw an exercise from, and optional
//! background on the user.

use rand::seq::SliceRandom;
use vstd::prelude::*;

use crate::text;

verus! {

/// A coaching style, the topics it draws on and what it knows of the user.
#[derive(Clone, Debug)]
pub struct Persona {
    pub name: String,
    /// Reads on after "You are ".
    pub description: String,
    pub topics: Vec<String>,
    pub background: String,
    /// The voice in which prompts are read aloud.
    pub voice_id: u32,
}

/// The names of the voices; a voice's number is its position.
pub const KOKORO_VOICES: [&'static str; 11] = [
    "af",
    "af_bella",
    "af_nicole",
    "af_sarah",
    "af_sky",
    "am_adam",
    "am_michael",
    "bf_emma",
    "bf_isabella",
    "bm_george",
    "bm_lewis",
];

/// The name of a voice, or "unknown" where there is none with that number.
pub open spec fn voice_name(voice_id: int) -> Seq<char> {
    if 0 <= voice_id < KOKORO_VOICES@.len() {
        KOKORO_VOICES@[voice_id]@
    } else {
        "unknown"@
    }
}

/// The name of a voice.
pub fn voice_label(voice_id: u32) -> (r: &'static str)
    ensures
        r@ == voice_name(voice_id as int),
{
    if (voice_id as u64) < (KOKORO_VOICES.len() as u64) {
        KOKORO_VOICES[voice_id as usize]
    } else {
        "unknown"
    }
}

// ---------------------------------------------------------------- built-in personas

/// The name of the persona that older sessions, which name none, belong to.
pub const ENGINEERING_LEADER: &'static str = "Engineering Leader";

/// What the engineering coach is.
pub const ENGINEERING_DESCRIPTION: &'static str = "an executive communications coach. Your client is a senior engineering leader (Head of Engineering, VP Eng, or CTO) who wants to sharpen how they speak in high-stakes settings: exec staff meetings, board updates, all-hands, investor conversations, and difficult 1:1s";

/// What the engineering coach draws on.
pub const ENGINEERING_TOPICS: [&'static str; 16] = [
    "Engineering leadership",
    "People management & 1:1s",
    "Technical strategy",
    "System architecture trade-offs",
    "Platform vs product engineering",
    "Build vs buy decisions",
    "Hiring & team composition",
    "Cross-functional alignment with Product / Design",
    "Communicating to the executive team or board",
    "Incident response & blameless culture",
    "Org design & team topologies",
    "Migrations and tech debt",
    "AI / ML adoption strategy",
    "Developer productivity & DX",
    "Performance management & feedback",
    "Roadmapping under uncertainty",
];

/// The name of the persona for everyday conversation.
pub const SOCIAL_BANTER: &'static str = "Social & Banter";

/// What the coach for everyday conversation is.
pub const SOCIAL_DESCRIPTION: &'static str = "a communications coach focused on everyday social conversations. Your client wants to be a more engaging, witty, and present conversationalist in casual settings: pub chat, dinner parties, dates, group hangouts, and conversations with strangers";

/// What the coach for everyday conversation draws on.
pub const SOCIAL_TOPICS: [&'static str; 13] = [
    "Telling a story from your week",
    "Small talk openers that aren't the weather",
    "Sharing an unpopular opinion, playfully",
    "Riffing on a current cultural moment",
    "Banter in a group setting",
    "Recommending a book / film / show with conviction",
    "Asking a great question",
    "Recovering from an awkward silence",
    "Making fun of yourself well",
    "Disagreeing without picking a fight",
    "Holding the floor at a dinner party",
    "First-date conversation",
    "Bumping into someone you half-know",
];

/// The texts of an array of string slices.
pub open spec fn slices(list: Seq<&'static str>) -> Seq<Seq<char>> {
    Seq::new(list.len(), |i: int| list[i]@)
}

fn owned(list: &[&'static str]) -> (r: Vec<String>)
    ensures
        text::texts(r@) == slices(list@),
{
    let mut out: Vec<String> = Vec::new();
    let mut i: usize = 0;
    while i < list.len()
        invariant
            i <= list.len(),
            text::texts(out@) == slices(list@).take(i as int),
        decreases list.len() - i,
    {
        let ghost before = out@;
        out.push(String::from_str(list[i]));
        assert(text::texts(out@) == text::texts(before).push(list@[i as int]@));
        assert(slices(list@).take(i + 1) == slices(list@).take(i as int).push(list@[i as int]@));
        i += 1;
    }
    assert(slices(list@).take(list@.len() as int) == slices(list@));
    out
}

impl Persona {
    /// Whether the persona is a built-in one, with no background and the first voice.
    pub open spec fn is_built_in(
        self,
        name: Seq<char>,
        description: Seq<char>,
        topics: Seq<Seq<char>>,
    ) -> bool {
        &&& self.name@ == name
        &&& self.description@ == description
        &&& text::texts(self.topics@) == topics
        &&& self.background@ == Seq::<char>::empty()
        &&& self.voice_id == 0
    }

    pub open spec fn is_engineering_leader(self) -> bool {
        self.is_built_in(
            ENGINEERING_LEADER@,
            ENGINEERING_DESCRIPTION@,
            slices(ENGINEERING_TOPICS@),
        )
    }

    pub open spec fn is_social_banter(self) -> bool {
        self.is_built_in(SOCIAL_BANTER@, SOCIAL_DESCRIPTION@, slices(SOCIAL_TOPICS@))
    }
}

/// The built-in coach for engineering leaders.
pub fn default_engineering_leader() -> (r: Persona)
    ensures
        r.is_engineering_leader(),
{
    Persona {
        name: String::from_str(ENGINEERING_LEADER),
        description: String::from_str(ENGINEERING_DESCRIPTION),
        topics: owned(ENGINEERING_TOPICS.as_slice()),
        background: String::new(),
        voice_id: 0,
    }
}

/// The built-in coach for everyday conversation.
pub fn default_social_banter() -> (r: Persona)
    ensures
        r.is_social_banter(),
{
    Persona {
        name: String::from_str(SOCIAL_BANTER),
        description: String::from_str(SOCIAL_DESCRIPTION),
        topics: owned(SOCIAL_TOPICS.as_slice()),
        background: String::new(),
        voice_id: 0,
    }
}

// ---------------------------------------------------------------- the list of personas

/// The personas at hand and the position of the active one.
#[derive(Clone, Debug)]
pub struct PersonaStore {
    pub active: usize,
    pub personas: Vec<Persona>,
}

/// The active position once the persona at `removed` has left a list of `n`: it
/// follows the persona it points at, and stays in the list.
pub open spec fn active_after_removal(active: int, removed: int, n: int) -> int {
    if active > removed || active >= n - 1 {
        if active - 1 < 0 {
            0
        } else if active - 1 > n - 2 {
            n - 2
        } else {
            active - 1
        }
    } else {
        active
    }
}

impl PersonaStore {
    /// Whether there is a persona and the active position is in the list.
    pub open spec fn wf(self) -> bool {
        self.active < self.personas@.len()
    }

    /// The active persona.
    pub open spec fn active_persona(self) -> Persona {
        self.personas@[if self.active < self.personas@.len() {
            self.active as int
        } else {
            self.personas@.len() - 1
        }]
    }

    /// Whether these are the two built-in personas with the first one active.
    pub open spec fn is_default(self) -> bool {
        &&& self.active == 0
        &&& self.personas@.len() == 2
        &&& self.personas@[0].is_engineering_leader()
        &&& self.personas@[1].is_social_banter()
    }

    /// The active persona; the last one where the active position is past the end.
    pub fn active(&self) -> (r: &Persona)
        requires
            self.personas@.len() > 0,
        ensures
            *r == self.active_persona(),
    {
        let last: usize = self.personas.len() - 1;
        if self.active <= last {
            &self.personas[self.active]
        } else {
            &self.personas[last]
        }
    }

    /// Makes the persona at a position the active one.
    pub fn set_active(&mut self, i: usize)
        requires
            i < old(self).personas@.len(),
        ensures
            final(self).wf(),
            final(self).active == i,
            final(self).personas == old(self).personas,
    {
        self.active = i;
    }

    /// Takes the persona at a position out of the list.
    pub fn remove(&mut self, i: usize)
        requires
            i < old(self).personas@.len(),
        ensures
            final(self).personas@ == old(self).personas@.remove(i as int),
            old(self).personas@.len() > 1 ==> final(self).active == active_after_removal(
                old(self).active as int,
                i as int,
                old(self).personas@.len() as int,
            ),
            old(self).personas@.len() == 1 ==> final(self).active == 0,
            old(self).wf() && old(self).personas@.len() > 1 ==> final(self).wf(),
    {
        self.personas.remove(i);
        let n: usize = self.personas.len();
        if self.active > i || self.active >= n {
            let down: usize = self.active.saturating_sub(1);
            let last: usize = n.saturating_sub(1);
            self.active = if down < last {
                down
            } else {
                last
            };
        }
    }

    /// Puts an edited persona in its place, or a new one at the end, where it
    /// becomes the active one.
    pub fn put(&mut self, place: Option<usize>, persona: Persona)
        requires
            place matches Some(i) ==> i < old(self).personas@.len(),
        ensures
            place matches Some(i) ==> {
                &&& final(self).personas@ == old(self).personas@.update(i as int, persona)
                &&& final(self).active == old(self).active
            },
            place is None ==> {
                &&& final(self).personas@ == old(self).personas@.push(persona)
                &&& final(self).active == old(self).personas@.len()
            },
            old(self).wf() || place is None ==> final(self).wf(),
    {
        match place {
            Some(i) => {
                self.personas[i] = persona;
            },
            None => {
                self.personas.push(persona);
                self.active = self.personas.len() - 1;
            },
        }
    }
}

impl Default for PersonaStore {
    /// The two built-in personas, the engineering coach active.
    fn default() -> (r: PersonaStore)
        ensures
            r.is_default(),
            r.wf(),
    {
        PersonaStore {
            active: 0,
            personas: vec![default_engineering_leader(), default_social_banter()],
        }
    }
}

/// Takes the stored personas over, where there are any that could be read. An
/// empty list gives way to the built-in personas, and an active position past
/// the end to the first one.
pub fn load(stored: Option<PersonaStore>) -> (r: PersonaStore)
    ensures
        r.wf(),
        stored is None ==> r.is_default(),
        stored matches Some(s) ==> {
            &&& s.personas@.len() == 0 ==> r.is_default()
            &&& s.personas@.len() > 0 ==> {
                &&& r.personas == s.personas
                &&& r.active == if s.active < s.personas@.len() {
                    s.active
                } else {
                    0
                }
            }
        },
{
    match stored {
        None => PersonaStore::default(),
        Some(s) => {
            if s.personas.len() == 0 {
                return PersonaStore::default();
            }
            let mut s = s;
            if s.active >= s.personas.len() {
                s.active = 0;
            }
            s
        },
    }
}

/// Taking a persona other than the active one out of the list leaves the same
/// persona active, and all the others in their order.
pub proof fn law_removal_keeps_active(before: PersonaStore, after: PersonaStore, i: int)
    requires
        before.wf(),
        0 <= i < before.personas@.len(),
        before.personas@.len() > 1,
        after.personas@ == before.personas@.remove(i),
        after.active == active_after_removal(
            before.active as int,
            i,
            before.personas@.len() as int,
        ),
    ensures
        after.wf(),
        i != before.active ==> after.active_persona() == before.active_persona(),
        i == before.active && i + 1 < before.personas@.len() ==> after.active_persona()
            == before.personas@[i + 1],
        i == before.active && i + 1 == before.personas@.len() ==> after.active_persona()
            == before.personas@[i - 1],
{
}

// ---------------------------------------------------------------- topics

/// What is spoken about where a persona has no topics.
pub const OPEN_TOPIC: &'static str = "An open-ended speaking prompt";

/// Picks one of a list by chance: `rand`'s `SliceRandom::choose` with the
/// thread's generator. It returns one of the items, and none only where there
/// are none. Which one it is, and how likely each is, is left unsaid.
#[verifier::external_body]
fn choose_topic(topics: &[String]) -> (r: Option<&String>)
    ensures
        r is None <==> topics@.len() == 0,
        r matches Some(topic) ==> topics@.contains(*topic),
{
    topics.choose(&mut rand::thread_rng())
}

/// The topic that was picked, or the open one where none was.
pub fn topic_or_open(picked: Option<&String>) -> (r: String)
    ensures
        picked matches Some(topic) ==> r@ == topic@,
        picked is None ==> r@ == OPEN_TOPIC@,
{
    match picked {
        Some(topic) => topic.clone(),
        None => String::from_str(OPEN_TOPIC),
    }
}

/// Picks one of a persona's topics by chance; the open one where it has none.
pub fn pick_random_topic(persona: &Persona) -> (r: String)
    ensures
        persona.topics@.len() == 0 ==> r@ == OPEN_TOPIC@,
        persona.topics@.len() > 0 ==> text::texts(persona.topics@).contains(r@),
{
    let picked = choose_topic(persona.topics.as_slice());
    proof {
        if let Some(topic) = picked {
            let i = choose|i: int| 0 <= i < persona.topics@.len() && persona.topics@[i] == *topic;
            assert(text::texts(persona.topics@)[i] == topic@);
        }
    }
    topic_or_open(picked)
}

/// The eleven voices have their names in this order; no other number has a name.
pub proof fn law_voices_have_their_names(voice_id: int)
    ensures
        voice_name(0) == "af"@ && voice_name(1) == "af_bella"@ && voice_name(2) == "af_nicole"@,
        voice_name(3) == "af_sarah"@ && voice_name(4) == "af_sky"@ && voice_name(5) == "am_adam"@,
        voice_name(6) == "am_michael"@ && voice_name(7) == "bf_emma"@,
        voice_name(8) == "bf_isabella"@ && voice_name(9) == "bm_george"@,
        voice_name(10) == "bm_lewis"@,
        voice_id < 0 || voice_id > 10 ==> voice_name(voice_id) == "unknown"@,
{
}

/// Wherever the active position stood, it is in the list once a persona has left; one that
/// stood past the end comes to the last.
pub proof fn law_active_stays_in_the_list(active: int, removed: int, n: int)
    requires
        0 <= active,
        0 <= removed < n,
        n > 1,
    ensures
        0 <= active_after_removal(active, removed, n) < n - 1,
        active >= n ==> active_after_removal(active, removed, n) == n - 2,
        active < removed ==> active < n ==> active_after_removal(active, removed, n) == active,
        removed < active < n ==> active_after_removal(active, removed, n) == active - 1,
{
}

/// The built-in personas: who they are, what they draw on, and that they know nothing of
/// the user.
pub proof fn law_built_in_personas_are_these(engineering: Persona, social: Persona)
    requires
        engineering.is_engineering_leader(),
        social.is_social_banter(),
    ensures
        engineering.name@ == "Engineering Leader"@,
        engineering.description@
            == "an executive communications coach. Your client is a senior engineering leader (Head of Engineering, VP Eng, or CTO) who wants to sharpen how they speak in high-stakes settings: exec staff meetings, board updates, all-hands, investor conversations, and difficult 1:1s"@,
        text::texts(engineering.topics@) == seq![
            "Engineering leadership"@,
            "People management & 1:1s"@,
            "Technical strategy"@,
            "System architecture trade-offs"@,
            "Platform vs product engineering"@,
            "Build vs buy decisions"@,
            "Hiring & team composition"@,
            "Cross-functional alignment with Product / Design"@,
            "Communicating to the executive team or board"@,
            "Incident response & blameless culture"@,
            "Org design & team topologies"@,
            "Migrations and tech debt"@,
            "AI / ML adoption strategy"@,
            "Developer productivity & DX"@,
            "Performance management & feedback"@,
            "Roadmapping under uncertainty"@,
        ],
        engineering.background@.len() == 0 && engineering.voice_id == 0,
        social.name@ == "Social & Banter"@,
        social.description@
            == "a communications coach focused on everyday social conversations. Your client wants to be a more engaging, witty, and present conversationalist in casual settings: pub chat, dinner parties, dates, group hangouts, and conversations with strangers"@,
        text::texts(social.topics@) == seq![
            "Telling a story from your week"@,
            "Small talk openers that aren't the weather"@,
            "Sharing an unpopular opinion, playfully"@,
            "Riffing on a current cultural moment"@,
            "Banter in a group setting"@,
            "Recommending a book / film / show with conviction"@,
            "Asking a great question"@,
            "Recovering from an awkward silence"@,
            "Making fun of yourself well"@,
            "Disagreeing without picking a fight"@,
            "Holding the floor at a dinner party"@,
            "First-date conversation"@,
            "Bumping into someone you half-know"@,
        ],
        social.background@.len() == 0 && social.voice_id == 0,
{
}

} // verus!
