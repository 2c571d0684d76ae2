//! Voice enrollment: the onboarding state machine that greets a new user,
//! takes their name, and collects one voice sample per prompt sentence.
//!
//! The state is generic over the embedding type `E`: the state machine only
//! stores embeddings in order and never reads them.
use vstd::prelude::*;

use crate::voice::command::string_views;

verus! {

/// Number of sentences read aloud during enrollment.
pub const PROMPT_COUNT: usize = 5;

/// Sentences chosen for maximum phonetic diversity —
/// covers vowels, fricatives, plosives, nasals, and natural prosody
/// so the embedding model gets a rich voice signature.
pub open spec fn enrollment_prompts() -> Seq<Seq<char>> {
    seq![
        "The quick brown fox jumps over the lazy dog."@,
        "She sells seashells by the seashore every summer."@,
        "How much wood would a woodchuck chuck if a woodchuck could chuck wood?"@,
        "Peter Piper picked a peck of pickled peppers."@,
        "Around the rugged rocks the ragged rascal ran."@,
    ]
}

/// The enrollment prompt sentences.
pub fn enrollment_prompt_list() -> (r: [&'static str; 5])
    ensures
        forall|k: int| 0 <= k < 5 ==> #[trigger] r@[k]@ == enrollment_prompts()[k],
{
    [
        "The quick brown fox jumps over the lazy dog.",
        "She sells seashells by the seashore every summer.",
        "How much wood would a woodchuck chuck if a woodchuck could chuck wood?",
        "Peter Piper picked a peck of pickled peppers.",
        "Around the rugged rocks the ragged rascal ran.",
    ]
}

/// What the frontend shows during enrollment.
#[derive(Debug, Clone)]
pub struct EnrollmentEvent {
    pub stage: String,
    pub message: String,
    pub prompt_index: usize,
    pub total_prompts: usize,
    pub prompts: Vec<String>,
    pub flow: String,
}

/// Who is being enrolled.
#[derive(Debug, Clone, Copy, PartialEq, Eq, Structural)]
pub enum OnboardingFlow {
    Parent,
    Kid,
}

/// The role string stored in the database for a flow.
pub open spec fn role_name(f: OnboardingFlow) -> Seq<char> {
    match f {
        OnboardingFlow::Parent => "parent"@,
        OnboardingFlow::Kid => "kid"@,
    }
}

/// Event stage names are prefixed with "kid_" in the kid flow.
pub open spec fn stage_name(f: OnboardingFlow, event: Seq<char>) -> Seq<char> {
    match f {
        OnboardingFlow::Parent => event,
        OnboardingFlow::Kid => "kid_"@ + event,
    }
}

/// Where the enrollment stands.
#[derive(Debug, Clone, Copy, PartialEq, Eq, Structural)]
pub enum OnboardingStage {
    Idle,
    WaitingForName,
    CollectingVoice { prompt_index: usize },
    Done,
}

/// The enrollment state.
#[derive(Debug, Clone)]
pub struct OnboardingState<E> {
    pub stage: OnboardingStage,
    pub flow: OnboardingFlow,
    pub name: Option<String>,
    pub embeddings: Vec<E>,
}

// ---------------------------------------------------------------------------
// Messages
// ---------------------------------------------------------------------------

pub open spec fn greet_message(f: OnboardingFlow) -> Seq<char> {
    match f {
        OnboardingFlow::Parent => "Hi there! I'm Jarvis, your learning buddy. Let's get started — what's your name?"@,
        OnboardingFlow::Kid => "Hi! Let's set up a new kid account. What's your name?"@,
    }
}

pub open spec fn name_message(f: OnboardingFlow, name: Seq<char>) -> Seq<char> {
    match f {
        OnboardingFlow::Parent => "Nice to meet you, "@ + name
            + "! Now I need to learn your voice. Read each sentence below out loud clearly."@,
        OnboardingFlow::Kid => "Great, "@ + name
            + "! Now I need to learn your voice. Read each sentence below out loud clearly."@,
    }
}

pub open spec fn prompt_message(i: int) -> Seq<char> {
    "Read this sentence: \""@ + enrollment_prompts()[i] + "\""@
}

pub open spec fn done_message(f: OnboardingFlow, name: Seq<char>) -> Seq<char> {
    match f {
        OnboardingFlow::Parent => "You're all set, "@ + name
            + "! Say 'Hey Jarvis' whenever you need me!"@,
        OnboardingFlow::Kid => "You're all set, "@ + name
            + "! Say 'Hey Jarvis' whenever you want to learn something!"@,
    }
}

/// `e` is the event for `stage` of `flow` with `message` at prompt `idx`,
/// listing all prompts.
pub open spec fn describes(
    e: EnrollmentEvent,
    flow: OnboardingFlow,
    stage: Seq<char>,
    message: Seq<char>,
    idx: int,
) -> bool {
    &&& e.stage@ == stage_name(flow, stage)
    &&& e.message@ == message
    &&& e.prompt_index == idx
    &&& e.total_prompts == PROMPT_COUNT
    &&& string_views(e.prompts@) == enrollment_prompts()
    &&& e.flow@ == role_name(flow)
}

fn concat(a: &str, b: &str) -> (r: String)
    ensures
        r@ == a@ + b@,
{
    let mut s = String::new();
    s.append(a);
    s.append(b);
    s
}

fn concat3(a: &str, b: &str, c: &str) -> (r: String)
    ensures
        r@ == a@ + b@ + c@,
{
    let mut s = String::new();
    s.append(a);
    s.append(b);
    s.append(c);
    s
}

impl OnboardingFlow {
    /// The role string stored in the DB.
    pub fn role(&self) -> (r: &'static str)
        ensures
            r@ == role_name(*self),
    {
        match self {
            OnboardingFlow::Parent => "parent",
            OnboardingFlow::Kid => "kid",
        }
    }

    /// Prefix event stage names for kid flow ("greet" → "kid_greet").
    pub fn stage(&self, event: &str) -> (r: String)
        ensures
            r@ == stage_name(*self, event@),
    {
        match self {
            OnboardingFlow::Parent => event.to_owned(),
            OnboardingFlow::Kid => concat("kid_", event),
        }
    }
}

/// All enrollment prompts as strings.
pub fn prompt_strings() -> (r: Vec<String>)
    ensures
        string_views(r@) == enrollment_prompts(),
{
    let list = enrollment_prompt_list();
    let mut out: Vec<String> = Vec::new();
    let mut i: usize = 0;
    while i < 5
        invariant
            i <= 5,
            out@.len() == i,
            forall|k: int| 0 <= k < 5 ==> #[trigger] list@[k]@ == enrollment_prompts()[k],
            forall|k: int| 0 <= k < i ==> #[trigger] out@[k]@ == enrollment_prompts()[k],
        decreases 5 - i,
    {
        out.push(list[i].to_owned());
        i += 1;
    }
    assert(string_views(out@) =~= enrollment_prompts());
    out
}

/// Builds the event for `stage` of `flow`, listing all prompts.
pub fn enrollment_event(
    flow: OnboardingFlow,
    stage: &str,
    message: String,
    prompt_index: usize,
) -> (e: EnrollmentEvent)
    ensures
        describes(e, flow, stage@, message@, prompt_index as int),
{
    EnrollmentEvent {
        stage: flow.stage(stage),
        message,
        prompt_index,
        total_prompts: PROMPT_COUNT,
        prompts: prompt_strings(),
        flow: flow.role().to_owned(),
    }
}

fn greet_text(f: OnboardingFlow) -> (r: String)
    ensures
        r@ == greet_message(f),
{
    match f {
        OnboardingFlow::Parent => ("Hi there! I'm Jarvis, your learning buddy. Let's get started — what's your name?").to_owned(),
        OnboardingFlow::Kid => ("Hi! Let's set up a new kid account. What's your name?").to_owned(),
    }
}

fn name_text(f: OnboardingFlow, name: &str) -> (r: String)
    ensures
        r@ == name_message(f, name@),
{
    match f {
        OnboardingFlow::Parent => concat3(
            "Nice to meet you, ",
            name,
            "! Now I need to learn your voice. Read each sentence below out loud clearly.",
        ),
        OnboardingFlow::Kid => concat3(
            "Great, ",
            name,
            "! Now I need to learn your voice. Read each sentence below out loud clearly.",
        ),
    }
}

fn prompt_text(i: usize) -> (r: String)
    requires
        i < PROMPT_COUNT,
    ensures
        r@ == prompt_message(i as int),
{
    let list = enrollment_prompt_list();
    concat3("Read this sentence: \"", list[i], "\"")
}

// ---------------------------------------------------------------------------
// Transitions
// ---------------------------------------------------------------------------

impl<E> OnboardingState<E> {
    /// A prompt index in progress always names one of the prompts.
    pub open spec fn wf(self) -> bool {
        self.stage matches OnboardingStage::CollectingVoice { prompt_index } ==> prompt_index
            < PROMPT_COUNT
    }

    pub open spec fn active(self) -> bool {
        self.stage is WaitingForName || self.stage is CollectingVoice
    }

    /// Enrollment is under way: waiting for a name or collecting voice samples.
    pub fn is_active(&self) -> (r: bool)
        ensures
            r == self.active(),
    {
        match self.stage {
            OnboardingStage::WaitingForName => true,
            OnboardingStage::CollectingVoice { .. } => true,
            _ => false,
        }
    }
}

/// A fresh, idle onboarding state.
pub fn new_onboarding<E>() -> (r: OnboardingState<E>)
    ensures
        r.stage == OnboardingStage::Idle,
        r.flow == OnboardingFlow::Parent,
        r.name is None,
        r.embeddings@.len() == 0,
        r.wf(),
{
    OnboardingState {
        stage: OnboardingStage::Idle,
        flow: OnboardingFlow::Parent,
        name: None,
        embeddings: Vec::new(),
    }
}

impl<E> Default for OnboardingState<E> {
    /// Idle, parent flow, nothing collected.
    fn default() -> (r: Self)
        ensures
            r.stage == OnboardingStage::Idle,
            r.flow == OnboardingFlow::Parent,
            r.name is None,
            r.embeddings@.len() == 0,
    {
        new_onboarding()
    }
}

/// Resets the state to a new enrollment of `flow`, waiting for a name.
/// Returns the greeting to show.
pub fn start<E>(o: &mut OnboardingState<E>, flow: OnboardingFlow) -> (ev: EnrollmentEvent)
    ensures
        final(o).stage == OnboardingStage::WaitingForName,
        final(o).flow == flow,
        final(o).name is None,
        final(o).embeddings@ == Seq::<E>::empty(),
        final(o).wf(),
        describes(ev, flow, "greet"@, greet_message(flow), 0),
{
    *o = new_onboarding();
    o.flow = flow;
    o.stage = OnboardingStage::WaitingForName;
    enrollment_event(flow, "greet", greet_text(flow), 0)
}

/// Records the accepted name. Returns the confirmation to show.
pub fn accept_name<E>(o: &mut OnboardingState<E>, name: String) -> (ev: EnrollmentEvent)
    ensures
        final(o).name == Some(name),
        final(o).stage == old(o).stage,
        final(o).flow == old(o).flow,
        final(o).embeddings == old(o).embeddings,
        describes(ev, old(o).flow, "name_confirmed"@, name_message(old(o).flow, name@), 0),
{
    let message = name_text(o.flow, name.as_str());
    o.name = Some(name);
    enrollment_event(o.flow, "name_confirmed", message, 0)
}

/// Starts collecting voice samples at the first prompt. Returns the prompt to show.
pub fn begin_voice_collection<E>(o: &mut OnboardingState<E>) -> (ev: EnrollmentEvent)
    ensures
        final(o).stage == (OnboardingStage::CollectingVoice { prompt_index: 0 }),
        final(o).flow == old(o).flow,
        final(o).name == old(o).name,
        final(o).embeddings == old(o).embeddings,
        final(o).wf(),
        describes(ev, old(o).flow, "prompt"@, prompt_message(0), 0),
{
    o.stage = OnboardingStage::CollectingVoice { prompt_index: 0 };
    enrollment_event(o.flow, "prompt", prompt_text(0), 0)
}

/// The stage after recording a sample at stage `s` (unchanged outside collection).
pub open spec fn stage_after_record(s: OnboardingStage) -> OnboardingStage {
    match s {
        OnboardingStage::CollectingVoice { prompt_index } => if prompt_index + 1 >= PROMPT_COUNT {
            OnboardingStage::Done
        } else {
            OnboardingStage::CollectingVoice { prompt_index: (prompt_index + 1) as usize }
        },
        other => other,
    }
}

/// The embeddings after recording `e` at stage `s`.
pub open spec fn embeddings_after_record<E>(s: OnboardingStage, es: Seq<E>, e: E) -> Seq<E> {
    if s is CollectingVoice {
        es.push(e)
    } else {
        es
    }
}

/// Stores the sample for the current prompt and moves to the next prompt.
/// Returns true when all prompts have been collected; otherwise returns the
/// next prompt to show, if collection is under way. Outside collection the
/// state is left alone.
pub fn record_embedding<E>(o: &mut OnboardingState<E>, embedding: E) -> (r: (
    bool,
    Option<EnrollmentEvent>,
))
    requires
        old(o).wf(),
    ensures
        final(o).wf(),
        final(o).stage == stage_after_record(old(o).stage),
        final(o).embeddings@ == embeddings_after_record(
            old(o).stage,
            old(o).embeddings@,
            embedding,
        ),
        final(o).flow == old(o).flow,
        final(o).name == old(o).name,
        r.0 == (final(o).stage == OnboardingStage::Done && old(o).stage is CollectingVoice),
        match final(o).stage {
            OnboardingStage::CollectingVoice { prompt_index } => {
                &&& old(o).stage is CollectingVoice
                &&& r.1 matches Some(ev)
                &&& describes(
                    ev,
                    old(o).flow,
                    "prompt"@,
                    prompt_message(prompt_index as int),
                    prompt_index as int,
                )
            },
            _ => r.1 is None,
        },
{
    let prompt_index = match o.stage {
        OnboardingStage::CollectingVoice { prompt_index } => prompt_index,
        _ => {
            return (false, None);
        },
    };
    o.embeddings.push(embedding);
    let next = prompt_index + 1;
    if next >= PROMPT_COUNT {
        o.stage = OnboardingStage::Done;
        return (true, None);
    }
    o.stage = OnboardingStage::CollectingVoice { prompt_index: next };
    let ev = enrollment_event(o.flow, "prompt", prompt_text(next), next);
    (false, Some(ev))
}

/// The name the enrolled user is stored under: the accepted name, or "User"
/// when none was accepted.
pub fn enrolled_name<E>(o: &OnboardingState<E>) -> (r: String)
    ensures
        r@ == match o.name {
            Some(n) => n@,
            None => "User"@,
        },
{
    match &o.name {
        Some(n) => n.clone(),
        None => "User".to_owned(),
    }
}

/// Only an enrolled parent becomes the session's speaker; a kid is enrolled
/// on a parent's behalf, who stays identified.
pub fn identifies_speaker(flow: OnboardingFlow) -> (r: bool)
    ensures
        r == (flow == OnboardingFlow::Parent),
{
    match flow {
        OnboardingFlow::Parent => true,
        OnboardingFlow::Kid => false,
    }
}

/// The announcement that enrollment finished for `name`.
pub fn completion_event(flow: OnboardingFlow, name: &str) -> (e: EnrollmentEvent)
    ensures
        e.stage@ == stage_name(flow, "done"@),
        e.message@ == done_message(flow, name@),
        e.prompt_index == 0,
        e.total_prompts == 0,
        e.prompts@.len() == 0,
        e.flow@ == role_name(flow),
{
    let message = match flow {
        OnboardingFlow::Parent => concat3(
            "You're all set, ",
            name,
            "! Say 'Hey Jarvis' whenever you need me!",
        ),
        OnboardingFlow::Kid => concat3(
            "You're all set, ",
            name,
            "! Say 'Hey Jarvis' whenever you want to learn something!",
        ),
    };
    EnrollmentEvent {
        stage: flow.stage("done"),
        message,
        prompt_index: 0,
        total_prompts: 0,
        prompts: Vec::new(),
        flow: flow.role().to_owned(),
    }
}

/// The announcement that storing the enrolled user failed.
pub fn failure_event(flow: OnboardingFlow) -> (e: EnrollmentEvent)
    ensures
        e.stage@ == "error"@,
        e.message@ == "Something went wrong. Please restart."@,
        e.prompt_index == 0,
        e.total_prompts == 0,
        e.prompts@.len() == 0,
        e.flow@ == role_name(flow),
{
    EnrollmentEvent {
        stage: ("error").to_owned(),
        message: ("Something went wrong. Please restart.").to_owned(),
        prompt_index: 0,
        total_prompts: 0,
        prompts: Vec::new(),
        flow: flow.role().to_owned(),
    }
}

// ---------------------------------------------------------------------------
// Laws
// ---------------------------------------------------------------------------

/// Recording a sample keeps the prompt index within the prompts.
pub proof fn lemma_record_keeps_wf(s: OnboardingStage)
    requires
        s matches OnboardingStage::CollectingVoice { prompt_index } ==> prompt_index
            < PROMPT_COUNT,
    ensures
        stage_after_record(s) matches OnboardingStage::CollectingVoice { prompt_index }
            ==> prompt_index < PROMPT_COUNT,
{
}

/// Starting from the first prompt, recording one sample per prompt finishes
/// enrollment exactly at the last prompt, with the samples kept in order.
pub proof fn lemma_full_collection<E>(es: Seq<E>, e0: E, e1: E, e2: E, e3: E, e4: E)
    ensures
        ({
            let s0 = OnboardingStage::CollectingVoice { prompt_index: 0 };
            let s1 = stage_after_record(s0);
            let s2 = stage_after_record(s1);
            let s3 = stage_after_record(s2);
            let s4 = stage_after_record(s3);
            let s5 = stage_after_record(s4);
            let x1 = embeddings_after_record(s0, es, e0);
            let x2 = embeddings_after_record(s1, x1, e1);
            let x3 = embeddings_after_record(s2, x2, e2);
            let x4 = embeddings_after_record(s3, x3, e3);
            let x5 = embeddings_after_record(s4, x4, e4);
            &&& s1 != OnboardingStage::Done
            &&& s2 != OnboardingStage::Done
            &&& s3 != OnboardingStage::Done
            &&& s4 != OnboardingStage::Done
            &&& s5 == OnboardingStage::Done
            &&& x5 == es + seq![e0, e1, e2, e3, e4]
        }),
{
    let x = es.push(e0).push(e1).push(e2).push(e3).push(e4);
    assert(x =~= es + seq![e0, e1, e2, e3, e4]);
}

} // verus!
