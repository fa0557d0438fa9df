//! The course of a transcription and of the upkeep of credentials.
//!
//! The caller carries out the actions and reports how they went; which action
//! comes next is decided here.

use vstd::prelude::*;
use crate::client;
use crate::client::{CredentialState, Transcript};
use crate::credentials::Credentials;
use crate::error::Error;
use crate::provider::ProviderTranscript;

verus! {

/// What is known of an input path.
pub enum InputPath {
    /// The path is empty.
    Empty,
    /// The path could not be made absolute, for this reason.
    Unresolved(String),
    /// Nothing could be learned of the file, for this reason.
    Unreadable(String),
    /// The path is not that of a regular file.
    NotAFile,
    /// The path is that of a regular file.
    File,
}

/// Why an input path is refused.
pub open spec fn input_fault(path: InputPath) -> Option<crate::error::ErrorModel> {
    match path {
        InputPath::Empty => Some(
            crate::error::ErrorModel::Message("input path must not be empty"@),
        ),
        InputPath::Unresolved(detail) => Some(
            crate::error::ErrorModel::Message("resolve path: "@ + detail@),
        ),
        InputPath::Unreadable(detail) => Some(
            crate::error::ErrorModel::Message("read input file: "@ + detail@),
        ),
        InputPath::NotAFile => Some(
            crate::error::ErrorModel::Message("input must be a regular local file"@),
        ),
        InputPath::File => None,
    }
}

/// Judges an input path.
pub fn validate_input(path: InputPath) -> (r: Result<(), Error>)
    ensures
        crate::error::failure(r) == input_fault(path),
{
    match path {
        InputPath::Empty => Err(Error::msg("input path must not be empty")),
        InputPath::Unresolved(detail) => Err(Error::detailed("resolve path: ", detail.as_str())),
        InputPath::Unreadable(detail) => Err(Error::detailed("read input file: ", detail.as_str())),
        InputPath::NotAFile => Err(Error::msg("input must be a regular local file")),
        InputPath::File => Ok(()),
    }
}

/// What the upkeep of credentials asks for.
pub enum UpkeepAction {
    /// Make credentials available.
    Acquire,
    /// Fetch a token for the current credentials.
    Refresh,
    /// Store the current credentials.
    Persist,
    /// Nothing: the upkeep ended so.
    Finish(Result<bool, Error>),
}

/// What an [`UpkeepAction`] says.
pub enum UpkeepModel {
    Acquire,
    Refresh,
    Persist,
    Finish(Result<bool, crate::error::ErrorModel>),
}

impl View for UpkeepAction {
    type V = UpkeepModel;

    open spec fn view(&self) -> UpkeepModel {
        match self {
            UpkeepAction::Acquire => UpkeepModel::Acquire,
            UpkeepAction::Refresh => UpkeepModel::Refresh,
            UpkeepAction::Persist => UpkeepModel::Persist,
            UpkeepAction::Finish(outcome) => UpkeepModel::Finish(
                match *outcome {
                    Ok(refreshed) => Ok(refreshed),
                    Err(error) => Err(error@),
                },
            ),
        }
    }
}

/// One attempt to refresh the token once its interval is over.
pub struct Upkeep {
    /// The refresh interval in whole seconds.
    pub interval_seconds: u64,
    /// The number of the credentials that are refreshed.
    pub number: u64,
    /// The time of the attempt in seconds.
    pub now: u64,
}

impl Upkeep {
    /// Starts an attempt. Without an interval it ends at once, and nothing is
    /// loaded or refreshed.
    pub fn begin(interval: Option<(u64, u32)>) -> (r: (Upkeep, UpkeepAction))
        ensures
            match interval {
                None => r.1@ == UpkeepModel::Finish(Ok::<bool, crate::error::ErrorModel>(false)),
                Some(found) => r.1@ == UpkeepModel::Acquire && r.0.interval_seconds == found.0,
            },
    {
        match interval {
            None => (
                Upkeep { interval_seconds: 0, number: 0, now: 0 },
                UpkeepAction::Finish(Ok(false)),
            ),
            Some(found) => (
                Upkeep { interval_seconds: found.0, number: 0, now: 0 },
                UpkeepAction::Acquire,
            ),
        }
    }

    /// Goes on after credentials were made available, or could not be.
    pub fn acquired(&mut self, state: &CredentialState, outcome: Result<(), Error>, now: u64) -> (r:
        UpkeepAction)
        ensures
            final(self).interval_seconds == old(self).interval_seconds,
            final(self).number == state@.installs,
            final(self).now == now,
            r@ == match outcome {
                Err(error) => UpkeepModel::Finish(
                    Err::<bool, crate::error::ErrorModel>(error@),
                ),
                Ok(_) => if state@.is_due(old(self).interval_seconds, now) {
                    UpkeepModel::Refresh
                } else {
                    UpkeepModel::Finish(Ok::<bool, crate::error::ErrorModel>(false))
                },
            },
    {
        self.number = state.number();
        self.now = now;
        match outcome {
            Err(error) => UpkeepAction::Finish(Err(error)),
            Ok(_) => if state.refresh_due(self.interval_seconds, now) {
                UpkeepAction::Refresh
            } else {
                UpkeepAction::Finish(Ok(false))
            },
        }
    }

    /// Goes on after a token was fetched, or could not be.
    pub fn refreshed(
        &self,
        state: &mut CredentialState,
        outcome: Result<Credentials, Error>,
    ) -> (r: UpkeepAction)
        requires
            old(state)@.installs < u64::MAX,
        ensures
            match outcome {
                Ok(candidate) => {
                    &&& final(state)@ == old(state)@.after_refresh(self.number as nat, candidate@)
                    &&& r@ == if old(state)@.is_current(self.number as nat) {
                        UpkeepModel::Persist
                    } else {
                        UpkeepModel::Finish(Ok::<bool, crate::error::ErrorModel>(false))
                    }
                },
                Err(error) => {
                    &&& final(state)@ == old(state)@.after_refresh_failure(self.now)
                    &&& r@ == UpkeepModel::Finish(Err::<bool, crate::error::ErrorModel>(error@))
                },
            },
    {
        match outcome {
            Ok(candidate) => if state.refresh(self.number, candidate) {
                UpkeepAction::Persist
            } else {
                UpkeepAction::Finish(Ok(false))
            },
            Err(error) => {
                state.fail_refresh(self.now);
                UpkeepAction::Finish(Err(error))
            },
        }
    }

    /// Ends after the credentials were stored, or could not be.
    pub fn persisted(&self, outcome: Result<(), Error>) -> (r: UpkeepAction)
        ensures
            r@ == UpkeepModel::Finish(
                match outcome {
                    Ok(_) => Ok(true),
                    Err(error) => Err(error@),
                },
            ),
    {
        match outcome {
            Ok(_) => UpkeepAction::Finish(Ok(true)),
            Err(error) => UpkeepAction::Finish(Err(error)),
        }
    }
}

/// Making credentials available takes at most a load and a registration: the
/// stored credentials are looked for once, and a device is registered only
/// where none are stored.
pub proof fn law_acquisition_ends(
    m: client::StateModel,
    found: Option<crate::credentials::CredentialsModel>,
    registered: crate::credentials::CredentialsModel,
)
    ensures
        m.need() == client::Need::Load ==> m.after_load(found).need() == if found is Some {
            client::Need::Nothing
        } else {
            client::Need::Register
        },
        m.need() == client::Need::Register ==> m.after_registration(registered).need()
            == client::Need::Nothing,
        m.need() == client::Need::Nothing ==> m.credentials is Some,
{
}

/// Stored credentials are not written again until others take their place;
/// registered ones are written once.
pub proof fn law_only_new_credentials_are_saved(
    m: client::StateModel,
    found: crate::credentials::CredentialsModel,
    registered: crate::credentials::CredentialsModel,
)
    requires
        !m.dirty,
    ensures
        !m.after_load(Some(found)).must_save(m.installs + 1),
        m.after_registration(registered).must_save(m.installs + 1),
        !(client::StateModel { dirty: false, ..m.after_registration(registered) }).must_save(
            m.installs + 1,
        ),
{
}

/// A refresh that was installed holds off the next one for the interval: of
/// callers who wait for one another, the first alone refreshes.
pub proof fn law_refresh_is_not_repeated(
    m: client::StateModel,
    number: nat,
    candidate: crate::credentials::CredentialsModel,
    interval_seconds: u64,
    now: u64,
    later: u64,
)
    requires
        m.is_current(number),
        candidate.refreshed_at == now,
        now <= later < now + interval_seconds,
        later < u64::MAX,
    ensures
        !m.after_refresh(number, candidate).is_due(interval_seconds, later),
        m.after_refresh(number, candidate).credentials == Some(candidate),
{
}

/// A refresh that failed keeps the credentials, and no refresh is tried until
/// the wait is over.
pub proof fn law_failed_refresh_keeps_credentials(
    m: client::StateModel,
    interval_seconds: u64,
    now: u64,
    later: u64,
)
    requires
        later < now + client::backoff(m.after_refresh_failure(now).refresh_failures),
        now + 3600 <= u64::MAX,
    ensures
        m.after_refresh_failure(now).credentials == m.credentials,
        m.after_refresh_failure(now).installs == m.installs,
        m.after_refresh_failure(now).dirty == m.dirty,
        !m.after_refresh_failure(now).is_due(interval_seconds, later),
{
}

/// Refreshes that fail one after the other are tried again after 1, 5, 15 and
/// then every 60 minutes; a refresh that succeeds starts the count anew.
pub proof fn law_backoff_schedule(
    m: client::StateModel,
    now: u64,
    number: nat,
    candidate: crate::credentials::CredentialsModel,
)
    requires
        now + 3600 <= u64::MAX,
    ensures
        m.refresh_failures == 0 ==> m.after_refresh_failure(now).retry_after == now + 60,
        m.refresh_failures == 1 ==> m.after_refresh_failure(now).retry_after == now + 300,
        m.refresh_failures == 2 ==> m.after_refresh_failure(now).retry_after == now + 900,
        m.refresh_failures >= 3 ==> m.after_refresh_failure(now).retry_after == now + 3600,
        m.refresh_failures < usize::MAX ==> m.after_refresh_failure(now).refresh_failures
            == m.refresh_failures + 1,
        m.is_current(number) ==> m.after_refresh(number, candidate).refresh_failures == 0
            && m.after_refresh(number, candidate).retry_after == 0,
        m.activated(candidate).refresh_failures == 0 && m.activated(candidate).retry_after == 0,
{
}

/// A refresh of credentials that others have replaced meanwhile changes nothing.
pub proof fn law_stale_refresh_changes_nothing(
    m: client::StateModel,
    number: nat,
    other: crate::credentials::CredentialsModel,
    candidate: crate::credentials::CredentialsModel,
)
    requires
        number <= m.installs,
    ensures
        m.activated(other).after_refresh(number, candidate) == m.activated(other),
        !m.activated(other).must_save(number),
{
}

/// The credentials that a transcription is made with.
#[derive(Clone, Copy, Debug, PartialEq, Eq, Structural)]
pub enum Holder {
    /// Those that were current when the transcription began.
    Held,
    /// Those that are current once a rejection is looked into.
    Current,
    /// Those that were fetched or registered to replace them.
    Candidate,
}

/// What a transcription is doing.
#[derive(Clone, Copy, Debug, PartialEq, Eq, Structural)]
pub enum Phase {
    /// Nothing yet.
    Start,
    /// Looking at the input.
    Validating,
    /// Keeping up the credentials.
    Maintaining,
    /// Making credentials available.
    Acquiring,
    /// Transcribing with the held credentials.
    FirstTry,
    /// Storing the held credentials.
    FirstStored,
    /// Making credentials available once more, with no other refresh at work.
    Reacquiring,
    /// Transcribing with the current credentials.
    SecondTry,
    /// Storing the current credentials.
    SecondStored,
    /// Fetching a token for the same device.
    Refreshing,
    /// Transcribing with the refreshed credentials.
    ThirdTry,
    /// Installing and storing the refreshed credentials.
    ThirdStored,
    /// Registering another device.
    Registering,
    /// Transcribing with the registered credentials.
    FourthTry,
    /// Installing and storing the registered credentials.
    FourthStored,
    /// Nothing any more.
    Ended,
}

/// How an action of a transcription went.
pub enum StepOutcome {
    /// It succeeded.
    Done,
    /// Credentials are available; whether they are the ones that were rejected.
    Available { same: bool },
    /// The service recognized this.
    Recognized(ProviderTranscript),
    /// It failed.
    Failed(Error),
}

/// What a [`StepOutcome`] says.
pub enum OutcomeModel {
    Done,
    Available { same: bool },
    Recognized(crate::provider::ProviderTranscriptModel),
    Failed(crate::error::ErrorModel),
}

impl View for StepOutcome {
    type V = OutcomeModel;

    open spec fn view(&self) -> OutcomeModel {
        match self {
            StepOutcome::Done => OutcomeModel::Done,
            StepOutcome::Available { same } => OutcomeModel::Available { same: *same },
            StepOutcome::Recognized(result) => OutcomeModel::Recognized(result@),
            StepOutcome::Failed(error) => OutcomeModel::Failed(error@),
        }
    }
}

/// What a transcription asks for.
pub enum StepAction {
    /// Look at the input.
    Validate,
    /// Keep up the credentials.
    Maintain,
    /// Make credentials available and hold on to them.
    Acquire,
    /// Make credentials available once more, after any other refresh has ended.
    Reacquire,
    /// Transcribe with these credentials.
    Transcribe(Holder),
    /// Store these credentials if they are current and not stored yet.
    Persist(Holder),
    /// Fetch a token for the device of the current credentials.
    Refresh,
    /// Register a device.
    Register,
    /// Install and store the candidate.
    Activate,
    /// Nothing: the transcription ended so.
    Finish(Result<Transcript, Error>),
}

/// What a [`StepAction`] says.
pub enum ActionModel {
    Validate,
    Maintain,
    Acquire,
    Reacquire,
    Transcribe(Holder),
    Persist(Holder),
    Refresh,
    Register,
    Activate,
    Finish(Result<client::TranscriptModel, crate::error::ErrorModel>),
}

impl View for StepAction {
    type V = ActionModel;

    open spec fn view(&self) -> ActionModel {
        match self {
            StepAction::Validate => ActionModel::Validate,
            StepAction::Maintain => ActionModel::Maintain,
            StepAction::Acquire => ActionModel::Acquire,
            StepAction::Reacquire => ActionModel::Reacquire,
            StepAction::Transcribe(holder) => ActionModel::Transcribe(*holder),
            StepAction::Persist(holder) => ActionModel::Persist(*holder),
            StepAction::Refresh => ActionModel::Refresh,
            StepAction::Register => ActionModel::Register,
            StepAction::Activate => ActionModel::Activate,
            StepAction::Finish(outcome) => ActionModel::Finish(client::transcription(*outcome)),
        }
    }
}

/// Where a transcription stands.
#[verifier::ext_equal]
pub struct FlowModel {
    pub phase: Phase,
    /// What was recognized.
    pub result: Option<crate::provider::ProviderTranscriptModel>,
}

/// Whether a phase is a try to transcribe.
pub open spec fn is_try(phase: Phase) -> bool {
    phase == Phase::FirstTry || phase == Phase::SecondTry || phase == Phase::ThirdTry || phase
        == Phase::FourthTry
}

/// Whether a phase stores the credentials of a recognition.
pub open spec fn is_storing(phase: Phase) -> bool {
    phase == Phase::FirstStored || phase == Phase::SecondStored || phase == Phase::ThirdStored
        || phase == Phase::FourthStored
}

impl FlowModel {
    /// Whether there is a recognition where one is to be published.
    pub open spec fn wf(self) -> bool {
        is_storing(self.phase) ==> self.result is Some
    }

    /// Whether an outcome fits what the transcription is doing.
    pub open spec fn expects(self, outcome: OutcomeModel) -> bool {
        match outcome {
            OutcomeModel::Failed(_) => self.phase != Phase::Ended,
            OutcomeModel::Recognized(_) => is_try(self.phase),
            OutcomeModel::Available { .. } => self.phase == Phase::Reacquiring,
            OutcomeModel::Done => self.phase != Phase::Ended && self.phase != Phase::Reacquiring
                && !is_try(self.phase),
        }
    }

    /// The transcription at another phase.
    pub open spec fn at(self, phase: Phase) -> FlowModel {
        FlowModel { phase, ..self }
    }

    /// The end of the transcription.
    pub open spec fn ended(
        self,
        outcome: Result<client::TranscriptModel, crate::error::ErrorModel>,
    ) -> (FlowModel, ActionModel) {
        (FlowModel { phase: Phase::Ended, result: None }, ActionModel::Finish(outcome))
    }

    /// Where the transcription stands after a failure, and what is to be done
    /// next. Upkeep that fails is passed over. A rejection leads on to the next
    /// try; any other failure ends the transcription, that of a refresh too.
    pub open spec fn after_failure(self, error: crate::error::ErrorModel) -> (
        FlowModel,
        ActionModel,
    ) {
        match self.phase {
            Phase::Maintaining => (self.at(Phase::Acquiring), ActionModel::Acquire),
            Phase::FirstTry if error.is_rejection() => (
                self.at(Phase::Reacquiring),
                ActionModel::Reacquire,
            ),
            Phase::SecondTry if error.is_rejection() => (
                self.at(Phase::Refreshing),
                ActionModel::Refresh,
            ),
            Phase::ThirdTry if error.is_rejection() => (
                self.at(Phase::Registering),
                ActionModel::Register,
            ),
            _ => self.ended(Err(error)),
        }
    }

    /// Where the transcription stands after a recognition, and what is to be
    /// done next: the credentials that it was made with are stored, those that
    /// replace others after they are installed.
    pub open spec fn after_recognition(
        self,
        result: crate::provider::ProviderTranscriptModel,
    ) -> (FlowModel, ActionModel) {
        let m = FlowModel { result: Some(result), ..self };
        match self.phase {
            Phase::FirstTry => (m.at(Phase::FirstStored), ActionModel::Persist(Holder::Held)),
            Phase::SecondTry => (m.at(Phase::SecondStored), ActionModel::Persist(Holder::Current)),
            Phase::ThirdTry => (m.at(Phase::ThirdStored), ActionModel::Activate),
            _ => (m.at(Phase::FourthStored), ActionModel::Activate),
        }
    }

    /// Where the transcription stands after an outcome, and what is to be done
    /// next.
    pub open spec fn advanced(self, outcome: OutcomeModel) -> (FlowModel, ActionModel) {
        match outcome {
            OutcomeModel::Failed(error) => self.after_failure(error),
            OutcomeModel::Recognized(result) => self.after_recognition(result),
            OutcomeModel::Available { same } => if same {
                (self.at(Phase::Refreshing), ActionModel::Refresh)
            } else {
                (self.at(Phase::SecondTry), ActionModel::Transcribe(Holder::Current))
            },
            OutcomeModel::Done => match self.phase {
                Phase::Start => (self.at(Phase::Validating), ActionModel::Validate),
                Phase::Validating => (self.at(Phase::Maintaining), ActionModel::Maintain),
                Phase::Maintaining => (self.at(Phase::Acquiring), ActionModel::Acquire),
                Phase::Acquiring => (
                    self.at(Phase::FirstTry),
                    ActionModel::Transcribe(Holder::Held),
                ),
                Phase::Refreshing => (
                    self.at(Phase::ThirdTry),
                    ActionModel::Transcribe(Holder::Candidate),
                ),
                Phase::Registering => (
                    self.at(Phase::FourthTry),
                    ActionModel::Transcribe(Holder::Candidate),
                ),
                // The credentials are stored; no other phase expects this outcome.
                _ => self.ended(client::published(self.result->0)),
            },
        }
    }
}

/// The course of one transcription.
pub struct TranscriptionFlow {
    phase: Phase,
    result: Option<ProviderTranscript>,
}

/// An optional recognition by what it holds.
pub open spec fn optional_result(value: Option<ProviderTranscript>) -> Option<
    crate::provider::ProviderTranscriptModel,
> {
    match value {
        Some(result) => Some(result@),
        None => None,
    }
}

impl View for TranscriptionFlow {
    type V = FlowModel;

    closed spec fn view(&self) -> FlowModel {
        FlowModel { phase: self.phase, result: optional_result(self.result) }
    }
}

/// A transcription before it starts.
pub open spec fn flow_start() -> FlowModel {
    FlowModel { phase: Phase::Start, result: None }
}

impl TranscriptionFlow {
    /// Prepares a transcription.
    pub fn new() -> (r: TranscriptionFlow)
        ensures
            r@ == flow_start(),
            r@.wf(),
    {
        TranscriptionFlow { phase: Phase::Start, result: None }
    }

    /// Tells what the transcription is doing.
    pub fn phase(&self) -> (r: Phase)
        ensures
            r == self@.phase,
    {
        self.phase
    }

    /// Decides what follows a failure.
    fn fail(&mut self, error: Error) -> (r: StepAction)
        ensures
            (final(self)@, r@) == old(self)@.after_failure(error@),
    {
        let rejected = error.should_refresh_credentials();
        match self.phase {
            Phase::Maintaining => {
                self.phase = Phase::Acquiring;
                StepAction::Acquire
            },
            Phase::FirstTry if rejected => {
                self.phase = Phase::Reacquiring;
                StepAction::Reacquire
            },
            Phase::SecondTry if rejected => {
                self.phase = Phase::Refreshing;
                StepAction::Refresh
            },
            Phase::ThirdTry if rejected => {
                self.phase = Phase::Registering;
                StepAction::Register
            },
            _ => {
                self.phase = Phase::Ended;
                self.result = None;
                StepAction::Finish(Err(error))
            },
        }
    }

    /// Decides what follows a recognition.
    fn recognize(&mut self, result: ProviderTranscript) -> (r: StepAction)
        ensures
            (final(self)@, r@) == old(self)@.after_recognition(result@),
    {
        self.result = Some(result);
        match self.phase {
            Phase::FirstTry => {
                self.phase = Phase::FirstStored;
                StepAction::Persist(Holder::Held)
            },
            Phase::SecondTry => {
                self.phase = Phase::SecondStored;
                StepAction::Persist(Holder::Current)
            },
            Phase::ThirdTry => {
                self.phase = Phase::ThirdStored;
                StepAction::Activate
            },
            _ => {
                self.phase = Phase::FourthStored;
                StepAction::Activate
            },
        }
    }

    /// Takes note of how the last action went and says what is to be done next.
    /// The first report, that nothing was done, starts the transcription.
    pub fn advance(&mut self, outcome: StepOutcome) -> (r: StepAction)
        requires
            old(self)@.wf(),
            old(self)@.expects(outcome@),
        ensures
            final(self)@.wf(),
            (final(self)@, r@) == old(self)@.advanced(outcome@),
    {
        match outcome {
            StepOutcome::Failed(error) => self.fail(error),
            StepOutcome::Recognized(result) => self.recognize(result),
            StepOutcome::Available { same } => if same {
                self.phase = Phase::Refreshing;
                StepAction::Refresh
            } else {
                self.phase = Phase::SecondTry;
                StepAction::Transcribe(Holder::Current)
            },
            StepOutcome::Done => match self.phase {
                Phase::Start => {
                    self.phase = Phase::Validating;
                    StepAction::Validate
                },
                Phase::Validating => {
                    self.phase = Phase::Maintaining;
                    StepAction::Maintain
                },
                Phase::Maintaining => {
                    self.phase = Phase::Acquiring;
                    StepAction::Acquire
                },
                Phase::Acquiring => {
                    self.phase = Phase::FirstTry;
                    StepAction::Transcribe(Holder::Held)
                },
                Phase::Refreshing => {
                    self.phase = Phase::ThirdTry;
                    StepAction::Transcribe(Holder::Candidate)
                },
                Phase::Registering => {
                    self.phase = Phase::FourthTry;
                    StepAction::Transcribe(Holder::Candidate)
                },
                _ => {
                    self.phase = Phase::Ended;
                    let mut result: Option<ProviderTranscript> = None;
                    std::mem::swap(&mut result, &mut self.result);
                    let found = result.unwrap();
                    StepAction::Finish(client::public_transcript(found))
                },
            },
        }
    }
}

/// How far a transcription is from its end.
pub open spec fn distance(phase: Phase) -> nat {
    match phase {
        Phase::Start => 13,
        Phase::Validating => 12,
        Phase::Maintaining => 11,
        Phase::Acquiring => 10,
        Phase::FirstTry => 9,
        Phase::Reacquiring => 8,
        Phase::SecondTry => 7,
        Phase::Refreshing => 6,
        Phase::ThirdTry => 5,
        Phase::Registering => 4,
        Phase::FourthTry => 3,
        Phase::FirstStored => 2,
        Phase::SecondStored => 2,
        Phase::ThirdStored => 2,
        Phase::FourthStored => 2,
        Phase::Ended => 0,
    }
}

/// A transcription comes nearer to its end with every outcome, so that it ends
/// after 13 of them at the latest.
pub proof fn law_transcription_ends(m: FlowModel, outcome: OutcomeModel)
    requires
        m.expects(outcome),
    ensures
        distance(m.advanced(outcome).0.phase) < distance(m.phase),
        distance(flow_start().phase) == 13,
        distance(m.advanced(outcome).0.phase) == 0 <==> m.advanced(outcome).1 is Finish,
{
}

/// Whether every outcome fits what the transcription is doing when it comes.
pub open spec fn fitting(m: FlowModel, outcomes: Seq<OutcomeModel>) -> bool
    decreases outcomes.len(),
{
    outcomes.len() > 0 ==> m.expects(outcomes[0]) && fitting(
        m.advanced(outcomes[0]).0,
        outcomes.skip(1),
    )
}

/// The actions that outcomes in a row lead to.
pub open spec fn actions(m: FlowModel, outcomes: Seq<OutcomeModel>) -> Seq<ActionModel>
    decreases outcomes.len(),
{
    if outcomes.len() == 0 {
        Seq::empty()
    } else {
        seq![m.advanced(outcomes[0]).1] + actions(m.advanced(outcomes[0]).0, outcomes.skip(1))
    }
}

/// Each outcome leads to one action, and the actions after the first are those
/// that the rest of the outcomes lead to.
proof fn lemma_actions_front(m: FlowModel, outcomes: Seq<OutcomeModel>)
    ensures
        actions(m, outcomes).len() == outcomes.len(),
        outcomes.len() > 0 ==> actions(m, outcomes)[0] == m.advanced(outcomes[0]).1,
        forall|i: int|
            0 < i < outcomes.len() ==> #[trigger] actions(m, outcomes)[i] == actions(
                m.advanced(outcomes[0]).0,
                outcomes.skip(1),
            )[i - 1],
    decreases outcomes.len(),
{
    if outcomes.len() > 0 {
        lemma_actions_front(m.advanced(outcomes[0]).0, outcomes.skip(1));
    }
}

/// How often an action is asked for.
pub open spec fn times(action: ActionModel, list: Seq<ActionModel>) -> nat
    decreases list.len(),
{
    if list.len() == 0 {
        0
    } else {
        (if list[0] == action {
            1nat
        } else {
            0
        }) + times(action, list.skip(1))
    }
}

/// One more action at the front counts once if it is the one that is counted.
proof fn lemma_times_front(action: ActionModel, first: ActionModel, rest: Seq<ActionModel>)
    ensures
        times(action, seq![first] + rest) == (if first == action {
            1nat
        } else {
            0
        }) + times(action, rest),
{
    let list = seq![first] + rest;
    assert(list[0] == first);
    assert(list.skip(1) =~= rest);
}

/// A transcription refreshes the token at most once and registers a device at
/// most once, whatever happens.
pub proof fn law_one_refresh_and_one_registration(outcomes: Seq<OutcomeModel>)
    requires
        fitting(flow_start(), outcomes),
    ensures
        times(ActionModel::Refresh, actions(flow_start(), outcomes)) <= 1,
        times(ActionModel::Register, actions(flow_start(), outcomes)) <= 1,
{
    lemma_refreshes_left(flow_start(), outcomes);
}

proof fn lemma_refreshes_left(m: FlowModel, outcomes: Seq<OutcomeModel>)
    requires
        fitting(m, outcomes),
    ensures
        times(ActionModel::Refresh, actions(m, outcomes)) <= 1,
        distance(m.phase) <= distance(Phase::Refreshing) ==> times(
            ActionModel::Refresh,
            actions(m, outcomes),
        ) == 0,
        times(ActionModel::Register, actions(m, outcomes)) <= 1,
        distance(m.phase) <= distance(Phase::Registering) ==> times(
            ActionModel::Register,
            actions(m, outcomes),
        ) == 0,
    decreases outcomes.len(),
{
    if outcomes.len() > 0 {
        let (after, action) = m.advanced(outcomes[0]);
        lemma_refreshes_left(after, outcomes.skip(1));
        lemma_times_front(ActionModel::Refresh, action, actions(after, outcomes.skip(1)));
        lemma_times_front(ActionModel::Register, action, actions(after, outcomes.skip(1)));
        law_transcription_ends(m, outcomes[0]);
    }
}

/// Whether the service rejected the session.
pub open spec fn is_rejected(outcome: OutcomeModel) -> bool {
    outcome matches OutcomeModel::Failed(error) && error.is_rejection()
}

/// A refresh follows a rejection of the current credentials and nothing else. A
/// registration follows a rejection of the refreshed credentials and nothing
/// else; a refresh that fails ends the transcription.
pub proof fn law_registration_is_the_last_resort(m: FlowModel, outcome: OutcomeModel)
    requires
        m.expects(outcome),
    ensures
        m.advanced(outcome).1 is Reacquire <==> m.phase == Phase::FirstTry && is_rejected(outcome),
        m.advanced(outcome).1 is Refresh <==> (m.phase == Phase::Reacquiring && outcome
            == (OutcomeModel::Available { same: true })) || (m.phase == Phase::SecondTry
            && is_rejected(outcome)),
        m.advanced(outcome).1 is Register <==> m.phase == Phase::ThirdTry && is_rejected(outcome),
        m.phase == Phase::Refreshing && outcome is Failed ==> m.advanced(outcome).1 is Finish,
{
}

/// Whether the action at a place is a registration with all that has to come
/// before it: a refresh, which succeeded, and a try with the refreshed
/// credentials, which the service rejected.
pub open spec fn registers_after_refresh(
    list: Seq<ActionModel>,
    outcomes: Seq<OutcomeModel>,
    i: int,
) -> bool {
    &&& i >= 2
    &&& list[i - 2] is Refresh
    &&& outcomes[i - 1] is Done
    &&& list[i - 1] == ActionModel::Transcribe(Holder::Candidate)
    &&& is_rejected(outcomes[i])
}

/// In the course of a transcription a device is registered only after the token
/// was refreshed and the refreshed token was rejected.
pub proof fn law_registration_follows_a_rejected_refresh(outcomes: Seq<OutcomeModel>, i: int)
    requires
        fitting(flow_start(), outcomes),
        0 <= i < outcomes.len(),
        actions(flow_start(), outcomes)[i] is Register,
    ensures
        registers_after_refresh(actions(flow_start(), outcomes), outcomes, i),
{
    lemma_registration(flow_start(), outcomes, i);
}

proof fn lemma_registration(m: FlowModel, outcomes: Seq<OutcomeModel>, i: int)
    requires
        fitting(m, outcomes),
        0 <= i < outcomes.len(),
        actions(m, outcomes)[i] is Register,
    ensures
        i == 0 ==> m.phase == Phase::ThirdTry && is_rejected(outcomes[0]),
        i == 1 ==> m.phase == Phase::Refreshing && outcomes[0] is Done && actions(m, outcomes)[0]
            == ActionModel::Transcribe(Holder::Candidate) && is_rejected(outcomes[1]),
        i >= 2 ==> registers_after_refresh(actions(m, outcomes), outcomes, i),
    decreases outcomes.len(),
{
    let after = m.advanced(outcomes[0]).0;
    let rest = outcomes.skip(1);
    lemma_actions_front(m, outcomes);
    if i > 0 {
        assert(outcomes[i] == rest[i - 1]);
        lemma_registration(after, rest, i - 1);
        if i > 1 {
            assert(outcomes[i - 1] == rest[i - 2]);
        }
    }
}

/// Whether an action stores credentials or puts others in their place.
pub open spec fn changes_credentials(action: ActionModel) -> bool {
    action is Persist || action is Activate
}

/// Where nothing is recognized, a transcription neither stores credentials nor
/// puts others in their place.
pub proof fn law_credentials_stay_without_recognition(outcomes: Seq<OutcomeModel>, i: int)
    requires
        fitting(flow_start(), outcomes),
        forall|j: int| 0 <= j < outcomes.len() ==> !(#[trigger] outcomes[j] is Recognized),
        0 <= i < outcomes.len(),
    ensures
        !changes_credentials(actions(flow_start(), outcomes)[i]),
{
    lemma_unrecognized(flow_start(), outcomes, i);
}

proof fn lemma_unrecognized(m: FlowModel, outcomes: Seq<OutcomeModel>, i: int)
    requires
        fitting(m, outcomes),
        forall|j: int| 0 <= j < outcomes.len() ==> !(#[trigger] outcomes[j] is Recognized),
        0 <= i < outcomes.len(),
    ensures
        !changes_credentials(actions(m, outcomes)[i]),
    decreases outcomes.len(),
{
    let after = m.advanced(outcomes[0]).0;
    let rest = outcomes.skip(1);
    assert(!(outcomes[0] is Recognized));
    lemma_actions_front(m, outcomes);
    if i > 0 {
        assert forall|j: int| 0 <= j < rest.len() implies !(#[trigger] rest[j] is Recognized) by {
            assert(!(outcomes[j + 1] is Recognized));
        }
        lemma_unrecognized(after, rest, i - 1);
    }
}

/// Where the service rejects nothing, no token is refreshed and no device is
/// registered on the way.
pub proof fn law_nothing_is_replaced_without_rejection(outcomes: Seq<OutcomeModel>)
    requires
        fitting(flow_start(), outcomes),
        forall|i: int| 0 <= i < outcomes.len() ==> !is_rejected(#[trigger] outcomes[i]),
    ensures
        times(ActionModel::Refresh, actions(flow_start(), outcomes)) == 0,
        times(ActionModel::Register, actions(flow_start(), outcomes)) == 0,
        times(ActionModel::Activate, actions(flow_start(), outcomes)) == 0,
{
    lemma_unrejected(flow_start(), outcomes);
}

proof fn lemma_unrejected(m: FlowModel, outcomes: Seq<OutcomeModel>)
    requires
        fitting(m, outcomes),
        distance(m.phase) >= distance(Phase::FirstTry) || m.phase == Phase::FirstStored || m.phase
            == Phase::Ended,
        forall|i: int| 0 <= i < outcomes.len() ==> !is_rejected(#[trigger] outcomes[i]),
    ensures
        times(ActionModel::Refresh, actions(m, outcomes)) == 0,
        times(ActionModel::Register, actions(m, outcomes)) == 0,
        times(ActionModel::Activate, actions(m, outcomes)) == 0,
    decreases outcomes.len(),
{
    if outcomes.len() > 0 {
        let (after, action) = m.advanced(outcomes[0]);
        let rest = outcomes.skip(1);
        assert(!is_rejected(outcomes[0]));
        assert forall|i: int| 0 <= i < rest.len() implies !is_rejected(#[trigger] rest[i]) by {
            assert(!is_rejected(outcomes[i + 1]));
        }
        lemma_unrejected(after, rest);
        lemma_times_front(ActionModel::Refresh, action, actions(after, rest));
        lemma_times_front(ActionModel::Register, action, actions(after, rest));
        lemma_times_front(ActionModel::Activate, action, actions(after, rest));
    }
}

/// Credentials are installed only after the service accepted them.
pub proof fn law_only_accepted_credentials_are_installed(m: FlowModel, outcome: OutcomeModel)
    requires
        m.expects(outcome),
    ensures
        m.advanced(outcome).1 is Activate <==> outcome is Recognized && (m.phase == Phase::ThirdTry
            || m.phase == Phase::FourthTry),
{
}

/// A failure other than a rejection, outside of upkeep, is what the
/// transcription ends in; a failure of upkeep makes no difference.
pub proof fn law_other_failures_are_returned(m: FlowModel, error: crate::error::ErrorModel)
    requires
        m.phase != Phase::Ended,
    ensures
        m.phase != Phase::Maintaining && !error.is_rejection() ==> m.advanced(
            OutcomeModel::Failed(error),
        ).1 == ActionModel::Finish(
            Err::<client::TranscriptModel, crate::error::ErrorModel>(error),
        ),
        m.phase == Phase::Maintaining ==> m.advanced(OutcomeModel::Failed(error)) == m.advanced(
            OutcomeModel::Done,
        ),
{
}

/// A transcription that succeeds has a text that is not empty, under the name
/// of the provider, and is what the service recognized.
pub proof fn law_success_has_text(m: FlowModel, outcome: OutcomeModel)
    requires
        m.wf(),
        m.expects(outcome),
    ensures
        m.advanced(outcome).0.wf(),
        m.advanced(outcome).1 matches ActionModel::Finish(Ok(transcript)) ==> {
            &&& transcript.text.len() > 0
            &&& transcript.provider == client::PROVIDER@
            &&& m.result matches Some(result) && transcript.text == result.text
                && transcript.duration_ms == result.duration_ms && transcript.frames
                == result.frames
        },
        outcome matches OutcomeModel::Recognized(result) ==> m.advanced(outcome).0.result == Some(
            result,
        ),
{
}

/// An input is accepted if and only if it is a regular file; any other is refused, and
/// the refusal says why.
pub proof fn law_only_regular_files_are_transcribed(path: InputPath)
    ensures
        input_fault(path) is None <==> path is File,
        path is Empty ==> input_fault(path) == Some(
            crate::error::ErrorModel::Message("input path must not be empty"@),
        ),
        path is NotAFile ==> input_fault(path) == Some(
            crate::error::ErrorModel::Message("input must be a regular local file"@),
        ),
        path matches InputPath::Unresolved(detail) ==> input_fault(path) == Some(
            crate::error::ErrorModel::Message("resolve path: "@ + detail@),
        ),
        path matches InputPath::Unreadable(detail) ==> input_fault(path) == Some(
            crate::error::ErrorModel::Message("read input file: "@ + detail@),
        ),
{
}

/// The order of a transcription that nothing rejects: the input is looked at, the
/// credentials are kept up and made available, the first try is made with those, and
/// those are stored once it recognized something.
pub proof fn law_transcriptions_go_on_in_order(
    result: crate::provider::ProviderTranscriptModel,
)
    ensures
        ({
            let (m1, a1) = flow_start().advanced(OutcomeModel::Done);
            let (m2, a2) = m1.advanced(OutcomeModel::Done);
            let (m3, a3) = m2.advanced(OutcomeModel::Done);
            let (m4, a4) = m3.advanced(OutcomeModel::Done);
            let (m5, a5) = m4.advanced(OutcomeModel::Recognized(result));
            let (m6, a6) = m5.advanced(OutcomeModel::Done);
            &&& a1 == ActionModel::Validate
            &&& a2 == ActionModel::Maintain
            &&& a3 == ActionModel::Acquire
            &&& a4 == ActionModel::Transcribe(Holder::Held)
            &&& a5 == ActionModel::Persist(Holder::Held)
            &&& result.text.len() > 0 ==> (a6 matches ActionModel::Finish(Ok(transcript))
                && transcript.text == result.text && transcript.duration_ms == result.duration_ms
                && transcript.frames == result.frames && transcript.provider == "doubao-ime"@)
            &&& result.text.len() == 0 ==> a6 == ActionModel::Finish(
                Err::<client::TranscriptModel, crate::error::ErrorModel>(
                    crate::error::ErrorModel::NoSpeech,
                ),
            )
        }),
{
}

/// The order of a transcription whose tries are rejected one after the other: with the
/// credentials that others have put in place meanwhile, with a fresh token, and with a
/// newly registered device, each of which is stored or installed once it was accepted.
/// The last rejection is what the transcription ends in.
pub proof fn law_rejected_tries_go_on_in_order(
    error: crate::error::ErrorModel,
    result: crate::provider::ProviderTranscriptModel,
    last: crate::error::ErrorModel,
)
    requires
        error.is_rejection(),
    ensures
        ({
            let first = FlowModel { phase: Phase::FirstTry, result: None };
            let (m1, a1) = first.advanced(OutcomeModel::Failed(error));
            let (m2, a2) = m1.advanced(OutcomeModel::Available { same: false });
            let (m3, a3) = m2.advanced(OutcomeModel::Failed(error));
            let (m4, a4) = m3.advanced(OutcomeModel::Done);
            let (m5, a5) = m4.advanced(OutcomeModel::Failed(error));
            let (m6, a6) = m5.advanced(OutcomeModel::Done);
            &&& a1 == ActionModel::Reacquire
            &&& a2 == ActionModel::Transcribe(Holder::Current)
            &&& a3 == ActionModel::Refresh
            &&& a4 == ActionModel::Transcribe(Holder::Candidate)
            &&& a5 == ActionModel::Register
            &&& a6 == ActionModel::Transcribe(Holder::Candidate)
            &&& m1.advanced(OutcomeModel::Available { same: true }) == (
                FlowModel { phase: Phase::Refreshing, result: None },
                ActionModel::Refresh,
            )
            &&& m3 == (FlowModel { phase: Phase::Refreshing, result: None })
            &&& m2.advanced(OutcomeModel::Recognized(result)).1 == ActionModel::Persist(
                Holder::Current,
            )
            &&& m4.advanced(OutcomeModel::Recognized(result)).1 == ActionModel::Activate
            &&& m6.advanced(OutcomeModel::Recognized(result)).1 == ActionModel::Activate
            &&& m6.advanced(OutcomeModel::Failed(last)).1 == ActionModel::Finish(
                Err::<client::TranscriptModel, crate::error::ErrorModel>(last),
            )
        }),
{
}

/// Once the credentials of a recognition are stored, whichever try it came of, the
/// transcription ends in the whole of it; a failure to store them is what it ends in.
pub proof fn law_recognitions_end_the_transcription(
    m: FlowModel,
    result: crate::provider::ProviderTranscriptModel,
    error: crate::error::ErrorModel,
)
    requires
        is_try(m.phase),
        result.text.len() > 0,
    ensures
        ({
            let (stored, _) = m.advanced(OutcomeModel::Recognized(result));
            &&& stored.advanced(OutcomeModel::Done).1 matches ActionModel::Finish(Ok(transcript))
                && transcript.text == result.text && transcript.duration_ms == result.duration_ms
                && transcript.frames == result.frames
            &&& stored.advanced(OutcomeModel::Failed(error)).1 == ActionModel::Finish(
                Err::<client::TranscriptModel, crate::error::ErrorModel>(error),
            )
        }),
{
}

/// What came of a step and what is asked next are known by all that they hold: the whole
/// recognition, the whole failure, whose credentials are used and how it ended.
pub proof fn law_steps_are_known_by_what_they_hold(outcome: StepOutcome, action: StepAction)
    ensures
        outcome matches StepOutcome::Recognized(result) ==> outcome@ == OutcomeModel::Recognized(
            result@,
        ),
        outcome matches StepOutcome::Failed(error) ==> outcome@ == OutcomeModel::Failed(error@),
        outcome matches StepOutcome::Available { same } ==> outcome@ == (OutcomeModel::Available {
            same,
        }),
        outcome is Done ==> outcome@ == OutcomeModel::Done,
        action matches StepAction::Transcribe(holder) ==> action@ == ActionModel::Transcribe(holder),
        action matches StepAction::Persist(holder) ==> action@ == ActionModel::Persist(holder),
        action matches StepAction::Finish(Ok(transcript)) ==> action@ == ActionModel::Finish(
            Ok(transcript@),
        ),
        action matches StepAction::Finish(Err(error)) ==> action@ == ActionModel::Finish(
            Err(error@),
        ),
        action is Validate <==> action@ == ActionModel::Validate,
        action is Maintain <==> action@ == ActionModel::Maintain,
        action is Acquire <==> action@ == ActionModel::Acquire,
        action is Reacquire <==> action@ == ActionModel::Reacquire,
        action is Refresh <==> action@ == ActionModel::Refresh,
        action is Register <==> action@ == ActionModel::Register,
        action is Activate <==> action@ == ActionModel::Activate,
{
}

/// A transcription takes the outcomes that fit what it is doing: a recognition of a try,
/// whether the credentials are the same where they are asked for again, that a step is
/// done at every other phase, a failure at each of them, and nothing once it ended.
pub proof fn law_outcomes_fit_the_phase(
    m: FlowModel,
    same: bool,
    result: crate::provider::ProviderTranscriptModel,
    error: crate::error::ErrorModel,
)
    ensures
        m.expects(OutcomeModel::Recognized(result)) <==> m.phase == Phase::FirstTry || m.phase
            == Phase::SecondTry || m.phase == Phase::ThirdTry || m.phase == Phase::FourthTry,
        m.expects(OutcomeModel::Available { same }) <==> m.phase == Phase::Reacquiring,
        m.expects(OutcomeModel::Failed(error)) <==> m.phase != Phase::Ended,
        m.expects(OutcomeModel::Done) <==> m.phase != Phase::Ended && !m.expects(
            OutcomeModel::Available { same },
        ) && !m.expects(OutcomeModel::Recognized(result)),
{
}

} // verus!
