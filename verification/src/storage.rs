//! Files that are replaced as a whole: the stored credentials and the
//! transcripts that are written on request.

use vstd::prelude::*;
use crate::credentials::Credentials;
use crate::error::Error;
use crate::identity;

verus! {

/// The mode of files that only their owner may read.
pub const PRIVATE_FILE_MODE: u32 = 0o600;

/// The mode of directories that only their owner may enter.
pub const PRIVATE_DIRECTORY_MODE: u32 = 0o700;

/// The directory of the stored credentials within the user's configuration.
pub const CREDENTIAL_DIRECTORY: &'static str = "doubao-asr-skill";

/// The file of the stored credentials.
pub const CREDENTIAL_FILE: &'static str = "asr_credentials.json";

/// Names the default place of the credentials within the user's configuration
/// directory, if there is one.
pub fn default_location(has_directory: bool) -> (r: Result<(&'static str, &'static str), Error>)
    ensures
        match r {
            Ok(names) => has_directory && names.0@ == CREDENTIAL_DIRECTORY@ && names.1@
                == CREDENTIAL_FILE@,
            Err(e) => !has_directory && e@ == crate::error::ErrorModel::Message(
                "find user config directory: no user config directory is available"@,
            ),
        },
{
    if has_directory {
        Ok((CREDENTIAL_DIRECTORY, CREDENTIAL_FILE))
    } else {
        Err(Error::msg("find user config directory: no user config directory is available"))
    }
}

/// What came of reading the credential file.
pub enum StoredFile {
    /// There is no such file.
    Missing,
    /// It could not be read, for this reason.
    Unreadable(String),
    /// It does not hold credentials.
    Malformed,
    /// It holds these credentials.
    Parsed(Credentials),
}

/// What came of reading the credential file, by what it holds.
pub enum StoredModel {
    Missing,
    Unreadable(Seq<char>),
    Malformed,
    Parsed(crate::credentials::CredentialsModel),
}

impl View for StoredFile {
    type V = StoredModel;

    open spec fn view(&self) -> StoredModel {
        match self {
            StoredFile::Missing => StoredModel::Missing,
            StoredFile::Unreadable(detail) => StoredModel::Unreadable(detail@),
            StoredFile::Malformed => StoredModel::Malformed,
            StoredFile::Parsed(credentials) => StoredModel::Parsed(credentials@),
        }
    }
}

/// The stored credentials, if there are any, or why they cannot be used.
pub open spec fn loaded(file: StoredModel) -> Result<
    Option<crate::credentials::CredentialsModel>,
    crate::error::ErrorModel,
> {
    match file {
        StoredModel::Missing => Ok(None),
        StoredModel::Unreadable(detail) => Err(
            crate::error::ErrorModel::Message("read ASR credentials: "@ + detail),
        ),
        StoredModel::Malformed => Err(
            crate::error::ErrorModel::Message(
                "stored ASR credentials are malformed; move the credential file aside and retry"@,
            ),
        ),
        StoredModel::Parsed(credentials) => if credentials.is_complete() {
            Ok(Some(credentials))
        } else {
            Err(
                crate::error::ErrorModel::Message(
                    "stored ASR credentials are incomplete; move the credential file aside and retry"@,
                ),
            )
        },
    }
}

/// Optional credentials by what they hold.
pub open spec fn optional_credentials(value: Option<Credentials>) -> Option<
    crate::credentials::CredentialsModel,
> {
    match value {
        Some(found) => Some(found@),
        None => None,
    }
}

/// Judges what came of reading the credential file.
pub fn load(file: StoredFile) -> (r: Result<Option<Credentials>, Error>)
    ensures
        match r {
            Ok(found) => loaded(file@) == Ok::<
                Option<crate::credentials::CredentialsModel>,
                crate::error::ErrorModel,
            >(optional_credentials(found)),
            Err(e) => loaded(file@) == Err::<
                Option<crate::credentials::CredentialsModel>,
                crate::error::ErrorModel,
            >(e@),
        },
{
    match file {
        StoredFile::Missing => Ok(None),
        StoredFile::Unreadable(detail) => Err(
            Error::detailed("read ASR credentials: ", detail.as_str()),
        ),
        StoredFile::Malformed => Err(
            Error::msg(
                "stored ASR credentials are malformed; move the credential file aside and retry",
            ),
        ),
        StoredFile::Parsed(credentials) => if credentials.complete() {
            Ok(Some(credentials))
        } else {
            Err(
                Error::msg(
                    "stored ASR credentials are incomplete; move the credential file aside and retry",
                ),
            )
        },
    }
}

/// What a file is written for.
#[derive(Clone, Copy, Debug, PartialEq, Eq, Structural)]
pub enum Purpose {
    /// To store credentials.
    Credentials,
    /// To hand out a transcript.
    Transcript,
}

/// The name of a temporary file for a UUID.
pub open spec fn temporary_text(purpose: Purpose, uuid: Seq<char>) -> Seq<char> {
    match purpose {
        Purpose::Credentials => ".asr_credentials."@ + uuid + ".tmp"@,
        Purpose::Transcript => ".transcript."@ + uuid + ".tmp"@,
    }
}

/// Names a temporary file for a UUID.
pub fn temporary_name_for(purpose: Purpose, uuid: &str) -> (r: String)
    ensures
        r@ == temporary_text(purpose, uuid@),
{
    let mut name = match purpose {
        Purpose::Credentials => ".asr_credentials.".to_owned(),
        Purpose::Transcript => ".transcript.".to_owned(),
    };
    name.append(uuid);
    name.append(".tmp");
    name
}

/// Makes up a name for a temporary file.
pub fn temporary_name(purpose: Purpose) -> (r: String)
    ensures
        exists|uuid: Seq<char>|
            #[trigger] identity::is_uuid_v4(uuid) && r@ == temporary_text(purpose, uuid),
{
    let uuid = identity::new_uuid();
    temporary_name_for(purpose, uuid.as_str())
}

/// One step of replacing a file.
#[derive(Clone, Copy, Debug, PartialEq, Eq, Structural)]
pub enum SaveStep {
    /// Create the directory of the file, and those above it.
    CreateDirectory,
    /// Close the directory to others.
    ProtectDirectory,
    /// Write the credentials as JSON text.
    Encode,
    /// Create the temporary file, which must not exist.
    CreateTemporary,
    /// Write the content to the temporary file.
    Write,
    /// Flush the temporary file.
    Flush,
    /// Bring the temporary file to the disk.
    Sync,
    /// Close the temporary file to others.
    ProtectTemporary,
    /// Rename the temporary file to the file.
    Replace,
    /// Remove the temporary file.
    Discard,
    /// Nothing is left to do.
    Finished,
}

/// The steps that replace a file when each succeeds. Modes are set only where
/// the system has them, and never on a directory that was there before.
pub open spec fn save_plan(
    purpose: Purpose,
    has_modes: bool,
    directory_existed: bool,
) -> Seq<SaveStep> {
    match purpose {
        Purpose::Transcript => seq![
            SaveStep::CreateDirectory,
            SaveStep::CreateTemporary,
            SaveStep::Write,
            SaveStep::Flush,
            SaveStep::Sync,
            SaveStep::Replace,
        ],
        Purpose::Credentials => {
            let opening = if has_modes && !directory_existed {
                seq![SaveStep::CreateDirectory, SaveStep::ProtectDirectory, SaveStep::Encode]
            } else {
                seq![SaveStep::CreateDirectory, SaveStep::Encode]
            };
            let writing = seq![
                SaveStep::CreateTemporary,
                SaveStep::Write,
                SaveStep::Flush,
                SaveStep::Sync,
            ];
            let closing = if has_modes {
                seq![SaveStep::ProtectTemporary, SaveStep::Replace]
            } else {
                seq![SaveStep::Replace]
            };
            opening + writing + closing
        },
    }
}

/// Whether a failed step may leave a temporary file behind.
pub open spec fn leaves_temporary(step: SaveStep) -> bool {
    match step {
        SaveStep::CreateDirectory => false,
        SaveStep::ProtectDirectory => false,
        SaveStep::Encode => false,
        _ => true,
    }
}

/// The failure that a failed step stands for.
pub open spec fn step_failure(
    purpose: Purpose,
    step: SaveStep,
    detail: Seq<char>,
) -> crate::error::ErrorModel {
    match purpose {
        Purpose::Transcript => crate::error::ErrorModel::Io(detail),
        Purpose::Credentials => crate::error::ErrorModel::Message(
            match step {
                SaveStep::CreateDirectory => "create credential directory: "@ + detail,
                SaveStep::ProtectDirectory => "protect credential directory: "@ + detail,
                SaveStep::Encode => "encode ASR credentials"@,
                SaveStep::CreateTemporary => "create temporary credential file: "@ + detail,
                SaveStep::ProtectTemporary => "protect ASR credentials: "@ + detail,
                SaveStep::Replace => "replace ASR credentials: "@ + detail,
                _ => "write ASR credentials: "@ + detail,
            },
        ),
    }
}

/// Where the replacement of a file stands.
#[verifier::ext_equal]
pub struct SaveModel {
    pub purpose: Purpose,
    /// The steps that are left if each succeeds.
    pub left: Seq<SaveStep>,
    /// The failure that came up.
    pub failure: Option<crate::error::ErrorModel>,
}

impl SaveModel {
    /// The step that is to be taken.
    pub open spec fn step(self) -> SaveStep {
        if self.left.len() > 0 {
            self.left[0]
        } else {
            SaveStep::Finished
        }
    }

    /// Where the replacement stands after its step succeeded, or failed for a
    /// reason: the first failure ends it, and what it may leave behind is
    /// removed, whether or not that succeeds.
    pub open spec fn after(self, outcome: Option<Seq<char>>) -> SaveModel {
        match outcome {
            Some(detail) if self.failure is None && self.left.len() > 0 => SaveModel {
                left: if leaves_temporary(self.step()) {
                    seq![SaveStep::Discard]
                } else {
                    Seq::empty()
                },
                failure: Some(step_failure(self.purpose, self.step(), detail)),
                ..self
            },
            _ => if self.left.len() > 0 {
                SaveModel { left: self.left.drop_first(), ..self }
            } else {
                self
            },
        }
    }
}

/// The replacement of a file, step by step.
pub struct AtomicSave {
    purpose: Purpose,
    plan: Vec<SaveStep>,
    at: usize,
    failure: Option<Error>,
}

/// An optional failure by what it says.
pub open spec fn optional_failure(value: Option<Error>) -> Option<crate::error::ErrorModel> {
    match value {
        Some(error) => Some(error@),
        None => None,
    }
}

/// The outcome of a step: nothing, or the reason of its failure.
pub open spec fn outcome_model(outcome: Result<(), String>) -> Option<Seq<char>> {
    match outcome {
        Ok(_) => None,
        Err(detail) => Some(detail@),
    }
}

impl View for AtomicSave {
    type V = SaveModel;

    closed spec fn view(&self) -> SaveModel {
        SaveModel {
            purpose: self.purpose,
            left: self.plan@.skip(self.at as int),
            failure: optional_failure(self.failure),
        }
    }
}

impl AtomicSave {
    /// Whether the position lies within the plan.
    #[verifier::type_invariant]
    spec fn inside(self) -> bool {
        self.at <= self.plan@.len()
    }

    /// Starts to replace the stored credentials; incomplete ones are refused.
    pub fn credentials(credentials: &Credentials, has_modes: bool, directory_existed: bool) -> (r:
        Result<AtomicSave, Error>)
        ensures
            match r {
                Ok(save) => credentials@.is_complete() && save@ == (SaveModel {
                    purpose: Purpose::Credentials,
                    left: save_plan(Purpose::Credentials, has_modes, directory_existed),
                    failure: None,
                }),
                Err(e) => !credentials@.is_complete() && e@ == crate::error::ErrorModel::Message(
                    "refusing to save incomplete ASR credentials"@,
                ),
            },
    {
        if !credentials.complete() {
            return Err(Error::msg("refusing to save incomplete ASR credentials"));
        }
        let mut plan: Vec<SaveStep> = Vec::new();
        plan.push(SaveStep::CreateDirectory);
        if has_modes && !directory_existed {
            plan.push(SaveStep::ProtectDirectory);
        }
        plan.push(SaveStep::Encode);
        plan.push(SaveStep::CreateTemporary);
        plan.push(SaveStep::Write);
        plan.push(SaveStep::Flush);
        plan.push(SaveStep::Sync);
        if has_modes {
            plan.push(SaveStep::ProtectTemporary);
        }
        plan.push(SaveStep::Replace);
        assert(plan@ =~= save_plan(Purpose::Credentials, has_modes, directory_existed));
        assert(plan@.skip(0) =~= plan@);
        Ok(AtomicSave { purpose: Purpose::Credentials, plan, at: 0, failure: None })
    }

    /// Starts to write a transcript.
    pub fn transcript() -> (r: AtomicSave)
        ensures
            r@ == (SaveModel {
                purpose: Purpose::Transcript,
                left: save_plan(Purpose::Transcript, true, true),
                failure: None,
            }),
    {
        let plan: Vec<SaveStep> = vec![
            SaveStep::CreateDirectory,
            SaveStep::CreateTemporary,
            SaveStep::Write,
            SaveStep::Flush,
            SaveStep::Sync,
            SaveStep::Replace,
        ];
        assert(plan@ =~= save_plan(Purpose::Transcript, true, true));
        assert(plan@.skip(0) =~= plan@);
        AtomicSave { purpose: Purpose::Transcript, plan, at: 0, failure: None }
    }

    /// Tells which step is to be taken.
    pub fn step(&self) -> (r: SaveStep)
        ensures
            r == self@.step(),
    {
        proof {
            use_type_invariant(self);
        }
        if self.at < self.plan.len() {
            self.plan[self.at]
        } else {
            SaveStep::Finished
        }
    }

    /// Takes note of how the step went.
    pub fn advance(&mut self, outcome: Result<(), String>)
        ensures
            final(self)@ == old(self)@.after(outcome_model(outcome)),
    {
        proof {
            use_type_invariant(&*self);
        }
        if self.at >= self.plan.len() {
            assert(self@ =~= old(self)@.after(outcome_model(outcome)));
            return;
        }
        let step = self.plan[self.at];
        if let Err(detail) = &outcome {
            if self.failure.is_none() {
                let failure = failed_step(self.purpose, step, detail.as_str());
                let cleanup: Vec<SaveStep> = match step {
                    SaveStep::CreateDirectory => Vec::new(),
                    SaveStep::ProtectDirectory => Vec::new(),
                    SaveStep::Encode => Vec::new(),
                    _ => vec![SaveStep::Discard],
                };
                *self =
                AtomicSave { purpose: self.purpose, plan: cleanup, at: 0, failure: Some(failure) };
                assert(self@.left =~= old(self)@.after(outcome_model(outcome)).left);
                return;
            }
        }
        self.at = self.at + 1;
        assert(self@.left =~= old(self)@.left.drop_first());
    }

    /// Hands over the result once nothing is left to do.
    pub fn finish(self) -> (r: Result<(), Error>)
        ensures
            crate::error::failure(r) == self@.failure,
    {
        match self.failure {
            Some(error) => Err(error),
            None => Ok(()),
        }
    }
}

/// Describes the failure of a step.
fn failed_step(purpose: Purpose, step: SaveStep, detail: &str) -> (r: Error)
    ensures
        r@ == step_failure(purpose, step, detail@),
{
    match purpose {
        Purpose::Transcript => Error::Io(detail.to_owned()),
        Purpose::Credentials => match step {
            SaveStep::CreateDirectory => Error::detailed("create credential directory: ", detail),
            SaveStep::ProtectDirectory => Error::detailed("protect credential directory: ", detail),
            SaveStep::Encode => Error::msg("encode ASR credentials"),
            SaveStep::CreateTemporary => Error::detailed(
                "create temporary credential file: ",
                detail,
            ),
            SaveStep::ProtectTemporary => Error::detailed("protect ASR credentials: ", detail),
            SaveStep::Replace => Error::detailed("replace ASR credentials: ", detail),
            _ => Error::detailed("write ASR credentials: ", detail),
        },
    }
}

/// Where the replacement stands after outcomes in a row.
pub open spec fn after_all(m: SaveModel, outcomes: Seq<Option<Seq<char>>>) -> SaveModel
    decreases outcomes.len(),
{
    if outcomes.len() == 0 {
        m
    } else {
        after_all(m, outcomes.drop_last()).after(outcomes.last())
    }
}

/// A start of replacing a file.
pub open spec fn save_start(
    purpose: Purpose,
    has_modes: bool,
    directory_existed: bool,
) -> SaveModel {
    SaveModel { purpose, left: save_plan(purpose, has_modes, directory_existed), failure: None }
}

/// As long as every step succeeds, the plan is followed.
proof fn lemma_successes_follow_plan(m: SaveModel, outcomes: Seq<Option<Seq<char>>>)
    requires
        m.failure is None,
        outcomes.len() <= m.left.len(),
        forall|i: int| 0 <= i < outcomes.len() ==> #[trigger] outcomes[i] is None,
    ensures
        after_all(m, outcomes) == (SaveModel { left: m.left.skip(outcomes.len() as int), ..m }),
    decreases outcomes.len(),
{
    if outcomes.len() > 0 {
        lemma_successes_follow_plan(m, outcomes.drop_last());
        let k = outcomes.len() - 1;
        assert(outcomes[k] is None);
        assert(m.left.skip(k).drop_first() =~= m.left.skip(k + 1));
    } else {
        assert(m.left.skip(0) =~= m.left);
    }
}

/// Whether a plan creates, writes, flushes and syncs the temporary file from a
/// position on.
pub open spec fn writes_from(plan: Seq<SaveStep>, t: int) -> bool {
    0 <= t && t + 4 <= plan.len() && plan.subrange(t, t + 4) == seq![
        SaveStep::CreateTemporary,
        SaveStep::Write,
        SaveStep::Flush,
        SaveStep::Sync,
    ]
}

/// The file is replaced at the end of the plan and nowhere else: after its
/// content was written, flushed and brought to the disk in a temporary file,
/// and, where credentials are stored on a system with modes, after that file was
/// closed to others.
pub proof fn law_replacing_comes_last(purpose: Purpose, has_modes: bool, directory_existed: bool)
    ensures
        ({
            let plan = save_plan(purpose, has_modes, directory_existed);
            &&& plan.last() == SaveStep::Replace
            &&& !plan.drop_last().contains(SaveStep::Replace)
            &&& exists|t: int| #[trigger] writes_from(plan.drop_last(), t)
            &&& purpose == Purpose::Credentials && has_modes ==> plan.drop_last().last()
                == SaveStep::ProtectTemporary
        }),
{
    let plan = save_plan(purpose, has_modes, directory_existed);
    let before = plan.drop_last();
    let w = seq![SaveStep::CreateTemporary, SaveStep::Write, SaveStep::Flush, SaveStep::Sync];
    if purpose == Purpose::Transcript {
        assert(before =~= seq![SaveStep::CreateDirectory] + w);
        assert(before.subrange(1, 5) =~= w);
        assert(writes_from(before, 1));
    } else {
        let opening = if has_modes && !directory_existed {
            seq![SaveStep::CreateDirectory, SaveStep::ProtectDirectory, SaveStep::Encode]
        } else {
            seq![SaveStep::CreateDirectory, SaveStep::Encode]
        };
        let closing = if has_modes {
            seq![SaveStep::ProtectTemporary]
        } else {
            Seq::empty()
        };
        assert(before =~= opening + w + closing);
        let t = opening.len() as int;
        assert(before.subrange(t, t + 4) =~= w);
        assert(writes_from(before, t));
    }
}

/// A replacement whose steps all succeed follows its plan to the end and succeeds.
pub proof fn law_successful_save_follows_the_plan(
    purpose: Purpose,
    has_modes: bool,
    directory_existed: bool,
    outcomes: Seq<Option<Seq<char>>>,
    at: int,
)
    requires
        outcomes.len() == save_plan(purpose, has_modes, directory_existed).len(),
        forall|i: int| 0 <= i < outcomes.len() ==> #[trigger] outcomes[i] is None,
        0 <= at < outcomes.len(),
    ensures
        after_all(save_start(purpose, has_modes, directory_existed), outcomes.take(at)).step()
            == save_plan(purpose, has_modes, directory_existed)[at],
        after_all(save_start(purpose, has_modes, directory_existed), outcomes).step()
            == SaveStep::Finished,
        after_all(save_start(purpose, has_modes, directory_existed), outcomes).failure is None,
{
    let start = save_start(purpose, has_modes, directory_existed);
    lemma_successes_follow_plan(start, outcomes);
    lemma_successes_follow_plan(start, outcomes.take(at));
}

/// The first step that fails is the last of the plan that is taken: the file
/// is not replaced afterwards, a temporary file that may be there is removed,
/// and the failure that is reported is that of the step, whatever comes of the
/// removal.
pub proof fn law_failed_save_leaves_the_file(
    purpose: Purpose,
    has_modes: bool,
    directory_existed: bool,
    successes: Seq<Option<Seq<char>>>,
    detail: Seq<char>,
    removal: Option<Seq<char>>,
)
    requires
        successes.len() < save_plan(purpose, has_modes, directory_existed).len(),
        forall|i: int| 0 <= i < successes.len() ==> #[trigger] successes[i] is None,
    ensures
        ({
            let start = save_start(purpose, has_modes, directory_existed);
            let step = save_plan(purpose, has_modes, directory_existed)[successes.len() as int];
            let failed = after_all(start, successes.push(Some(detail)));
            let cleaned = after_all(start, successes.push(Some(detail)).push(removal));
            &&& failed.failure == Some(step_failure(purpose, step, detail))
            &&& failed.step() == if leaves_temporary(step) {
                SaveStep::Discard
            } else {
                SaveStep::Finished
            }
            &&& cleaned.step() == SaveStep::Finished
            &&& cleaned.failure == failed.failure
        }),
{
    let start = save_start(purpose, has_modes, directory_existed);
    let one = successes.push(Some(detail));
    let two = one.push(removal);
    lemma_successes_follow_plan(start, successes);
    assert(one.drop_last() =~= successes);
    assert(two.drop_last() =~= one);
}

/// The file that is replaced and the temporary file of its replacement, by what
/// they hold if they are there.
#[verifier::ext_equal]
pub struct FilesModel {
    pub target: Option<Seq<u8>>,
    pub temporary: Option<Seq<u8>>,
}

impl FilesModel {
    /// The files after a step that succeeded.
    pub open spec fn after_success(self, step: SaveStep, content: Seq<u8>) -> FilesModel {
        match step {
            SaveStep::CreateTemporary => FilesModel { temporary: Some(Seq::empty()), ..self },
            SaveStep::Write => FilesModel { temporary: Some(content), ..self },
            SaveStep::Replace => FilesModel { target: self.temporary, temporary: None },
            SaveStep::Discard => FilesModel { temporary: None, ..self },
            _ => self,
        }
    }

    /// Whether files may be what a step that failed leaves: the file is as it
    /// was, and only a step on the temporary file may have changed that one.
    pub open spec fn may_fail_to(self, step: SaveStep, after: FilesModel) -> bool {
        &&& after.target == self.target
        &&& !leaves_temporary(step) ==> after.temporary == self.temporary
    }
}

/// The files after steps in a row that all succeeded.
pub open spec fn files_after(
    files: FilesModel,
    steps: Seq<SaveStep>,
    content: Seq<u8>,
) -> FilesModel
    decreases steps.len(),
{
    if steps.len() == 0 {
        files
    } else {
        files_after(files, steps.drop_last(), content).after_success(steps.last(), content)
    }
}

/// The files after steps in two parts are those after the second part, begun
/// where the first part ended.
proof fn lemma_files_after_concat(
    files: FilesModel,
    first: Seq<SaveStep>,
    second: Seq<SaveStep>,
    content: Seq<u8>,
)
    ensures
        files_after(files, first + second, content) == files_after(
            files_after(files, first, content),
            second,
            content,
        ),
    decreases second.len(),
{
    if second.len() == 0 {
        assert(first + second =~= first);
    } else {
        lemma_files_after_concat(files, first, second.drop_last(), content);
        assert((first + second).drop_last() =~= first + second.drop_last());
        assert((first + second).last() == second.last());
    }
}

/// Whether a step changes no file.
pub open spec fn is_idle(step: SaveStep) -> bool {
    step != SaveStep::CreateTemporary && step != SaveStep::Write && step != SaveStep::Replace
        && step != SaveStep::Discard
}

/// Steps that change no file leave the files as they are.
proof fn lemma_idle_steps(files: FilesModel, steps: Seq<SaveStep>, content: Seq<u8>)
    requires
        forall|i: int| 0 <= i < steps.len() ==> is_idle(#[trigger] steps[i]),
    ensures
        files_after(files, steps, content) == files,
    decreases steps.len(),
{
    if steps.len() > 0 {
        assert(is_idle(steps[steps.len() - 1]));
        lemma_idle_steps(files, steps.drop_last(), content);
    }
}

/// A plan whose steps all succeed leaves the file with the new content, nothing
/// of what it held before, and no temporary file.
pub proof fn law_save_replaces_the_whole_file(
    purpose: Purpose,
    has_modes: bool,
    directory_existed: bool,
    files: FilesModel,
    content: Seq<u8>,
)
    ensures
        files_after(files, save_plan(purpose, has_modes, directory_existed), content) == (
        FilesModel { target: Some(content), temporary: None }),
{
    let plan = save_plan(purpose, has_modes, directory_existed);
    let t: int = if purpose == Purpose::Transcript {
        1
    } else if has_modes && !directory_existed {
        3
    } else {
        2
    };
    let opening = plan.take(t);
    let writing = seq![SaveStep::CreateTemporary, SaveStep::Write];
    let closing = plan.subrange(t + 2, plan.len() - 1);
    let replacing = seq![SaveStep::Replace];
    assert(plan =~= opening + writing + closing + replacing);
    lemma_files_after_concat(files, opening + writing + closing, replacing, content);
    lemma_files_after_concat(files, opening + writing, closing, content);
    lemma_files_after_concat(files, opening, writing, content);
    lemma_idle_steps(files, opening, content);
    let written = FilesModel { temporary: Some(content), ..files };
    assert(files_after(files, writing, content) == written) by {
        reveal_with_fuel(files_after, 3);
        assert(writing.drop_last() =~= seq![SaveStep::CreateTemporary]);
        assert(writing.drop_last().drop_last() =~= Seq::<SaveStep>::empty());
    }
    lemma_idle_steps(written, closing, content);
    reveal_with_fuel(files_after, 2);
    assert(replacing.drop_last() =~= Seq::<SaveStep>::empty());
}

/// A plan of which a step fails leaves the file as it was; once the temporary
/// file is discarded where that is asked for, there is none.
pub proof fn law_failed_save_keeps_the_old_content(
    purpose: Purpose,
    has_modes: bool,
    directory_existed: bool,
    files: FilesModel,
    content: Seq<u8>,
    at: int,
    failed: FilesModel,
)
    requires
        files.temporary is None,
        0 <= at < save_plan(purpose, has_modes, directory_existed).len(),
        files_after(
            files,
            save_plan(purpose, has_modes, directory_existed).take(at),
            content,
        ).may_fail_to(save_plan(purpose, has_modes, directory_existed)[at], failed),
    ensures
        failed.target == files.target,
        ({
            let step = save_plan(purpose, has_modes, directory_existed)[at];
            let end = if leaves_temporary(step) {
                failed.after_success(SaveStep::Discard, content)
            } else {
                failed
            };
            end == files
        }),
{
    let plan = save_plan(purpose, has_modes, directory_existed);
    lemma_steps_before(purpose, has_modes, directory_existed, at);
    lemma_target_stays(files, plan.take(at), content);
    if !leaves_temporary(plan[at]) {
        lemma_idle_steps(files, plan.take(at), content);
    }
}

/// No step of a plan comes after the replacement, and none that changes a file
/// before one that cannot leave a temporary file.
proof fn lemma_steps_before(purpose: Purpose, has_modes: bool, directory_existed: bool, at: int)
    requires
        0 <= at < save_plan(purpose, has_modes, directory_existed).len(),
    ensures
        ({
            let plan = save_plan(purpose, has_modes, directory_existed);
            &&& forall|i: int|
                0 <= i < at ==> #[trigger] plan.take(at)[i] != SaveStep::Replace
            &&& !leaves_temporary(plan[at]) ==> forall|i: int|
                0 <= i < at ==> is_idle(#[trigger] plan.take(at)[i])
        }),
{
    let plan = save_plan(purpose, has_modes, directory_existed);
    let before = plan.take(at);
    if purpose == Purpose::Transcript {
        assert(plan.len() == 6);
        assert(forall|i: int| 0 <= i < 5 ==> #[trigger] plan[i] != SaveStep::Replace);
    } else {
        let t: int = if has_modes && !directory_existed {
            3
        } else {
            2
        };
        assert(forall|i: int| 0 <= i < t ==> is_idle(#[trigger] plan[i]));
        assert(forall|i: int|
            0 <= i < plan.len() - 1 ==> #[trigger] plan[i] != SaveStep::Replace);
        assert(forall|i: int| t <= i < plan.len() ==> leaves_temporary(#[trigger] plan[i]));
    }
    assert forall|i: int| 0 <= i < at implies #[trigger] before[i] == plan[i] by {}
}

/// Only the replacement changes the file.
proof fn lemma_target_stays(files: FilesModel, steps: Seq<SaveStep>, content: Seq<u8>)
    requires
        forall|i: int| 0 <= i < steps.len() ==> #[trigger] steps[i] != SaveStep::Replace,
    ensures
        files_after(files, steps, content).target == files.target,
    decreases steps.len(),
{
    if steps.len() > 0 {
        assert(steps[steps.len() - 1] != SaveStep::Replace);
        lemma_target_stays(files, steps.drop_last(), content);
    }
}

/// What reading a file comes to, given what its bytes are parsed to.
pub open spec fn read_back(
    target: Option<Seq<u8>>,
    parse: spec_fn(Seq<u8>) -> Option<crate::credentials::CredentialsModel>,
) -> StoredModel {
    match target {
        None => StoredModel::Missing,
        Some(bytes) => match parse(bytes) {
            Some(credentials) => StoredModel::Parsed(credentials),
            None => StoredModel::Malformed,
        },
    }
}

/// Credentials that are saved twice load as they were saved the second time,
/// in every part, and no temporary file is left, in whatever notation they are
/// written, as long as it is parsed to what was written.
pub proof fn law_second_save_is_what_loads(
    files: FilesModel,
    has_modes: bool,
    first_found: bool,
    second_found: bool,
    first: Seq<u8>,
    second: Seq<u8>,
    parse: spec_fn(Seq<u8>) -> Option<crate::credentials::CredentialsModel>,
    credentials: crate::credentials::CredentialsModel,
)
    requires
        credentials.is_complete(),
        parse(second) == Some(credentials),
    ensures
        ({
            let once = files_after(
                files,
                save_plan(Purpose::Credentials, has_modes, first_found),
                first,
            );
            let twice = files_after(
                once,
                save_plan(Purpose::Credentials, has_modes, second_found),
                second,
            );
            &&& loaded(read_back(twice.target, parse)) == Ok::<
                Option<crate::credentials::CredentialsModel>,
                crate::error::ErrorModel,
            >(Some(credentials))
            &&& once.temporary is None
            &&& twice.temporary is None
        }),
{
    law_save_replaces_the_whole_file(
        Purpose::Credentials,
        has_modes,
        first_found,
        files,
        first,
    );
    law_save_replaces_the_whole_file(
        Purpose::Credentials,
        has_modes,
        second_found,
        files_after(files, save_plan(Purpose::Credentials, has_modes, first_found), first),
        second,
    );
}

/// Incomplete credentials are never loaded, whatever the file holds.
pub proof fn law_loaded_credentials_are_complete(file: StoredModel)
    ensures
        loaded(file) matches Ok(Some(credentials)) ==> credentials.is_complete() && file
            == StoredModel::Parsed(credentials),
{
}

/// Credentials that were complete when they were stored are loaded as they were.
pub proof fn law_stored_credentials_load(credentials: crate::credentials::CredentialsModel)
    requires
        credentials.is_complete(),
    ensures
        loaded(StoredModel::Parsed(credentials)) == Ok::<
            Option<crate::credentials::CredentialsModel>,
            crate::error::ErrorModel,
        >(Some(credentials)),
{
}

/// What comes of reading the credential file: no file is no credentials, a file that
/// cannot be read is a failure that says why, and one that holds no credentials, or
/// incomplete ones, is a failure that says so.
pub proof fn law_unusable_files_are_told_apart(
    detail: Seq<char>,
    credentials: crate::credentials::CredentialsModel,
)
    ensures
        loaded(StoredModel::Missing) == Ok::<
            Option<crate::credentials::CredentialsModel>,
            crate::error::ErrorModel,
        >(None),
        loaded(StoredModel::Unreadable(detail)) == Err::<
            Option<crate::credentials::CredentialsModel>,
            crate::error::ErrorModel,
        >(crate::error::ErrorModel::Message("read ASR credentials: "@ + detail)),
        loaded(StoredModel::Malformed) == Err::<
            Option<crate::credentials::CredentialsModel>,
            crate::error::ErrorModel,
        >(
            crate::error::ErrorModel::Message(
                "stored ASR credentials are malformed; move the credential file aside and retry"@,
            ),
        ),
        credentials.device_id.len() == 0 || credentials.install_id.len() == 0
            || credentials.token.len() == 0 ==> loaded(StoredModel::Parsed(credentials)) == Err::<
            Option<crate::credentials::CredentialsModel>,
            crate::error::ErrorModel,
        >(
            crate::error::ErrorModel::Message(
                "stored ASR credentials are incomplete; move the credential file aside and retry"@,
            ),
        ),
{
}

/// A temporary file is hidden, and named by what it is for and the whole UUID.
pub proof fn law_temporary_files_are_named_by_their_uuid(uuid: Seq<char>)
    ensures
        temporary_text(Purpose::Credentials, uuid) == ".asr_credentials."@ + uuid + ".tmp"@,
        temporary_text(Purpose::Transcript, uuid) == ".transcript."@ + uuid + ".tmp"@,
{
}

/// A step that fails says why: credentials in the words of the step, with the reason,
/// and a transcript by the reason alone.
pub proof fn law_failed_steps_say_why(step: SaveStep, detail: Seq<char>)
    ensures
        step_failure(Purpose::Transcript, step, detail) == crate::error::ErrorModel::Io(detail),
        step_failure(Purpose::Credentials, SaveStep::CreateDirectory, detail)
            == crate::error::ErrorModel::Message("create credential directory: "@ + detail),
        step_failure(Purpose::Credentials, SaveStep::ProtectDirectory, detail)
            == crate::error::ErrorModel::Message("protect credential directory: "@ + detail),
        step_failure(Purpose::Credentials, SaveStep::Encode, detail)
            == crate::error::ErrorModel::Message("encode ASR credentials"@),
        step_failure(Purpose::Credentials, SaveStep::CreateTemporary, detail)
            == crate::error::ErrorModel::Message("create temporary credential file: "@ + detail),
        step_failure(Purpose::Credentials, SaveStep::Write, detail)
            == crate::error::ErrorModel::Message("write ASR credentials: "@ + detail),
        step_failure(Purpose::Credentials, SaveStep::Flush, detail)
            == crate::error::ErrorModel::Message("write ASR credentials: "@ + detail),
        step_failure(Purpose::Credentials, SaveStep::Sync, detail)
            == crate::error::ErrorModel::Message("write ASR credentials: "@ + detail),
        step_failure(Purpose::Credentials, SaveStep::ProtectTemporary, detail)
            == crate::error::ErrorModel::Message("protect ASR credentials: "@ + detail),
        step_failure(Purpose::Credentials, SaveStep::Replace, detail)
            == crate::error::ErrorModel::Message("replace ASR credentials: "@ + detail),
{
}

/// The directory is closed to others if and only if the system has modes and the
/// directory was not there before, and right after it was created.
pub proof fn law_only_new_directories_are_closed(has_modes: bool, directory_existed: bool)
    ensures
        ({
            let plan = save_plan(Purpose::Credentials, has_modes, directory_existed);
            &&& plan[0] == SaveStep::CreateDirectory
            &&& plan[1] == if has_modes && !directory_existed {
                SaveStep::ProtectDirectory
            } else {
                SaveStep::Encode
            }
            &&& !plan.skip(2).contains(SaveStep::ProtectDirectory)
        }),
{
    let plan = save_plan(Purpose::Credentials, has_modes, directory_existed);
    assert forall|i: int| 2 <= i < plan.len() implies plan[i] != SaveStep::ProtectDirectory by {}
    assert(!plan.skip(2).contains(SaveStep::ProtectDirectory)) by {
        if plan.skip(2).contains(SaveStep::ProtectDirectory) {
            let k = choose|k: int|
                0 <= k < plan.skip(2).len() && plan.skip(2)[k] == SaveStep::ProtectDirectory;
            assert(plan[k + 2] == SaveStep::ProtectDirectory);
        }
    }
}

/// The credential file and its directory are for their owner alone, under names of their
/// own.
pub proof fn law_credential_files_are_private()
    ensures
        PRIVATE_FILE_MODE == 0o600,
        PRIVATE_DIRECTORY_MODE == 0o700,
        CREDENTIAL_DIRECTORY@ == "doubao-asr-skill"@,
        CREDENTIAL_FILE@ == "asr_credentials.json"@,
{
}

} // verus!
