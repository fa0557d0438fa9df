//! The conversation with the device service: registering a device and fetching
//! a token.
//!
//! The caller sends the requests, reads the answers and reports what came.

use vstd::prelude::*;
use crate::clock;
use crate::credentials;
use crate::credentials::{Credentials, Exchange, LimitedBody, ServiceRequest};
use crate::error::Error;
use crate::text;
use crate::urls;

verus! {

/// What the conversation is waiting for.
#[derive(Clone, Copy, Debug, PartialEq, Eq, Structural)]
pub enum EnrollStage {
    /// The answer to a request.
    Asking(Exchange),
    /// The body of an answer.
    Reading(Exchange),
    /// The identifiers in the answer to a registration.
    Parsing,
    /// Nothing any more.
    Ended,
}

/// Where the conversation stands.
#[verifier::ext_equal]
pub struct EnrollModel {
    pub credentials: credentials::CredentialsModel,
    pub stage: EnrollStage,
    /// What was read of the body.
    pub body: Seq<u8>,
}

/// What came of the last action.
pub enum EnrollEvent {
    /// The request got no answer.
    Unsent,
    /// The answer has this HTTP status and announces this length.
    Answered { status: u16, announced: Option<u64> },
    /// This is the next piece of the body.
    Chunk(Vec<u8>),
    /// The body broke off.
    Broken,
    /// The body ended, at this time in seconds.
    Complete { now: u64 },
    /// The answer holds these identifiers, if it was understood.
    Identifiers(Option<(i64, i64)>),
}

/// What an [`EnrollEvent`] says.
pub enum EventModel {
    Unsent,
    Answered { status: u16, announced: Option<u64> },
    Chunk(Seq<u8>),
    Broken,
    Complete { now: u64 },
    Identifiers(Option<(i64, i64)>),
}

impl View for EnrollEvent {
    type V = EventModel;

    open spec fn view(&self) -> EventModel {
        match self {
            EnrollEvent::Unsent => EventModel::Unsent,
            EnrollEvent::Answered { status, announced } => EventModel::Answered {
                status: *status,
                announced: *announced,
            },
            EnrollEvent::Chunk(bytes) => EventModel::Chunk(bytes@),
            EnrollEvent::Broken => EventModel::Broken,
            EnrollEvent::Complete { now } => EventModel::Complete { now: *now },
            EnrollEvent::Identifiers(found) => EventModel::Identifiers(*found),
        }
    }
}

/// What the caller is asked to do.
pub enum EnrollAction {
    /// Send this request.
    Send(ServiceRequest),
    /// Read the next piece of the body.
    Read,
    /// Find the identifiers in this answer to a registration.
    Parse(Vec<u8>),
    /// Nothing: the conversation ended so.
    Finish(Result<Credentials, Error>),
}

/// Where an event leads.
pub enum EnrollNext {
    /// To another request, for these credentials.
    Ask(Exchange, credentials::CredentialsModel),
    /// To the next piece of the body, after this much of it.
    Read(Exchange, Seq<u8>),
    /// To the identifiers in this body.
    Parse(Seq<u8>),
    /// To the end.
    Finish(Result<credentials::CredentialsModel, crate::error::ErrorModel>),
}

/// The failure of an exchange whose answer was of no use.
pub open spec fn invalid(exchange: Exchange) -> EnrollNext {
    EnrollNext::Finish(Err(crate::error::ErrorModel::Message(exchange.invalid_text())))
}

/// Whether an event fits what the conversation is waiting for.
pub open spec fn expects(stage: EnrollStage, event: EventModel) -> bool {
    match event {
        EventModel::Unsent => stage is Asking,
        EventModel::Answered { .. } => stage is Asking,
        EventModel::Chunk(_) => stage is Reading,
        EventModel::Broken => stage is Reading,
        EventModel::Complete { .. } => stage is Reading,
        EventModel::Identifiers(_) => stage is Parsing,
    }
}

impl EnrollModel {
    /// Where an event leads: an answer has to be a success and within the limit;
    /// a registration leads on to the request for a token, and a token that is
    /// not empty to the end.
    pub open spec fn next(self, event: EventModel) -> EnrollNext {
        match (self.stage, event) {
            (EnrollStage::Asking(exchange), EventModel::Unsent) => EnrollNext::Finish(
                Err(crate::error::ErrorModel::Message(exchange.unsent_text())),
            ),
            (EnrollStage::Asking(exchange), EventModel::Answered { status, announced }) => {
                if !(200 <= status <= 299) {
                    EnrollNext::Finish(
                        Err(crate::error::ErrorModel::Message(exchange.refused_text(status))),
                    )
                } else if announced matches Some(length) && length
                    > credentials::MAX_RESPONSE_BYTES {
                    invalid(exchange)
                } else {
                    EnrollNext::Read(exchange, Seq::empty())
                }
            },
            (EnrollStage::Reading(exchange), EventModel::Chunk(bytes)) => {
                if self.body.len() + bytes.len() > credentials::MAX_RESPONSE_BYTES {
                    invalid(exchange)
                } else {
                    EnrollNext::Read(exchange, self.body + bytes)
                }
            },
            (EnrollStage::Reading(exchange), EventModel::Broken) => invalid(exchange),
            (EnrollStage::Reading(Exchange::Registration), EventModel::Complete { .. }) => {
                EnrollNext::Parse(self.body)
            },
            (EnrollStage::Reading(Exchange::Token), EventModel::Complete { now }) => {
                match credentials::with_token(
                    self.credentials,
                    credentials::json_text_at(self.body, credentials::TOKEN_POINTER@),
                    now,
                ) {
                    Some(after) => EnrollNext::Finish(Ok(after)),
                    None => invalid(Exchange::Token),
                }
            },
            (EnrollStage::Parsing, EventModel::Identifiers(Some((device_id, install_id)))) => {
                if device_id == 0 || install_id == 0 {
                    invalid(Exchange::Registration)
                } else {
                    EnrollNext::Ask(
                        Exchange::Token,
                        credentials::CredentialsModel {
                            device_id: text::decimal_int(device_id as int),
                            install_id: text::decimal_int(install_id as int),
                            ..self.credentials
                        },
                    )
                }
            },
            _ => invalid(Exchange::Registration),
        }
    }
}

/// Whether a request is the one that an exchange makes for credentials, dated by
/// readings of the clock.
pub open spec fn asks(
    request: ServiceRequest,
    exchange: Exchange,
    model: credentials::CredentialsModel,
) -> bool {
    match exchange {
        Exchange::Registration => urls::url_parse(credentials::REGISTER_URL@) matches Some(parsed)
            && urls::url_target(request.url) == parsed.0 && credentials::header_texts(
            request.headers@,
        ) == credentials::registration_headers() && exists|
            body_time: std::time::SystemTime,
            url_time: std::time::SystemTime,
        |
            request.body@ == credentials::registration_text(
                model,
                #[trigger] clock::clock_millis(body_time) as nat,
            ) && urls::url_pairs(request.url) == parsed.1 + credentials::device_pairs(
                model,
                false,
                #[trigger] clock::clock_millis(url_time) as nat,
            ),
        Exchange::Token => urls::url_parse(credentials::SETTINGS_URL@) matches Some(parsed)
            && urls::url_target(request.url) == parsed.0 && credentials::header_texts(
            request.headers@,
        ) == credentials::token_headers() && request.body@ == credentials::token_body() && exists|
            now: std::time::SystemTime,
        |
            urls::url_pairs(request.url) == parsed.1 + credentials::device_pairs(
                model,
                true,
                #[trigger] clock::clock_millis(now) as nat,
            ),
    }
}

/// The text that the URL of an exchange is made from.
pub open spec fn exchange_url(exchange: Exchange) -> Seq<char> {
    match exchange {
        Exchange::Registration => credentials::REGISTER_URL@,
        Exchange::Token => credentials::SETTINGS_URL@,
    }
}

/// Whether the conversation stands where an event leads, and its caller is asked
/// to do what comes next; `held` are the credentials before the event.
pub open spec fn follows(
    held: credentials::CredentialsModel,
    next: EnrollNext,
    m: EnrollModel,
    action: EnrollAction,
) -> bool {
    match next {
        EnrollNext::Ask(exchange, model) => if urls::url_parse(exchange_url(exchange)) is Some {
            &&& m.stage == EnrollStage::Asking(exchange)
            &&& m.credentials == model
            &&& action matches EnrollAction::Send(request) && asks(request, exchange, model)
        } else {
            &&& m.stage == EnrollStage::Ended
            &&& action matches EnrollAction::Finish(Err(e)) && e@ == credentials::unprepared()
        },
        EnrollNext::Read(exchange, body) => {
            &&& m.stage == EnrollStage::Reading(exchange)
            &&& m.credentials == held
            &&& m.body == body
            &&& action is Read
        },
        EnrollNext::Parse(body) => {
            &&& m.stage == EnrollStage::Parsing
            &&& m.credentials == held
            &&& action matches EnrollAction::Parse(bytes) && bytes@ == body
        },
        EnrollNext::Finish(outcome) => {
            &&& m.stage == EnrollStage::Ended
            &&& match outcome {
                Ok(model) => action matches EnrollAction::Finish(Ok(found)) && found@ == model,
                Err(error) => action matches EnrollAction::Finish(Err(found)) && found@ == error,
            }
        },
    }
}

/// A conversation with the device service.
pub struct Enrollment {
    credentials: Credentials,
    stage: EnrollStage,
    body: Option<LimitedBody>,
}

impl View for Enrollment {
    type V = EnrollModel;

    closed spec fn view(&self) -> EnrollModel {
        EnrollModel {
            credentials: self.credentials@,
            stage: self.stage,
            body: match self.body {
                Some(body) => body.content(),
                None => Seq::empty(),
            },
        }
    }
}

impl Enrollment {
    /// Whether a body that is read belongs to its exchange and is within the limit.
    pub closed spec fn wf(&self) -> bool {
        self.stage matches EnrollStage::Reading(exchange) ==> self.body matches Some(body)
            && body.of() == exchange && body.wf()
    }

    /// Starts an exchange for the credentials.
    fn ask(&mut self, exchange: Exchange) -> (r: EnrollAction)
        ensures
            follows(
                old(self)@.credentials,
                EnrollNext::Ask(exchange, old(self)@.credentials),
                final(self)@,
                r,
            ),
            final(self).wf(),
            final(self)@.credentials == old(self)@.credentials,
    {
        let prepared = match exchange {
            Exchange::Registration => self.credentials.registration_request(),
            Exchange::Token => self.credentials.token_request(),
        };
        match prepared {
            Ok(request) => {
                self.stage = EnrollStage::Asking(exchange);
                EnrollAction::Send(request)
            },
            Err(error) => {
                self.stage = EnrollStage::Ended;
                EnrollAction::Finish(Err(error))
            },
        }
    }

    /// Starts to register a device under identifiers that are made up.
    pub fn register() -> (r: (Enrollment, EnrollAction))
        ensures
            r.0.wf(),
            follows(
                r.0@.credentials,
                EnrollNext::Ask(Exchange::Registration, r.0@.credentials),
                r.0@,
                r.1,
            ),
            crate::identity::is_uuid_v4(r.0@.credentials.cdid),
            crate::identity::is_uuid_v4(r.0@.credentials.clientudid),
            r.0@.credentials.openudid.len() == 16,
            forall|i: int|
                0 <= i < 16 ==> crate::identity::is_lower_hex(
                    #[trigger] r.0@.credentials.openudid[i],
                ),
            r.0@.credentials.device_id.len() == 0,
            r.0@.credentials.install_id.len() == 0,
            r.0@.credentials.token.len() == 0,
            r.0@.credentials.refreshed_at == 0,
    {
        let mut enrollment = Enrollment {
            credentials: Credentials::new(),
            stage: EnrollStage::Ended,
            body: None,
        };
        let action = enrollment.ask(Exchange::Registration);
        (enrollment, action)
    }

    /// Starts to fetch a token for the device of credentials.
    pub fn refresh(current: &Credentials) -> (r: (Enrollment, EnrollAction))
        ensures
            r.0.wf(),
            r.0@.credentials == current@,
            follows(current@, EnrollNext::Ask(Exchange::Token, current@), r.0@, r.1),
    {
        let mut enrollment = Enrollment {
            credentials: current.clone(),
            stage: EnrollStage::Ended,
            body: None,
        };
        let action = enrollment.ask(Exchange::Token);
        (enrollment, action)
    }

    /// Ends the conversation by a failure.
    fn fail(&mut self, error: Error) -> (r: EnrollAction)
        ensures
            final(self).wf(),
            final(self)@.stage == EnrollStage::Ended,
            r matches EnrollAction::Finish(Err(found)) && found@ == error@,
    {
        self.stage = EnrollStage::Ended;
        EnrollAction::Finish(Err(error))
    }

    /// Judges the head of an answer.
    fn answer(&mut self, exchange: Exchange, status: u16, announced: Option<u64>) -> (r:
        EnrollAction)
        requires
            old(self)@.stage == EnrollStage::Asking(exchange),
        ensures
            final(self).wf(),
            follows(
                old(self)@.credentials,
                old(self)@.next(EventModel::Answered { status, announced }),
                final(self)@,
                r,
            ),
    {
        if let Err(error) = exchange.check_status(status) {
            return self.fail(error);
        }
        match LimitedBody::begin(exchange, announced) {
            Ok(body) => {
                self.body = Some(body);
                self.stage = EnrollStage::Reading(exchange);
                assert(self@.body =~= Seq::empty());
                EnrollAction::Read
            },
            Err(error) => self.fail(error),
        }
    }

    /// Takes one more piece of the body.
    fn take_chunk(&mut self, exchange: Exchange, bytes: &[u8]) -> (r: EnrollAction)
        requires
            old(self).wf(),
            old(self)@.stage == EnrollStage::Reading(exchange),
        ensures
            final(self).wf(),
            follows(
                old(self)@.credentials,
                old(self)@.next(EventModel::Chunk(bytes@)),
                final(self)@,
                r,
            ),
    {
        let mut held: Option<LimitedBody> = None;
        std::mem::swap(&mut held, &mut self.body);
        let mut body = held.unwrap();
        match body.push(bytes) {
            Ok(_) => {
                self.body = Some(body);
                EnrollAction::Read
            },
            Err(error) => self.fail(error),
        }
    }

    /// Goes on after the body ended.
    fn complete(&mut self, exchange: Exchange, now: u64) -> (r: EnrollAction)
        requires
            old(self).wf(),
            old(self)@.stage == EnrollStage::Reading(exchange),
        ensures
            final(self).wf(),
            follows(
                old(self)@.credentials,
                old(self)@.next(EventModel::Complete { now }),
                final(self)@,
                r,
            ),
    {
        let mut held: Option<LimitedBody> = None;
        std::mem::swap(&mut held, &mut self.body);
        let bytes = held.unwrap().finish();
        match exchange {
            Exchange::Registration => {
                self.stage = EnrollStage::Parsing;
                EnrollAction::Parse(bytes)
            },
            Exchange::Token => match self.credentials.accept_token(bytes.as_slice(), now) {
                Ok(_) => {
                    self.stage = EnrollStage::Ended;
                    EnrollAction::Finish(Ok(self.credentials.clone()))
                },
                Err(error) => self.fail(error),
            },
        }
    }

    /// Goes on after the identifiers were looked for.
    fn identify(&mut self, found: Option<(i64, i64)>) -> (r: EnrollAction)
        requires
            old(self)@.stage == EnrollStage::Parsing,
        ensures
            final(self).wf(),
            follows(
                old(self)@.credentials,
                old(self)@.next(EventModel::Identifiers(found)),
                final(self)@,
                r,
            ),
    {
        match found {
            Some((device_id, install_id)) => {
                match self.credentials.accept_registration(device_id, install_id) {
                    Ok(_) => self.ask(Exchange::Token),
                    Err(error) => self.fail(error),
                }
            },
            None => self.fail(Exchange::Registration.invalid()),
        }
    }

    /// Takes note of what came and says what is to be done next.
    pub fn advance(&mut self, event: EnrollEvent) -> (r: EnrollAction)
        requires
            old(self).wf(),
            expects(old(self)@.stage, event@),
        ensures
            final(self).wf(),
            follows(
                old(self)@.credentials,
                old(self)@.next(event@),
                final(self)@,
                r,
            ),
    {
        match (self.stage, event) {
            (EnrollStage::Asking(exchange), EnrollEvent::Unsent) => self.fail(exchange.unsent()),
            (EnrollStage::Asking(exchange), EnrollEvent::Answered { status, announced }) => {
                self.answer(exchange, status, announced)
            },
            (EnrollStage::Reading(exchange), EnrollEvent::Chunk(bytes)) => self.take_chunk(
                exchange,
                bytes.as_slice(),
            ),
            (EnrollStage::Reading(exchange), EnrollEvent::Broken) => self.fail(exchange.invalid()),
            (EnrollStage::Reading(exchange), EnrollEvent::Complete { now }) => self.complete(
                exchange,
                now,
            ),
            (_, EnrollEvent::Identifiers(found)) => self.identify(found),
            _ => self.fail(Exchange::Registration.invalid()),
        }
    }

    /// Tells what the conversation is waiting for.
    pub fn stage(&self) -> (r: EnrollStage)
        ensures
            r == self@.stage,
    {
        self.stage
    }
}

/// A registration that succeeds gives complete credentials under the identifiers
/// that were made up, dated by the time that the token came.
pub proof fn law_enrolled_credentials_are_complete(
    parsing: EnrollModel,
    device_id: i64,
    install_id: i64,
    body: Seq<u8>,
    now: u64,
)
    requires
        parsing.stage == EnrollStage::Parsing,
    ensures
        parsing.next(EventModel::Identifiers(Some((device_id, install_id)))) matches EnrollNext::Ask(
            exchange,
            model,
        ) ==> exchange == Exchange::Token && {
            let reading = EnrollModel {
                credentials: model,
                stage: EnrollStage::Reading(exchange),
                body,
            };
            reading.next(EventModel::Complete { now }) matches EnrollNext::Finish(Ok(after))
                ==> after.is_complete() && after.refreshed_at == now && after.cdid
                == parsing.credentials.cdid && after.openudid == parsing.credentials.openudid
                && after.clientudid == parsing.credentials.clientudid
        },
{
    if device_id != 0 && install_id != 0 {
        credentials::law_registered_credentials_are_complete(
            parsing.credentials,
            device_id,
            install_id,
            credentials::json_text_at(body, credentials::TOKEN_POINTER@),
            now,
        );
    }
}

/// A refresh makes one exchange and no other: nothing that comes of it asks for
/// a registration, and the credentials that come of it are those of the same
/// device.
pub proof fn law_refresh_never_registers(m: EnrollModel, event: EventModel)
    requires
        m.stage == EnrollStage::Asking(Exchange::Token) || m.stage == EnrollStage::Reading(
            Exchange::Token,
        ),
        expects(m.stage, event),
    ensures
        !(m.next(event) is Ask),
        !(m.next(event) is Parse),
        m.next(event) matches EnrollNext::Finish(Ok(after)) ==> after
            == (credentials::CredentialsModel {
            token: after.token,
            refreshed_at: after.refreshed_at,
            ..m.credentials
        }),
{
}

/// No more of a body is kept than the limit, whatever the service sends.
pub proof fn law_bodies_stay_within_the_limit(m: EnrollModel, event: EventModel)
    ensures
        m.next(event) matches EnrollNext::Read(_, body) ==> body.len()
            <= credentials::MAX_RESPONSE_BYTES,
{
}

/// A conversation that has read chunks of a body one after the other, as long as each
/// leads on to the next.
pub open spec fn after_chunks(m: EnrollModel, chunks: Seq<Seq<u8>>) -> EnrollModel
    decreases chunks.len(),
{
    if chunks.len() == 0 {
        m
    } else {
        match m.next(EventModel::Chunk(chunks[0])) {
            EnrollNext::Read(_, body) => after_chunks(EnrollModel { body, ..m }, chunks.skip(1)),
            _ => m,
        }
    }
}

/// A body of up to a mebibyte is read whole, however it is cut into chunks.
proof fn lemma_chunks_add_up(m: EnrollModel, chunks: Seq<Seq<u8>>)
    requires
        m.stage is Reading,
        m.body.len() + chunks.flatten().len() <= 1024 * 1024,
    ensures
        after_chunks(m, chunks) == (EnrollModel { body: m.body + chunks.flatten(), ..m }),
    decreases chunks.len(),
{
    if chunks.len() == 0 {
        assert(chunks.flatten() =~= Seq::<u8>::empty());
        assert(m.body + chunks.flatten() =~= m.body);
    } else {
        let first = chunks[0];
        let others = chunks.skip(1);
        assert(others =~= chunks.drop_first());
        assert(chunks.flatten() =~= first + others.flatten());
        let grown = EnrollModel { body: m.body + first, ..m };
        lemma_chunks_add_up(grown, others);
        assert(m.body + first + others.flatten() =~= m.body + chunks.flatten());
    }
}

/// What comes of the body of an answer, of up to a mebibyte and however it is cut into
/// chunks. The identifiers of a registration are looked for in the whole of it. The
/// token is what stands in the whole of it at its place: it completes the credentials,
/// whole and dated by the time that it came, and without one the answer is of no use.
pub proof fn law_bodies_are_read_whole(m: EnrollModel, chunks: Seq<Seq<u8>>, now: u64)
    requires
        m.body.len() == 0,
        chunks.flatten().len() <= 1024 * 1024,
    ensures
        m.stage == EnrollStage::Reading(Exchange::Registration) ==> after_chunks(m, chunks).next(
            EventModel::Complete { now },
        ) == EnrollNext::Parse(chunks.flatten()),
        m.stage == EnrollStage::Reading(Exchange::Token) ==> after_chunks(m, chunks).next(
            EventModel::Complete { now },
        ) == match credentials::json_text_at(
            chunks.flatten(),
            "/data/settings/asr_config/app_key"@,
        ) {
            Some(token) if token.len() > 0 => EnrollNext::Finish(
                Ok(
                    credentials::CredentialsModel {
                        token,
                        refreshed_at: now,
                        ..m.credentials
                    },
                ),
            ),
            _ => EnrollNext::Finish(
                Err(
                    crate::error::ErrorModel::Message("Doubao ASR token response was invalid"@),
                ),
            ),
        },
{
    if m.stage is Reading {
        lemma_chunks_add_up(m, chunks);
        assert(m.body + chunks.flatten() =~= chunks.flatten());
    }
}

/// How the head of an answer and what can go wrong are judged: a status from 200 to 299
/// and an announced length of up to a mebibyte lead on to the body. Any other status is
/// a failure that names it; too long a body, announced or not, one that breaks off, and
/// no answer at all are failures too.
pub proof fn law_answers_are_judged_by_their_head(
    m: EnrollModel,
    exchange: Exchange,
    status: u16,
    announced: Option<u64>,
    bytes: Seq<u8>,
)
    ensures
        m.stage == EnrollStage::Asking(exchange) ==> m.next(
            EventModel::Answered { status, announced },
        ) == if status < 200 || status > 299 {
            EnrollNext::Finish(
                Err(crate::error::ErrorModel::Message(exchange.refused_text(status))),
            )
        } else if announced matches Some(length) && length > 1024 * 1024 {
            EnrollNext::Finish(Err(crate::error::ErrorModel::Message(exchange.invalid_text())))
        } else {
            EnrollNext::Read(exchange, Seq::<u8>::empty())
        },
        m.stage == EnrollStage::Asking(exchange) ==> m.next(EventModel::Unsent)
            == EnrollNext::Finish(
            Err(crate::error::ErrorModel::Message(exchange.unsent_text())),
        ),
        m.stage == EnrollStage::Reading(exchange) ==> m.next(EventModel::Broken)
            == EnrollNext::Finish(
            Err(crate::error::ErrorModel::Message(exchange.invalid_text())),
        ),
        m.stage == EnrollStage::Reading(exchange) && m.body.len() + bytes.len() > 1024 * 1024
            ==> m.next(EventModel::Chunk(bytes)) == EnrollNext::Finish(
            Err(crate::error::ErrorModel::Message(exchange.invalid_text())),
        ),
{
}

/// A registration leads on to the request for a token, for the two identifiers that the
/// service gave as numerals and the rest of the identity as it was made up. Without
/// both identifiers it is of no use.
pub proof fn law_registrations_lead_to_a_token(
    m: EnrollModel,
    device_id: i64,
    install_id: i64,
)
    requires
        m.stage == EnrollStage::Parsing,
    ensures
        device_id != 0 && install_id != 0 ==> (m.next(
            EventModel::Identifiers(Some((device_id, install_id))),
        ) matches EnrollNext::Ask(Exchange::Token, found) && found.device_id == text::decimal_int(
            device_id as int,
        ) && found.install_id == text::decimal_int(install_id as int) && found.cdid
            == m.credentials.cdid && found.openudid == m.credentials.openudid && found.clientudid
            == m.credentials.clientudid),
        device_id == 0 || install_id == 0 ==> m.next(
            EventModel::Identifiers(Some((device_id, install_id))),
        ) == EnrollNext::Finish(
            Err(
                crate::error::ErrorModel::Message(
                    "Doubao device registration returned an invalid response"@,
                ),
            ),
        ),
        m.next(EventModel::Identifiers(None)) == EnrollNext::Finish(
            Err(
                crate::error::ErrorModel::Message(
                    "Doubao device registration returned an invalid response"@,
                ),
            ),
        ),
{
}

/// A request of an exchange goes to the address of the exchange and carries the whole
/// identity that it is for: that of a registration in its body and its parameters, that
/// of a token in its parameters, with the device.
pub proof fn law_requests_are_for_the_whole_identity(
    request: ServiceRequest,
    model: credentials::CredentialsModel,
)
    ensures
        asks(request, Exchange::Registration, model) ==> exists|
            body_time: std::time::SystemTime,
            url_time: std::time::SystemTime,
        |
            request.body@ == credentials::registration_text(
                model,
                #[trigger] clock::clock_millis(body_time) as nat,
            ) && (urls::url_parse(
                "https://log.snssdk.com/service/2/device_register/"@,
            ) matches Some(parsed) && urls::url_target(request.url) == parsed.0 && urls::url_pairs(
                request.url,
            ) == parsed.1 + credentials::device_pairs(
                model,
                false,
                #[trigger] clock::clock_millis(url_time) as nat,
            )),
        asks(request, Exchange::Token, model) ==> request.body@ == "body=null"@ && exists|
            now: std::time::SystemTime,
        |
            urls::url_parse("https://is.snssdk.com/service/settings/v3/"@) matches Some(parsed)
                && urls::url_target(request.url) == parsed.0 && urls::url_pairs(request.url)
                == parsed.1 + credentials::device_pairs(
                model,
                true,
                #[trigger] clock::clock_millis(now) as nat,
            ),
{
}

/// What the caller is asked to do is all that comes next: the request of the exchange
/// for the whole identity, the whole body to look into, and the whole credentials or the
/// whole failure at the end. Where the URL of an exchange is none, the conversation ends.
pub proof fn law_actions_are_what_comes_next(
    held: credentials::CredentialsModel,
    next: EnrollNext,
    m: EnrollModel,
    action: EnrollAction,
)
    requires
        follows(held, next, m, action),
    ensures
        next matches EnrollNext::Ask(exchange, model) ==> match action {
            EnrollAction::Send(request) => asks(request, exchange, model) && m.credentials == model
                && m.stage == EnrollStage::Asking(exchange),
            EnrollAction::Finish(Err(e)) => e@ == crate::error::ErrorModel::Message(
                "could not prepare Doubao request"@,
            ),
            _ => false,
        },
        next matches EnrollNext::Read(exchange, body) ==> action is Read && m.body == body
            && m.credentials == held && m.stage == EnrollStage::Reading(exchange),
        next matches EnrollNext::Parse(body) ==> (action matches EnrollAction::Parse(bytes)
            && bytes@ == body) && m.credentials == held && m.stage == EnrollStage::Parsing,
        next matches EnrollNext::Finish(Ok(model)) ==> (action matches EnrollAction::Finish(
            Ok(found),
        ) && found@ == model),
        next matches EnrollNext::Finish(Err(error)) ==> (action matches EnrollAction::Finish(
            Err(found),
        ) && found@ == error),
{
}

/// What happened is known by all that it brought.
pub proof fn law_events_are_known_by_what_they_bring(event: EnrollEvent)
    ensures
        event is Unsent ==> event@ == EventModel::Unsent,
        event is Broken ==> event@ == EventModel::Broken,
        event matches EnrollEvent::Answered { status, announced } ==> event@
            == (EventModel::Answered { status, announced }),
        event matches EnrollEvent::Chunk(bytes) ==> event@ == EventModel::Chunk(bytes@),
        event matches EnrollEvent::Complete { now } ==> event@ == (EventModel::Complete { now }),
        event matches EnrollEvent::Identifiers(found) ==> event@ == EventModel::Identifiers(found),
{
}

/// A conversation takes the events that fit its stage: an answer or none where it asked,
/// chunks, their end or a break where it reads, the identifiers where they are looked
/// for, and nothing once it ended.
pub proof fn law_events_fit_the_stage(stage: EnrollStage, event: EventModel)
    ensures
        stage is Ended ==> !expects(stage, event),
        stage is Asking ==> (expects(stage, event) <==> event is Unsent || event is Answered),
        stage is Reading ==> (expects(stage, event) <==> event is Chunk || event is Broken
            || event is Complete),
        stage is Parsing ==> (expects(stage, event) <==> event is Identifiers),
{
}

} // verus!
