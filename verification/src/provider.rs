//! The protocol of one recognition session with the service.
//!
//! The connection, the converter and the clock are the caller's. The caller
//! carries out the actions of a [`Session`] and reports how they went.

use vstd::prelude::*;
use crate::config;
use crate::config::Config;
use crate::credentials;
use crate::error::Error;
use crate::identity;
use crate::sami;
use crate::text;
use crate::urls;

verus! {

/// How long a connection may take to open.
pub const CONNECT_SECONDS: u64 = 10;

/// How long the service may take to start a task or a session.
pub const START_SECONDS: u64 = 15;

/// How long the service may take to finish a session.
pub const FINISH_SECONDS: u64 = 20;

/// How many events may wait to be looked at.
pub const EVENT_CAPACITY: usize = 1024;

/// The length of one audio frame in milliseconds.
pub const FRAME_MILLIS: usize = 20;

/// What the service recognized.
#[derive(Debug)]
pub struct Recognition {
    pub text: String,
    pub final_result: bool,
}

/// What a [`Recognition`] says.
pub struct RecognitionModel {
    pub text: Seq<char>,
    pub final_result: bool,
}

impl View for Recognition {
    type V = RecognitionModel;

    open spec fn view(&self) -> RecognitionModel {
        RecognitionModel { text: self.text@, final_result: self.final_result }
    }
}

/// What a message of the service comes to.
#[derive(Debug)]
pub enum Event {
    /// The task or the session reached a state.
    Kind(String),
    /// Something was recognized.
    Recognition(Recognition),
    /// The session failed.
    Error(Error),
}

/// What an [`Event`] says.
pub enum EventModel {
    Kind(Seq<char>),
    Recognition(RecognitionModel),
    Error(crate::error::ErrorModel),
}

impl View for Event {
    type V = EventModel;

    open spec fn view(&self) -> EventModel {
        match self {
            Event::Kind(kind) => EventModel::Kind(kind@),
            Event::Recognition(recognition) => EventModel::Recognition(recognition@),
            Event::Error(error) => EventModel::Error(error@),
        }
    }
}

/// A message as it came over the connection.
pub enum Incoming {
    /// A binary message.
    Binary(Vec<u8>),
    /// The connection was closed or broke.
    Closed,
    /// Any other message.
    Other,
}

/// What is to be done about a message.
pub enum Routed {
    /// Nothing.
    Ignored,
    /// This event is to be passed on.
    Event(Event),
    /// This event is to be passed on, and no message follows it.
    Last(Event),
    /// This text may hold results.
    Payload(String),
}

/// What a [`Routed`] says.
pub enum RoutedModel {
    Ignored,
    Event(EventModel),
    Last(EventModel),
    Payload(Seq<char>),
}

impl View for Routed {
    type V = RoutedModel;

    open spec fn view(&self) -> RoutedModel {
        match self {
            Routed::Ignored => RoutedModel::Ignored,
            Routed::Event(event) => RoutedModel::Event(event@),
            Routed::Last(event) => RoutedModel::Last(event@),
            Routed::Payload(payload) => RoutedModel::Payload(payload@),
        }
    }
}

/// The failure of a connection that ended too early.
pub open spec fn connection_closed() -> crate::error::ErrorModel {
    crate::error::ErrorModel::Message("Doubao ASR connection closed unexpectedly"@)
}

/// The failure that a refused task or session stands for.
pub open spec fn refusal(status_text: Seq<char>, status_code: u64) -> crate::error::ErrorModel {
    if text::occurs_in(
        "service discovery failure"@,
        status_text.map_values(|c: char| text::ascii_lower(c)),
    ) {
        crate::error::ErrorModel::Unroutable
    } else {
        crate::error::ErrorModel::ProviderRejected(status_code)
    }
}

/// What a decoded message comes to.
pub open spec fn frame_routed(frame: sami::FrameModel) -> RoutedModel {
    if frame.event == "TaskStarted"@ || frame.event == "SessionStarted"@ || frame.event
        == "SessionFinished"@ {
        RoutedModel::Event(EventModel::Kind(frame.event))
    } else if frame.event == "TaskFailed"@ || frame.event == "SessionFailed"@ {
        RoutedModel::Event(EventModel::Error(refusal(frame.status_text, frame.status_code)))
    } else {
        RoutedModel::Payload(frame.payload_json)
    }
}

/// What a message comes to.
pub open spec fn routed(message: Incoming) -> RoutedModel {
    match message {
        Incoming::Other => RoutedModel::Ignored,
        Incoming::Closed => RoutedModel::Last(EventModel::Error(connection_closed())),
        Incoming::Binary(raw) => match sami::decoded(raw@) {
            Ok(frame) => frame_routed(frame),
            Err(_) => RoutedModel::Event(
                EventModel::Error(
                    crate::error::ErrorModel::Message(
                        "Doubao ASR returned an invalid protocol frame"@,
                    ),
                ),
            ),
        },
    }
}

/// Decides what a message comes to.
pub fn route(message: Incoming) -> (r: Routed)
    ensures
        r@ == routed(message),
{
    let raw = match message {
        Incoming::Other => {
            return Routed::Ignored;
        },
        Incoming::Closed => {
            return Routed::Last(
                Event::Error(Error::msg("Doubao ASR connection closed unexpectedly")),
            );
        },
        Incoming::Binary(raw) => raw,
    };
    let frame = match sami::decode(raw.as_slice()) {
        Ok(frame) => frame,
        Err(_) => {
            return Routed::Event(
                Event::Error(Error::msg("Doubao ASR returned an invalid protocol frame")),
            );
        },
    };
    let event = frame.event.as_str();
    if text::text_eq(event, "TaskStarted") || text::text_eq(event, "SessionStarted")
        || text::text_eq(event, "SessionFinished") {
        return Routed::Event(Event::Kind(event.to_owned()));
    }
    if text::text_eq(event, "TaskFailed") || text::text_eq(event, "SessionFailed") {
        let status = text::lowercase_ascii(frame.status_text.as_str());
        if text::contains_text(status.as_str(), "service discovery failure") {
            return Routed::Event(Event::Error(Error::Unroutable));
        }
        return Routed::Event(Event::Error(Error::ProviderRejected(frame.status_code)));
    }
    Routed::Payload(frame.payload_json)
}

/// One result as it stands in a payload.
#[derive(Debug)]
pub struct WireResult {
    pub text: String,
    pub is_interim: bool,
}

/// The events of the results in a payload.
pub open spec fn result_events(results: Seq<WireResult>) -> Seq<EventModel> {
    results.map_values(
        |result: WireResult|
            EventModel::Recognition(
                RecognitionModel { text: result.text@, final_result: !result.is_interim },
            ),
    )
}

/// Turns the results of a payload into events. A payload that is not understood
/// has none.
pub fn payload_events(payload: Option<Vec<WireResult>>) -> (r: Vec<Event>)
    ensures
        r@.map_values(|event: Event| event@) == match payload {
            Some(results) => result_events(results@),
            None => Seq::empty(),
        },
{
    let mut events: Vec<Event> = Vec::new();
    if let Some(results) = payload {
        for result in it: results
            invariant
                it.seq() == results@,
                payload == Some(results),
                events@.map_values(|event: Event| event@) == result_events(
                    results@.take(it.index()),
                ),
        {
            let ghost before = events@;
            let ghost done = results@.take(it.index());
            let event = Event::Recognition(
                Recognition { text: result.text, final_result: !result.is_interim },
            );
            assert(results@.take(it.index() + 1) =~= done.push(result));
            assert(result_events(done.push(result)) =~= result_events(done).push(event@));
            events.push(event);
            assert(events@.map_values(|event: Event| event@) =~= before.map_values(
                |event: Event| event@,
            ).push(event@));
            assert(events@.map_values(|event: Event| event@) =~= result_events(
                results@.take(it.index() + 1),
            ));
        }
        assert(results@.take(results@.len() as int) =~= results@);
    }
    assert(payload is None ==> events@.map_values(|event: Event| event@) =~= Seq::empty());
    events
}

/// What was recognized so far: the distinct final texts in the order they
/// first came, and the latest interim text since the last final one.
#[verifier::ext_equal]
pub struct AccumulatorModel {
    pub finals: Seq<Seq<char>>,
    pub interim: Seq<char>,
}

impl AccumulatorModel {
    /// Nothing recognized.
    pub open spec fn empty() -> AccumulatorModel {
        AccumulatorModel { finals: Seq::empty(), interim: Seq::empty() }
    }

    /// What was recognized after one more result: results of white space alone
    /// are passed over, and white space at the ends of a text is dropped.
    pub open spec fn consumed(self, result: RecognitionModel) -> AccumulatorModel {
        let text = text::trimmed(result.text);
        if text.len() == 0 {
            self
        } else if !result.final_result {
            AccumulatorModel { interim: text, ..self }
        } else {
            AccumulatorModel {
                finals: if self.finals.contains(text) {
                    self.finals
                } else {
                    self.finals.push(text)
                },
                interim: Seq::empty(),
            }
        }
    }

    /// The transcript: the final texts, one a line, or the interim text where
    /// there is no final one.
    pub open spec fn text(self) -> Seq<char> {
        if self.finals.len() == 0 {
            self.interim
        } else {
            lines(self.finals)
        }
    }
}

/// Texts as lines.
pub open spec fn lines(parts: Seq<Seq<char>>) -> Seq<char>
    decreases parts.len(),
{
    if parts.len() == 0 {
        Seq::empty()
    } else if parts.len() == 1 {
        parts[0]
    } else {
        lines(parts.drop_last()) + "\n"@ + parts.last()
    }
}

/// Collects what was recognized.
pub struct TextAccumulator {
    final_parts: Vec<String>,
    latest_interim: String,
}

impl View for TextAccumulator {
    type V = AccumulatorModel;

    closed spec fn view(&self) -> AccumulatorModel {
        AccumulatorModel {
            finals: text::owned_texts(self.final_parts@),
            interim: self.latest_interim@,
        }
    }
}

impl Default for TextAccumulator {
    fn default() -> (r: TextAccumulator)
        ensures
            r@ == AccumulatorModel::empty(),
    {
        let r = TextAccumulator { final_parts: Vec::new(), latest_interim: String::new() };
        assert(r@ =~= AccumulatorModel::empty());
        r
    }
}

impl TextAccumulator {
    /// Tells whether a final text came before.
    fn seen(&self, value: &str) -> (r: bool)
        ensures
            r == self@.finals.contains(value@),
    {
        let mut i: usize = 0;
        while i < self.final_parts.len()
            invariant
                i <= self.final_parts@.len(),
                forall|k: int| 0 <= k < i ==> self@.finals[k] != value@,
            decreases self.final_parts@.len() - i,
        {
            if text::text_eq(self.final_parts[i].as_str(), value) {
                assert(self@.finals[i as int] == value@);
                return true;
            }
            assert(self@.finals[i as int] != value@);
            i += 1;
        }
        false
    }

    /// Takes note of one result.
    pub fn consume(&mut self, result: Recognition)
        ensures
            final(self)@ == old(self)@.consumed(result@),
    {
        let found = text::trim(result.text.as_str());
        if found.unicode_len() == 0 {
            return;
        }
        if !result.final_result {
            self.latest_interim = found.to_owned();
            return;
        }
        self.latest_interim = String::new();
        if !self.seen(found) {
            let ghost before = self.final_parts@;
            self.final_parts.push(found.to_owned());
            assert(text::owned_texts(self.final_parts@) =~= text::owned_texts(before).push(found@));
        }
        assert(self@ =~= old(self)@.consumed(result@));
    }

    /// Gives the transcript.
    pub fn text(&self) -> (r: String)
        ensures
            r@ == self@.text(),
    {
        if self.final_parts.len() == 0 {
            return self.latest_interim.as_str().to_owned();
        }
        let mut out = self.final_parts[0].as_str().to_owned();
        let mut i: usize = 1;
        assert(text::owned_texts(self.final_parts@).take(1) =~= seq![self.final_parts@[0]@]);
        while i < self.final_parts.len()
            invariant
                1 <= i <= self.final_parts@.len(),
                out@ == lines(text::owned_texts(self.final_parts@).take(i as int)),
            decreases self.final_parts@.len() - i,
        {
            let ghost all = text::owned_texts(self.final_parts@);
            out.append("\n");
            out.append(self.final_parts[i].as_str());
            assert(all.take(i + 1).drop_last() =~= all.take(i as int));
            assert(all.take(i + 1).last() == self.final_parts@[i as int]@);
            i += 1;
        }
        assert(text::owned_texts(self.final_parts@).take(i as int) =~= text::owned_texts(self.final_parts@));
        out
    }
}

/// What was recognized after results in a row.
pub open spec fn accumulated(results: Seq<RecognitionModel>) -> AccumulatorModel
    decreases results.len(),
{
    if results.len() == 0 {
        AccumulatorModel::empty()
    } else {
        accumulated(results.drop_last()).consumed(results.last())
    }
}

/// Whether a text came as a final result among results.
pub open spec fn came_final(results: Seq<RecognitionModel>, value: Seq<char>) -> bool {
    exists|i: int|
        0 <= i < results.len() && #[trigger] results[i].final_result && text::trimmed(
            results[i].text,
        ) == value
}

/// However often a final text comes, it stands in the transcript once: the
/// collected final texts are those that came, without white space at their ends,
/// each once and none empty.
pub proof fn law_finals_are_distinct(results: Seq<RecognitionModel>)
    ensures
        accumulated(results).finals.no_duplicates(),
        forall|value: Seq<char>|
            #[trigger] accumulated(results).finals.contains(value) <==> value.len() > 0
                && came_final(results, value),
    decreases results.len(),
{
    if results.len() > 0 {
        let before = results.drop_last();
        law_finals_are_distinct(before);
        let last = results.last();
        let old_finals = accumulated(before).finals;
        let new_finals = accumulated(results).finals;
        let added = text::trimmed(last.text);
        assert forall|value: Seq<char>| #[trigger] new_finals.contains(value) <==> value.len() > 0
            && came_final(results, value) by {
            assert(old_finals.contains(value) <==> value.len() > 0 && came_final(before, value));
            if came_final(before, value) {
                let i = choose|i: int|
                    0 <= i < before.len() && #[trigger] before[i].final_result && text::trimmed(
                        before[i].text,
                    ) == value;
                assert(results[i].final_result);
            }
            if came_final(results, value) && !came_final(before, value) {
                let i = choose|i: int|
                    0 <= i < results.len() && #[trigger] results[i].final_result && text::trimmed(
                        results[i].text,
                    ) == value;
                if i < before.len() {
                    assert(before[i].final_result);
                }
            }
            if last.final_result {
                assert(results[results.len() - 1].final_result);
            }
            if last.final_result && added.len() > 0 && !old_finals.contains(added) {
                assert(new_finals == old_finals.push(added));
                if value == added {
                    assert(new_finals[new_finals.len() - 1] == added);
                }
                if old_finals.contains(value) {
                    let k = old_finals.index_of(value);
                    assert(new_finals[k] == value);
                }
                if new_finals.contains(value) && value != added {
                    let k = choose|k: int| 0 <= k < new_finals.len() && new_finals[k] == value;
                    assert(old_finals[k] == value);
                }
            }
        }
    }
}

/// A final text that came before changes nothing but the interim text, which
/// it ends.
pub proof fn law_repeated_final_is_ignored(m: AccumulatorModel, result: RecognitionModel)
    requires
        result.final_result,
    ensures
        m.consumed(result).consumed(result) == m.consumed(result),
        m.consumed(result).finals.len() > 0 ==> m.consumed(result).consumed(result).text()
            == m.consumed(result).text(),
{
    let value = text::trimmed(result.text);
    if value.len() > 0 && !m.finals.contains(value) {
        let finals = m.finals.push(value);
        assert(finals[finals.len() - 1] == value);
    }
    assert(m.consumed(result).consumed(result) =~= m.consumed(result));
}

/// Once a final text came, interim texts do not show in the transcript.
pub proof fn law_interim_is_only_a_fallback(m: AccumulatorModel, result: RecognitionModel)
    requires
        !result.final_result,
    ensures
        m.finals.len() > 0 ==> m.consumed(result).text() == m.text(),
        m.finals.len() == 0 ==> m.consumed(result).text() == if text::trimmed(result.text).len()
            > 0 {
            text::trimmed(result.text)
        } else {
            m.text()
        },
{
}

/// The final texts that came first stay first, whatever comes later.
pub proof fn law_finals_keep_their_order(
    results: Seq<RecognitionModel>,
    more: Seq<RecognitionModel>,
)
    ensures
        accumulated(results).finals.is_prefix_of(accumulated(results + more).finals),
    decreases more.len(),
{
    let first = accumulated(results).finals;
    if more.len() == 0 {
        assert(results + more =~= results);
        assert(first =~= first.subrange(0, first.len() as int));
    } else {
        law_finals_keep_their_order(results, more.drop_last());
        let whole = results + more;
        assert(whole.drop_last() =~= results + more.drop_last());
        let middle = accumulated(whole.drop_last()).finals;
        let last = accumulated(whole).finals;
        assert(first =~= last.subrange(0, first.len() as int)) by {
            assert(first == middle.subrange(0, first.len() as int));
            assert(forall|k: int|
                0 <= k < first.len() ==> first[k] == #[trigger] middle.subrange(
                    0,
                    first.len() as int,
                )[k]);
        }
    }
}

/// Whether some final text came among results.
pub open spec fn has_final(results: Seq<RecognitionModel>) -> bool {
    exists|value: Seq<char>| value.len() > 0 && #[trigger] came_final(results, value)
}

/// How the transcript grows with each result. A final text that did not come
/// before is added to the transcript as a line of its own, or is the transcript
/// where no final text came before. An interim text is the transcript as long as no
/// final text came. Everything else, a final text that came before, an interim
/// text after a final one and white space alone, leaves the transcript as it is.
pub proof fn law_transcripts_grow_by_lines(
    results: Seq<RecognitionModel>,
    result: RecognitionModel,
)
    ensures
        ({
            let before = accumulated(results).text();
            let after = accumulated(results.push(result)).text();
            let value = text::trimmed(result.text);
            &&& value.len() == 0 ==> after == before
            &&& value.len() > 0 && result.final_result && !came_final(results, value) ==> after
                == if has_final(results) {
                before + seq!['\n'] + value
            } else {
                value
            }
            &&& result.final_result && came_final(results, value) ==> after == before
            &&& value.len() > 0 && !result.final_result ==> after == if has_final(results) {
                before
            } else {
                value
            }
        }),
        accumulated(Seq::empty()).text().len() == 0,
{
    let value = text::trimmed(result.text);
    let m = accumulated(results);
    let all = results.push(result);
    assert(all.drop_last() =~= results);
    law_finals_are_distinct(results);
    reveal_strlit("\n");
    assert("\n"@ =~= seq!['\n']);
    assert(value.len() > 0 ==> (m.finals.contains(value) <==> came_final(results, value)));
    if has_final(results) {
        let found = choose|found: Seq<char>| found.len() > 0 && #[trigger] came_final(
            results,
            found,
        );
        assert(m.finals.contains(found));
        assert(m.finals.len() > 0);
    } else if m.finals.len() > 0 {
        assert(m.finals.contains(m.finals[0]));
        assert(came_final(results, m.finals[0]));
    }
    let grown = m.finals.push(value);
    assert(grown.drop_last() =~= m.finals);
}

/// Lines stand one behind the other with a line end between them: the first line
/// and a line end come before the lines that follow.
pub proof fn law_lines_are_joined_by_line_ends(first: Seq<char>, others: Seq<Seq<char>>)
    ensures
        lines(seq![first]) == first,
        others.len() > 0 ==> lines(seq![first] + others) == first + seq!['\n'] + lines(others),
    decreases others.len(),
{
    reveal_strlit("\n");
    assert("\n"@ =~= seq!['\n']);
    if others.len() > 0 {
        let all = seq![first] + others;
        assert(all.drop_last() =~= seq![first] + others.drop_last());
        assert(all.last() == others.last());
        assert(lines(all) == lines(all.drop_last()) + seq!['\n'] + others.last());
        if others.len() == 1 {
            assert(all.drop_last() =~= seq![first]);
            assert(lines(seq![first]) == first);
            assert(lines(others) == others[0]);
        } else {
            law_lines_are_joined_by_line_ends(first, others.drop_last());
            assert(lines(others) == lines(others.drop_last()) + seq!['\n'] + others.last());
            assert(lines(all) =~= first + seq!['\n'] + lines(others));
        }
    }
}

/// Each result of a payload is one event, in the order of the results, with the
/// whole text of the result; it is final if and only if it is not interim.
pub proof fn law_results_are_events(results: Seq<WireResult>, i: int)
    requires
        0 <= i < results.len(),
    ensures
        result_events(results).len() == results.len(),
        result_events(results)[i] matches EventModel::Recognition(found) && found.text
            == results[i].text@ && found.final_result != results[i].is_interim,
{
}

/// What a message comes to: a state of the task or the session is passed on as it
/// is named, a refusal as a failure, and the payload of any other message may hold
/// results. A message that is malformed is a failure, the end of the connection is
/// one that nothing follows, and what is no binary message is passed over.
pub proof fn law_messages_are_told_apart(raw: Vec<u8>, frame: sami::FrameModel)
    requires
        sami::decoded(raw@) == Ok::<sami::FrameModel, Seq<char>>(frame),
    ensures
        ({
            let found = routed(Incoming::Binary(raw));
            let event = frame.event;
            &&& event == "TaskStarted"@ || event == "SessionStarted"@ || event
                == "SessionFinished"@ ==> found == RoutedModel::Event(EventModel::Kind(event))
            &&& event == "TaskFailed"@ || event == "SessionFailed"@ ==> found
                == RoutedModel::Event(
                EventModel::Error(refusal(frame.status_text, frame.status_code)),
            )
            &&& event != "TaskStarted"@ && event != "SessionStarted"@ && event
                != "SessionFinished"@ && event != "TaskFailed"@ && event != "SessionFailed"@
                ==> found == RoutedModel::Payload(frame.payload_json)
        }),
        routed(Incoming::Other) is Ignored,
        routed(Incoming::Closed) matches RoutedModel::Last(EventModel::Error(error))
            && !error.is_rejection(),
{
    lemma_refusals_are_no_states(frame);
}

proof fn lemma_refusals_are_no_states(frame: sami::FrameModel)
    ensures
        frame.event == "TaskFailed"@ || frame.event == "SessionFailed"@ ==> frame.event
            != "TaskStarted"@ && frame.event != "SessionStarted"@ && frame.event
            != "SessionFinished"@,
{
    reveal_strlit("TaskFailed");
    reveal_strlit("SessionFailed");
    reveal_strlit("TaskStarted");
    reveal_strlit("SessionStarted");
    reveal_strlit("SessionFinished");
    assert("TaskFailed"@[4] == 'F');
    assert("SessionFailed"@[8] == 'a');
    assert("TaskStarted"@[4] == 'S');
    assert("SessionStarted"@[7] == 'S');
    assert("SessionFinished"@[8] == 'i');
}

/// A refusal whose status speaks of a service discovery failure, in capitals or
/// not and whatever stands around it, means that the device is not routable; any
/// other refusal keeps its status code.
pub proof fn law_discovery_failures_are_unroutable(
    before: Seq<char>,
    words: Seq<char>,
    after: Seq<char>,
    status_text: Seq<char>,
    code: u64,
)
    requires
        words.map_values(|c: char| text::ascii_lower(c)) == "service discovery failure"@,
    ensures
        refusal(before + words + after, code) is Unroutable,
        refusal(status_text, code) is Unroutable || refusal(status_text, code)
            == crate::error::ErrorModel::ProviderRejected(code),
        refusal(status_text, code) is Unroutable ==> exists|a: Seq<char>, b: Seq<char>|
            status_text.map_values(|c: char| text::ascii_lower(c)) == #[trigger] (a
                + "service discovery failure"@ + b),
{
    let lower = |c: char| text::ascii_lower(c);
    let sought = "service discovery failure"@;
    let whole = (before + words + after).map_values(lower);
    assert(whole =~= before.map_values(lower) + sought + after.map_values(lower));
    text::law_a_part_occurs_within_its_surroundings(
        before.map_values(lower),
        sought,
        after.map_values(lower),
        status_text.map_values(lower),
    );
}

/// How a connection is opened.
pub struct ConnectionRequest {
    pub url: url::Url,
    pub headers: Vec<(&'static str, &'static str)>,
}

/// Static headers by their characters.
pub open spec fn static_headers(headers: Seq<(&'static str, &'static str)>) -> Seq<
    (Seq<char>, Seq<char>),
> {
    headers.map_values(|header: (&'static str, &'static str)| (header.0@, header.1@))
}

/// The headers that a connection is opened with.
pub open spec fn connection_headers() -> Seq<(Seq<char>, Seq<char>)> {
    seq![
        ("user-agent"@, credentials::DEVICE_USER_AGENT@),
        ("proto-version"@, "v2"@),
        ("x-custom-keepalive"@, "true"@),
    ]
}

/// Prepares the connection for a session.
pub fn connection_request(config: &Config) -> (r: Result<ConnectionRequest, Error>)
    requires
        urls::url_fits(config@.websocket_url, config::session_pairs(config@)),
    ensures
        match urls::url_parse(config@.websocket_url) {
            Some(parsed) => r matches Ok(request) && urls::url_target(request.url) == parsed.0
                && urls::url_pairs(request.url) == config::session_pairs(config@) && static_headers(
                request.headers@,
            ) == connection_headers(),
            None => crate::error::failure(r) == Some(unprepared_connection()),
        },
{
    match config.ws_url() {
        Ok(url) => {
            let headers: Vec<(&'static str, &'static str)> = vec![
                ("user-agent", config.user_agent()),
                ("proto-version", "v2"),
                ("x-custom-keepalive", "true"),
            ];
            assert(static_headers(headers@) =~= connection_headers());
            Ok(ConnectionRequest { url, headers })
        },
        Err(_) => Err(unprepared()),
    }
}

/// The failure to prepare a connection.
pub open spec fn unprepared_connection() -> crate::error::ErrorModel {
    crate::error::ErrorModel::Message("could not prepare Doubao ASR connection"@)
}

/// Reports that a connection could not be prepared.
pub fn unprepared() -> (r: Error)
    ensures
        r@ == unprepared_connection(),
{
    Error::msg("could not prepare Doubao ASR connection")
}

/// Reports that a connection could not be opened.
pub fn unconnected() -> (r: Error)
    ensures
        r@ == crate::error::ErrorModel::Message("could not connect to Doubao ASR"@),
{
    Error::msg("could not connect to Doubao ASR")
}

/// Reports that a message could not be written.
pub fn unwritten() -> (r: Error)
    ensures
        r@ == crate::error::ErrorModel::Message("Doubao ASR connection write failed"@),
{
    Error::msg("Doubao ASR connection write failed")
}

/// A completed recognition.
#[derive(Debug)]
pub struct ProviderTranscript {
    pub text: String,
    pub duration_ms: u64,
    pub frames: usize,
}

/// What a [`ProviderTranscript`] holds.
pub struct ProviderTranscriptModel {
    pub text: Seq<char>,
    pub duration_ms: u64,
    pub frames: usize,
}

impl View for ProviderTranscript {
    type V = ProviderTranscriptModel;

    open spec fn view(&self) -> ProviderTranscriptModel {
        ProviderTranscriptModel {
            text: self.text@,
            duration_ms: self.duration_ms,
            frames: self.frames,
        }
    }
}

/// The frame state that is sent with a frame: the last frame is marked as the
/// last, even where it is the first.
pub open spec fn frame_state(index: int, last: bool) -> u64 {
    if last {
        sami::FRAME_STATE_LAST
    } else if index == 0 {
        sami::FRAME_STATE_FIRST
    } else {
        sami::FRAME_STATE_MIDDLE
    }
}

/// What a session is doing.
#[derive(Clone, Copy, Debug, PartialEq, Eq, Structural)]
pub enum Stage {
    /// Nothing yet.
    Opening,
    /// Asking for a task.
    TaskSent,
    /// Waiting for the task.
    TaskAwaited,
    /// Asking for the session.
    SessionSent,
    /// Waiting for the session.
    SessionAwaited,
    /// Starting the converter.
    StreamOpening,
    /// Reading the first packet.
    FirstPacket,
    /// Reading the packet after the current one.
    NextPacket,
    /// Waiting until the current packet is due.
    Pacing,
    /// Sending the current packet.
    FrameSent,
    /// Looking at the events that came.
    Draining,
    /// Waiting for the converter to exit.
    StreamClosing,
    /// Ending the session.
    FinishSent,
    /// Waiting for the session to end.
    FinishAwaited,
    /// Nothing any more.
    Ended,
}

/// Where a session stands.
#[verifier::ext_equal]
pub struct SessionModel {
    pub token: Seq<char>,
    pub settings: Seq<u8>,
    pub task_id: Seq<char>,
    pub stage: Stage,
    /// The packet that is to be sent.
    pub current: Seq<u8>,
    /// The packet after it.
    pub upcoming: Option<Seq<u8>>,
    /// How many packets were sent.
    pub frames: nat,
    /// What was recognized.
    pub heard: AccumulatorModel,
}

/// How an action went.
pub enum Progress {
    /// It succeeded.
    Done,
    /// It gave a packet, or the end of the packets.
    Packet(Option<Vec<u8>>),
    /// It failed.
    Failed(Error),
}

/// What a [`Progress`] says.
pub enum ProgressModel {
    Done,
    Packet(Option<Seq<u8>>),
    Failed(crate::error::ErrorModel),
}

/// An optional packet by its bytes.
pub open spec fn optional_packet(value: Option<Vec<u8>>) -> Option<Seq<u8>> {
    match value {
        Some(packet) => Some(packet@),
        None => None,
    }
}

impl View for Progress {
    type V = ProgressModel;

    open spec fn view(&self) -> ProgressModel {
        match self {
            Progress::Done => ProgressModel::Done,
            Progress::Packet(packet) => ProgressModel::Packet(optional_packet(*packet)),
            Progress::Failed(error) => ProgressModel::Failed(error@),
        }
    }
}

/// What a session asks the caller to do.
pub enum Action {
    /// Send this message.
    Send(Vec<u8>),
    /// Wait for a state, for so many seconds at most, handing each event to
    /// [`Session::observe`].
    Await { expected: &'static str, seconds: u64 },
    /// Start the converter.
    OpenStream,
    /// Read the next packet.
    ReadPacket,
    /// Wait until the frame of this index is due.
    Pace(usize),
    /// Hand the events that came to [`Session::drain`].
    Drain,
    /// Wait for the converter to exit.
    CloseStream,
    /// Nothing: the session ended so.
    Finish(Result<ProviderTranscript, Error>),
}

/// What an [`Action`] says.
pub enum ActionModel {
    Send(Seq<u8>),
    Await { expected: Seq<char>, seconds: u64 },
    OpenStream,
    ReadPacket,
    Pace(nat),
    Drain,
    CloseStream,
    Finish(Result<ProviderTranscriptModel, crate::error::ErrorModel>),
}

impl View for Action {
    type V = ActionModel;

    open spec fn view(&self) -> ActionModel {
        match self {
            Action::Send(message) => ActionModel::Send(message@),
            Action::Await { expected, seconds } => ActionModel::Await {
                expected: expected@,
                seconds: *seconds,
            },
            Action::OpenStream => ActionModel::OpenStream,
            Action::ReadPacket => ActionModel::ReadPacket,
            Action::Pace(index) => ActionModel::Pace(*index as nat),
            Action::Drain => ActionModel::Drain,
            Action::CloseStream => ActionModel::CloseStream,
            Action::Finish(outcome) => ActionModel::Finish(
                match *outcome {
                    Ok(transcript) => Ok(transcript@),
                    Err(error) => Err(error@),
                },
            ),
        }
    }
}

impl SessionModel {
    /// Whether a report fits what the session is doing.
    pub open spec fn expects(self, progress: ProgressModel) -> bool {
        match progress {
            ProgressModel::Failed(_) => self.stage != Stage::Ended,
            ProgressModel::Packet(_) => self.stage == Stage::FirstPacket || self.stage
                == Stage::NextPacket,
            ProgressModel::Done => self.stage != Stage::Ended && self.stage != Stage::FirstPacket
                && self.stage != Stage::NextPacket,
        }
    }

    /// The state that is waited for.
    pub open spec fn awaited(self) -> Seq<char> {
        if self.stage == Stage::TaskAwaited {
            "TaskStarted"@
        } else if self.stage == Stage::SessionAwaited {
            "SessionStarted"@
        } else {
            "SessionFinished"@
        }
    }

    /// The session at another stage.
    pub open spec fn at(self, stage: Stage) -> SessionModel {
        SessionModel { stage, ..self }
    }

    /// The end of the session by a failure.
    pub open spec fn failed(self, error: crate::error::ErrorModel) -> (SessionModel, ActionModel) {
        (self.at(Stage::Ended), ActionModel::Finish(Err(error)))
    }

    /// The message that carries the current packet.
    pub open spec fn frame_message(self) -> Seq<u8> {
        sami::task_request_message(
            self.task_id,
            20 * self.frames as int,
            frame_state(self.frames as int, self.upcoming is None) as nat,
            self.current,
        )
    }

    /// What was recognized when the session ended.
    pub open spec fn transcript(self) -> ProviderTranscriptModel {
        ProviderTranscriptModel {
            text: self.heard.text(),
            duration_ms: (20 * self.frames) as u64,
            frames: self.frames as usize,
        }
    }

    /// Where the session stands after an action, and what is to be done next.
    pub open spec fn advanced(self, progress: ProgressModel) -> (SessionModel, ActionModel) {
        match progress {
            ProgressModel::Failed(error) => self.failed(error),
            ProgressModel::Packet(packet) => if self.stage == Stage::FirstPacket {
                match packet {
                    Some(first) => (
                        SessionModel { current: first, ..self.at(Stage::NextPacket) },
                        ActionModel::ReadPacket,
                    ),
                    None => self.failed(
                        crate::error::ErrorModel::Message(
                            "the input contains no decodable audio"@,
                        ),
                    ),
                }
            } else {
                (
                    SessionModel { upcoming: packet, ..self.at(Stage::Pacing) },
                    ActionModel::Pace(self.frames),
                )
            },
            ProgressModel::Done => match self.stage {
                Stage::Opening => (
                    self.at(Stage::TaskSent),
                    ActionModel::Send(sami::start_task_message(self.token, self.task_id)),
                ),
                Stage::TaskSent => (
                    self.at(Stage::TaskAwaited),
                    ActionModel::Await { expected: "TaskStarted"@, seconds: START_SECONDS },
                ),
                Stage::TaskAwaited => (
                    self.at(Stage::SessionSent),
                    ActionModel::Send(
                        sami::start_session_message(self.token, self.task_id, self.settings),
                    ),
                ),
                Stage::SessionSent => (
                    self.at(Stage::SessionAwaited),
                    ActionModel::Await { expected: "SessionStarted"@, seconds: START_SECONDS },
                ),
                Stage::SessionAwaited => (self.at(Stage::StreamOpening), ActionModel::OpenStream),
                Stage::StreamOpening => (self.at(Stage::FirstPacket), ActionModel::ReadPacket),
                Stage::Pacing => if self.current.len() == 0 {
                    self.failed(
                        crate::error::ErrorModel::Message(
                            "refusing to send an empty Opus packet"@,
                        ),
                    )
                } else {
                    (self.at(Stage::FrameSent), ActionModel::Send(self.frame_message()))
                },
                Stage::FrameSent => (
                    SessionModel { frames: self.frames + 1, ..self.at(Stage::Draining) },
                    ActionModel::Drain,
                ),
                Stage::Draining => match self.upcoming {
                    Some(next) => (
                        SessionModel {
                            current: next,
                            upcoming: None,
                            ..self.at(Stage::NextPacket)
                        },
                        ActionModel::ReadPacket,
                    ),
                    None => (self.at(Stage::StreamClosing), ActionModel::CloseStream),
                },
                Stage::StreamClosing => (
                    self.at(Stage::FinishSent),
                    ActionModel::Send(sami::finish_session_message(self.token, self.task_id)),
                ),
                Stage::FinishSent => (
                    self.at(Stage::FinishAwaited),
                    ActionModel::Await { expected: "SessionFinished"@, seconds: FINISH_SECONDS },
                ),
                // The session has ended; no other stage expects this report.
                _ => (self.at(Stage::Ended), ActionModel::Finish(Ok(self.transcript()))),
            },
        }
    }

    /// Where the session stands after an event that came while it waits, and
    /// what the wait came to, if it is over.
    pub open spec fn observed(self, event: Option<EventModel>) -> (
        SessionModel,
        Option<Option<crate::error::ErrorModel>>,
    ) {
        match event {
            None => (self, Some(Some(connection_closed()))),
            Some(EventModel::Error(error)) => (self, Some(Some(error))),
            Some(EventModel::Kind(kind)) => (
                self,
                if kind == self.awaited() {
                    Some(None)
                } else {
                    None
                },
            ),
            Some(EventModel::Recognition(result)) => (
                if self.stage == Stage::FinishAwaited {
                    SessionModel { heard: self.heard.consumed(result), ..self }
                } else {
                    self
                },
                None,
            ),
        }
    }

    /// Where the session stands after an event that had come, and what looking
    /// at the events came to, if it is over.
    pub open spec fn drained(self, pending: PendingModel) -> (
        SessionModel,
        Option<Option<crate::error::ErrorModel>>,
    ) {
        match pending {
            PendingModel::Nothing => (self, Some(None)),
            PendingModel::Disconnected => (self, Some(Some(connection_closed()))),
            PendingModel::Event(EventModel::Error(error)) => (self, Some(Some(error))),
            PendingModel::Event(EventModel::Kind(_)) => (self, None),
            PendingModel::Event(EventModel::Recognition(result)) => (
                SessionModel { heard: self.heard.consumed(result), ..self },
                None,
            ),
        }
    }
}

/// What is there of the events that had come.
pub enum Pending {
    /// This event.
    Event(Event),
    /// No more.
    Nothing,
    /// No more, nor will any come.
    Disconnected,
}

/// What a [`Pending`] says.
pub enum PendingModel {
    Event(EventModel),
    Nothing,
    Disconnected,
}

impl View for Pending {
    type V = PendingModel;

    open spec fn view(&self) -> PendingModel {
        match self {
            Pending::Event(event) => PendingModel::Event(event@),
            Pending::Nothing => PendingModel::Nothing,
            Pending::Disconnected => PendingModel::Disconnected,
        }
    }
}

/// An optional event by what it says.
pub open spec fn optional_event(event: Option<Event>) -> Option<EventModel> {
    match event {
        Some(found) => Some(found@),
        None => None,
    }
}

/// What a wait came to, by what its failure says.
pub open spec fn verdict(outcome: Option<Result<(), Error>>) -> Option<
    Option<crate::error::ErrorModel>,
> {
    match outcome {
        Some(found) => Some(crate::error::failure(found)),
        None => None,
    }
}

/// One recognition session.
pub struct Session {
    token: String,
    settings: Vec<u8>,
    task_id: String,
    stage: Stage,
    current: Vec<u8>,
    upcoming: Option<Vec<u8>>,
    frames: usize,
    heard: TextAccumulator,
}

impl View for Session {
    type V = SessionModel;

    closed spec fn view(&self) -> SessionModel {
        SessionModel {
            token: self.token@,
            settings: self.settings@,
            task_id: self.task_id@,
            stage: self.stage,
            current: self.current@,
            upcoming: optional_packet(self.upcoming),
            frames: self.frames as nat,
            heard: self.heard@,
        }
    }
}

/// A session before it starts.
pub open spec fn session_start(config: config::ConfigModel, task_id: Seq<char>) -> SessionModel {
    SessionModel {
        token: config.token,
        settings: vstd::utf8::encode_utf8(
            config::session_text(config.device_id, config.punctuation),
        ),
        task_id,
        stage: Stage::Opening,
        current: Seq::empty(),
        upcoming: None,
        frames: 0,
        heard: AccumulatorModel::empty(),
    }
}

impl Session {
    /// Prepares a session under a task identifier.
    pub fn with_task(config: &Config, task_id: String) -> (r: Session)
        ensures
            r@ == session_start(config@, task_id@),
    {
        let r = Session {
            token: config.token.as_str().to_owned(),
            settings: config.session_json(),
            task_id,
            stage: Stage::Opening,
            current: Vec::new(),
            upcoming: None,
            frames: 0,
            heard: TextAccumulator::default(),
        };
        assert(r@ =~= session_start(config@, task_id@));
        r
    }

    /// Prepares a session under a task identifier of its own.
    pub fn new(config: &Config) -> (r: Session)
        ensures
            identity::is_uuid_v4(r@.task_id),
            r@ == session_start(config@, r@.task_id),
    {
        let task_id = identity::new_uuid();
        Session::with_task(config, task_id)
    }

    /// Tells how many packets were sent.
    pub fn frames(&self) -> (r: usize)
        ensures
            r == self@.frames,
    {
        self.frames
    }

    /// Tells what the session is doing.
    pub fn stage(&self) -> (r: Stage)
        ensures
            r == self@.stage,
    {
        self.stage
    }

    /// Ends the session by a failure.
    fn fail(&mut self, error: Error) -> (r: Action)
        ensures
            (final(self)@, r@) == old(self)@.failed(error@),
    {
        self.stage = Stage::Ended;
        assert(self@ =~= old(self)@.at(Stage::Ended));
        Action::Finish(Err(error))
    }

    /// Goes on to a stage.
    fn go(&mut self, stage: Stage)
        ensures
            final(self)@ == old(self)@.at(stage),
    {
        self.stage = stage;
        assert(self@ =~= old(self)@.at(stage));
    }

    /// Takes note of a packet that was read.
    fn take_packet(&mut self, packet: Option<Vec<u8>>) -> (r: Action)
        requires
            old(self)@.expects(ProgressModel::Packet(optional_packet(packet))),
        ensures
            (final(self)@, r@) == old(self)@.advanced(
                ProgressModel::Packet(optional_packet(packet)),
            ),
    {
        if self.stage == Stage::FirstPacket {
            match packet {
                Some(first) => {
                    self.go(Stage::NextPacket);
                    self.current = first;
                    Action::ReadPacket
                },
                None => self.fail(Error::msg("the input contains no decodable audio")),
            }
        } else {
            self.go(Stage::Pacing);
            self.upcoming = packet;
            Action::Pace(self.frames)
        }
    }

    /// Takes the packet after the current one in its place, or ends the upload.
    fn next_frame(&mut self) -> (r: Action)
        requires
            old(self)@.stage == Stage::Draining,
        ensures
            (final(self)@, r@) == old(self)@.advanced(ProgressModel::Done),
    {
        let mut upcoming: Option<Vec<u8>> = None;
        std::mem::swap(&mut upcoming, &mut self.upcoming);
        match upcoming {
            Some(next) => {
                self.go(Stage::NextPacket);
                self.current = next;
                Action::ReadPacket
            },
            None => {
                self.go(Stage::StreamClosing);
                Action::CloseStream
            },
        }
    }

    /// Sends the current packet.
    fn send_frame(&mut self) -> (r: Action)
        requires
            old(self)@.stage == Stage::Pacing,
            old(self)@.frames < usize::MAX / 40,
        ensures
            (final(self)@, r@) == old(self)@.advanced(ProgressModel::Done),
    {
        if self.current.len() == 0 {
            return self.fail(Error::msg("refusing to send an empty Opus packet"));
        }
        let state: u64 = if self.upcoming.is_none() {
            sami::FRAME_STATE_LAST
        } else if self.frames == 0 {
            sami::FRAME_STATE_FIRST
        } else {
            sami::FRAME_STATE_MIDDLE
        };
        let message = sami::encode_task_request(
            self.task_id.as_str(),
            (self.frames * FRAME_MILLIS) as i64,
            state,
            self.current.as_slice(),
        );
        self.go(Stage::FrameSent);
        Action::Send(message)
    }

    /// Takes note of how the last action went and says what is to be done next.
    /// The first report, that nothing was done, starts the session.
    pub fn advance(&mut self, progress: Progress) -> (r: Action)
        requires
            old(self)@.expects(progress@),
            old(self)@.frames < usize::MAX / 40,
        ensures
            (final(self)@, r@) == old(self)@.advanced(progress@),
    {
        match progress {
            Progress::Failed(error) => {
                return self.fail(error);
            },
            Progress::Packet(packet) => {
                return self.take_packet(packet);
            },
            Progress::Done => {},
        }
        match self.stage {
            Stage::Opening => {
                let message = sami::encode_start_task(self.token.as_str(), self.task_id.as_str());
                self.go(Stage::TaskSent);
                Action::Send(message)
            },
            Stage::TaskSent => {
                self.go(Stage::TaskAwaited);
                Action::Await { expected: "TaskStarted", seconds: START_SECONDS }
            },
            Stage::TaskAwaited => {
                let message = sami::encode_start_session(
                    self.token.as_str(),
                    self.task_id.as_str(),
                    self.settings.as_slice(),
                );
                self.go(Stage::SessionSent);
                Action::Send(message)
            },
            Stage::SessionSent => {
                self.go(Stage::SessionAwaited);
                Action::Await { expected: "SessionStarted", seconds: START_SECONDS }
            },
            Stage::SessionAwaited => {
                self.go(Stage::StreamOpening);
                Action::OpenStream
            },
            Stage::StreamOpening => {
                self.go(Stage::FirstPacket);
                Action::ReadPacket
            },
            Stage::Pacing => self.send_frame(),
            Stage::FrameSent => {
                self.go(Stage::Draining);
                self.frames = self.frames + 1;
                Action::Drain
            },
            Stage::Draining => self.next_frame(),
            Stage::StreamClosing => {
                let message = sami::encode_finish_session(
                    self.token.as_str(),
                    self.task_id.as_str(),
                );
                self.go(Stage::FinishSent);
                Action::Send(message)
            },
            Stage::FinishSent => {
                self.go(Stage::FinishAwaited);
                Action::Await { expected: "SessionFinished", seconds: FINISH_SECONDS }
            },
            _ => {
                let transcript = ProviderTranscript {
                    text: self.heard.text(),
                    duration_ms: (self.frames * FRAME_MILLIS) as u64,
                    frames: self.frames,
                };
                self.go(Stage::Ended);
                Action::Finish(Ok(transcript))
            },
        }
    }

    /// Tells whether an event that came while the session waits ends the wait.
    /// No event means that the connection is gone.
    pub fn observe(&mut self, event: Option<Event>) -> (r: Option<Result<(), Error>>)
        ensures
            (final(self)@, verdict(r)) == old(self)@.observed(optional_event(event)),
    {
        match event {
            None => Some(Err(Error::msg("Doubao ASR connection closed unexpectedly"))),
            Some(Event::Error(error)) => Some(Err(error)),
            Some(Event::Kind(kind)) => {
                let expected = match self.stage {
                    Stage::TaskAwaited => "TaskStarted",
                    Stage::SessionAwaited => "SessionStarted",
                    _ => "SessionFinished",
                };
                if text::text_eq(kind.as_str(), expected) {
                    Some(Ok(()))
                } else {
                    None
                }
            },
            Some(Event::Recognition(result)) => {
                if self.stage == Stage::FinishAwaited {
                    self.heard.consume(result);
                }
                None
            },
        }
    }

    /// Reports that a wait took too long.
    pub fn timed_out(&self) -> (r: Error)
        ensures
            r@ == crate::error::ErrorModel::Message(
                "timeout waiting for Doubao ASR "@ + self@.awaited(),
            ),
    {
        match self.stage {
            Stage::TaskAwaited => Error::detailed(
                "timeout waiting for Doubao ASR ",
                "TaskStarted",
            ),
            Stage::SessionAwaited => Error::detailed(
                "timeout waiting for Doubao ASR ",
                "SessionStarted",
            ),
            _ => Error::detailed("timeout waiting for Doubao ASR ", "SessionFinished"),
        }
    }

    /// Looks at one of the events that had come.
    pub fn drain(&mut self, pending: Pending) -> (r: Option<Result<(), Error>>)
        ensures
            (final(self)@, verdict(r)) == old(self)@.drained(pending@),
    {
        match pending {
            Pending::Nothing => Some(Ok(())),
            Pending::Disconnected => Some(
                Err(Error::msg("Doubao ASR connection closed unexpectedly")),
            ),
            Pending::Event(Event::Error(error)) => Some(Err(error)),
            Pending::Event(Event::Kind(_)) => None,
            Pending::Event(Event::Recognition(result)) => {
                self.heard.consume(result);
                None
            },
        }
    }
}

/// The messages that are sent, and the session that is left, when packets are
/// read one after the other and every action succeeds; `m` has just read the
/// packet that comes before them.
pub open spec fn uploaded(m: SessionModel, packets: Seq<Seq<u8>>) -> (
    Seq<Seq<u8>>,
    SessionModel,
    ActionModel,
)
    decreases packets.len(),
{
    let next = if packets.len() > 0 {
        Some(packets[0])
    } else {
        None
    };
    let (paced, _) = m.advanced(ProgressModel::Packet(next));
    let (sending, send) = paced.advanced(ProgressModel::Done);
    let (draining, _) = sending.advanced(ProgressModel::Done);
    let (after, action) = draining.advanced(ProgressModel::Done);
    let sent = match send {
        ActionModel::Send(message) => seq![message],
        _ => Seq::empty(),
    };
    if packets.len() > 0 {
        let (others, end, last) = uploaded(after, packets.skip(1));
        (sent + others, end, last)
    } else {
        (sent, after, action)
    }
}

/// The messages that carry packets: frames in the order of the packets, 20 ms
/// apart, of which the last alone is marked as the last.
pub open spec fn frame_messages(task_id: Seq<char>, index: nat, packets: Seq<Seq<u8>>) -> Seq<
    Seq<u8>,
> {
    Seq::new(
        packets.len(),
        |i: int|
            sami::task_request_message(
                task_id,
                20 * (index + i),
                frame_state(index + i, i == packets.len() - 1) as nat,
                packets[i],
            ),
    )
}

/// An upload sends every packet once, in order, with its index times 20 ms as
/// its date and the frame state of its place, and then waits for the converter.
pub proof fn law_upload_sends_every_packet(m: SessionModel, packets: Seq<Seq<u8>>)
    requires
        m.stage == Stage::NextPacket,
        m.current.len() > 0,
        forall|i: int| 0 <= i < packets.len() ==> #[trigger] packets[i].len() > 0,
    ensures
        uploaded(m, packets).0 == frame_messages(m.task_id, m.frames, seq![m.current] + packets),
        uploaded(m, packets).1.frames == m.frames + packets.len() + 1,
        uploaded(m, packets).1.stage == Stage::StreamClosing,
        uploaded(m, packets).1.token == m.token,
        uploaded(m, packets).1.task_id == m.task_id,
        uploaded(m, packets).1.heard == m.heard,
        uploaded(m, packets).2 == ActionModel::CloseStream,
    decreases packets.len(),
{
    let all = seq![m.current] + packets;
    if packets.len() == 0 {
        assert(uploaded(m, packets).0 =~= frame_messages(m.task_id, m.frames, all));
    } else {
        let next = packets[0];
        let (paced, _) = m.advanced(ProgressModel::Packet(Some(next)));
        let (sending, _) = paced.advanced(ProgressModel::Done);
        let (draining, _) = sending.advanced(ProgressModel::Done);
        let (after, _) = draining.advanced(ProgressModel::Done);
        let rest = packets.skip(1);
        assert(packets[0].len() > 0);
        assert forall|i: int| 0 <= i < rest.len() implies #[trigger] rest[i].len() > 0 by {
            assert(packets[i + 1].len() > 0);
        }
        law_upload_sends_every_packet(after, rest);
        assert(seq![next] + rest =~= packets);
        let tail = frame_messages(m.task_id, m.frames + 1, packets);
        let whole = frame_messages(m.task_id, m.frames, all);
        assert(uploaded(m, packets).0 =~= whole) by {
            assert(whole.len() == tail.len() + 1);
            assert forall|i: int| 0 <= i < tail.len() implies #[trigger] tail[i] == whole[i
                + 1] by {
                assert(all[i + 1] == packets[i]);
            }
        }
    }
}

/// The frames of an upload from its beginning: packet by packet, each in a message
/// of its own, dated by its place times 20 ms. The last is marked by 9, also where
/// it is the only one; the first of several is marked by 1, and all between them by
/// 3.
pub proof fn law_frames_are_marked_by_their_place(
    m: SessionModel,
    packets: Seq<Seq<u8>>,
    i: int,
)
    requires
        m.stage == Stage::NextPacket,
        m.frames == 0,
        m.current.len() > 0,
        forall|k: int| 0 <= k < packets.len() ==> #[trigger] packets[k].len() > 0,
        0 <= i <= packets.len(),
    ensures
        uploaded(m, packets).0.len() == packets.len() + 1,
        uploaded(m, packets).0[i] == sami::task_request_message(
            m.task_id,
            20 * i,
            if i == packets.len() {
                9
            } else if i == 0 {
                1
            } else {
                3
            },
            if i == 0 {
                m.current
            } else {
                packets[i - 1]
            },
        ),
        sami::FRAME_STATE_FIRST == 1,
        sami::FRAME_STATE_MIDDLE == 3,
        sami::FRAME_STATE_LAST == 9,
{
    law_upload_sends_every_packet(m, packets);
}

/// What can happen to a session.
pub enum Happening {
    /// An action was reported.
    Reported(ProgressModel),
    /// An event came while the session waits.
    Observed(Option<EventModel>),
    /// An event that had come was looked at.
    Drained(PendingModel),
}

/// A session after one thing that happened.
pub open spec fn happened(m: SessionModel, happening: Happening) -> SessionModel {
    match happening {
        Happening::Reported(progress) => m.advanced(progress).0,
        Happening::Observed(event) => m.observed(event).0,
        Happening::Drained(pending) => m.drained(pending).0,
    }
}

/// A session after things that happened in a row.
pub open spec fn course(m: SessionModel, happenings: Seq<Happening>) -> SessionModel
    decreases happenings.len(),
{
    if happenings.len() == 0 {
        m
    } else {
        happened(course(m, happenings.drop_last()), happenings.last())
    }
}

/// The results that come to a session, in their order: those among the events that
/// are looked at during the upload, and those that come while the end of the
/// session is waited for.
pub open spec fn results_of(m: SessionModel, happenings: Seq<Happening>) -> Seq<RecognitionModel>
    decreases happenings.len(),
{
    if happenings.len() == 0 {
        Seq::empty()
    } else {
        let before = results_of(m, happenings.drop_last());
        match happenings.last() {
            Happening::Drained(PendingModel::Event(EventModel::Recognition(result))) => before.push(
                result,
            ),
            Happening::Observed(Some(EventModel::Recognition(result))) => if course(
                m,
                happenings.drop_last(),
            ).stage == Stage::FinishAwaited {
                before.push(result)
            } else {
                before
            },
            _ => before,
        }
    }
}

/// Whatever happens to a session, it has heard all the results that came to it,
/// in their order and nothing else; their text is the text of the transcript that
/// the session ends in.
pub proof fn law_sessions_hear_every_result(
    config: config::ConfigModel,
    task_id: Seq<char>,
    happenings: Seq<Happening>,
)
    ensures
        ({
            let start = session_start(config, task_id);
            let now = course(start, happenings);
            let results = results_of(start, happenings);
            &&& now.heard == accumulated(results)
            &&& now.stage == Stage::FinishAwaited ==> (now.advanced(
                ProgressModel::Done,
            ).1 matches ActionModel::Finish(Ok(transcript)) && transcript.text == accumulated(
                results,
            ).text())
        }),
    decreases happenings.len(),
{
    let start = session_start(config, task_id);
    if happenings.len() > 0 {
        let before = happenings.drop_last();
        law_sessions_hear_every_result(config, task_id, before);
        let results = results_of(start, before);
        match happenings.last() {
            Happening::Drained(PendingModel::Event(EventModel::Recognition(result))) => {
                assert(results.push(result).drop_last() =~= results);
            },
            Happening::Observed(Some(EventModel::Recognition(result))) => {
                assert(results.push(result).drop_last() =~= results);
            },
            _ => {},
        }
    }
}

/// Events change nothing of a session but what was heard: not what it is doing,
/// its packets, their number, nor who it is for.
pub proof fn law_events_change_only_what_is_heard(
    m: SessionModel,
    event: Option<EventModel>,
    pending: PendingModel,
)
    ensures
        m.observed(event).0 == (SessionModel { heard: m.observed(event).0.heard, ..m }),
        m.drained(pending).0 == (SessionModel { heard: m.drained(pending).0.heard, ..m }),
        event is None || !(event->0 is Recognition) ==> m.observed(event).0 == m,
        pending matches PendingModel::Event(EventModel::Recognition(_)) || m.drained(pending).0
            == m,
{
}

/// A wait ends well with the state that is waited for, which is that of the task,
/// of the session or of its end, and with no other. It fails with the failure that
/// comes, or when the connection is gone. A result does not end it.
pub proof fn law_waits_end_with_what_is_waited_for(
    m: SessionModel,
    kind: Seq<char>,
    error: crate::error::ErrorModel,
    result: RecognitionModel,
)
    ensures
        m.stage == Stage::TaskAwaited ==> (m.observed(Some(EventModel::Kind(kind))).1 == Some(
            None::<crate::error::ErrorModel>,
        ) <==> kind == "TaskStarted"@),
        m.stage == Stage::SessionAwaited ==> (m.observed(Some(EventModel::Kind(kind))).1 == Some(
            None::<crate::error::ErrorModel>,
        ) <==> kind == "SessionStarted"@),
        m.stage == Stage::FinishAwaited ==> (m.observed(Some(EventModel::Kind(kind))).1 == Some(
            None::<crate::error::ErrorModel>,
        ) <==> kind == "SessionFinished"@),
        m.observed(Some(EventModel::Kind(kind))).1 matches Some(outcome) ==> outcome is None,
        m.observed(Some(EventModel::Error(error))).1 == Some(Some(error)),
        m.observed(Some(EventModel::Recognition(result))).1 is None,
        m.observed(None).1 == Some(
            Some(
                crate::error::ErrorModel::Message(
                    "Doubao ASR connection closed unexpectedly"@,
                ),
            ),
        ),
{
}

/// Looking at the events that came goes on until there are none, or one is a
/// failure, or the connection is gone.
pub proof fn law_draining_goes_on_to_the_last_event(
    m: SessionModel,
    kind: Seq<char>,
    error: crate::error::ErrorModel,
    result: RecognitionModel,
)
    ensures
        m.drained(PendingModel::Nothing).1 == Some(None::<crate::error::ErrorModel>),
        m.drained(PendingModel::Event(EventModel::Kind(kind))).1 is None,
        m.drained(PendingModel::Event(EventModel::Recognition(result))).1 is None,
        m.drained(PendingModel::Event(EventModel::Error(error))).1 == Some(Some(error)),
        m.drained(PendingModel::Disconnected).1 == Some(
            Some(
                crate::error::ErrorModel::Message(
                    "Doubao ASR connection closed unexpectedly"@,
                ),
            ),
        ),
{
}

/// A recording without a packet, and a packet without a byte, are failures; the
/// first packet of a recording is kept until the next one is known.
pub proof fn law_empty_audio_is_refused(m: SessionModel, packet: Seq<u8>)
    ensures
        m.stage == Stage::FirstPacket ==> m.advanced(ProgressModel::Packet(None)).1
            == ActionModel::Finish(
            Err::<ProviderTranscriptModel, crate::error::ErrorModel>(
                crate::error::ErrorModel::Message("the input contains no decodable audio"@),
            ),
        ),
        m.stage == Stage::FirstPacket ==> m.advanced(ProgressModel::Packet(Some(packet))).1
            is ReadPacket && m.advanced(ProgressModel::Packet(Some(packet))).0.current == packet,
        m.stage == Stage::Pacing && m.current.len() == 0 ==> m.advanced(ProgressModel::Done).1
            == ActionModel::Finish(
            Err::<ProviderTranscriptModel, crate::error::ErrorModel>(
                crate::error::ErrorModel::Message("refusing to send an empty Opus packet"@),
            ),
        ),
        m.stage == Stage::NextPacket ==> m.advanced(ProgressModel::Packet(Some(packet))).1
            == ActionModel::Pace(m.frames),
{
}

/// A session opens by asking for a task and then, once the task has started,
/// for a session with its settings; the converter is started only after the
/// session has, and the first packet is read after that.
pub proof fn law_session_opens_in_order(config: config::ConfigModel, task_id: Seq<char>)
    ensures
        ({
            let m0 = session_start(config, task_id);
            let (m1, a1) = m0.advanced(ProgressModel::Done);
            let (m2, a2) = m1.advanced(ProgressModel::Done);
            let (m3, a3) = m2.advanced(ProgressModel::Done);
            let (m4, a4) = m3.advanced(ProgressModel::Done);
            let (m5, a5) = m4.advanced(ProgressModel::Done);
            let (m6, a6) = m5.advanced(ProgressModel::Done);
            &&& a1 == ActionModel::Send(sami::start_task_message(config.token, task_id))
            &&& a2 == ActionModel::Await { expected: "TaskStarted"@, seconds: START_SECONDS }
            &&& a3 == ActionModel::Send(
                sami::start_session_message(config.token, task_id, m0.settings),
            )
            &&& a4 == ActionModel::Await { expected: "SessionStarted"@, seconds: START_SECONDS }
            &&& a5 == ActionModel::OpenStream
            &&& a6 == ActionModel::ReadPacket
            &&& m6 == m0.at(Stage::FirstPacket)
        }),
{
}

/// A session closes, after the converter exited, by ending the session and
/// waiting for its end; the transcript holds what was recognized until then, and
/// lasts 20 ms for each packet that was sent.
pub proof fn law_session_closes_in_order(m: SessionModel, heard: AccumulatorModel)
    requires
        m.stage == Stage::StreamClosing,
    ensures
        ({
            let (m1, a1) = m.advanced(ProgressModel::Done);
            let (m2, a2) = m1.advanced(ProgressModel::Done);
            let (m3, a3) = (SessionModel { heard, ..m2 }).advanced(ProgressModel::Done);
            &&& a1 == ActionModel::Send(sami::finish_session_message(m.token, m.task_id))
            &&& a2 == ActionModel::Await { expected: "SessionFinished"@, seconds: FINISH_SECONDS }
            &&& a3 == ActionModel::Finish(
                Ok::<ProviderTranscriptModel, crate::error::ErrorModel>(
                    ProviderTranscriptModel {
                        text: heard.text(),
                        duration_ms: (20 * m.frames) as u64,
                        frames: m.frames as usize,
                    },
                ),
            )
            &&& m3.stage == Stage::Ended
        }),
{
}

/// A failure ends a session wherever it stands, and is what the session ends in.
pub proof fn law_failure_ends_the_session(m: SessionModel, error: crate::error::ErrorModel)
    ensures
        m.advanced(ProgressModel::Failed(error)) == (
            m.at(Stage::Ended),
            ActionModel::Finish(Err::<ProviderTranscriptModel, crate::error::ErrorModel>(error)),
        ),
{
}

/// What is recognized before the upload starts does not count, and neither do
/// states other than the one that is waited for.
pub proof fn law_opening_hears_nothing(m: SessionModel, event: Option<EventModel>)
    requires
        m.stage == Stage::TaskAwaited || m.stage == Stage::SessionAwaited,
    ensures
        m.observed(event).0 == m,
{
}

/// A task or session that the service refuses asks for new credentials, whatever
/// the service says.
pub proof fn law_refusals_ask_for_new_credentials(frame: sami::FrameModel)
    requires
        frame.event == "TaskFailed"@ || frame.event == "SessionFailed"@,
    ensures
        frame_routed(frame) matches RoutedModel::Event(EventModel::Error(error))
            && error.is_rejection(),
{
    reveal_strlit("TaskFailed");
    reveal_strlit("SessionFailed");
    reveal_strlit("TaskStarted");
    reveal_strlit("SessionStarted");
    reveal_strlit("SessionFinished");
    assert("TaskFailed"@[4] == 'F');
    assert("SessionFailed"@[8] == 'a');
    assert("TaskStarted"@[4] == 'S');
    assert("SessionStarted"@[7] == 'S');
    assert("SessionFinished"@[8] == 'i');
}

/// The settings that a session is opened with are what a reader of the opening
/// message finds as its payload.
pub proof fn law_settings_are_the_payload(config: config::ConfigModel, task_id: Seq<char>)
    requires
        vstd::utf8::encode_utf8(config.token).len() <= u64::MAX,
        vstd::utf8::encode_utf8(task_id).len() <= u64::MAX,
        session_start(config, task_id).settings.len() <= u64::MAX,
    ensures
        sami::decoded(
            sami::start_session_message(
                config.token,
                task_id,
                session_start(config, task_id).settings,
            ),
        ) == Ok::<sami::FrameModel, Seq<char>>(
            sami::FrameModel {
                request_id: task_id,
                event: "StartSession"@,
                payload_json: config::session_text(config.device_id, config.punctuation),
                ..sami::empty_frame()
            },
        ),
{
    let settings = config::session_text(config.device_id, config.punctuation);
    sami::law_start_session_decodes(
        config.token,
        task_id,
        session_start(config, task_id).settings,
    );
    vstd::utf8::encode_utf8_valid_utf8(settings);
    vstd::utf8::encode_utf8_decode_utf8(settings);
    config::lemma_session_text_opens(config.device_id, config.punctuation);
    assert(settings[0] == '{');
}

/// A connection is opened as a client of the second protocol version that keeps it
/// alive, under the user agent of the device, and the failure to open one says so.
pub proof fn law_connections_are_opened_as_a_device()
    ensures
        connection_headers().len() == 3,
        connection_headers()[0] == ("user-agent"@, credentials::DEVICE_USER_AGENT@),
        connection_headers()[1] == ("proto-version"@, "v2"@),
        connection_headers()[2] == ("x-custom-keepalive"@, "true"@),
        unprepared_connection() == crate::error::ErrorModel::Message(
            "could not prepare Doubao ASR connection"@,
        ),
        connection_closed() == crate::error::ErrorModel::Message(
            "Doubao ASR connection closed unexpectedly"@,
        ),
{
}

/// What a session is told is known by all that it holds: the whole text that was
/// recognized and whether it is final, the whole state, packet or failure.
pub proof fn law_news_are_known_by_what_they_hold(
    recognition: Recognition,
    event: Event,
    progress: Progress,
    pending: Pending,
)
    ensures
        recognition@.text == recognition.text@,
        recognition@.final_result == recognition.final_result,
        event matches Event::Kind(kind) ==> event@ == EventModel::Kind(kind@),
        event matches Event::Recognition(found) ==> event@ == EventModel::Recognition(found@),
        event matches Event::Error(error) ==> event@ == EventModel::Error(error@),
        progress is Done ==> progress@ == ProgressModel::Done,
        progress matches Progress::Packet(Some(packet)) ==> progress@ == ProgressModel::Packet(
            Some(packet@),
        ),
        progress matches Progress::Packet(None) ==> progress@ == ProgressModel::Packet(None),
        progress matches Progress::Failed(error) ==> progress@ == ProgressModel::Failed(error@),
        pending matches Pending::Event(found) ==> pending@ == PendingModel::Event(found@),
        pending is Nothing ==> pending@ == PendingModel::Nothing,
        pending is Disconnected ==> pending@ == PendingModel::Disconnected,
{
}

/// What a session asks of its caller is known by all that it holds: the whole message,
/// the state and the seconds, the frame, and the whole transcript or failure at the end.
pub proof fn law_actions_are_known_by_what_they_hold(
    action: Action,
    transcript: ProviderTranscript,
)
    ensures
        action matches Action::Send(message) ==> action@ == ActionModel::Send(message@),
        action matches Action::Await { expected, seconds } ==> action@ == (ActionModel::Await {
            expected: expected@,
            seconds,
        }),
        action matches Action::Pace(index) ==> action@ == ActionModel::Pace(index as nat),
        action matches Action::Finish(Ok(found)) ==> action@ == ActionModel::Finish(Ok(found@)),
        action matches Action::Finish(Err(error)) ==> action@ == ActionModel::Finish(Err(error@)),
        action is OpenStream <==> action@ == ActionModel::OpenStream,
        action is ReadPacket <==> action@ == ActionModel::ReadPacket,
        action is Drain <==> action@ == ActionModel::Drain,
        action is CloseStream <==> action@ == ActionModel::CloseStream,
        transcript@.text == transcript.text@,
        transcript@.duration_ms == transcript.duration_ms,
        transcript@.frames == transcript.frames,
{
}

/// A session takes the reports that fit what it is doing: a packet or the end of the
/// packets where it reads, that a step is done at every other stage, a failure at each of
/// them, and nothing once it ended.
pub proof fn law_reports_fit_the_stage(
    m: SessionModel,
    packet: Option<Seq<u8>>,
    error: crate::error::ErrorModel,
)
    ensures
        m.stage == Stage::Ended ==> !m.expects(ProgressModel::Done) && !m.expects(
            ProgressModel::Packet(packet),
        ) && !m.expects(ProgressModel::Failed(error)),
        m.stage == Stage::FirstPacket || m.stage == Stage::NextPacket ==> m.expects(
            ProgressModel::Packet(packet),
        ) && !m.expects(ProgressModel::Done) && m.expects(ProgressModel::Failed(error)),
        m.stage != Stage::Ended && m.stage != Stage::FirstPacket && m.stage != Stage::NextPacket
            ==> m.expects(ProgressModel::Done) && !m.expects(ProgressModel::Packet(packet))
            && m.expects(ProgressModel::Failed(error)),
{
}

/// The service has ten seconds to take a connection, fifteen for each state at the start
/// and twenty for the end.
pub proof fn law_waits_are_bounded()
    ensures
        CONNECT_SECONDS == 10,
        START_SECONDS == 15,
        FINISH_SECONDS == 20,
        FRAME_MILLIS == 20,
{
}

} // verus!
