//! Requests for chat completions.

use vstd::prelude::*;
use crate::server::app::ApiError;
use crate::text;

verus! {

/// A request for a chat completion.
#[derive(Debug)]
pub struct ChatCompletionRequest {
    pub model: String,
    pub messages: Vec<ChatMessage>,
    pub stream: bool,
}

/// One message of a request.
#[derive(Debug)]
pub struct ChatMessage {
    pub role: String,
    pub content: MessageContent,
}

/// The content of a message: a text, or parts.
#[derive(Debug)]
pub enum MessageContent {
    Text(String),
    Parts(Vec<ContentPart>),
}

/// One part of a message.
#[derive(Debug)]
pub enum ContentPart {
    Text { text: String },
    InputAudio { input_audio: InputAudio },
    AudioUrl { audio_url: AudioUrl },
    Unsupported,
}

/// Audio that the request carries, in base64.
#[derive(Debug)]
pub struct InputAudio {
    pub data: String,
    pub format: String,
}

/// Where the audio is to be found.
#[derive(Debug)]
pub struct AudioUrl {
    pub url: String,
}

/// The audio that a request asks to transcribe.
#[derive(Debug)]
pub enum AudioSource {
    InputAudio { data: String, format: String },
    AudioUrl(String),
}

/// What an [`AudioSource`] says.
pub enum SourceModel {
    InputAudio { data: Seq<char>, format: Seq<char> },
    AudioUrl(Seq<char>),
}

impl View for AudioSource {
    type V = SourceModel;

    open spec fn view(&self) -> SourceModel {
        match self {
            AudioSource::InputAudio { data, format } => SourceModel::InputAudio {
                data: data@,
                format: format@,
            },
            AudioSource::AudioUrl(url) => SourceModel::AudioUrl(url@),
        }
    }
}

/// What a part of a user's message asks for.
pub enum PartModel {
    /// A text, which is not transcribed.
    Text,
    /// Audio to transcribe.
    Audio(SourceModel),
    /// Something else.
    Unsupported,
}

impl View for ContentPart {
    type V = PartModel;

    open spec fn view(&self) -> PartModel {
        match self {
            ContentPart::Text { .. } => PartModel::Text,
            ContentPart::InputAudio { input_audio } => PartModel::Audio(
                SourceModel::InputAudio { data: input_audio.data@, format: input_audio.format@ },
            ),
            ContentPart::AudioUrl { audio_url } => PartModel::Audio(
                SourceModel::AudioUrl(audio_url.url@),
            ),
            ContentPart::Unsupported => PartModel::Unsupported,
        }
    }
}

/// The parts of a message that count: those of a user's message that has parts.
pub open spec fn message_parts(message: ChatMessage) -> Seq<PartModel> {
    match message.content {
        MessageContent::Parts(parts) if message.role@ == "user"@ => parts@.map_values(
            |part: ContentPart| part@,
        ),
        _ => Seq::empty(),
    }
}

/// The parts that count of messages, in their order.
pub open spec fn request_parts(messages: Seq<ChatMessage>) -> Seq<PartModel>
    decreases messages.len(),
{
    if messages.len() == 0 {
        Seq::empty()
    } else {
        request_parts(messages.drop_last()) + message_parts(messages.last())
    }
}

/// The audio among parts, in their order.
pub open spec fn audio_parts(parts: Seq<PartModel>) -> Seq<SourceModel>
    decreases parts.len(),
{
    if parts.len() == 0 {
        Seq::empty()
    } else {
        match parts.last() {
            PartModel::Audio(source) => audio_parts(parts.drop_last()).push(source),
            _ => audio_parts(parts.drop_last()),
        }
    }
}

/// Whether some part is of an unknown sort.
pub open spec fn has_unsupported(parts: Seq<PartModel>) -> bool {
    exists|i: int| 0 <= i < parts.len() && #[trigger] parts[i] is Unsupported
}

/// Why parts are refused, by the first that is to blame: a part of an unknown
/// sort, or a second audio part.
pub open spec fn first_refusal(parts: Seq<PartModel>) -> Option<Seq<char>>
    decreases parts.len(),
{
    if parts.len() == 0 {
        None
    } else {
        match first_refusal(parts.drop_last()) {
            Some(reason) => Some(reason),
            None => match parts.last() {
                PartModel::Unsupported => Some("unsupported user content part"@),
                PartModel::Audio(_) if audio_parts(parts.drop_last()).len() > 0 => Some(
                    "exactly one audio input is required"@,
                ),
                _ => None,
            },
        }
    }
}

/// The audio that a request asks to transcribe and whether the answer is to be
/// streamed, or the refusal: the request has to name the model, and its users'
/// messages hold exactly one audio part and no part of an unknown sort.
pub open spec fn extracted(request: ChatCompletionRequest, model: Seq<char>) -> Result<
    (SourceModel, bool),
    crate::server::app::ApiErrorModel,
> {
    let parts = request_parts(request.messages@);
    if request.model@ != model {
        Err(crate::server::app::model_not_found_answer(request.model@))
    } else {
        match first_refusal(parts) {
            Some(reason) => Err(crate::server::app::invalid_messages_answer(reason)),
            None => if audio_parts(parts).len() == 0 {
                Err(
                    crate::server::app::invalid_messages_answer(
                        "exactly one audio input is required"@,
                    ),
                )
            } else {
                Ok((audio_parts(parts)[0], request.stream))
            },
        }
    }
}

/// Parts that are refused are refused by any parts that go on from them.
proof fn lemma_refusal_stays(parts: Seq<PartModel>, more: Seq<PartModel>)
    ensures
        first_refusal(parts) matches Some(reason) ==> first_refusal(parts + more) == Some(reason),
    decreases more.len(),
{
    if more.len() == 0 {
        assert(parts + more =~= parts);
    } else {
        lemma_refusal_stays(parts, more.drop_last());
        assert((parts + more).drop_last() =~= parts + more.drop_last());
    }
}

/// The parts of the first messages come first among the parts of all.
proof fn lemma_request_parts_prefix(messages: Seq<ChatMessage>, i: int)
    requires
        0 <= i <= messages.len(),
    ensures
        exists|more: Seq<PartModel>|
            request_parts(messages) == #[trigger] (request_parts(messages.take(i)) + more),
    decreases messages.len() - i,
{
    if i == messages.len() {
        assert(messages.take(i) =~= messages);
        assert(request_parts(messages) =~= request_parts(messages.take(i)) + Seq::empty());
    } else {
        lemma_request_parts_prefix(messages, i + 1);
        let more = choose|more: Seq<PartModel>|
            request_parts(messages) == #[trigger] (request_parts(messages.take(i + 1)) + more);
        assert(messages.take(i + 1).drop_last() =~= messages.take(i));
        assert(request_parts(messages) =~= request_parts(messages.take(i)) + (message_parts(
            messages[i],
        ) + more));
    }
}

/// Finds the audio that a request asks to transcribe, and tells whether the
/// answer is to be streamed.
pub fn extract_audio(request: ChatCompletionRequest, model: &str) -> (r: Result<
    (AudioSource, bool),
    ApiError,
>)
    ensures
        match r {
            Ok(found) => extracted(request, model@) == Ok::<
                (SourceModel, bool),
                crate::server::app::ApiErrorModel,
            >((found.0@, found.1)),
            Err(e) => extracted(request, model@) == Err::<
                (SourceModel, bool),
                crate::server::app::ApiErrorModel,
            >(e@),
        },
{
    if !text::text_eq(request.model.as_str(), model) {
        return Err(ApiError::model_not_found(request.model.as_str()));
    }
    let mut audio: Option<AudioSource> = None;
    let stream = request.stream;
    let ghost messages = request.messages@;
    let ghost mut seen: Seq<PartModel> = Seq::empty();
    assert(messages.take(0) =~= Seq::empty());
    for message in outer: request.messages
        invariant
            outer.seq() == messages,
            messages == request.messages@,
            request.model@ == model@,
            seen == request_parts(messages.take(outer.index())),
            first_refusal(seen) is None,
            audio matches Some(source) ==> audio_parts(seen) == seq![source@],
            audio is None ==> audio_parts(seen).len() == 0,
    {
        let ghost before = seen;
        let ghost at = outer.index();
        proof {
            assert(messages.take(at + 1).drop_last() =~= messages.take(at));
            assert(messages[at] == message);
            lemma_request_parts_prefix(messages, at + 1);
            assert(before + Seq::empty() =~= before);
        }
        if text::text_eq(message.role.as_str(), "user") {
            if let MessageContent::Parts(parts) = message.content {
                let ghost models = parts@.map_values(|part: ContentPart| part@);
                assert(models == message_parts(message));
                assert(models.take(0) =~= Seq::empty());
                for part in inner: parts
                    invariant
                        inner.seq() == parts@,
                        models == parts@.map_values(|part: ContentPart| part@),
                        request.model@ == model@,
                        messages == request.messages@,
                        exists|more: Seq<PartModel>|
                            request_parts(messages) == #[trigger] (before + models + more),
                        seen == before + models.take(inner.index()),
                        first_refusal(seen) is None,
                        audio matches Some(source) ==> audio_parts(seen) == seq![source@],
                        audio is None ==> audio_parts(seen).len() == 0,
                {
                    let ghost now = inner.index();
                    let ghost next = seen.push(models[now]);
                    proof {
                        assert(models.take(now + 1) =~= models.take(now).push(models[now]));
                        assert(before + models.take(now + 1) =~= next);
                        assert(next.drop_last() =~= seen);
                        assert(models[now] == part@);
                        let more = choose|more: Seq<PartModel>|
                            request_parts(messages) == #[trigger] (before + models + more);
                        assert(request_parts(messages) =~= next + (models.skip(now + 1) + more));
                        lemma_refusal_stays(next, models.skip(now + 1) + more);
                    }
                    let candidate = match part {
                        ContentPart::Text { .. } => None,
                        ContentPart::InputAudio { input_audio } => Some(
                            AudioSource::InputAudio {
                                data: input_audio.data,
                                format: input_audio.format,
                            },
                        ),
                        ContentPart::AudioUrl { audio_url } => Some(
                            AudioSource::AudioUrl(audio_url.url),
                        ),
                        ContentPart::Unsupported => {
                            return Err(
                                ApiError::invalid_request(
                                    "unsupported user content part",
                                    Some("messages"),
                                ),
                            );
                        },
                    };
                    if let Some(found) = candidate {
                        if audio.is_some() {
                            return Err(
                                ApiError::invalid_request(
                                    "exactly one audio input is required",
                                    Some("messages"),
                                ),
                            );
                        }
                        assert(audio_parts(next) =~= seq![found@]);
                        audio = Some(found);
                    }
                    proof {
                        seen = next;
                    }
                }
                assert(models.take(models.len() as int) =~= models);
            }
        }
        proof {
            if message_parts(message).len() == 0 {
                assert(before + message_parts(message) =~= before);
            }
        }
    }
    assert(messages.take(messages.len() as int) =~= messages);
    match audio {
        Some(found) => Ok((found, stream)),
        None => Err(
            ApiError::invalid_request("exactly one audio input is required", Some("messages")),
        ),
    }
}

/// The first refusal comes of a part of an unknown sort or of a second audio part.
proof fn lemma_refusal_cause(parts: Seq<PartModel>)
    ensures
        first_refusal(parts) is None <==> !has_unsupported(parts) && audio_parts(parts).len() <= 1,
    decreases parts.len(),
{
    if parts.len() > 0 {
        let before = parts.drop_last();
        lemma_refusal_cause(before);
        if has_unsupported(before) {
            let i = choose|i: int| 0 <= i < before.len() && #[trigger] before[i] is Unsupported;
            assert(parts[i] is Unsupported);
        }
        if has_unsupported(parts) && !(parts.last() is Unsupported) {
            let i = choose|i: int| 0 <= i < parts.len() && #[trigger] parts[i] is Unsupported;
            assert(before[i] is Unsupported);
        }
        if parts.last() is Unsupported {
            assert(parts[parts.len() - 1] is Unsupported);
        }
    }
}

/// A request is accepted if and only if it names the model and its users'
/// messages hold exactly one audio part and no part of an unknown sort; the
/// audio is then that of the one part.
pub proof fn law_exactly_one_audio_is_accepted(request: ChatCompletionRequest, model: Seq<char>)
    ensures
        extracted(request, model) is Ok <==> {
            let parts = request_parts(request.messages@);
            request.model@ == model && !has_unsupported(parts) && audio_parts(parts).len() == 1
        },
        extracted(request, model) matches Ok(found) ==> audio_parts(
            request_parts(request.messages@),
        ) == seq![found.0] && found.1 == request.stream,
{
    let parts = request_parts(request.messages@);
    lemma_refusal_cause(parts);
    if extracted(request, model) is Ok {
        assert(audio_parts(parts) =~= seq![audio_parts(parts)[0]]);
    }
}

/// Messages of other roles, and messages that are plain texts, change nothing:
/// the request is answered as without them.
pub proof fn law_other_messages_change_nothing(
    request: ChatCompletionRequest,
    without: ChatCompletionRequest,
    at: int,
    model: Seq<char>,
)
    requires
        0 <= at < request.messages@.len(),
        request.messages@[at].role@ != "user"@ || request.messages@[at].content is Text,
        without.messages@ == request.messages@.remove(at),
        without.model@ == request.model@,
        without.stream == request.stream,
    ensures
        extracted(without, model) == extracted(request, model),
{
    lemma_parts_without(request.messages@, at);
}

proof fn lemma_parts_without(messages: Seq<ChatMessage>, at: int)
    requires
        0 <= at < messages.len(),
        message_parts(messages[at]).len() == 0,
    ensures
        request_parts(messages.remove(at)) == request_parts(messages),
    decreases messages.len(),
{
    let shorter = messages.remove(at);
    if at == messages.len() - 1 {
        assert(shorter =~= messages.drop_last());
        assert(request_parts(messages) =~= request_parts(messages.drop_last()));
    } else {
        lemma_parts_without(messages.drop_last(), at);
        assert(shorter.drop_last() =~= messages.drop_last().remove(at));
        assert(shorter.last() == messages.last());
    }
}

/// Whether a message at a place is a user's and has a part at a place.
pub open spec fn has_part(messages: Seq<ChatMessage>, i: int, j: int) -> bool {
    &&& 0 <= i < messages.len()
    &&& messages[i].role@ == "user"@
    &&& messages[i].content matches MessageContent::Parts(parts) && 0 <= j < parts@.len()
}

/// The part of a message.
pub open spec fn part_at(messages: Seq<ChatMessage>, i: int, j: int) -> ContentPart {
    messages[i].content->Parts_0@[j]
}

/// Where the part of a message stands among the parts of all.
pub open spec fn place_of(messages: Seq<ChatMessage>, i: int, j: int) -> int {
    request_parts(messages.take(i)).len() + j
}

/// The parts of messages stand among the parts of all, each at its place, and those
/// of earlier messages before those of later ones.
proof fn lemma_place(messages: Seq<ChatMessage>, i: int, j: int)
    requires
        has_part(messages, i, j),
    ensures
        0 <= place_of(messages, i, j) < request_parts(messages.take(i + 1)).len(),
        place_of(messages, i, j) < request_parts(messages).len(),
        request_parts(messages)[place_of(messages, i, j)] == part_at(messages, i, j)@,
{
    let upto = messages.take(i + 1);
    assert(upto.drop_last() =~= messages.take(i));
    assert(upto.last() == messages[i]);
    lemma_request_parts_prefix(messages, i + 1);
    let more = choose|more: Seq<PartModel>|
        request_parts(messages) == #[trigger] (request_parts(upto) + more);
    assert(request_parts(upto)[place_of(messages, i, j)] == message_parts(messages[i])[j]);
}

/// Every part among the parts of all stands at the place of a part of a message.
proof fn lemma_origin(messages: Seq<ChatMessage>, p: int) -> (found: (int, int))
    requires
        0 <= p < request_parts(messages).len(),
    ensures
        has_part(messages, found.0, found.1),
        place_of(messages, found.0, found.1) == p,
    decreases messages.len(),
{
    let before = messages.drop_last();
    let n = messages.len() - 1;
    assert(messages.take(n) =~= before);
    if p < request_parts(before).len() {
        let found = lemma_origin(before, p);
        assert(before.take(found.0) =~= messages.take(found.0));
        found
    } else {
        (n, p - request_parts(before).len())
    }
}

/// Different parts of messages stand at different places.
proof fn lemma_places_apart(messages: Seq<ChatMessage>, i: int, j: int, k: int, l: int)
    requires
        has_part(messages, i, j),
        has_part(messages, k, l),
        (i, j) != (k, l),
    ensures
        place_of(messages, i, j) != place_of(messages, k, l),
{
    if i < k {
        lemma_earlier_place(messages, i, j, k);
    } else if k < i {
        lemma_earlier_place(messages, k, l, i);
    }
}

proof fn lemma_earlier_place(messages: Seq<ChatMessage>, i: int, j: int, k: int)
    requires
        has_part(messages, i, j),
        i < k < messages.len(),
    ensures
        place_of(messages, i, j) < request_parts(messages.take(k)).len(),
{
    let upto = messages.take(k);
    assert(upto.take(i) =~= messages.take(i));
    lemma_place(upto, i, j);
}

/// Parts of which one alone is no text, and is audio, are accepted with that audio.
proof fn lemma_one_audio(parts: Seq<PartModel>, p: int, source: SourceModel)
    requires
        0 <= p < parts.len(),
        parts[p] == PartModel::Audio(source),
        forall|q: int| 0 <= q < parts.len() && q != p ==> #[trigger] parts[q] is Text,
    ensures
        audio_parts(parts) == seq![source],
        first_refusal(parts) is None,
    decreases parts.len(),
{
    let before = parts.drop_last();
    if p == parts.len() - 1 {
        assert forall|q: int| 0 <= q < before.len() implies #[trigger] before[q] is Text by {
            assert(parts[q] is Text);
        }
        lemma_no_audio(before);
        assert(audio_parts(parts) =~= seq![source]);
    } else {
        assert(parts[parts.len() - 1] is Text);
        assert forall|q: int| 0 <= q < before.len() && q != p implies #[trigger] before[q]
            is Text by {
            assert(parts[q] is Text);
        }
        lemma_one_audio(before, p, source);
    }
}

proof fn lemma_no_audio(parts: Seq<PartModel>)
    requires
        forall|q: int| 0 <= q < parts.len() ==> #[trigger] parts[q] is Text,
    ensures
        audio_parts(parts).len() == 0,
        first_refusal(parts) is None,
    decreases parts.len(),
{
    if parts.len() > 0 {
        assert(parts[parts.len() - 1] is Text);
        assert forall|q: int| 0 <= q < parts.drop_last().len() implies #[trigger] parts.drop_last()[q]
            is Text by {
            assert(parts[q] is Text);
        }
        lemma_no_audio(parts.drop_last());
    }
}

/// Parts with audio at two places hold two pieces of audio.
proof fn lemma_two_audios(parts: Seq<PartModel>, p: int, q: int)
    requires
        0 <= p < q < parts.len(),
        parts[p] is Audio,
        parts[q] is Audio,
    ensures
        audio_parts(parts).len() >= 2,
    decreases parts.len(),
{
    let before = parts.drop_last();
    if q == parts.len() - 1 {
        lemma_some_audio(before, p);
    } else {
        lemma_two_audios(before, p, q);
    }
}

proof fn lemma_some_audio(parts: Seq<PartModel>, p: int)
    requires
        0 <= p < parts.len(),
        parts[p] is Audio,
    ensures
        audio_parts(parts).len() >= 1,
    decreases parts.len(),
{
    if p < parts.len() - 1 {
        lemma_some_audio(parts.drop_last(), p);
    }
}

/// A request for the model whose users' messages hold one audio part, and besides it
/// nothing but texts, asks for the audio of that part, in whichever message and at
/// whichever place it stands: the data and the format, or the URL, as they are. It
/// is streamed if and only if the request says so.
pub proof fn law_the_one_audio_part_is_found(
    request: ChatCompletionRequest,
    model: Seq<char>,
    i: int,
    j: int,
)
    requires
        request.model@ == model,
        has_part(request.messages@, i, j),
        part_at(request.messages@, i, j) is InputAudio || part_at(request.messages@, i, j)
            is AudioUrl,
        forall|k: int, l: int|
            has_part(request.messages@, k, l) && (k, l) != (i, j) ==> #[trigger] part_at(
                request.messages@,
                k,
                l,
            ) is Text,
    ensures
        part_at(request.messages@, i, j) matches ContentPart::InputAudio { input_audio }
            ==> extracted(request, model) == Ok::<
            (SourceModel, bool),
            crate::server::app::ApiErrorModel,
        >(
            (
                SourceModel::InputAudio {
                    data: input_audio.data@,
                    format: input_audio.format@,
                },
                request.stream,
            ),
        ),
        part_at(request.messages@, i, j) matches ContentPart::AudioUrl { audio_url } ==> extracted(
            request,
            model,
        ) == Ok::<(SourceModel, bool), crate::server::app::ApiErrorModel>(
            (SourceModel::AudioUrl(audio_url.url@), request.stream),
        ),
{
    let messages = request.messages@;
    let parts = request_parts(messages);
    let p = place_of(messages, i, j);
    lemma_place(messages, i, j);
    assert forall|q: int| 0 <= q < parts.len() && q != p implies #[trigger] parts[q] is Text by {
        let (k, l) = lemma_origin(messages, q);
        lemma_place(messages, k, l);
        assert(part_at(messages, k, l) is Text);
    }
    lemma_one_audio(parts, p, parts[p]->Audio_0);
}

/// A request whose users' messages hold two audio parts, a part of an unknown sort
/// or nothing but texts is refused, and so is one for another model.
pub proof fn law_other_requests_are_refused(
    request: ChatCompletionRequest,
    model: Seq<char>,
    i: int,
    j: int,
    k: int,
    l: int,
)
    ensures
        request.model@ != model ==> (extracted(request, model) matches Err(error) && error.status
            == 404),
        has_part(request.messages@, i, j) && part_at(request.messages@, i, j) is Unsupported
            ==> extracted(request, model) is Err,
        has_part(request.messages@, i, j) && has_part(request.messages@, k, l) && (i, j) != (k, l)
            && (part_at(request.messages@, i, j) is InputAudio || part_at(
            request.messages@,
            i,
            j,
        ) is AudioUrl) && (part_at(request.messages@, k, l) is InputAudio || part_at(
            request.messages@,
            k,
            l,
        ) is AudioUrl) ==> extracted(request, model) is Err,
        (forall|a: int, b: int|
            has_part(request.messages@, a, b) ==> #[trigger] part_at(request.messages@, a, b)
                is Text) ==> extracted(request, model) is Err,
{
    let messages = request.messages@;
    let parts = request_parts(messages);
    lemma_refusal_cause(parts);
    if has_part(messages, i, j) {
        lemma_place(messages, i, j);
        if part_at(messages, i, j) is Unsupported {
            assert(parts[place_of(messages, i, j)] is Unsupported);
        }
        if has_part(messages, k, l) && (i, j) != (k, l) {
            lemma_place(messages, k, l);
            lemma_places_apart(messages, i, j, k, l);
            let p = place_of(messages, i, j);
            let q = place_of(messages, k, l);
            if parts[p] is Audio && parts[q] is Audio {
                if p < q {
                    lemma_two_audios(parts, p, q);
                } else {
                    lemma_two_audios(parts, q, p);
                }
            }
        }
    }
    if forall|a: int, b: int|
        has_part(messages, a, b) ==> #[trigger] part_at(messages, a, b) is Text {
        assert forall|q: int| 0 <= q < parts.len() implies #[trigger] parts[q] is Text by {
            let (a, b) = lemma_origin(messages, q);
            lemma_place(messages, a, b);
            assert(part_at(messages, a, b) is Text);
        }
        lemma_no_audio(parts);
    }
}

/// Parts are refused by the first that is to blame: one of an unknown sort, or a second
/// audio part, behind parts that are not to blame, whatever follows.
pub proof fn law_the_first_fault_is_named(
    before: Seq<PartModel>,
    fault: PartModel,
    after: Seq<PartModel>,
)
    requires
        !has_unsupported(before),
        audio_parts(before).len() <= 1,
    ensures
        fault is Unsupported ==> first_refusal(before.push(fault) + after) == Some(
            "unsupported user content part"@,
        ),
        fault is Audio && audio_parts(before).len() == 1 ==> first_refusal(
            before.push(fault) + after,
        ) == Some("exactly one audio input is required"@),
{
    lemma_refusal_cause(before);
    let upto = before.push(fault);
    assert(upto.drop_last() =~= before);
    lemma_refusal_stays(upto, after);
}

/// The parts other than texts, in their order.
pub open spec fn parts_but_texts(parts: Seq<PartModel>) -> Seq<PartModel>
    decreases parts.len(),
{
    if parts.len() == 0 {
        Seq::empty()
    } else if parts.last() is Text {
        parts_but_texts(parts.drop_last())
    } else {
        parts_but_texts(parts.drop_last()).push(parts.last())
    }
}

/// Parts are refused, and their audio is found, by those other than texts.
proof fn lemma_texts_do_not_count(parts: Seq<PartModel>)
    ensures
        first_refusal(parts_but_texts(parts)) == first_refusal(parts),
        audio_parts(parts_but_texts(parts)) == audio_parts(parts),
    decreases parts.len(),
{
    if parts.len() > 0 {
        let before = parts_but_texts(parts.drop_last());
        lemma_texts_do_not_count(parts.drop_last());
        assert(before.push(parts.last()).drop_last() =~= before);
    }
}

/// What a request asks for depends on the model that it names, on whether it asks
/// for a stream, and on the parts of its users' messages other than texts: two
/// requests that agree in these are answered alike, whatever texts they carry and
/// wherever these stand.
pub proof fn law_texts_do_not_matter(
    one: ChatCompletionRequest,
    other: ChatCompletionRequest,
    model: Seq<char>,
)
    requires
        one.model@ == other.model@,
        one.stream == other.stream,
        parts_but_texts(request_parts(one.messages@)) == parts_but_texts(
            request_parts(other.messages@),
        ),
    ensures
        extracted(one, model) == extracted(other, model),
{
    lemma_texts_do_not_count(request_parts(one.messages@));
    lemma_texts_do_not_count(request_parts(other.messages@));
}

/// Texts among the parts change nothing: the parts are accepted or refused, and
/// their audio is, as without them.
pub proof fn law_text_parts_change_nothing(parts: Seq<PartModel>, at: int)
    requires
        0 <= at < parts.len(),
        parts[at] is Text,
    ensures
        first_refusal(parts.remove(at)) == first_refusal(parts),
        audio_parts(parts.remove(at)) == audio_parts(parts),
    decreases parts.len(),
{
    let shorter = parts.remove(at);
    if at == parts.len() - 1 {
        assert(shorter =~= parts.drop_last());
    } else {
        law_text_parts_change_nothing(parts.drop_last(), at);
        assert(shorter.drop_last() =~= parts.drop_last().remove(at));
        assert(shorter.last() == parts.last());
    }
}

/// A source is known by the whole text that it was given as: the data and the format
/// of input audio, and the URL of other audio.
pub proof fn law_sources_are_known_by_their_text(source: AudioSource, part: ContentPart)
    ensures
        source matches AudioSource::InputAudio { data, format } ==> source@
            == (SourceModel::InputAudio { data: data@, format: format@ }),
        source matches AudioSource::AudioUrl(url) ==> source@ == SourceModel::AudioUrl(url@),
        part matches ContentPart::InputAudio { input_audio } ==> part@ == PartModel::Audio(
            SourceModel::InputAudio { data: input_audio.data@, format: input_audio.format@ },
        ),
        part matches ContentPart::AudioUrl { audio_url } ==> part@ == PartModel::Audio(
            SourceModel::AudioUrl(audio_url.url@),
        ),
        part is Text ==> part@ == PartModel::Text,
        part is Unsupported ==> part@ == PartModel::Unsupported,
{
}

} // verus!
