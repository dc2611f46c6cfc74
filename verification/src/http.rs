//! The packets that move through the relay and the decisions made on them:
//! which queued packets a websocket client is sent, what is queued from a
//! DeepL answer, what is asked of DeepL, and what the HTTP caller is answered.
use vstd::prelude::*;

verus! {

/// A piece of text to relay, posted to `/queue` or produced from a translation.
#[derive(Clone, Debug)]
pub struct QueuePacket {
    pub language: String,
    pub original_text: Option<String>,
    pub translated_text: String,
    /// Set when the packet came from a websocket client itself: it is not sent
    /// back to the clients, so that nothing loops.
    pub prevent_ws_forward: Option<bool>,
}

/// A request posted to `/translate`.
#[derive(Clone, Debug)]
pub struct TranslatePacket {
    pub source_lang: String,
    pub target_lang: String,
    pub text: Vec<String>,
}

/// One translation in DeepL's answer.
#[derive(Clone, Debug)]
pub struct DeeplResponseTranslation {
    pub text: String,
}

/// DeepL's answer: one translation per text sent, in the same order.
#[derive(Clone, Debug)]
pub struct DeeplResponse {
    pub translations: Vec<DeeplResponseTranslation>,
}

/// The body sent to DeepL, field by field (in the order of their names).
#[derive(Clone, Debug)]
pub struct DeeplRequest {
    pub preserve_formatting: bool,
    pub source_lang: String,
    pub split_sentences: String,
    pub target_lang: String,
    pub text: Vec<String>,
}

/// What to do with the next result of the queue for one websocket client.
pub enum ForwardAction {
    /// The client is gone: stop serving it.
    Stop,
    /// Nothing to send for this result.
    Skip,
    /// Send this text to the client.
    Send(String),
}

/// Whether a queued packet is meant for the websocket clients.
pub open spec fn is_forwarded(packet: QueuePacket) -> bool {
    packet.prevent_ws_forward != Some(true)
}

/// A packet is sent to the websocket clients unless it is marked
/// `prevent_ws_forward: Some(true)`; unmarked packets and `Some(false)` are sent.
pub proof fn lemma_forwarded_packets(packet: QueuePacket)
    ensures
        is_forwarded(packet) <==> !(packet.prevent_ws_forward == Some(true)),
        packet.prevent_ws_forward is None ==> is_forwarded(packet),
        packet.prevent_ws_forward == Some(false) ==> is_forwarded(packet),
{
}

/// The view of an optional text.
pub open spec fn opt_text(text: Option<String>) -> Option<Seq<char>> {
    match text {
        Some(s) => Some(s@),
        None => None,
    }
}

/// The decision for one websocket client on one result of the queue: a dead
/// client is dropped, a failed receive is skipped, a packet that must not be
/// forwarded is skipped, and any other packet has its translated text sent.
pub fn forward_action(client_alive: bool, received: Option<&QueuePacket>) -> (action: ForwardAction)
    ensures
        !client_alive ==> action is Stop,
        client_alive && received is None ==> action is Skip,
        client_alive && received is Some && !is_forwarded(*received->0) ==> action is Skip,
        client_alive && received is Some && is_forwarded(*received->0) ==> (action matches ForwardAction::Send(t)
            && t@ == received->0.translated_text@),
        action is Send ==> client_alive && received is Some && received->0.prevent_ws_forward
            != Some(true),
{
    if !client_alive {
        return ForwardAction::Stop;
    }
    match received {
        None => ForwardAction::Skip,
        Some(packet) => {
            match packet.prevent_ws_forward {
                Some(prevent) => {
                    if prevent {
                        return ForwardAction::Skip;
                    }
                },
                None => {},
            }
            ForwardAction::Send(packet.translated_text.clone())
        },
    }
}

/// `queued` is the packet queued for translation `translation` at position `i`
/// of DeepL's answer to `request`.
pub open spec fn is_translation_packet(
    queued: QueuePacket,
    request: TranslatePacket,
    translation: Seq<char>,
    i: int,
) -> bool {
    &&& queued.language@ == request.target_lang@
    &&& queued.translated_text@ == translation
    &&& queued.prevent_ws_forward == Some(false)
    &&& opt_text(queued.original_text) == if 0 <= i < request.text@.len() {
        Some(request.text@[i]@)
    } else {
        None
    }
}

/// A packet queued for a translation is in the request's target language
/// (whatever its position), carries the translation, is meant for the websocket
/// clients, and is paired with the request's text at the same position when
/// there is one and with no text otherwise.
pub proof fn lemma_translation_packet_fields(
    queued: QueuePacket,
    request: TranslatePacket,
    translation: Seq<char>,
    i: int,
)
    requires
        is_translation_packet(queued, request, translation, i),
    ensures
        queued.language@ == request.target_lang@,
        queued.translated_text@ == translation,
        queued.prevent_ws_forward == Some(false),
        0 <= i < request.text@.len() ==> (queued.original_text matches Some(t) && t@
            == request.text@[i]@),
        !(0 <= i < request.text@.len()) ==> queued.original_text is None,
{
}

/// The packets queued from DeepL's answer: one per translation, in order, in the
/// target language, each paired with the text at the same position of the
/// request (if there is one), and all of them meant for the websocket clients.
pub fn translation_packets(request: &TranslatePacket, response: &DeeplResponse) -> (packets: Vec<QueuePacket>)
    ensures
        packets@.len() == response.translations@.len(),
        forall|i: int|
            0 <= i < packets@.len() ==> (#[trigger] packets@[i]).language@ == request.target_lang@
                && packets@[i].translated_text@ == response.translations@[i].text@
                && packets@[i].prevent_ws_forward == Some(false),
        forall|i: int|
            0 <= i < packets@.len() ==> is_translation_packet(
                #[trigger] packets@[i],
                *request,
                response.translations@[i].text@,
                i,
            ),
{
    let mut packets: Vec<QueuePacket> = Vec::new();
    let n: usize = response.translations.len();
    for i in 0..n
        invariant
            n == response.translations@.len(),
            packets@.len() == i,
            forall|j: int|
                0 <= j < i ==> is_translation_packet(
                    #[trigger] packets@[j],
                    *request,
                    response.translations@[j].text@,
                    j,
                ),
    {
        let original_text = if i < request.text.len() {
            Some(request.text[i].clone())
        } else {
            None
        };
        let packet = QueuePacket {
            language: request.target_lang.clone(),
            original_text,
            translated_text: response.translations[i].text.clone(),
            prevent_ws_forward: Some(false),
        };
        packets.push(packet);
    }
    packets
}

/// Every packet queued from a DeepL answer reaches every live websocket client,
/// which is sent exactly the translation.
pub proof fn lemma_translations_reach_clients(
    queued: QueuePacket,
    request: TranslatePacket,
    translation: Seq<char>,
    i: int,
)
    requires
        is_translation_packet(queued, request, translation, i),
    ensures
        is_forwarded(queued),
        queued.translated_text@ == translation,
{
}

/// DeepL's endpoint for keys of the free plan.
pub open spec fn free_endpoint() -> Seq<char> {
    "https://api-free.deepl.com/v2/translate"@
}

/// DeepL's endpoint for keys of the paid plan.
pub open spec fn pro_endpoint() -> Seq<char> {
    "https://api.deepl.com/v2/translate"@
}

/// Keys of the free plan end with `:fx`.
pub open spec fn is_free_key(key: Seq<char>) -> bool {
    &&& key.len() >= 3
    &&& key.subrange(key.len() - 3, key.len() as int) == ":fx"@
}

/// A key is a free-plan key exactly when its last three characters are `:fx`,
/// whatever its length; the two plans have different endpoints.
pub proof fn lemma_free_keys(key: Seq<char>)
    ensures
        is_free_key(key) <==> (key.len() >= 3 && key[key.len() - 3] == ':' && key[key.len() - 2]
            == 'f' && key[key.len() - 1] == 'x'),
        free_endpoint() == "https://api-free.deepl.com/v2/translate"@,
        pro_endpoint() == "https://api.deepl.com/v2/translate"@,
{
    reveal_strlit(":fx");
    if key.len() >= 3 {
        let t = key.subrange(key.len() - 3, key.len() as int);
        if t == ":fx"@ {
            assert(t[0] == key[key.len() - 3] && t[1] == key[key.len() - 2] && t[2] == key[key.len() - 1]);
        }
        if key[key.len() - 3] == ':' && key[key.len() - 2] == 'f' && key[key.len() - 1] == 'x' {
            assert(t =~= ":fx"@);
        }
    }
}

/// The endpoint that a key is sent to.
pub fn deepl_endpoint(key: &str) -> (endpoint: &'static str)
    ensures
        endpoint@ == if is_free_key(key@) {
            free_endpoint()
        } else {
            pro_endpoint()
        },
        endpoint@ == if key@.len() >= 3 && key@[key@.len() - 3] == ':' && key@[key@.len() - 2]
            == 'f' && key@[key@.len() - 1] == 'x' {
            "https://api-free.deepl.com/v2/translate"@
        } else {
            "https://api.deepl.com/v2/translate"@
        },
{
    proof {
        reveal_strlit(":fx");
    }
    let n: usize = key.unicode_len();
    let free: bool = n >= 3 && key.get_char(n - 3) == ':' && key.get_char(n - 2) == 'f' && key.get_char(
        n - 1,
    ) == 'x';
    proof {
        let tail = key@.subrange(n - 3, n as int);
        if free {
            assert(tail =~= ":fx"@);
        } else if n >= 3 && tail == ":fx"@ {
            assert(tail[0] == key@[n - 3]);
            assert(tail[1] == key@[n - 2]);
            assert(tail[2] == key@[n - 1]);
        }
    }
    if free {
        "https://api-free.deepl.com/v2/translate"
    } else {
        "https://api.deepl.com/v2/translate"
    }
}

/// The `Authorization` header that carries a key.
pub fn deepl_auth_header(key: &str) -> (header: String)
    ensures
        header@ == "DeepL-Auth-Key "@ + key@,
{
    let mut header = String::from_str("DeepL-Auth-Key ");
    header.append(key);
    header
}

/// The value of `split_sentences` sent to DeepL.
pub open spec fn split_sentences_mode() -> Seq<char> {
    "nonewlines"@
}

/// The body asked of DeepL for a translation request: the request's languages
/// and texts, sentences split only at punctuation, formatting preserved.
pub fn deepl_request(request: &TranslatePacket) -> (body: DeeplRequest)
    ensures
        body.preserve_formatting,
        body.source_lang@ == request.source_lang@,
        body.target_lang@ == request.target_lang@,
        body.split_sentences@ == split_sentences_mode(),
        body.split_sentences@ == "nonewlines"@,
        body.text@ == request.text@,
{
    DeeplRequest {
        preserve_formatting: true,
        source_lang: request.source_lang.clone(),
        split_sentences: String::from_str("nonewlines"),
        target_lang: request.target_lang.clone(),
        text: request.text.clone(),
    }
}

/// The HTTP status and body answered to `/translate`: DeepL's raw answer with
/// status 200 on success, an empty body with status 500 on any failure.
pub fn translate_reply<E>(outcome: Result<String, E>) -> (reply: (u16, String))
    ensures
        match outcome {
            Ok(body) => reply.0 == 200 && reply.1@ == body@,
            Err(_) => reply.0 == 500 && reply.1@ == Seq::<char>::empty(),
        },
{
    match outcome {
        Ok(body) => (200, body),
        Err(_) => (500, String::new()),
    }
}

} // verus!
