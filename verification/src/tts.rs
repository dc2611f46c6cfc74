//! Speech synthesis decisions: which engine speaks a language, how the output
//! of the piper process is judged, and the VOICEVOX query address.
use vstd::prelude::*;
use vstd::utf8::valid_utf8;
use vstd::string::StringSliceAdditionalSpecFns;
use crate::query::{encode_query_value, lemma_query_value_round_trip, only_query_safe, percent_decode, query_value};
use vstd::utf8::{decode_utf8, encode_utf8};

verus! {

#[verifier::external_type_specification]
#[verifier::external_body]
pub struct ExUrlParseError(url::ParseError);

#[verifier::external_type_specification]
#[verifier::external_body]
pub struct ExUtf8Error(core::str::Utf8Error);

/// The speech engines.
#[derive(Clone, Copy, Debug, PartialEq, Eq)]
pub enum TtsEngine {
    /// The local piper voice (Spanish).
    Piper,
    /// The VOICEVOX server (Japanese, and every other language).
    Voicevox,
}

/// Why speech could not be produced.
#[derive(Debug)]
pub enum TtsError {
    /// The engine produced no audio.
    EmptyAudio,
    /// The engine exited with a failure code; its error output, as text.
    Failed { code: i32, stderr: String },
    /// The engine was killed by a signal.
    Terminated,
    /// The query address could not be parsed.
    BadUrl(url::ParseError),
}

/// The engine that speaks a language.
pub open spec fn engine_for(language: Seq<char>) -> TtsEngine {
    if language == "es"@ {
        TtsEngine::Piper
    } else {
        TtsEngine::Voicevox
    }
}

/// Piper speaks exactly the language written `es` (the two characters `e`, `s`);
/// every other language, `cs`, `ES` or `es-MX` among them, goes to VOICEVOX.
pub proof fn lemma_only_spanish_goes_to_piper(language: Seq<char>)
    ensures
        engine_for(language) == TtsEngine::Piper <==> (language.len() == 2 && language[0] == 'e'
            && language[1] == 's'),
        engine_for(language) != TtsEngine::Piper ==> engine_for(language) == TtsEngine::Voicevox,
{
    reveal_strlit("es");
    if language.len() == 2 && language[0] == 'e' && language[1] == 's' {
        assert(language =~= "es"@);
    }
}

/// The error text of a failed engine: when its error output is UTF-8 the text
/// encodes to exactly those bytes; otherwise the text is empty.
pub proof fn lemma_error_text(stderr: Seq<u8>, text: Seq<char>)
    ensures
        error_text_matches(stderr, text) ==> (valid_utf8(stderr) ==> encode_utf8(text) == stderr),
        error_text_matches(stderr, text) ==> (!valid_utf8(stderr) ==> text.len() == 0),
{
}

/// Spanish is spoken by piper, everything else by VOICEVOX.
pub fn select_engine(language: &str) -> (engine: TtsEngine)
    ensures
        engine == engine_for(language@),
        engine is Piper <==> (language@.len() == 2 && language@[0] == 'e' && language@[1] == 's'),
{
    proof {
        reveal_strlit("es");
    }
    let n: usize = language.unicode_len();
    let spanish: bool = n == 2 && language.get_char(0) == 'e' && language.get_char(1) == 's';
    proof {
        if spanish {
            assert(language@ =~= "es"@);
        } else if language@ == "es"@ {
            assert(language@[0] == 'e' && language@[1] == 's');
        }
    }
    if spanish {
        TtsEngine::Piper
    } else {
        TtsEngine::Voicevox
    }
}

/// `std::str::from_utf8`: succeeds exactly on valid UTF-8, and the text it
/// gives holds the very bytes it was given.
#[verifier::external_body]
pub(crate) fn str_from_utf8(bytes: &[u8]) -> (text: Result<&str, core::str::Utf8Error>)
    ensures
        text is Ok <==> valid_utf8(bytes@),
        text matches Ok(s) ==> s.spec_bytes() == bytes@,
{
    std::str::from_utf8(bytes)
}

/// The error output of a failed engine as text: the output itself when it is
/// UTF-8, and empty text otherwise.
pub open spec fn error_text_matches(stderr: Seq<u8>, text: Seq<char>) -> bool {
    if valid_utf8(stderr) {
        vstd::utf8::encode_utf8(text) == stderr
    } else {
        text == Seq::<char>::empty()
    }
}

/// Judges the output of the piper process. No audio is a failure whatever the
/// exit status; then an exit code of zero gives the audio, another code is a
/// failure that carries the error output, and no code means a signal ended it.
pub fn piper_output(stdout: Vec<u8>, exit_code: Option<i32>, stderr: &[u8]) -> (result: Result<Vec<u8>, TtsError>)
    ensures
        stdout@.len() == 0 ==> result matches Err(TtsError::EmptyAudio),
        stdout@.len() > 0 && exit_code is None ==> result matches Err(TtsError::Terminated),
        stdout@.len() > 0 && exit_code == Some(0i32) ==> (result matches Ok(audio) && audio@
            == stdout@),
        stdout@.len() > 0 && exit_code is Some && exit_code->0 != 0 ==> (result matches Err(
            TtsError::Failed { code, stderr: text },
        ) && code == exit_code->0 && error_text_matches(stderr@, text@)),
{
    if stdout.len() == 0 {
        return Err(TtsError::EmptyAudio);
    }
    match exit_code {
        Some(code) => {
            if code != 0 {
                let text = match str_from_utf8(stderr) {
                    Ok(s) => s.to_owned(),
                    Err(_) => String::new(),
                };
                return Err(TtsError::Failed { code, stderr: text });
            }
            Ok(stdout)
        },
        None => Err(TtsError::Terminated),
    }
}

/// What `url::Url::parse` makes of a text, serialized back to text; `None` when
/// it is no absolute URL.
pub uninterp spec fn url_serialization(input: Seq<char>) -> Option<Seq<char>>;

/// `url::Url::parse` (as `reqwest::Url`), with the parsed URL turned back into
/// its serialization. Nothing is stated of the serialization beyond its name.
#[verifier::external_body]
fn parse_url(input: &str) -> (parsed: Result<String, url::ParseError>)
    ensures
        match parsed {
            Ok(s) => url_serialization(input@) == Some(s@),
            Err(_) => url_serialization(input@) is None,
        },
{
    match reqwest::Url::parse(input) {
        Ok(url) => Ok(String::from(url)),
        Err(e) => Err(e),
    }
}

/// The address of VOICEVOX's query for a text, before URL parsing: the text is
/// percent-encoded as the value of the last query parameter, `text`.
pub open spec fn audio_query_text(text: Seq<char>) -> Seq<char> {
    "http://127.0.0.1:50021/audio_query?speaker=1&text="@ + query_value(text)
}

/// The address handed to the URL parser is the fixed query address followed by
/// a value whose bytes are all unreserved or `%` (so nothing in the text can end
/// the `text` parameter or the query), and percent-decoding that value gives
/// the text back.
pub proof fn lemma_audio_query_carries_text(text: Seq<char>)
    ensures
        ({
            let prefix = "http://127.0.0.1:50021/audio_query?speaker=1&text="@;
            let address = audio_query_text(text);
            let value = address.subrange(prefix.len() as int, address.len() as int);
            &&& address.subrange(0, prefix.len() as int) == prefix
            &&& only_query_safe(encode_utf8(value))
            &&& decode_utf8(percent_decode(encode_utf8(value))) == text
        }),
{
    let prefix = "http://127.0.0.1:50021/audio_query?speaker=1&text="@;
    let address = audio_query_text(text);
    lemma_query_value_round_trip(text);
    assert(address.subrange(0, prefix.len() as int) =~= prefix);
    assert(address.subrange(prefix.len() as int, address.len() as int) =~= query_value(text));
}

/// Builds the unparsed address of VOICEVOX's query for a text.
pub fn audio_query_input(text: &str) -> (address: String)
    ensures
        address@ == audio_query_text(text@),
{
    let mut address = String::from_str("http://127.0.0.1:50021/audio_query?speaker=1&text=");
    let value = encode_query_value(text);
    address.append(value.as_str());
    address
}

/// Keeps a parsed address, or turns the parser's error into the engine error.
pub fn query_url_from(parsed: Result<String, url::ParseError>) -> (url: Result<String, TtsError>)
    ensures
        match parsed {
            Ok(s) => url matches Ok(u) && u@ == s@,
            Err(e) => url matches Err(TtsError::BadUrl(e2)) && e2 == e,
        },
{
    match parsed {
        Ok(s) => Ok(s),
        Err(e) => Err(TtsError::BadUrl(e)),
    }
}

/// The VOICEVOX query address for a text: the fixed query address with the
/// percent-encoded text appended, as the URL parser serializes it.
pub fn audio_query_url(text: &str) -> (url: Result<String, TtsError>)
    ensures
        match url {
            Ok(u) => url_serialization(audio_query_text(text@)) == Some(u@),
            Err(e) => e is BadUrl && url_serialization(audio_query_text(text@)) is None,
        },
{
    let address = audio_query_input(text);
    query_url_from(parse_url(address.as_str()))
}

} // verus!
