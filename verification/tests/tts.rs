use rescribe::tts::{audio_query_input, audio_query_url, piper_output, query_url_from, select_engine, TtsEngine, TtsError};

#[test]
fn spanish_is_spoken_by_piper() {
    assert_eq!(select_engine("es"), TtsEngine::Piper);
}

#[test]
fn other_languages_are_spoken_by_voicevox() {
    assert_eq!(select_engine("ja"), TtsEngine::Voicevox);
    assert_eq!(select_engine("en"), TtsEngine::Voicevox);
    assert_eq!(select_engine("ES"), TtsEngine::Voicevox);
    assert_eq!(select_engine("es-MX"), TtsEngine::Voicevox);
    assert_eq!(select_engine(""), TtsEngine::Voicevox);
}

#[test]
fn piper_audio_on_success() {
    assert_eq!(piper_output(vec![1, 2, 3], Some(0), b"").unwrap(), vec![1, 2, 3]);
}

#[test]
fn piper_empty_audio_fails_first() {
    assert!(matches!(piper_output(vec![], Some(0), b""), Err(TtsError::EmptyAudio)));
    assert!(matches!(piper_output(vec![], None, b""), Err(TtsError::EmptyAudio)));
    assert!(matches!(piper_output(vec![], Some(3), b"err"), Err(TtsError::EmptyAudio)));
}

#[test]
fn piper_failure_code_carries_error_text() {
    match piper_output(vec![9], Some(2), b"model missing") {
        Err(TtsError::Failed { code, stderr }) => {
            assert_eq!(code, 2);
            assert_eq!(stderr, "model missing");
        }
        _ => panic!("expected a failure"),
    }
}

#[test]
fn piper_invalid_utf8_error_text_is_empty() {
    match piper_output(vec![9], Some(-1), &[0xff, 0xfe]) {
        Err(TtsError::Failed { code, stderr }) => {
            assert_eq!(code, -1);
            assert_eq!(stderr, "");
        }
        _ => panic!("expected a failure"),
    }
}

#[test]
fn piper_killed_by_signal() {
    assert!(matches!(piper_output(vec![9], None, b""), Err(TtsError::Terminated)));
}

#[test]
fn query_input_appends_text() {
    assert_eq!(audio_query_input("hello"), "http://127.0.0.1:50021/audio_query?speaker=1&text=hello");
}

#[test]
fn query_url_encodes_the_text() {
    assert_eq!(
        audio_query_url("hello world").unwrap(),
        "http://127.0.0.1:50021/audio_query?speaker=1&text=hello%20world"
    );
    assert_eq!(
        audio_query_url("世界").unwrap(),
        "http://127.0.0.1:50021/audio_query?speaker=1&text=%E4%B8%96%E7%95%8C"
    );
}

#[test]
fn parser_errors_become_bad_url() {
    assert!(matches!(query_url_from(Err(url::ParseError::EmptyHost)), Err(TtsError::BadUrl(url::ParseError::EmptyHost))));
    assert_eq!(query_url_from(Ok("http://a/".to_string())).unwrap(), "http://a/");
}

#[test]
fn query_text_keeps_ampersand_inside_the_value() {
    assert_eq!(
        audio_query_url("rock&roll").unwrap(),
        "http://127.0.0.1:50021/audio_query?speaker=1&text=rock%26roll"
    );
    assert_eq!(
        audio_query_input("a#b\tc\n"),
        "http://127.0.0.1:50021/audio_query?speaker=1&text=a%23b%09c%0A"
    );
}
