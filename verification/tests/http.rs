use rescribe::http::{
    deepl_auth_header, deepl_endpoint, deepl_request, forward_action, translate_reply, translation_packets,
    DeeplResponse, DeeplResponseTranslation, ForwardAction, QueuePacket, TranslatePacket,
};

fn packet(text: &str, prevent: Option<bool>) -> QueuePacket {
    QueuePacket {
        language: "ja".to_string(),
        original_text: Some("hello".to_string()),
        translated_text: text.to_string(),
        prevent_ws_forward: prevent,
    }
}

fn sent_text(action: ForwardAction) -> Option<String> {
    match action {
        ForwardAction::Send(t) => Some(t),
        _ => None,
    }
}

#[test]
fn dead_client_stops() {
    let p = packet("こんにちは", None);
    assert!(matches!(forward_action(false, Some(&p)), ForwardAction::Stop));
    assert!(matches!(forward_action(false, None), ForwardAction::Stop));
}

#[test]
fn failed_receive_is_skipped() {
    assert!(matches!(forward_action(true, None), ForwardAction::Skip));
}

#[test]
fn packet_from_a_client_is_not_sent_back() {
    let p = packet("こんにちは", Some(true));
    assert!(matches!(forward_action(true, Some(&p)), ForwardAction::Skip));
}

#[test]
fn other_packets_are_sent() {
    assert_eq!(sent_text(forward_action(true, Some(&packet("世界", None)))), Some("世界".to_string()));
    assert_eq!(sent_text(forward_action(true, Some(&packet("mundo", Some(false))))), Some("mundo".to_string()));
}

#[test]
fn translations_become_queue_packets() {
    let request = TranslatePacket {
        source_lang: "EN".to_string(),
        target_lang: "JA".to_string(),
        text: vec!["hello".to_string(), "world".to_string()],
    };
    let response = DeeplResponse {
        translations: vec![
            DeeplResponseTranslation { text: "こんにちは".to_string() },
            DeeplResponseTranslation { text: "世界".to_string() },
            DeeplResponseTranslation { text: "余分".to_string() },
        ],
    };
    let packets = translation_packets(&request, &response);
    assert_eq!(packets.len(), 3);
    assert_eq!(packets[0].language, "JA");
    assert_eq!(packets[0].original_text, Some("hello".to_string()));
    assert_eq!(packets[0].translated_text, "こんにちは");
    assert_eq!(packets[0].prevent_ws_forward, Some(false));
    assert_eq!(packets[1].original_text, Some("world".to_string()));
    assert_eq!(packets[1].translated_text, "世界");
    assert_eq!(packets[2].original_text, None);
    assert_eq!(packets[2].translated_text, "余分");
    for p in &packets {
        assert_eq!(sent_text(forward_action(true, Some(p))), Some(p.translated_text.clone()));
    }
}

#[test]
fn empty_answer_queues_nothing() {
    let request = TranslatePacket { source_lang: "EN".to_string(), target_lang: "ES".to_string(), text: vec![] };
    let response = DeeplResponse { translations: vec![] };
    assert!(translation_packets(&request, &response).is_empty());
}

#[test]
fn free_keys_use_the_free_endpoint() {
    assert_eq!(deepl_endpoint("0123-abcd:fx"), "https://api-free.deepl.com/v2/translate");
    assert_eq!(deepl_endpoint(":fx"), "https://api-free.deepl.com/v2/translate");
}

#[test]
fn other_keys_use_the_paid_endpoint() {
    assert_eq!(deepl_endpoint("0123-abcd"), "https://api.deepl.com/v2/translate");
    assert_eq!(deepl_endpoint("fx"), "https://api.deepl.com/v2/translate");
    assert_eq!(deepl_endpoint(":fx "), "https://api.deepl.com/v2/translate");
    assert_eq!(deepl_endpoint(""), "https://api.deepl.com/v2/translate");
}

#[test]
fn auth_header_carries_the_key() {
    assert_eq!(deepl_auth_header("k3y:fx"), "DeepL-Auth-Key k3y:fx");
}

#[test]
fn request_body_fields() {
    let request = TranslatePacket {
        source_lang: "EN".to_string(),
        target_lang: "JA".to_string(),
        text: vec!["a".to_string(), "b".to_string()],
    };
    let body = deepl_request(&request);
    assert!(body.preserve_formatting);
    assert_eq!(body.source_lang, "EN");
    assert_eq!(body.target_lang, "JA");
    assert_eq!(body.split_sentences, "nonewlines");
    assert_eq!(body.text, vec!["a".to_string(), "b".to_string()]);
}

#[test]
fn translate_reply_ok_and_error() {
    assert_eq!(translate_reply::<()>(Ok("{\"translations\":[]}".to_string())), (200, "{\"translations\":[]}".to_string()));
    assert_eq!(translate_reply::<String>(Err("boom".to_string())), (500, String::new()));
}
