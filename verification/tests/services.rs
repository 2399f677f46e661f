//! Settings and AI services.

use sbobino_commands::names::{text_precedes, NameSet};
use sbobino_commands::order::stable_order;
use sbobino_commands::settings::{
    check_tested_service, classify_ai_service_error, collect_gemini_models_from_endpoint,
    draft_or_stored_value, gemini_endpoints, list_ai_service_models, list_gemini_models,
    read_catalog_answer, redact_ai_keys, single_prompt_result, summary_prompt_result,
    test_ai_service, test_prompt, AiKeys, AiServiceIdPayload, CatalogAnswer, GeminiAnswer,
    GeminiModelEntry, GeminiModelsResponse, GeminiPage, ListGeminiModelsPayload, PromptTask,
    RemoteService, RemoteServiceKind, ServiceCatalog, ServiceKey, TestPromptPayload,
};
use sbobino_commands::text_map::TextMap;

#[test]
fn quota_errors_are_not_misclassified_as_authentication() {
    let classified = classify_ai_service_error("AI provider returned 429: API key quota exceeded");

    assert_eq!(classified.code, "ai_quota");
}

#[test]
fn service_errors_are_classified_by_what_they_say() {
    let code = |message: &str| classify_ai_service_error(message).code;
    assert_eq!(code("HTTP 401"), "ai_authentication");
    assert_eq!(code("Model x NOT FOUND"), "ai_model");
    assert_eq!(code("operation timed out"), "ai_connection");
    assert_eq!(code("bad endpoint"), "ai_endpoint");
    assert_eq!(code("strange"), "ai_service_test");
}

#[test]
fn model_catalog_uses_non_empty_drafts_without_persisting_them() {
    assert_eq!(
        draft_or_stored_value(Some("  draft-key  "), Some("stored-key")),
        Some("draft-key".to_string())
    );
    assert_eq!(
        draft_or_stored_value(Some("  "), Some("stored-value")),
        Some("stored-value".to_string())
    );
    assert_eq!(draft_or_stored_value(Some(" "), None), None);

    let payload = payload("service", Some("draft-key"), Some("http://localhost:1234/v1"));
    assert_eq!(payload.api_key.as_deref(), Some("draft-key"));
    assert_eq!(payload.base_url.as_deref(), Some("http://localhost:1234/v1"));
}

fn payload(id: &str, api_key: Option<&str>, base_url: Option<&str>) -> AiServiceIdPayload {
    AiServiceIdPayload {
        service_id: id.to_string(),
        api_key: api_key.map(str::to_string),
        base_url: base_url.map(str::to_string),
    }
}

fn service(id: &str, kind: RemoteServiceKind, key: Option<&str>) -> RemoteService {
    RemoteService {
        id: id.to_string(),
        kind,
        api_key: key.map(str::to_string),
        base_url: Some("https://ai.example/v1/chat/completions".to_string()),
    }
}

#[test]
fn catalogs_are_asked_for_with_the_headers_of_the_service() {
    let services = vec![
        service("open", RemoteServiceKind::Other, Some("k1")),
        service("anthropic", RemoteServiceKind::Anthropic, None),
        service("azure", RemoteServiceKind::Azure, None),
        service("google", RemoteServiceKind::Google, None),
    ];
    match list_ai_service_models(&services, &payload("open", None, None)) {
        Ok(ServiceCatalog::Fetch(request)) => {
            assert_eq!(request.endpoint, "https://ai.example/v1/models");
            assert_eq!(
                request.headers,
                vec![("authorization".to_string(), "Bearer k1".to_string())]
            );
        }
        _ => panic!("a request was expected"),
    }
    match list_ai_service_models(&services, &payload("anthropic", Some(" k2 "), Some("http://h//"))) {
        Ok(ServiceCatalog::Fetch(request)) => {
            assert_eq!(request.endpoint, "http://h/models");
            assert_eq!(request.headers[0], ("x-api-key".to_string(), "k2".to_string()));
        }
        _ => panic!("a request was expected"),
    }
    let code = |id: &str, key: Option<&str>| {
        list_ai_service_models(&services, &payload(id, key, None)).err().map(|e| e.code)
    };
    assert_eq!(code("anthropic", None).as_deref(), Some("missing_api_key"));
    assert_eq!(code("google", None).as_deref(), Some("validation"));
    assert_eq!(code("nobody", None).as_deref(), Some("not_found"));
    assert!(matches!(
        list_ai_service_models(&services, &payload("azure", None, None)),
        Ok(ServiceCatalog::Empty)
    ));
}

#[test]
fn keys_that_no_header_can_hold_are_refused() {
    let services = vec![service("open", RemoteServiceKind::Other, None)];
    let with = |key: &str| list_ai_service_models(&services, &payload("open", Some(key), None));
    let error = with("two\nlines").err().expect("a control character");
    assert_eq!(
        (error.code.as_str(), error.message.as_str()),
        ("validation", "failed to parse header value")
    );
    assert!(with("del\u{7f}").is_err());
    assert!(with("tab\tkey").is_ok());
    assert!(with("clé").is_ok());
}

#[test]
fn catalog_answers_are_sorted_and_unique() {
    let answer = |status: u16, ids: Result<Vec<Option<String>>, String>| CatalogAnswer {
        status,
        status_text: format!("{status} x"),
        ids,
    };
    let ids = vec![Some("b".to_string()), None, Some("a".to_string()), Some("b".to_string())];
    let names = read_catalog_answer(&answer(200, Ok(ids))).ok().expect("names").names;
    assert_eq!(names, vec!["a".to_string(), "b".to_string()]);
    let failed = read_catalog_answer(&answer(500, Ok(Vec::new()))).err().expect("a status");
    assert_eq!(failed.message, "Model catalog request failed with status 500 x");
    let broken = read_catalog_answer(&answer(200, Err("eof".to_string()))).err().expect("a body");
    assert_eq!((broken.code.as_str(), broken.message.as_str()), ("ai_models", "eof"));
}

fn page(names: &[(&str, &str)], token: Option<&str>) -> GeminiAnswer {
    GeminiAnswer {
        status: 200,
        status_text: "200 OK".to_string(),
        page: Ok(GeminiModelsResponse {
            models: Some(
                names
                    .iter()
                    .map(|(name, method)| GeminiModelEntry {
                        name: Some(name.to_string()),
                        supported_generation_methods: Some(vec![method.to_string()]),
                    })
                    .collect(),
            ),
            next_page_token: token.map(str::to_string),
        }),
    }
}

#[test]
fn gemini_models_are_collected_page_by_page() {
    let mut found = NameSet::new();
    let first = page(
        &[("models/gemini-pro", "generateContent"), ("models/embed", "embedContent")],
        Some(" next "),
    );
    match collect_gemini_models_from_endpoint(&first, 0, &mut found) {
        Ok(GeminiPage::Next(token)) => assert_eq!(token, "next"),
        _ => panic!("there is another page"),
    }
    let second = page(&[("gemini-flash", "generateContent")], Some("  "));
    assert!(matches!(
        collect_gemini_models_from_endpoint(&second, 1, &mut found),
        Ok(GeminiPage::Done)
    ));
    assert_eq!(found.names, vec!["gemini-flash".to_string(), "gemini-pro".to_string()]);

    let status = |status: u16| GeminiAnswer {
        status,
        status_text: format!("{status} x"),
        page: Err("unread".to_string()),
    };
    assert!(collect_gemini_models_from_endpoint(&status(404), 0, &mut found).is_ok());
    for code in [401, 403, 500] {
        assert!(collect_gemini_models_from_endpoint(&status(code), 0, &mut found).is_err());
    }
    assert!(gemini_endpoints()[0].contains("/v1beta/"));
    assert_eq!(gemini_endpoints().len(), 2);
    let key = Some(ListGeminiModelsPayload { api_key: Some(" k ".to_string()) });
    assert_eq!(list_gemini_models(&key, &None).ok().as_deref(), Some("k"));
    assert!(list_gemini_models(&None, &None).is_err());
}

#[test]
fn keys_are_not_shown() {
    let key = |value: Option<&str>| ServiceKey {
        api_key: value.map(str::to_string),
        has_api_key: false,
    };
    let mut keys = AiKeys { gemini: key(Some("secret")), remote_services: vec![key(None), key(Some("x"))] };
    redact_ai_keys(&mut keys);
    assert!(keys.gemini.has_api_key && keys.gemini.api_key.is_none());
    assert!(!keys.remote_services[0].has_api_key);
    assert!(keys.remote_services[1].has_api_key && keys.remote_services[1].api_key.is_none());
}

#[test]
fn services_are_tested_by_a_short_question() {
    assert!(check_tested_service(&Ok(true)).is_ok());
    assert_eq!(check_tested_service(&Ok(false)).err().map(|e| e.code).as_deref(), Some("ai_service_unavailable"));
    assert_eq!(
        check_tested_service(&Err("bad".to_string())).err().map(|e| e.code).as_deref(),
        Some("ai_service_configuration")
    );
    assert!(test_ai_service(" OK ").ok().expect("an answer").ok);
    assert_eq!(test_ai_service("  ").err().map(|e| e.code).as_deref(), Some("ai_service_empty_response"));
}

#[test]
fn prompts_are_tried_on_an_input() {
    let payload = |input: &str, task: Option<PromptTask>| TestPromptPayload {
        input: input.to_string(),
        language: None,
        task,
        prompt_override: Some("Be brief.".to_string()),
        model_override: Some("  ".to_string()),
    };
    assert!(test_prompt(&payload("  ", None), "gemini-pro", "it").is_err());
    let trial = test_prompt(&payload(" text ", None), "gemini-pro", "it").ok().expect("a trial");
    assert_eq!((trial.input.as_str(), trial.model.as_str()), ("text", "gemini-pro"));
    assert_eq!(trial.optimize_prompt_override.as_deref(), Some("Be brief."));
    assert!(trial.summary_prompt_override.is_none());
    let summary = test_prompt(&payload("text", Some(PromptTask::Summary)), "m", "it").ok().expect("a trial");
    assert_eq!(summary.summary_prompt_override.as_deref(), Some("Be brief."));
    assert_eq!(summary_prompt_result("S", "F", "m").output, "Summary:\nS\n\nFAQs:\nF");
    assert_eq!(single_prompt_result("O", "m").output, "O");
}

#[test]
fn names_and_ranks_are_ordered() {
    assert!(text_precedes("a", "b") && text_precedes("a", "aa") && !text_precedes("b", "a"));
    let mut names = NameSet::new();
    for name in ["gamma", "alpha", "é", "alpha"] {
        names.insert(name.to_string());
    }
    assert_eq!(names.names, vec!["alpha", "gamma", "é"]);
    assert_eq!(stable_order(&vec![3, 1, 3, 2]), vec![1, 3, 0, 2]);
}

#[test]
fn a_map_holds_the_last_value_of_a_key() {
    let mut map = TextMap::new();
    map.insert("a", "1");
    map.insert("a", "2");
    assert_eq!(map.get("a"), Some("2"));
    map.remove("a");
    assert!(!map.contains("a"));
}
