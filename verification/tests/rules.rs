use webtarot::deck::Arcana;
use webtarot::deck::Card;
use webtarot::deck::MajorArcana;
use webtarot::deck::Rank;
use webtarot::deck::Suit;
use webtarot::error::AppError;
use webtarot::interpretation::localize_explain_error;
use webtarot::interpretation::ExplainError;
use webtarot::locale::Locale;
use webtarot::model::InterpretationStatus;
use webtarot::domain::host_requires_redirect;
use webtarot::state::AppEnvironment;
use webtarot::state::RuntimeEnv;
use webtarot::user::CreateUserRequest;

fn pt() -> Locale {
    Locale("pt".to_string())
}

fn en() -> Locale {
    Locale("en".to_string())
}

#[test]
fn choose_language_cases() {
    assert_eq!("pt", Locale::choose_language(None));
    assert_eq!("en", Locale::choose_language(Some("en-US,en;q=0.9")));
    assert_eq!("pt", Locale::choose_language(Some("PT-br")));
    assert_eq!("en", Locale::choose_language(Some("  EN")));
    assert_eq!("pt", Locale::choose_language(Some("fr-FR")));
    assert_eq!("pt", Locale::choose_language(Some("")));
    assert_eq!("pt", Locale::choose_language(Some("e")));
}

#[test]
fn validate_rejects_short_password_first() {
    let request = CreateUserRequest {
        email: "no-at-sign".to_string(),
        name: "n".to_string(),
        password: "short".to_string(),
        self_description: String::new(),
    };
    match request.validate() {
        Err(AppError::ValidateError(m)) => {
            assert_eq!("Password must be at least 8 characters long", m)
        },
        other => panic!("unexpected: {:?}", other),
    }
}

#[test]
fn validate_rejects_email_without_at() {
    let request = CreateUserRequest {
        email: "nobody.example.com".to_string(),
        name: "n".to_string(),
        password: "long enough".to_string(),
        self_description: String::new(),
    };
    match request.validate() {
        Err(AppError::ValidateError(m)) => assert_eq!("Email must contain '@'", m),
        other => panic!("unexpected: {:?}", other),
    }
}

#[test]
fn validate_accepts_a_proper_request() {
    let request = CreateUserRequest {
        email: "somebody@example.com".to_string(),
        name: "n".to_string(),
        password: "long enough".to_string(),
        self_description: String::new(),
    };
    assert!(request.validate().is_ok());
}

#[test]
fn status_codes_are_stable() {
    assert_eq!(404, AppError::NotFound.status_code());
    assert_eq!(400, AppError::AlreadyExists.status_code());
    assert_eq!(400, AppError::ValidateError("x".to_string()).status_code());
    assert_eq!(500, AppError::InternalError.status_code());
    assert_eq!(403, AppError::Forbidden.status_code());
    assert_eq!(401, AppError::Unauthorized.status_code());
}

#[test]
fn explain_errors_are_localized() {
    let e = ExplainError::ApiError { status: 503, body: "busy".to_string() };
    assert_eq!(
        "A API da OpenAI retornou erro (503): busy",
        localize_explain_error(&e, &pt())
    );
    assert_eq!(
        "The OpenAI API returned an error (503): busy",
        localize_explain_error(&e, &en())
    );
    let e = ExplainError::Request("timed out".to_string());
    assert_eq!(
        "Falha ao chamar a API da OpenAI: timed out",
        localize_explain_error(&e, &pt())
    );
    assert_eq!(
        "Failed to call the OpenAI API: timed out",
        localize_explain_error(&e, &en())
    );
    let e = ExplainError::MissingApiKey;
    assert_eq!(
        "The OpenAI key is not configured on the server.",
        localize_explain_error(&e, &en())
    );
    let e = ExplainError::HttpClientBuild("no tls".to_string());
    assert_eq!(
        "Erro criando cliente HTTP: no tls",
        localize_explain_error(&e, &pt())
    );
    let e = ExplainError::ParseResponse("bad json".to_string());
    assert_eq!(
        "Failed to read the OpenAI response: bad json",
        localize_explain_error(&e, &en())
    );
}

#[test]
fn status_text_round_trip() {
    assert_eq!("pending", InterpretationStatus::Pending.as_text());
    assert_eq!("done", InterpretationStatus::Done.as_text());
    assert_eq!("failed", InterpretationStatus::Failed.as_text());
    assert!(matches!(
        InterpretationStatus::from_text("pending"),
        Some(InterpretationStatus::Pending)
    ));
    assert!(matches!(
        InterpretationStatus::from_text("done"),
        Some(InterpretationStatus::Done)
    ));
    assert!(matches!(
        InterpretationStatus::from_text("failed"),
        Some(InterpretationStatus::Failed)
    ));
    assert!(InterpretationStatus::from_text("unknown").is_none());
}

#[test]
fn card_labels_in_both_languages() {
    assert_eq!("The Fool", MajorArcana::Fool.label(&en()));
    assert_eq!("O Louco", MajorArcana::Fool.label(&pt()));
    let minor = Arcana::Minor { rank: Rank::Queen, suit: Suit::Swords };
    assert_eq!("Queen of Swords", minor.label(&en()));
    assert_eq!("Rainha de Espadas", minor.label(&pt()));
    let card = Card { arcana: minor, flipped: true };
    assert_eq!("Queen of Swords (reversed)", card.describe(&en()));
    assert_eq!("Rainha de Espadas (invertida)", card.describe(&pt()));
    let upright = Card { arcana: Arcana::Major { name: MajorArcana::Sun }, flipped: false };
    assert_eq!("O Sol", upright.describe(&pt()));
}

#[test]
fn fresh_ids_are_real_uuids() {
    let a = webtarot::ids::fresh_id();
    let b = webtarot::ids::fresh_id();
    assert!(a != 0 && b != 0);
    assert_ne!(a, b);
    let text = webtarot::ids::id_text(a);
    assert_eq!(36, text.len());
    assert_eq!(Some(a), webtarot::ids::parse_id(&text));
    assert!(webtarot::ids::parse_id("junk").is_none());
}

#[test]
fn clock_runs_after_the_epoch() {
    assert!(webtarot::clock::now_micros() > 0);
    assert_eq!(
        Some(1_000_000_000_000_000),
        webtarot::clock::parse_rfc3339_micros("2001-09-09T01:46:40Z")
    );
    assert!(webtarot::clock::parse_rfc3339_micros("yesterday").is_none());
}

#[test]
fn development_flag_follows_the_environment() {
    let dev = AppEnvironment {
        environment: RuntimeEnv::Development,
        openai_api_key: String::new(),
    };
    assert!(dev.is_development());
    let prod = AppEnvironment {
        environment: RuntimeEnv::Production,
        openai_api_key: String::new(),
    };
    assert!(!prod.is_development());
}

#[test]
fn redirect_only_when_host_differs() {
    assert!(!host_requires_redirect("webtarot.io"));
    assert!(!host_requires_redirect("webtarot.io:443"));
    assert!(!host_requires_redirect("WEBTAROT.IO"));
    assert!(host_requires_redirect("example.com"));
    assert!(host_requires_redirect("webtarot.io.example.com"));
    assert!(host_requires_redirect(""));
}
