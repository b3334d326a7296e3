use webtarot::deck::Arcana;
use webtarot::deck::Card;
use webtarot::deck::MajorArcana;
use webtarot::dispatch::request_interpretation;
use webtarot::dispatch::settle_interpretation;
use webtarot::handler::delete_interpretation_endpoint;
use webtarot::handler::get_interpretation_endpoint;
use webtarot::handler::get_interpretation_history_endpoint;
use webtarot::handler::HistoryQuery;
use webtarot::ids;
use webtarot::interpretation::GetInterpretationResult;
use webtarot::interpretation::Interpretation;
use webtarot::locale::Locale;
use webtarot::reading::perform_reading;
use webtarot::reading::CreateReadingRequest;
use webtarot::reading::CreateReadingResponse;
use webtarot::reading::InterpretationBackend;
use webtarot::reading::Reading;
use webtarot::store::InterpretationStore;
use webtarot::user::User;

fn locale_pt() -> Locale {
    Locale(Locale::choose_language(None))
}

fn fixed_reading(id: u128, created_at: i64, user_id: Option<u128>) -> Reading {
    Reading {
        id,
        created_at,
        question: "q?".to_string(),
        shuffled_times: 0,
        cards: vec![Card { arcana: Arcana::Major { name: MajorArcana::Fool }, flipped: false }],
        user_id,
        user_name: String::new(),
        user_self_description: String::new(),
        context: String::new(),
        backend: None,
    }
}

#[test]
fn create_reading_is_pending_with_three_cards() {
    let mut store = InterpretationStore::new();
    let u1: u128 = 11;
    let user = User::Anonymous { id: u1 };
    let request = CreateReadingRequest {
        question: "test question".to_string(),
        cards: 3,
        context: String::new(),
        backend: InterpretationBackend::ChatGPT,
    };
    let reading = perform_reading(&request, &user);
    let id = reading.id;
    assert!(id != 0);
    let response = CreateReadingResponse::of_reading(&reading);
    assert_eq!(Some(id), ids::parse_id(&response.interpretation_id));
    assert!(request_interpretation(&mut store, reading).is_ok());
    let fetched = store.get_interpretation(id).expect("a pending record must exist");
    let result = GetInterpretationResult::of_interpretation(fetched);
    assert!(!result.done);
    assert_eq!("", result.error);
    assert_eq!("", result.interpretation);
    let echoed = result.reading.expect("the reading is echoed");
    assert_eq!(3, echoed.cards.len());
    assert!(echoed.shuffled_times > 0, "shuffled_times should be > 0");
    assert_eq!("test question", echoed.question);
    assert_eq!(Some(u1), echoed.user_id);
}

#[test]
fn mocked_interpretation_completes_the_reading() {
    let mut store = InterpretationStore::new();
    let reading = fixed_reading(7, 100, Some(11));
    assert!(request_interpretation(&mut store, reading).is_ok());
    let broadcast = settle_interpretation(
        &mut store,
        7,
        Ok("This is a mocked interpretation".to_string()),
        &locale_pt(),
        4200,
    )
    .expect("the record exists");
    assert!(broadcast.is_done());
    let result =
        GetInterpretationResult::of_interpretation(store.get_interpretation(7).unwrap());
    assert!(result.done);
    assert_eq!("This is a mocked interpretation", result.interpretation);
    assert_eq!("", result.error);
    assert_eq!(Some(4200), result.interpretation_done_at);
}

#[test]
fn failed_interpretation_stores_localized_error() {
    let mut store = InterpretationStore::new();
    assert!(request_interpretation(&mut store, fixed_reading(9, 100, Some(11))).is_ok());
    let broadcast = settle_interpretation(
        &mut store,
        9,
        Err(webtarot::interpretation::ExplainError::EmptyResponse),
        &locale_pt(),
        4200,
    )
    .expect("the record exists");
    assert!(!broadcast.is_done());
    let result =
        GetInterpretationResult::of_interpretation(store.get_interpretation(9).unwrap());
    assert!(result.done);
    assert_eq!("", result.interpretation);
    assert_eq!(
        "Não foi possível obter a interpretação das cartas no momento.",
        result.error
    );
    assert_eq!(None, result.interpretation_done_at);
}

#[test]
fn terminal_states_never_revert() {
    let mut store = InterpretationStore::new();
    assert!(request_interpretation(&mut store, fixed_reading(5, 100, Some(11))).is_ok());
    settle_interpretation(&mut store, 5, Ok("first".to_string()), &locale_pt(), 1).unwrap();
    // a second outcome leaves the already-done record exactly as it was
    settle_interpretation(&mut store, 5, Err(webtarot::interpretation::ExplainError::EmptyResponse), &locale_pt(), 2)
        .unwrap();
    let result =
        GetInterpretationResult::of_interpretation(store.get_interpretation(5).unwrap());
    assert!(result.done);
    assert_eq!("first", result.interpretation);
    assert_eq!("", result.error);
    assert_eq!(Some(1), result.interpretation_done_at);
}

#[test]
fn login_reassigns_anonymous_readings() {
    let mut store = InterpretationStore::new();
    let u1: u128 = 21;
    let u2: u128 = 22;
    assert!(request_interpretation(&mut store, fixed_reading(31, 100, Some(u1))).is_ok());
    assert!(request_interpretation(&mut store, fixed_reading(32, 200, Some(77))).is_ok());
    assert!(store.reassign_from_anon_to_user(u1, u2).is_ok());
    let own = store.get_interpretation(31).unwrap();
    assert_eq!(Some(u2), own.reading().user_id);
    let other = store.get_interpretation(32).unwrap();
    assert_eq!(Some(77), other.reading().user_id);
}

#[test]
fn fetching_unowned_reading_assigns_the_requester() {
    let mut store = InterpretationStore::new();
    let u3: u128 = 33;
    assert!(request_interpretation(&mut store, fixed_reading(41, 100, None)).is_ok());
    let id_text = ids::id_text(41);
    let (status, result) =
        get_interpretation_endpoint(&mut store, &id_text, u3, &locale_pt());
    assert_eq!(200, status);
    assert_eq!(Some(u3), result.reading.expect("reading echoed").user_id);
    // and the assignment was persisted
    assert_eq!(Some(u3), store.get_interpretation(41).unwrap().reading().user_id);
}

#[test]
fn fetching_owned_reading_keeps_its_owner() {
    let mut store = InterpretationStore::new();
    assert!(request_interpretation(&mut store, fixed_reading(42, 100, Some(50))).is_ok());
    let id_text = ids::id_text(42);
    let (status, result) = get_interpretation_endpoint(&mut store, &id_text, 33, &locale_pt());
    assert_eq!(200, status);
    assert_eq!(Some(50), result.reading.unwrap().user_id);
}

#[test]
fn lookup_of_absent_or_malformed_id() {
    let mut store = InterpretationStore::new();
    let (status, result) =
        get_interpretation_endpoint(&mut store, "not-a-uuid", 33, &locale_pt());
    assert_eq!(404, status);
    assert!(!result.done);
    assert_eq!("", result.error);
    assert!(result.reading.is_none());
    let absent = ids::id_text(999);
    let (status, result) = get_interpretation_endpoint(&mut store, &absent, 33, &locale_pt());
    assert_eq!(404, status);
    assert!(!result.done);
    assert_eq!("Leitura não encontrada.", result.error);
    assert!(result.reading.is_none());
}

#[test]
fn delete_by_non_owner_is_a_no_op() {
    let mut store = InterpretationStore::new();
    let owner: u128 = 61;
    let intruder: u128 = 62;
    assert!(request_interpretation(&mut store, fixed_reading(51, 100, Some(owner))).is_ok());
    let id_text = ids::id_text(51);
    let status = delete_interpretation_endpoint(&mut store, &id_text, intruder, 500);
    assert_eq!(400, status);
    // the reading is still there for its true owner
    let query = HistoryQuery { before: None, limit: None };
    let history = get_interpretation_history_endpoint(&store, owner, query);
    assert_eq!(1, history.len());
    assert!(store.get_interpretation(51).is_some());
}

#[test]
fn delete_by_owner_hides_from_history() {
    let mut store = InterpretationStore::new();
    let owner: u128 = 61;
    assert!(request_interpretation(&mut store, fixed_reading(52, 100, Some(owner))).is_ok());
    let id_text = ids::id_text(52);
    let status = delete_interpretation_endpoint(&mut store, &id_text, owner, 500);
    assert_eq!(204, status);
    let query = HistoryQuery { before: None, limit: None };
    let history = get_interpretation_history_endpoint(&store, owner, query);
    assert_eq!(0, history.len());
    assert_eq!(0, store.get_all_interpretations().len());
}

#[test]
fn history_limit_one_returns_the_newest() {
    let mut store = InterpretationStore::new();
    let owner: u128 = 71;
    assert!(request_interpretation(&mut store, fixed_reading(81, 100, Some(owner))).is_ok());
    assert!(request_interpretation(&mut store, fixed_reading(82, 300, Some(owner))).is_ok());
    assert!(request_interpretation(&mut store, fixed_reading(83, 200, Some(owner))).is_ok());
    let query = HistoryQuery { before: None, limit: Some(1) };
    let history = get_interpretation_history_endpoint(&store, owner, query);
    assert_eq!(1, history.len());
    assert_eq!(300, history[0].reading().created_at);
}

#[test]
fn history_is_newest_first_and_clamped() {
    let mut store = InterpretationStore::new();
    let owner: u128 = 72;
    assert!(request_interpretation(&mut store, fixed_reading(91, 100, Some(owner))).is_ok());
    assert!(request_interpretation(&mut store, fixed_reading(92, 300, Some(owner))).is_ok());
    assert!(request_interpretation(&mut store, fixed_reading(93, 200, Some(owner))).is_ok());
    let query = HistoryQuery { before: None, limit: Some(-5) };
    let history = get_interpretation_history_endpoint(&store, owner, query);
    assert_eq!(1, history.len());
    let query = HistoryQuery { before: None, limit: Some(100000) };
    let history = get_interpretation_history_endpoint(&store, owner, query);
    assert_eq!(3, history.len());
    assert_eq!(300, history[0].reading().created_at);
    assert_eq!(200, history[1].reading().created_at);
    assert_eq!(100, history[2].reading().created_at);
}

#[test]
fn history_cursor_filters_older_readings() {
    let mut store = InterpretationStore::new();
    let owner: u128 = 73;
    // 2001-09-09T01:46:40Z is 1_000_000_000 seconds after the epoch
    let cursor_micros: i64 = 1_000_000_000_000_000;
    assert!(
        request_interpretation(&mut store, fixed_reading(95, cursor_micros - 1, Some(owner)))
            .is_ok()
    );
    assert!(
        request_interpretation(&mut store, fixed_reading(96, cursor_micros + 1, Some(owner)))
            .is_ok()
    );
    let query = HistoryQuery {
        before: Some("2001-09-09T01:46:40Z".to_string()),
        limit: None,
    };
    let history = get_interpretation_history_endpoint(&store, owner, query);
    assert_eq!(1, history.len());
    assert_eq!(cursor_micros - 1, history[0].reading().created_at);
    // an unparseable cursor is ignored
    let query = HistoryQuery { before: Some("not a date".to_string()), limit: None };
    let history = get_interpretation_history_endpoint(&store, owner, query);
    assert_eq!(2, history.len());
}

#[test]
fn duplicate_id_is_refused() {
    let mut store = InterpretationStore::new();
    assert!(request_interpretation(&mut store, fixed_reading(1, 100, Some(2))).is_ok());
    let second = request_interpretation(&mut store, fixed_reading(1, 200, Some(3)));
    assert!(matches!(second, Err(webtarot::error::AppError::AlreadyExists)));
}

#[test]
fn row_round_trip_keeps_every_field() {
    let reading = fixed_reading(123, 456, Some(789));
    let wrapped = Interpretation::Done(reading, "text".to_string(), 999);
    let row = webtarot::model::Reading::of_interpretation(wrapped);
    assert_eq!(123, row.id);
    assert_eq!("done", row.interpretation_status.as_text());
    let back = row.to_interpretation();
    assert!(back.is_done());
    assert_eq!(123, back.reading().id);
    assert_eq!(456, back.reading().created_at);
    assert_eq!(Some(789), back.reading().user_id);
    assert_eq!("q?", back.reading().question);
}
