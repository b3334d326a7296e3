use webtarot::deck::Arcana;
use webtarot::deck::Card;
use webtarot::deck::MajorArcana;
use webtarot::deck::Rank;
use webtarot::deck::Suit;
use webtarot::interpretation::Interpretation;
use webtarot::notify::subscribe_decision;
use webtarot::notify::SubscribeAction;
use webtarot::notify::SubscriptionSet;
use webtarot::reading::Reading;
use webtarot::stats::calculate_stats;

fn reading_with(id: u128, user_id: Option<u128>, cards: Vec<Card>) -> Reading {
    Reading {
        id,
        created_at: 0,
        question: "q?".to_string(),
        shuffled_times: 0,
        cards,
        user_id,
        user_name: String::new(),
        user_self_description: String::new(),
        context: String::new(),
        backend: None,
    }
}

fn fool(flipped: bool) -> Card {
    Card { arcana: Arcana::Major { name: MajorArcana::Fool }, flipped }
}

fn ace_of_cups() -> Card {
    Card { arcana: Arcana::Minor { rank: Rank::Ace, suit: Suit::Cups }, flipped: false }
}

#[test]
fn stats_count_exactly() {
    let readings = vec![
        reading_with(1, Some(5), vec![fool(false), ace_of_cups()]),
        reading_with(2, Some(5), vec![fool(true), fool(false)]),
    ];
    let stats = calculate_stats(&readings);
    assert_eq!(2, stats.total_readings);
    assert_eq!(4, stats.total_cards_drawn);
    assert_eq!(2, stats.arcana_stats.len());
    let fool_entry = stats
        .arcana_stats
        .iter()
        .find(|e| e.arcana == Arcana::Major { name: MajorArcana::Fool })
        .expect("the fool was drawn");
    assert_eq!(3, fool_entry.total_count);
    assert_eq!(1, fool_entry.drawn_flipped_count);
    assert_eq!(2, fool_entry.drawn_count);
    let ace_entry = stats
        .arcana_stats
        .iter()
        .find(|e| e.arcana == Arcana::Minor { rank: Rank::Ace, suit: Suit::Cups })
        .expect("the ace of cups was drawn");
    assert_eq!(1, ace_entry.total_count);
    assert_eq!(0, ace_entry.drawn_flipped_count);
    assert_eq!(76, stats.never_drawn.len());
    assert!(!stats.never_drawn.contains(&Arcana::Major { name: MajorArcana::Fool }));
    assert!(stats.never_drawn.contains(&Arcana::Major { name: MajorArcana::Sun }));
}

#[test]
fn stats_of_no_readings() {
    let readings: Vec<Reading> = Vec::new();
    let stats = calculate_stats(&readings);
    assert_eq!(0, stats.total_readings);
    assert_eq!(0, stats.total_cards_drawn);
    assert_eq!(0, stats.arcana_stats.len());
    assert_eq!(78, stats.never_drawn.len());
}

#[test]
fn subscribe_decisions() {
    let owner: u128 = 9;
    let pending = Interpretation::Pending(reading_with(1, Some(owner), vec![fool(false)]));
    let done = Interpretation::Done(
        reading_with(1, Some(owner), vec![fool(false)]),
        "t".to_string(),
        5,
    );
    let unowned = Interpretation::Pending(reading_with(1, None, vec![fool(false)]));
    assert_eq!(SubscribeAction::Ignore, subscribe_decision(&None, owner));
    assert_eq!(SubscribeAction::Watch, subscribe_decision(&Some(pending.clone()), owner));
    assert_eq!(SubscribeAction::Renotify, subscribe_decision(&Some(done), owner));
    assert_eq!(SubscribeAction::Ignore, subscribe_decision(&Some(pending), 1234));
    assert_eq!(SubscribeAction::Ignore, subscribe_decision(&Some(unowned), owner));
}

#[test]
fn forwarding_follows_the_watched_set() {
    let mut set = SubscriptionSet::new();
    let event = Interpretation::Done(
        reading_with(77, Some(9), vec![fool(false)]),
        "t".to_string(),
        5,
    );
    assert!(!set.should_forward(&event));
    set.watch(42);
    assert!(!set.should_forward(&event));
    set.watch(77);
    assert!(set.should_forward(&event));
}
