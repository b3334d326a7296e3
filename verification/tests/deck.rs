use webtarot::deck::Arcana;
use webtarot::deck::Card;
use webtarot::deck::Deck;
use webtarot::locale::Locale;

fn pt() -> Locale {
    Locale(Locale::choose_language(None))
}

#[test]
fn deck_build_works() {
    let deck = Deck::build();
    assert_eq!(78, deck.cards.len());
}

#[test]
fn shuffle_works() {
    let mut deck = Deck::build();
    deck.shuffle("this is a question");
    assert_ne!(Deck::build(), deck);
    for card in deck.cards {
        println!("* {}", card.describe(&pt()))
    }
}

#[test]
fn draw_works() {
    let mut deck = Deck::build();
    deck.shuffle("this is a question");
    let cards = deck.draw(6);
    assert_eq!(6, cards.len());
    for card in cards {
        println!("* {}", card.describe(&pt()))
    }
}

#[test]
fn slice_works() {
    let deck = Deck::build();
    let slices = deck.slice();
    assert_eq!(3, slices.len());
    assert_eq!(78, slices[0].len() + slices[1].len() + slices[2].len());
}

fn count_arcana(cards: &[Card], a: Arcana) -> usize {
    cards.iter().filter(|c| c.arcana == a).count()
}

#[test]
fn build_is_deterministic_and_unflipped() {
    let a = Deck::build();
    let b = Deck::build();
    assert_eq!(a, b);
    for (x, y) in a.cards.iter().zip(b.cards.iter()) {
        assert_eq!(x.arcana, y.arcana);
    }
    for card in &a.cards {
        assert!(!card.flipped);
    }
}

#[test]
fn shuffle_keeps_every_arcana_exactly_once() {
    let fresh = Deck::build();
    let mut deck = Deck::build();
    let shuffles = deck.shuffle("what do the cards hold?");
    assert!(shuffles < 7033);
    assert_eq!(78, deck.cards.len());
    for card in &fresh.cards {
        assert_eq!(1, count_arcana(&deck.cards, card.arcana));
    }
}

#[test]
fn draw_returns_distinct_arcana() {
    let mut deck = Deck::build();
    deck.shuffle("a question of cards");
    let cards = deck.draw(13);
    assert_eq!(13, cards.len());
    for i in 0..cards.len() {
        for j in 0..cards.len() {
            if i != j {
                assert_ne!(cards[i].arcana, cards[j].arcana);
            }
        }
    }
}

#[test]
fn draw_largest_count_terminates_with_full_length() {
    let mut deck = Deck::build();
    deck.shuffle("the whole spread");
    let cards = deck.draw(52);
    assert_eq!(52, cards.len());
    for i in 0..cards.len() {
        for j in 0..cards.len() {
            if i != j {
                assert_ne!(cards[i].arcana, cards[j].arcana);
            }
        }
    }
}

#[test]
fn draw_zero_is_empty() {
    let deck = Deck::build();
    assert_eq!(0, deck.draw(0).len());
}

#[test]
fn default_deck_is_the_built_deck() {
    assert_eq!(Deck::build(), Deck::default());
}
