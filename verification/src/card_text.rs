//! Human-readable card names, localized. These feed the narrator's prompt
//! and any place a card is shown; the locale always arrives as a parameter.

use crate::deck::Arcana;
use crate::deck::Card;
use crate::deck::MajorArcana;
use crate::deck::Rank;
use crate::deck::Suit;
use crate::locale::Locale;
use vstd::prelude::*;
use vstd::string::StringExecFns;

verus! {

pub open spec fn spec_major_label(m: MajorArcana, portuguese: bool) -> Seq<char> {
    if portuguese {
        match m {
            MajorArcana::Fool => "O Louco"@,
            MajorArcana::Magician => "O Mago"@,
            MajorArcana::HighPriestess => "A Sacerdotisa"@,
            MajorArcana::Empress => "A Imperatriz"@,
            MajorArcana::Emperor => "O Imperador"@,
            MajorArcana::Hierophant => "O Hierofante"@,
            MajorArcana::Lovers => "Os Enamorados"@,
            MajorArcana::Chariot => "O Carro"@,
            MajorArcana::Strength => "A Força"@,
            MajorArcana::Hermit => "O Eremita"@,
            MajorArcana::WheelOfFortune => "A Roda da Fortuna"@,
            MajorArcana::Justice => "A Justiça"@,
            MajorArcana::HangedMan => "O Enforcado"@,
            MajorArcana::Death => "A Morte"@,
            MajorArcana::Temperance => "A Temperança"@,
            MajorArcana::Devil => "O Diabo"@,
            MajorArcana::Tower => "A Torre"@,
            MajorArcana::Star => "A Estrela"@,
            MajorArcana::Moon => "A Lua"@,
            MajorArcana::Sun => "O Sol"@,
            MajorArcana::Judgement => "O Julgamento"@,
            MajorArcana::World => "O Mundo"@,
        }
    } else {
        match m {
            MajorArcana::Fool => "The Fool"@,
            MajorArcana::Magician => "The Magician"@,
            MajorArcana::HighPriestess => "The High Priestess"@,
            MajorArcana::Empress => "The Empress"@,
            MajorArcana::Emperor => "The Emperor"@,
            MajorArcana::Hierophant => "The Hierophant"@,
            MajorArcana::Lovers => "The Lovers"@,
            MajorArcana::Chariot => "The Chariot"@,
            MajorArcana::Strength => "Strength"@,
            MajorArcana::Hermit => "The Hermit"@,
            MajorArcana::WheelOfFortune => "The Wheel of Fortune"@,
            MajorArcana::Justice => "Justice"@,
            MajorArcana::HangedMan => "The Hanged Man"@,
            MajorArcana::Death => "Death"@,
            MajorArcana::Temperance => "Temperance"@,
            MajorArcana::Devil => "The Devil"@,
            MajorArcana::Tower => "The Tower"@,
            MajorArcana::Star => "The Star"@,
            MajorArcana::Moon => "The Moon"@,
            MajorArcana::Sun => "The Sun"@,
            MajorArcana::Judgement => "Judgement"@,
            MajorArcana::World => "The World"@,
        }
    }
}

pub open spec fn spec_rank_label(r: Rank, portuguese: bool) -> Seq<char> {
    if portuguese {
        match r {
            Rank::Ace => "Ás"@,
            Rank::Two => "Dois"@,
            Rank::Three => "Três"@,
            Rank::Four => "Quatro"@,
            Rank::Five => "Cinco"@,
            Rank::Six => "Seis"@,
            Rank::Seven => "Sete"@,
            Rank::Eight => "Oito"@,
            Rank::Nine => "Nove"@,
            Rank::Ten => "Dez"@,
            Rank::Page => "Valete"@,
            Rank::Knight => "Cavaleiro"@,
            Rank::Queen => "Rainha"@,
            Rank::King => "Rei"@,
        }
    } else {
        match r {
            Rank::Ace => "Ace"@,
            Rank::Two => "Two"@,
            Rank::Three => "Three"@,
            Rank::Four => "Four"@,
            Rank::Five => "Five"@,
            Rank::Six => "Six"@,
            Rank::Seven => "Seven"@,
            Rank::Eight => "Eight"@,
            Rank::Nine => "Nine"@,
            Rank::Ten => "Ten"@,
            Rank::Page => "Page"@,
            Rank::Knight => "Knight"@,
            Rank::Queen => "Queen"@,
            Rank::King => "King"@,
        }
    }
}

pub open spec fn spec_suit_label(s: Suit, portuguese: bool) -> Seq<char> {
    if portuguese {
        match s {
            Suit::Cups => "Copas"@,
            Suit::Pentacles => "Ouros"@,
            Suit::Swords => "Espadas"@,
            Suit::Wands => "Paus"@,
        }
    } else {
        match s {
            Suit::Cups => "Cups"@,
            Suit::Pentacles => "Pentacles"@,
            Suit::Swords => "Swords"@,
            Suit::Wands => "Wands"@,
        }
    }
}

/// A minor arcana reads "rank of suit" in the requested language.
pub open spec fn spec_arcana_label(a: Arcana, portuguese: bool) -> Seq<char> {
    match a {
        Arcana::Major { name } => spec_major_label(name, portuguese),
        Arcana::Minor { rank, suit } => spec_rank_label(rank, portuguese) + (if portuguese {
            " de "@
        } else {
            " of "@
        }) + spec_suit_label(suit, portuguese),
    }
}

/// A flipped card carries a suffix naming its reversed orientation.
pub open spec fn spec_card_label(c: Card, portuguese: bool) -> Seq<char> {
    spec_arcana_label(c.arcana, portuguese) + (if c.flipped {
        if portuguese {
            " (invertida)"@
        } else {
            " (reversed)"@
        }
    } else {
        Seq::<char>::empty()
    })
}

impl MajorArcana {
    /// The card's name in the requested language.
    pub fn label(&self, locale: &Locale) -> (r: &'static str)
        ensures
            r@ == spec_major_label(*self, locale.spec_is_portuguese()),
    {
        if locale.is_portuguese() {
            match self {
                MajorArcana::Fool => "O Louco",
                MajorArcana::Magician => "O Mago",
                MajorArcana::HighPriestess => "A Sacerdotisa",
                MajorArcana::Empress => "A Imperatriz",
                MajorArcana::Emperor => "O Imperador",
                MajorArcana::Hierophant => "O Hierofante",
                MajorArcana::Lovers => "Os Enamorados",
                MajorArcana::Chariot => "O Carro",
                MajorArcana::Strength => "A Força",
                MajorArcana::Hermit => "O Eremita",
                MajorArcana::WheelOfFortune => "A Roda da Fortuna",
                MajorArcana::Justice => "A Justiça",
                MajorArcana::HangedMan => "O Enforcado",
                MajorArcana::Death => "A Morte",
                MajorArcana::Temperance => "A Temperança",
                MajorArcana::Devil => "O Diabo",
                MajorArcana::Tower => "A Torre",
                MajorArcana::Star => "A Estrela",
                MajorArcana::Moon => "A Lua",
                MajorArcana::Sun => "O Sol",
                MajorArcana::Judgement => "O Julgamento",
                MajorArcana::World => "O Mundo",
            }
        } else {
            match self {
                MajorArcana::Fool => "The Fool",
                MajorArcana::Magician => "The Magician",
                MajorArcana::HighPriestess => "The High Priestess",
                MajorArcana::Empress => "The Empress",
                MajorArcana::Emperor => "The Emperor",
                MajorArcana::Hierophant => "The Hierophant",
                MajorArcana::Lovers => "The Lovers",
                MajorArcana::Chariot => "The Chariot",
                MajorArcana::Strength => "Strength",
                MajorArcana::Hermit => "The Hermit",
                MajorArcana::WheelOfFortune => "The Wheel of Fortune",
                MajorArcana::Justice => "Justice",
                MajorArcana::HangedMan => "The Hanged Man",
                MajorArcana::Death => "Death",
                MajorArcana::Temperance => "Temperance",
                MajorArcana::Devil => "The Devil",
                MajorArcana::Tower => "The Tower",
                MajorArcana::Star => "The Star",
                MajorArcana::Moon => "The Moon",
                MajorArcana::Sun => "The Sun",
                MajorArcana::Judgement => "Judgement",
                MajorArcana::World => "The World",
            }
        }
    }
}

impl Rank {
    /// The rank's name in the requested language.
    pub fn label(&self, locale: &Locale) -> (r: &'static str)
        ensures
            r@ == spec_rank_label(*self, locale.spec_is_portuguese()),
    {
        if locale.is_portuguese() {
            match self {
                Rank::Ace => "Ás",
                Rank::Two => "Dois",
                Rank::Three => "Três",
                Rank::Four => "Quatro",
                Rank::Five => "Cinco",
                Rank::Six => "Seis",
                Rank::Seven => "Sete",
                Rank::Eight => "Oito",
                Rank::Nine => "Nove",
                Rank::Ten => "Dez",
                Rank::Page => "Valete",
                Rank::Knight => "Cavaleiro",
                Rank::Queen => "Rainha",
                Rank::King => "Rei",
            }
        } else {
            match self {
                Rank::Ace => "Ace",
                Rank::Two => "Two",
                Rank::Three => "Three",
                Rank::Four => "Four",
                Rank::Five => "Five",
                Rank::Six => "Six",
                Rank::Seven => "Seven",
                Rank::Eight => "Eight",
                Rank::Nine => "Nine",
                Rank::Ten => "Ten",
                Rank::Page => "Page",
                Rank::Knight => "Knight",
                Rank::Queen => "Queen",
                Rank::King => "King",
            }
        }
    }
}

impl Suit {
    /// The suit's name in the requested language.
    pub fn label(&self, locale: &Locale) -> (r: &'static str)
        ensures
            r@ == spec_suit_label(*self, locale.spec_is_portuguese()),
    {
        if locale.is_portuguese() {
            match self {
                Suit::Cups => "Copas",
                Suit::Pentacles => "Ouros",
                Suit::Swords => "Espadas",
                Suit::Wands => "Paus",
            }
        } else {
            match self {
                Suit::Cups => "Cups",
                Suit::Pentacles => "Pentacles",
                Suit::Swords => "Swords",
                Suit::Wands => "Wands",
            }
        }
    }
}

impl Arcana {
    /// The arcana's full name in the requested language.
    pub fn label(&self, locale: &Locale) -> (r: String)
        ensures
            r@ == spec_arcana_label(*self, locale.spec_is_portuguese()),
    {
        match self {
            Arcana::Major { name } => String::from_str(name.label(locale)),
            Arcana::Minor { rank, suit } => {
                let mut text = String::from_str(rank.label(locale));
                if locale.is_portuguese() {
                    text.append(" de ");
                } else {
                    text.append(" of ");
                }
                text.append(suit.label(locale));
                text
            },
        }
    }
}

impl Card {
    /// The card as shown to people: its arcana's name, with the reversed
    /// suffix when the card lies flipped.
    pub fn describe(&self, locale: &Locale) -> (r: String)
        ensures
            r@ == spec_card_label(*self, locale.spec_is_portuguese()),
    {
        let mut text = self.arcana.label(locale);
        if self.flipped {
            if locale.is_portuguese() {
                text.append(" (invertida)");
            } else {
                text.append(" (reversed)");
            }
        }
        proof {
            if !self.flipped {
                assert(text@ =~= spec_card_label(*self, locale.spec_is_portuguese()));
            }
        }
        text
    }
}

} // verus!
