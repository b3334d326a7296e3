//! The deck engine: the 78 fixed Arcana, the canonical deck order, and the
//! shuffle and draw procedures.

use rand::seq::SliceRandom;
use std::collections::hash_map::DefaultHasher;
use std::hash::Hasher;
use vstd::prelude::*;
use vstd::std_specs::hash::DefaultHasherAdditionalSpecFns;
use vstd::string::StringSliceAdditionalSpecFns;

verus! {

/// Number of distinct shuffle counts; the shuffle count is always below this.
pub const MAX_SHUFFLES: usize = 7033;

/// Every slice cut from the deck keeps at least this many cards, so a draw of
/// at most `MAX_DRAWS` cards always has room in principle.
pub const MAX_DRAWS: usize = 13;

#[derive(Copy, Clone, Debug, PartialEq, Eq, Structural)]
pub enum MajorArcana {
    Fool,
    Magician,
    HighPriestess,
    Empress,
    Emperor,
    Hierophant,
    Lovers,
    Chariot,
    Strength,
    Hermit,
    WheelOfFortune,
    Justice,
    HangedMan,
    Death,
    Temperance,
    Devil,
    Tower,
    Star,
    Moon,
    Sun,
    Judgement,
    World,
}

#[derive(Copy, Clone, Debug, PartialEq, Eq, Structural)]
pub enum Rank {
    Ace,
    Two,
    Three,
    Four,
    Five,
    Six,
    Seven,
    Eight,
    Nine,
    Ten,
    Page,
    Knight,
    Queen,
    King,
}

#[derive(Copy, Clone, Debug, PartialEq, Eq, Structural)]
pub enum Suit {
    Cups,
    Pentacles,
    Swords,
    Wands,
}

#[derive(Copy, Clone, Debug, PartialEq, Eq, Structural)]
pub enum Arcana {
    Major { name: MajorArcana },
    Minor { rank: Rank, suit: Suit },
}

#[derive(Copy, Clone, Debug, PartialEq, Eq, Structural)]
pub struct Card {
    pub arcana: Arcana,
    pub flipped: bool,
}

/// The fixed sequence of the 22 major arcana.
pub open spec fn major_of(i: int) -> MajorArcana {
    if i == 0 {
        MajorArcana::Fool
    } else if i == 1 {
        MajorArcana::Magician
    } else if i == 2 {
        MajorArcana::HighPriestess
    } else if i == 3 {
        MajorArcana::Empress
    } else if i == 4 {
        MajorArcana::Emperor
    } else if i == 5 {
        MajorArcana::Hierophant
    } else if i == 6 {
        MajorArcana::Lovers
    } else if i == 7 {
        MajorArcana::Chariot
    } else if i == 8 {
        MajorArcana::Strength
    } else if i == 9 {
        MajorArcana::Hermit
    } else if i == 10 {
        MajorArcana::WheelOfFortune
    } else if i == 11 {
        MajorArcana::Justice
    } else if i == 12 {
        MajorArcana::HangedMan
    } else if i == 13 {
        MajorArcana::Death
    } else if i == 14 {
        MajorArcana::Temperance
    } else if i == 15 {
        MajorArcana::Devil
    } else if i == 16 {
        MajorArcana::Tower
    } else if i == 17 {
        MajorArcana::Star
    } else if i == 18 {
        MajorArcana::Moon
    } else if i == 19 {
        MajorArcana::Sun
    } else if i == 20 {
        MajorArcana::Judgement
    } else {
        MajorArcana::World
    }
}

/// Position of a major arcana in the fixed sequence.
pub open spec fn major_index(m: MajorArcana) -> int {
    match m {
        MajorArcana::Fool => 0,
        MajorArcana::Magician => 1,
        MajorArcana::HighPriestess => 2,
        MajorArcana::Empress => 3,
        MajorArcana::Emperor => 4,
        MajorArcana::Hierophant => 5,
        MajorArcana::Lovers => 6,
        MajorArcana::Chariot => 7,
        MajorArcana::Strength => 8,
        MajorArcana::Hermit => 9,
        MajorArcana::WheelOfFortune => 10,
        MajorArcana::Justice => 11,
        MajorArcana::HangedMan => 12,
        MajorArcana::Death => 13,
        MajorArcana::Temperance => 14,
        MajorArcana::Devil => 15,
        MajorArcana::Tower => 16,
        MajorArcana::Star => 17,
        MajorArcana::Moon => 18,
        MajorArcana::Sun => 19,
        MajorArcana::Judgement => 20,
        MajorArcana::World => 21,
    }
}

/// The fixed sequence of the 14 ranks.
pub open spec fn rank_of(i: int) -> Rank {
    if i == 0 {
        Rank::Ace
    } else if i == 1 {
        Rank::Two
    } else if i == 2 {
        Rank::Three
    } else if i == 3 {
        Rank::Four
    } else if i == 4 {
        Rank::Five
    } else if i == 5 {
        Rank::Six
    } else if i == 6 {
        Rank::Seven
    } else if i == 7 {
        Rank::Eight
    } else if i == 8 {
        Rank::Nine
    } else if i == 9 {
        Rank::Ten
    } else if i == 10 {
        Rank::Page
    } else if i == 11 {
        Rank::Knight
    } else if i == 12 {
        Rank::Queen
    } else {
        Rank::King
    }
}

/// Position of a rank in the fixed sequence.
pub open spec fn rank_index(r: Rank) -> int {
    match r {
        Rank::Ace => 0,
        Rank::Two => 1,
        Rank::Three => 2,
        Rank::Four => 3,
        Rank::Five => 4,
        Rank::Six => 5,
        Rank::Seven => 6,
        Rank::Eight => 7,
        Rank::Nine => 8,
        Rank::Ten => 9,
        Rank::Page => 10,
        Rank::Knight => 11,
        Rank::Queen => 12,
        Rank::King => 13,
    }
}

/// The fixed sequence of the 4 suits.
pub open spec fn suit_of(i: int) -> Suit {
    if i == 0 {
        Suit::Cups
    } else if i == 1 {
        Suit::Pentacles
    } else if i == 2 {
        Suit::Swords
    } else {
        Suit::Wands
    }
}

/// Position of a suit in the fixed sequence.
pub open spec fn suit_index(s: Suit) -> int {
    match s {
        Suit::Cups => 0,
        Suit::Pentacles => 1,
        Suit::Swords => 2,
        Suit::Wands => 3,
    }
}

/// The card at a given position of a freshly built deck: the 22 majors first,
/// then the minors grouped by suit, ranks in order within each suit.
pub open spec fn canonical_card(i: int) -> Card {
    if i < 22 {
        Card { arcana: Arcana::Major { name: major_of(i) }, flipped: false }
    } else {
        Card {
            arcana: Arcana::Minor { rank: rank_of((i - 22) % 14), suit: suit_of((i - 22) / 14) },
            flipped: false,
        }
    }
}

/// The canonical order of a freshly built deck.
pub open spec fn canonical_deck() -> Seq<Card> {
    Seq::new(78, |i: int| canonical_card(i))
}

/// Projection of a card sequence to its arcana.
pub open spec fn arcana_seq(cards: Seq<Card>) -> Seq<Arcana> {
    cards.map_values(|c: Card| c.arcana)
}

/// Each position of the canonical deck holds a different arcana.
pub proof fn lemma_canonical_injective(i: int, j: int)
    requires
        0 <= i < 78,
        0 <= j < 78,
        canonical_card(i).arcana == canonical_card(j).arcana,
    ensures
        i == j,
{
    if i < 22 && j < 22 {
        assert(major_index(major_of(i)) == i);
        assert(major_index(major_of(j)) == j);
    } else if i >= 22 && j >= 22 {
        assert(rank_index(rank_of((i - 22) % 14)) == (i - 22) % 14);
        assert(rank_index(rank_of((j - 22) % 14)) == (j - 22) % 14);
        assert(suit_index(suit_of((i - 22) / 14)) == (i - 22) / 14);
        assert(suit_index(suit_of((j - 22) / 14)) == (j - 22) / 14);
        assert(i - 22 == 14 * ((i - 22) / 14) + (i - 22) % 14);
        assert(j - 22 == 14 * ((j - 22) / 14) + (j - 22) % 14);
    }
}

/// No arcana repeats in the canonical deck.
pub proof fn lemma_canonical_no_duplicates()
    ensures
        arcana_seq(canonical_deck()).no_duplicates(),
{
    let a = arcana_seq(canonical_deck());
    assert forall|i: int, j: int| 0 <= i < a.len() && 0 <= j < a.len() && i != j implies a[i]
        != a[j] by {
        if a[i] == a[j] {
            lemma_canonical_injective(i, j);
        }
    }
}

/// Building the deck is deterministic: two freshly built decks hold the same
/// arcana sequence, and every card starts unflipped.
pub proof fn lemma_build_deterministic(a: Deck, b: Deck)
    requires
        a.cards@ == canonical_deck(),
        b.cards@ == canonical_deck(),
    ensures
        arcana_seq(a.cards@) == arcana_seq(b.cards@),
        a.cards@ == b.cards@,
        forall|k: int| 0 <= k < a.cards@.len() ==> !(#[trigger] a.cards@[k]).flipped,
{
}

/// However often a freshly built deck was shuffled, it still carries exactly
/// the arcana of the canonical deck: a shuffle permutes, never drops or
/// duplicates.
pub proof fn lemma_shuffle_keeps_all_arcana(built: Deck, shuffled: Deck)
    requires
        built.cards@ == canonical_deck(),
        arcana_seq(shuffled.cards@).to_multiset() == arcana_seq(built.cards@).to_multiset(),
    ensures
        shuffled.wf(),
        arcana_seq(shuffled.cards@).to_multiset() == arcana_seq(canonical_deck()).to_multiset(),
{
}

#[derive(Clone, Debug, PartialEq, Eq)]
pub struct Deck {
    pub cards: Vec<Card>,
}

impl Deck {
    /// A deck is well-formed when its cards carry, in some order, exactly the
    /// arcana of the canonical deck.
    pub open spec fn wf(self) -> bool {
        arcana_seq(self.cards@).to_multiset() == arcana_seq(canonical_deck()).to_multiset()
    }

    /// A well-formed deck holds 78 cards, no arcana twice.
    pub proof fn lemma_wf_shape(self)
        requires
            self.wf(),
        ensures
            self.cards@.len() == 78,
            arcana_seq(self.cards@).no_duplicates(),
    {
        let a = arcana_seq(self.cards@);
        let c = arcana_seq(canonical_deck());
        lemma_canonical_no_duplicates();
        a.to_multiset_ensures();
        c.to_multiset_ensures();
        c.lemma_multiset_has_no_duplicates();
        assert(a.len() == a.to_multiset().len());
        assert(forall|x: Arcana| a.to_multiset().contains(x) ==> a.to_multiset().count(x) == 1);
        a.lemma_multiset_has_no_duplicates_conv();
    }

    /// Builds the canonical deck: all 78 arcana, unflipped, in the fixed
    /// order, the same sequence on every call.
    pub fn build() -> (deck: Deck)
        ensures
            deck.cards@ == canonical_deck(),
            deck.wf(),
    {
        let mut cards: Vec<Card> = Vec::new();
        let mut i: usize = 0;
        while i < 22
            invariant
                i <= 22,
                cards@.len() == i,
                forall|k: int| 0 <= k < i ==> cards@[k] == canonical_card(k),
            decreases 22 - i,
        {
            cards.push(Card { arcana: Arcana::Major { name: major_from_index(i) }, flipped: false });
            i = i + 1;
        }
        let mut s: usize = 0;
        while s < 4
            invariant
                s <= 4,
                cards@.len() == 22 + s * 14,
                forall|k: int| 0 <= k < cards@.len() ==> cards@[k] == canonical_card(k),
            decreases 4 - s,
        {
            let mut r: usize = 0;
            while r < 14
                invariant
                    s < 4,
                    r <= 14,
                    cards@.len() == 22 + s * 14 + r,
                    forall|k: int| 0 <= k < cards@.len() ==> cards@[k] == canonical_card(k),
                decreases 14 - r,
            {
                let card = Card {
                    arcana: Arcana::Minor { rank: rank_from_index(r), suit: suit_from_index(s) },
                    flipped: false,
                };
                proof {
                    let k: int = 22 + s * 14 + r;
                    assert((k - 22) % 14 == r && (k - 22) / 14 == s as int) by (nonlinear_arith)
                        requires
                            k == 22 + s * 14 + r,
                            0 <= r < 14,
                            0 <= s < 4,
                    ;
                }
                cards.push(card);
                r = r + 1;
            }
            s = s + 1;
        }
        let deck = Deck { cards };
        proof {
            assert(deck.cards@ =~= canonical_deck());
        }
        deck
    }

    /// Shuffles the deck in place. The count of shuffle rounds mixes a stable
    /// hash of the question with fresh randomness, each reduced modulo
    /// `MAX_SHUFFLES`; every round permutes the cards and re-flips each card
    /// at random. Whatever the randomness, the deck afterwards carries
    /// exactly the arcana it carried before.
    pub fn shuffle(&mut self, question: &str) -> (shuffles: usize)
        requires
            old(self).wf(),
        ensures
            final(self).wf(),
            arcana_seq(final(self).cards@).to_multiset() == arcana_seq(
                old(self).cards@,
            ).to_multiset(),
            shuffles < MAX_SHUFFLES,
    {
        let question_hash: usize = question_component(question);
        let base_shuffle_count: usize = (random_u32() as usize) % MAX_SHUFFLES;
        let shuffles: usize = (question_hash + base_shuffle_count) % MAX_SHUFFLES;
        let mut n: usize = 0;
        while n < shuffles
            invariant
                arcana_seq(self.cards@).to_multiset() == arcana_seq(
                    old(self).cards@,
                ).to_multiset(),
            decreases shuffles - n,
        {
            shuffle_in_place(&mut self.cards);
            self.flip_random();
            n = n + 1;
        }
        shuffles
    }

    /// Gives every card a fresh random orientation, leaving the arcana at
    /// each position untouched.
    fn flip_random(&mut self)
        ensures
            final(self).cards@.len() == old(self).cards@.len(),
            forall|k: int|
                0 <= k < old(self).cards@.len() ==> final(self).cards@[k].arcana == old(
                    self,
                ).cards@[k].arcana,
            arcana_seq(final(self).cards@).to_multiset() == arcana_seq(
                old(self).cards@,
            ).to_multiset(),
    {
        let mut turned: Vec<Card> = Vec::new();
        let n: usize = self.cards.len();
        let mut i: usize = 0;
        while i < n
            invariant
                i <= n,
                n == self.cards@.len(),
                self.cards@ == old(self).cards@,
                turned@.len() == i,
                forall|k: int| 0 <= k < i ==> turned@[k].arcana == self.cards@[k].arcana,
            decreases n - i,
        {
            let card = Card { arcana: self.cards[i].arcana, flipped: random_flip() };
            turned.push(card);
            i = i + 1;
        }
        self.cards = turned;
        proof {
            assert(arcana_seq(self.cards@) =~= arcana_seq(old(self).cards@));
        }
    }

    /// Cuts the deck into three contiguous slices of at least `MAX_DRAWS`
    /// cards each, the two cut points chosen at random.
    pub fn slice(&self) -> (slices: Vec<Vec<Card>>)
        requires
            self.wf(),
        ensures
            slices@.len() == 3,
            slices@[0]@ + slices@[1]@ + slices@[2]@ == self.cards@,
            forall|k: int| 0 <= k < 3 ==> #[trigger] slices@[k]@.len() >= MAX_DRAWS,
    {
        proof {
            self.lemma_wf_shape();
        }
        let (c1, c2): (usize, usize) = random_cut_points();
        let first = copy_range(&self.cards, 0, c1);
        let second = copy_range(&self.cards, c1, c2);
        let third = copy_range(&self.cards, c2, 78);
        let mut slices: Vec<Vec<Card>> = Vec::new();
        slices.push(first);
        slices.push(second);
        slices.push(third);
        proof {
            assert(slices@[0]@ + slices@[1]@ + slices@[2]@ =~= self.cards@);
        }
        slices
    }

    /// Draws `count` cards from one randomly chosen contiguous slice of the
    /// deck: distinct positions picked at random, read out in deck order, so
    /// no arcana can repeat in the result. Collisions are retried a bounded
    /// number of times, after which the remaining positions are taken by a
    /// sweep; a `count` that reaches the chosen slice's length — on which a
    /// bare retry loop could never finish — falls back to drawing from the
    /// whole deck.
    pub fn draw(&self, count: usize) -> (drawn: Vec<Card>)
        requires
            self.wf(),
            count <= 78 - 2 * MAX_DRAWS,
        ensures
            drawn@.len() == count,
            arcana_seq(drawn@).no_duplicates(),
            exists|positions: Seq<int>| drawn_at(self.cards@, positions, drawn@),
    {
        proof {
            self.lemma_wf_shape();
        }
        let (c1, c2): (usize, usize) = random_cut_points();
        let pick: usize = random_between(0, 3);
        let (slice_lo, slice_hi): (usize, usize) = if pick == 0 {
            (0, c1)
        } else if pick == 1 {
            (c1, c2)
        } else {
            (c2, 78)
        };
        let (lo, hi): (usize, usize) = if count < slice_hi - slice_lo {
            (slice_lo, slice_hi)
        } else {
            (0, 78)
        };
        let len: usize = hi - lo;
        let mut mask: Vec<bool> = vec![false; len];
        proof {
            lemma_count_true_all_false(mask@);
        }
        let mut selected: usize = 0;
        let mut budget: usize = 8 * (78 - 2 * MAX_DRAWS);
        while selected < count && budget > 0
            invariant
                mask@.len() == len,
                selected as int == count_true(mask@),
                selected <= count,
                count < len,
            decreases budget,
        {
            budget = budget - 1;
            let index: usize = random_between(0, len);
            if !mask[index] {
                proof {
                    lemma_count_true_update(mask@, index as int);
                }
                mask[index] = true;
                selected = selected + 1;
            }
        }
        let mut q: usize = 0;
        while selected < count
            invariant
                mask@.len() == len,
                selected as int == count_true(mask@),
                selected <= count,
                count < len,
                q <= len,
                forall|k: int| 0 <= k < q ==> mask@[k],
            decreases len - q,
        {
            proof {
                if q == len {
                    lemma_count_true_all_true(mask@);
                }
            }
            if !mask[q] {
                proof {
                    lemma_count_true_update(mask@, q as int);
                }
                mask[q] = true;
                selected = selected + 1;
            }
            q = q + 1;
        }
        let mut drawn: Vec<Card> = Vec::new();
        let ghost mut positions: Seq<int> = Seq::empty();
        let mut p: usize = 0;
        while p < len
            invariant
                p <= len,
                mask@.len() == len,
                lo + len == hi,
                hi <= 78,
                self.cards@.len() == 78,
                count_true(mask@) == count,
                drawn@.len() == count_true(mask@.subrange(0, p as int)),
                positions.len() == drawn@.len(),
                forall|k: int|
                    0 <= k < positions.len() ==> lo <= #[trigger] positions[k] < lo + p
                        && drawn@[k] == self.cards@[positions[k]],
                forall|a: int, b: int|
                    0 <= a < b < positions.len() ==> positions[a] < positions[b],
            decreases len - p,
        {
            proof {
                assert(mask@.subrange(0, p + 1).drop_last() =~= mask@.subrange(0, p as int));
                assert(mask@.subrange(0, p + 1).last() == mask@[p as int]);
            }
            if mask[p] {
                drawn.push(self.cards[lo + p]);
                proof {
                    positions = positions.push((lo + p) as int);
                }
            }
            p = p + 1;
        }
        proof {
            assert(mask@.subrange(0, len as int) =~= mask@);
            assert(arcana_seq(self.cards@).no_duplicates());
            assert forall|a: int, b: int|
                0 <= a < b < drawn@.len() implies arcana_seq(drawn@)[a] != arcana_seq(
                drawn@,
            )[b] by {
                assert(arcana_seq(self.cards@)[positions[a]] == self.cards@[positions[a]].arcana);
                assert(arcana_seq(self.cards@)[positions[b]] == self.cards@[positions[b]].arcana);
            }
            assert(drawn_at(self.cards@, positions, drawn@));
        }
        drawn
    }
}

impl Default for Deck {
    /// A fresh deck in canonical order.
    fn default() -> (deck: Deck)
        ensures
            deck.cards@ == canonical_deck(),
            deck.wf(),
    {
        Deck::build()
    }
}

/// Two random cut points that leave all three slices of the deck with at
/// least `MAX_DRAWS` cards.
fn random_cut_points() -> (r: (usize, usize))
    ensures
        MAX_DRAWS <= r.0,
        r.0 + MAX_DRAWS <= r.1,
        r.1 + MAX_DRAWS <= 78,
{
    let c1: usize = random_between(MAX_DRAWS, 70 - MAX_DRAWS * 2);
    let c2: usize = random_between(c1 + MAX_DRAWS, 77 - MAX_DRAWS);
    (c1, c2)
}

/// Copies `cards[from..to]` into a fresh vector.
fn copy_range(cards: &Vec<Card>, from: usize, to: usize) -> (out: Vec<Card>)
    requires
        from <= to <= cards@.len(),
    ensures
        out@ == cards@.subrange(from as int, to as int),
{
    let mut out: Vec<Card> = Vec::new();
    let mut i: usize = from;
    while i < to
        invariant
            from <= i <= to <= cards@.len(),
            out@.len() == i - from,
            forall|k: int| 0 <= k < out@.len() ==> out@[k] == cards@[from + k],
        decreases to - i,
    {
        out.push(cards[i]);
        i = i + 1;
    }
    proof {
        assert(out@ =~= cards@.subrange(from as int, to as int));
    }
    out
}

/// How many entries of a boolean sequence are set.
pub open spec fn count_true(s: Seq<bool>) -> int
    decreases s.len(),
{
    if s.len() == 0 {
        0
    } else {
        count_true(s.drop_last()) + if s.last() {
            1int
        } else {
            0int
        }
    }
}

proof fn lemma_count_true_all_false(s: Seq<bool>)
    requires
        forall|k: int| 0 <= k < s.len() ==> !s[k],
    ensures
        count_true(s) == 0,
    decreases s.len(),
{
    if s.len() > 0 {
        lemma_count_true_all_false(s.drop_last());
    }
}

proof fn lemma_count_true_all_true(s: Seq<bool>)
    requires
        forall|k: int| 0 <= k < s.len() ==> s[k],
    ensures
        count_true(s) == s.len(),
    decreases s.len(),
{
    if s.len() > 0 {
        lemma_count_true_all_true(s.drop_last());
    }
}

proof fn lemma_count_true_update(s: Seq<bool>, i: int)
    requires
        0 <= i < s.len(),
        !s[i],
    ensures
        count_true(s.update(i, true)) == count_true(s) + 1,
    decreases s.len(),
{
    let t = s.update(i, true);
    if i == s.len() - 1 {
        assert(t.drop_last() =~= s.drop_last());
    } else {
        assert(t.drop_last() =~= s.drop_last().update(i, true));
        lemma_count_true_update(s.drop_last(), i);
    }
}

/// `out` is `deck` read at `positions`, which are in bounds and strictly
/// increasing: a draw preserves the deck's relative order.
pub open spec fn drawn_at(deck: Seq<Card>, positions: Seq<int>, out: Seq<Card>) -> bool {
    &&& positions.len() == out.len()
    &&& forall|k: int|
        0 <= k < positions.len() ==> 0 <= #[trigger] positions[k] < deck.len() && out[k]
            == deck[positions[k]]
    &&& forall|a: int, b: int| 0 <= a < b < positions.len() ==> positions[a] < positions[b]
}

/// The stable component the question contributes to the shuffle count.
pub open spec fn question_component_of(q: &str) -> int {
    (DefaultHasher::spec_finish(Seq::<Seq<u8>>::empty().push(q.spec_bytes())) as int) % (
    MAX_SHUFFLES as int)
}

/// Hashes the question down to a shuffle-count bias: a pure function of the
/// question's bytes.
fn question_component(question: &str) -> (r: usize)
    ensures
        r as int == question_component_of(question),
        r < MAX_SHUFFLES,
{
    let mut hasher = DefaultHasher::new();
    hasher.write(question.as_bytes());
    let h: u64 = hasher.finish();
    (h % (MAX_SHUFFLES as u64)) as usize
}

/// Relies on rand::random: an arbitrary 32-bit value; nothing is assumed of it.
#[verifier::external_body]
fn random_u32() -> u32 {
    rand::random::<u32>()
}

/// Relies on rand::random: an arbitrary coin flip; nothing is assumed of it.
#[verifier::external_body]
fn random_flip() -> bool {
    rand::random::<bool>()
}

/// Relies on rand::random_range: a value inside `lo..hi`; the precondition
/// keeps the range non-empty, on which rand panics.
#[verifier::external_body]
fn random_between(lo: usize, hi: usize) -> (r: usize)
    requires
        lo < hi,
    ensures
        lo <= r < hi,
{
    rand::random_range(lo..hi)
}

/// Relies on rand's SliceRandom::shuffle: it permutes the slice in place, so
/// the cards — and any projection of them — keep their multiset.
#[verifier::external_body]
fn shuffle_in_place(cards: &mut Vec<Card>)
    ensures
        final(cards)@.len() == old(cards)@.len(),
        final(cards)@.to_multiset() == old(cards)@.to_multiset(),
        arcana_seq(final(cards)@).to_multiset() == arcana_seq(old(cards)@).to_multiset(),
{
    cards.as_mut_slice().shuffle(&mut rand::rng());
}

fn major_from_index(i: usize) -> (m: MajorArcana)
    requires
        i < 22,
    ensures
        m == major_of(i as int),
{
    if i == 0 {
        MajorArcana::Fool
    } else if i == 1 {
        MajorArcana::Magician
    } else if i == 2 {
        MajorArcana::HighPriestess
    } else if i == 3 {
        MajorArcana::Empress
    } else if i == 4 {
        MajorArcana::Emperor
    } else if i == 5 {
        MajorArcana::Hierophant
    } else if i == 6 {
        MajorArcana::Lovers
    } else if i == 7 {
        MajorArcana::Chariot
    } else if i == 8 {
        MajorArcana::Strength
    } else if i == 9 {
        MajorArcana::Hermit
    } else if i == 10 {
        MajorArcana::WheelOfFortune
    } else if i == 11 {
        MajorArcana::Justice
    } else if i == 12 {
        MajorArcana::HangedMan
    } else if i == 13 {
        MajorArcana::Death
    } else if i == 14 {
        MajorArcana::Temperance
    } else if i == 15 {
        MajorArcana::Devil
    } else if i == 16 {
        MajorArcana::Tower
    } else if i == 17 {
        MajorArcana::Star
    } else if i == 18 {
        MajorArcana::Moon
    } else if i == 19 {
        MajorArcana::Sun
    } else if i == 20 {
        MajorArcana::Judgement
    } else {
        MajorArcana::World
    }
}

fn rank_from_index(i: usize) -> (r: Rank)
    requires
        i < 14,
    ensures
        r == rank_of(i as int),
{
    if i == 0 {
        Rank::Ace
    } else if i == 1 {
        Rank::Two
    } else if i == 2 {
        Rank::Three
    } else if i == 3 {
        Rank::Four
    } else if i == 4 {
        Rank::Five
    } else if i == 5 {
        Rank::Six
    } else if i == 6 {
        Rank::Seven
    } else if i == 7 {
        Rank::Eight
    } else if i == 8 {
        Rank::Nine
    } else if i == 9 {
        Rank::Ten
    } else if i == 10 {
        Rank::Page
    } else if i == 11 {
        Rank::Knight
    } else if i == 12 {
        Rank::Queen
    } else {
        Rank::King
    }
}

fn suit_from_index(i: usize) -> (s: Suit)
    requires
        i < 4,
    ensures
        s == suit_of(i as int),
{
    if i == 0 {
        Suit::Cups
    } else if i == 1 {
        Suit::Pentacles
    } else if i == 2 {
        Suit::Swords
    } else {
        Suit::Wands
    }
}

} // verus!
