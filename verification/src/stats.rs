//! Aggregate statistics over all readings: how often each arcana was drawn,
//! flipped or upright, and which arcana never came up. Counts are exact; the
//! derived percentages are display work and stay at the boundary.

use crate::deck::canonical_card;
use crate::deck::lemma_canonical_injective;
use crate::deck::major_index;
use crate::deck::major_of;
use crate::deck::rank_index;
use crate::deck::rank_of;
use crate::deck::suit_index;
use crate::deck::suit_of;
use crate::deck::Arcana;
use crate::deck::Card;
use crate::deck::Deck;
use crate::reading::Reading;
use vstd::prelude::*;

verus! {

#[derive(Clone, Debug)]
pub struct Stats {
    pub total_readings: u64,
    pub total_cards_drawn: u64,
    pub arcana_stats: Vec<ArcanaStats>,
    pub never_drawn: Vec<Arcana>,
}

#[derive(Copy, Clone, Debug)]
pub struct ArcanaStats {
    pub arcana: Arcana,
    pub drawn_flipped_count: u64,
    pub drawn_count: u64,
    pub total_count: u64,
}

impl ArcanaStats {
    /// A zeroed entry for one arcana.
    pub fn new(arcana: Arcana) -> (r: ArcanaStats)
        ensures
            r.arcana == arcana,
            r.drawn_flipped_count == 0,
            r.drawn_count == 0,
            r.total_count == 0,
    {
        ArcanaStats { arcana, drawn_flipped_count: 0, drawn_count: 0, total_count: 0 }
    }
}

/// All cards drawn across the readings, in order.
pub open spec fn drawn_cards(readings: Seq<Reading>) -> Seq<Card>
    decreases readings.len(),
{
    if readings.len() == 0 {
        Seq::empty()
    } else {
        drawn_cards(readings.drop_last()) + readings.last().cards@
    }
}

/// How often an arcana occurs among the cards.
pub open spec fn count_arcana(cards: Seq<Card>, a: Arcana) -> int
    decreases cards.len(),
{
    if cards.len() == 0 {
        0
    } else {
        count_arcana(cards.drop_last(), a) + if cards.last().arcana == a {
            1int
        } else {
            0int
        }
    }
}

/// How often an arcana occurs flipped among the cards.
pub open spec fn count_flipped_arcana(cards: Seq<Card>, a: Arcana) -> int
    decreases cards.len(),
{
    if cards.len() == 0 {
        0
    } else {
        count_flipped_arcana(cards.drop_last(), a) + if cards.last().arcana == a
            && cards.last().flipped {
            1int
        } else {
            0int
        }
    }
}

proof fn lemma_count_arcana_bounds(cards: Seq<Card>, a: Arcana)
    ensures
        0 <= count_flipped_arcana(cards, a) <= count_arcana(cards, a) <= cards.len(),
    decreases cards.len(),
{
    if cards.len() > 0 {
        lemma_count_arcana_bounds(cards.drop_last(), a);
    }
}

proof fn lemma_drawn_cards_len_bounds(readings: Seq<Reading>, i: int)
    requires
        0 <= i <= readings.len(),
    ensures
        drawn_cards(readings.subrange(0, i)).len() <= drawn_cards(readings).len(),
    decreases readings.len() - i,
{
    if i < readings.len() {
        lemma_drawn_cards_len_bounds(readings, i + 1);
        assert(readings.subrange(0, i + 1).drop_last() =~= readings.subrange(0, i));
        assert(readings.subrange(0, readings.len() as int) =~= readings);
    } else {
        assert(readings.subrange(0, i) =~= readings);
    }
}

/// Every arcana value has a place in the canonical deck.
pub proof fn lemma_arcana_is_canonical(a: Arcana)
    ensures
        exists|i: int| 0 <= i < 78 && (#[trigger] canonical_card(i)).arcana == a,
{
    match a {
        Arcana::Major { name } => {
            let i = major_index(name);
            assert(major_of(major_index(name)) == name);
            assert(canonical_card(i).arcana == a);
        },
        Arcana::Minor { rank, suit } => {
            let i = 22 + 14 * suit_index(suit) + rank_index(rank);
            assert((i - 22) % 14 == rank_index(rank) && (i - 22) / 14 == suit_index(suit))
                by (nonlinear_arith)
                requires
                    i == 22 + 14 * suit_index(suit) + rank_index(rank),
                    0 <= rank_index(rank) < 14,
                    0 <= suit_index(suit) < 4,
            ;
            assert(rank_of(rank_index(rank)) == rank);
            assert(suit_of(suit_index(suit)) == suit);
            assert(canonical_card(i).arcana == a);
        },
    }
}

/// Counts how often the arcana was drawn across all readings, and how often
/// it came up flipped.
fn count_in_readings(readings: &Vec<Reading>, a: Arcana) -> (r: (u64, u64))
    requires
        drawn_cards(readings@).len() <= u64::MAX,
    ensures
        r.0 as int == count_arcana(drawn_cards(readings@), a),
        r.1 as int == count_flipped_arcana(drawn_cards(readings@), a),
{
    let n: usize = readings.len();
    let mut total: u64 = 0;
    let mut flipped: u64 = 0;
    let mut i: usize = 0;
    while i < n
        invariant
            i <= n,
            n == readings@.len(),
            drawn_cards(readings@).len() <= u64::MAX,
            total as int == count_arcana(drawn_cards(readings@.subrange(0, i as int)), a),
            flipped as int == count_flipped_arcana(drawn_cards(readings@.subrange(0, i as int)), a),
        decreases n - i,
    {
        let ghost done = drawn_cards(readings@.subrange(0, i as int));
        let cards = &readings[i].cards;
        let m: usize = cards.len();
        let mut j: usize = 0;
        while j < m
            invariant
                j <= m,
                i < n,
                n == readings@.len(),
                m == cards@.len(),
                cards@ == readings@[i as int].cards@,
                drawn_cards(readings@).len() <= u64::MAX,
                done == drawn_cards(readings@.subrange(0, i as int)),
                total as int == count_arcana(done + cards@.subrange(0, j as int), a),
                flipped as int == count_flipped_arcana(done + cards@.subrange(0, j as int), a),
            decreases m - j,
        {
            proof {
                assert((done + cards@.subrange(0, j + 1)).drop_last() =~= done + cards@.subrange(
                    0,
                    j as int,
                ));
                assert((done + cards@.subrange(0, j + 1)).last() == cards@[j as int]);
                assert(readings@.subrange(0, i + 1).drop_last() =~= readings@.subrange(
                    0,
                    i as int,
                ));
                assert(drawn_cards(readings@.subrange(0, i + 1)) == done
                    + readings@[i as int].cards@);
                lemma_drawn_cards_len_bounds(readings@, i + 1);
                lemma_count_arcana_bounds(done + cards@.subrange(0, j + 1), a);
                assert((done + cards@.subrange(0, j + 1)).len() <= (done + cards@).len());
            }
            let card = cards[j];
            if card.arcana == a {
                total = total + 1;
                if card.flipped {
                    flipped = flipped + 1;
                }
            }
            j = j + 1;
        }
        proof {
            assert(cards@.subrange(0, m as int) =~= cards@);
            assert(readings@.subrange(0, i + 1).drop_last() =~= readings@.subrange(0, i as int));
            assert(drawn_cards(readings@.subrange(0, i + 1)) == done + cards@);
        }
        i = i + 1;
    }
    proof {
        assert(readings@.subrange(0, n as int) =~= readings@);
    }
    (total, flipped)
}

/// The entry for position `w` of the canonical deck: that arcana, with its
/// exact counts over all drawn cards.
pub open spec fn entry_ok(e: ArcanaStats, readings: Seq<Reading>, w: int) -> bool {
    &&& e.arcana == canonical_card(w).arcana
    &&& e.total_count as int == count_arcana(drawn_cards(readings), e.arcana)
    &&& e.drawn_flipped_count as int == count_flipped_arcana(drawn_cards(readings), e.arcana)
    &&& e.drawn_count as int == e.total_count - e.drawn_flipped_count
}

/// Every arcana is accounted for: one that was drawn at all has its entry,
/// one that never came up stands among the never-drawn.
pub open spec fn covers_arcana(
    entries: Seq<ArcanaStats>,
    never: Seq<Arcana>,
    cards: Seq<Card>,
    a: Arcana,
) -> bool {
    &&& (count_arcana(cards, a) > 0 ==> exists|k: int|
        0 <= k < entries.len() && (#[trigger] entries[k]).arcana == a)
    &&& (count_arcana(cards, a) == 0 ==> exists|k: int|
        0 <= k < never.len() && (#[trigger] never[k]) == a)
}

/// Walks every reading and every drawn card: the totals, the per-arcana
/// counts in the deck's canonical order (only arcana that were drawn at
/// all), and the arcana never drawn.
#[verifier::rlimit(50)]
pub fn calculate_stats(readings: &Vec<Reading>) -> (stats: Stats)
    requires
        readings@.len() <= u64::MAX,
        drawn_cards(readings@).len() <= u64::MAX,
    ensures
        stats.total_readings as int == readings@.len(),
        stats.total_cards_drawn as int == drawn_cards(readings@).len(),
        forall|k: int|
            0 <= k < stats.arcana_stats@.len() ==> {
                let e = #[trigger] stats.arcana_stats@[k];
                &&& e.total_count as int == count_arcana(drawn_cards(readings@), e.arcana)
                &&& e.drawn_flipped_count as int == count_flipped_arcana(
                    drawn_cards(readings@),
                    e.arcana,
                )
                &&& e.drawn_count as int == e.total_count - e.drawn_flipped_count
                &&& e.total_count > 0
            },
        forall|k1: int, k2: int|
            0 <= k1 < k2 < stats.arcana_stats@.len() ==> (#[trigger] stats.arcana_stats@[k1]).arcana
                != (#[trigger] stats.arcana_stats@[k2]).arcana,
        forall|k: int|
            0 <= k < stats.never_drawn@.len() ==> count_arcana(
                drawn_cards(readings@),
                #[trigger] stats.never_drawn@[k],
            ) == 0,
        forall|a: Arcana|
            covers_arcana(stats.arcana_stats@, stats.never_drawn@, drawn_cards(readings@), a),
{
    let deck = Deck::build();
    let total_readings = readings.len() as u64;
    let total_cards_drawn = count_all_cards(readings);
    let mut per: Vec<ArcanaStats> = Vec::new();
    let mut k: usize = 0;
    while k < 78
        invariant
            k <= 78,
            deck.cards@ == crate::deck::canonical_deck(),
            drawn_cards(readings@).len() <= u64::MAX,
            per@.len() == k,
            forall|w: int| 0 <= w < k ==> entry_ok(#[trigger] per@[w], readings@, w),
        decreases 78 - k,
    {
        let a = deck.cards[k].arcana;
        let (total, flipped) = count_in_readings(readings, a);
        proof {
            lemma_count_arcana_bounds(drawn_cards(readings@), a);
        }
        per.push(
            ArcanaStats {
                arcana: a,
                drawn_flipped_count: flipped,
                drawn_count: total - flipped,
                total_count: total,
            },
        );
        k = k + 1;
    }
    let (arcana_stats, never_drawn) = split_by_drawn(&per, Ghost(readings@));
    Stats { total_readings, total_cards_drawn, arcana_stats, never_drawn }
}

/// Splits the canonical entries into those that were drawn at all and the
/// arcana that never came up.
#[verifier::rlimit(50)]
fn split_by_drawn(per: &Vec<ArcanaStats>, readings: Ghost<Seq<Reading>>) -> (r: (
    Vec<ArcanaStats>,
    Vec<Arcana>,
))
    requires
        per@.len() == 78,
        forall|w: int| 0 <= w < 78 ==> entry_ok(#[trigger] per@[w], readings@, w),
    ensures
        forall|k: int|
            0 <= k < r.0@.len() ==> {
                let e = #[trigger] r.0@[k];
                &&& e.total_count as int == count_arcana(drawn_cards(readings@), e.arcana)
                &&& e.drawn_flipped_count as int == count_flipped_arcana(
                    drawn_cards(readings@),
                    e.arcana,
                )
                &&& e.drawn_count as int == e.total_count - e.drawn_flipped_count
                &&& e.total_count > 0
            },
        forall|k1: int, k2: int|
            0 <= k1 < k2 < r.0@.len() ==> (#[trigger] r.0@[k1]).arcana != (
            #[trigger] r.0@[k2]).arcana,
        forall|k: int|
            0 <= k < r.1@.len() ==> count_arcana(drawn_cards(readings@), #[trigger] r.1@[k]) == 0,
        forall|a: Arcana| covers_arcana(r.0@, r.1@, drawn_cards(readings@), a),
{
    let mut drawn: Vec<ArcanaStats> = Vec::new();
    let mut never: Vec<Arcana> = Vec::new();
    let ghost sa0: Seq<int> = Seq::empty();
    let ghost sn0: Seq<int> = Seq::empty();
    let mut sa = Ghost(sa0);
    let mut sn = Ghost(sn0);
    let mut i: usize = 0;
    while i < 78
        invariant
            i <= 78,
            per@.len() == 78,
            forall|w: int| 0 <= w < 78 ==> entry_ok(#[trigger] per@[w], readings@, w),
            sa@.len() == drawn@.len(),
            sn@.len() == never@.len(),
            forall|w: int|
                0 <= w < drawn@.len() ==> 0 <= #[trigger] sa@[w] < i && drawn@[w] == per@[sa@[w]]
                    && per@[sa@[w]].total_count > 0,
            forall|w1: int, w2: int| 0 <= w1 < w2 < sa@.len() ==> sa@[w1] < sa@[w2],
            forall|w: int|
                0 <= w < never@.len() ==> 0 <= #[trigger] sn@[w] < i && never@[w]
                    == per@[sn@[w]].arcana && per@[sn@[w]].total_count == 0,
            forall|p: int|
                0 <= p < i && (#[trigger] per@[p]).total_count > 0 ==> exists|w: int|
                    0 <= w < sa@.len() && #[trigger] sa@[w] == p,
            forall|p: int|
                0 <= p < i && (#[trigger] per@[p]).total_count == 0 ==> exists|w: int|
                    0 <= w < sn@.len() && #[trigger] sn@[w] == p,
        decreases 78 - i,
    {
        let ghost sa_prev = sa@;
        let ghost sn_prev = sn@;
        let entry = per[i];
        if entry.total_count > 0 {
            drawn.push(entry);
            proof {
                sa@ = sa@.push(i as int);
            }
        } else {
            never.push(entry.arcana);
            proof {
                sn@ = sn@.push(i as int);
            }
        }
        proof {
            assert forall|p: int|
                0 <= p < i + 1 && (#[trigger] per@[p]).total_count > 0 implies exists|w: int|
                0 <= w < sa@.len() && #[trigger] sa@[w] == p by {
                if p == i {
                    assert(sa@[sa@.len() - 1] == p);
                } else {
                    let w = choose|w: int| 0 <= w < sa_prev.len() && #[trigger] sa_prev[w] == p;
                    assert(sa@[w] == sa_prev[w]);
                }
            }
            assert forall|p: int|
                0 <= p < i + 1 && (#[trigger] per@[p]).total_count == 0 implies exists|w: int|
                0 <= w < sn@.len() && #[trigger] sn@[w] == p by {
                if p == i {
                    assert(sn@[sn@.len() - 1] == p);
                } else {
                    let w = choose|w: int| 0 <= w < sn_prev.len() && #[trigger] sn_prev[w] == p;
                    assert(sn@[w] == sn_prev[w]);
                }
            }
        }
        i = i + 1;
    }
    proof {
        assert forall|k1: int, k2: int|
            0 <= k1 < k2 < drawn@.len() implies (#[trigger] drawn@[k1]).arcana != (
        #[trigger] drawn@[k2]).arcana by {
            assert(drawn@[k1] == per@[sa@[k1]] && drawn@[k2] == per@[sa@[k2]]);
            assert(entry_ok(per@[sa@[k1]], readings@, sa@[k1]));
            assert(entry_ok(per@[sa@[k2]], readings@, sa@[k2]));
            if drawn@[k1].arcana == drawn@[k2].arcana {
                lemma_canonical_injective(sa@[k1], sa@[k2]);
            }
        }
        assert forall|a: Arcana|
            covers_arcana(drawn@, never@, drawn_cards(readings@), a) by {
            lemma_arcana_is_canonical(a);
            let p = choose|p: int| 0 <= p < 78 && (#[trigger] canonical_card(p)).arcana == a;
            assert(entry_ok(per@[p], readings@, p));
            if count_arcana(drawn_cards(readings@), a) > 0 {
                assert(per@[p].total_count > 0);
                let w = choose|w: int| 0 <= w < sa@.len() && #[trigger] sa@[w] == p;
                assert(drawn@[w].arcana == a);
            } else {
                assert(per@[p].total_count == 0);
                let w = choose|w: int| 0 <= w < sn@.len() && #[trigger] sn@[w] == p;
                assert(never@[w] == a);
            }
        }
        assert forall|k: int|
            0 <= k < drawn@.len() implies {
            let e = #[trigger] drawn@[k];
            &&& e.total_count as int == count_arcana(drawn_cards(readings@), e.arcana)
            &&& e.drawn_flipped_count as int == count_flipped_arcana(
                drawn_cards(readings@),
                e.arcana,
            )
            &&& e.drawn_count as int == e.total_count - e.drawn_flipped_count
            &&& e.total_count > 0
        } by {
            assert(entry_ok(per@[sa@[k]], readings@, sa@[k]));
        }
        assert forall|k: int|
            0 <= k < never@.len() implies count_arcana(
            drawn_cards(readings@),
            #[trigger] never@[k],
        ) == 0 by {
            assert(entry_ok(per@[sn@[k]], readings@, sn@[k]));
        }
    }
    (drawn, never)
}

/// Counts every drawn card across the readings.
fn count_all_cards(readings: &Vec<Reading>) -> (r: u64)
    requires
        drawn_cards(readings@).len() <= u64::MAX,
    ensures
        r as int == drawn_cards(readings@).len(),
{
    let n: usize = readings.len();
    let mut total: u64 = 0;
    let mut i: usize = 0;
    while i < n
        invariant
            i <= n,
            n == readings@.len(),
            drawn_cards(readings@).len() <= u64::MAX,
            total as int == drawn_cards(readings@.subrange(0, i as int)).len(),
        decreases n - i,
    {
        proof {
            assert(readings@.subrange(0, i + 1).drop_last() =~= readings@.subrange(0, i as int));
            lemma_drawn_cards_len_bounds(readings@, i + 1);
        }
        let m: usize = readings[i].cards.len();
        proof {
            assert(drawn_cards(readings@.subrange(0, i + 1)) == drawn_cards(
                readings@.subrange(0, i as int),
            ) + readings@[i as int].cards@);
        }
        total = total + (m as u64);
        i = i + 1;
    }
    proof {
        assert(readings@.subrange(0, n as int) =~= readings@);
    }
    total
}

} // verus!
