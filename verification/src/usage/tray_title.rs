//! The menu-bar title: Grok's weekly percentage, then Command Code's and OpenCode's cost of
//! today, with a placeholder for each tool that has nothing to show.

use vstd::prelude::*;
use crate::text::{join, join_strings, owned};
use super::Provider;

verus! {

broadcast use vstd::std_specs::vec::group_vec_axioms;

/// What stands for a tool that has nothing to show.
pub const PLACEHOLDER: &'static str = "–";

/// What stands between the parts of the title.
pub const SEPARATOR: &'static str = " · ";

/// One tool's card, as the title sees it: whether its data was collected, and the text of its
/// value (the Grok percentage, or today's cost, as the panel formats it), if it has one.
#[derive(Debug)]
pub struct TitleCard {
    pub provider: Provider,
    pub available: bool,
    pub value: Option<String>,
}

/// The value of a card: tool, collected, value text.
pub type CardView = (Provider, bool, Option<Seq<char>>);

impl View for TitleCard {
    type V = CardView;

    open spec fn view(&self) -> CardView {
        (
            self.provider,
            self.available,
            match self.value {
                Some(v) => Some(v@),
                None => None,
            },
        )
    }
}

/// Where a tool stands in the title: Grok first, then Command Code, then OpenCode.
pub open spec fn slot_of(p: Provider) -> int {
    match p {
        Provider::Grok => 0,
        Provider::CommandCode => 1,
        Provider::OpenCode => 2,
    }
}

/// What a card shows: its value when its data was collected, else the placeholder.
pub open spec fn shown(card: CardView) -> Seq<char> {
    if card.1 && card.2 is Some {
        card.2->Some_0
    } else {
        PLACEHOLDER@
    }
}

/// The part of the title in `slot`: what the last card of that slot shows, or the placeholder
/// when no card is in it.
pub open spec fn part(cards: Seq<CardView>, slot: int) -> Seq<char>
    decreases cards.len(),
{
    if cards.len() == 0 {
        PLACEHOLDER@
    } else if slot_of(cards.last().0) == slot {
        shown(cards.last())
    } else {
        part(cards.drop_last(), slot)
    }
}

/// The title for `cards`: the three parts, joined by the separator.
pub open spec fn title(cards: Seq<CardView>) -> Seq<char> {
    join(seq![part(cards, 0), part(cards, 1), part(cards, 2)], SEPARATOR@)
}

fn placeholder() -> (r: String)
    ensures
        r@ == PLACEHOLDER@,
{
    owned(PLACEHOLDER)
}

/// The title for the cards of a snapshot.
pub fn format_title(cards: &Vec<TitleCard>) -> (r: String)
    ensures
        r@ == title(cards@.map_values(|c: TitleCard| c@)),
{
    let ghost views = cards@.map_values(|c: TitleCard| c@);
    let mut parts: Vec<String> = vec![placeholder(), placeholder(), placeholder()];
    let mut i: usize = 0;
    proof {
        assert(views.take(0) =~= Seq::<CardView>::empty());
    }
    while i < cards.len()
        invariant
            i <= cards@.len(),
            views == cards@.map_values(|c: TitleCard| c@),
            parts@.len() == 3,
            forall|s: int| 0 <= s < 3 ==> #[trigger] parts@[s]@ == part(views.take(i as int), s),
        decreases cards@.len() - i,
    {
        let card = &cards[i];
        let slot: usize = match card.provider {
            Provider::Grok => 0,
            Provider::CommandCode => 1,
            Provider::OpenCode => 2,
        };
        let text = match &card.value {
            Some(v) => if card.available {
                v.clone()
            } else {
                placeholder()
            },
            None => placeholder(),
        };
        parts.set(slot, text);
        proof {
            assert(views.take(i + 1).drop_last() =~= views.take(i as int));
            assert(views.take(i + 1).last() == card@);
        }
        i = i + 1;
    }
    proof {
        assert(views.take(cards@.len() as int) =~= views);
        assert(parts@.map_values(|p: String| p@) =~= seq![
            part(views, 0),
            part(views, 1),
            part(views, 2),
        ]);
    }
    join_strings(&parts, SEPARATOR)
}

} // verus!
