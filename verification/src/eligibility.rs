//! Which messages of a catalog may be played to a role at a given moment.

use crate::catalog::views;
use crate::message::{Message, MessageView, Role};
use crate::sequences::lemma_filter_push;
use vstd::prelude::*;

verus! {

/// The messages of `catalog` that may be played to a player of `role` after
/// `seconds` seconds, in the order of the catalog.
pub open spec fn eligible(catalog: Seq<MessageView>, role: Role, seconds: int) -> Seq<
    MessageView,
> {
    catalog.filter(|message: MessageView| message.applies(role, seconds))
}

/// The messages of `pool` that are not among `played`, in the order of the
/// pool.
pub open spec fn unplayed(pool: Seq<MessageView>, played: Seq<MessageView>) -> Seq<MessageView> {
    pool.filter(|message: MessageView| !played.contains(message))
}

/// `positions` picks `pool` out of `catalog`: it lists, in rising order, the
/// places of the catalog whose messages apply, all of them and no others, and
/// `pool` holds the messages found there.
pub open spec fn picks_out(
    positions: Seq<int>,
    catalog: Seq<MessageView>,
    role: Role,
    seconds: int,
    pool: Seq<MessageView>,
) -> bool {
    &&& positions.len() == pool.len()
    &&& forall|k: int|
        0 <= k < positions.len() ==> {
            &&& 0 <= #[trigger] positions[k] < catalog.len()
            &&& catalog[positions[k]].applies(role, seconds)
            &&& pool[k] == catalog[positions[k]]
        }
    &&& forall|k: int, l: int|
        0 <= k < l < positions.len() ==> #[trigger] positions[k] < #[trigger] positions[l]
    &&& forall|p: int|
        0 <= p < catalog.len() && (#[trigger] catalog[p]).applies(role, seconds)
            ==> positions.contains(p)
}

/// The eligible messages are exactly the messages of the catalog that apply
/// to the role at the moment, each as often as the catalog holds it, and they
/// come in the order of the catalog: some rising list of positions picks
/// them out.
pub proof fn lemma_eligible_is_ordered_selection(
    catalog: Seq<MessageView>,
    role: Role,
    seconds: int,
) -> (positions: Seq<int>)
    ensures
        picks_out(positions, catalog, role, seconds, eligible(catalog, role, seconds)),
    decreases catalog.len(),
{
    if catalog.len() == 0 {
        reveal(Seq::filter);
        Seq::empty()
    } else {
        let front = catalog.drop_last();
        let last = catalog.last();
        let found = lemma_eligible_is_ordered_selection(front, role, seconds);
        assert(catalog =~= front.push(last));
        lemma_filter_push(front, last, |message: MessageView| message.applies(role, seconds));
        if last.applies(role, seconds) {
            let positions = found.push(catalog.len() - 1);
            let pool = eligible(catalog, role, seconds);
            assert forall|p: int|
                0 <= p < catalog.len() && (#[trigger] catalog[p]).applies(
                    role,
                    seconds,
                ) implies positions.contains(p) by {
                if p < front.len() {
                    assert(front[p] == catalog[p]);
                    let k = choose|k: int| 0 <= k < found.len() && found[k] == p;
                    assert(positions[k] == p);
                } else {
                    assert(positions[found.len() as int] == p);
                }
            }
            assert forall|k: int| 0 <= k < positions.len() implies {
                &&& 0 <= #[trigger] positions[k] < catalog.len()
                &&& catalog[positions[k]].applies(role, seconds)
                &&& pool[k] == catalog[positions[k]]
            } by {
                if k < found.len() {
                    assert(positions[k] == found[k]);
                    assert(front[found[k]] == catalog[found[k]]);
                }
            }
            positions
        } else {
            assert forall|p: int|
                0 <= p < catalog.len() && (#[trigger] catalog[p]).applies(
                    role,
                    seconds,
                ) implies found.contains(p) by {
                assert(front[p] == catalog[p]);
            }
            assert forall|k: int| 0 <= k < found.len() implies {
                &&& 0 <= #[trigger] found[k] < catalog.len()
                &&& catalog[found[k]].applies(role, seconds)
                &&& eligible(catalog, role, seconds)[k] == catalog[found[k]]
            } by {
                assert(front[found[k]] == catalog[found[k]]);
            }
            found
        }
    }
}

/// A message is among the eligible ones if and only if the catalog holds it
/// and it applies to the role at the moment.
pub proof fn lemma_eligible_membership(
    catalog: Seq<MessageView>,
    role: Role,
    seconds: int,
    message: MessageView,
)
    ensures
        eligible(catalog, role, seconds).contains(message) <==> catalog.contains(message)
            && message.applies(role, seconds),
{
    let pool = eligible(catalog, role, seconds);
    let positions = lemma_eligible_is_ordered_selection(catalog, role, seconds);
    if pool.contains(message) {
        let k = choose|k: int| 0 <= k < pool.len() && pool[k] == message;
        assert(catalog[positions[k]] == message);
    }
    if catalog.contains(message) && message.applies(role, seconds) {
        let p = choose|p: int| 0 <= p < catalog.len() && catalog[p] == message;
        assert(catalog[p].applies(role, seconds));
        let k = choose|k: int| 0 <= k < positions.len() && positions[k] == p;
        assert(pool[k] == message);
    }
}

/// The pool changes only when a message begins or ceases to apply: two
/// moments at which the same messages of the catalog apply have the same
/// eligible messages.
pub proof fn lemma_eligible_changes_with_messages(
    catalog: Seq<MessageView>,
    role: Role,
    earlier: int,
    later: int,
)
    requires
        forall|i: int|
            0 <= i < catalog.len() ==> (#[trigger] catalog[i]).applies(role, earlier)
                == catalog[i].applies(role, later),
    ensures
        eligible(catalog, role, earlier) == eligible(catalog, role, later),
    decreases catalog.len(),
{
    if catalog.len() == 0 {
        reveal(Seq::filter);
    } else {
        let front = catalog.drop_last();
        let last = catalog.last();
        assert forall|i: int| 0 <= i < front.len() implies (#[trigger] front[i]).applies(
            role,
            earlier,
        ) == front[i].applies(role, later) by {
            assert(front[i] == catalog[i]);
        }
        lemma_eligible_changes_with_messages(front, role, earlier, later);
        assert(catalog =~= front.push(last));
        assert(last == catalog[catalog.len() - 1]);
        lemma_filter_push(front, last, |message: MessageView| message.applies(role, earlier));
        lemma_filter_push(front, last, |message: MessageView| message.applies(role, later));
    }
}

/// The messages of `messages` that may be played to a player of `role` after
/// `seconds` seconds of the match, in the order of the catalog.
pub fn eligible_messages(messages: &Vec<Message>, role: Role, seconds: i64) -> (pool: Vec<Message>)
    ensures
        views(pool@) == eligible(views(messages@), role, seconds as int),
{
    eligible_messages_wide(messages, role, seconds as i128)
}

/// The same selection for a duration too wide for `i64`.
pub(crate) fn eligible_messages_wide(messages: &Vec<Message>, role: Role, seconds: i128) -> (pool:
    Vec<Message>)
    ensures
        views(pool@) == eligible(views(messages@), role, seconds as int),
{
    let mut pool: Vec<Message> = Vec::new();
    let mut i: usize = 0;
    proof {
        reveal(Seq::filter);
        assert(views(messages@).take(0) =~= Seq::empty());
    }
    while i < messages.len()
        invariant
            i <= messages.len(),
            views(pool@) == eligible(views(messages@).take(i as int), role, seconds as int),
        decreases messages.len() - i,
    {
        let message = &messages[i];
        proof {
            let catalog = views(messages@);
            assert(catalog.take(i + 1) =~= catalog.take(i as int).push(message@));
            lemma_filter_push(
                catalog.take(i as int),
                message@,
                |message: MessageView| message.applies(role, seconds as int),
            );
        }
        if message.is_eligible_wide(role, seconds) {
            let ghost before = pool@;
            pool.push(message.clone());
            assert(views(pool@) =~= views(before).push(message@));
        }
        i += 1;
    }
    assert(views(messages@).take(i as int) =~= views(messages@));
    pool
}

/// Whether `list` holds a message equal to `message`.
pub fn contains_message(list: &Vec<Message>, message: &Message) -> (found: bool)
    ensures
        found == views(list@).contains(message@),
{
    let mut i: usize = 0;
    while i < list.len()
        invariant
            i <= list.len(),
            !views(list@).take(i as int).contains(message@),
        decreases list.len() - i,
    {
        if list[i] == *message {
            assert(views(list@)[i as int] == message@);
            return true;
        }
        assert(views(list@).take(i + 1) =~= views(list@).take(i as int).push(list@[i as int]@));
        i += 1;
    }
    assert(views(list@).take(i as int) =~= views(list@));
    false
}

/// The messages of `pool` that are not among `played`, in the order of the
/// pool.
pub fn remove_played(pool: Vec<Message>, played: &Vec<Message>) -> (rest: Vec<Message>)
    ensures
        views(rest@) == unplayed(views(pool@), views(played@)),
{
    let mut rest: Vec<Message> = Vec::new();
    let mut i: usize = 0;
    proof {
        reveal(Seq::filter);
        assert(views(pool@).take(0) =~= Seq::empty());
    }
    while i < pool.len()
        invariant
            i <= pool.len(),
            views(rest@) == unplayed(views(pool@).take(i as int), views(played@)),
        decreases pool.len() - i,
    {
        let message = &pool[i];
        proof {
            let all = views(pool@);
            let said = views(played@);
            assert(all.take(i + 1) =~= all.take(i as int).push(message@));
            lemma_filter_push(
                all.take(i as int),
                message@,
                |message: MessageView| !said.contains(message),
            );
        }
        if !contains_message(played, message) {
            let ghost before = rest@;
            rest.push(message.clone());
            assert(views(rest@) =~= views(before).push(message@));
        }
        i += 1;
    }
    assert(views(pool@).take(i as int) =~= views(pool@));
    rest
}

} // verus!
