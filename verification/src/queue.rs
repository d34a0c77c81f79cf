//! What waits for the flusher: submissions, and requests to stop.

use serde_json::Value;
use vstd::prelude::*;

verus! {

/// A submission on its way to the backend's batch API. `T` is whatever the
/// embedding program uses to hand the outcome back to the caller.
pub struct PendingItem<T> {
    /// Identifies the request within its batch.
    pub request_id: String,
    /// The request itself.
    pub params: Value,
    /// Where the outcome goes.
    pub tx: T,
}

/// A message to the flusher.
pub enum Msg<T> {
    /// A submission.
    Item(PendingItem<T>),
    /// Stop once everything ahead of this message is done.
    Shutdown,
}

/// The submissions among `queue`, in order.
pub open spec fn items_of<T>(queue: Seq<Msg<T>>) -> Seq<PendingItem<T>>
    decreases queue.len(),
{
    if queue.len() == 0 {
        Seq::empty()
    } else {
        let rest = items_of(queue.drop_first());
        match queue[0] {
            Msg::Item(item) => seq![item] + rest,
            Msg::Shutdown => rest,
        }
    }
}

/// How many submissions stand at the front of `queue`, before its first
/// `Shutdown` or its end.
pub open spec fn leading_items<T>(queue: Seq<Msg<T>>) -> nat
    decreases queue.len(),
{
    if queue.len() == 0 || queue[0] is Shutdown {
        0
    } else {
        1 + leading_items(queue.drop_first())
    }
}

/// Whether a `Shutdown` waits in `queue`.
pub open spec fn has_shutdown<T>(queue: Seq<Msg<T>>) -> bool {
    leading_items(queue) < queue.len()
}

/// `leading_items` counts exactly the submissions before the first `Shutdown`.
pub proof fn lemma_leading_items<T>(queue: Seq<Msg<T>>)
    ensures
        leading_items(queue) <= queue.len(),
        forall|i: int| 0 <= i < leading_items(queue) ==> (#[trigger] queue[i]) is Item,
        leading_items(queue) < queue.len() ==> queue[leading_items(queue) as int] is Shutdown,
    decreases queue.len(),
{
    if queue.len() > 0 && queue[0] is Item {
        let rest = queue.drop_first();
        lemma_leading_items(rest);
        assert forall|i: int| 0 <= i < leading_items(queue) implies (#[trigger] queue[i]) is Item by {
            if i > 0 {
                assert(queue[i] == rest[i - 1]);
            }
        }
    }
}

/// The submissions of a queue cut in two.
pub proof fn lemma_items_of_add<T>(front: Seq<Msg<T>>, back: Seq<Msg<T>>)
    ensures
        items_of(front + back) == items_of(front) + items_of(back),
    decreases front.len(),
{
    if front.len() > 0 {
        lemma_items_of_add(front.drop_first(), back);
        assert((front + back).drop_first() =~= front.drop_first() + back);
    }
}

/// The submissions of a queue with one more message at its end.
pub proof fn lemma_items_of_push<T>(queue: Seq<Msg<T>>, msg: Msg<T>)
    ensures
        items_of(queue.push(msg)) == (match msg {
            Msg::Item(item) => items_of(queue).push(item),
            Msg::Shutdown => items_of(queue),
        }),
{
    let one = seq![msg];
    lemma_items_of_add(queue, one);
    assert(queue.push(msg) =~= queue + one);
    assert(items_of(one.drop_first()) =~= Seq::<PendingItem<T>>::empty());
}

/// Where submissions stand at the front, there are as many of them in that part.
pub proof fn lemma_items_of_leading<T>(queue: Seq<Msg<T>>, n: int)
    requires
        0 <= n <= leading_items(queue),
    ensures
        n <= queue.len(),
        items_of(queue.take(n)).len() == n,
        items_of(queue) == items_of(queue.take(n)) + items_of(queue.skip(n)),
        leading_items(queue.skip(n)) == leading_items(queue) - n,
    decreases queue.len(),
{
    lemma_leading_items(queue);
    if n == 0 {
        assert(queue.skip(0) =~= queue);
    } else {
        let rest = queue.drop_first();
        lemma_items_of_leading(rest, n - 1);
        assert(queue.take(n).drop_first() =~= rest.take(n - 1));
        assert(queue.skip(n) =~= rest.skip(n - 1));
    }
}

/// One more message at the end of a queue.
pub proof fn lemma_leading_push<T>(queue: Seq<Msg<T>>, msg: Msg<T>)
    ensures
        has_shutdown(queue) ==> leading_items(queue.push(msg)) == leading_items(queue),
        !has_shutdown(queue) && msg is Shutdown ==> leading_items(queue.push(msg)) == queue.len(),
        !has_shutdown(queue) && msg is Item ==> leading_items(queue.push(msg)) == queue.len() + 1,
    decreases queue.len(),
{
    let longer = queue.push(msg);
    if queue.len() == 0 {
        assert(leading_items(longer.drop_first()) == 0);
    } else {
        lemma_leading_push(queue.drop_first(), msg);
        assert(longer.drop_first() =~= queue.drop_first().push(msg));
    }
}

} // verus!
