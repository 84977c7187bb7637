//! The output channel: characters produced but not yet transmitted.
//!
//! The channel is a `heapless::spsc::Queue` used from one side only. It is a
//! first-in, first-out queue of bounded length; a character offered to a full
//! channel is lost. The transport drains it one character at a time.

use vstd::prelude::*;
use crate::text::BUFFER_SIZE;

verus! {

/// The most characters that an [`OutputChannel`] can hold at once. The queue
/// keeps one of its `BUFFER_SIZE` slots free to tell full from empty.
pub const CHANNEL_CAPACITY: usize = BUFFER_SIZE - 1;

/// A fixed-capacity first-in, first-out queue of characters.
pub type OutputChannel = heapless::spsc::Queue<char, BUFFER_SIZE>;

/// `heapless::spsc::Queue`, a ring buffer of `N` slots that holds up to
/// `N - 1` items. Verus sees nothing inside it; what it holds is spoken of by
/// [`queued`].
#[verifier::external_type_specification]
#[verifier::external_body]
#[verifier::reject_recursive_types(T)]
pub struct ExHeaplessQueue<T, const N: usize>(heapless::spsc::Queue<T, N>);

/// The characters waiting in a channel, oldest first.
pub uninterp spec fn queued(q: heapless::spsc::Queue<char, BUFFER_SIZE>) -> Seq<char>;

/// How many more characters a channel holding `q` accepts.
pub open spec fn room(q: Seq<char>) -> nat {
    if q.len() < CHANNEL_CAPACITY {
        (CHANNEL_CAPACITY - q.len()) as nat
    } else {
        0
    }
}

/// What a channel holding `q` holds after `text` has been offered to it one
/// character at a time: as much of the front of `text` as there is room for.
pub open spec fn enqueue_all(q: Seq<char>, text: Seq<char>) -> Seq<char> {
    if text.len() <= room(q) {
        q + text
    } else {
        q + text.take(room(q) as int)
    }
}

/// Offering `a` and then `b` is offering `a + b`.
pub proof fn lemma_enqueue_all_concat(q: Seq<char>, a: Seq<char>, b: Seq<char>)
    ensures
        enqueue_all(enqueue_all(q, a), b) == enqueue_all(q, a + b),
{
    let r = room(q) as int;
    if a.len() <= r {
        if b.len() <= r - a.len() {
            assert((q + a) + b =~= q + (a + b));
        } else {
            assert((q + a) + b.take(r - a.len()) =~= q + (a + b).take(r));
        }
    } else {
        assert(room(q + a.take(r)) == 0);
        assert(b.take(0) =~= Seq::<char>::empty());
        assert((q + a.take(r)) + b.take(0) =~= q + (a + b).take(r));
    }
}

/// Offering nothing changes nothing.
pub proof fn lemma_enqueue_all_empty(q: Seq<char>)
    ensures
        enqueue_all(q, Seq::<char>::empty()) == q,
{
    assert(q + Seq::<char>::empty() =~= q);
}

/// A channel with room for all of `text` takes all of it.
pub proof fn lemma_enqueue_all_with_room(q: Seq<char>, text: Seq<char>)
    requires
        q.len() + text.len() <= CHANNEL_CAPACITY,
    ensures
        enqueue_all(q, text) == q + text,
{
}

/// A channel within its capacity stays within it, and keeps what it held
/// in front of what it takes.
pub proof fn lemma_enqueue_all_bounded(q: Seq<char>, text: Seq<char>)
    requires
        q.len() <= CHANNEL_CAPACITY,
    ensures
        enqueue_all(q, text).len() <= CHANNEL_CAPACITY,
        q.is_prefix_of(enqueue_all(q, text)),
{
}

/// A full channel takes nothing.
pub proof fn lemma_enqueue_all_full(q: Seq<char>, text: Seq<char>)
    requires
        q.len() >= CHANNEL_CAPACITY,
    ensures
        enqueue_all(q, text) == q,
{
    assert(text.take(0) =~= Seq::<char>::empty());
    assert(q + Seq::<char>::empty() =~= q);
}

/// `heapless::spsc::Queue::new`: a fresh channel is empty.
#[verifier::external_body]
pub(crate) fn channel_new() -> (q: OutputChannel)
    ensures
        queued(q) == Seq::<char>::empty(),
{
    heapless::spsc::Queue::new()
}

/// `heapless::spsc::Queue::is_empty`: whether no character is waiting.
#[verifier::external_body]
pub(crate) fn channel_is_empty(q: &OutputChannel) -> (empty: bool)
    ensures
        empty == (queued(*q).len() == 0),
{
    q.is_empty()
}

/// `heapless::spsc::Queue::enqueue`: puts `c` at the tail unless
/// `CHANNEL_CAPACITY` characters are already waiting, and reports whether it
/// did; a full channel is left as it was.
#[verifier::external_body]
pub(crate) fn channel_enqueue(q: &mut OutputChannel, c: char) -> (accepted: bool)
    ensures
        accepted == (queued(*old(q)).len() < CHANNEL_CAPACITY),
        queued(*final(q)) == enqueue_all(queued(*old(q)), seq![c]),
{
    q.enqueue(c).is_ok()
}

/// `heapless::spsc::Queue::dequeue`: removes the character at the head and
/// returns it, or returns `None` and changes nothing when none is waiting.
#[verifier::external_body]
pub(crate) fn channel_dequeue(q: &mut OutputChannel) -> (head: Option<char>)
    ensures
        queued(*old(q)).len() == 0 ==> head.is_none() && queued(*final(q)) == queued(*old(q)),
        queued(*old(q)).len() > 0 ==> head == Some(queued(*old(q)).first()) && queued(*final(q))
            == queued(*old(q)).drop_first(),
{
    q.dequeue()
}

/// Offers every character of `text` to the channel, in order.
pub fn channel_send(q: &mut OutputChannel, text: &str)
    ensures
        queued(*final(q)) == enqueue_all(queued(*old(q)), text@),
{
    let ghost start = queued(*q);
    proof {
        lemma_enqueue_all_empty(start);
        assert(text@.take(0) =~= Seq::<char>::empty());
    }
    for c in it: text.chars()
        invariant
            it.seq() == text@,
            queued(*q) == enqueue_all(start, text@.take(it.index() as int)),
    {
        proof {
            lemma_enqueue_all_concat(start, text@.take(it.index() as int), seq![c]);
            assert(text@.take(it.index() as int) + seq![c] =~= text@.take(it.index() + 1));
        }
        channel_enqueue(q, c);
    }
    assert(text@.take(text@.len() as int) =~= text@);
}

} // verus!
