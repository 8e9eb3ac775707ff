//! The transcript format: one block per user/assistant exchange, written
//! `User: <message>` then `AI: <message>`, a blank line closing the block.
//! A chat's transcript is the concatenation of its blocks in call order, and
//! is only ever extended, so every message keeps its offsets for good.

use vstd::prelude::*;

verus! {

/// The text appended to a transcript for one exchange.
pub open spec fn exchange_block(user: Seq<char>, assistant: Seq<char>) -> Seq<char> {
    "User: "@ + user + "\n"@ + "AI: "@ + assistant + "\n\n"@
}

/// The whole transcript of a chat: the blocks of its exchanges, in order.
pub open spec fn transcript_of(exchanges: Seq<(Seq<char>, Seq<char>)>) -> Seq<char>
    decreases exchanges.len(),
{
    if exchanges.len() == 0 {
        Seq::empty()
    } else {
        transcript_of(exchanges.drop_last()) + exchange_block(
            exchanges.last().0,
            exchanges.last().1,
        )
    }
}

/// Within one block the user message sits at offset 6 and the assistant
/// message five characters after its end, so the user message always comes
/// strictly first.
pub proof fn lemma_exchange_block_layout(user: Seq<char>, assistant: Seq<char>)
    ensures
        exchange_block(user, assistant).len() == 13 + user.len() + assistant.len(),
        exchange_block(user, assistant).subrange(6, 6 + user.len() as int) == user,
        exchange_block(user, assistant).subrange(
            11 + user.len() as int,
            11 + user.len() as int + assistant.len() as int,
        ) == assistant,
{
    reveal_strlit("User: ");
    reveal_strlit("\n");
    reveal_strlit("AI: ");
    reveal_strlit("\n\n");
    assert(exchange_block(user, assistant).subrange(6, 6 + user.len() as int) =~= user);
    assert(exchange_block(user, assistant).subrange(
        11 + user.len() as int,
        11 + user.len() as int + assistant.len() as int,
    ) =~= assistant);
}

/// Appending an exchange only extends the transcript: the new text is the
/// old text followed by one block, and every character already written
/// keeps its offset.
pub proof fn lemma_transcript_append(
    exchanges: Seq<(Seq<char>, Seq<char>)>,
    user: Seq<char>,
    assistant: Seq<char>,
)
    ensures
        transcript_of(exchanges.push((user, assistant))) == transcript_of(exchanges)
            + exchange_block(user, assistant),
        forall|i: int|
            0 <= i < transcript_of(exchanges).len() ==> transcript_of(
                exchanges.push((user, assistant)),
            )[i] == transcript_of(exchanges)[i],
{
    let pushed = exchanges.push((user, assistant));
    assert(pushed.drop_last() =~= exchanges);
    assert(transcript_of(pushed) == transcript_of(exchanges) + exchange_block(user, assistant));
}

/// Two exchanges appended in order land at known offsets: both messages of
/// the first lie strictly before both messages of the second.
pub proof fn lemma_transcript_order_two(
    u1: Seq<char>,
    a1: Seq<char>,
    u2: Seq<char>,
    a2: Seq<char>,
)
    ensures
        ({
            let t = transcript_of(seq![(u1, a1), (u2, a2)]);
            let first = exchange_block(u1, a1).len() as int;
            &&& t == exchange_block(u1, a1) + exchange_block(u2, a2)
            &&& t.subrange(6, 6 + u1.len() as int) == u1
            &&& t.subrange(11 + u1.len() as int, 11 + u1.len() as int + a1.len() as int) == a1
            &&& t.subrange(first + 6, first + 6 + u2.len() as int) == u2
            &&& t.subrange(first + 11 + u2.len() as int, first + 11 + u2.len() as int + a2.len() as int) == a2
            &&& 11 + u1.len() as int + a1.len() as int <= first + 6
        }),
{
    let two = seq![(u1, a1), (u2, a2)];
    let one = seq![(u1, a1)];
    assert(two.drop_last() =~= one);
    assert(one.drop_last() =~= Seq::<(Seq<char>, Seq<char>)>::empty());
    assert(transcript_of(one.drop_last()) =~= Seq::<char>::empty());
    assert(transcript_of(one) =~= exchange_block(u1, a1));
    let t = transcript_of(two);
    assert(t =~= transcript_of(one) + exchange_block(u2, a2));
    assert(t =~= exchange_block(u1, a1) + exchange_block(u2, a2));
    lemma_exchange_block_layout(u1, a1);
    lemma_exchange_block_layout(u2, a2);
    let first = exchange_block(u1, a1).len() as int;
    assert(t.subrange(6, 6 + u1.len() as int) =~= u1);
    assert(t.subrange(11 + u1.len() as int, 11 + u1.len() as int + a1.len() as int) =~= a1);
    assert(t.subrange(first + 6, first + 6 + u2.len() as int) =~= u2);
    assert(t.subrange(first + 11 + u2.len() as int, first + 11 + u2.len() as int + a2.len() as int) =~= a2);
}

} // verus!
