//! The SSE wire format, as mathematics: what one field line looks like, what a
//! whole message looks like, and the laws the writers are held to.

use vstd::prelude::*;

verus! {

/// The byte that terminates every field line and, standing alone right after
/// a field terminator, ends the whole message: ASCII line feed.
pub const NEWLINE: u8 = 10;

/// The byte that separates a field name from its value: ASCII colon.
pub const COLON: u8 = 58;

/// The bytes of one field line: `name`, a colon, the value bytes, a newline.
pub open spec fn record_bytes(name: Seq<u8>, value: Seq<u8>) -> Seq<u8> {
    name + seq![COLON] + value + seq![NEWLINE]
}

/// The field lines of a message, in writing order, laid end to end.
pub open spec fn records_bytes(fields: Seq<(Seq<u8>, Seq<u8>)>) -> Seq<u8>
    decreases fields.len(),
{
    if fields.len() == 0 {
        Seq::empty()
    } else {
        record_bytes(fields.first().0, fields.first().1) + records_bytes(fields.drop_first())
    }
}

/// A whole message: its field lines followed by the terminating blank line,
/// which is one newline beyond the last field's own newline.
pub open spec fn message_bytes(fields: Seq<(Seq<u8>, Seq<u8>)>) -> Seq<u8> {
    records_bytes(fields) + seq![NEWLINE]
}

/// The `data` field name.
pub open spec fn data_name() -> Seq<u8> {
    seq![100u8, 97u8, 116u8, 97u8]
}

/// The `event` field name.
pub open spec fn event_name() -> Seq<u8> {
    seq![101u8, 118u8, 101u8, 110u8, 116u8]
}

/// The `id` field name.
pub open spec fn id_name() -> Seq<u8> {
    seq![105u8, 100u8]
}

/// The `retry` field name.
pub open spec fn retry_name() -> Seq<u8> {
    seq![114u8, 101u8, 116u8, 114u8, 121u8]
}

/// The closed set of field names the protocol recognizes.
pub open spec fn is_field_name(name: Seq<u8>) -> bool {
    ||| name == data_name()
    ||| name == event_name()
    ||| name == id_name()
    ||| name == retry_name()
}

/// Completing one more field appends exactly that field's line to the message
/// body built so far.
pub proof fn lemma_records_bytes_push(
    fields: Seq<(Seq<u8>, Seq<u8>)>,
    name: Seq<u8>,
    value: Seq<u8>,
)
    ensures
        records_bytes(fields.push((name, value))) == records_bytes(fields) + record_bytes(
            name,
            value,
        ),
    decreases fields.len(),
{
    let pushed = fields.push((name, value));
    if fields.len() == 0 {
        assert(pushed.drop_first() =~= Seq::<(Seq<u8>, Seq<u8>)>::empty());
        assert(records_bytes(Seq::<(Seq<u8>, Seq<u8>)>::empty()) == Seq::<u8>::empty());
        assert(records_bytes(pushed) =~= records_bytes(fields) + record_bytes(name, value));
    } else {
        assert(pushed.drop_first() =~= fields.drop_first().push((name, value)));
        lemma_records_bytes_push(fields.drop_first(), name, value);
        assert(records_bytes(pushed) =~= records_bytes(fields) + record_bytes(name, value));
    }
}

/// Law: a message holding a single field carries exactly the field name, one
/// colon, the value bytes and the field terminator, and nothing else, before
/// the message terminator.
pub proof fn lemma_single_field_message(name: Seq<u8>, value: Seq<u8>)
    requires
        is_field_name(name),
        forall|i: int| 0 <= i < value.len() ==> value[i] != NEWLINE,
    ensures
        records_bytes(seq![(name, value)]) == name + seq![COLON] + value + seq![NEWLINE],
        message_bytes(seq![(name, value)]) == name + seq![COLON] + value + seq![NEWLINE] + seq![
            NEWLINE,
        ],
{
    let single = seq![(name, value)];
    assert(single.drop_first() =~= Seq::<(Seq<u8>, Seq<u8>)>::empty());
    assert(records_bytes(Seq::<(Seq<u8>, Seq<u8>)>::empty()) == Seq::<u8>::empty());
    assert(single.first() == (name, value));
    assert(records_bytes(single) =~= name + seq![COLON] + value + seq![NEWLINE]);
    assert(message_bytes(single) =~= name + seq![COLON] + value + seq![NEWLINE] + seq![NEWLINE]);
}

/// Law: successive writes into one field concatenate with no separator
/// inserted between them.
pub proof fn lemma_writes_concatenate(value: Seq<u8>, first: Seq<u8>, second: Seq<u8>)
    ensures
        (value + first) + second == value + (first + second),
{
    assert((value + first) + second =~= value + (first + second));
}

/// Law: the body of a message is the field records laid end to end, so the
/// whole message is that concatenation followed by one newline.
pub proof fn lemma_message_bytes_is_concat(fields: Seq<(Seq<u8>, Seq<u8>)>)
    ensures
        records_bytes(fields) == fields.map_values(
            |f: (Seq<u8>, Seq<u8>)| record_bytes(f.0, f.1),
        ).flatten(),
        message_bytes(fields) == fields.map_values(
            |f: (Seq<u8>, Seq<u8>)| record_bytes(f.0, f.1),
        ).flatten() + seq![NEWLINE],
    decreases fields.len(),
{
    let lines = fields.map_values(|f: (Seq<u8>, Seq<u8>)| record_bytes(f.0, f.1));
    if fields.len() == 0 {
        assert(lines =~= Seq::<Seq<u8>>::empty());
        assert(records_bytes(fields) =~= lines.flatten());
    } else {
        lemma_message_bytes_is_concat(fields.drop_first());
        assert(fields.drop_first().map_values(|f: (Seq<u8>, Seq<u8>)| record_bytes(f.0, f.1))
            =~= lines.drop_first());
        assert(lines.first() == record_bytes(fields.first().0, fields.first().1));
        assert(records_bytes(fields) =~= lines.flatten());
    }
}

/// Law: two messages closed in turn over one sink stand whole, in order and
/// each with its own terminator: the first occupies exactly its own span right
/// after the prior contents, and the second follows it exactly.
pub proof fn lemma_messages_back_to_back(
    prior: Seq<u8>,
    first: Seq<(Seq<u8>, Seq<u8>)>,
    second: Seq<(Seq<u8>, Seq<u8>)>,
)
    ensures
        ((prior + message_bytes(first)) + message_bytes(second)).subrange(
            prior.len() as int,
            (prior.len() + message_bytes(first).len()) as int,
        ) == message_bytes(first),
        ((prior + message_bytes(first)) + message_bytes(second)).subrange(
            (prior.len() + message_bytes(first).len()) as int,
            ((prior + message_bytes(first)) + message_bytes(second)).len() as int,
        ) == message_bytes(second),
        message_bytes(first).last() == NEWLINE,
        message_bytes(second).last() == NEWLINE,
{
    let whole = (prior + message_bytes(first)) + message_bytes(second);
    assert(whole.subrange(prior.len() as int, (prior.len() + message_bytes(first).len()) as int)
        =~= message_bytes(first));
    assert(whole.subrange((prior.len() + message_bytes(first).len()) as int, whole.len() as int)
        =~= message_bytes(second));
}

} // verus!
