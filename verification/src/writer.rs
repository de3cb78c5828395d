//! The writers. A message writer owns the sink for one message and mints one
//! field writer at a time; the field writer owns the sink for one field's
//! value and hands it back when the field ends. Exclusive use of the sink is
//! structural: while a field writer is alive, the message writer has been
//! consumed, so no second field can be opened beside it.

use vstd::prelude::*;

use crate::format::data_name;
use crate::format::event_name;
use crate::format::id_name;
use crate::format::lemma_records_bytes_push;
use crate::format::message_bytes;
use crate::format::records_bytes;
use crate::format::retry_name;
use crate::format::COLON;
use crate::format::NEWLINE;
use crate::sink::write_all;
use crate::sink::IoError;
use crate::sink::Sink;

verus! {

/// One SSE message being written onto a sink.
///
/// The writer tracks, in ghost state, the sink contents at the moment the
/// message began (`base`) and the fields completed so far (`fields`); its
/// well-formedness ties the sink to exactly those bytes.
pub struct SseMessage<W: Sink> {
    sink: W,
    base: Ghost<Seq<u8>>,
    fields: Ghost<Seq<(Seq<u8>, Seq<u8>)>>,
}

/// One field of an SSE message: its name prefix is already on the sink, and
/// value bytes stream through until the field is closed.
///
/// The written value must not contain the newline byte; that is the caller's
/// contract and is not checked here.
pub struct SseField<W: Sink> {
    sink: W,
    base: Ghost<Seq<u8>>,
    fields: Ghost<Seq<(Seq<u8>, Seq<u8>)>>,
    name: Ghost<Seq<u8>>,
    value: Ghost<Seq<u8>>,
}

/// What opening a field named `name` on `msg` yields: on success, a
/// well-formed field writer that has put exactly `name` and a colon after the
/// message bytes so far; on failure, the message writer back in idle, with no
/// live field and nothing on the sink beyond some strict prefix of the
/// intended field prefix.
pub open spec fn opens_field<W: Sink>(
    msg: SseMessage<W>,
    name: Seq<u8>,
    r: Result<SseField<W>, (SseMessage<W>, IoError)>,
) -> bool {
    match r {
        Ok(f) => {
            &&& f.wf()
            &&& f.base() == msg.base()
            &&& f.fields() == msg.fields()
            &&& f.name() == name
            &&& f.value() == Seq::<u8>::empty()
            &&& f.reliable() == msg.reliable()
            &&& f.contents() == msg.contents() + name + seq![COLON]
        },
        Err((m, _)) => {
            &&& m.wf()
            &&& m.fields() == Seq::<(Seq<u8>, Seq<u8>)>::empty()
            &&& m.base() == m.contents()
            &&& m.reliable() == msg.reliable()
            &&& !msg.reliable()
            &&& exists|k: int|
                0 <= k <= name.len() && m.contents() == msg.contents() + (name
                    + seq![COLON]).take(k)
        },
    }
}

impl<W: Sink> SseMessage<W> {
    /// The bytes the underlying sink has accepted so far.
    pub closed spec fn contents(self) -> Seq<u8> {
        self.sink.contents()
    }

    /// Whether the underlying sink accepts every byte.
    pub closed spec fn reliable(self) -> bool {
        self.sink.reliable()
    }

    /// The sink contents at the moment this message began.
    pub closed spec fn base(self) -> Seq<u8> {
        self.base@
    }

    /// The fields completed so far: name and value pairs in writing order.
    pub closed spec fn fields(self) -> Seq<(Seq<u8>, Seq<u8>)> {
        self.fields@
    }

    /// The sink holds exactly the base bytes followed by the records of the
    /// completed fields.
    pub open spec fn wf(self) -> bool {
        self.contents() == self.base() + records_bytes(self.fields())
    }

    /// Begin a message on `stream`. Nothing is written.
    pub fn new(stream: W) -> (m: Self)
        ensures
            m.wf(),
            m.contents() == stream.contents(),
            m.base() == stream.contents(),
            m.fields() == Seq::<(Seq<u8>, Seq<u8>)>::empty(),
            m.reliable() == stream.reliable(),
    {
        let ghost c = stream.contents();
        proof {
            assert(records_bytes(Seq::<(Seq<u8>, Seq<u8>)>::empty()) == Seq::<u8>::empty());
            assert(c + Seq::<u8>::empty() =~= c);
        }
        SseMessage { sink: stream, base: Ghost(c), fields: Ghost(Seq::empty()) }
    }

    /// Write a field's name prefix and hand the sink to a field writer.
    fn open_field(self, name: &[u8]) -> (r: Result<SseField<W>, (Self, IoError)>)
        requires
            self.wf(),
        ensures
            opens_field(self, name@, r),
            self.reliable() ==> r is Ok,
    {
        let SseMessage { mut sink, base, fields } = self;
        let ghost c0 = sink.contents();
        let head = prefix_vec(name);
        match write_all(&mut sink, head.as_slice()) {
            Ok(_) => {
                proof {
                    assert(sink.contents() =~= base@ + records_bytes(fields@) + name@
                        + seq![COLON] + Seq::<u8>::empty());
                    assert(sink.contents() =~= c0 + name@ + seq![COLON]);
                }
                Ok(
                    SseField {
                        sink,
                        base,
                        fields,
                        name: Ghost(name@),
                        value: Ghost(Seq::empty()),
                    },
                )
            },
            Err(e) => {
                let ghost c = sink.contents();
                proof {
                    assert(records_bytes(Seq::<(Seq<u8>, Seq<u8>)>::empty())
                        == Seq::<u8>::empty());
                    assert(c + Seq::<u8>::empty() =~= c);
                    let k = choose|k: int|
                        0 <= k < head@.len() && c == c0 + head@.take(k);
                    assert(0 <= k <= name@.len());
                    assert(c == c0 + (name@ + seq![COLON]).take(k));
                }
                Err((SseMessage { sink, base: Ghost(c), fields: Ghost(Seq::empty()) }, e))
            },
        }
    }

    /// Open a `data` field: the payload handed to the listener when the
    /// message ends. Writing several `data` fields concatenates their values
    /// at the receiver.
    pub fn data(self) -> (r: Result<SseField<W>, (Self, IoError)>)
        requires
            self.wf(),
        ensures
            opens_field(self, data_name(), r),
            self.reliable() ==> r is Ok,
    {
        let name = data_vec();
        self.open_field(name.as_slice())
    }

    /// Open an `event` field: tags the message with an event name.
    pub fn event(self) -> (r: Result<SseField<W>, (Self, IoError)>)
        requires
            self.wf(),
        ensures
            opens_field(self, event_name(), r),
            self.reliable() ==> r is Ok,
    {
        let name = event_vec();
        self.open_field(name.as_slice())
    }

    /// Open an `id` field: sets the last event id of the stream.
    pub fn id(self) -> (r: Result<SseField<W>, (Self, IoError)>)
        requires
            self.wf(),
        ensures
            opens_field(self, id_name(), r),
            self.reliable() ==> r is Ok,
    {
        let name = id_vec();
        self.open_field(name.as_slice())
    }

    /// Open a `retry` field: sets the reconnection delay of the stream. Its
    /// value should be a decimal integer; that is not checked here.
    pub fn retry(self) -> (r: Result<SseField<W>, (Self, IoError)>)
        requires
            self.wf(),
        ensures
            opens_field(self, retry_name(), r),
            self.reliable() ==> r is Ok,
    {
        let name = retry_vec();
        self.open_field(name.as_slice())
    }

    /// End the message and give the sink back: write the terminating newline
    /// — the blank line, after the last field's own newline — then flush.
    /// Both are best-effort; a failure of either is swallowed, so on an
    /// unreliable sink the terminator may be missing from the contents.
    pub fn close(self) -> (w: W)
        requires
            self.wf(),
        ensures
            w.reliable() == self.reliable(),
            w.contents() == self.contents() + seq![NEWLINE] || w.contents() == self.contents(),
            w.contents() == self.contents() + seq![NEWLINE] ==> w.contents() == self.base()
                + message_bytes(self.fields()),
            self.reliable() ==> w.contents() == self.base() + message_bytes(self.fields()),
    {
        let SseMessage { mut sink, base, fields } = self;
        let ghost c0 = sink.contents();
        let nl = newline_vec();
        match sink.write(nl.as_slice()) {
            Ok(n) => {
                proof {
                    if n == 1 {
                        assert(nl@.take(1) =~= seq![NEWLINE]);
                        assert(c0 + seq![NEWLINE] =~= base@ + message_bytes(fields@));
                    } else {
                        assert(nl@.take(0) =~= Seq::<u8>::empty());
                        assert(c0 + nl@.take(n as int) =~= c0);
                    }
                }
            },
            Err(_) => {},
        }
        match sink.flush() {
            Ok(_) => {},
            Err(_) => {},
        }
        sink
    }
}

impl<W: Sink> SseField<W> {
    /// The bytes the underlying sink has accepted so far.
    pub closed spec fn contents(self) -> Seq<u8> {
        self.sink.contents()
    }

    /// Whether the underlying sink accepts every byte.
    pub closed spec fn reliable(self) -> bool {
        self.sink.reliable()
    }

    /// The sink contents at the moment the enclosing message began.
    pub closed spec fn base(self) -> Seq<u8> {
        self.base@
    }

    /// The fields the enclosing message completed before this one.
    pub closed spec fn fields(self) -> Seq<(Seq<u8>, Seq<u8>)> {
        self.fields@
    }

    /// This field's name.
    pub closed spec fn name(self) -> Seq<u8> {
        self.name@
    }

    /// The value bytes accepted into this field so far.
    pub closed spec fn value(self) -> Seq<u8> {
        self.value@
    }

    /// The sink holds exactly the base bytes, the completed fields' records,
    /// this field's name prefix, and the value bytes so far.
    pub open spec fn wf(self) -> bool {
        self.contents() == self.base() + records_bytes(self.fields()) + self.name()
            + seq![COLON] + self.value()
    }

    /// Start a field named `name` directly on `stream`: write `name` and a
    /// colon, then hand the stream to the field writer. On failure no writer
    /// exists, the stream comes back, and nothing stands on it beyond some
    /// strict prefix of the intended field prefix.
    pub fn new(stream: W, name: &[u8]) -> (r: Result<Self, (W, IoError)>)
        ensures
            match r {
                Ok(f) => {
                    &&& f.wf()
                    &&& f.base() == stream.contents()
                    &&& f.fields() == Seq::<(Seq<u8>, Seq<u8>)>::empty()
                    &&& f.name() == name@
                    &&& f.value() == Seq::<u8>::empty()
                    &&& f.reliable() == stream.reliable()
                    &&& f.contents() == stream.contents() + name@ + seq![COLON]
                },
                Err((w, _)) => {
                    &&& w.reliable() == stream.reliable()
                    &&& !stream.reliable()
                    &&& exists|k: int|
                        0 <= k <= name@.len() && w.contents() == stream.contents() + (name@
                            + seq![COLON]).take(k)
                },
            },
            stream.reliable() ==> r is Ok,
    {
        let m = SseMessage::new(stream);
        match m.open_field(name) {
            Ok(f) => Ok(f),
            Err((m, e)) => Err((m.sink, e)),
        }
    }

    /// Append value bytes, forwarded to the sink unmodified: `Ok(n)` means
    /// exactly the first `n` bytes of `buf` now extend the field's value,
    /// right after what was written before, with no separator between.
    pub fn write(&mut self, buf: &[u8]) -> (r: Result<usize, IoError>)
        requires
            old(self).wf(),
        ensures
            final(self).wf(),
            final(self).base() == old(self).base(),
            final(self).fields() == old(self).fields(),
            final(self).name() == old(self).name(),
            final(self).reliable() == old(self).reliable(),
            match r {
                Ok(n) => n <= buf@.len() && final(self).value() == old(self).value()
                    + buf@.take(n as int),
                Err(_) => final(self).value() == old(self).value(),
            },
            old(self).reliable() ==> match r {
                Ok(n) => n == buf@.len(),
                Err(_) => false,
            },
    {
        let r = self.sink.write(buf);
        match r {
            Ok(n) => {
                proof {
                    self.value@ = self.value@ + buf@.take(n as int);
                    assert(self.sink.contents() =~= self.base@ + records_bytes(self.fields@)
                        + self.name@ + seq![COLON] + self.value@);
                }
            },
            Err(_) => {},
        }
        r
    }

    /// Forward a flush to the sink, propagating its result.
    pub fn flush(&mut self) -> (r: Result<(), IoError>)
        requires
            old(self).wf(),
        ensures
            final(self).wf(),
            final(self).contents() == old(self).contents(),
            final(self).base() == old(self).base(),
            final(self).fields() == old(self).fields(),
            final(self).name() == old(self).name(),
            final(self).value() == old(self).value(),
            final(self).reliable() == old(self).reliable(),
            old(self).reliable() ==> r is Ok,
    {
        self.sink.flush()
    }

    /// End the field and give the raw sink back: write the field terminator,
    /// best-effort. When the newline is accepted the sink holds the complete
    /// record of this field after everything before it; when it is not, the
    /// contents stay as they were, terminator missing.
    pub fn close(self) -> (w: W)
        requires
            self.wf(),
        ensures
            w.reliable() == self.reliable(),
            w.contents() == self.contents() + seq![NEWLINE] || w.contents() == self.contents(),
            w.contents() == self.contents() + seq![NEWLINE] ==> w.contents() == self.base()
                + records_bytes(self.fields().push((self.name(), self.value()))),
            self.reliable() ==> w.contents() == self.contents() + seq![NEWLINE],
    {
        let SseField { mut sink, base, fields, name, value } = self;
        let ghost c0 = sink.contents();
        let nl = newline_vec();
        match sink.write(nl.as_slice()) {
            Ok(n) => {
                proof {
                    if n == 1 {
                        lemma_records_bytes_push(fields@, name@, value@);
                        assert(nl@.take(1) =~= seq![NEWLINE]);
                        assert(c0 + seq![NEWLINE] =~= base@ + records_bytes(
                            fields@.push((name@, value@)),
                        ));
                    } else {
                        assert(nl@.take(0) =~= Seq::<u8>::empty());
                        assert(c0 + nl@.take(n as int) =~= c0);
                    }
                }
            },
            Err(_) => {},
        }
        sink
    }

    /// End the field and return to the enclosing message: write the field
    /// terminator, best-effort. When the newline is accepted the message
    /// writer carries this field as one more completed record; when it is
    /// not, the record is left unterminated on the sink and the returned
    /// writer starts its account afresh from the bytes as they stand.
    pub fn end(self) -> (m: SseMessage<W>)
        requires
            self.wf(),
        ensures
            m.wf(),
            m.reliable() == self.reliable(),
            m.contents() == self.contents() + seq![NEWLINE] || m.contents() == self.contents(),
            m.contents() == self.contents() + seq![NEWLINE] ==> (m.base() == self.base()
                && m.fields() == self.fields().push((self.name(), self.value()))),
            m.contents() == self.contents() ==> (m.fields() == Seq::<(Seq<u8>, Seq<u8>)>::empty()
                && m.base() == m.contents()),
            self.reliable() ==> m.contents() == self.contents() + seq![NEWLINE],
    {
        let SseField { mut sink, base, fields, name, value } = self;
        let ghost c0 = sink.contents();
        let nl = newline_vec();
        let wrote: bool;
        match sink.write(nl.as_slice()) {
            Ok(n) => {
                wrote = n == 1;
                proof {
                    if n == 1 {
                        assert(nl@.take(1) =~= seq![NEWLINE]);
                    } else {
                        assert(nl@.take(0) =~= Seq::<u8>::empty());
                        assert(c0 + nl@.take(n as int) =~= c0);
                    }
                }
            },
            Err(_) => {
                wrote = false;
            },
        }
        if wrote {
            proof {
                lemma_records_bytes_push(fields@, name@, value@);
                assert(c0 + seq![NEWLINE] =~= base@ + records_bytes(
                    fields@.push((name@, value@)),
                ));
            }
            SseMessage { sink, base, fields: Ghost(fields@.push((name@, value@))) }
        } else {
            let ghost c = sink.contents();
            proof {
                assert(records_bytes(Seq::<(Seq<u8>, Seq<u8>)>::empty()) == Seq::<u8>::empty());
                assert(c + Seq::<u8>::empty() =~= c);
            }
            SseMessage { sink, base: Ghost(c), fields: Ghost(Seq::empty()) }
        }
    }
}

/// `name` followed by one colon, as a buffer to write in one piece.
#[verifier::loop_isolation(false)]
fn prefix_vec(name: &[u8]) -> (v: Vec<u8>)
    ensures
        v@ == name@ + seq![COLON],
{
    let mut v: Vec<u8> = Vec::new();
    let mut i: usize = 0;
    while i < name.len()
        invariant
            i <= name.len(),
            v@ == name@.take(i as int),
        decreases name@.len() - i,
    {
        v.push(name[i]);
        proof {
            assert(name@.take(i as int).push(name@[i as int]) =~= name@.take((i + 1) as int));
        }
        i = i + 1;
    }
    v.push(COLON);
    proof {
        assert(name@.take(name@.len() as int) =~= name@);
        assert(name@.push(COLON) =~= name@ + seq![COLON]);
    }
    v
}

/// A single newline, as a buffer to write.
fn newline_vec() -> (v: Vec<u8>)
    ensures
        v@ == seq![NEWLINE],
{
    let mut v: Vec<u8> = Vec::new();
    v.push(NEWLINE);
    proof {
        assert(v@ =~= seq![NEWLINE]);
    }
    v
}

/// The bytes of the `data` field name.
fn data_vec() -> (v: Vec<u8>)
    ensures
        v@ == data_name(),
{
    let mut v: Vec<u8> = Vec::new();
    v.push(100);
    v.push(97);
    v.push(116);
    v.push(97);
    proof {
        assert(v@ =~= data_name());
    }
    v
}

/// The bytes of the `event` field name.
fn event_vec() -> (v: Vec<u8>)
    ensures
        v@ == event_name(),
{
    let mut v: Vec<u8> = Vec::new();
    v.push(101);
    v.push(118);
    v.push(101);
    v.push(110);
    v.push(116);
    proof {
        assert(v@ =~= event_name());
    }
    v
}

/// The bytes of the `id` field name.
fn id_vec() -> (v: Vec<u8>)
    ensures
        v@ == id_name(),
{
    let mut v: Vec<u8> = Vec::new();
    v.push(105);
    v.push(100);
    proof {
        assert(v@ =~= id_name());
    }
    v
}

/// The bytes of the `retry` field name.
fn retry_vec() -> (v: Vec<u8>)
    ensures
        v@ == retry_name(),
{
    let mut v: Vec<u8> = Vec::new();
    v.push(114);
    v.push(101);
    v.push(116);
    v.push(114);
    v.push(121);
    proof {
        assert(v@ =~= retry_name());
    }
    v
}

} // verus!
