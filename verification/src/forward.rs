//! Forwarding a publisher's packets to its viewers.
//!
//! The relay does not look into a packet. It learns from which kind of
//! track the packet came and hands it, unchanged, to the writer of that
//! kind of every viewer subscribed to the publisher's stream key, in the
//! order in which the viewers subscribed.

use vstd::prelude::*;
use crate::registry::{with_subscriber, Subscriptions, TrackPair};

verus! {

/// The kind of media that a track carries.
#[derive(Debug, Clone, Copy, PartialEq, Eq, Structural, Hash)]
pub enum MediaKind {
    Unspecified,
    Audio,
    Video,
}

/// The writer of a pair that takes packets of a kind: the video track
/// for video, the audio track for audio, and none for a packet whose kind
/// is not known.
pub open spec fn writer_of<W>(pair: TrackPair<W>, kind: MediaKind) -> Option<W> {
    match kind {
        MediaKind::Unspecified => None,
        MediaKind::Audio => Some(pair.audio),
        MediaKind::Video => Some(pair.video),
    }
}

/// The writers to which a packet of a kind is handed, in order: one for
/// each subscriber, in the order of the subscribers. A packet whose kind
/// is not known is handed to nobody.
pub open spec fn targets<W>(pairs: Seq<TrackPair<W>>, kind: MediaKind) -> Seq<W> {
    match kind {
        MediaKind::Unspecified => Seq::empty(),
        MediaKind::Audio => Seq::new(pairs.len(), |i: int| pairs[i].audio),
        MediaKind::Video => Seq::new(pairs.len(), |i: int| pairs[i].video),
    }
}

/// What a list of references refers to.
pub open spec fn referents<W>(references: Seq<&W>) -> Seq<W> {
    Seq::new(references.len(), |i: int| *references[i])
}

/// Picks from each subscriber the writer that takes packets of a kind.
pub fn select_writers<'a, W>(pairs: &'a Vec<TrackPair<W>>, kind: MediaKind) -> (writers: Vec<
    &'a W,
>)
    ensures
        referents(writers@) == targets(pairs@, kind),
{
    let mut writers: Vec<&'a W> = Vec::new();
    if kind == MediaKind::Unspecified {
        proof {
            assert(referents(writers@) =~= targets(pairs@, kind));
        }
        return writers;
    }
    let mut i: usize = 0;
    while i < pairs.len()
        invariant
            i <= pairs.len(),
            kind != MediaKind::Unspecified,
            writers@.len() == i,
            forall|j: int| 0 <= j < i ==> Some(*writers@[j]) == writer_of(pairs@[j], kind),
        decreases pairs.len() - i,
    {
        let pair: &'a TrackPair<W> = &pairs[i];
        match kind {
            MediaKind::Video => writers.push(&pair.video),
            _ => writers.push(&pair.audio),
        }
        i += 1;
    }
    proof {
        assert(referents(writers@) =~= targets(pairs@, kind));
    }
    writers
}

/// What the forwarding loop does with one packet.
pub enum ForwardAction<'a, W> {
    /// Write the packet to each of these writers, in this order. A write
    /// that fails loses the packet for that viewer alone: the writers
    /// after it are still written to.
    Write(Vec<&'a W>),
    /// The stream key is not known yet: make it known, and drop the
    /// packet.
    Establish,
}

impl<W> Subscriptions<W> {
    /// Decides what to do with a packet that a publisher sent under
    /// `key` on a track of `kind`.
    pub fn plan_forward<'a>(&'a self, key: &str, kind: MediaKind) -> (action: ForwardAction<
        'a,
        W,
    >)
        ensures
            match action {
                ForwardAction::Write(writers) => {
                    &&& self@.contains_key(key@)
                    &&& referents(writers@) == targets(self@[key@], kind)
                },
                ForwardAction::Establish => !self@.contains_key(key@),
            },
    {
        match self.subscribers(key) {
            Some(pairs) => ForwardAction::Write(select_writers(pairs, kind)),
            None => ForwardAction::Establish,
        }
    }
}

/// A viewer that subscribes is fed after all who subscribed before it:
/// the writers of a packet are those of before, in their order, and then
/// the newcomer's.
pub proof fn lemma_a_new_subscriber_is_fed_last<W>(
    known: Map<Seq<char>, Seq<TrackPair<W>>>,
    key: Seq<char>,
    pair: TrackPair<W>,
    kind: MediaKind,
)
    ensures
        targets(with_subscriber(known, key, pair)[key], kind) == targets(
            if known.contains_key(key) {
                known[key]
            } else {
                Seq::empty()
            },
            kind,
        ) + match writer_of(pair, kind) {
            Some(writer) => seq![writer],
            None => Seq::empty(),
        },
{
    let before = if known.contains_key(key) {
        known[key]
    } else {
        Seq::<TrackPair<W>>::empty()
    };
    assert(with_subscriber(known, key, pair)[key] =~= before.push(pair));
    assert(targets(before.push(pair), kind) =~= targets(before, kind) + match writer_of(
        pair,
        kind,
    ) {
        Some(writer) => seq![writer],
        None => Seq::empty(),
    });
}

/// A packet as the forwarding loop meets it: the kind of the track it
/// came from, and the packet itself.
pub struct Sent<P> {
    pub kind: MediaKind,
    pub packet: P,
}

/// One write of the forwarding loop: a packet handed to a writer.
pub struct Write<W, P> {
    pub writer: W,
    pub packet: P,
}

/// The writes that forward one packet, in order.
pub open spec fn writes_of_one<W, P>(pairs: Seq<TrackPair<W>>, sent: Sent<P>) -> Seq<
    Write<W, P>,
> {
    let writers = targets(pairs, sent.kind);
    Seq::new(writers.len(), |i: int| Write { writer: writers[i], packet: sent.packet })
}

/// The writes that forward a sequence of packets, in order: those of the
/// first packet, then those of the second, and so on.
pub open spec fn writes_of<W, P>(pairs: Seq<TrackPair<W>>, sent: Seq<Sent<P>>) -> Seq<
    Write<W, P>,
>
    decreases sent.len(),
{
    if sent.len() == 0 {
        Seq::empty()
    } else {
        writes_of(pairs, sent.drop_last()) + writes_of_one(pairs, sent.last())
    }
}

/// The test that picks the writes to one writer.
pub open spec fn written_to<W, P>(writer: W) -> spec_fn(Write<W, P>) -> bool {
    |write: Write<W, P>| write.writer == writer
}

/// The packets that one writer is handed, in order.
pub open spec fn observed_by<W, P>(writes: Seq<Write<W, P>>, writer: W) -> Seq<P> {
    writes.filter(written_to(writer)).map_values(|write: Write<W, P>| write.packet)
}

/// The test that picks the packets of one kind.
pub open spec fn is_of_kind<P>(kind: MediaKind) -> spec_fn(Sent<P>) -> bool {
    |sent: Sent<P>| sent.kind == kind
}

/// The packets of one kind among those sent, in order.
pub open spec fn packets_of_kind<P>(sent: Seq<Sent<P>>, kind: MediaKind) -> Seq<P> {
    sent.filter(is_of_kind(kind)).map_values(|sent: Sent<P>| sent.packet)
}

/// No writer serves two viewers, nor both kinds of one viewer.
pub open spec fn writers_are_distinct<W>(pairs: Seq<TrackPair<W>>) -> bool {
    &&& forall|i: int, j: int|
        0 <= i < pairs.len() && 0 <= j < pairs.len() ==> #[trigger] pairs[i].video
            != #[trigger] pairs[j].audio
    &&& forall|i: int, j: int|
        0 <= i < pairs.len() && 0 <= j < pairs.len() && i != j ==> #[trigger] pairs[i].video
            != #[trigger] pairs[j].video
    &&& forall|i: int, j: int|
        0 <= i < pairs.len() && 0 <= j < pairs.len() && i != j ==> #[trigger] pairs[i].audio
            != #[trigger] pairs[j].audio
}

/// Of the writes that forward one packet, a viewer's writer of a kind
/// gets the packet where the packet is of that kind, and nothing else.
proof fn lemma_one_packet_observed<W, P>(
    pairs: Seq<TrackPair<W>>,
    sent: Sent<P>,
    viewer: int,
    kind: MediaKind,
)
    requires
        writers_are_distinct(pairs),
        0 <= viewer < pairs.len(),
        kind != MediaKind::Unspecified,
    ensures
        observed_by(writes_of_one(pairs, sent), writer_of(pairs[viewer], kind).unwrap()) == if sent.kind
            == kind {
            seq![sent.packet]
        } else {
            Seq::empty()
        },
{
    let writer = writer_of(pairs[viewer], kind).unwrap();
    let writes = writes_of_one(pairs, sent);
    let test = written_to::<W, P>(writer);
    assert forall|i: int| 0 <= i < writes.len() implies (test(#[trigger] writes[i]) <==> (
    sent.kind == kind && i == viewer)) by {
        assert(pairs[i].video == pairs[i].video);
        assert(pairs[viewer].audio == pairs[viewer].audio);
    }
    if sent.kind == kind {
        lemma_filter_keeps_the_one(writes, test, viewer);
        assert(writes.filter(test).map_values(|write: Write<W, P>| write.packet) =~= seq![
            sent.packet,
        ]);
    } else {
        lemma_filter_keeps_none(writes, test);
        assert(writes.filter(test).map_values(|write: Write<W, P>| write.packet)
            =~= Seq::<P>::empty());
    }
}

/// A test that no element passes leaves nothing.
proof fn lemma_filter_keeps_none<A>(list: Seq<A>, test: spec_fn(A) -> bool)
    requires
        forall|i: int| 0 <= i < list.len() ==> !test(#[trigger] list[i]),
    ensures
        list.filter(test) == Seq::<A>::empty(),
    decreases list.len(),
{
    reveal(Seq::filter);
    if list.len() > 0 {
        lemma_filter_keeps_none(list.drop_last(), test);
    }
}

/// A test that the element at `at` passes, and no other, leaves that
/// element.
proof fn lemma_filter_keeps_the_one<A>(list: Seq<A>, test: spec_fn(A) -> bool, at: int)
    requires
        0 <= at < list.len(),
        forall|i: int| 0 <= i < list.len() ==> (test(#[trigger] list[i]) <==> i == at),
    ensures
        list.filter(test) == seq![list[at]],
    decreases list.len(),
{
    reveal(Seq::filter);
    let front = list.drop_last();
    if at == list.len() - 1 {
        lemma_filter_keeps_none(front, test);
        assert(Seq::<A>::empty().push(list[at]) =~= seq![list[at]]);
    } else {
        lemma_filter_keeps_the_one(front, test, at);
    }
}

/// While the subscribers of a stream key stay the same, every viewer is
/// handed, on its writer of a kind, exactly the packets of that kind that
/// the publisher sent, in the order in which they were sent. This holds
/// where no writer serves two viewers nor both kinds of one viewer, as is
/// the case for tracks that are made for each viewer.
pub proof fn lemma_every_viewer_observes_the_stream<W, P>(
    pairs: Seq<TrackPair<W>>,
    sent: Seq<Sent<P>>,
    viewer: int,
    kind: MediaKind,
)
    requires
        writers_are_distinct(pairs),
        0 <= viewer < pairs.len(),
        kind != MediaKind::Unspecified,
    ensures
        observed_by(writes_of(pairs, sent), writer_of(pairs[viewer], kind).unwrap())
            == packets_of_kind(sent, kind),
    decreases sent.len(),
{
    let writer = writer_of(pairs[viewer], kind).unwrap();
    let test = written_to::<W, P>(writer);
    let unwrap = |write: Write<W, P>| write.packet;
    reveal(Seq::filter);
    if sent.len() == 0 {
        assert(observed_by(writes_of(pairs, sent), writer) =~= Seq::<P>::empty());
        assert(packets_of_kind(sent, kind) =~= Seq::<P>::empty());
    } else {
        let earlier = sent.drop_last();
        let last = sent.last();
        lemma_every_viewer_observes_the_stream(pairs, earlier, viewer, kind);
        lemma_one_packet_observed(pairs, last, viewer, kind);
        let before = writes_of(pairs, earlier);
        let now = writes_of_one(pairs, last);
        Seq::filter_distributes_over_add(before, now, test);
        assert((before.filter(test) + now.filter(test)).map_values(unwrap) =~= before.filter(
            test,
        ).map_values(unwrap) + now.filter(test).map_values(unwrap));
        let chosen = earlier.filter(is_of_kind(kind));
        if last.kind == kind {
            assert(sent.filter(is_of_kind(kind)) == chosen.push(last));
            assert(chosen.push(last).map_values(|sent: Sent<P>| sent.packet) =~= chosen.map_values(
                |sent: Sent<P>| sent.packet,
            ) + seq![last.packet]);
        } else {
            assert(sent.filter(is_of_kind(kind)) == chosen);
            assert(packets_of_kind(earlier, kind) + Seq::<P>::empty() =~= packets_of_kind(
                earlier,
                kind,
            ));
        }
    }
}

/// A writer that serves no subscriber is handed nothing.
proof fn lemma_a_stranger_observes_nothing<W, P>(
    pairs: Seq<TrackPair<W>>,
    sent: Seq<Sent<P>>,
    writer: W,
)
    requires
        forall|i: int| 0 <= i < pairs.len() ==> #[trigger] pairs[i].video != writer,
        forall|i: int| 0 <= i < pairs.len() ==> #[trigger] pairs[i].audio != writer,
    ensures
        observed_by(writes_of(pairs, sent), writer) == Seq::<P>::empty(),
    decreases sent.len(),
{
    let test = written_to::<W, P>(writer);
    if sent.len() == 0 {
        lemma_filter_keeps_none(writes_of(pairs, sent), test);
    } else {
        lemma_a_stranger_observes_nothing(pairs, sent.drop_last(), writer);
        let before = writes_of(pairs, sent.drop_last());
        let now = writes_of_one(pairs, sent.last());
        assert forall|i: int| 0 <= i < now.len() implies !test(#[trigger] now[i]) by {
            assert(pairs[i].video != writer);
            assert(pairs[i].audio != writer);
        }
        lemma_filter_keeps_none(now, test);
        Seq::filter_distributes_over_add(before, now, test);
        assert(before.filter(test) + now.filter(test) =~= before.filter(test));
    }
    assert(observed_by(writes_of(pairs, sent), writer) =~= Seq::<P>::empty());
}

/// A viewer that joins while the publisher is sending is handed, on its
/// writer of a kind, exactly the packets of that kind that are sent after
/// it joined, in the order in which they were sent.
pub proof fn lemma_a_late_viewer_observes_what_follows<W, P>(
    pairs: Seq<TrackPair<W>>,
    late: TrackPair<W>,
    before: Seq<Sent<P>>,
    after: Seq<Sent<P>>,
    kind: MediaKind,
)
    requires
        writers_are_distinct(pairs.push(late)),
        kind != MediaKind::Unspecified,
    ensures
        observed_by(
            writes_of(pairs, before) + writes_of(pairs.push(late), after),
            writer_of(late, kind).unwrap(),
        ) == packets_of_kind(after, kind),
{
    let all = pairs.push(late);
    let last = pairs.len() as int;
    let writer = writer_of(late, kind).unwrap();
    let test = written_to::<W, P>(writer);
    assert(all[last] == late);
    assert forall|i: int| 0 <= i < pairs.len() implies #[trigger] pairs[i].video != writer by {
        assert(all[i] == pairs[i]);
        assert(all[i].video != all[last].audio);
        assert(all[i].video != all[last].video);
    }
    assert forall|i: int| 0 <= i < pairs.len() implies #[trigger] pairs[i].audio != writer by {
        assert(all[i] == pairs[i]);
        assert(all[last].video != all[i].audio);
        assert(all[i].audio != all[last].audio);
    }
    lemma_a_stranger_observes_nothing(pairs, before, writer);
    lemma_every_viewer_observes_the_stream(all, after, last, kind);
    let early = writes_of(pairs, before);
    let then = writes_of(all, after);
    Seq::filter_distributes_over_add(early, then, test);
    assert(early.filter(test) =~= Seq::<Write<W, P>>::empty()) by {
        assert(early.filter(test).map_values(|write: Write<W, P>| write.packet).len() == 0);
    }
    assert(early.filter(test) + then.filter(test) =~= then.filter(test));
}

} // verus!
