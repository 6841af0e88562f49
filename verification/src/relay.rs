use vstd::prelude::*;

verus! {

/// A frame on the message-framed side of a relay session: opaque payload
/// bytes, a textual control command, the transport's own close frame, or any
/// other frame kind.
pub enum RelayFrame {
    Binary(Vec<u8>),
    Text(Vec<u8>),
    Close,
    Other,
}

/// A frame as mathematical values.
pub enum FrameModel {
    Binary(Seq<u8>),
    Text(Seq<u8>),
    Close,
    Other,
}

impl View for RelayFrame {
    type V = FrameModel;

    open spec fn view(&self) -> FrameModel {
        match self {
            RelayFrame::Binary(p) => FrameModel::Binary(p@),
            RelayFrame::Text(t) => FrameModel::Text(t@),
            RelayFrame::Close => FrameModel::Close,
            RelayFrame::Other => FrameModel::Other,
        }
    }
}

/// The models of a run of frames, in order.
pub open spec fn frame_views(s: Seq<RelayFrame>) -> Seq<FrameModel> {
    s.map(|i: int, f: RelayFrame| f@)
}

/// The bytes of the textual half-close command.
pub open spec fn half_close_bytes() -> Seq<u8> {
    seq![104u8, 97u8, 108u8, 102u8, 95u8, 99u8, 108u8, 111u8, 115u8, 101u8]
}

/// Builds the half-close control frame.
pub fn half_close_frame() -> (f: RelayFrame)
    ensures
        f@ == FrameModel::Text(half_close_bytes()),
{
    let mut t: Vec<u8> = Vec::new();
    t.push(104);
    t.push(97);
    t.push(108);
    t.push(102);
    t.push(95);
    t.push(99);
    t.push(108);
    t.push(111);
    t.push(115);
    t.push(101);
    proof {
        assert(t@ =~= half_close_bytes());
    }
    RelayFrame::Text(t)
}

/// Whether these bytes spell the half-close command.
pub fn is_half_close(t: &Vec<u8>) -> (r: bool)
    ensures
        r == (t@ == half_close_bytes()),
{
    if t.len() != 10 {
        return false;
    }
    let r = t[0] == 104 && t[1] == 97 && t[2] == 108 && t[3] == 102 && t[4] == 95 && t[5] == 99
        && t[6] == 108 && t[7] == 111 && t[8] == 115 && t[9] == 101;
    proof {
        if r {
            assert(t@ =~= half_close_bytes());
        }
    }
    r
}

// ---------------------------------------------------------------------------
// Stream to message
// ---------------------------------------------------------------------------

/// One read from the byte-stream side: the bytes that arrived — none at all
/// means end-of-input — or a failed read.
pub enum ReadOutcome {
    Bytes(Vec<u8>),
    Failed,
}

/// A read as mathematical values.
pub enum ReadModel {
    Bytes(Seq<u8>),
    Failed,
}

impl View for ReadOutcome {
    type V = ReadModel;

    open spec fn view(&self) -> ReadModel {
        match self {
            ReadOutcome::Bytes(d) => ReadModel::Bytes(d@),
            ReadOutcome::Failed => ReadModel::Failed,
        }
    }
}

/// The models of a run of reads, in order.
pub open spec fn read_views(s: Seq<ReadOutcome>) -> Seq<ReadModel> {
    s.map(|i: int, r: ReadOutcome| r@)
}

/// What the stream-to-message pump does after one read: send this frame and
/// keep pumping, send this frame and stop, or stop silently.
pub enum StreamStep {
    Forward(RelayFrame),
    FinishHalfClose(RelayFrame),
    Abort,
}

/// The decision of the stream-to-message pump for one read: bytes travel on
/// as one binary frame, chunk for chunk; end-of-input sends the half-close
/// command and ends the pump; a failed read ends the pump with no control
/// frame.
pub fn stream_to_message_step(r: ReadOutcome) -> (s: StreamStep)
    ensures
        match r {
            ReadOutcome::Bytes(d) => if d@.len() > 0 {
                s matches StreamStep::Forward(f) && f@ == FrameModel::Binary(d@)
            } else {
                s matches StreamStep::FinishHalfClose(f) && f@ == FrameModel::Text(
                    half_close_bytes(),
                )
            },
            ReadOutcome::Failed => s == StreamStep::Abort,
        },
{
    match r {
        ReadOutcome::Bytes(d) => if d.len() > 0 {
            StreamStep::Forward(RelayFrame::Binary(d))
        } else {
            StreamStep::FinishHalfClose(half_close_frame())
        },
        ReadOutcome::Failed => StreamStep::Abort,
    }
}

/// The frames the stream-to-message pump sends for a run of reads: one
/// binary frame for each non-empty read, in order, closed by the half-close
/// command at end-of-input; a failed read ends the run with nothing more.
pub open spec fn spec_stream_frames(reads: Seq<ReadModel>) -> Seq<FrameModel>
    decreases reads.len(),
{
    if reads.len() == 0 {
        seq![]
    } else {
        match reads[0] {
            ReadModel::Failed => seq![],
            ReadModel::Bytes(d) => if d.len() == 0 {
                seq![FrameModel::Text(half_close_bytes())]
            } else {
                seq![FrameModel::Binary(d)] + spec_stream_frames(reads.drop_first())
            },
        }
    }
}

/// Runs the stream-to-message pump over a whole run of reads and collects
/// the frames it sends, in order.
pub fn stream_to_message_frames(reads: Vec<ReadOutcome>) -> (frames: Vec<RelayFrame>)
    ensures
        frame_views(frames@) == spec_stream_frames(read_views(reads@)),
{
    let ghost reads0 = read_views(reads@);
    let mut rest = reads;
    let mut frames: Vec<RelayFrame> = Vec::new();
    proof {
        assert(frame_views(frames@) =~= Seq::<FrameModel>::empty());
    }
    loop
        invariant_except_break
            spec_stream_frames(reads0) == frame_views(frames@) + spec_stream_frames(
                read_views(rest@),
            ),
        ensures
            frame_views(frames@) == spec_stream_frames(reads0),
        decreases rest@.len(),
    {
        if rest.len() == 0 {
            proof {
                assert(frame_views(frames@) + spec_stream_frames(read_views(rest@))
                    =~= frame_views(frames@));
            }
            break ;
        }
        let ghost rv = read_views(rest@);
        let rd = rest.remove(0);
        proof {
            assert(read_views(rest@) =~= rv.drop_first());
        }
        match stream_to_message_step(rd) {
            StreamStep::Forward(f) => {
                let ghost fv0 = frame_views(frames@);
                frames.push(f);
                proof {
                    assert(frame_views(frames@) =~= fv0.push(f@));
                    assert(spec_stream_frames(rv) == seq![f@] + spec_stream_frames(
                        rv.drop_first(),
                    ));
                    assert(fv0 + (seq![f@] + spec_stream_frames(rv.drop_first())) =~= fv0.push(f@)
                        + spec_stream_frames(rv.drop_first()));
                }
            },
            StreamStep::FinishHalfClose(f) => {
                let ghost fv0 = frame_views(frames@);
                frames.push(f);
                proof {
                    assert(frame_views(frames@) =~= fv0.push(f@));
                    assert(spec_stream_frames(rv) == seq![f@]);
                    assert(fv0 + seq![f@] =~= fv0.push(f@));
                }
                break ;
            },
            StreamStep::Abort => {
                proof {
                    assert(spec_stream_frames(rv) =~= Seq::<FrameModel>::empty());
                    assert(frame_views(frames@) + spec_stream_frames(rv) =~= frame_views(
                        frames@,
                    ));
                }
                break ;
            },
        }
    }
    frames
}

// ---------------------------------------------------------------------------
// Message to stream
// ---------------------------------------------------------------------------

/// One receive on the message-framed side: a frame, or a failed receive.
pub enum RecvOutcome {
    Frame(RelayFrame),
    Failed,
}

/// A receive as mathematical values.
pub enum RecvModel {
    Frame(FrameModel),
    Failed,
}

impl View for RecvOutcome {
    type V = RecvModel;

    open spec fn view(&self) -> RecvModel {
        match self {
            RecvOutcome::Frame(f) => RecvModel::Frame(f@),
            RecvOutcome::Failed => RecvModel::Failed,
        }
    }
}

/// The models of a run of receives, in order.
pub open spec fn recv_views(s: Seq<RecvOutcome>) -> Seq<RecvModel> {
    s.map(|i: int, r: RecvOutcome| r@)
}

/// What the message-to-stream pump does after one receive: write these bytes
/// to the stream and keep pumping, ignore the frame and keep pumping, or
/// shut the stream's write side and stop.
pub enum MessageStep {
    Write(Vec<u8>),
    Skip,
    Shutdown,
}

/// The decision of the message-to-stream pump for one receive: a binary
/// payload is written verbatim; the half-close command, a close frame, an
/// unknown frame kind, or a failed receive ends the pump and shuts the
/// stream's write side; any other text is ignored.
pub fn message_to_stream_step(r: RecvOutcome) -> (s: MessageStep)
    ensures
        match r {
            RecvOutcome::Frame(f) => match f@ {
                FrameModel::Binary(p) => s matches MessageStep::Write(w) && w@ == p,
                FrameModel::Text(t) => s == (if t == half_close_bytes() {
                    MessageStep::Shutdown
                } else {
                    MessageStep::Skip
                }),
                FrameModel::Close => s == MessageStep::Shutdown,
                FrameModel::Other => s == MessageStep::Shutdown,
            },
            RecvOutcome::Failed => s == MessageStep::Shutdown,
        },
{
    match r {
        RecvOutcome::Frame(f) => match f {
            RelayFrame::Binary(p) => MessageStep::Write(p),
            RelayFrame::Text(t) => if is_half_close(&t) {
                MessageStep::Shutdown
            } else {
                MessageStep::Skip
            },
            RelayFrame::Close => MessageStep::Shutdown,
            RelayFrame::Other => MessageStep::Shutdown,
        },
        RecvOutcome::Failed => MessageStep::Shutdown,
    }
}

/// The byte chunks the message-to-stream pump writes for a run of receives:
/// each binary payload in order, up to the first half-close command, close
/// frame, unknown frame kind, or failed receive.
pub open spec fn spec_stream_writes(recvs: Seq<RecvModel>) -> Seq<Seq<u8>>
    decreases recvs.len(),
{
    if recvs.len() == 0 {
        seq![]
    } else {
        match recvs[0] {
            RecvModel::Failed => seq![],
            RecvModel::Frame(f) => match f {
                FrameModel::Binary(p) => seq![p] + spec_stream_writes(recvs.drop_first()),
                FrameModel::Text(t) => if t == half_close_bytes() {
                    seq![]
                } else {
                    spec_stream_writes(recvs.drop_first())
                },
                FrameModel::Close => seq![],
                FrameModel::Other => seq![],
            },
        }
    }
}

/// The models of the written chunks, in order.
pub open spec fn chunk_views(s: Seq<Vec<u8>>) -> Seq<Seq<u8>> {
    s.map(|i: int, c: Vec<u8>| c@)
}

/// Runs the message-to-stream pump over a whole run of receives and collects
/// the chunks it writes, in order.
pub fn message_to_stream_writes(recvs: Vec<RecvOutcome>) -> (writes: Vec<Vec<u8>>)
    ensures
        chunk_views(writes@) == spec_stream_writes(recv_views(recvs@)),
{
    let ghost recvs0 = recv_views(recvs@);
    let mut rest = recvs;
    let mut writes: Vec<Vec<u8>> = Vec::new();
    proof {
        assert(chunk_views(writes@) =~= Seq::<Seq<u8>>::empty());
    }
    loop
        invariant_except_break
            spec_stream_writes(recvs0) == chunk_views(writes@) + spec_stream_writes(
                recv_views(rest@),
            ),
        ensures
            chunk_views(writes@) == spec_stream_writes(recvs0),
        decreases rest@.len(),
    {
        if rest.len() == 0 {
            proof {
                assert(chunk_views(writes@) + spec_stream_writes(recv_views(rest@))
                    =~= chunk_views(writes@));
            }
            break ;
        }
        let ghost rv = recv_views(rest@);
        let rd = rest.remove(0);
        proof {
            assert(recv_views(rest@) =~= rv.drop_first());
        }
        match message_to_stream_step(rd) {
            MessageStep::Write(w) => {
                let ghost wv0 = chunk_views(writes@);
                writes.push(w);
                proof {
                    assert(chunk_views(writes@) =~= wv0.push(w@));
                    assert(spec_stream_writes(rv) == seq![w@] + spec_stream_writes(
                        rv.drop_first(),
                    ));
                    assert(wv0 + (seq![w@] + spec_stream_writes(rv.drop_first())) =~= wv0.push(w@)
                        + spec_stream_writes(rv.drop_first()));
                }
            },
            MessageStep::Skip => {
                proof {
                    assert(spec_stream_writes(rv) == spec_stream_writes(rv.drop_first()));
                }
            },
            MessageStep::Shutdown => {
                proof {
                    assert(spec_stream_writes(rv) =~= Seq::<Seq<u8>>::empty());
                    assert(chunk_views(writes@) + spec_stream_writes(rv) =~= chunk_views(
                        writes@,
                    ));
                }
                break ;
            },
        }
    }
    writes
}

// ---------------------------------------------------------------------------
// Half-close propagation
// ---------------------------------------------------------------------------

/// Half-close propagation: when the byte-stream side delivers some non-empty
/// chunks and then end-of-input, the message side carries exactly those
/// chunks as binary frames, in order, followed by the half-close command;
/// and a pump receiving those frames writes exactly the chunks, in order,
/// before the half-close shuts the stream's write side.
pub proof fn lemma_half_close_propagation(datas: Seq<Seq<u8>>)
    requires
        forall|i: int| 0 <= i < datas.len() ==> datas[i].len() > 0,
    ensures
        spec_stream_frames(
            datas.map(|i: int, d: Seq<u8>| ReadModel::Bytes(d)).push(ReadModel::Bytes(seq![])),
        ) == datas.map(|i: int, d: Seq<u8>| FrameModel::Binary(d)).push(
            FrameModel::Text(half_close_bytes()),
        ),
        spec_stream_writes(
            datas.map(|i: int, d: Seq<u8>| FrameModel::Binary(d)).push(
                FrameModel::Text(half_close_bytes()),
            ).map(|i: int, f: FrameModel| RecvModel::Frame(f)),
        ) == datas,
    decreases datas.len(),
{
    let reads = datas.map(|i: int, d: Seq<u8>| ReadModel::Bytes(d)).push(
        ReadModel::Bytes(seq![]),
    );
    let frames = datas.map(|i: int, d: Seq<u8>| FrameModel::Binary(d)).push(
        FrameModel::Text(half_close_bytes()),
    );
    let recvs = frames.map(|i: int, f: FrameModel| RecvModel::Frame(f));
    if datas.len() == 0 {
        assert(reads =~= seq![ReadModel::Bytes(seq![])]);
        assert(frames =~= seq![FrameModel::Text(half_close_bytes())]);
        assert(recvs =~= seq![RecvModel::Frame(FrameModel::Text(half_close_bytes()))]);
        assert(spec_stream_frames(reads) == seq![FrameModel::Text(half_close_bytes())]);
        assert(spec_stream_frames(reads) =~= frames);
        assert(spec_stream_writes(recvs) =~= datas);
    } else {
        let tail = datas.drop_first();
        lemma_half_close_propagation(tail);
        let treads = tail.map(|i: int, d: Seq<u8>| ReadModel::Bytes(d)).push(
            ReadModel::Bytes(seq![]),
        );
        let tframes = tail.map(|i: int, d: Seq<u8>| FrameModel::Binary(d)).push(
            FrameModel::Text(half_close_bytes()),
        );
        let trecvs = tframes.map(|i: int, f: FrameModel| RecvModel::Frame(f));
        assert(reads[0] == ReadModel::Bytes(datas[0]));
        assert(reads.drop_first() =~= treads);
        assert(spec_stream_frames(reads) == seq![FrameModel::Binary(datas[0])]
            + spec_stream_frames(treads));
        assert(seq![FrameModel::Binary(datas[0])] + tframes =~= frames);
        assert(spec_stream_frames(reads) =~= frames);
        assert(recvs[0] == RecvModel::Frame(FrameModel::Binary(datas[0])));
        assert(recvs.drop_first() =~= trecvs);
        assert(spec_stream_writes(recvs) == seq![datas[0]] + spec_stream_writes(trecvs));
        assert(seq![datas[0]] + tail =~= datas);
        assert(spec_stream_writes(recvs) =~= datas);
    }
}

} // verus!
