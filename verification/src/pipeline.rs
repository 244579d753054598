//! The driving control loop: pull a frame, run it through the chain, hand the
//! result to the preview and (best-effort) to the stream sink, then check for
//! a termination request. A capture failure is fatal; a stream-write failure
//! is isolated to its frame.

use vstd::prelude::*;

verus! {

use crate::chain::{EffectChain, chain_fits, run_all_view};
use crate::frame::{Frame, FrameView};

/// A device or sink could not be initialized. Fatal for the frame source,
/// a non-fatal degradation for the stream sink.
#[derive(Clone, Copy, Debug, PartialEq, Eq, Structural)]
pub enum OpenError {
    NoDevice,
    NegotiationFailed,
}

/// Frame acquisition failed mid-session; the session ends.
#[derive(Clone, Copy, Debug, PartialEq, Eq, Structural)]
pub enum CaptureError {
    Disconnected,
    DecodeFailed,
}

/// A stream write failed; the frame is dropped and the loop continues.
#[derive(Clone, Copy, Debug, PartialEq, Eq, Structural)]
pub enum WriteError {
    TransportDisconnected,
}

/// The loop's lifecycle.
#[derive(Clone, Copy, Debug, PartialEq, Eq, Structural)]
pub enum LoopState {
    Starting,
    Running,
    Stopping,
    Faulted,
    Terminated,
}

/// The process-wide state: the effect chain and the sink that is (or is not)
/// open, together with where the loop stands in its lifecycle.
pub struct PipelineSession {
    pub state: LoopState,
    pub chain: EffectChain,
    pub stream_open: bool,
}

impl PipelineSession {
    /// Brings the session up: a failed frame source is fatal, a failed stream
    /// sink only degrades the session to preview-only output.
    pub fn start(
        chain: EffectChain,
        source: Result<(), OpenError>,
        stream: Result<(), OpenError>,
    ) -> (s: PipelineSession)
        ensures
            s.chain == chain,
            s.state == (if source is Ok {
                LoopState::Running
            } else {
                LoopState::Faulted
            }),
            s.stream_open == (stream is Ok),
    {
        let state = match source {
            Ok(()) => LoopState::Running,
            Err(_) => LoopState::Faulted,
        };
        let stream_open = match stream {
            Ok(()) => true,
            Err(_) => false,
        };
        PipelineSession { state, chain, stream_open }
    }

    /// One acquisition: a captured frame comes back processed by the chain,
    /// ready for both sinks; a capture error faults the session and nothing
    /// is handed on.
    pub fn process_capture(&mut self, capture: Result<Frame, CaptureError>) -> (out: Option<
        Frame,
    >)
        requires
            old(self).state == LoopState::Running,
            match capture {
                Ok(f) => f@.wf() && chain_fits(old(self).chain@, f@),
                Err(_) => true,
            },
        ensures
            final(self).chain == old(self).chain,
            final(self).stream_open == old(self).stream_open,
            match capture {
                Ok(f) => {
                    &&& final(self).state == LoopState::Running
                    &&& out matches Some(g) && g@ == run_all_view(old(self).chain@, f@)
                        && g@.wf()
                },
                Err(_) => {
                    &&& final(self).state == LoopState::Faulted
                    &&& out is None
                },
            },
    {
        match capture {
            Ok(f) => Some(self.chain.run_all(f)),
            Err(_) => {
                self.state = LoopState::Faulted;
                None
            },
        }
    }

    /// The end of one iteration: a termination request moves the loop to
    /// `Stopping`; otherwise it keeps running. Stream-write failures never
    /// reach here — they are logged and dropped at the call site.
    pub fn finish_iteration(&mut self, stop_requested: bool)
        requires
            old(self).state == LoopState::Running,
        ensures
            final(self).chain == old(self).chain,
            final(self).stream_open == old(self).stream_open,
            final(self).state == (if stop_requested {
                LoopState::Stopping
            } else {
                LoopState::Running
            }),
    {
        if stop_requested {
            self.state = LoopState::Stopping;
        }
    }

    /// Tears the session down and reports the process exit code: zero for a
    /// requested stop, non-zero for a fault.
    pub fn shutdown(&mut self) -> (code: i32)
        requires
            old(self).state == LoopState::Stopping || old(self).state == LoopState::Faulted,
        ensures
            final(self).chain == old(self).chain,
            final(self).state == LoopState::Terminated,
            code == (if old(self).state == LoopState::Stopping {
                0int
            } else {
                1int
            }),
    {
        let code: i32 = match self.state {
            LoopState::Stopping => 0,
            _ => 1,
        };
        self.state = LoopState::Terminated;
        code
    }
}

/// What a finished (or faulted, or exhausted) run of the loop produced.
#[verifier::ext_equal]
pub ghost struct RunModel {
    pub previewed: Seq<FrameView>,
    pub stream_attempts: nat,
    pub stream_successes: nat,
    pub state: LoopState,
}

/// The loop's behaviour over a given schedule of capture results, stream
/// write results and termination polls, one of each per iteration: every
/// captured frame runs through the chain and reaches the preview; the stream
/// is attempted only while open, a failed write is counted but not retried; a
/// capture error faults the loop at once; a termination request stops it
/// after the frame it arrived with.
pub open spec fn run_model(
    chain: Seq<crate::effect::Effect>,
    stream_open: bool,
    captures: Seq<Result<Frame, CaptureError>>,
    writes: Seq<Result<(), WriteError>>,
    stops: Seq<bool>,
) -> RunModel
    decreases captures.len(),
{
    if captures.len() == 0 {
        RunModel { previewed: Seq::empty(), stream_attempts: 0, stream_successes: 0, state: LoopState::Running }
    } else {
        match captures[0] {
            Err(_) => RunModel {
                previewed: Seq::empty(),
                stream_attempts: 0,
                stream_successes: 0,
                state: LoopState::Faulted,
            },
            Ok(f) => {
                let g = run_all_view(chain, f@);
                let a: nat = if stream_open {
                    1
                } else {
                    0
                };
                let s: nat = if stream_open && writes[0] is Ok {
                    1
                } else {
                    0
                };
                if stops[0] {
                    RunModel {
                        previewed: seq![g],
                        stream_attempts: a,
                        stream_successes: s,
                        state: LoopState::Stopping,
                    }
                } else {
                    let rest = run_model(
                        chain,
                        stream_open,
                        captures.skip(1),
                        writes.skip(1),
                        stops.skip(1),
                    );
                    RunModel {
                        previewed: seq![g] + rest.previewed,
                        stream_attempts: a + rest.stream_attempts,
                        stream_successes: s + rest.stream_successes,
                        state: rest.state,
                    }
                }
            },
        }
    }
}

/// What `run_session` hands back: the frames that reached the preview, the
/// stream sink's tally, and where the loop ended up.
pub struct RunReport {
    pub previewed: Vec<Frame>,
    pub stream_attempts: usize,
    pub stream_successes: usize,
    pub final_state: LoopState,
}

/// Frames as their models, in order.
pub open spec fn views_of(frames: Seq<Frame>) -> Seq<FrameView> {
    frames.map_values(|fr: Frame| fr@)
}

/// Drives the running session over a schedule of capture results, stream
/// write results and termination polls, one of each per iteration, exactly as
/// `run_model` describes; the session is left in the report's final state.
#[verifier::loop_isolation(false)]
pub fn run_session(
    session: &mut PipelineSession,
    captures: Vec<Result<Frame, CaptureError>>,
    writes: Vec<Result<(), WriteError>>,
    stops: Vec<bool>,
) -> (report: RunReport)
    requires
        old(session).state == LoopState::Running,
        captures@.len() == writes@.len(),
        captures@.len() == stops@.len(),
        forall|i: int|
            0 <= i < captures@.len() ==> match #[trigger] captures@[i] {
                Ok(f) => f@.wf() && chain_fits(old(session).chain@, f@),
                Err(_) => true,
            },
    ensures
        final(session).chain == old(session).chain,
        final(session).stream_open == old(session).stream_open,
        ({
            let m = run_model(
                old(session).chain@,
                old(session).stream_open,
                captures@,
                writes@,
                stops@,
            );
            &&& final(session).state == m.state
            &&& report.final_state == m.state
            &&& views_of(report.previewed@) == m.previewed
            &&& report.stream_attempts == m.stream_attempts
            &&& report.stream_successes == m.stream_successes
        }),
{
    let ghost chainv = session.chain@;
    let ghost so = session.stream_open;
    let ghost full_caps = captures@;
    let ghost full_writes = writes@;
    let ghost full_stops = stops@;
    let ghost m = run_model(chainv, so, full_caps, full_writes, full_stops);
    let mut caps = captures;
    let n = stops.len();
    let mut previewed: Vec<Frame> = Vec::new();
    let mut attempts: usize = 0;
    let mut successes: usize = 0;
    let mut t: usize = 0;
    let mut done = false;
    proof {
        assert(full_caps.skip(0) =~= full_caps);
        assert(full_writes.skip(0) =~= full_writes);
        assert(full_stops.skip(0) =~= full_stops);
    }
    while t < n && !done
        invariant
            t <= n,
            session.chain@ == chainv,
            session.chain == old(session).chain,
            session.stream_open == so,
            attempts <= t,
            successes <= attempts,
            !done ==> caps@ == full_caps.skip(t as int),
            !done ==> session.state == LoopState::Running,
            !done ==> m == ({
                let rest = run_model(
                    chainv,
                    so,
                    full_caps.skip(t as int),
                    full_writes.skip(t as int),
                    full_stops.skip(t as int),
                );
                RunModel {
                    previewed: views_of(previewed@) + rest.previewed,
                    stream_attempts: (attempts + rest.stream_attempts) as nat,
                    stream_successes: (successes + rest.stream_successes) as nat,
                    state: rest.state,
                }
            }),
            done ==> {
                &&& session.state == m.state
                &&& views_of(previewed@) == m.previewed
                &&& attempts == m.stream_attempts
                &&& successes == m.stream_successes
            },
        decreases n - t,
    {
        let ghost rest_caps = full_caps.skip(t as int);
        let ghost rest_writes = full_writes.skip(t as int);
        let ghost rest_stops = full_stops.skip(t as int);
        proof {
            assert(rest_caps.skip(1) =~= full_caps.skip(t + 1));
            assert(rest_writes.skip(1) =~= full_writes.skip(t + 1));
            assert(rest_stops.skip(1) =~= full_stops.skip(t + 1));
            assert(rest_caps[0] == full_caps[t as int]);
            assert(rest_writes[0] == full_writes[t as int]);
            assert(rest_stops[0] == full_stops[t as int]);
        }
        let cap = caps.remove(0);
        proof {
            assert(caps@ =~= full_caps.skip(t + 1));
        }
        let ghost prev_views = views_of(previewed@);
        match session.process_capture(cap) {
            None => {
                proof {
                    assert(views_of(previewed@) + Seq::<FrameView>::empty()
                        =~= views_of(previewed@));
                }
                done = true;
            },
            Some(g) => {
                previewed.push(g);
                proof {
                    assert(views_of(previewed@) =~= prev_views.push(g@));
                    assert(prev_views.push(g@) =~= prev_views + seq![g@]);
                }
                if session.stream_open {
                    attempts = attempts + 1;
                    let w = writes[t];
                    match w {
                        Ok(()) => {
                            successes = successes + 1;
                        },
                        Err(_) => {},
                    }
                }
                let stop = stops[t];
                session.finish_iteration(stop);
                if stop {
                    done = true;
                } else {
                    proof {
                        let rest = run_model(chainv, so, rest_caps, rest_writes, rest_stops);
                        let rest_next = run_model(
                            chainv,
                            so,
                            full_caps.skip(t + 1),
                            full_writes.skip(t + 1),
                            full_stops.skip(t + 1),
                        );
                        assert(rest.previewed =~= seq![g@] + rest_next.previewed);
                        assert(prev_views + rest.previewed
                            =~= views_of(previewed@) + rest_next.previewed);
                    }
                }
            },
        }
        t = t + 1;
    }
    proof {
        if !done {
            assert(full_caps.skip(n as int).len() == 0);
            let rest = run_model(
                chainv,
                so,
                full_caps.skip(n as int),
                full_writes.skip(n as int),
                full_stops.skip(n as int),
            );
            assert(views_of(previewed@) + rest.previewed =~= views_of(previewed@));
        }
    }
    let final_state = session.state;
    RunReport { previewed, stream_attempts: attempts, stream_successes: successes, final_state }
}

/// A source that yields three frames and then disconnects: the loop processes
/// exactly those three frames through the chain and the sinks, then faults
/// without touching a fourth.
pub proof fn lemma_capture_failure_is_fatal(
    chain: Seq<crate::effect::Effect>,
    stream_open: bool,
    f1: Frame,
    f2: Frame,
    f3: Frame,
    err: CaptureError,
    writes: Seq<Result<(), WriteError>>,
    stops: Seq<bool>,
)
    requires
        writes.len() == 4,
        stops.len() == 4,
        forall|i: int| 0 <= i < 4 ==> !stops[i],
    ensures
        ({
            let m = run_model(
                chain,
                stream_open,
                seq![Ok(f1), Ok(f2), Ok(f3), Err(err)],
                writes,
                stops,
            );
            &&& m.previewed == seq![
                run_all_view(chain, f1@),
                run_all_view(chain, f2@),
                run_all_view(chain, f3@),
            ]
            &&& m.state == LoopState::Faulted
            &&& m.stream_attempts == (if stream_open {
                3nat
            } else {
                0nat
            })
        }),
{
    let caps: Seq<Result<Frame, CaptureError>> = seq![Ok(f1), Ok(f2), Ok(f3), Err(err)];
    let caps1 = caps.skip(1);
    let caps2 = caps.skip(1).skip(1);
    let caps3 = caps.skip(1).skip(1).skip(1);
    assert(caps1 =~= seq![Ok(f2), Ok(f3), Err(err)]);
    assert(caps2 =~= seq![Ok(f3), Err(err)]);
    assert(caps3 =~= seq![Err(err)]);
    assert(stops.skip(1)[0] == stops[1]);
    assert(stops.skip(1).skip(1)[0] == stops[2]);
    let m3 = run_model(chain, stream_open, caps3, writes.skip(1).skip(1).skip(1),
        stops.skip(1).skip(1).skip(1));
    let m2 = run_model(chain, stream_open, caps2, writes.skip(1).skip(1), stops.skip(1).skip(1));
    let m1 = run_model(chain, stream_open, caps1, writes.skip(1), stops.skip(1));
    let m = run_model(chain, stream_open, caps, writes, stops);
    assert(m3.previewed =~= Seq::<FrameView>::empty());
    assert(m3.state == LoopState::Faulted);
    let g1 = run_all_view(chain, f1@);
    let g2 = run_all_view(chain, f2@);
    let g3 = run_all_view(chain, f3@);
    assert(m2.previewed =~= seq![g3]);
    assert(m1.previewed =~= seq![g2, g3]);
    assert(m.previewed =~= seq![g1, g2, g3]);
}

/// A stream sink whose write fails on the second of five frames: all five
/// frames still reach the preview, the stream is attempted for each, and
/// exactly four writes succeed — the one failure is isolated to its frame.
pub proof fn lemma_write_failure_is_isolated(
    chain: Seq<crate::effect::Effect>,
    f1: Frame,
    f2: Frame,
    f3: Frame,
    f4: Frame,
    f5: Frame,
    writes: Seq<Result<(), WriteError>>,
    stops: Seq<bool>,
)
    requires
        writes.len() == 5,
        writes[0] is Ok,
        writes[1] is Err,
        writes[2] is Ok,
        writes[3] is Ok,
        writes[4] is Ok,
        stops.len() == 5,
        forall|i: int| 0 <= i < 5 ==> !stops[i],
    ensures
        ({
            let m = run_model(chain, true, seq![Ok(f1), Ok(f2), Ok(f3), Ok(f4), Ok(f5)],
                writes, stops);
            &&& m.previewed == seq![
                run_all_view(chain, f1@),
                run_all_view(chain, f2@),
                run_all_view(chain, f3@),
                run_all_view(chain, f4@),
                run_all_view(chain, f5@),
            ]
            &&& m.stream_attempts == 5
            &&& m.stream_successes == 4
        }),
{
    let caps: Seq<Result<Frame, CaptureError>> = seq![Ok(f1), Ok(f2), Ok(f3), Ok(f4), Ok(f5)];
    let caps1 = caps.skip(1);
    let caps2 = caps.skip(1).skip(1);
    let caps3 = caps.skip(1).skip(1).skip(1);
    let caps4 = caps.skip(1).skip(1).skip(1).skip(1);
    let caps5 = caps.skip(1).skip(1).skip(1).skip(1).skip(1);
    assert(caps1 =~= seq![Ok(f2), Ok(f3), Ok(f4), Ok(f5)]);
    assert(caps2 =~= seq![Ok(f3), Ok(f4), Ok(f5)]);
    assert(caps3 =~= seq![Ok(f4), Ok(f5)]);
    assert(caps4 =~= seq![Ok(f5)]);
    assert(caps5 =~= Seq::<Result<Frame, CaptureError>>::empty());
    assert(stops.skip(1)[0] == stops[1]);
    assert(stops.skip(1).skip(1)[0] == stops[2]);
    assert(stops.skip(1).skip(1).skip(1)[0] == stops[3]);
    assert(stops.skip(1).skip(1).skip(1).skip(1)[0] == stops[4]);
    assert(writes.skip(1)[0] == writes[1]);
    assert(writes.skip(1).skip(1)[0] == writes[2]);
    assert(writes.skip(1).skip(1).skip(1)[0] == writes[3]);
    assert(writes.skip(1).skip(1).skip(1).skip(1)[0] == writes[4]);
    let m5 = run_model(chain, true, caps5, writes.skip(1).skip(1).skip(1).skip(1).skip(1),
        stops.skip(1).skip(1).skip(1).skip(1).skip(1));
    let m4 = run_model(chain, true, caps4, writes.skip(1).skip(1).skip(1).skip(1),
        stops.skip(1).skip(1).skip(1).skip(1));
    let m3 = run_model(chain, true, caps3, writes.skip(1).skip(1).skip(1),
        stops.skip(1).skip(1).skip(1));
    let m2 = run_model(chain, true, caps2, writes.skip(1).skip(1), stops.skip(1).skip(1));
    let m1 = run_model(chain, true, caps1, writes.skip(1), stops.skip(1));
    let m = run_model(chain, true, caps, writes, stops);
    let g1 = run_all_view(chain, f1@);
    let g2 = run_all_view(chain, f2@);
    let g3 = run_all_view(chain, f3@);
    let g4 = run_all_view(chain, f4@);
    let g5 = run_all_view(chain, f5@);
    assert(m5.previewed =~= Seq::<FrameView>::empty());
    assert(m4.previewed =~= seq![g5]);
    assert(m3.previewed =~= seq![g4, g5]);
    assert(m2.previewed =~= seq![g3, g4, g5]);
    assert(m1.previewed =~= seq![g2, g3, g4, g5]);
    assert(m.previewed =~= seq![g1, g2, g3, g4, g5]);
    assert(m.stream_successes == 4);
}

} // verus!
