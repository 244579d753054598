use framepipe::chain::standard_chain;
use framepipe::frame::Frame;
use framepipe::pipeline::{
    run_session, CaptureError, LoopState, OpenError, PipelineSession, WriteError,
};

fn frame(width: usize, height: usize, data: Vec<u8>) -> Frame {
    Frame::new(width, height, data).expect("valid frame")
}

#[test]
fn start_runs_when_source_opens() {
    let s = PipelineSession::start(standard_chain(), Ok(()), Ok(()));
    assert_eq!(s.state, LoopState::Running);
    assert!(s.stream_open);
}

#[test]
fn failed_source_open_is_fatal() {
    let mut s = PipelineSession::start(standard_chain(), Err(OpenError::NoDevice), Ok(()));
    assert_eq!(s.state, LoopState::Faulted);
    let code = s.shutdown();
    assert_eq!(s.state, LoopState::Terminated);
    assert_ne!(code, 0);
}

#[test]
fn failed_stream_open_degrades_to_preview_only() {
    let s = PipelineSession::start(
        standard_chain(),
        Ok(()),
        Err(OpenError::NegotiationFailed),
    );
    assert_eq!(s.state, LoopState::Running);
    assert!(!s.stream_open);
}

#[test]
fn requested_stop_exits_cleanly() {
    let mut s = PipelineSession::start(standard_chain(), Ok(()), Ok(()));
    s.finish_iteration(false);
    assert_eq!(s.state, LoopState::Running);
    s.finish_iteration(true);
    assert_eq!(s.state, LoopState::Stopping);
    let code = s.shutdown();
    assert_eq!(code, 0);
    assert_eq!(s.state, LoopState::Terminated);
}

#[test]
fn capture_error_faults_the_session() {
    let mut s = PipelineSession::start(standard_chain(), Ok(()), Ok(()));
    let out = s.process_capture(Err(CaptureError::Disconnected));
    assert!(out.is_none());
    assert_eq!(s.state, LoopState::Faulted);
}

#[test]
fn captured_frame_comes_back_processed() {
    let mut s = PipelineSession::start(standard_chain(), Ok(()), Ok(()));
    s.chain.toggle(0);
    let out = s.process_capture(Ok(frame(1, 1, vec![1, 2, 3])));
    let g = out.expect("a processed frame");
    assert_eq!(g.data, vec![254, 253, 252]);
    assert_eq!(s.state, LoopState::Running);
}

#[test]
fn disconnect_after_three_frames_faults_without_a_fourth() {
    let mut s = PipelineSession::start(standard_chain(), Ok(()), Ok(()));
    let captures = vec![
        Ok(frame(1, 1, vec![1, 1, 1])),
        Ok(frame(1, 1, vec![2, 2, 2])),
        Ok(frame(1, 1, vec![3, 3, 3])),
        Err(CaptureError::Disconnected),
    ];
    let writes = vec![Ok(()), Ok(()), Ok(()), Ok(())];
    let stops = vec![false, false, false, false];
    let report = run_session(&mut s, captures, writes, stops);
    assert_eq!(report.previewed.len(), 3);
    assert_eq!(report.previewed[0].data, vec![1, 1, 1]);
    assert_eq!(report.previewed[1].data, vec![2, 2, 2]);
    assert_eq!(report.previewed[2].data, vec![3, 3, 3]);
    assert_eq!(report.stream_attempts, 3);
    assert_eq!(report.stream_successes, 3);
    assert_eq!(report.final_state, LoopState::Faulted);
    assert_eq!(s.state, LoopState::Faulted);
}

#[test]
fn one_write_failure_is_isolated_to_its_frame() {
    let mut s = PipelineSession::start(standard_chain(), Ok(()), Ok(()));
    let captures = vec![
        Ok(frame(1, 1, vec![1, 1, 1])),
        Ok(frame(1, 1, vec![2, 2, 2])),
        Ok(frame(1, 1, vec![3, 3, 3])),
        Ok(frame(1, 1, vec![4, 4, 4])),
        Ok(frame(1, 1, vec![5, 5, 5])),
    ];
    let writes = vec![
        Ok(()),
        Err(WriteError::TransportDisconnected),
        Ok(()),
        Ok(()),
        Ok(()),
    ];
    let stops = vec![false; 5];
    let report = run_session(&mut s, captures, writes, stops);
    assert_eq!(report.previewed.len(), 5);
    for (i, g) in report.previewed.iter().enumerate() {
        let v = (i + 1) as u8;
        assert_eq!(g.data, vec![v, v, v]);
    }
    assert_eq!(report.stream_attempts, 5);
    assert_eq!(report.stream_successes, 4);
    assert_eq!(report.final_state, LoopState::Running);
}

#[test]
fn closed_stream_is_never_attempted() {
    let mut s = PipelineSession::start(
        standard_chain(),
        Ok(()),
        Err(OpenError::NegotiationFailed),
    );
    let captures = vec![
        Ok(frame(1, 1, vec![1, 1, 1])),
        Ok(frame(1, 1, vec![2, 2, 2])),
    ];
    let writes = vec![Ok(()), Ok(())];
    let stops = vec![false, false];
    let report = run_session(&mut s, captures, writes, stops);
    assert_eq!(report.previewed.len(), 2);
    assert_eq!(report.stream_attempts, 0);
    assert_eq!(report.stream_successes, 0);
}

#[test]
fn stop_request_ends_the_run_after_its_frame() {
    let mut s = PipelineSession::start(standard_chain(), Ok(()), Ok(()));
    let captures = vec![
        Ok(frame(1, 1, vec![1, 1, 1])),
        Ok(frame(1, 1, vec![2, 2, 2])),
        Ok(frame(1, 1, vec![3, 3, 3])),
    ];
    let writes = vec![Ok(()), Ok(()), Ok(())];
    let stops = vec![false, true, false];
    let report = run_session(&mut s, captures, writes, stops);
    assert_eq!(report.previewed.len(), 2);
    assert_eq!(report.final_state, LoopState::Stopping);
    let code = s.shutdown();
    assert_eq!(code, 0);
}

#[test]
fn effects_run_inside_the_loop() {
    let mut s = PipelineSession::start(standard_chain(), Ok(()), Ok(()));
    s.chain.toggle(3);
    let captures = vec![Ok(frame(1, 1, vec![9, 9, 9]))];
    let report = run_session(&mut s, captures, vec![Ok(())], vec![false]);
    assert_eq!(report.previewed.len(), 1);
    assert_eq!(report.previewed[0].width, 2);
    assert_eq!(report.previewed[0].height, 2);
    assert_eq!(report.previewed[0].data, vec![9; 12]);
}
