use zen_render_mesh::requests::{FrameGraphSnapshotRequestState, GpuTimingRequestState};

/// A readback that is complete after a given number of polls, standing in for a GPU timing
/// readback.
struct Readback {
    frame_index: u64,
    polls_left: u32,
}

impl Readback {
    fn try_take(&mut self) -> Option<u64> {
        if self.polls_left == 0 {
            Some(self.frame_index)
        } else {
            self.polls_left -= 1;
            None
        }
    }
}

fn take_timing(state: &mut GpuTimingRequestState<Readback>) -> Option<u64> {
    let report = state.pending_mut()?.try_take()?;
    state.finish();
    Some(report)
}

fn take_snapshot(state: &mut FrameGraphSnapshotRequestState<Readback>) -> Option<u64> {
    let frame = state.pending_mut()?.try_take()?;
    state.finish();
    Some(frame)
}

fn timing_requests_coalesce() {
    let mut state = GpuTimingRequestState::new();
    assert!(!state.should_execute());
    state.request();
    state.request();
    assert!(state.should_execute());

    state.commit(Readback {
        frame_index: 1,
        polls_left: 0,
    });
    assert!(!state.should_execute());

    state.request();
    state.request();
    assert!(!state.should_execute());
    assert_eq!(take_timing(&mut state), Some(1));
    assert!(state.should_execute());
}

fn snapshot_requests_take_priority() {
    let mut snapshot = FrameGraphSnapshotRequestState::new();
    let mut ordinary: GpuTimingRequestState<Readback> = GpuTimingRequestState::new();
    ordinary.request();
    snapshot.request();
    snapshot.request();

    assert!(!snapshot.should_execute(true));
    assert!(snapshot.should_execute(false));
    assert!(ordinary.should_execute());

    snapshot.commit(Readback {
        frame_index: 9,
        polls_left: 1,
    });
    snapshot.request();
    assert!(!snapshot.is_requested(), "a pending capture absorbs duplicate requests");
    assert!(ordinary.is_requested(), "ordinary timing remains queued behind the snapshot");
    assert_eq!(take_snapshot(&mut snapshot), None);
    assert_eq!(take_snapshot(&mut snapshot), Some(9));
    assert_eq!(take_snapshot(&mut snapshot), None);
}

#[test]
fn host_timing_requests_coalesce_and_queue_behind_an_unconsumed_result() {
    timing_requests_coalesce();
}

#[test]
fn renderer_timing_requests_coalesce_and_queue_behind_an_unconsumed_result() {
    timing_requests_coalesce();
}

#[test]
fn host_snapshot_requests_coalesce_take_priority_and_move_the_full_report() {
    snapshot_requests_take_priority();
}

#[test]
fn renderer_snapshot_requests_coalesce_take_priority_and_move_the_full_report() {
    snapshot_requests_take_priority();
}
