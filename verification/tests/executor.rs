use blazebee::agent::executor::{
    loop_step, read_statm, resident_mib, LoopAction, LoopEvent, LoopPhase, StatmReading, PAGE_SIZE,
};
use blazebee::agent::readiness::ReadinessState;

#[test]
fn statm_second_field_is_resident_pages() {
    assert_eq!(read_statm("5000 1234 300 10 0 900 0\n"), StatmReading::ResidentPages(1234));
    assert_eq!(read_statm("1 x"), StatmReading::BadValue);
    assert_eq!(read_statm("42"), StatmReading::BadFormat);
    assert_eq!(read_statm(""), StatmReading::BadFormat);
}

#[test]
fn resident_memory_in_whole_mebibytes() {
    assert_eq!(PAGE_SIZE, 4096);
    assert_eq!(resident_mib(0), 0);
    assert_eq!(resident_mib(255), 0);
    assert_eq!(resident_mib(256), 1);
    assert_eq!(resident_mib(1234), 4);
    assert_eq!(resident_mib(262144), 1024);
}

#[test]
fn waiting_ends_only_on_ready() {
    let w = LoopPhase::AwaitingReadiness;
    assert_eq!(loop_step(w, &LoopEvent::ReadinessSeen(ReadinessState::Unknown), 5000), (w, LoopAction::Wait));
    assert_eq!(
        loop_step(w, &LoopEvent::ReadinessSeen(ReadinessState::NotReadyYet("x".to_string())), 5000),
        (w, LoopAction::Wait)
    );
    assert_eq!(
        loop_step(w, &LoopEvent::ReadinessSeen(ReadinessState::FatalExit("x".to_string())), 5000),
        (w, LoopAction::Wait)
    );
    assert_eq!(loop_step(w, &LoopEvent::WaitTimedOut, 5000), (w, LoopAction::Wait));
    assert_eq!(loop_step(w, &LoopEvent::RoundFinished(1), 5000), (w, LoopAction::Wait));
    assert_eq!(
        loop_step(w, &LoopEvent::ReadinessSeen(ReadinessState::Ready), 5000),
        (LoopPhase::Collecting, LoopAction::CollectNow)
    );
}

#[test]
fn rounds_fill_the_interval() {
    let c = LoopPhase::Collecting;
    assert_eq!(loop_step(c, &LoopEvent::RoundFinished(1200), 5000), (c, LoopAction::CollectAfter(3800)));
    assert_eq!(loop_step(c, &LoopEvent::RoundFinished(5000), 5000), (c, LoopAction::CollectNow));
    assert_eq!(loop_step(c, &LoopEvent::RoundFinished(9000), 5000), (c, LoopAction::CollectNow));
    assert_eq!(
        loop_step(c, &LoopEvent::ReadinessSeen(ReadinessState::FatalExit("gone".to_string())), 5000),
        (c, LoopAction::Wait)
    );
}
