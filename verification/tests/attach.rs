use bs_filter::attach::{drop_all, pending, step, Action, Event, State, EAGAIN, EWOULDBLOCK};
use bs_filter::cbpf::SocketFilter;
use bs_filter::system::SystemError;

#[test]
fn drop_all_is_one_return() {
    let program = drop_all();
    assert_eq!(program.len(), 1);
    assert_eq!(program.instructions(), &vec![SocketFilter::new(0x06, 0, 0, 0)]);
}

#[test]
fn attachment_goes_through_drop_and_drain() {
    let (s, a) = step(State::Start, Event::Begin);
    assert_eq!((s, a), (State::Dropping, Action::AttachDropAll));
    let (s, a) = step(s, Event::Attach(Ok(())));
    assert_eq!((s, a), (State::Draining, Action::Receive));
    let (s, a) = step(s, Event::Receive(Ok(60)));
    assert_eq!((s, a), (State::Draining, Action::Receive));
    let (s, a) = step(s, Event::Receive(Ok(0)));
    assert_eq!((s, a), (State::Draining, Action::Receive));
    let (s, a) = step(s, Event::Receive(Err(SystemError(EWOULDBLOCK))));
    assert_eq!((s, a), (State::Attaching, Action::AttachFilter));
    let (s, a) = step(s, Event::Attach(Ok(())));
    assert_eq!((s, a), (State::Attached, Action::Stop));
}

#[test]
fn empty_queue_by_either_name() {
    assert_eq!(
        step(State::Draining, Event::Receive(Err(SystemError(EAGAIN)))),
        (State::Attaching, Action::AttachFilter)
    );
    assert_eq!(EAGAIN, libc::EAGAIN);
    assert_eq!(EWOULDBLOCK, libc::EWOULDBLOCK);
}

#[test]
fn a_failed_call_ends_the_attachment() {
    assert_eq!(
        step(State::Dropping, Event::Attach(Err(SystemError(9)))),
        (State::Failed(SystemError(9)), Action::Stop)
    );
    assert_eq!(
        step(State::Draining, Event::Receive(Err(SystemError(9)))),
        (State::Failed(SystemError(9)), Action::Stop)
    );
    assert_eq!(
        step(State::Attaching, Event::Attach(Err(SystemError(1)))),
        (State::Failed(SystemError(1)), Action::Stop)
    );
}

#[test]
fn an_event_out_of_turn_changes_nothing() {
    assert_eq!(
        step(State::Start, Event::Attach(Ok(()))),
        (State::Start, Action::Stop)
    );
    assert_eq!(
        step(State::Dropping, Event::Receive(Ok(1))),
        (State::Dropping, Action::AttachDropAll)
    );
    assert_eq!(
        step(State::Draining, Event::Attach(Ok(()))),
        (State::Draining, Action::Receive)
    );
    assert_eq!(
        step(State::Attaching, Event::Begin),
        (State::Attaching, Action::AttachFilter)
    );
    assert_eq!(step(State::Attached, Event::Begin), (State::Attached, Action::Stop));
    assert_eq!(
        step(State::Failed(SystemError(4)), Event::Attach(Ok(()))),
        (State::Failed(SystemError(4)), Action::Stop)
    );
}

#[test]
fn pending_names_the_call() {
    assert_eq!(pending(State::Start), Action::Stop);
    assert_eq!(pending(State::Dropping), Action::AttachDropAll);
    assert_eq!(pending(State::Draining), Action::Receive);
    assert_eq!(pending(State::Attaching), Action::AttachFilter);
    assert_eq!(pending(State::Attached), Action::Stop);
    assert_eq!(pending(State::Failed(SystemError(1))), Action::Stop);
}
