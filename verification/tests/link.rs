use cert_machine::link::{link_step, LinkSeen, LinkState, LinkStep};
use cert_machine::store::StoreError;

#[test]
fn a_free_place_takes_one_step() {
    assert_eq!(link_step(LinkState::Start, LinkSeen::Nothing, true), (LinkState::Creating, LinkStep::Create));
    assert_eq!(link_step(LinkState::Creating, LinkSeen::Created, true), (LinkState::Finished, LinkStep::Done));
}

#[test]
fn an_old_link_is_replaced() {
    let mut state = LinkState::Start;
    let mut seen = LinkSeen::Nothing;
    let answers = [LinkSeen::CreateFailed, LinkSeen::IsSymlink, LinkSeen::Removed, LinkSeen::Created];
    let mut steps = Vec::new();
    let mut next_answer = 0;
    loop {
        let (next, step) = link_step(state, seen, true);
        steps.push(step);
        state = next;
        if state == LinkState::Finished {
            break;
        }
        seen = answers[next_answer];
        next_answer += 1;
    }
    assert_eq!(
        steps,
        vec![LinkStep::Create, LinkStep::Inspect, LinkStep::Remove, LinkStep::Create, LinkStep::Done]
    );
}

#[test]
fn a_file_in_the_way_is_never_removed() {
    assert_eq!(
        link_step(LinkState::Creating, LinkSeen::CreateFailed, true),
        (LinkState::Inspecting, LinkStep::Inspect)
    );
    assert_eq!(
        link_step(LinkState::Inspecting, LinkSeen::NotSymlink, true),
        (LinkState::Finished, LinkStep::Fail(StoreError::NotASymlink))
    );
}

#[test]
fn without_replacing_the_first_failure_ends_it() {
    assert_eq!(
        link_step(LinkState::Creating, LinkSeen::CreateFailed, false),
        (LinkState::Finished, LinkStep::Fail(StoreError::AlreadyExists))
    );
}

#[test]
fn failures_along_the_way() {
    assert_eq!(
        link_step(LinkState::Inspecting, LinkSeen::InspectFailed, true),
        (LinkState::Finished, LinkStep::Fail(StoreError::Unreadable))
    );
    assert_eq!(
        link_step(LinkState::Removing, LinkSeen::RemoveFailed, true),
        (LinkState::Finished, LinkStep::Fail(StoreError::RemoveFailed))
    );
    assert_eq!(
        link_step(LinkState::Retrying, LinkSeen::CreateFailed, true),
        (LinkState::Finished, LinkStep::Fail(StoreError::LinkFailed))
    );
    assert_eq!(link_step(LinkState::Retrying, LinkSeen::Created, true), (LinkState::Finished, LinkStep::Done));
}

#[test]
fn an_answer_out_of_turn_ends_it() {
    let out_of_turn = (LinkState::Finished, LinkStep::Fail(StoreError::OutOfTurn));
    assert_eq!(link_step(LinkState::Start, LinkSeen::Created, true), out_of_turn);
    assert_eq!(link_step(LinkState::Creating, LinkSeen::IsSymlink, true), out_of_turn);
    assert_eq!(link_step(LinkState::Inspecting, LinkSeen::Removed, true), out_of_turn);
    assert_eq!(link_step(LinkState::Removing, LinkSeen::Created, true), out_of_turn);
    assert_eq!(link_step(LinkState::Finished, LinkSeen::Nothing, true), out_of_turn);
}

#[test]
fn remove_follows_only_a_symlink() {
    let states = [
        LinkState::Start,
        LinkState::Creating,
        LinkState::Inspecting,
        LinkState::Removing,
        LinkState::Retrying,
        LinkState::Finished,
    ];
    let seens = [
        LinkSeen::Nothing,
        LinkSeen::Created,
        LinkSeen::CreateFailed,
        LinkSeen::IsSymlink,
        LinkSeen::NotSymlink,
        LinkSeen::InspectFailed,
        LinkSeen::Removed,
        LinkSeen::RemoveFailed,
    ];
    for state in states.iter() {
        for seen in seens.iter() {
            for replace in [false, true] {
                let (_, step) = link_step(*state, *seen, replace);
                if step == LinkStep::Remove {
                    assert_eq!(*state, LinkState::Inspecting);
                    assert_eq!(*seen, LinkSeen::IsSymlink);
                }
                if step == LinkStep::Inspect {
                    assert!(replace);
                }
            }
        }
    }
}
