use plin::guild::{EditField, GuildData, GuildDataEditableField, Id, PostId};
use plin::tracker::{
    after_send, before_send, on_restart, poll_target, post_action, should_restart, sleep_plan,
    tracker_step, PollTarget, PostAction, TrackerAction, TrackerEvent, TrackerState,
};

#[test]
fn only_configured_running_servers_are_polled() {
    let mut gd = GuildData::default();
    assert_eq!(poll_target(&gd), None);
    gd.edit_field(GuildDataEditableField::Run(true));
    assert_eq!(poll_target(&gd), None);
    gd.edit_field(GuildDataEditableField::PostChannelId(Some(Id(5))));
    assert_eq!(poll_target(&gd), None);
    gd.edit_field(GuildDataEditableField::ClanTag(Some("#T".to_string())));
    let t = poll_target(&gd).unwrap();
    assert_eq!(t.channel, Id(5));
    assert_eq!(t.tag, "#T");
    gd.edit_field(GuildDataEditableField::Run(false));
    assert_eq!(poll_target(&gd), None);
}

#[test]
fn same_period_edits_the_post() {
    assert_eq!(post_action(Some(3), false, 3), PostAction::Edit);
    assert_eq!(post_action(Some(3), true, 3), PostAction::Send);
    assert_eq!(post_action(Some(2), false, 3), PostAction::Send);
    assert_eq!(post_action(None, false, 3), PostAction::Send);
}

#[test]
fn a_sent_post_is_edited_next_time() {
    let mut gd = GuildData::default();
    gd.edit_field(GuildDataEditableField::IsNewMessage(true));
    assert_eq!(post_action(gd.period_index, gd.is_new_message, 8), PostAction::Send);
    gd.edit_field(before_send());
    let post = PostId { channel: Id(1), message: Id(2) };
    gd.edit_fields(&after_send(post, 8));
    assert_eq!(gd.post, Some(post));
    assert_eq!(post_action(gd.period_index, gd.is_new_message, 8), PostAction::Edit);
    // a new period starts a new post
    assert_eq!(post_action(gd.period_index, gd.is_new_message, 9), PostAction::Send);
    // asking for a new post sends one
    gd.edit_field(GuildDataEditableField::IsNewMessage(true));
    assert_eq!(post_action(gd.period_index, gd.is_new_message, 8), PostAction::Send);
}

#[test]
fn waits_are_cut_in_fragments_of_five_seconds() {
    let p = sleep_plan(600);
    assert_eq!((p.repetition, p.fragment_secs), (120, 5));
    let p = sleep_plan(5);
    assert_eq!((p.repetition, p.fragment_secs), (1, 5));
    let p = sleep_plan(9);
    assert_eq!((p.repetition, p.fragment_secs), (1, 9));
    let p = sleep_plan(12);
    assert_eq!((p.repetition, p.fragment_secs), (2, 6));
    for interval in 5..500u64 {
        let p = sleep_plan(interval);
        assert!(p.repetition * p.fragment_secs <= interval);
        assert!(interval < p.repetition * p.fragment_secs + p.repetition);
        assert!(p.fragment_secs >= 5);
    }
}

#[test]
fn waiting_stops_on_a_new_interval_or_a_request() {
    assert!(!should_restart(600, false, 600));
    assert!(should_restart(300, false, 600));
    assert!(should_restart(600, true, 600));
    assert_eq!(on_restart(), GuildDataEditableField::UpdatePost(false));
}

fn running_server() -> GuildData {
    let mut gd = GuildData::default();
    gd.edit_fields(&[
        GuildDataEditableField::Run(true),
        GuildDataEditableField::PostChannelId(Some(Id(7))),
        GuildDataEditableField::ClanTag(Some("#ABC".to_string())),
        GuildDataEditableField::UpdateInterval(12),
    ]);
    gd
}

#[test]
fn tracker_round_fetches_posts_and_waits() {
    let gd = running_server();
    let (s, a) = tracker_step(TrackerState::Ready, &gd, TrackerEvent::Look, false);
    assert_eq!(s, TrackerState::Fetching { channel: Id(7), interval: 12 });
    match a {
        TrackerAction::Fetch(t) => assert_eq!(t, PollTarget { channel: Id(7), tag: "#ABC".to_string() }),
        other => panic!("unexpected action {:?}", other),
    }
    let (s, a) = tracker_step(s, &gd, TrackerEvent::Fetched(3), false);
    assert_eq!(s, TrackerState::Posting { interval: 12 });
    assert!(matches!(a, TrackerAction::SendPost(Id(7))));
    let (s, a) = tracker_step(s, &gd, TrackerEvent::Posted, false);
    assert_eq!(s, TrackerState::Waiting { interval: 12, left: 2, fragment_secs: 6 });
    assert!(matches!(a, TrackerAction::Continue));
    let (s, a) = tracker_step(s, &gd, TrackerEvent::Look, false);
    assert_eq!(s, TrackerState::Sleeping { interval: 12, left: 2, fragment_secs: 6 });
    assert!(matches!(a, TrackerAction::Sleep(6)));
    let (s, _) = tracker_step(s, &gd, TrackerEvent::Slept, false);
    assert_eq!(s, TrackerState::Waiting { interval: 12, left: 1, fragment_secs: 6 });
    let (s, _) = tracker_step(s, &gd, TrackerEvent::Look, false);
    let (s, a) = tracker_step(s, &gd, TrackerEvent::Slept, false);
    assert_eq!(s, TrackerState::Ready);
    assert!(matches!(a, TrackerAction::Continue));
}

#[test]
fn tracker_edits_the_post_of_the_same_period() {
    let mut gd = running_server();
    gd.edit_field(GuildDataEditableField::PeriodIndex(Some(3)));
    let (s, a) = tracker_step(TrackerState::Fetching { channel: Id(7), interval: 12 }, &gd, TrackerEvent::Fetched(3), false);
    assert_eq!(s, TrackerState::Posting { interval: 12 });
    assert!(matches!(a, TrackerAction::EditPost));
    let (s, _) = tracker_step(TrackerState::Fetching { channel: Id(7), interval: 12 }, &gd, TrackerEvent::FetchFailed, false);
    assert_eq!(s, TrackerState::Ready);
}

#[test]
fn tracker_restarts_and_idles() {
    let mut gd = running_server();
    let waiting = TrackerState::Sleeping { interval: 12, left: 2, fragment_secs: 6 };
    gd.edit_field(GuildDataEditableField::UpdatePost(true));
    let (s, a) = tracker_step(waiting, &gd, TrackerEvent::Slept, false);
    assert_eq!(s, TrackerState::Ready);
    assert!(matches!(a, TrackerAction::Apply(GuildDataEditableField::UpdatePost(false))));
    let (s, _) = tracker_step(waiting, &gd, TrackerEvent::Woken, false);
    assert_eq!(s, TrackerState::Ready);
    let stopped = GuildData::default();
    let (s, a) = tracker_step(TrackerState::Ready, &stopped, TrackerEvent::Look, false);
    assert_eq!(s, TrackerState::Ready);
    assert!(matches!(a, TrackerAction::Continue));
    let mut paused = running_server();
    paused.edit_field(GuildDataEditableField::Run(false));
    let (s, a) = tracker_step(TrackerState::Waiting { interval: 12, left: 2, fragment_secs: 6 }, &paused, TrackerEvent::Look, false);
    assert_eq!(s, TrackerState::Waiting { interval: 12, left: 1, fragment_secs: 6 });
    assert!(matches!(a, TrackerAction::Continue));
}

#[test]
fn single_server_waits_with_the_interval_it_began_with() {
    let mut gd = running_server();
    let (s, _) = tracker_step(TrackerState::Ready, &gd, TrackerEvent::Look, true);
    assert_eq!(s, TrackerState::Fetching { channel: Id(7), interval: 12 });
    let (s, _) = tracker_step(s, &gd, TrackerEvent::Fetched(1), true);
    gd.edit_field(GuildDataEditableField::UpdateInterval(600));
    let (single, _) = tracker_step(s, &gd, TrackerEvent::Posted, true);
    assert_eq!(single, TrackerState::Waiting { interval: 12, left: 2, fragment_secs: 6 });
    let (servers, _) = tracker_step(s, &gd, TrackerEvent::Posted, false);
    assert_eq!(servers, TrackerState::Waiting { interval: 600, left: 120, fragment_secs: 5 });
    let (s, _) = tracker_step(single, &gd, TrackerEvent::Look, true);
    let (s, a) = tracker_step(s, &gd, TrackerEvent::Slept, true);
    assert_eq!(s, TrackerState::Ready);
    assert!(matches!(a, TrackerAction::Apply(GuildDataEditableField::UpdatePost(false))));
}
