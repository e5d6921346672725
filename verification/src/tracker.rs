//! The decisions of the tracker loop that keeps a server's post up to
//! date. The loop itself (fetching, posting, sleeping) runs outside the
//! library; at each step it asks these functions what to do next.
use vstd::prelude::*;

use crate::guild::{
    EditField, GuildData, GuildDataEditableField, Id, PostId, default_guild_data,
    guild_edited_all,
};

verus! {

/// The loop sleeps in fragments of this many seconds, so that changes
/// to a server's settings are noticed quickly.
pub const TIME_FRAGMENTATION: u64 = 5;

/// What the tracker needs to fetch a river race for a server.
#[derive(Clone, Debug, PartialEq, Eq)]
pub struct PollTarget {
    pub channel: Id,
    pub tag: String,
}

/// Whether the tracker polls a server: it must be running, with a post
/// channel and a clan tag set.
pub open spec fn polls(gd: GuildData) -> bool {
    gd.run && gd.post_channel_id is Some && gd.clan_tag is Some
}

/// The channel and clan tag to poll for a server, when it is polled.
pub fn poll_target(gd: &GuildData) -> (r: Option<PollTarget>)
    ensures
        r is Some <==> polls(*gd),
        r matches Some(t) ==> Some(t.channel) == gd.post_channel_id,
        r matches Some(t) ==> t.tag@ == gd.clan_tag->0@,
{
    if gd.run {
        match (&gd.post_channel_id, &gd.clan_tag) {
            (Some(channel), Some(tag)) => Some(PollTarget { channel: *channel, tag: tag.clone() }),
            _ => None,
        }
    } else {
        None
    }
}

/// Whether the fresh standings go into the current post or a new one.
#[derive(Clone, Copy, PartialEq, Eq, Structural, Debug)]
pub enum PostAction {
    /// Edit the post that was last sent.
    Edit,
    /// Send a new post.
    Send,
}

/// The current post is edited when it shows the same period and no new
/// post was asked for; otherwise a new post is sent.
pub open spec fn post_action_for(
    last_period_index: Option<i32>,
    is_new_message: bool,
    period_index: i32,
) -> PostAction {
    if last_period_index == Some(period_index) && !is_new_message {
        PostAction::Edit
    } else {
        PostAction::Send
    }
}

/// Whether the standings of period `period_index` edit the last post or
/// go into a new one.
pub fn post_action(last_period_index: Option<i32>, is_new_message: bool, period_index: i32) -> (r:
    PostAction)
    ensures
        r == post_action_for(last_period_index, is_new_message, period_index),
{
    match last_period_index {
        Some(last) => {
            if last == period_index && !is_new_message {
                PostAction::Edit
            } else {
                PostAction::Send
            }
        },
        None => PostAction::Send,
    }
}

/// What a server's data records once a new post is on its way: the next
/// post is no longer a new one.
pub fn before_send() -> (r: GuildDataEditableField)
    ensures
        r == GuildDataEditableField::IsNewMessage(false),
{
    GuildDataEditableField::IsNewMessage(false)
}

/// What a server's data records once a new post was sent: the post and
/// the period it shows.
pub fn after_send(post: PostId, period_index: i32) -> (r: Vec<GuildDataEditableField>)
    ensures
        r@ == seq![
            GuildDataEditableField::Post(Some(post)),
            GuildDataEditableField::PeriodIndex(Some(period_index)),
        ],
{
    let mut r: Vec<GuildDataEditableField> = Vec::new();
    r.push(GuildDataEditableField::Post(Some(post)));
    r.push(GuildDataEditableField::PeriodIndex(Some(period_index)));
    assert(r@ =~= seq![
        GuildDataEditableField::Post(Some(post)),
        GuildDataEditableField::PeriodIndex(Some(period_index)),
    ]);
    r
}

/// How the wait between two updates is cut: the number of fragments and
/// the seconds each one lasts.
#[derive(Clone, Copy, Debug, PartialEq, Eq)]
pub struct SleepPlan {
    pub repetition: u64,
    pub fragment_secs: u64,
}

/// The wait of `interval` seconds is cut into `interval / 5` fragments of
/// equal length (the interval must be at least 5 seconds).
pub fn sleep_plan(interval: u64) -> (r: SleepPlan)
    requires
        interval >= TIME_FRAGMENTATION,
    ensures
        r.repetition == interval / 5,
        r.fragment_secs == interval / (interval / 5),
{
    let repetition = interval / TIME_FRAGMENTATION;
    SleepPlan { repetition, fragment_secs: interval / repetition }
}

/// The fragments of a plan add up to the interval, give or take less
/// than one second per fragment, and no fragment is shorter than 5
/// seconds.
pub proof fn lemma_sleep_plan_covers_interval(interval: u64)
    requires
        interval >= 5,
    ensures
        ({
            let rep = interval / 5;
            let frag = interval / rep;
            &&& rep >= 1
            &&& frag >= 5
            &&& rep * frag <= interval
            &&& interval < rep * frag + rep
        }),
{
    let rep = interval / 5;
    let frag = interval / rep;
    assert(rep >= 1);
    vstd::arithmetic::div_mod::lemma_fundamental_div_mod(interval as int, rep as int);
    vstd::arithmetic::div_mod::lemma_mod_bound(interval as int, rep as int);
    assert(rep * frag <= interval) by (nonlinear_arith)
        requires
            interval == rep * frag + interval % rep,
            interval % rep >= 0,
    ;
    assert(rep * 5 <= interval) by (nonlinear_arith)
        requires
            rep == interval / 5,
    ;
    assert(frag >= 5) by (nonlinear_arith)
        requires
            rep * 5 <= interval,
            rep >= 1,
            interval == rep * frag + interval % rep,
            interval % rep < rep,
    ;
}

/// Whether the wait is cut short and the loop starts over: the interval
/// changed since the wait began, or an update was asked for.
pub open spec fn restarts(current_interval: u64, update_requested: bool, interval: u64) -> bool {
    current_interval != interval || update_requested
}

/// Whether the tracker stops waiting and updates at once.
pub fn should_restart(current_interval: u64, update_requested: bool, interval: u64) -> (r: bool)
    ensures
        r == restarts(current_interval, update_requested, interval),
{
    current_interval != interval || update_requested
}

/// What the data of a server records when the loop starts over: the
/// update that was asked for is being served.
pub fn on_restart() -> (r: GuildDataEditableField)
    ensures
        r == GuildDataEditableField::UpdatePost(false),
{
    GuildDataEditableField::UpdatePost(false)
}

/// Where the tracker loop of a server stands.
#[derive(Clone, Copy, PartialEq, Eq, Structural, Debug)]
pub enum TrackerState {
    /// At the start of a round: the loop looks whether the server is polled.
    Ready,
    /// The river race is being fetched; a new post would go to `channel`,
    /// and `interval` is the server's interval when the round began.
    Fetching { channel: Id, interval: u64 },
    /// The standings are being posted; `interval` is the server's interval
    /// when the round began.
    Posting { interval: u64 },
    /// Waiting between two updates: the interval that the wait began with,
    /// the fragments left, and the seconds each one lasts.
    Waiting { interval: u64, left: u64, fragment_secs: u64 },
    /// Sleeping through one fragment of the wait.
    Sleeping { interval: u64, left: u64, fragment_secs: u64 },
}

/// What happened since the loop's last step.
#[derive(Clone, Copy, PartialEq, Eq, Structural, Debug)]
pub enum TrackerEvent {
    /// Nothing new: the loop looks at the server's data.
    Look,
    /// The river race was fetched; it is in period `period_index`.
    Fetched(i32),
    /// The river race could not be fetched.
    FetchFailed,
    /// The standings were posted (or the post failed).
    Posted,
    /// A fragment of the wait went by.
    Slept,
    /// A command cut the sleep short.
    Woken,
}

/// What the loop does next.
#[derive(Clone, Debug)]
pub enum TrackerAction {
    /// Nothing: take the next step at once.
    Continue,
    /// Fetch the river race of the target's clan.
    Fetch(PollTarget),
    /// Edit the post that was last sent.
    EditPost,
    /// Send a new post to the channel.
    SendPost(Id),
    /// Sleep this many seconds.
    Sleep(u64),
    /// Apply this edit to the server's data; a new round begins.
    Apply(GuildDataEditableField),
}

/// The end of one fragment of the wait: the loop starts over when the
/// interval changed or an update was asked for (and clears that request),
/// starts a new round when no fragment is left, and waits on otherwise.
pub open spec fn after_fragment(interval: u64, left: u64, fragment_secs: u64, gd: GuildData) -> (
    TrackerState,
    TrackerAction,
) {
    if restarts(gd.update_interval, gd.update_post, interval) {
        (TrackerState::Ready, TrackerAction::Apply(GuildDataEditableField::UpdatePost(false)))
    } else if left <= 1 {
        (TrackerState::Ready, TrackerAction::Continue)
    } else {
        (
            TrackerState::Waiting { interval, left: (left - 1) as u64, fragment_secs },
            TrackerAction::Continue,
        )
    }
}

/// The interval that the wait after posting uses: the one the round began
/// with (`from_start`, as the single-server bot does), or the server's
/// interval once the post is done (as the multi-server bot does).
pub open spec fn wait_interval(s: TrackerState, gd: GuildData, from_start: bool) -> u64 {
    match s {
        TrackerState::Posting { interval } => if from_start {
            interval
        } else {
            gd.update_interval
        },
        _ => gd.update_interval,
    }
}

/// The step of the tracker loop from state `s`, with the server's data
/// `gd` as it is now and the event `e`; `from_start` says which interval
/// the wait after posting uses (see `wait_interval`). A pair that cannot
/// occur leaves the state as it is.
pub open spec fn tracker_next(s: TrackerState, gd: GuildData, e: TrackerEvent, from_start: bool) -> (
    TrackerState,
    TrackerAction,
) {
    match (s, e) {
        (TrackerState::Ready, TrackerEvent::Look) => if polls(gd) {
            (
                TrackerState::Fetching {
                    channel: gd.post_channel_id->0,
                    interval: gd.update_interval,
                },
                TrackerAction::Fetch(PollTarget { channel: gd.post_channel_id->0, tag: gd.clan_tag->0 }),
            )
        } else {
            (TrackerState::Ready, TrackerAction::Continue)
        },
        (TrackerState::Fetching { channel, interval }, TrackerEvent::Fetched(period_index)) => (
            TrackerState::Posting { interval },
            match post_action_for(gd.period_index, gd.is_new_message, period_index) {
                PostAction::Edit => TrackerAction::EditPost,
                PostAction::Send => TrackerAction::SendPost(channel),
            },
        ),
        (TrackerState::Fetching { .. }, TrackerEvent::FetchFailed) => (
            TrackerState::Ready,
            TrackerAction::Continue,
        ),
        (TrackerState::Posting { .. }, TrackerEvent::Posted) => {
            let interval = wait_interval(s, gd, from_start);
            (
                TrackerState::Waiting {
                    interval,
                    left: interval / 5,
                    fragment_secs: interval / (interval / 5),
                },
                TrackerAction::Continue,
            )
        },
        (TrackerState::Waiting { interval, left, fragment_secs }, TrackerEvent::Look) => if left
            == 0 {
            (TrackerState::Ready, TrackerAction::Continue)
        } else if gd.run {
            (
                TrackerState::Sleeping { interval, left, fragment_secs },
                TrackerAction::Sleep(fragment_secs),
            )
        } else {
            after_fragment(interval, left, fragment_secs, gd)
        },
        (TrackerState::Sleeping { interval, left, fragment_secs }, TrackerEvent::Slept) => {
            after_fragment(interval, left, fragment_secs, gd)
        },
        (TrackerState::Sleeping { .. }, TrackerEvent::Woken) => (
            TrackerState::Ready,
            TrackerAction::Continue,
        ),
        _ => (s, TrackerAction::Continue),
    }
}

/// Whether an action is the one expected; a fetch target is compared by
/// its channel and the characters of its tag.
pub open spec fn same_action(a: TrackerAction, b: TrackerAction) -> bool {
    match (a, b) {
        (TrackerAction::Fetch(x), TrackerAction::Fetch(y)) => x.channel == y.channel && x.tag@
            == y.tag@,
        _ => a == b,
    }
}

fn fragment_end(interval: u64, left: u64, fragment_secs: u64, gd: &GuildData) -> (r: (
    TrackerState,
    TrackerAction,
))
    ensures
        r == after_fragment(interval, left, fragment_secs, *gd),
{
    if should_restart(gd.update_interval, gd.update_post, interval) {
        (TrackerState::Ready, TrackerAction::Apply(on_restart()))
    } else if left <= 1 {
        (TrackerState::Ready, TrackerAction::Continue)
    } else {
        (TrackerState::Waiting { interval, left: left - 1, fragment_secs }, TrackerAction::Continue)
    }
}

/// One step of the tracker loop: from where it stands, the server's data
/// now and what happened, where it goes and what it does. After posting,
/// the server's interval must be at least 5 seconds.
pub fn tracker_step(s: TrackerState, gd: &GuildData, e: TrackerEvent, from_start: bool) -> (r: (
    TrackerState,
    TrackerAction,
))
    requires
        (s is Posting && e is Posted) ==> wait_interval(s, *gd, from_start) >= TIME_FRAGMENTATION,
    ensures
        r.0 == tracker_next(s, *gd, e, from_start).0,
        same_action(r.1, tracker_next(s, *gd, e, from_start).1),
{
    match (s, e) {
        (TrackerState::Ready, TrackerEvent::Look) => match poll_target(gd) {
            Some(t) => (
                TrackerState::Fetching { channel: t.channel, interval: gd.update_interval },
                TrackerAction::Fetch(t),
            ),
            None => (TrackerState::Ready, TrackerAction::Continue),
        },
        (TrackerState::Fetching { channel, interval }, TrackerEvent::Fetched(period_index)) => {
            let action = match post_action(gd.period_index, gd.is_new_message, period_index) {
                PostAction::Edit => TrackerAction::EditPost,
                PostAction::Send => TrackerAction::SendPost(channel),
            };
            (TrackerState::Posting { interval }, action)
        },
        (TrackerState::Fetching { .. }, TrackerEvent::FetchFailed) => (
            TrackerState::Ready,
            TrackerAction::Continue,
        ),
        (TrackerState::Posting { interval }, TrackerEvent::Posted) => {
            let wait = if from_start {
                interval
            } else {
                gd.update_interval
            };
            let plan = sleep_plan(wait);
            (
                TrackerState::Waiting {
                    interval: wait,
                    left: plan.repetition,
                    fragment_secs: plan.fragment_secs,
                },
                TrackerAction::Continue,
            )
        },
        (TrackerState::Waiting { interval, left, fragment_secs }, TrackerEvent::Look) => {
            if left == 0 {
                (TrackerState::Ready, TrackerAction::Continue)
            } else if gd.run {
                (
                    TrackerState::Sleeping { interval, left, fragment_secs },
                    TrackerAction::Sleep(fragment_secs),
                )
            } else {
                fragment_end(interval, left, fragment_secs, gd)
            }
        },
        (TrackerState::Sleeping { interval, left, fragment_secs }, TrackerEvent::Slept) => {
            fragment_end(interval, left, fragment_secs, gd)
        },
        (TrackerState::Sleeping { .. }, TrackerEvent::Woken) => (
            TrackerState::Ready,
            TrackerAction::Continue,
        ),
        _ => (s, TrackerAction::Continue),
    }
}

/// The tracker sleeps only while the server is running.
pub proof fn lemma_sleeps_only_while_running(
    s: TrackerState,
    gd: GuildData,
    e: TrackerEvent,
    from_start: bool,
)
    ensures
        tracker_next(s, gd, e, from_start).1 is Sleep ==> gd.run,
{
}

/// The tracker fetches a river race only for a server that is running,
/// with a post channel and a clan tag, and for that channel and tag.
pub proof fn lemma_fetches_only_when_polled(
    s: TrackerState,
    gd: GuildData,
    e: TrackerEvent,
    from_start: bool,
)
    ensures
        tracker_next(s, gd, e, from_start).1 matches TrackerAction::Fetch(t) ==> polls(gd) && Some(t.channel)
            == gd.post_channel_id && Some(t.tag) == gd.clan_tag,
{
}

/// At the end of a fragment of the wait, a changed interval or an update
/// request starts a new round at once and clears the request.
pub proof fn lemma_restarts_on_change(
    interval: u64,
    left: u64,
    fragment_secs: u64,
    gd: GuildData,
    from_start: bool,
)
    requires
        restarts(gd.update_interval, gd.update_post, interval),
    ensures
        tracker_next(
            TrackerState::Sleeping { interval, left, fragment_secs },
            gd,
            TrackerEvent::Slept,
            from_start,
        )
            == (TrackerState::Ready, TrackerAction::Apply(GuildDataEditableField::UpdatePost(false))),
        left > 0 && !gd.run ==> tracker_next(
            TrackerState::Waiting { interval, left, fragment_secs },
            gd,
            TrackerEvent::Look,
            from_start,
        ) == (TrackerState::Ready, TrackerAction::Apply(GuildDataEditableField::UpdatePost(false))),
{
}

/// A wake cuts any sleep short: whatever the server's data and however
/// much of the wait is left, the loop starts a new round at once.
pub proof fn lemma_wake_starts_a_round(
    interval: u64,
    left: u64,
    fragment_secs: u64,
    gd: GuildData,
    from_start: bool,
)
    ensures
        tracker_next(
            TrackerState::Sleeping { interval, left, fragment_secs },
            gd,
            TrackerEvent::Woken,
            from_start,
        ) == (TrackerState::Ready, TrackerAction::Continue),
        tracker_next(TrackerState::Ready, gd, TrackerEvent::Look, from_start).0 is Fetching
            <==> polls(gd),
{
}

/// The last post is edited exactly when it shows the same period and no
/// new post was asked for; in every other case a new post is sent.
pub proof fn lemma_edit_only_same_period(last_period_index: Option<i32>, is_new_message: bool, period_index: i32)
    ensures
        post_action_for(last_period_index, is_new_message, period_index) == PostAction::Edit
            <==> (last_period_index == Some(period_index) && !is_new_message),
        post_action_for(last_period_index, is_new_message, period_index) == PostAction::Send
            <==> (last_period_index != Some(period_index) || is_new_message),
{
}

/// What each step of a round does, for every server's data: a fetched
/// race is posted by editing the last post when it shows the same period
/// and no new post was asked for, else by sending one to the channel the
/// round began with; after posting the loop waits in fragments of at
/// least 5 seconds that add up to the interval (less than a second per
/// fragment short); while waiting a running server sleeps one fragment
/// and a paused one does not; at the end of each fragment a changed
/// interval or an update request starts a new round and clears the
/// request, the last fragment ends the wait, and otherwise one fragment
/// fewer is left.
pub proof fn lemma_round_steps(
    channel: Id,
    start_interval: u64,
    period_index: i32,
    interval: u64,
    left: u64,
    fragment_secs: u64,
    gd: GuildData,
    from_start: bool,
)
    ensures
        ({
            let (st, act) = tracker_next(
                TrackerState::Fetching { channel, interval: start_interval },
                gd,
                TrackerEvent::Fetched(period_index),
                from_start,
            );
            &&& st == TrackerState::Posting { interval: start_interval }
            &&& (gd.period_index == Some(period_index) && !gd.is_new_message) ==> act
                == TrackerAction::EditPost
            &&& !(gd.period_index == Some(period_index) && !gd.is_new_message) ==> act
                == TrackerAction::SendPost(channel)
        }),
        ({
            let wait = if from_start {
                start_interval
            } else {
                gd.update_interval
            };
            let st = tracker_next(
                TrackerState::Posting { interval: start_interval },
                gd,
                TrackerEvent::Posted,
                from_start,
            ).0;
            wait >= 5 ==> (st matches TrackerState::Waiting { interval: i, left: l, fragment_secs: f }
                && i == wait && l >= 1 && f >= 5 && l * f <= wait && wait < l * f + l)
        }),
        left > 0 && gd.run ==> tracker_next(
            TrackerState::Waiting { interval, left, fragment_secs },
            gd,
            TrackerEvent::Look,
            from_start,
        ) == (TrackerState::Sleeping { interval, left, fragment_secs }, TrackerAction::Sleep(
            fragment_secs,
        )),
        left > 0 && !gd.run ==> !(tracker_next(
            TrackerState::Waiting { interval, left, fragment_secs },
            gd,
            TrackerEvent::Look,
            from_start,
        ).1 is Sleep),
        tracker_next(
            TrackerState::Sleeping { interval, left, fragment_secs },
            gd,
            TrackerEvent::Slept,
            from_start,
        ) == (if gd.update_interval != interval || gd.update_post {
            (TrackerState::Ready, TrackerAction::Apply(GuildDataEditableField::UpdatePost(false)))
        } else if left <= 1 {
            (TrackerState::Ready, TrackerAction::Continue)
        } else {
            (
                TrackerState::Waiting { interval, left: (left - 1) as u64, fragment_secs },
                TrackerAction::Continue,
            )
        }),
{
    let wait = if from_start {
        start_interval
    } else {
        gd.update_interval
    };
    if wait >= 5 {
        lemma_sleep_plan_covers_interval(wait);
    }
}

/// The single-server bot waits with the interval its round began with: a
/// change made while it fetched and posted cuts the wait short at the end
/// of the first fragment, and clears any update request.
pub proof fn lemma_wait_keeps_start_interval(interval: u64, gd: GuildData)
    requires
        interval >= 5,
    ensures
        tracker_next(TrackerState::Posting { interval }, gd, TrackerEvent::Posted, true).0
            == (TrackerState::Waiting {
            interval,
            left: interval / 5,
            fragment_secs: interval / (interval / 5),
        }),
        gd.update_interval != interval ==> after_fragment(
            interval,
            interval / 5,
            interval / (interval / 5),
            gd,
        ) == (TrackerState::Ready, TrackerAction::Apply(GuildDataEditableField::UpdatePost(false))),
{
}

/// How far a wait is from its end: two steps per fragment left, one less
/// while a fragment is being slept.
pub open spec fn wait_left(s: TrackerState) -> int {
    match s {
        TrackerState::Waiting { left, .. } => 2 * left,
        TrackerState::Sleeping { left, .. } => 2 * left - 1,
        _ => 0,
    }
}

/// A wait always ends: each step from a waiting or sleeping state starts
/// a new round, leaves the state as it is (an event that cannot occur
/// there), or comes closer to the end of the wait.
pub proof fn lemma_wait_ends(s: TrackerState, gd: GuildData, e: TrackerEvent, from_start: bool)
    requires
        s is Waiting || (s is Sleeping && s->Sleeping_left > 0),
    ensures
        ({
            let next = tracker_next(s, gd, e, from_start).0;
            ||| next is Ready
            ||| next == s
            ||| 0 <= wait_left(next) < wait_left(s)
        }),
{
}

/// Once a new post for a period was sent and recorded, the next update
/// in the same period edits that post instead of sending another.
pub proof fn lemma_sent_post_is_edited_next(gd: GuildData, post: PostId, period_index: i32)
    ensures
        ({
            let after = guild_edited_all(
                gd,
                seq![
                    GuildDataEditableField::IsNewMessage(false),
                    GuildDataEditableField::Post(Some(post)),
                    GuildDataEditableField::PeriodIndex(Some(period_index)),
                ],
            );
            &&& post_action_for(after.period_index, after.is_new_message, period_index)
                == PostAction::Edit
            &&& after.post == Some(post)
        }),
{
    let fs = seq![
        GuildDataEditableField::IsNewMessage(false),
        GuildDataEditableField::Post(Some(post)),
        GuildDataEditableField::PeriodIndex(Some(period_index)),
    ];
    assert(fs.drop_last().drop_last().drop_last() =~= Seq::<GuildDataEditableField>::empty());
    assert(fs.drop_last().drop_last().last() == GuildDataEditableField::IsNewMessage(false));
    assert(fs.drop_last().last() == GuildDataEditableField::Post(Some(post)));
    assert(fs.last() == GuildDataEditableField::PeriodIndex(Some(period_index)));
    reveal_with_fuel(guild_edited_all, 4);
}

/// Asking for a new post makes the next update send one, whatever the
/// period.
pub proof fn lemma_new_post_is_sent(gd: GuildData, period_index: i32)
    ensures
        ({
            let after = gd.edited(GuildDataEditableField::IsNewMessage(true));
            post_action_for(after.period_index, after.is_new_message, period_index)
                == PostAction::Send
        }),
{
}

/// A server that was never set up is not polled.
pub proof fn lemma_new_server_is_idle()
    ensures
        !polls(default_guild_data()),
{
}

} // verus!
