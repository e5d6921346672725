//! The server commands of the tracker (`war set`, `war reset`, ...):
//! how their arguments are read, which edits they make to a server's
//! data, and what they reply.
use vstd::prelude::*;

use crate::duration::{duration_read, format_duration, humantime_format, parsed_view, read_duration};
use crate::guild::{
    DEFAULT_UPDATE_INTERVAL, GuildData, GuildDataEditableField, Id, guild_edited_all,
};
use crate::text::{
    chars_of, contains, contains_text, is_digit, lemma_nat_text_reads_back,
    lemma_u64_text_parses_back, nat_text, opt_text, parse_u64, push_nat, push_str, string_of, u64_parse,
};
use crate::tracker::polls;

verus! {

/// The shortest interval, in seconds, that `war set interval` accepts.
pub const TIME_MIN: u64 = 300;

/// The id in a channel mention `<#id>`, as `serenity::utils::parse_channel`
/// reads it.
pub open spec fn mention_id(s: Seq<char>) -> Option<u64> {
    if s.len() >= 3 && s[0] == '<' && s[1] == '#' && s.last() == '>' {
        u64_parse(s.subrange(2, s.len() - 1))
    } else {
        None
    }
}

/// The channel id that a command argument names, as `ChannelId::from_str`
/// reads it: a channel mention, or else the id itself.
pub open spec fn channel_id_of(s: Seq<char>) -> Option<u64> {
    match mention_id(s) {
        Some(id) => Some(id),
        None => u64_parse(s),
    }
}

/// The channel id that a command argument names, if any.
pub fn parse_channel_id(arg: &str) -> (r: Option<u64>)
    ensures
        r == channel_id_of(arg@),
{
    let cs = chars_of(arg);
    let n = cs.len();
    if n >= 3 && cs[0] == '<' && cs[1] == '#' && cs[n - 1] == '>' {
        let mut inner: Vec<char> = Vec::new();
        let mut i: usize = 2;
        while i < n - 1
            invariant
                n == cs@.len(),
                n >= 3,
                2 <= i <= n - 1,
                inner@ == cs@.subrange(2, i as int),
            decreases n - 1 - i,
        {
            inner.push(cs[i]);
            i = i + 1;
            assert(inner@ =~= cs@.subrange(2, i as int));
        }
        match parse_u64(inner.as_slice()) {
            Some(id) => {
                return Some(id);
            },
            None => {},
        }
    }
    parse_u64(cs.as_slice())
}

/// A channel mention that the bot writes names that channel again when
/// it is given back as a command argument, and so does the bare id.
pub proof fn lemma_mention_names_channel(id: u64)
    ensures
        channel_id_of(channel_mention(id)) == Some(id),
        channel_id_of(nat_text(id as nat)) == Some(id),
{
    reveal_strlit("<#");
    reveal_strlit(">");
    lemma_u64_text_parses_back(id);
    lemma_nat_text_reads_back(id as nat);
    let t = nat_text(id as nat);
    let m = channel_mention(id);
    assert(m.subrange(2, m.len() - 1) =~= t);
    assert(m[0] == '<' && m[1] == '#' && m.last() == '>');
    if mention_id(t) is Some {
        assert(is_digit(t[0]));
    }
}

/// A command's effect: the edit it makes to the server's data, if any,
/// and its reply.
#[derive(Clone, Debug, PartialEq, Eq)]
pub struct Outcome {
    pub edit: Option<GuildDataEditableField>,
    pub reply: String,
}

/// A channel mention as Discord writes it.
pub open spec fn channel_mention(id: u64) -> Seq<char> {
    "<#"@ + nat_text(id as nat) + ">"@
}

/// The reply to `war set channel`.
pub open spec fn channel_reply_text(arg: Seq<char>, id: Option<u64>, exists: bool) -> Seq<char> {
    match id {
        None => "Le channel `"@ + arg + "` n'existe pas."@,
        Some(c) => if exists {
            "Salon des posts chang\u{e9} pour "@ + channel_mention(c) + "."@
        } else {
            "Le channel d'id `"@ + nat_text(c as nat) + "` n'existe pas."@
        },
    }
}

/// What `war set channel` does: `id` is the channel that the argument
/// names (see `parse_channel_id`), `exists` whether the server has that
/// channel. Only an existing channel becomes the post channel.
pub fn channel_outcome(arg: &str, id: Option<u64>, exists: bool) -> (r: Outcome)
    ensures
        r.edit == (match id {
            Some(c) => if exists {
                Some(GuildDataEditableField::PostChannelId(Some(Id(c))))
            } else {
                None
            },
            None => None,
        }),
        r.reply@ == channel_reply_text(arg@, id, exists),
{
    let mut t: Vec<char> = Vec::new();
    match id {
        None => {
            push_str(&mut t, "Le channel `");
            push_str(&mut t, arg);
            push_str(&mut t, "` n'existe pas.");
            assert(t@ =~= channel_reply_text(arg@, id, exists));
            Outcome { edit: None, reply: string_of(t.as_slice()) }
        },
        Some(c) => {
            if exists {
                push_str(&mut t, "Salon des posts chang\u{e9} pour <#");
                push_nat(&mut t, c);
                push_str(&mut t, ">.");
                proof {
                    reveal_strlit("Salon des posts chang\u{e9} pour <#");
                    reveal_strlit("Salon des posts chang\u{e9} pour ");
                    reveal_strlit("<#");
                    reveal_strlit(">.");
                    reveal_strlit(">");
                    reveal_strlit(".");
                }
                assert(t@ =~= channel_reply_text(arg@, id, exists));
                Outcome {
                    edit: Some(GuildDataEditableField::PostChannelId(Some(Id(c)))),
                    reply: string_of(t.as_slice()),
                }
            } else {
                push_str(&mut t, "Le channel d'id `");
                push_nat(&mut t, c);
                push_str(&mut t, "` n'existe pas.");
                assert(t@ =~= channel_reply_text(arg@, id, exists));
                Outcome { edit: None, reply: string_of(t.as_slice()) }
            }
        },
    }
}

/// The reply to `war set interval` once its argument was read.
pub open spec fn interval_reply_text(parsed: Result<(u64, u32), Seq<char>>) -> Seq<char> {
    match parsed {
        Ok(d) => if d.0 >= 300 {
            "Interval de temps des mises \u{e0} jours des posts chang\u{e9} pour "@
                + humantime_format(d.0, d.1) + "."@
        } else {
            "Interval de temps trop petit. Interval minimum: s`300`."@
        },
        Err(e) => e,
    }
}

/// The edit that `war set interval` makes once its argument was read:
/// only an interval of at least five minutes is taken.
pub open spec fn interval_edit(parsed: Result<(u64, u32), Seq<char>>) -> Option<
    GuildDataEditableField,
> {
    match parsed {
        Ok(d) => if d.0 >= 300 {
            Some(GuildDataEditableField::UpdateInterval(d.0))
        } else {
            None
        },
        Err(_) => None,
    }
}

/// `war set interval` takes an interval exactly when its argument reads as
/// a duration of at least five minutes, and then takes its whole seconds;
/// it never sets anything else.
pub proof fn lemma_interval_minimum(parsed: Result<(u64, u32), Seq<char>>)
    ensures
        interval_edit(parsed) is Some <==> (parsed is Ok && parsed->Ok_0.0 >= 300),
        interval_edit(parsed) matches Some(e) ==> e == GuildDataEditableField::UpdateInterval(
            parsed->Ok_0.0,
        ),
        parsed is Err ==> interval_reply_text(parsed) == parsed->Err_0,
{
}

/// What `war set interval` does once its argument was read as a duration
/// (`parsed`: the whole seconds and nanoseconds, or the error's text).
pub fn interval_outcome(parsed: Result<(u64, u32), String>) -> (r: Outcome)
    requires
        parsed matches Ok(d) ==> d.1 < 1_000_000_000,
    ensures
        r.edit == interval_edit(parsed_view(parsed)),
        r.reply@ == interval_reply_text(parsed_view(parsed)),
{
    match parsed {
        Ok((secs, nanos)) => {
            let mut t: Vec<char> = Vec::new();
            if secs >= TIME_MIN {
                push_str(&mut t, "Interval de temps des mises \u{e0} jours des posts chang\u{e9} pour ");
                let shown = format_duration(secs, nanos);
                push_str(&mut t, shown.as_str());
                push_str(&mut t, ".");
                Outcome {
                    edit: Some(GuildDataEditableField::UpdateInterval(secs)),
                    reply: string_of(t.as_slice()),
                }
            } else {
                push_str(&mut t, "Interval de temps trop petit. Interval minimum: s`300`.");
                Outcome { edit: None, reply: string_of(t.as_slice()) }
            }
        },
        Err(e) => Outcome { edit: None, reply: e },
    }
}

/// What `war set interval` does with its argument; a text whose spans
/// add up to 2^64 seconds or more is refused as a number too large (see
/// `duration_read`).
pub fn set_interval(arg: &str) -> (r: Outcome)
    ensures
        r.edit == interval_edit(duration_read(arg@)),
        r.reply@ == interval_reply_text(duration_read(arg@)),
{
    let parsed = read_duration(arg);
    interval_outcome(parsed)
}

/// The reply to `war set tag`.
pub open spec fn tag_reply_text(tag: Seq<char>, known: bool) -> Seq<char> {
    if known {
        "Tag changer pour `"@ + tag + "`."@
    } else {
        "Le tag `"@ + tag + "` ne correspond \u{e0} aucun clan."@
    }
}

/// Whether the API's reply for a clan tag describes a clan: the reply
/// mentions a `name`.
pub open spec fn names_a_clan(body: Seq<char>) -> bool {
    contains_text(body, "name"@)
}

/// What `war set tag` does: `body` is the API's reply for the tag's
/// current river race. A tag is taken only when the reply names a clan.
pub fn tag_outcome(tag: &str, body: &str) -> (r: Outcome)
    ensures
        names_a_clan(body@) ==> (r.edit matches Some(GuildDataEditableField::ClanTag(Some(t)))
            && t@ == tag@),
        !names_a_clan(body@) ==> r.edit is None,
        r.reply@ == tag_reply_text(tag@, names_a_clan(body@)),
{
    let hay = chars_of(body);
    let needle = chars_of("name");
    let known = contains(hay.as_slice(), needle.as_slice());
    let mut t: Vec<char> = Vec::new();
    if known {
        push_str(&mut t, "Tag changer pour `");
        push_str(&mut t, tag);
        push_str(&mut t, "`.");
        Outcome {
            edit: Some(GuildDataEditableField::ClanTag(Some(tag.to_owned()))),
            reply: string_of(t.as_slice()),
        }
    } else {
        push_str(&mut t, "Le tag `");
        push_str(&mut t, tag);
        push_str(&mut t, "` ne correspond \u{e0} aucun clan.");
        Outcome { edit: None, reply: string_of(t.as_slice()) }
    }
}

/// Which setting an argument of `war set` is taken for.
#[derive(Clone, Copy, PartialEq, Eq, Structural, Debug)]
pub enum SetArg {
    Channel,
    Interval,
    Tag,
    Ignored,
}

/// How `war set` reads its arguments from position `i` on, when the
/// channel, the interval and the tag may already be taken: each argument
/// is the channel if none was taken and it names a channel, else the
/// interval if none was taken and it reads as a duration (`duration_read`), else the tag if
/// none was taken; otherwise it is ignored.
pub open spec fn set_args_from(
    args: Seq<Seq<char>>,
    i: int,
    has_channel: bool,
    has_interval: bool,
    has_tag: bool,
) -> Seq<SetArg>
    decreases args.len() - i,
{
    if i < 0 || i >= args.len() {
        Seq::empty()
    } else if !has_channel && channel_id_of(args[i]) is Some {
        seq![SetArg::Channel] + set_args_from(args, i + 1, true, has_interval, has_tag)
    } else if !has_interval && duration_read(args[i]) is Ok {
        seq![SetArg::Interval] + set_args_from(args, i + 1, has_channel, true, has_tag)
    } else if !has_tag {
        seq![SetArg::Tag] + set_args_from(args, i + 1, has_channel, has_interval, true)
    } else {
        seq![SetArg::Ignored] + set_args_from(args, i + 1, has_channel, has_interval, has_tag)
    }
}

proof fn lemma_set_args_len(
    args: Seq<Seq<char>>,
    i: int,
    has_channel: bool,
    has_interval: bool,
    has_tag: bool,
)
    requires
        0 <= i <= args.len(),
    ensures
        set_args_from(args, i, has_channel, has_interval, has_tag).len() == args.len() - i,
    decreases args.len() - i,
{
    if i < args.len() {
        let c = !has_channel && channel_id_of(args[i]) is Some;
        let d = !c && !has_interval && duration_read(args[i]) is Ok;
        let t = !c && !d && !has_tag;
        lemma_set_args_len(args, i + 1, has_channel || c, has_interval || d, has_tag || t);
    }
}

/// Whether argument `k` of `r`'s arguments comes after no argument taken
/// as `which`.
pub open spec fn none_before(r: Seq<SetArg>, k: int, which: SetArg) -> bool {
    forall|j: int| 0 <= j < k ==> r[j] != which
}

proof fn lemma_set_args_roles_from(
    args: Seq<Seq<char>>,
    start: int,
    hc: bool,
    hi: bool,
    ht: bool,
)
    requires
        0 <= start <= args.len(),
    ensures
        ({
            let r = set_args_from(args, start, hc, hi, ht);
            &&& r.len() == args.len() - start
            &&& forall|k: int|
                #![trigger r[k]]
                0 <= k < r.len() ==> {
                    let a = args[start + k];
                    let chan = !hc && channel_id_of(a) is Some && none_before(r, k, SetArg::Channel);
                    let intv = !chan && !hi && duration_read(a) is Ok && none_before(
                        r,
                        k,
                        SetArg::Interval,
                    );
                    let tag = !chan && !intv && !ht && none_before(r, k, SetArg::Tag);
                    &&& (r[k] == SetArg::Channel <==> chan)
                    &&& (r[k] == SetArg::Interval <==> intv)
                    &&& (r[k] == SetArg::Tag <==> tag)
                    &&& (r[k] == SetArg::Ignored <==> !chan && !intv && !tag)
                }
        }),
    decreases args.len() - start,
{
    if start < args.len() {
        let a0 = args[start];
        let c = !hc && channel_id_of(a0) is Some;
        let d = !c && !hi && duration_read(a0) is Ok;
        let t = !c && !d && !ht;
        let x = if c {
            SetArg::Channel
        } else if d {
            SetArg::Interval
        } else if t {
            SetArg::Tag
        } else {
            SetArg::Ignored
        };
        let hc2 = hc || c;
        let hi2 = hi || d;
        let ht2 = ht || t;
        lemma_set_args_roles_from(args, start + 1, hc2, hi2, ht2);
        let rest = set_args_from(args, start + 1, hc2, hi2, ht2);
        let r = set_args_from(args, start, hc, hi, ht);
        assert(r == seq![x] + rest);
        assert forall|k: int| 0 < k < r.len() implies (none_before(r, k, SetArg::Channel) <==> (x
            != SetArg::Channel && none_before(rest, k - 1, SetArg::Channel))) && (none_before(
            r,
            k,
            SetArg::Interval,
        ) <==> (x != SetArg::Interval && none_before(rest, k - 1, SetArg::Interval)))
            && (none_before(r, k, SetArg::Tag) <==> (x != SetArg::Tag && none_before(
            rest,
            k - 1,
            SetArg::Tag,
        ))) && r[k] == rest[k - 1] by {
            assert(r[0] == x);
            assert forall|j: int| 0 < j < k implies r[j] == rest[j - 1] by {}
            if none_before(r, k, SetArg::Channel) {
                assert forall|j: int| 0 <= j < k - 1 implies rest[j] != SetArg::Channel by {
                    assert(r[j + 1] == rest[j]);
                }
            }
            if none_before(r, k, SetArg::Interval) {
                assert forall|j: int| 0 <= j < k - 1 implies rest[j] != SetArg::Interval by {
                    assert(r[j + 1] == rest[j]);
                }
            }
            if none_before(r, k, SetArg::Tag) {
                assert forall|j: int| 0 <= j < k - 1 implies rest[j] != SetArg::Tag by {
                    assert(r[j + 1] == rest[j]);
                }
            }
        }
        assert forall|k: int| #![trigger r[k]] 0 <= k < r.len() implies {
            let a = args[start + k];
            let chan = !hc && channel_id_of(a) is Some && none_before(r, k, SetArg::Channel);
            let intv = !chan && !hi && duration_read(a) is Ok && none_before(r, k, SetArg::Interval);
            let tag = !chan && !intv && !ht && none_before(r, k, SetArg::Tag);
            &&& (r[k] == SetArg::Channel <==> chan)
            &&& (r[k] == SetArg::Interval <==> intv)
            &&& (r[k] == SetArg::Tag <==> tag)
            &&& (r[k] == SetArg::Ignored <==> !chan && !intv && !tag)
        } by {
            if k > 0 {
                assert(rest[k - 1] == r[k]);
                assert(args[(start + 1) + (k - 1)] == args[start + k]);
            }
        }
    } else {
        assert(set_args_from(args, start, hc, hi, ht) =~= Seq::<SetArg>::empty());
    }
}

/// How `war set` reads its arguments, whatever their order: an argument
/// is the channel exactly when it names a channel and no earlier one was
/// taken as the channel; else the interval exactly when it reads as a
/// duration and no earlier one was taken as the interval; else the tag
/// exactly when no earlier one was taken as the tag; else it is ignored.
/// So each setting is taken at most once, by the first argument that fits.
pub proof fn lemma_set_args_roles(args: Seq<Seq<char>>)
    ensures
        ({
            let r = set_args_from(args, 0, false, false, false);
            &&& r.len() == args.len()
            &&& forall|k: int|
                #![trigger r[k]]
                0 <= k < r.len() ==> {
                    let chan = channel_id_of(args[k]) is Some && none_before(r, k, SetArg::Channel);
                    let intv = !chan && duration_read(args[k]) is Ok && none_before(
                        r,
                        k,
                        SetArg::Interval,
                    );
                    let tag = !chan && !intv && none_before(r, k, SetArg::Tag);
                    &&& (r[k] == SetArg::Channel <==> chan)
                    &&& (r[k] == SetArg::Interval <==> intv)
                    &&& (r[k] == SetArg::Tag <==> tag)
                    &&& (r[k] == SetArg::Ignored <==> !chan && !intv && !tag)
                }
        }),
{
    lemma_set_args_roles_from(args, 0, false, false, false);
    let r = set_args_from(args, 0, false, false, false);
    assert forall|k: int| 0 <= k < r.len() implies #[trigger] args[0 + k] == args[k] by {}
}

/// Which setting each argument of `war set` is taken for.
pub fn classify_set_args(args: &Vec<String>) -> (r: Vec<SetArg>)
    ensures
        r@ == set_args_from(args@.map_values(|s: String| s@), 0, false, false, false),
{
    let ghost all = args@.map_values(|s: String| s@);
    let mut r: Vec<SetArg> = Vec::new();
    let mut has_channel = false;
    let mut has_interval = false;
    let mut has_tag = false;
    let mut i: usize = 0;
    while i < args.len()
        invariant
            i <= args@.len(),
            all == args@.map_values(|s: String| s@),
            r@ + set_args_from(all, i as int, has_channel, has_interval, has_tag) == set_args_from(
                all,
                0,
                false,
                false,
                false,
            ),
        decreases args@.len() - i,
    {
        let arg = args[i].as_str();
        assert(all[i as int] == arg@);
        let ghost tail = set_args_from(all, i + 1, has_channel, has_interval, has_tag);
        let kind = if !has_channel && parse_channel_id(arg).is_some() {
            has_channel = true;
            SetArg::Channel
        } else if !has_interval && read_duration(arg).is_ok() {
            has_interval = true;
            SetArg::Interval
        } else if !has_tag {
            has_tag = true;
            SetArg::Tag
        } else {
            SetArg::Ignored
        };
        let ghost before = r@;
        r.push(kind);
        proof {
            assert(set_args_from(all, i as int, old_has(has_channel, kind, SetArg::Channel), old_has(has_interval, kind, SetArg::Interval), old_has(has_tag, kind, SetArg::Tag))
                == seq![kind] + set_args_from(all, i + 1, has_channel, has_interval, has_tag));
            assert(r@ + set_args_from(all, i + 1, has_channel, has_interval, has_tag) =~= before
                + (seq![kind] + set_args_from(all, i + 1, has_channel, has_interval, has_tag)));
        }
        i = i + 1;
    }
    proof {
        assert(set_args_from(all, i as int, has_channel, has_interval, has_tag) =~= Seq::<
            SetArg,
        >::empty());
        assert(r@ =~= r@ + Seq::<SetArg>::empty());
    }
    r
}

/// Whether a setting was already taken before an argument that was just
/// classified as `kind`.
spec fn old_has(now: bool, kind: SetArg, which: SetArg) -> bool {
    if kind == which {
        false
    } else {
        now
    }
}

/// The lines joined with line breaks.
pub open spec fn joined_lines(lines: Seq<Seq<char>>) -> Seq<char>
    decreases lines.len(),
{
    if lines.len() == 0 {
        Seq::empty()
    } else if lines.len() == 1 {
        lines[0]
    } else {
        joined_lines(lines.drop_last()) + "\n"@ + lines.last()
    }
}

/// The replies of the settings that `war set` changed, one per line.
pub fn join_lines(lines: &Vec<String>) -> (r: String)
    ensures
        r@ == joined_lines(lines@.map_values(|s: String| s@)),
{
    let ghost all = lines@.map_values(|s: String| s@);
    let mut t: Vec<char> = Vec::new();
    let mut i: usize = 0;
    while i < lines.len()
        invariant
            i <= lines@.len(),
            all == lines@.map_values(|s: String| s@),
            t@ == joined_lines(all.subrange(0, i as int)),
        decreases lines@.len() - i,
    {
        if i > 0 {
            push_str(&mut t, "\n");
        }
        push_str(&mut t, lines[i].as_str());
        proof {
            assert(all.subrange(0, i + 1).drop_last() =~= all.subrange(0, i as int));
            assert(all.subrange(0, i + 1).last() == lines@[i as int]@);
            if i == 0 {
                assert(all.subrange(0, 1) =~= seq![lines@[0]@]);
            }
        }
        i = i + 1;
    }
    assert(all.subrange(0, lines@.len() as int) =~= all);
    string_of(t.as_slice())
}

/// The edits of `war reset`: no post channel, the default interval, not
/// running, no clan tag and no post.
pub fn reset_fields() -> (r: Vec<GuildDataEditableField>)
    ensures
        r@ == seq![
            GuildDataEditableField::PostChannelId(None),
            GuildDataEditableField::UpdateInterval(DEFAULT_UPDATE_INTERVAL),
            GuildDataEditableField::Run(false),
            GuildDataEditableField::ClanTag(None),
            GuildDataEditableField::Post(None),
        ],
{
    let mut r: Vec<GuildDataEditableField> = Vec::new();
    r.push(GuildDataEditableField::PostChannelId(None));
    r.push(GuildDataEditableField::UpdateInterval(DEFAULT_UPDATE_INTERVAL));
    r.push(GuildDataEditableField::Run(false));
    r.push(GuildDataEditableField::ClanTag(None));
    r.push(GuildDataEditableField::Post(None));
    assert(r@ =~= seq![
        GuildDataEditableField::PostChannelId(None),
        GuildDataEditableField::UpdateInterval(DEFAULT_UPDATE_INTERVAL),
        GuildDataEditableField::Run(false),
        GuildDataEditableField::ClanTag(None),
        GuildDataEditableField::Post(None),
    ]);
    r
}

/// After `war reset` a server is not polled, updates every ten minutes,
/// and has no post channel, clan tag or post.
pub proof fn lemma_reset_stops_tracking(gd: GuildData)
    ensures
        ({
            let after = guild_edited_all(
                gd,
                seq![
                    GuildDataEditableField::PostChannelId(None),
                    GuildDataEditableField::UpdateInterval(DEFAULT_UPDATE_INTERVAL),
                    GuildDataEditableField::Run(false),
                    GuildDataEditableField::ClanTag(None),
                    GuildDataEditableField::Post(None),
                ],
            );
            &&& !polls(after)
            &&& after.update_interval == 600
            &&& after.post_channel_id is None
            &&& after.clan_tag is None
            &&& after.post is None
            &&& after.period_index == gd.period_index
        }),
{
    reveal_with_fuel(guild_edited_all, 6);
}

/// The `war` commands that take no argument.
#[derive(Clone, Copy, PartialEq, Eq, Structural, Debug)]
pub enum WarCommand {
    /// `war reset`
    Reset,
    /// `war post update`
    PostUpdate,
    /// `war post new`
    PostNew,
    /// `war start`
    Start,
    /// `war stop`
    Stop,
}

/// The effect of a `war` command without argument: the edits it makes,
/// whether they are also written to the database, whether it wakes the
/// server's tracker so that it updates at once, and its reply, if any.
#[derive(Clone, Debug, PartialEq, Eq)]
pub struct WarEffect {
    pub edits: Vec<GuildDataEditableField>,
    pub stored: bool,
    pub wake: bool,
    pub reply: Option<String>,
}

/// The edits of a `war` command without argument.
pub open spec fn war_edits(c: WarCommand) -> Seq<GuildDataEditableField> {
    match c {
        WarCommand::Reset => seq![
            GuildDataEditableField::PostChannelId(None),
            GuildDataEditableField::UpdateInterval(DEFAULT_UPDATE_INTERVAL),
            GuildDataEditableField::Run(false),
            GuildDataEditableField::ClanTag(None),
            GuildDataEditableField::Post(None),
        ],
        WarCommand::PostUpdate => Seq::empty(),
        WarCommand::PostNew => seq![GuildDataEditableField::IsNewMessage(true)],
        WarCommand::Start => seq![GuildDataEditableField::Run(true)],
        WarCommand::Stop => seq![GuildDataEditableField::Run(false)],
    }
}

/// Whether the edits go to the database too: all but the new-post flag,
/// which only the server's data in memory holds.
pub open spec fn war_stored(c: WarCommand) -> bool {
    !(c is PostNew)
}

/// Whether the command wakes the tracker: all but `war start`.
pub open spec fn war_wakes(c: WarCommand) -> bool {
    !(c is Start)
}

/// The reply of a `war` command without argument: only `start` and
/// `stop` answer.
pub open spec fn war_reply(c: WarCommand) -> Option<Seq<char>> {
    match c {
        WarCommand::Start => Some("Traqueur de guerre mis en route !"@),
        WarCommand::Stop => Some("Traqueur de guerre arr\u{ea}t\u{e9}."@),
        _ => None,
    }
}

/// What a `war` command without argument does.
pub fn war_command_effect(c: WarCommand) -> (r: WarEffect)
    ensures
        r.edits@ == war_edits(c),
        r.stored == war_stored(c),
        r.wake == war_wakes(c),
        opt_text(r.reply) == war_reply(c),
{
    match c {
        WarCommand::Reset => WarEffect { edits: reset_fields(), stored: true, wake: true, reply: None },
        WarCommand::PostUpdate => WarEffect {
            edits: Vec::new(),
            stored: true,
            wake: true,
            reply: None,
        },
        WarCommand::PostNew => {
            let mut edits: Vec<GuildDataEditableField> = Vec::new();
            edits.push(GuildDataEditableField::IsNewMessage(true));
            assert(edits@ =~= war_edits(c));
            WarEffect { edits, stored: false, wake: true, reply: None }
        },
        WarCommand::Start => {
            let mut edits: Vec<GuildDataEditableField> = Vec::new();
            edits.push(GuildDataEditableField::Run(true));
            assert(edits@ =~= war_edits(c));
            WarEffect {
                edits,
                stored: true,
                wake: false,
                reply: Some("Traqueur de guerre mis en route !".to_owned()),
            }
        },
        WarCommand::Stop => {
            let mut edits: Vec<GuildDataEditableField> = Vec::new();
            edits.push(GuildDataEditableField::Run(false));
            assert(edits@ =~= war_edits(c));
            WarEffect {
                edits,
                stored: true,
                wake: true,
                reply: Some("Traqueur de guerre arr\u{ea}t\u{e9}.".to_owned()),
            }
        },
    }
}

/// What the `war` commands without argument do to any server's data:
/// `stop` and `reset` leave it not running and not polled, `start` makes
/// it run, `post new` asks for a new post, `post update` changes nothing;
/// all but `start` wake the tracker, and only `post new` stays out of the
/// database.
pub proof fn lemma_war_commands_do_what_they_say(gd: GuildData)
    ensures
        !guild_edited_all(gd, war_edits(WarCommand::Stop)).run,
        !polls(guild_edited_all(gd, war_edits(WarCommand::Stop))),
        !guild_edited_all(gd, war_edits(WarCommand::Reset)).run,
        !polls(guild_edited_all(gd, war_edits(WarCommand::Reset))),
        guild_edited_all(gd, war_edits(WarCommand::Start)).run,
        guild_edited_all(gd, war_edits(WarCommand::PostNew)).is_new_message,
        guild_edited_all(gd, war_edits(WarCommand::PostUpdate)) == gd,
        war_wakes(WarCommand::Stop) && war_wakes(WarCommand::Reset) && war_wakes(
            WarCommand::PostNew,
        ) && war_wakes(WarCommand::PostUpdate) && !war_wakes(WarCommand::Start),
        !war_stored(WarCommand::PostNew) && war_stored(WarCommand::Stop) && war_stored(
            WarCommand::Start,
        ) && war_stored(WarCommand::Reset),
{
    reveal_with_fuel(guild_edited_all, 6);
    let stop = war_edits(WarCommand::Stop);
    assert(stop.drop_last() =~= Seq::<GuildDataEditableField>::empty());
    let start = war_edits(WarCommand::Start);
    assert(start.drop_last() =~= Seq::<GuildDataEditableField>::empty());
    let new_post = war_edits(WarCommand::PostNew);
    assert(new_post.drop_last() =~= Seq::<GuildDataEditableField>::empty());
    lemma_reset_stops_tracking(gd);
}

/// The channel that `dev setup` configures for tests.
pub const SETUP_CHANNEL: u64 = 862419878282657792;

/// The edits of `dev setup`: a test channel and clan, updates every ten
/// seconds, and no post.
pub fn setup_fields() -> (r: Vec<GuildDataEditableField>)
    ensures
        r@.len() == 4,
        r@[0] == GuildDataEditableField::PostChannelId(Some(Id(SETUP_CHANNEL))),
        (r@[1] matches GuildDataEditableField::ClanTag(Some(t)) && t@ == "YLP9PVC9"@),
        r@[2] == GuildDataEditableField::UpdateInterval(10),
        r@[3] == GuildDataEditableField::Post(None),
{
    let mut r: Vec<GuildDataEditableField> = Vec::new();
    r.push(GuildDataEditableField::PostChannelId(Some(Id(SETUP_CHANNEL))));
    r.push(GuildDataEditableField::ClanTag(Some("YLP9PVC9".to_owned())));
    r.push(GuildDataEditableField::UpdateInterval(10));
    r.push(GuildDataEditableField::Post(None));
    r
}

} // verus!
