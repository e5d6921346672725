//! The single-server form of the bot, driven by `!plin <command>`
//! messages: how a message is split into a command and its argument, how
//! the arguments are read, what each command changes and replies, and
//! who may use the commands.
use vstd::prelude::*;
use vstd::string::StringSliceAdditionalSpecFns;
use vstd::utf8::is_char_boundary;

use crate::duration::{duration_read, format_duration, humantime_format, parsed_view, read_duration};
use crate::guild::{GuildData, GuildDataEditableField, Id, guild_edited_all};
use crate::text::{
    chars_of, is_digit, nat_text, opt_text, parse_u64, push_chars, push_nat, push_str, string_of, trim,
    trimmed, u64_parse,
};
use crate::tracker::{polls, TIME_FRAGMENTATION};

verus! {

/// A command of the single-server bot.
#[derive(Clone, Debug, PartialEq, Eq)]
pub enum Command {
    Channel,
    Interval,
    Tag,
    Update,
    NewPost,
    Start,
    Stop,
    Dev,
    Unknown(String),
}

/// The command that a word names.
pub open spec fn command_named(word: Seq<char>) -> Command {
    if word == "channel"@ {
        Command::Channel
    } else if word == "interval"@ {
        Command::Interval
    } else if word == "tag"@ {
        Command::Tag
    } else if word == "update"@ {
        Command::Update
    } else if word == "newpost"@ {
        Command::NewPost
    } else if word == "start"@ {
        Command::Start
    } else if word == "stop"@ {
        Command::Stop
    } else if word == "dev"@ {
        Command::Dev
    } else {
        Command::Unknown(arbitrary())
    }
}

/// Whether `c` is the command that `word` names (an unknown command
/// carries the word itself).
pub open spec fn is_command_for(c: Command, word: Seq<char>) -> bool {
    match command_named(word) {
        Command::Unknown(_) => c matches Command::Unknown(w) && w@ == word,
        named => c == named,
    }
}

/// The index of the first space of `s`, or its length when it has none.
pub open spec fn first_space(s: Seq<char>) -> int
    decreases s.len(),
{
    if s.len() == 0 || s[0] == ' ' {
        0
    } else {
        1 + first_space(s.drop_first())
    }
}

/// `s` up to its first space.
pub open spec fn word_of(s: Seq<char>) -> Seq<char> {
    s.take(first_space(s))
}

/// What follows the first space of `s` (nothing when it has none).
pub open spec fn after_word(s: Seq<char>) -> Seq<char> {
    if first_space(s) < s.len() {
        s.skip(first_space(s) + 1)
    } else {
        Seq::empty()
    }
}

/// `s` without its leading spaces.
pub open spec fn skip_spaces(s: Seq<char>) -> Seq<char>
    decreases s.len(),
{
    if s.len() > 0 && s[0] == ' ' {
        skip_spaces(s.drop_first())
    } else {
        s
    }
}

/// The decimal digits at the start of `s`.
pub open spec fn leading_digits(s: Seq<char>) -> Seq<char>
    decreases s.len(),
{
    if s.len() > 0 && is_digit(s[0]) {
        seq![s[0]] + leading_digits(s.drop_first())
    } else {
        Seq::empty()
    }
}

/// The prefix that addresses the bot.
pub open spec fn addresses_bot(content: Seq<char>) -> bool {
    content.len() >= 6 && content.subrange(0, 6) == "!plin "@
}

/// The text after the prefix, without surrounding whitespace.
pub open spec fn command_text(content: Seq<char>) -> Seq<char> {
    trimmed(content.skip(6))
}

/// A message split into its command and the text after it.
#[derive(Clone, Debug, PartialEq, Eq)]
pub struct ParsedCommand {
    pub command: Command,
    pub rest: Vec<char>,
}

proof fn lemma_first_space_step(s: Seq<char>, i: int)
    requires
        0 <= i < s.len(),
        forall|j: int| 0 <= j < i ==> s[j] != ' ',
    ensures
        first_space(s) == i + first_space(s.skip(i)),
        s[i] == ' ' ==> first_space(s) == i,
    decreases i,
{
    if i > 0 {
        assert(s.drop_first().skip(i - 1) =~= s.skip(i));
        lemma_first_space_step(s.drop_first(), i - 1);
    } else {
        assert(s.skip(0) =~= s);
    }
}

proof fn lemma_first_space_none(s: Seq<char>)
    requires
        forall|j: int| 0 <= j < s.len() ==> s[j] != ' ',
    ensures
        first_space(s) == s.len(),
    decreases s.len(),
{
    if s.len() > 0 {
        lemma_first_space_none(s.drop_first());
    }
}

fn same_chars(a: &[char], b: &str) -> (r: bool)
    ensures
        r == (a@ == b@),
{
    let bs = chars_of(b);
    if a.len() != bs.len() {
        return false;
    }
    let mut i: usize = 0;
    while i < a.len()
        invariant
            a@.len() == bs@.len(),
            bs@ == b@,
            i <= a@.len(),
            forall|j: int| 0 <= j < i ==> a@[j] == bs@[j],
        decreases a@.len() - i,
    {
        if a[i] != bs[i] {
            return false;
        }
        i = i + 1;
    }
    assert(a@ =~= bs@);
    true
}

fn copy_range(s: &[char], from: usize, to: usize) -> (r: Vec<char>)
    requires
        from <= to <= s@.len(),
    ensures
        r@ == s@.subrange(from as int, to as int),
{
    let mut r: Vec<char> = Vec::new();
    let mut i: usize = from;
    while i < to
        invariant
            from <= i <= to <= s@.len(),
            r@ == s@.subrange(from as int, i as int),
        decreases to - i,
    {
        r.push(s[i]);
        i = i + 1;
        assert(r@ =~= s@.subrange(from as int, i as int));
    }
    r
}

/// The command that `word` names.
pub fn command_for(word: &[char]) -> (c: Command)
    ensures
        is_command_for(c, word@),
{
    if same_chars(word, "channel") {
        Command::Channel
    } else if same_chars(word, "interval") {
        Command::Interval
    } else if same_chars(word, "tag") {
        Command::Tag
    } else if same_chars(word, "update") {
        Command::Update
    } else if same_chars(word, "newpost") {
        Command::NewPost
    } else if same_chars(word, "start") {
        Command::Start
    } else if same_chars(word, "stop") {
        Command::Stop
    } else if same_chars(word, "dev") {
        Command::Dev
    } else {
        Command::Unknown(string_of(word))
    }
}

/// Splits a message addressed to the bot (`!plin <command> <argument>`)
/// into the command and what follows it; other messages give `None`.
/// A message whose sixth byte falls inside a character is not accepted.
pub fn parse_command(content: &str) -> (r: Option<ParsedCommand>)
    requires
        content.spec_bytes().len() >= 6 ==> is_char_boundary(content.spec_bytes(), 6),
    ensures
        r is Some <==> addresses_bot(content@),
        r matches Some(p) ==> is_command_for(p.command, word_of(command_text(content@)))
            && p.rest@ == after_word(command_text(content@)),
{
    let cs = chars_of(content);
    let n = cs.len();
    if n < 6 {
        return None;
    }
    let head = copy_range(cs.as_slice(), 0, 6);
    if !same_chars(head.as_slice(), "!plin ") {
        return None;
    }
    let tail = copy_range(cs.as_slice(), 6, n);
    assert(tail@ =~= content@.skip(6));
    let body = trim(tail.as_slice());
    let m = body.len();
    let mut k: usize = 0;
    while k < m && body[k] != ' '
        invariant
            m == body@.len(),
            k <= m,
            forall|j: int| 0 <= j < k ==> body@[j] != ' ',
        decreases m - k,
    {
        k = k + 1;
    }
    proof {
        if k < m {
            lemma_first_space_step(body@, k as int);
        } else {
            lemma_first_space_none(body@);
        }
    }
    let word = copy_range(body.as_slice(), 0, k);
    let rest = if k < m {
        copy_range(body.as_slice(), k + 1, m)
    } else {
        Vec::new()
    };
    assert(word@ =~= word_of(body@));
    assert(rest@ =~= after_word(body@));
    let command = command_for(word.as_slice());
    Some(ParsedCommand { command, rest })
}

proof fn lemma_skip_spaces_step(s: Seq<char>, i: int)
    requires
        0 <= i <= s.len(),
        forall|j: int| 0 <= j < i ==> s[j] == ' ',
    ensures
        skip_spaces(s) == skip_spaces(s.skip(i)),
    decreases i,
{
    if i > 0 {
        assert(s.drop_first().skip(i - 1) =~= s.skip(i));
        lemma_skip_spaces_step(s.drop_first(), i - 1);
    } else {
        assert(s.skip(0) =~= s);
    }
}

fn skip_leading_spaces(s: &[char]) -> (r: usize)
    ensures
        r <= s@.len(),
        skip_spaces(s@) == s@.skip(r as int),
{
    let mut i: usize = 0;
    while i < s.len() && s[i] == ' '
        invariant
            i <= s@.len(),
            forall|j: int| 0 <= j < i ==> s@[j] == ' ',
        decreases s@.len() - i,
    {
        i = i + 1;
    }
    proof {
        lemma_skip_spaces_step(s@, i as int);
        let t = s@.skip(i as int);
        assert(!(t.len() > 0 && t[0] == ' '));
    }
    i
}

/// The channel id at the start of the argument of `channel`: the digits
/// after any leading spaces, when they form a number that fits in 64 bits.
pub open spec fn channel_arg(rest: Seq<char>) -> Option<u64> {
    u64_parse(leading_digits(skip_spaces(rest)))
}

proof fn lemma_leading_digits_step(s: Seq<char>, i: int)
    requires
        0 <= i <= s.len(),
        forall|j: int| 0 <= j < i ==> is_digit(#[trigger] s[j]),
    ensures
        leading_digits(s) == s.take(i) + leading_digits(s.skip(i)),
    decreases i,
{
    if i > 0 {
        assert(s.drop_first().skip(i - 1) =~= s.skip(i));
        lemma_leading_digits_step(s.drop_first(), i - 1);
        assert(s.take(i) =~= seq![s[0]] + s.drop_first().take(i - 1));
    } else {
        assert(s.skip(0) =~= s);
        assert(s.take(0) =~= Seq::<char>::empty());
    }
}

/// The channel id that the argument of `channel` starts with.
pub fn channel_argument(rest: &[char]) -> (r: Option<u64>)
    ensures
        r == channel_arg(rest@),
{
    let start = skip_leading_spaces(rest);
    let n = rest.len();
    let mut i: usize = start;
    while i < n && '0' <= rest[i] && rest[i] <= '9'
        invariant
            start <= i <= n,
            n == rest@.len(),
            forall|j: int| start <= j < i ==> is_digit(#[trigger] rest@[j]),
        decreases n - i,
    {
        i = i + 1;
    }
    let digits = copy_range(rest, start, i);
    proof {
        let t = rest@.skip(start as int);
        let k = i - start;
        assert forall|j: int| 0 <= j < k implies is_digit(#[trigger] t[j]) by {
            assert(t[j] == rest@[start + j]);
        }
        lemma_leading_digits_step(t, k);
        assert(t.skip(k) =~= rest@.skip(i as int));
        let u = rest@.skip(i as int);
        assert(!(u.len() > 0 && is_digit(u[0])));
        assert(t.take(k) =~= digits@);
        assert(leading_digits(t) =~= digits@);
    }
    parse_u64(digits.as_slice())
}

/// The clan tag at the start of the argument of `tag`: the first word
/// after any leading spaces.
pub open spec fn tag_arg(rest: Seq<char>) -> Seq<char> {
    word_of(skip_spaces(rest))
}

/// The clan tag that the argument of `tag` starts with.
pub fn tag_argument(rest: &[char]) -> (r: Vec<char>)
    ensures
        r@ == tag_arg(rest@),
{
    let start = skip_leading_spaces(rest);
    let n = rest.len();
    let mut i: usize = start;
    while i < n && rest[i] != ' '
        invariant
            start <= i <= n,
            n == rest@.len(),
            forall|j: int| start <= j < i ==> rest@[j] != ' ',
        decreases n - i,
    {
        i = i + 1;
    }
    proof {
        let t = rest@.skip(start as int);
        let k = i - start;
        assert forall|j: int| 0 <= j < k implies t[j] != ' ' by {
            assert(t[j] == rest@[start + j]);
        }
        if i < n {
            assert(t[k] == rest@[i as int]);
            lemma_first_space_step(t, k);
        } else {
            lemma_first_space_none(t);
        }
    }
    let r = copy_range(rest, start, i);
    assert(r@ =~= tag_arg(rest@));
    r
}

/// A command's effect on the single server: its edits, in order, and
/// its reply.
#[derive(Clone, Debug, PartialEq, Eq)]
pub struct LegacyOutcome {
    pub edits: Vec<GuildDataEditableField>,
    pub reply: String,
}

/// The reply to an unknown command.
pub open spec fn unknown_reply_text(word: Seq<char>) -> Seq<char> {
    "Commande inconnue : `"@ + word + "`"@
}

/// The reply to an unknown command.
pub fn unknown_command_reply(word: &str) -> (r: String)
    ensures
        r@ == unknown_reply_text(word@),
{
    let mut t: Vec<char> = Vec::new();
    push_str(&mut t, "Commande inconnue : `");
    push_str(&mut t, word);
    push_str(&mut t, "`");
    string_of(t.as_slice())
}

/// The edits that ask for a new post at the next update.
pub open spec fn new_post_edits() -> Seq<GuildDataEditableField> {
    seq![GuildDataEditableField::IsNewMessage(true), GuildDataEditableField::UpdatePost(true)]
}

/// The reply of `channel`.
pub open spec fn legacy_channel_reply_text(id: u64, exists: bool) -> Seq<char> {
    if exists {
        "Le channel de post \u{e0} \u{e9}t\u{e9} changer pour <#"@ + nat_text(id as nat) + ">"@
    } else {
        "L'id donn\u{e9} "@ + nat_text(id as nat) + " ne correspond \u{e0} aucun channel"@
    }
}

/// What `channel` does for the channel `id`; `exists` says whether the
/// server has it. An existing channel becomes the post channel and a new
/// post is asked for.
pub fn legacy_channel_outcome(id: u64, exists: bool) -> (r: LegacyOutcome)
    ensures
        r.edits@ == (if exists {
            seq![GuildDataEditableField::PostChannelId(Some(Id(id)))] + new_post_edits()
        } else {
            Seq::empty()
        }),
        r.reply@ == legacy_channel_reply_text(id, exists),
{
    let mut edits: Vec<GuildDataEditableField> = Vec::new();
    let mut t: Vec<char> = Vec::new();
    if exists {
        edits.push(GuildDataEditableField::PostChannelId(Some(Id(id))));
        edits.push(GuildDataEditableField::IsNewMessage(true));
        edits.push(GuildDataEditableField::UpdatePost(true));
        push_str(&mut t, "Le channel de post \u{e0} \u{e9}t\u{e9} changer pour <#");
        push_nat(&mut t, id);
        push_str(&mut t, ">");
    } else {
        push_str(&mut t, "L'id donn\u{e9} ");
        push_nat(&mut t, id);
        push_str(&mut t, " ne correspond \u{e0} aucun channel");
    }
    assert(edits@ =~= (if exists {
        seq![GuildDataEditableField::PostChannelId(Some(Id(id)))] + new_post_edits()
    } else {
        Seq::empty()
    }));
    assert(t@ =~= legacy_channel_reply_text(id, exists));
    LegacyOutcome { edits, reply: string_of(t.as_slice()) }
}

/// What `tag` does with its argument: the first word becomes the clan
/// tag and a new post is asked for.
pub fn legacy_tag_outcome(rest: &[char]) -> (r: LegacyOutcome)
    ensures
        r.edits@.len() == 3,
        (r.edits@[0] matches GuildDataEditableField::ClanTag(Some(t)) && t@ == tag_arg(rest@)),
        r.edits@.subrange(1, 3) == new_post_edits(),
        r.reply@ == "Tag mise \u{e0} jour pour : "@ + tag_arg(rest@),
{
    let tag = tag_argument(rest);
    let mut edits: Vec<GuildDataEditableField> = Vec::new();
    edits.push(GuildDataEditableField::ClanTag(Some(string_of(tag.as_slice()))));
    edits.push(GuildDataEditableField::IsNewMessage(true));
    edits.push(GuildDataEditableField::UpdatePost(true));
    let mut t: Vec<char> = Vec::new();
    push_str(&mut t, "Tag mise \u{e0} jour pour : ");
    push_chars(&mut t, tag.as_slice());
    assert(edits@.subrange(1, 3) =~= new_post_edits());
    LegacyOutcome { edits, reply: string_of(t.as_slice()) }
}

/// The reply of `interval` once its argument was read.
pub open spec fn legacy_interval_reply_text(parsed: Result<(u64, u32), Seq<char>>) -> Seq<char> {
    match parsed {
        Ok(d) => if d.0 >= 5 {
            "Les posts seront maintenant mise \u{e0} jour tous les "@ + humantime_format(d.0, d.1)
        } else {
            "Le temps donn\u{e9} "@ + humantime_format(d.0, d.1) + " est trop petit. Minimum : 5s"@
        },
        Err(e) => "Erreur : "@ + e,
    }
}

/// The edits of `interval` once its argument was read: an interval of
/// at least 5 seconds is taken.
pub open spec fn legacy_interval_edits(parsed: Result<(u64, u32), Seq<char>>) -> Seq<
    GuildDataEditableField,
> {
    match parsed {
        Ok(d) => if d.0 >= 5 {
            seq![GuildDataEditableField::UpdateInterval(d.0)]
        } else {
            Seq::empty()
        },
        Err(_) => Seq::empty(),
    }
}

/// `interval` takes an interval exactly when its argument reads as a
/// duration of at least 5 seconds, and then takes its whole seconds; an
/// error is answered with its text after `Erreur : `.
pub proof fn lemma_legacy_interval_minimum(parsed: Result<(u64, u32), Seq<char>>)
    ensures
        legacy_interval_edits(parsed).len() > 0 <==> (parsed is Ok && parsed->Ok_0.0 >= 5),
        legacy_interval_edits(parsed).len() > 0 ==> legacy_interval_edits(parsed) == seq![
            GuildDataEditableField::UpdateInterval(parsed->Ok_0.0),
        ],
        parsed is Err ==> legacy_interval_reply_text(parsed) == "Erreur : "@ + parsed->Err_0,
{
}

/// What `interval` does once its argument was read as a duration.
pub fn legacy_interval_result(parsed: Result<(u64, u32), String>) -> (r: LegacyOutcome)
    requires
        parsed is Ok ==> parsed->Ok_0.1 < 1_000_000_000,
    ensures
        r.edits@ == legacy_interval_edits(parsed_view(parsed)),
        r.reply@ == legacy_interval_reply_text(parsed_view(parsed)),
{
    let mut edits: Vec<GuildDataEditableField> = Vec::new();
    let mut t: Vec<char> = Vec::new();
    match parsed {
        Ok((secs, nanos)) => {
            let shown = format_duration(secs, nanos);
            if secs >= TIME_FRAGMENTATION {
                edits.push(GuildDataEditableField::UpdateInterval(secs));
                push_str(&mut t, "Les posts seront maintenant mise \u{e0} jour tous les ");
                push_str(&mut t, shown.as_str());
            } else {
                push_str(&mut t, "Le temps donn\u{e9} ");
                push_str(&mut t, shown.as_str());
                push_str(&mut t, " est trop petit. Minimum : 5s");
            }
        },
        Err(e) => {
            push_str(&mut t, "Erreur : ");
            push_str(&mut t, e.as_str());
        },
    }
    assert(edits@ =~= legacy_interval_edits(parsed_view(parsed)));
    assert(t@ =~= legacy_interval_reply_text(parsed_view(parsed)));
    LegacyOutcome { edits, reply: string_of(t.as_slice()) }
}

/// What `interval` does with its argument, read without surrounding
/// whitespace.
pub fn legacy_interval_outcome(rest: &[char]) -> (r: LegacyOutcome)
    ensures
        r.edits@ == legacy_interval_edits(duration_read(trimmed(rest@))),
        r.reply@ == legacy_interval_reply_text(duration_read(trimmed(rest@))),
{
    let text = string_of(trim(rest).as_slice());
    let parsed = read_duration(text.as_str());
    legacy_interval_result(parsed)
}

/// What `String::to_lowercase` gives for a text.
pub uninterp spec fn lowercased(s: Seq<char>) -> Seq<char>;

/// Calls `str::to_lowercase`.
#[verifier::external_body]
fn to_lowercase(s: &str) -> (r: String)
    ensures
        r@ == lowercased(s@),
{
    s.to_lowercase()
}

/// Whether a role is the server's admin role: its name is `admin` in
/// lower case.
pub open spec fn is_admin_name(name: Seq<char>) -> bool {
    lowercased(name) == "admin"@
}

/// The first role of the server whose name is `admin` in lower case.
pub fn find_admin_role(role_names: &Vec<String>) -> (r: Option<usize>)
    ensures
        match r {
            Some(k) => k < role_names@.len() && is_admin_name(role_names@[k as int]@) && forall|
                j: int,
            |
                0 <= j < k ==> !is_admin_name(#[trigger] role_names@[j]@),
            None => forall|j: int|
                0 <= j < role_names@.len() ==> !is_admin_name(#[trigger] role_names@[j]@),
        },
{
    let admin = "admin".to_owned();
    let mut i: usize = 0;
    while i < role_names.len()
        invariant
            i <= role_names@.len(),
            admin@ == "admin"@,
            forall|j: int| 0 <= j < i ==> !is_admin_name(#[trigger] role_names@[j]@),
        decreases role_names@.len() - i,
    {
        let lower = to_lowercase(role_names[i].as_str());
        if lower == admin {
            return Some(i);
        }
        i = i + 1;
    }
    None
}

/// Who may use the configuration commands: members with the admin role,
/// or anyone when the server has no admin role.
pub fn may_configure(admin_role_exists: bool, has_admin_role: bool) -> (r: bool)
    ensures
        r == ((admin_role_exists && has_admin_role) || !admin_role_exists),
{
    (admin_role_exists && has_admin_role) || !admin_role_exists
}

/// The effect of a command that takes no argument: its edits, in order,
/// and its reply, if it sends one.
#[derive(Clone, Debug, PartialEq, Eq)]
pub struct Effect {
    pub edits: Vec<GuildDataEditableField>,
    pub reply: Option<String>,
}

/// Whether a command takes no argument.
pub open spec fn takes_no_argument(c: Command) -> bool {
    c is Update || c is NewPost || c is Start || c is Stop || c is Dev
}

/// The edits of `update`, `newpost`, `start` and `stop`.
pub open spec fn plain_edits(c: Command) -> Seq<GuildDataEditableField> {
    match c {
        Command::Update => seq![GuildDataEditableField::UpdatePost(true)],
        Command::NewPost => new_post_edits(),
        Command::Start => seq![GuildDataEditableField::Run(true)],
        Command::Stop => seq![GuildDataEditableField::Run(false)],
        _ => Seq::empty(),
    }
}

/// The reply of a command that takes no argument: `update` and `newpost`
/// send none.
pub open spec fn plain_reply(c: Command) -> Option<Seq<char>> {
    match c {
        Command::Start => Some("Mise en route"@),
        Command::Stop => Some("Arr\u{ea}t"@),
        Command::Dev => Some("Dev ok !"@),
        _ => None,
    }
}

/// Whether `edits` are those of `dev`: a test channel and clan, and the
/// shortest update interval.
pub open spec fn is_legacy_dev_edits(edits: Seq<GuildDataEditableField>) -> bool {
    &&& edits.len() == 3
    &&& edits[0] == GuildDataEditableField::PostChannelId(Some(Id(LEGACY_DEV_CHANNEL)))
    &&& (edits[1] matches GuildDataEditableField::ClanTag(Some(t)) && t@ == "YLP9PVC9"@)
    &&& edits[2] == GuildDataEditableField::UpdateInterval(TIME_FRAGMENTATION)
}

/// What the single-server commands without argument do to the server's
/// data: `stop` leaves it not running and not polled, `start` makes it
/// run, `update` asks for an update, `newpost` asks for an update in a new
/// post; each answers as it should (`start` and `stop` say so, `update`
/// and `newpost` say nothing).
pub proof fn lemma_plain_commands_do_what_they_say(gd: GuildData)
    ensures
        !guild_edited_all(gd, plain_edits(Command::Stop)).run,
        !polls(guild_edited_all(gd, plain_edits(Command::Stop))),
        guild_edited_all(gd, plain_edits(Command::Start)).run,
        guild_edited_all(gd, plain_edits(Command::Update)).update_post,
        guild_edited_all(gd, plain_edits(Command::NewPost)).update_post,
        guild_edited_all(gd, plain_edits(Command::NewPost)).is_new_message,
        plain_reply(Command::Update) is None && plain_reply(Command::NewPost) is None,
        plain_reply(Command::Start) is Some && plain_reply(Command::Stop) is Some,
{
    reveal_with_fuel(guild_edited_all, 4);
    let stop = plain_edits(Command::Stop);
    assert(stop.drop_last() =~= Seq::<GuildDataEditableField>::empty());
    let start = plain_edits(Command::Start);
    assert(start.drop_last() =~= Seq::<GuildDataEditableField>::empty());
    let update = plain_edits(Command::Update);
    assert(update.drop_last() =~= Seq::<GuildDataEditableField>::empty());
    let np = plain_edits(Command::NewPost);
    assert(np.drop_last().drop_last() =~= Seq::<GuildDataEditableField>::empty());
    assert(np.drop_last() =~= seq![GuildDataEditableField::IsNewMessage(true)]);
}

/// What a command without argument does (`update`, `newpost`, `start`,
/// `stop`, `dev`); the other commands give `None`.
pub fn legacy_command_effect(c: &Command) -> (r: Option<Effect>)
    ensures
        r is Some <==> takes_no_argument(*c),
        r matches Some(e) ==> opt_text(e.reply) == plain_reply(*c),
        r matches Some(e) ==> (if *c is Dev {
            is_legacy_dev_edits(e.edits@)
        } else {
            e.edits@ == plain_edits(*c)
        }),
{
    let mut edits: Vec<GuildDataEditableField> = Vec::new();
    match c {
        Command::Update => {
            edits.push(GuildDataEditableField::UpdatePost(true));
            assert(edits@ =~= plain_edits(*c));
            Some(Effect { edits, reply: None })
        },
        Command::NewPost => {
            edits.push(GuildDataEditableField::IsNewMessage(true));
            edits.push(GuildDataEditableField::UpdatePost(true));
            assert(edits@ =~= plain_edits(*c));
            Some(Effect { edits, reply: None })
        },
        Command::Start => {
            edits.push(GuildDataEditableField::Run(true));
            assert(edits@ =~= plain_edits(*c));
            Some(Effect { edits, reply: Some("Mise en route".to_owned()) })
        },
        Command::Stop => {
            edits.push(GuildDataEditableField::Run(false));
            assert(edits@ =~= plain_edits(*c));
            Some(Effect { edits, reply: Some("Arr\u{ea}t".to_owned()) })
        },
        Command::Dev => Some(Effect { edits: legacy_dev_fields(), reply: Some("Dev ok !".to_owned()) }),
        _ => None,
    }
}

/// The channel that `dev` configures for tests.
pub const LEGACY_DEV_CHANNEL: u64 = 827206396361441331;

/// The edits of `dev`: a test channel and clan, and the shortest update
/// interval.
pub fn legacy_dev_fields() -> (r: Vec<GuildDataEditableField>)
    ensures
        is_legacy_dev_edits(r@),
{
    let mut r: Vec<GuildDataEditableField> = Vec::new();
    r.push(GuildDataEditableField::PostChannelId(Some(Id(LEGACY_DEV_CHANNEL))));
    r.push(GuildDataEditableField::ClanTag(Some("YLP9PVC9".to_owned())));
    r.push(GuildDataEditableField::UpdateInterval(TIME_FRAGMENTATION));
    r
}

} // verus!
