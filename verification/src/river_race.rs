//! A river race and the standings that the tracker posts for it: each
//! clan's summary, restricted to the players still in the clan, the clan
//! that can reach the most points crowned, and the clans ranked for the
//! current phase.
use vstd::prelude::*;

use crate::clan::{ClanInfo, ClanInfoView, Clan, Participant, maximum_points_of, texts};
use crate::text::{chars_of, int_text, push_chars, push_int, push_str, string_of};

verus! {

broadcast use {vstd::seq_lib::group_to_multiset_ensures};

/// The phase of a river race.
#[derive(Clone, Copy, PartialEq, Eq, Structural, Debug)]
pub enum Period {
    Training,
    War,
}

/// The phase that the API's `periodType` names: `warDay` is a war day,
/// anything else a training day.
pub open spec fn period_named(name: Seq<char>) -> Period {
    if name == "warDay"@ {
        Period::War
    } else {
        Period::Training
    }
}

impl Period {
    /// The phase named by the API's `periodType` text.
    pub fn from_api_name(name: &str) -> (r: Period)
        ensures
            r == period_named(name@),
    {
        let given = name.to_owned();
        let war = "warDay".to_owned();
        if given == war {
            Period::War
        } else {
            Period::Training
        }
    }
}

impl From<String> for Period {
    fn from(name: String) -> (r: Period) {
        Period::from_api_name(name.as_str())
    }
}

impl vstd::std_specs::convert::FromSpecImpl<String> for Period {
    open spec fn obeys_from_spec() -> bool {
        true
    }

    open spec fn from_spec(name: String) -> Period {
        period_named(name@)
    }
}

/// The current river race of a clan.
#[derive(Clone, Debug, PartialEq, Eq)]
pub struct RiverRace {
    pub clans: Vec<Clan>,
    pub section_index: i32,
    pub period_index: i32,
    pub period_type: Period,
}

/// A member of a clan, as the members endpoint lists it.
#[derive(Clone, Debug, PartialEq, Eq)]
pub struct Member {
    pub tag: String,
}

/// The envelope in which the API wraps lists.
#[derive(Clone, Debug, PartialEq, Eq)]
pub struct Items<T> {
    pub items: Vec<T>,
}

impl<T> Items<T> {
    pub fn into_vec(self) -> (r: Vec<T>)
        ensures
            r == self.items,
    {
        self.items
    }
}

/// A log of past periods (the bot reads none of its fields).
#[derive(Clone, Debug, PartialEq, Eq)]
pub struct Log {}

/// An entry of a period log (the bot reads none of its fields).
#[derive(Clone, Debug, PartialEq, Eq)]
pub struct Item {}

/// A clan inside a period log entry (the bot reads none of its fields).
#[derive(Clone, Debug, PartialEq, Eq)]
pub struct ItemClan {}

/// A player's arena (the bot reads none of its fields).
#[derive(Clone, Debug, PartialEq, Eq)]
pub struct Arena {}

/// The players currently in a clan, as fetched from the members endpoint.
#[derive(Clone, Debug, PartialEq, Eq)]
pub struct Roster {
    pub tag: String,
    pub members: Vec<String>,
}

impl Roster {
    /// The roster of clan `tag` from the members endpoint's reply.
    pub fn from_items(tag: String, items: Items<Member>) -> (r: Roster)
        ensures
            r.tag == tag,
            texts(r.members@) == items.items@.map_values(|m: Member| m.tag@),
    {
        let members = items.into_vec();
        let mut tags: Vec<String> = Vec::new();
        let mut i: usize = 0;
        while i < members.len()
            invariant
                i <= members@.len(),
                texts(tags@) == members@.subrange(0, i as int).map_values(|m: Member| m.tag@),
            decreases members@.len() - i,
        {
            let ghost before = tags@;
            tags.push(members[i].tag.clone());
            proof {
                assert(tags@ =~= before.push(members@[i as int].tag));
                assert(texts(tags@) =~= texts(before).push(members@[i as int].tag@));
                assert(members@.subrange(0, i + 1).map_values(|m: Member| m.tag@) =~= members@.subrange(
                    0,
                    i as int,
                ).map_values(|m: Member| m.tag@).push(members@[i as int].tag@));
            }
            i = i + 1;
        }
        assert(members@.subrange(0, members@.len() as int) =~= members@);
        Roster { tag, members: tags }
    }
}

/// The decks the participants used today, summed.
pub open spec fn decks_total(ps: Seq<Participant>) -> int
    decreases ps.len(),
{
    if ps.len() == 0 {
        0
    } else {
        decks_total(ps.drop_last()) + ps.last().decks_used_today
    }
}

/// The summary of a clan: its decks used today summed in `i32`
/// arithmetic that wraps around, and its participants' tags in order.
pub open spec fn info_of(c: Clan) -> ClanInfoView {
    ClanInfoView {
        name: c.name@,
        decks_used: decks_total(c.participants@) as i32,
        participants: c.participants@.map_values(|p: Participant| p.tag@),
        period_points: c.period_points,
        tag: c.tag@,
    }
}

/// The views of a sequence of clan summaries.
pub open spec fn info_views(v: Seq<ClanInfo>) -> Seq<ClanInfoView> {
    v.map_values(|c: ClanInfo| c@)
}

/// The members listed by the last roster fetched for `tag`, if any.
pub open spec fn last_roster(rs: Seq<Roster>, tag: Seq<char>) -> Option<Seq<Seq<char>>>
    decreases rs.len(),
{
    if rs.len() == 0 {
        None
    } else if rs.last().tag@ == tag {
        Some(texts(rs.last().members@))
    } else {
        last_roster(rs.drop_last(), tag)
    }
}

/// Whether clan `i` is the first of `cs` with its tag.
pub open spec fn first_of_tag(cs: Seq<ClanInfoView>, i: int) -> bool {
    forall|j: int| 0 <= j < i ==> cs[j].tag != cs[i].tag
}

/// The participants that are among `members`, in their order.
pub open spec fn only_members(ps: Seq<Seq<char>>, members: Seq<Seq<char>>) -> Seq<Seq<char>>
    decreases ps.len(),
{
    if ps.len() == 0 {
        Seq::empty()
    } else if members.contains(ps.last()) {
        only_members(ps.drop_last(), members).push(ps.last())
    } else {
        only_members(ps.drop_last(), members)
    }
}

/// The roster that applies to clan `i`: the last one fetched for its
/// tag, and only for the first clan with that tag.
pub open spec fn roster_for(cs: Seq<ClanInfoView>, rs: Seq<Roster>, i: int) -> Option<
    Seq<Seq<char>>,
> {
    if first_of_tag(cs, i) {
        last_roster(rs, cs[i].tag)
    } else {
        None
    }
}

/// The clans with only the participants still in their clan, where a
/// roster for the clan was fetched.
pub open spec fn kept(cs: Seq<ClanInfoView>, rs: Seq<Roster>) -> Seq<ClanInfoView> {
    Seq::new(
        cs.len(),
        |i: int|
            match roster_for(cs, rs, i) {
                Some(m) => ClanInfoView { participants: only_members(cs[i].participants, m), ..cs[i] },
                None => cs[i],
            },
    )
}

/// The index of the clan that can reach the most points among the
/// first `n`; the last one when several tie.
pub open spec fn best_index(cs: Seq<ClanInfoView>, n: int) -> int
    decreases n,
{
    if n <= 1 {
        0
    } else {
        let b = best_index(cs, n - 1);
        if maximum_points_of(cs[n - 1]) >= maximum_points_of(cs[b]) {
            n - 1
        } else {
            b
        }
    }
}

/// The mark added to the name of the crowned clan.
pub open spec fn crown_mark() -> Seq<char> {
    "\u{2800}\u{1F451}"@
}

/// The clans with the one that can reach the most points crowned.
pub open spec fn crowned(cs: Seq<ClanInfoView>) -> Seq<ClanInfoView> {
    let k = best_index(cs, cs.len() as int);
    cs.update(k, ClanInfoView { name: cs[k].name + crown_mark(), ..cs[k] })
}

/// What the clans are ranked by: decks used on training days, points
/// on war days.
pub open spec fn rank_key(c: ClanInfoView, p: Period) -> i32 {
    match p {
        Period::Training => c.decks_used,
        Period::War => c.period_points,
    }
}

/// Whether the clans are ranked from the highest key to the lowest.
pub open spec fn ranked(cs: Seq<ClanInfoView>, p: Period) -> bool {
    forall|i: int, j: int| 0 <= i < j < cs.len() ==> rank_key(cs[i], p) >= rank_key(cs[j], p)
}

/// The number of the day that the post's footer shows: war days count
/// from the fourth period of a section, training days from its first,
/// in `i32` arithmetic that wraps around.
pub open spec fn day_number(p: Period, period_index: i32, section_index: i32) -> i32 {
    match p {
        Period::War => (period_index - section_index * 7 - 2) as i32,
        Period::Training => (period_index - section_index * 7 + 1) as i32,
    }
}

/// The footer of a post.
pub open spec fn footer_text(p: Period, period_index: i32, section_index: i32) -> Seq<char> {
    match p {
        Period::War => "Jour de combat n\u{b0}"@ + int_text(
            day_number(p, period_index, section_index) as int,
        ),
        Period::Training => "Jour d'entrainement n\u{b0}"@ + int_text(
            day_number(p, period_index, section_index) as int,
        ),
    }
}

/// `s` without its `#` characters.
pub open spec fn without_hash(s: Seq<char>) -> Seq<char>
    decreases s.len(),
{
    if s.len() == 0 {
        s
    } else if s.last() == '#' {
        without_hash(s.drop_last())
    } else {
        without_hash(s.drop_last()).push(s.last())
    }
}

/// The API address of a clan's current river race.
pub open spec fn river_race_url_text(tag: Seq<char>) -> Seq<char> {
    "https://api.clashroyale.com/v1/clans/%23"@ + without_hash(tag) + "/currentriverrace"@
}

/// The API address of a clan's member list.
pub open spec fn members_url_text(tag: Seq<char>) -> Seq<char> {
    "https://api.clashroyale.com/v1/clans/%23"@ + without_hash(tag) + "/members"@
}

/// Only `warDay` names a war day: every other period type the API gives
/// (training days, the colosseum week, anything new) is read as training.
pub proof fn lemma_only_war_day_is_war(name: Seq<char>)
    ensures
        period_named(name) == Period::War <==> name == "warDay"@,
        name != "warDay"@ ==> period_named(name) == Period::Training,
{
}

/// The roster found for a tag is the last one fetched for it: it has the
/// tag, lists the members given, and no later roster has the tag; none is
/// found exactly when no roster has the tag.
pub proof fn lemma_last_roster_is_latest(rs: Seq<Roster>, tag: Seq<char>)
    ensures
        last_roster(rs, tag) is None <==> forall|j: int| 0 <= j < rs.len() ==> #[trigger] rs[j].tag@ != tag,
        last_roster(rs, tag) is Some ==> exists|k: int|
            0 <= k < rs.len() && #[trigger] rs[k].tag@ == tag && last_roster(rs, tag) == Some(
                texts(rs[k].members@),
            ) && forall|j: int| k < j < rs.len() ==> rs[j].tag@ != tag,
    decreases rs.len(),
{
    if rs.len() > 0 {
        let n = rs.len() - 1;
        lemma_last_roster_is_latest(rs.drop_last(), tag);
        if rs.last().tag@ == tag {
            assert(rs[n].tag@ == tag);
        } else {
            assert forall|j: int| 0 <= j < rs.drop_last().len() implies #[trigger] rs[j] == rs.drop_last()[j] by {}
            if last_roster(rs, tag) is Some {
                let k = choose|k: int|
                    0 <= k < rs.drop_last().len() && #[trigger] rs.drop_last()[k].tag@ == tag
                        && last_roster(rs.drop_last(), tag) == Some(texts(rs.drop_last()[k].members@))
                        && forall|j: int| k < j < rs.drop_last().len() ==> rs.drop_last()[j].tag@ != tag;
                assert(rs[k] == rs.drop_last()[k]);
                assert forall|j: int| k < j < rs.len() implies rs[j].tag@ != tag by {
                    if j < n {
                        assert(rs[j] == rs.drop_last()[j]);
                    }
                }
            } else {
                assert forall|j: int| 0 <= j < rs.len() implies #[trigger] rs[j].tag@ != tag by {
                    if j < n {
                        assert(rs[j] == rs.drop_last()[j]);
                    }
                }
            }
        }
    }
}

/// Only the first clan with a given tag is restricted to its members, by
/// the last roster fetched for that tag; a later clan with the same tag,
/// or a clan for which no roster was fetched, is kept as it is; a clan
/// keeps its name, tag, decks and points, and the clans keep their order.
pub proof fn lemma_kept_clans(cs: Seq<ClanInfoView>, rs: Seq<Roster>)
    ensures
        kept(cs, rs).len() == cs.len(),
        forall|i: int|
            #![trigger kept(cs, rs)[i]]
            0 <= i < cs.len() ==> {
                let k = kept(cs, rs)[i];
                &&& k.name == cs[i].name && k.tag == cs[i].tag && k.decks_used == cs[i].decks_used
                    && k.period_points == cs[i].period_points
                &&& (exists|j: int| 0 <= j < i && cs[j].tag == cs[i].tag) ==> k == cs[i]
                &&& last_roster(rs, cs[i].tag) is None ==> k == cs[i]
                &&& (forall|j: int| 0 <= j < i ==> cs[j].tag != cs[i].tag) ==> (last_roster(
                    rs,
                    cs[i].tag,
                ) matches Some(m) ==> k.participants == only_members(cs[i].participants, m))
            },
{
}

/// A tag in an API address loses its `#` characters and keeps all the
/// others, in order.
pub proof fn lemma_without_hash_drops_only_hashes(s: Seq<char>)
    ensures
        without_hash(s) == s.filter(|c: char| c != '#'),
    decreases s.len(),
{
    reveal(Seq::filter);
    if s.len() > 0 {
        lemma_without_hash_drops_only_hashes(s.drop_last());
    }
}

/// The ranking key of each phase: on war days the clans come out by
/// points, highest first; on training days by decks used, most first.
pub proof fn lemma_ranking_keys(cs: Seq<ClanInfoView>)
    ensures
        ranked(cs, Period::War) <==> forall|i: int, j: int|
            0 <= i < j < cs.len() ==> cs[i].period_points >= cs[j].period_points,
        ranked(cs, Period::Training) <==> forall|i: int, j: int|
            0 <= i < j < cs.len() ==> cs[i].decks_used >= cs[j].decks_used,
{
}

/// A roster keeps exactly the participants it lists, in their order:
/// a participant remains when, and only when, the roster lists it, and
/// no one is added.
pub proof fn lemma_only_members_exact(ps: Seq<Seq<char>>, members: Seq<Seq<char>>)
    ensures
        forall|x: Seq<char>|
            #[trigger] only_members(ps, members).contains(x) <==> (ps.contains(x)
                && members.contains(x)),
        only_members(ps, members).len() <= ps.len(),
        only_members(ps, members) == ps.filter(|p: Seq<char>| members.contains(p)),
    decreases ps.len(),
{
    reveal(Seq::filter);
    if ps.len() > 0 {
        lemma_only_members_exact(ps.drop_last(), members);
        assert forall|x: Seq<char>| #[trigger]
            only_members(ps, members).contains(x) <==> (ps.contains(x) && members.contains(x)) by {
            if ps.contains(x) && !ps.drop_last().contains(x) {
                let k = choose|k: int| 0 <= k < ps.len() && ps[k] == x;
                if k < ps.len() - 1 {
                    assert(ps.drop_last()[k] == x);
                }
            }
            if ps.drop_last().contains(x) {
                let k = choose|k: int| 0 <= k < ps.drop_last().len() && ps.drop_last()[k] == x;
                assert(ps[k] == x);
            }
            if members.contains(ps.last()) {
                let o = only_members(ps.drop_last(), members);
                if o.contains(x) {
                    let k = choose|k: int| 0 <= k < o.len() && o[k] == x;
                    assert(o.push(ps.last())[k] == x);
                }
                if x == ps.last() {
                    assert(o.push(ps.last())[o.len() as int] == x);
                }
                if o.push(ps.last()).contains(x) && x != ps.last() {
                    let k = choose|k: int| 0 <= k < o.len() + 1 && o.push(ps.last())[k] == x;
                    assert(o[k] == x);
                }
            }
        }
    }
}

fn push_without_hash(out: &mut Vec<char>, tag: &str)
    ensures
        final(out)@ == old(out)@ + without_hash(tag@),
{
    let cs = chars_of(tag);
    let ghost start = out@;
    let mut i: usize = 0;
    while i < cs.len()
        invariant
            i <= cs@.len(),
            cs@ == tag@,
            out@ == start + without_hash(cs@.subrange(0, i as int)),
        decreases cs@.len() - i,
    {
        assert(cs@.subrange(0, i + 1).drop_last() =~= cs@.subrange(0, i as int));
        if cs[i] != '#' {
            out.push(cs[i]);
        }
        i = i + 1;
        assert(out@ =~= start + without_hash(cs@.subrange(0, i as int)));
    }
    assert(cs@.subrange(0, cs@.len() as int) =~= cs@);
}

/// The address of a clan's current river race on the API.
pub fn river_race_url(tag: &str) -> (r: String)
    ensures
        r@ == river_race_url_text(tag@),
{
    let mut v: Vec<char> = Vec::new();
    push_str(&mut v, "https://api.clashroyale.com/v1/clans/%23");
    push_without_hash(&mut v, tag);
    push_str(&mut v, "/currentriverrace");
    assert(v@ =~= river_race_url_text(tag@));
    string_of(v.as_slice())
}

/// The address of a clan's member list on the API.
pub fn members_url(tag: &str) -> (r: String)
    ensures
        r@ == members_url_text(tag@),
{
    let mut v: Vec<char> = Vec::new();
    push_str(&mut v, "https://api.clashroyale.com/v1/clans/%23");
    push_without_hash(&mut v, tag);
    push_str(&mut v, "/members");
    assert(v@ =~= members_url_text(tag@));
    string_of(v.as_slice())
}

fn clone_strings(v: &Vec<String>) -> (r: Vec<String>)
    ensures
        r@ == v@,
{
    let mut r: Vec<String> = Vec::new();
    let mut i: usize = 0;
    while i < v.len()
        invariant
            i <= v@.len(),
            r@ == v@.subrange(0, i as int),
        decreases v@.len() - i,
    {
        r.push(v[i].clone());
        i = i + 1;
        assert(r@ =~= v@.subrange(0, i as int));
    }
    assert(v@.subrange(0, v@.len() as int) =~= v@);
    r
}

fn clone_info(c: &ClanInfo) -> (r: ClanInfo)
    ensures
        r@ == c@,
{
    ClanInfo {
        name: c.name.clone(),
        decks_used: c.decks_used,
        participants: clone_strings(&c.participants),
        period_points: c.period_points,
        tag: c.tag.clone(),
    }
}

fn decks_sum(ps: &Vec<Participant>) -> (r: i32)
    ensures
        r == decks_total(ps@) as i32,
{
    let mut acc: i128 = 0;
    let mut i: usize = 0;
    while i < ps.len()
        invariant
            i <= ps@.len(),
            acc == decks_total(ps@.subrange(0, i as int)),
            -(i as int) * 2147483648 <= acc <= (i as int) * 2147483647,
        decreases ps@.len() - i,
    {
        assert(ps@.subrange(0, i + 1).drop_last() =~= ps@.subrange(0, i as int));
        acc = acc + ps[i].decks_used_today as i128;
        i = i + 1;
    }
    assert(ps@.subrange(0, ps@.len() as int) =~= ps@);
    acc as i32
}

fn participant_tags(ps: &Vec<Participant>) -> (r: Vec<String>)
    ensures
        texts(r@) == ps@.map_values(|p: Participant| p.tag@),
{
    let mut r: Vec<String> = Vec::new();
    let mut i: usize = 0;
    while i < ps.len()
        invariant
            i <= ps@.len(),
            texts(r@) == ps@.subrange(0, i as int).map_values(|p: Participant| p.tag@),
        decreases ps@.len() - i,
    {
        let ghost before = r@;
        r.push(ps[i].tag.clone());
        proof {
            assert(r@ =~= before.push(ps@[i as int].tag));
            assert(texts(r@) =~= texts(before).push(ps@[i as int].tag@));
            assert(ps@.subrange(0, i + 1).map_values(|p: Participant| p.tag@) =~= ps@.subrange(
                0,
                i as int,
            ).map_values(|p: Participant| p.tag@).push(ps@[i as int].tag@));
        }
        i = i + 1;
    }
    assert(ps@.subrange(0, ps@.len() as int) =~= ps@);
    r
}

fn contains_string(v: &Vec<String>, s: &String) -> (b: bool)
    ensures
        b == texts(v@).contains(s@),
{
    let mut i: usize = 0;
    while i < v.len()
        invariant
            i <= v@.len(),
            forall|j: int| 0 <= j < i ==> v@[j]@ != s@,
        decreases v@.len() - i,
    {
        if v[i] == *s {
            assert(texts(v@)[i as int] == s@);
            return true;
        }
        i = i + 1;
    }
    assert(!texts(v@).contains(s@)) by {
        if texts(v@).contains(s@) {
            let k = choose|k: int| 0 <= k < texts(v@).len() && texts(v@)[k] == s@;
            assert(v@[k]@ == s@);
        }
    }
    false
}

fn keep_members(ps: &Vec<String>, members: &Vec<String>) -> (r: Vec<String>)
    ensures
        texts(r@) == only_members(texts(ps@), texts(members@)),
{
    let mut r: Vec<String> = Vec::new();
    let mut i: usize = 0;
    while i < ps.len()
        invariant
            i <= ps@.len(),
            texts(r@) == only_members(texts(ps@.subrange(0, i as int)), texts(members@)),
        decreases ps@.len() - i,
    {
        assert(texts(ps@.subrange(0, i + 1)).drop_last() =~= texts(ps@.subrange(0, i as int)));
        assert(texts(ps@.subrange(0, i + 1)).last() == ps@[i as int]@);
        if contains_string(members, &ps[i]) {
            r.push(ps[i].clone());
            assert(texts(r@) =~= only_members(texts(ps@.subrange(0, i + 1)), texts(members@)));
        }
        i = i + 1;
    }
    assert(ps@.subrange(0, ps@.len() as int) =~= ps@);
    r
}

fn find_last_roster(rs: &Vec<Roster>, tag: &String) -> (r: Option<usize>)
    ensures
        match r {
            Some(k) => k < rs@.len() && last_roster(rs@, tag@) == Some(texts(rs@[k as int].members@)),
            None => last_roster(rs@, tag@) is None,
        },
{
    let mut i: usize = rs.len();
    assert(rs@.subrange(0, i as int) =~= rs@);
    while i > 0
        invariant
            i <= rs@.len(),
            last_roster(rs@, tag@) == last_roster(rs@.subrange(0, i as int), tag@),
        decreases i,
    {
        let ghost pre = rs@.subrange(0, i as int);
        assert(pre.drop_last() =~= rs@.subrange(0, i - 1));
        assert(pre.last() == rs@[i - 1]);
        if rs[i - 1].tag == *tag {
            return Some(i - 1);
        }
        i = i - 1;
    }
    assert(rs@.subrange(0, 0) =~= Seq::<Roster>::empty());
    None
}

fn is_first_of_tag(cs: &Vec<ClanInfo>, i: usize) -> (b: bool)
    requires
        i < cs@.len(),
    ensures
        b == first_of_tag(info_views(cs@), i as int),
{
    let mut j: usize = 0;
    while j < i
        invariant
            i < cs@.len(),
            j <= i,
            forall|k: int| 0 <= k < j ==> cs@[k].tag@ != cs@[i as int].tag@,
        decreases i - j,
    {
        if cs[j].tag == cs[i].tag {
            assert(info_views(cs@)[j as int].tag == info_views(cs@)[i as int].tag);
            return false;
        }
        j = j + 1;
    }
    true
}

/// Restricts each clan's participants to the players still in the clan:
/// for the first clan with a given tag, and where a roster for that tag
/// was fetched (the last one when several were), only the participants
/// that the roster lists are kept, in their order.
pub fn keep_current_members(clans: &Vec<ClanInfo>, rosters: &Vec<Roster>) -> (r: Vec<ClanInfo>)
    ensures
        info_views(r@) == kept(info_views(clans@), rosters@),
{
    let ghost cs = info_views(clans@);
    let mut r: Vec<ClanInfo> = Vec::new();
    let mut i: usize = 0;
    while i < clans.len()
        invariant
            i <= clans@.len(),
            cs == info_views(clans@),
            info_views(r@) == kept(cs, rosters@).subrange(0, i as int),
        decreases clans@.len() - i,
    {
        let c = &clans[i];
        let mut found: Option<usize> = None;
        if is_first_of_tag(clans, i) {
            found = find_last_roster(rosters, &c.tag);
        }
        let next = match found {
            Some(k) => ClanInfo {
                name: c.name.clone(),
                decks_used: c.decks_used,
                participants: keep_members(&c.participants, &rosters[k].members),
                period_points: c.period_points,
                tag: c.tag.clone(),
            },
            None => clone_info(c),
        };
        proof {
            assert(cs[i as int] == c@);
            assert(next@ == kept(cs, rosters@)[i as int]);
        }
        let ghost before = r@;
        r.push(next);
        proof {
            assert(r@ =~= before.push(next));
            assert(info_views(r@) =~= info_views(before).push(next@));
        }
        i = i + 1;
        assert(info_views(r@) =~= kept(cs, rosters@).subrange(0, i as int));
    }
    assert(kept(cs, rosters@).subrange(0, clans@.len() as int) =~= kept(cs, rosters@));
    r
}

proof fn lemma_best_index_bounds(cs: Seq<ClanInfoView>, n: int)
    requires
        1 <= n <= cs.len(),
    ensures
        0 <= best_index(cs, n) < n,
        forall|j: int|
            0 <= j < n ==> maximum_points_of(#[trigger] cs[j]) <= maximum_points_of(
                cs[best_index(cs, n)],
            ),
        forall|j: int|
            best_index(cs, n) < j < n ==> maximum_points_of(#[trigger] cs[j]) < maximum_points_of(
                cs[best_index(cs, n)],
            ),
    decreases n,
{
    if n > 1 {
        lemma_best_index_bounds(cs, n - 1);
    }
}

/// Crowns the clan that can reach the most points (the last of them when
/// several tie) by appending the crown mark to its name.
pub fn crown_best(clans: &mut Vec<ClanInfo>)
    requires
        old(clans)@.len() > 0,
    ensures
        info_views(final(clans)@) == crowned(info_views(old(clans)@)),
        ({
            let cs = info_views(old(clans)@);
            let k = best_index(cs, cs.len() as int);
            &&& 0 <= k < cs.len()
            &&& forall|j: int|
                0 <= j < cs.len() ==> maximum_points_of(#[trigger] cs[j]) <= maximum_points_of(
                    cs[k],
                )
            &&& forall|j: int|
                k < j < cs.len() ==> maximum_points_of(#[trigger] cs[j]) < maximum_points_of(cs[k])
        }),
{
    let ghost cs = info_views(clans@);
    proof {
        lemma_best_index_bounds(cs, cs.len() as int);
    }
    let n = clans.len();
    let mut best: usize = 0;
    let mut best_points: i32 = clans[0].maximum_points();
    let mut i: usize = 1;
    while i < n
        invariant
            n == clans@.len(),
            cs == info_views(clans@),
            1 <= i <= n,
            best == best_index(cs, i as int),
            best < n,
            best_points == maximum_points_of(cs[best as int]),
        decreases n - i,
    {
        let p = clans[i].maximum_points();
        if p >= best_points {
            best = i;
            best_points = p;
        }
        i = i + 1;
    }
    let old_best = clone_info(&clans[best]);
    let mut name = chars_of(old_best.name.as_str());
    push_str(&mut name, "\u{2800}\u{1F451}");
    let c = ClanInfo {
        name: string_of(name.as_slice()),
        decks_used: old_best.decks_used,
        participants: old_best.participants,
        period_points: old_best.period_points,
        tag: old_best.tag,
    };
    clans.set(best, c);
    assert(info_views(clans@) =~= crowned(cs));
}

fn rank_of(c: &ClanInfo, p: Period) -> (k: i32)
    ensures
        k == rank_key(c@, p),
{
    match p {
        Period::Training => c.decks_used,
        Period::War => c.period_points,
    }
}

/// Ranks the clans from the highest key of the period to the lowest
/// (decks used on training days, points on war days); the clans are the
/// same, only their order changes.
pub fn rank_for_period(clans: Vec<ClanInfo>, p: Period) -> (r: Vec<ClanInfo>)
    ensures
        info_views(r@).to_multiset() == info_views(clans@).to_multiset(),
        ranked(info_views(r@), p),
{
    let mut rest = clans;
    let mut r: Vec<ClanInfo> = Vec::new();
    let ghost all = info_views(rest@);
    proof {
        assert(info_views(r@) =~= Seq::<ClanInfoView>::empty());
    }
    while rest.len() > 0
        invariant
            info_views(r@).to_multiset().add(info_views(rest@).to_multiset()) == all.to_multiset(),
            ranked(info_views(r@), p),
        decreases rest@.len(),
    {
        let ghost rest0 = info_views(rest@);
        let x = rest.remove(0);
        proof {
            assert(info_views(rest@) =~= rest0.remove(0));
            vstd::seq_lib::to_multiset_remove(rest0, 0);
        }
        let kx = rank_of(&x, p);
        let mut j: usize = 0;
        while j < r.len() && rank_of(&r[j], p) >= kx
            invariant
                j <= r@.len(),
                forall|k: int| 0 <= k < j ==> rank_key(#[trigger] r@[k]@, p) >= kx,
            decreases r@.len() - j,
        {
            j = j + 1;
        }
        let ghost r0 = info_views(r@);
        let ghost xv = x@;
        assert(forall|k: int| 0 <= k < j ==> rank_key(#[trigger] r0[k], p) >= kx);
        assert(j < r0.len() ==> rank_key(r0[j as int], p) < kx);
        r.insert(j, x);
        proof {
            assert(info_views(r@) =~= r0.insert(j as int, xv));
            vstd::seq_lib::to_multiset_insert(r0, j as int, xv);
            let s = info_views(r@);
            assert forall|a: int, b: int| 0 <= a < b < s.len() implies rank_key(s[a], p)
                >= rank_key(s[b], p) by {
                if b < j {
                    assert(s[a] == r0[a] && s[b] == r0[b]);
                } else if b == j {
                    assert(s[a] == r0[a]);
                } else if a < j {
                    assert(s[a] == r0[a] && s[b] == r0[b - 1]);
                    assert(rank_key(r0[j as int], p) < kx);
                } else if a == j {
                    assert(s[b] == r0[b - 1]);
                    assert(rank_key(r0[j as int], p) < kx);
                } else {
                    assert(s[a] == r0[a - 1] && s[b] == r0[b - 1]);
                }
            }
            assert(rest0.to_multiset() == info_views(rest@).to_multiset().insert(xv));
        }
    }
    proof {
        assert(info_views(rest@) =~= Seq::<ClanInfoView>::empty());
    }
    r
}

impl RiverRace {
    /// The summary of each clan, in order: its name, tag, points, the
    /// tags of its participants and the decks they used today summed.
    pub fn get_clan_info(&self) -> (r: Vec<ClanInfo>)
        ensures
            info_views(r@) == self.clans@.map_values(|c: Clan| info_of(c)),
    {
        let mut r: Vec<ClanInfo> = Vec::new();
        let mut i: usize = 0;
        while i < self.clans.len()
            invariant
                i <= self.clans@.len(),
                info_views(r@) == self.clans@.subrange(0, i as int).map_values(
                    |c: Clan| info_of(c),
                ),
            decreases self.clans@.len() - i,
        {
            let clan = &self.clans[i];
            let decks_used_today = decks_sum(&clan.participants);
            let info = ClanInfo::new(
                clan.name.clone(),
                decks_used_today,
                participant_tags(&clan.participants),
                clan.period_points,
                clan.tag.clone(),
            );
            let ghost before = r@;
            let ghost iv = info@;
            r.push(info);
            proof {
                assert(r@ =~= before.push(info));
                assert(info_views(r@) =~= info_views(before).push(iv));
                assert(iv == info_of(self.clans@[i as int]));
                assert(self.clans@.subrange(0, i + 1).map_values(|c: Clan| info_of(c))
                    =~= self.clans@.subrange(0, i as int).map_values(|c: Clan| info_of(c)).push(
                    info_of(self.clans@[i as int]),
                ));
            }
            i = i + 1;
        }
        assert(self.clans@.subrange(0, self.clans@.len() as int) =~= self.clans@);
        r
    }

    /// The standings to post: the clans' summaries restricted to their
    /// current members (`rosters` are the member lists fetched), the clan
    /// that can reach the most points crowned, ranked for the phase.
    pub fn standings(&self, rosters: &Vec<Roster>) -> (r: Vec<ClanInfo>)
        requires
            self.clans@.len() > 0,
        ensures
            info_views(r@).to_multiset() == crowned(
                kept(self.clans@.map_values(|c: Clan| info_of(c)), rosters@),
            ).to_multiset(),
            ranked(info_views(r@), self.period_type),
    {
        let infos = self.get_clan_info();
        let mut current = keep_current_members(&infos, rosters);
        crown_best(&mut current);
        rank_for_period(current, self.period_type)
    }

    /// The standings of the single-server bot: the clans' summaries
    /// restricted to their current members, ranked by points.
    pub fn legacy_standings(&self, rosters: &Vec<Roster>) -> (r: Vec<ClanInfo>)
        ensures
            info_views(r@).to_multiset() == kept(
                self.clans@.map_values(|c: Clan| info_of(c)),
                rosters@,
            ).to_multiset(),
            ranked(info_views(r@), Period::War),
    {
        let infos = self.get_clan_info();
        let current = keep_current_members(&infos, rosters);
        rank_for_period(current, Period::War)
    }

    /// The number of the current day, as the footer shows it.
    pub fn day(&self) -> (d: i32)
        ensures
            d == day_number(self.period_type, self.period_index, self.section_index),
    {
        let exact: i64 = match self.period_type {
            Period::War => self.period_index as i64 - self.section_index as i64 * 7 - 2,
            Period::Training => self.period_index as i64 - self.section_index as i64 * 7 + 1,
        };
        exact as i32
    }

    /// The footer of the post: which day of war or training it is.
    pub fn footer(&self) -> (s: String)
        ensures
            s@ == footer_text(self.period_type, self.period_index, self.section_index),
    {
        let mut v: Vec<char> = Vec::new();
        match self.period_type {
            Period::War => push_str(&mut v, "Jour de combat n\u{b0}"),
            Period::Training => push_str(&mut v, "Jour d'entrainement n\u{b0}"),
        }
        push_int(&mut v, self.day() as i64);
        assert(v@ =~= footer_text(self.period_type, self.period_index, self.section_index));
        string_of(v.as_slice())
    }
}

} // verus!
