//! Clans of a river race, as the Clash Royale API describes them, and the
//! per-clan summary (`ClanInfo`) that the tracker shows in its posts.
use vstd::prelude::*;

use crate::text::{int_text, nat_text, push_int, push_nat, push_str, string_of};

verus! {

/// A player taking part in a river race, with the decks used today.
#[derive(Clone, Debug, PartialEq, Eq)]
pub struct Participant {
    pub tag: String,
    pub decks_used_today: i32,
}

/// A clan of a river race, as the API reports it.
#[derive(Clone, Debug, PartialEq, Eq)]
pub struct Clan {
    pub tag: String,
    pub name: String,
    pub participants: Vec<Participant>,
    pub period_points: i32,
}

/// The summary of one clan that a post shows.
#[derive(Clone, Debug, PartialEq, Eq)]
pub struct ClanInfo {
    pub name: String,
    pub decks_used: i32,
    pub participants: Vec<String>,
    pub period_points: i32,
    pub tag: String,
}

/// What a `ClanInfo` holds, as mathematical values.
pub struct ClanInfoView {
    pub name: Seq<char>,
    pub decks_used: i32,
    pub participants: Seq<Seq<char>>,
    pub period_points: i32,
    pub tag: Seq<char>,
}

/// The characters of each string of a sequence.
pub open spec fn texts(v: Seq<String>) -> Seq<Seq<char>> {
    v.map_values(|s: String| s@)
}

impl View for ClanInfo {
    type V = ClanInfoView;

    open spec fn view(&self) -> ClanInfoView {
        ClanInfoView {
            name: self.name@,
            decks_used: self.decks_used,
            participants: texts(self.participants@),
            period_points: self.period_points,
            tag: self.tag@,
        }
    }
}

/// How many decks the clan's participants may play in a day, as `usize`
/// arithmetic computes it.
pub open spec fn max_decks(participants: nat) -> usize {
    (participants * 4) as usize
}

/// The points a clan could reach if every remaining deck earned the
/// average, computed in `i32` arithmetic that wraps around, as the bot
/// is built.
pub open spec fn maximum_points_of(c: ClanInfoView) -> i32 {
    (c.period_points + (c.participants.len() * 4 - c.decks_used) * 800) as i32
}

/// The text of a clan's field in a post: decks used out of the decks
/// usable, the share used, the points, and the reachable points.
pub open spec fn field_text(c: ClanInfoView, pourcentage: u8) -> Seq<char> {
    "\u{2694}\u{2800}"@ + int_text(c.decks_used as int) + "/"@ + nat_text(
        max_decks(c.participants.len()) as nat,
    ) + "\u{2800}("@ + nat_text(pourcentage as nat) + "%)\n\u{1F3C5}\u{2800}"@ + int_text(
        c.period_points as int,
    ) + "\n\u{2B71}\u{2B71}\u{2800}"@ + int_text(maximum_points_of(c) as int)
}

/// The text of a clan's field in a post of the single-server bot: decks
/// used out of the decks usable, the share used, and the points.
pub open spec fn short_field_text(c: ClanInfoView, pourcentage: u8) -> Seq<char> {
    "\u{2694}\u{2800}"@ + int_text(c.decks_used as int) + "/"@ + nat_text(
        max_decks(c.participants.len()) as nat,
    ) + "\u{2800}("@ + nat_text(pourcentage as nat) + "%)\n\u{1F3C5}\u{2800}"@ + int_text(
        c.period_points as int,
    )
}

impl ClanInfo {
    pub fn new(
        name: String,
        decks_used: i32,
        participants: Vec<String>,
        period_points: i32,
        tag: String,
    ) -> (r: Self)
        ensures
            r.name == name,
            r.decks_used == decks_used,
            r.participants == participants,
            r.period_points == period_points,
            r.tag == tag,
    {
        ClanInfo { name, decks_used, participants, period_points, tag }
    }

    /// Decks the participants may play in a day: four each.
    pub fn max_deck_usable(&self) -> (r: usize)
        ensures
            r == max_decks(self.participants@.len()),
    {
        let n: u128 = self.participants.len() as u128;
        (n * 4) as usize
    }

    /// The points the clan could reach if each deck left earned 800.
    pub fn maximum_points(&self) -> (r: i32)
        ensures
            r == maximum_points_of(self@),
    {
        let n: i128 = self.participants.len() as i128;
        let exact: i128 = self.period_points as i128 + (n * 4 - self.decks_used as i128) * 800;
        exact as i32
    }

    /// The field of the clan in a post: its name, the summary text, and
    /// `true` (fields are shown inline). `pourcentage` is the share of
    /// usable decks already used.
    pub fn to_field(&self, pourcentage: u8) -> (r: (String, String, bool))
        ensures
            r.0@ == self.name@,
            r.1@ == field_text(self@, pourcentage),
            r.2,
    {
        let mut t: Vec<char> = Vec::new();
        push_str(&mut t, "\u{2694}\u{2800}");
        push_int(&mut t, self.decks_used as i64);
        push_str(&mut t, "/");
        push_nat(&mut t, self.max_deck_usable() as u64);
        push_str(&mut t, "\u{2800}(");
        push_nat(&mut t, pourcentage as u64);
        push_str(&mut t, "%)\n\u{1F3C5}\u{2800}");
        push_int(&mut t, self.period_points as i64);
        push_str(&mut t, "\n\u{2B71}\u{2B71}\u{2800}");
        push_int(&mut t, self.maximum_points() as i64);
        assert(t@ =~= field_text(self@, pourcentage));
        (self.name.clone(), string_of(t.as_slice()), true)
    }

    /// The field of the clan in a post of the single-server bot, which
    /// does not show the reachable points.
    pub fn to_short_field(&self, pourcentage: u8) -> (r: (String, String, bool))
        ensures
            r.0@ == self.name@,
            r.1@ == short_field_text(self@, pourcentage),
            r.2,
    {
        let mut t: Vec<char> = Vec::new();
        push_str(&mut t, "\u{2694}\u{2800}");
        push_int(&mut t, self.decks_used as i64);
        push_str(&mut t, "/");
        push_nat(&mut t, self.max_deck_usable() as u64);
        push_str(&mut t, "\u{2800}(");
        push_nat(&mut t, pourcentage as u64);
        push_str(&mut t, "%)\n\u{1F3C5}\u{2800}");
        push_int(&mut t, self.period_points as i64);
        assert(t@ =~= short_field_text(self@, pourcentage));
        (self.name.clone(), string_of(t.as_slice()), true)
    }
}

} // verus!
