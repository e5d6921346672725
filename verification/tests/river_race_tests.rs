use plin::clan::{Clan, ClanInfo, Participant};
use plin::river_race::{
    crown_best, keep_current_members, members_url, rank_for_period, river_race_url, Items, Member,
    Period, RiverRace, Roster,
};

fn s(x: &str) -> String {
    x.to_string()
}

fn participant(tag: &str, decks: i32) -> Participant {
    Participant { tag: s(tag), decks_used_today: decks }
}

fn clan(tag: &str, name: &str, parts: Vec<Participant>, points: i32) -> Clan {
    Clan { tag: s(tag), name: s(name), participants: parts, period_points: points }
}

fn info(name: &str, decks: i32, players: Vec<&str>, points: i32, tag: &str) -> ClanInfo {
    ClanInfo::new(s(name), decks, players.into_iter().map(s).collect(), points, s(tag))
}

fn roster(tag: &str, members: Vec<&str>) -> Roster {
    Roster { tag: s(tag), members: members.into_iter().map(s).collect() }
}

const CROWN: &str = "\u{2800}\u{1F451}";

#[test]
fn period_type_names() {
    assert_eq!(Period::from(s("warDay")), Period::War);
    assert_eq!(Period::from(s("training")), Period::Training);
    assert_eq!(Period::from(s("WarDay")), Period::Training);
    assert_eq!(Period::from(s("")), Period::Training);
    assert_eq!(Period::from_api_name("warDay"), Period::War);
}

#[test]
fn items_unwrap_to_their_list() {
    let items = Items { items: vec![1, 2, 3] };
    assert_eq!(items.into_vec(), vec![1, 2, 3]);
}

#[test]
fn roster_lists_member_tags() {
    let items = Items { items: vec![Member { tag: s("#A") }, Member { tag: s("#B") }] };
    let r = Roster::from_items(s("#CLAN"), items);
    assert_eq!(r.tag, "#CLAN");
    assert_eq!(r.members, vec![s("#A"), s("#B")]);
}

#[test]
fn clan_info_sums_decks_and_lists_tags() {
    let race = RiverRace {
        clans: vec![
            clan("#1", "Alpha", vec![participant("#a", 4), participant("#b", 2)], 1000),
            clan("#2", "Beta", vec![], 0),
        ],
        section_index: 0,
        period_index: 0,
        period_type: Period::Training,
    };
    let infos = race.get_clan_info();
    assert_eq!(infos.len(), 2);
    assert_eq!(infos[0], info("Alpha", 6, vec!["#a", "#b"], 1000, "#1"));
    assert_eq!(infos[1], info("Beta", 0, vec![], 0, "#2"));
}

#[test]
fn deck_sum_wraps_around_like_i32() {
    let race = RiverRace {
        clans: vec![clan("#1", "A", vec![participant("#a", i32::MAX), participant("#b", 1)], 0)],
        section_index: 0,
        period_index: 0,
        period_type: Period::War,
    };
    assert_eq!(race.get_clan_info()[0].decks_used, i32::MIN);
}

#[test]
fn only_current_members_are_kept() {
    let clans = vec![
        info("A", 5, vec!["#p1", "#p2", "#p3"], 0, "#A"),
        info("B", 1, vec!["#q1"], 0, "#B"),
        info("A bis", 2, vec!["#p1", "#p3"], 0, "#A"),
    ];
    let rosters = vec![
        roster("#A", vec!["#p1", "#p3"]),
        roster("#C", vec!["#x"]),
        roster("#A", vec!["#p3", "#p2"]),
    ];
    let kept = keep_current_members(&clans, &rosters);
    // the last roster fetched for #A applies, to the first clan with that tag
    assert_eq!(kept[0], info("A", 5, vec!["#p2", "#p3"], 0, "#A"));
    // no roster: unchanged
    assert_eq!(kept[1], clans[1]);
    // not the first clan with its tag: unchanged
    assert_eq!(kept[2], clans[2]);
    // nobody is added, and the decks used are not recounted
    let empty = keep_current_members(&clans, &vec![roster("#B", vec![])]);
    assert_eq!(empty[1], info("B", 1, vec![], 0, "#B"));
}

#[test]
fn crown_goes_to_the_last_clan_with_most_reachable_points() {
    // reachable points: 100, 300, 300, 200
    let mut clans = vec![
        info("X", 0, vec![], 100, "#X"),
        info("Y", 0, vec![], 300, "#Y"),
        info("Z", 0, vec![], 300, "#Z"),
        info("W", 0, vec![], 200, "#W"),
    ];
    crown_best(&mut clans);
    assert_eq!(clans[0].name, "X");
    assert_eq!(clans[1].name, "Y");
    assert_eq!(clans[2].name, format!("Z{}", CROWN));
    assert_eq!(clans[3].name, "W");
    let crowned = clans.iter().filter(|c| c.name.ends_with(CROWN)).count();
    assert_eq!(crowned, 1);
}

#[test]
fn ranking_follows_the_period() {
    let clans = vec![
        info("A", 3, vec![], 500, "#A"),
        info("B", 9, vec![], 100, "#B"),
        info("C", 6, vec![], 900, "#C"),
    ];
    let training = rank_for_period(clans.clone(), Period::Training);
    let names: Vec<&str> = training.iter().map(|c| c.name.as_str()).collect();
    assert_eq!(names, vec!["B", "C", "A"]);
    let war = rank_for_period(clans.clone(), Period::War);
    let names: Vec<&str> = war.iter().map(|c| c.name.as_str()).collect();
    assert_eq!(names, vec!["C", "A", "B"]);
    assert_eq!(rank_for_period(vec![], Period::War), vec![]);
}

#[test]
fn ranking_keeps_every_clan_with_ties() {
    let clans = vec![
        info("A", 3, vec![], 5, "#A"),
        info("B", 3, vec![], 7, "#B"),
        info("C", 4, vec![], 5, "#C"),
    ];
    let ranked = rank_for_period(clans.clone(), Period::Training);
    assert_eq!(ranked.len(), 3);
    assert_eq!(ranked[0].name, "C");
    for c in &clans {
        assert!(ranked.contains(c));
    }
    for w in ranked.windows(2) {
        assert!(w[0].decks_used >= w[1].decks_used);
    }
}

fn sample_race(period: Period, period_index: i32, section_index: i32) -> RiverRace {
    RiverRace {
        clans: vec![
            clan("#1", "Alpha", vec![participant("#a", 4), participant("#b", 2)], 1000),
            clan(
                "#2",
                "Beta",
                vec![participant("#c", 4), participant("#d", 4), participant("#e", 0)],
                2000,
            ),
        ],
        section_index,
        period_index,
        period_type: period,
    }
}

#[test]
fn standings_filter_crown_and_rank() {
    let race = sample_race(Period::Training, 10, 1);
    let rosters = vec![roster("#2", vec!["#c", "#d", "#e"]), roster("#1", vec!["#a"])];
    let standings = race.standings(&rosters);
    // Alpha: 4 usable decks, 6 used: 1000 - 1600; Beta: 2000 + 4 * 800
    assert_eq!(standings.len(), 2);
    assert_eq!(standings[0], info(&format!("Beta{}", CROWN), 8, vec!["#c", "#d", "#e"], 2000, "#2"));
    assert_eq!(standings[1], info("Alpha", 6, vec!["#a"], 1000, "#1"));
    let (_, text, _) = standings[1].to_field(150);
    assert_eq!(text, "\u{2694}\u{2800}6/4\u{2800}(150%)\n\u{1F3C5}\u{2800}1000\n\u{2B71}\u{2B71}\u{2800}-600");
}

#[test]
fn standings_of_a_war_day_rank_by_points() {
    let mut race = sample_race(Period::War, 13, 1);
    race.clans[0].period_points = 5000;
    let standings = race.standings(&vec![]);
    assert_eq!(standings[0].name, format!("Alpha{}", CROWN));
    assert_eq!(standings[1].name, "Beta");
}

#[test]
fn legacy_standings_rank_by_points_without_crown() {
    let race = sample_race(Period::Training, 10, 1);
    let standings = race.legacy_standings(&vec![roster("#1", vec![])]);
    assert_eq!(standings[0], info("Beta", 8, vec!["#c", "#d", "#e"], 2000, "#2"));
    assert_eq!(standings[1], info("Alpha", 6, vec![], 1000, "#1"));
}

#[test]
fn footer_counts_days_of_the_section() {
    let training = sample_race(Period::Training, 10, 1);
    assert_eq!(training.day(), 4);
    assert_eq!(training.footer(), "Jour d'entrainement n\u{b0}4");
    let war = sample_race(Period::War, 13, 1);
    assert_eq!(war.day(), 4);
    assert_eq!(war.footer(), "Jour de combat n\u{b0}4");
    let first = sample_race(Period::Training, 0, 0);
    assert_eq!(first.footer(), "Jour d'entrainement n\u{b0}1");
    let odd = sample_race(Period::War, 0, 0);
    assert_eq!(odd.footer(), "Jour de combat n\u{b0}-2");
}

#[test]
fn api_addresses_drop_the_hash() {
    assert_eq!(
        river_race_url("#YLP9PVC9"),
        "https://api.clashroyale.com/v1/clans/%23YLP9PVC9/currentriverrace"
    );
    assert_eq!(members_url("YLP#9"), "https://api.clashroyale.com/v1/clans/%23YLP9/members");
}
