use plin::commands::{
    channel_outcome, classify_set_args, interval_outcome, join_lines, parse_channel_id,
    reset_fields, set_interval, setup_fields, tag_outcome, war_command_effect, SetArg, WarCommand,
    SETUP_CHANNEL, TIME_MIN,
};
use plin::guild::{EditField, GuildData, GuildDataEditableField, Id, DEFAULT_UPDATE_INTERVAL};
use plin::text::nat_string;
use plin::tracker::poll_target;

fn s(x: &str) -> String {
    x.to_string()
}

#[test]
fn channel_arguments() {
    assert_eq!(parse_channel_id("<#862419878282657792>"), Some(862419878282657792));
    assert_eq!(parse_channel_id("862419878282657792"), Some(862419878282657792));
    assert_eq!(parse_channel_id("+12"), Some(12));
    assert_eq!(parse_channel_id("<#12a>"), None);
    assert_eq!(parse_channel_id("<#>"), None);
    assert_eq!(parse_channel_id("<@12>"), None);
    assert_eq!(parse_channel_id("general"), None);
    assert_eq!(parse_channel_id(""), None);
    assert_eq!(parse_channel_id("18446744073709551616"), None);
}

#[test]
fn mentions_written_by_the_bot_name_the_channel_again() {
    for id in [0u64, 5, 862419878282657792, u64::MAX] {
        let mention = format!("<#{}>", nat_string(id));
        assert_eq!(parse_channel_id(&mention), Some(id));
        assert_eq!(parse_channel_id(&nat_string(id)), Some(id));
    }
}

#[test]
fn setting_the_channel() {
    let found = channel_outcome("<#42>", Some(42), true);
    assert_eq!(found.edit, Some(GuildDataEditableField::PostChannelId(Some(Id(42)))));
    assert_eq!(found.reply, "Salon des posts chang\u{e9} pour <#42>.");
    let missing = channel_outcome("42", Some(42), false);
    assert_eq!(missing.edit, None);
    assert_eq!(missing.reply, "Le channel d'id `42` n'existe pas.");
    let invalid = channel_outcome("salon", None, false);
    assert_eq!(invalid.edit, None);
    assert_eq!(invalid.reply, "Le channel `salon` n'existe pas.");
}

#[test]
fn setting_the_interval() {
    assert_eq!(TIME_MIN, 300);
    let ok = set_interval("10min");
    assert_eq!(ok.edit, Some(GuildDataEditableField::UpdateInterval(600)));
    assert_eq!(ok.reply, "Interval de temps des mises \u{e0} jours des posts chang\u{e9} pour 10m.");
    let exact = set_interval("5m");
    assert_eq!(exact.edit, Some(GuildDataEditableField::UpdateInterval(300)));
    let long = set_interval("1h 30min");
    assert_eq!(long.edit, Some(GuildDataEditableField::UpdateInterval(5400)));
    assert_eq!(long.reply, "Interval de temps des mises \u{e0} jours des posts chang\u{e9} pour 1h 30m.");
    let small = set_interval("1min");
    assert_eq!(small.edit, None);
    assert_eq!(small.reply, "Interval de temps trop petit. Interval minimum: s`300`.");
    let bad = set_interval("abc");
    assert_eq!(bad.edit, None);
    assert_eq!(bad.reply, "expected number at 0");
    let unitless = set_interval("123");
    assert_eq!(unitless.reply, "time unit needed, for example 123sec or 123ms");
}

#[test]
fn interval_result_decides_alone() {
    let ok = interval_outcome(Ok((301, 0)));
    assert_eq!(ok.edit, Some(GuildDataEditableField::UpdateInterval(301)));
    assert_eq!(ok.reply, "Interval de temps des mises \u{e0} jours des posts chang\u{e9} pour 5m 1s.");
    let small = interval_outcome(Ok((299, 999_999_999)));
    assert_eq!(small.edit, None);
    let err = interval_outcome(Err(s("value was empty")));
    assert_eq!(err, plin::commands::Outcome { edit: None, reply: s("value was empty") });
}

#[test]
fn setting_the_tag() {
    let known = tag_outcome("#YLP9PVC9", "{\"clans\":[{\"name\":\"Les Loups\"}]}");
    assert_eq!(known.edit, Some(GuildDataEditableField::ClanTag(Some(s("#YLP9PVC9")))));
    assert_eq!(known.reply, "Tag changer pour `#YLP9PVC9`.");
    let unknown = tag_outcome("#NOPE", "{\"reason\":\"notFound\"}");
    assert_eq!(unknown.edit, None);
    assert_eq!(unknown.reply, "Le tag `#NOPE` ne correspond \u{e0} aucun clan.");
}

#[test]
fn war_set_reads_each_setting_once() {
    let args = vec![s("#TAG"), s("<#42>"), s("10min")];
    assert_eq!(classify_set_args(&args), vec![SetArg::Tag, SetArg::Channel, SetArg::Interval]);
    let args = vec![s("42"), s("43"), s("#A")];
    assert_eq!(classify_set_args(&args), vec![SetArg::Channel, SetArg::Tag, SetArg::Ignored]);
    let args = vec![s("1h"), s("2h"), s("3h")];
    assert_eq!(classify_set_args(&args), vec![SetArg::Interval, SetArg::Tag, SetArg::Ignored]);
    assert_eq!(classify_set_args(&vec![]), vec![]);
}

#[test]
fn replies_are_joined_by_lines() {
    assert_eq!(join_lines(&vec![]), "");
    assert_eq!(join_lines(&vec![s("a")]), "a");
    assert_eq!(join_lines(&vec![s("a"), s(""), s("c")]), "a\n\nc");
}

#[test]
fn reset_stops_the_tracker() {
    let mut gd = GuildData::default();
    gd.edit_fields(&setup_fields());
    gd.edit_field(GuildDataEditableField::Run(true));
    gd.edit_field(GuildDataEditableField::PeriodIndex(Some(4)));
    assert!(poll_target(&gd).is_some());
    gd.edit_fields(&reset_fields());
    assert_eq!(poll_target(&gd), None);
    assert_eq!(gd.update_interval, DEFAULT_UPDATE_INTERVAL);
    assert_eq!(gd.post_channel_id, None);
    assert_eq!(gd.clan_tag, None);
    assert_eq!(gd.post, None);
    assert_eq!(gd.period_index, Some(4));
}

#[test]
fn dev_setup_values() {
    let f = setup_fields();
    assert_eq!(f.len(), 4);
    assert_eq!(f[0], GuildDataEditableField::PostChannelId(Some(Id(SETUP_CHANNEL))));
    assert_eq!(f[1], GuildDataEditableField::ClanTag(Some(s("YLP9PVC9"))));
    assert_eq!(f[2], GuildDataEditableField::UpdateInterval(10));
    assert_eq!(f[3], GuildDataEditableField::Post(None));
}

#[test]
fn interval_texts_beyond_a_duration_are_refused() {
    let overflow = "number is too large or cannot be represented without a lack of precision (values below 1ns are not supported)";
    let huge = set_interval("18446744073709551615s 1000ms");
    assert_eq!(huge.edit, None);
    assert_eq!(huge.reply, overflow);
    let leading_zeros = set_interval("000000000000300s");
    assert_eq!(leading_zeros.edit, Some(GuildDataEditableField::UpdateInterval(300)));
    let small_unit = set_interval("1000000000000ns");
    assert_eq!(small_unit.edit, Some(GuildDataEditableField::UpdateInterval(1000)));
    let largest = set_interval("18446744073709551615s");
    assert_eq!(largest.edit, Some(GuildDataEditableField::UpdateInterval(u64::MAX)));
    let with_fraction = set_interval("18446744073709551615s 0.5s");
    assert_eq!(with_fraction.edit, Some(GuildDataEditableField::UpdateInterval(u64::MAX)));
    let too_many_years = set_interval("600000000000y");
    assert_eq!(too_many_years.edit, None);
    assert_eq!(too_many_years.reply, overflow);
    let args = vec![s("18446744073709551615s 1000ms"), s("000000000000300s")];
    assert_eq!(classify_set_args(&args), vec![SetArg::Tag, SetArg::Interval]);
}

#[test]
fn interval_replies_spell_out_the_duration() {
    let long = interval_outcome(Ok((2 * 31_557_600 + 86_400 + 5, 1_500)));
    assert_eq!(
        long.reply,
        "Interval de temps des mises \u{e0} jours des posts chang\u{e9} pour 2years 1day 5s 1us 500ns."
    );
    let month = interval_outcome(Ok((2_630_016 + 3_600, 0)));
    assert_eq!(
        month.reply,
        "Interval de temps des mises \u{e0} jours des posts chang\u{e9} pour 1month 1h."
    );
}
