use plin::guild::{GuildDataEditableField, Id};
use plin::legacy::{
    channel_argument, find_admin_role, legacy_channel_outcome, legacy_command_effect, legacy_dev_fields,
    legacy_interval_outcome, legacy_tag_outcome, may_configure, parse_command,
    unknown_command_reply, Command, LEGACY_DEV_CHANNEL,
};

fn chars(x: &str) -> Vec<char> {
    x.chars().collect()
}

fn s(x: &str) -> String {
    x.to_string()
}

#[test]
fn messages_addressed_to_the_bot() {
    let p = parse_command("!plin channel 123456").unwrap();
    assert_eq!(p.command, Command::Channel);
    assert_eq!(p.rest, chars("123456"));
    let p = parse_command("!plin   interval 10 min  ").unwrap();
    assert_eq!(p.command, Command::Interval);
    assert_eq!(p.rest, chars("10 min"));
    let p = parse_command("!plin stop").unwrap();
    assert_eq!(p.command, Command::Stop);
    assert_eq!(p.rest, chars(""));
    let p = parse_command("!plin ").unwrap();
    assert_eq!(p.command, Command::Unknown(s("")));
    let p = parse_command("!plin hello world").unwrap();
    assert_eq!(p.command, Command::Unknown(s("hello")));
    assert_eq!(p.rest, chars("world"));
    for (word, command) in [
        ("tag", Command::Tag),
        ("update", Command::Update),
        ("newpost", Command::NewPost),
        ("start", Command::Start),
        ("dev", Command::Dev),
    ] {
        assert_eq!(parse_command(&format!("!plin {}", word)).unwrap().command, command);
    }
}

#[test]
fn other_messages_are_ignored() {
    assert_eq!(parse_command(""), None);
    assert_eq!(parse_command("!plin"), None);
    assert_eq!(parse_command("!pl channel"), None);
    assert_eq!(parse_command("hello !plin start"), None);
    assert_eq!(parse_command("!PLIN start"), None);
}

#[test]
fn channel_argument_takes_leading_digits() {
    assert_eq!(channel_argument(&chars("  123abc")), Some(123));
    assert_eq!(channel_argument(&chars("827206396361441331")), Some(827206396361441331));
    assert_eq!(channel_argument(&chars("abc")), None);
    assert_eq!(channel_argument(&chars("")), None);
    assert_eq!(channel_argument(&chars("99999999999999999999")), None);
}

#[test]
fn legacy_channel_change() {
    let yes = legacy_channel_outcome(42, true);
    assert_eq!(
        yes.edits,
        vec![
            GuildDataEditableField::PostChannelId(Some(Id(42))),
            GuildDataEditableField::IsNewMessage(true),
            GuildDataEditableField::UpdatePost(true),
        ]
    );
    assert_eq!(yes.reply, "Le channel de post \u{e0} \u{e9}t\u{e9} changer pour <#42>");
    let no = legacy_channel_outcome(42, false);
    assert!(no.edits.is_empty());
    assert_eq!(no.reply, "L'id donn\u{e9} 42 ne correspond \u{e0} aucun channel");
}

#[test]
fn legacy_tag_change() {
    let t = legacy_tag_outcome(&chars("  #ABC def"));
    assert_eq!(
        t.edits,
        vec![
            GuildDataEditableField::ClanTag(Some(s("#ABC"))),
            GuildDataEditableField::IsNewMessage(true),
            GuildDataEditableField::UpdatePost(true),
        ]
    );
    assert_eq!(t.reply, "Tag mise \u{e0} jour pour : #ABC");
    let empty = legacy_tag_outcome(&chars(""));
    assert_eq!(empty.edits[0], GuildDataEditableField::ClanTag(Some(s(""))));
}

#[test]
fn legacy_interval_change() {
    let ok = legacy_interval_outcome(&chars(" 10min "));
    assert_eq!(ok.edits, vec![GuildDataEditableField::UpdateInterval(600)]);
    assert_eq!(ok.reply, "Les posts seront maintenant mise \u{e0} jour tous les 10m");
    let edge = legacy_interval_outcome(&chars("5s"));
    assert_eq!(edge.edits, vec![GuildDataEditableField::UpdateInterval(5)]);
    let small = legacy_interval_outcome(&chars("4s"));
    assert!(small.edits.is_empty());
    assert_eq!(small.reply, "Le temps donn\u{e9} 4s est trop petit. Minimum : 5s");
    let bad = legacy_interval_outcome(&chars(""));
    assert!(bad.edits.is_empty());
    assert_eq!(bad.reply, "Erreur : value was empty");
}

#[test]
fn admin_role_and_permissions() {
    assert_eq!(find_admin_role(&vec![s("Member"), s("ADMIN"), s("admin")]), Some(1));
    assert_eq!(find_admin_role(&vec![s("Member"), s("Admins")]), None);
    assert_eq!(find_admin_role(&vec![]), None);
    assert!(may_configure(true, true));
    assert!(!may_configure(true, false));
    assert!(may_configure(false, false));
    assert!(may_configure(false, true));
}

#[test]
fn unknown_commands_are_named_back() {
    assert_eq!(unknown_command_reply("foo"), "Commande inconnue : `foo`");
}

#[test]
fn legacy_dev_values() {
    let f = legacy_dev_fields();
    assert_eq!(f[0], GuildDataEditableField::PostChannelId(Some(Id(LEGACY_DEV_CHANNEL))));
    assert_eq!(f[1], GuildDataEditableField::ClanTag(Some(s("YLP9PVC9"))));
    assert_eq!(f[2], GuildDataEditableField::UpdateInterval(5));
}

#[test]
fn legacy_interval_beyond_a_duration() {
    let huge = legacy_interval_outcome(&chars("18446744073709551615s 1000ms"));
    assert!(huge.edits.is_empty());
    assert_eq!(
        huge.reply,
        "Erreur : number is too large or cannot be represented without a lack of precision (values below 1ns are not supported)"
    );
    let zeros = legacy_interval_outcome(&chars("000000000000300s"));
    assert_eq!(zeros.edits, vec![GuildDataEditableField::UpdateInterval(300)]);
    let nanos = legacy_interval_outcome(&chars(" 1000000000000ns "));
    assert_eq!(nanos.edits, vec![GuildDataEditableField::UpdateInterval(1000)]);
}

#[test]
fn legacy_commands_without_argument() {
    let update = legacy_command_effect(&Command::Update).unwrap();
    assert_eq!(update.edits, vec![GuildDataEditableField::UpdatePost(true)]);
    assert_eq!(update.reply, None);
    let new_post = legacy_command_effect(&Command::NewPost).unwrap();
    assert_eq!(
        new_post.edits,
        vec![GuildDataEditableField::IsNewMessage(true), GuildDataEditableField::UpdatePost(true)]
    );
    let start = legacy_command_effect(&Command::Start).unwrap();
    assert_eq!(start.edits, vec![GuildDataEditableField::Run(true)]);
    assert_eq!(start.reply, Some(s("Mise en route")));
    let stop = legacy_command_effect(&Command::Stop).unwrap();
    assert_eq!(stop.edits, vec![GuildDataEditableField::Run(false)]);
    assert_eq!(stop.reply, Some(s("Arr\u{ea}t")));
    let dev = legacy_command_effect(&Command::Dev).unwrap();
    assert_eq!(dev.edits, legacy_dev_fields());
    assert_eq!(dev.reply, Some(s("Dev ok !")));
    assert_eq!(legacy_command_effect(&Command::Channel), None);
    assert_eq!(legacy_command_effect(&Command::Unknown(s("x"))), None);
}
