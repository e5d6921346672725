use plin::guild::{
    EditField, GuildData, GuildDataEditableField, Id, IdDecodeError, PartialGuildData, PostId,
    DEFAULT_UPDATE_INTERVAL,
};

fn all_edits() -> Vec<GuildDataEditableField> {
    vec![
        GuildDataEditableField::UpdateInterval(1200),
        GuildDataEditableField::IsNewMessage(true),
        GuildDataEditableField::UpdatePost(true),
        GuildDataEditableField::Run(true),
        GuildDataEditableField::PostChannelId(Some(Id(42))),
        GuildDataEditableField::Post(Some(PostId { channel: Id(42), message: Id(7) })),
        GuildDataEditableField::ClanTag(Some("#TAG".to_string())),
        GuildDataEditableField::PeriodIndex(Some(3)),
    ]
}

#[test]
fn defaults_of_a_new_server() {
    let gd = GuildData::default();
    assert_eq!(gd.update_interval, 600);
    assert_eq!(gd.update_interval, DEFAULT_UPDATE_INTERVAL);
    assert!(!gd.is_new_message && !gd.update_post && !gd.run);
    assert_eq!(gd.post_channel_id, None);
    assert_eq!(gd.post, None);
    assert_eq!(gd.clan_tag, None);
    assert_eq!(gd.period_index, None);
    let p = PartialGuildData::default();
    assert_eq!(p.update_interval, 600);
    assert!(!p.run);
    assert_eq!(p.post_id, None);
}

#[test]
fn default_server_stores_default_entry() {
    assert_eq!(PartialGuildData::from(GuildData::default()), PartialGuildData::default());
}

#[test]
fn each_edit_changes_its_field() {
    let mut gd = GuildData::default();
    gd.edit_fields(&all_edits());
    assert_eq!(gd.update_interval, 1200);
    assert!(gd.is_new_message && gd.update_post && gd.run);
    assert_eq!(gd.post_channel_id, Some(Id(42)));
    assert_eq!(gd.post, Some(PostId { channel: Id(42), message: Id(7) }));
    assert_eq!(gd.clan_tag, Some("#TAG".to_string()));
    assert_eq!(gd.period_index, Some(3));
    gd.edit_field(GuildDataEditableField::ClanTag(None));
    assert_eq!(gd.clan_tag, None);
}

#[test]
fn stored_entry_ignores_in_memory_flags() {
    let mut p = PartialGuildData::default();
    p.edit_field(GuildDataEditableField::IsNewMessage(true));
    p.edit_field(GuildDataEditableField::UpdatePost(true));
    assert_eq!(p, PartialGuildData::default());
}

#[test]
fn database_and_memory_stay_in_step() {
    for edit in all_edits() {
        let mut gd = GuildData::default();
        gd.edit_field(GuildDataEditableField::Run(true));
        let mut stored = PartialGuildData::from(gd.clone());
        gd.edit_field(edit.clone());
        stored.edit_field(edit);
        assert_eq!(PartialGuildData::from(gd), stored);
    }
    let mut gd = GuildData::default();
    let mut stored = PartialGuildData::from(gd.clone());
    gd.edit_fields(&all_edits());
    stored.edit_fields(&all_edits());
    assert_eq!(PartialGuildData::from(gd), stored);
}

#[test]
fn later_edits_win() {
    let mut gd = GuildData::default();
    gd.edit_fields(&[
        GuildDataEditableField::UpdateInterval(10),
        GuildDataEditableField::UpdateInterval(20),
    ]);
    assert_eq!(gd.update_interval, 20);
    gd.edit_fields(&[]);
    assert_eq!(gd.update_interval, 20);
}

#[test]
fn restoring_from_the_database() {
    let mut gd = GuildData::default();
    gd.edit_fields(&all_edits());
    let stored = PartialGuildData::from(gd.clone());
    let back = stored.clone().restore(true);
    assert_eq!(PartialGuildData::from(back.clone()), stored);
    assert!(!back.is_new_message && !back.update_post);
    assert_eq!(back.post, gd.post);
    let lost = stored.clone().restore(false);
    assert_eq!(lost.post, None);
    assert_eq!(lost.clan_tag, stored.clan_tag);
}

#[test]
fn id_keys_read_back() {
    for v in [0u64, 1, 862419878282657792, u64::MAX] {
        let id = Id(v);
        let bytes = id.to_bytes();
        assert_eq!(bytes.len(), 8);
        assert_eq!(bytes, v.to_le_bytes().to_vec());
        assert_eq!(Id::from_key(&bytes), Some(id));
        assert_eq!(Id::decode(&bytes), Ok(id));
    }
}

#[test]
fn id_decoding_edge_cases() {
    assert_eq!(Id::from_key(&[1, 2, 3]), None);
    assert_eq!(Id::from_key(&[0; 9]), None);
    assert_eq!(Id::decode(&[1, 2, 3, 4, 5, 6, 7]), Err(IdDecodeError::TooShort));
    assert_eq!(Id::decode(&[]), Err(IdDecodeError::TooShort));
    // trailing bytes are allowed
    assert_eq!(Id::decode(&[1, 0, 0, 0, 0, 0, 0, 0, 9, 9]), Ok(Id(1)));
    assert_eq!(Id::decode(&[0, 1, 0, 0, 0, 0, 0, 0]), Ok(Id(256)));
}
