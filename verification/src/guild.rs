//! The settings and state that the tracker keeps for each Discord server
//! (`GuildData`), the part of it that is stored in the database
//! (`PartialGuildData`), and the edits that commands make to both.
use vstd::bytes::{
    lemma_auto_spec_u64_to_from_le_bytes, spec_u64_from_le_bytes, spec_u64_to_le_bytes,
    u64_from_le_bytes, u64_to_le_bytes,
};
use vstd::prelude::*;

verus! {

/// A Discord id (server, channel or message).
#[derive(Clone, Copy, PartialEq, Eq, Structural, Debug)]
pub struct Id(pub u64);

#[verifier::external_type_specification]
#[verifier::external_body]
pub struct ExBincodeErrorKind(bincode::ErrorKind);

/// `bincode::deserialize::<u64>`, which reads with bincode's default
/// settings (fixed-width integers, little-endian, trailing bytes allowed):
/// it succeeds exactly when at least 8 bytes are given, and then yields the
/// little-endian value of the first 8.
#[verifier::external_body]
fn bincode_decode_u64(bytes: &[u8]) -> (r: Result<u64, Box<bincode::ErrorKind>>)
    ensures
        r is Ok <==> bytes@.len() >= 8,
        r matches Ok(v) ==> v == spec_u64_from_le_bytes(bytes@.subrange(0, 8)),
{
    bincode::deserialize::<u64>(bytes)
}

/// Why a stored id could not be read back.
#[derive(Clone, Copy, PartialEq, Eq, Structural, Debug)]
pub enum IdDecodeError {
    /// Fewer than the 8 bytes of an id were given.
    TooShort,
}

impl Id {
    /// The key under which the database stores a server: the id's 8
    /// bytes, least significant first.
    pub fn to_bytes(&self) -> (r: Vec<u8>)
        ensures
            r@ == spec_u64_to_le_bytes(self.0),
            r@.len() == 8,
    {
        u64_to_le_bytes(self.0)
    }

    /// The id stored under a database key; a key has exactly 8 bytes.
    pub fn from_key(bytes: &[u8]) -> (r: Option<Id>)
        ensures
            r is Some <==> bytes@.len() == 8,
            r matches Some(id) ==> id.0 == spec_u64_from_le_bytes(bytes@),
    {
        if bytes.len() == 8 {
            Some(Id(u64_from_le_bytes(bytes)))
        } else {
            None
        }
    }

    /// The id that bincode encoded in `bytes`.
    pub fn decode(bytes: &[u8]) -> (r: Result<Id, IdDecodeError>)
        ensures
            r is Ok <==> bytes@.len() >= 8,
            r matches Ok(id) ==> id.0 == spec_u64_from_le_bytes(bytes@.subrange(0, 8)),
    {
        match bincode_decode_u64(bytes) {
            Ok(v) => Ok(Id(v)),
            Err(_) => Err(IdDecodeError::TooShort),
        }
    }
}

/// A server's key gives its id back, whether it is read as a key or
/// decoded as bincode: the 8 bytes of `to_bytes` denote the id.
pub proof fn lemma_id_bytes_roundtrip(id: Id)
    ensures
        spec_u64_to_le_bytes(id.0).len() == 8,
        spec_u64_from_le_bytes(spec_u64_to_le_bytes(id.0)) == id.0,
        spec_u64_from_le_bytes(spec_u64_to_le_bytes(id.0).subrange(0, 8)) == id.0,
{
    lemma_auto_spec_u64_to_from_le_bytes();
    assert(spec_u64_to_le_bytes(id.0).subrange(0, 8) =~= spec_u64_to_le_bytes(id.0));
}

/// Where a post lives: its channel and its message.
#[derive(Clone, Copy, PartialEq, Eq, Structural, Debug)]
pub struct PostId {
    pub channel: Id,
    pub message: Id,
}

/// Seconds between two updates of a post, unless a server sets another.
pub const DEFAULT_UPDATE_INTERVAL: u64 = 600;

/// Everything the tracker keeps for one server.
#[derive(Clone, Debug, PartialEq, Eq)]
pub struct GuildData {
    pub update_interval: u64,
    pub is_new_message: bool,
    pub update_post: bool,
    pub run: bool,
    pub post_channel_id: Option<Id>,
    pub post: Option<PostId>,
    pub clan_tag: Option<String>,
    pub period_index: Option<i32>,
}

/// The part of a server's data that the database stores.
#[derive(Clone, Debug, PartialEq, Eq)]
pub struct PartialGuildData {
    pub update_interval: u64,
    pub run: bool,
    pub post_channel_id: Option<Id>,
    pub post_id: Option<PostId>,
    pub clan_tag: Option<String>,
    pub period_index: Option<i32>,
}

/// One change to a server's data, as commands and the tracker make them.
#[derive(Clone, Debug, PartialEq, Eq)]
pub enum GuildDataEditableField {
    UpdateInterval(u64),
    IsNewMessage(bool),
    UpdatePost(bool),
    Run(bool),
    PostChannelId(Option<Id>),
    Post(Option<PostId>),
    ClanTag(Option<String>),
    PeriodIndex(Option<i32>),
}

impl GuildDataEditableField {
    /// A copy of the edit.
    pub fn duplicate(&self) -> (r: GuildDataEditableField)
        ensures
            r == *self,
    {
        match self {
            GuildDataEditableField::UpdateInterval(v) => GuildDataEditableField::UpdateInterval(*v),
            GuildDataEditableField::IsNewMessage(v) => GuildDataEditableField::IsNewMessage(*v),
            GuildDataEditableField::UpdatePost(v) => GuildDataEditableField::UpdatePost(*v),
            GuildDataEditableField::Run(v) => GuildDataEditableField::Run(*v),
            GuildDataEditableField::PostChannelId(v) => GuildDataEditableField::PostChannelId(*v),
            GuildDataEditableField::Post(v) => GuildDataEditableField::Post(*v),
            GuildDataEditableField::ClanTag(v) => GuildDataEditableField::ClanTag(
                match v {
                    Some(t) => Some(t.clone()),
                    None => None,
                },
            ),
            GuildDataEditableField::PeriodIndex(v) => GuildDataEditableField::PeriodIndex(*v),
        }
    }
}

/// A value that edits change one field at a time.
pub trait EditField: Sized {
    /// The value after `field` is applied.
    spec fn edited(self, field: GuildDataEditableField) -> Self;

    /// Applies one edit.
    fn edit_field(&mut self, field: GuildDataEditableField)
        ensures
            *final(self) == old(self).edited(field),
    ;

    /// The value after the edits are applied in order.
    spec fn edited_all(self, fields: Seq<GuildDataEditableField>) -> Self;

    /// Applies the edits in order.
    fn edit_fields(&mut self, fields: &[GuildDataEditableField])
        ensures
            *final(self) == old(self).edited_all(fields@),
    ;
}

/// A server's data after the edits are applied in order.
pub open spec fn guild_edited_all(x: GuildData, fields: Seq<GuildDataEditableField>) -> GuildData
    decreases fields.len(),
{
    if fields.len() == 0 {
        x
    } else {
        guild_edited_all(x, fields.drop_last()).edited(fields.last())
    }
}

/// A server's stored data after the edits are applied in order.
pub open spec fn partial_edited_all(
    x: PartialGuildData,
    fields: Seq<GuildDataEditableField>,
) -> PartialGuildData
    decreases fields.len(),
{
    if fields.len() == 0 {
        x
    } else {
        partial_edited_all(x, fields.drop_last()).edited(fields.last())
    }
}

impl EditField for GuildData {
    open spec fn edited(self, field: GuildDataEditableField) -> GuildData {
        match field {
            GuildDataEditableField::UpdateInterval(v) => GuildData { update_interval: v, ..self },
            GuildDataEditableField::IsNewMessage(v) => GuildData { is_new_message: v, ..self },
            GuildDataEditableField::UpdatePost(v) => GuildData { update_post: v, ..self },
            GuildDataEditableField::Run(v) => GuildData { run: v, ..self },
            GuildDataEditableField::PostChannelId(v) => GuildData { post_channel_id: v, ..self },
            GuildDataEditableField::Post(v) => GuildData { post: v, ..self },
            GuildDataEditableField::ClanTag(v) => GuildData { clan_tag: v, ..self },
            GuildDataEditableField::PeriodIndex(v) => GuildData { period_index: v, ..self },
        }
    }

    open spec fn edited_all(self, fields: Seq<GuildDataEditableField>) -> GuildData {
        guild_edited_all(self, fields)
    }

    fn edit_field(&mut self, field: GuildDataEditableField) {
        match field {
            GuildDataEditableField::UpdateInterval(value) => self.update_interval = value,
            GuildDataEditableField::IsNewMessage(value) => self.is_new_message = value,
            GuildDataEditableField::UpdatePost(value) => self.update_post = value,
            GuildDataEditableField::Run(value) => self.run = value,
            GuildDataEditableField::PostChannelId(value) => self.post_channel_id = value,
            GuildDataEditableField::Post(value) => self.post = value,
            GuildDataEditableField::ClanTag(value) => self.clan_tag = value,
            GuildDataEditableField::PeriodIndex(value) => self.period_index = value,
        }
    }

    fn edit_fields(&mut self, fields: &[GuildDataEditableField]) {
        let mut i: usize = 0;
        while i < fields.len()
            invariant
                i <= fields@.len(),
                *self == old(self).edited_all(fields@.subrange(0, i as int)),
            decreases fields@.len() - i,
        {
            proof {
                assert(fields@.subrange(0, i + 1).drop_last() =~= fields@.subrange(0, i as int));
            }
            self.edit_field(fields[i].duplicate());
            i = i + 1;
        }
        proof {
            assert(fields@.subrange(0, fields@.len() as int) =~= fields@);
        }
    }
}

impl EditField for PartialGuildData {
    /// Only the stored fields change; edits of the others are ignored.
    open spec fn edited(self, field: GuildDataEditableField) -> PartialGuildData {
        match field {
            GuildDataEditableField::UpdateInterval(v) => PartialGuildData {
                update_interval: v,
                ..self
            },
            GuildDataEditableField::Run(v) => PartialGuildData { run: v, ..self },
            GuildDataEditableField::PostChannelId(v) => PartialGuildData {
                post_channel_id: v,
                ..self
            },
            GuildDataEditableField::Post(v) => PartialGuildData { post_id: v, ..self },
            GuildDataEditableField::ClanTag(v) => PartialGuildData { clan_tag: v, ..self },
            GuildDataEditableField::PeriodIndex(v) => PartialGuildData { period_index: v, ..self },
            _ => self,
        }
    }

    open spec fn edited_all(self, fields: Seq<GuildDataEditableField>) -> PartialGuildData {
        partial_edited_all(self, fields)
    }

    fn edit_field(&mut self, field: GuildDataEditableField) {
        match field {
            GuildDataEditableField::UpdateInterval(value) => self.update_interval = value,
            GuildDataEditableField::Run(value) => self.run = value,
            GuildDataEditableField::PostChannelId(value) => self.post_channel_id = value,
            GuildDataEditableField::Post(value) => self.post_id = value,
            GuildDataEditableField::ClanTag(value) => self.clan_tag = value,
            GuildDataEditableField::PeriodIndex(value) => self.period_index = value,
            _ => (),
        }
    }

    fn edit_fields(&mut self, fields: &[GuildDataEditableField]) {
        let mut i: usize = 0;
        while i < fields.len()
            invariant
                i <= fields@.len(),
                *self == old(self).edited_all(fields@.subrange(0, i as int)),
            decreases fields@.len() - i,
        {
            proof {
                assert(fields@.subrange(0, i + 1).drop_last() =~= fields@.subrange(0, i as int));
            }
            self.edit_field(fields[i].duplicate());
            i = i + 1;
        }
        proof {
            assert(fields@.subrange(0, fields@.len() as int) =~= fields@);
        }
    }
}

/// A new server's data: updates every ten minutes, nothing set, not
/// running, and the next post is a new message.
pub open spec fn default_guild_data() -> GuildData {
    GuildData {
        update_interval: 600,
        is_new_message: false,
        update_post: false,
        run: false,
        post_channel_id: None,
        post: None,
        clan_tag: None,
        period_index: None,
    }
}

/// A new server's stored data.
pub open spec fn default_partial_guild_data() -> PartialGuildData {
    PartialGuildData {
        update_interval: 600,
        run: false,
        post_channel_id: None,
        post_id: None,
        clan_tag: None,
        period_index: None,
    }
}

impl Default for GuildData {
    fn default() -> (r: GuildData)
        ensures
            r == default_guild_data(),
    {
        GuildData {
            update_interval: 60 * 10,
            is_new_message: false,
            update_post: false,
            run: false,
            post_channel_id: None,
            post: None,
            clan_tag: None,
            period_index: None,
        }
    }
}

impl Default for PartialGuildData {
    fn default() -> (r: PartialGuildData)
        ensures
            r == default_partial_guild_data(),
    {
        PartialGuildData {
            update_interval: 60 * 10,
            run: false,
            post_channel_id: None,
            post_id: None,
            clan_tag: None,
            period_index: None,
        }
    }
}

/// The stored part of a server's data.
pub open spec fn stored(gd: GuildData) -> PartialGuildData {
    PartialGuildData {
        update_interval: gd.update_interval,
        run: gd.run,
        post_channel_id: gd.post_channel_id,
        post_id: gd.post,
        clan_tag: gd.clan_tag,
        period_index: gd.period_index,
    }
}

/// A server's data rebuilt from what the database stores: the post is
/// kept only when it could still be fetched, and the rest is as for a
/// new server.
pub open spec fn restored(p: PartialGuildData, post_found: bool) -> GuildData {
    GuildData {
        update_interval: p.update_interval,
        run: p.run,
        post_channel_id: p.post_channel_id,
        clan_tag: p.clan_tag,
        period_index: p.period_index,
        post: if post_found {
            p.post_id
        } else {
            None
        },
        ..default_guild_data()
    }
}

impl From<GuildData> for PartialGuildData {
    fn from(gd: GuildData) -> (r: PartialGuildData) {
        PartialGuildData {
            update_interval: gd.update_interval,
            run: gd.run,
            post_channel_id: gd.post_channel_id,
            post_id: gd.post,
            clan_tag: gd.clan_tag,
            period_index: gd.period_index,
        }
    }
}

impl vstd::std_specs::convert::FromSpecImpl<GuildData> for PartialGuildData {
    open spec fn obeys_from_spec() -> bool {
        true
    }

    open spec fn from_spec(gd: GuildData) -> PartialGuildData {
        stored(gd)
    }
}

impl PartialGuildData {
    /// The server's data rebuilt from the stored part; `post_found` says
    /// whether the stored post could still be fetched.
    pub fn restore(self, post_found: bool) -> (r: GuildData)
        ensures
            r == restored(self, post_found),
    {
        GuildData {
            update_interval: self.update_interval,
            run: self.run,
            post_channel_id: self.post_channel_id,
            clan_tag: self.clan_tag,
            period_index: self.period_index,
            post: if post_found {
                self.post_id
            } else {
                None
            },
            ..Default::default()
        }
    }
}

/// The database and the servers' data in memory stay in step: applying
/// an edit to a server's data and then taking its stored part gives the
/// stored part with the same edit applied.
pub proof fn lemma_stored_follows_edit(gd: GuildData, field: GuildDataEditableField)
    ensures
        stored(gd.edited(field)) == stored(gd).edited(field),
{
}

/// The same holds for any sequence of edits.
pub proof fn lemma_stored_follows_edits(gd: GuildData, fields: Seq<GuildDataEditableField>)
    ensures
        stored(guild_edited_all(gd, fields)) == partial_edited_all(stored(gd), fields),
    decreases fields.len(),
{
    if fields.len() > 0 {
        lemma_stored_follows_edits(gd, fields.drop_last());
        lemma_stored_follows_edit(guild_edited_all(gd, fields.drop_last()), fields.last());
    }
}

/// Applying the same edit twice changes nothing more than applying it
/// once, in memory and in the database.
pub proof fn lemma_edit_idempotent(gd: GuildData, p: PartialGuildData, field: GuildDataEditableField)
    ensures
        gd.edited(field).edited(field) == gd.edited(field),
        p.edited(field).edited(field) == p.edited(field),
{
}

/// A new server stores the same data that a new stored entry holds.
pub proof fn lemma_default_stored()
    ensures
        stored(default_guild_data()) == default_partial_guild_data(),
{
}

/// Rebuilding a server's data from what is stored, when its post can be
/// fetched, and storing it again gives back what was stored.
pub proof fn lemma_restore_then_store(p: PartialGuildData)
    ensures
        stored(restored(p, true)) == p,
        stored(restored(p, false)) == (PartialGuildData { post_id: None, ..p }),
{
}

/// Each edit sets its own field of a server's data to the edit's value and
/// leaves every other field as it was.
pub proof fn lemma_edit_sets_its_field(gd: GuildData, f: GuildDataEditableField)
    ensures
        ({
            let r = gd.edited(f);
            &&& f matches GuildDataEditableField::UpdateInterval(v) ==> r.update_interval == v
            &&& f matches GuildDataEditableField::IsNewMessage(v) ==> r.is_new_message == v
            &&& f matches GuildDataEditableField::UpdatePost(v) ==> r.update_post == v
            &&& f matches GuildDataEditableField::Run(v) ==> r.run == v
            &&& f matches GuildDataEditableField::PostChannelId(v) ==> r.post_channel_id == v
            &&& f matches GuildDataEditableField::Post(v) ==> r.post == v
            &&& f matches GuildDataEditableField::ClanTag(v) ==> r.clan_tag == v
            &&& f matches GuildDataEditableField::PeriodIndex(v) ==> r.period_index == v
            &&& !(f is UpdateInterval) ==> r.update_interval == gd.update_interval
            &&& !(f is IsNewMessage) ==> r.is_new_message == gd.is_new_message
            &&& !(f is UpdatePost) ==> r.update_post == gd.update_post
            &&& !(f is Run) ==> r.run == gd.run
            &&& !(f is PostChannelId) ==> r.post_channel_id == gd.post_channel_id
            &&& !(f is Post) ==> r.post == gd.post
            &&& !(f is ClanTag) ==> r.clan_tag == gd.clan_tag
            &&& !(f is PeriodIndex) ==> r.period_index == gd.period_index
        }),
{
}

/// The same holds of the stored part: each edit of a stored field sets
/// it to the edit's value and leaves the others as they were, and the
/// edits of the fields that are not stored change nothing.
pub proof fn lemma_stored_edit_sets_its_field(p: PartialGuildData, f: GuildDataEditableField)
    ensures
        ({
            let r = p.edited(f);
            &&& f matches GuildDataEditableField::UpdateInterval(v) ==> r.update_interval == v
            &&& f matches GuildDataEditableField::Run(v) ==> r.run == v
            &&& f matches GuildDataEditableField::PostChannelId(v) ==> r.post_channel_id == v
            &&& f matches GuildDataEditableField::Post(v) ==> r.post_id == v
            &&& f matches GuildDataEditableField::ClanTag(v) ==> r.clan_tag == v
            &&& f matches GuildDataEditableField::PeriodIndex(v) ==> r.period_index == v
            &&& (f is IsNewMessage || f is UpdatePost) ==> r == p
            &&& !(f is UpdateInterval) ==> r.update_interval == p.update_interval
            &&& !(f is Run) ==> r.run == p.run
            &&& !(f is PostChannelId) ==> r.post_channel_id == p.post_channel_id
            &&& !(f is Post) ==> r.post_id == p.post_id
            &&& !(f is ClanTag) ==> r.clan_tag == p.clan_tag
            &&& !(f is PeriodIndex) ==> r.period_index == p.period_index
        }),
{
}

} // verus!
