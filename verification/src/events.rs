//! The events that a shard's transport delivers, and the actions that the
//! handlers ask their caller to carry out, all as plain values.

use crate::correlator::Delivery;
use crate::entity::{CachedUser, CachedUserView, Role};
use vstd::prelude::*;

verus! {

/// The account that the process is connected as.
#[derive(Debug, PartialEq, Eq)]
pub struct CurrentUser {
    pub id: u64,
    pub name: String,
    pub discriminator: String,
}

/// Who wrote a message.
#[derive(Debug, PartialEq, Eq)]
pub struct Author {
    pub id: u64,
    pub name: String,
    pub bot: bool,
}

/// A message that was posted. `kind` is the number of the message's type.
#[derive(Debug, PartialEq, Eq)]
pub struct Message {
    pub id: u64,
    pub channel_id: u64,
    pub guild_id: Option<u64>,
    pub author: Author,
    pub content: String,
    pub kind: u8,
    pub pinned: bool,
}

/// A guild that has become available, with what its first snapshot holds.
/// `expected_members` is the number of members still to arrive in chunks, where
/// the gateway announces it.
#[derive(Debug, PartialEq, Eq)]
pub struct GuildAvailable {
    pub id: u64,
    pub name: String,
    pub expected_members: Option<u32>,
    pub channels: Vec<u64>,
    pub roles: Vec<Role>,
}

/// One batch of members, sent in reply to a bulk request. The chunk whose
/// index is the last of `chunk_count` closes the guild's initial snapshot.
#[derive(Debug, PartialEq, Eq)]
pub struct MemberChunk {
    pub guild_id: u64,
    pub nonce: Option<String>,
    pub members: Vec<CachedUser>,
    pub chunk_index: u32,
    pub chunk_count: u32,
}

/// What a member chunk is, with its texts as sequences of characters.
pub struct MemberChunkView {
    pub guild_id: u64,
    pub nonce: Option<Seq<char>>,
    pub members: Seq<CachedUserView>,
    pub chunk_index: u32,
    pub chunk_count: u32,
}

/// The views of a list of users.
pub open spec fn user_views(users: Seq<CachedUser>) -> Seq<CachedUserView> {
    Seq::new(users.len(), |i: int| users[i]@)
}

impl View for MemberChunk {
    type V = MemberChunkView;

    open spec fn view(&self) -> MemberChunkView {
        MemberChunkView {
            guild_id: self.guild_id,
            nonce: crate::entity::text_view(self.nonce),
            members: user_views(self.members@),
            chunk_index: self.chunk_index,
            chunk_count: self.chunk_count,
        }
    }
}

impl Clone for MemberChunk {
    fn clone(&self) -> (copy: Self)
        ensures
            copy@ == self@,
    {
        let nonce = match &self.nonce {
            Some(nonce) => Some(nonce.clone()),
            None => None,
        };
        let mut members: Vec<CachedUser> = Vec::new();
        let mut i: usize = 0;
        while i < self.members.len()
            invariant
                i <= self.members.len(),
                members@.len() == i,
                forall|j: int| 0 <= j < i ==> (#[trigger] members@[j])@ == self.members@[j]@,
            decreases self.members.len() - i,
        {
            members.push(self.members[i].clone());
            i = i + 1;
        }
        assert(user_views(members@) =~= user_views(self.members@));
        MemberChunk {
            guild_id: self.guild_id,
            nonce,
            members,
            chunk_index: self.chunk_index,
            chunk_count: self.chunk_count,
        }
    }
}

impl MemberChunk {
    /// How many members the chunk brings, stopping at `u32::MAX`.
    pub open spec fn spec_arrivals(&self) -> u32 {
        if self.members@.len() <= u32::MAX {
            self.members@.len() as u32
        } else {
            u32::MAX
        }
    }

    /// Whether the chunk is the last of its series.
    pub open spec fn spec_is_last(&self) -> bool {
        self.chunk_index + 1 >= self.chunk_count
    }

    /// How many members the chunk brings, stopping at `u32::MAX`.
    #[verifier::when_used_as_spec(spec_arrivals)]
    pub fn arrivals(&self) -> (arrivals: u32)
        ensures
            arrivals == self.spec_arrivals(),
    {
        let len = self.members.len();
        if len <= 0xffff_ffff {
            len as u32
        } else {
            u32::MAX
        }
    }

    /// Whether the chunk is the last of its series.
    #[verifier::when_used_as_spec(spec_is_last)]
    pub fn is_last(&self) -> (last: bool)
        ensures
            last == self.spec_is_last(),
    {
        self.chunk_index >= self.chunk_count || self.chunk_index + 1 == self.chunk_count
    }
}

/// What a shard's transport delivers.
#[derive(Debug, PartialEq, Eq)]
pub enum Event {
    ShardConnecting,
    ShardIdentifying,
    ShardConnected,
    ShardResuming,
    ShardReconnecting,
    ShardDisconnected,
    /// The shard has identified and is up.
    Ready,
    /// The shard has taken up its earlier session again.
    Resumed,
    /// The gateway's greeting, with the heartbeat interval in milliseconds.
    GatewayHello(u64),
    /// The session was invalidated; the flag says whether it can be resumed.
    GatewayInvalidateSession(bool),
    /// The gateway asks the shard to reconnect.
    GatewayReconnect,
    GuildCreate(GuildAvailable),
    /// The guild was removed or has become unavailable.
    GuildDelete { id: u64 },
    RoleCreate { guild_id: u64, role: Role },
    RoleUpdate { guild_id: u64, role: Role },
    RoleDelete { guild_id: u64, role_id: u64 },
    MemberChunk(MemberChunk),
    MessageCreate(Message),
    /// Any other event.
    Other,
}

/// What kind of activity a presence shows.
#[derive(Clone, Copy, Debug, PartialEq, Eq, Structural)]
pub enum ActivityType {
    Playing,
    Streaming,
    Listening,
    Watching,
    Custom,
    Competing,
}

/// The online status that a presence shows.
#[derive(Clone, Copy, Debug, PartialEq, Eq, Structural)]
pub enum Status {
    Online,
    Idle,
    DoNotDisturb,
    Invisible,
    Offline,
}

/// The activity that a presence shows: its kind and its text. Every other
/// attribute of an activity is left unset.
#[derive(Debug, PartialEq, Eq)]
pub struct Activity {
    pub kind: ActivityType,
    pub name: String,
}

/// The presence update that a shard is to send.
#[derive(Debug, PartialEq, Eq)]
pub struct UpdateStatus {
    pub afk: bool,
    pub activity: Activity,
    pub since: Option<u64>,
    pub status: Status,
}

/// What the caller of a handler is to carry out.
#[derive(Debug, PartialEq, Eq)]
pub enum Action {
    /// Nothing.
    Nothing,
    /// Send the presence update on the shard that delivered the event.
    UpdateStatus(UpdateStatus),
    /// Hand the chunk to the waiter named.
    DeliverChunk(Delivery<MemberChunk>),
}

/// What an action is, with its texts as sequences of characters.
pub enum ActionView {
    Nothing,
    UpdateStatus { afk: bool, kind: ActivityType, name: Seq<char>, since: Option<u64>, status: Status },
    DeliverChunk { waiter: crate::correlator::WaiterHandle, payload: MemberChunkView },
}

impl View for Action {
    type V = ActionView;

    open spec fn view(&self) -> ActionView {
        match self {
            Action::Nothing => ActionView::Nothing,
            Action::UpdateStatus(update) => ActionView::UpdateStatus {
                afk: update.afk,
                kind: update.activity.kind,
                name: update.activity.name@,
                since: update.since,
                status: update.status,
            },
            Action::DeliverChunk(delivery) => ActionView::DeliverChunk {
                waiter: delivery.waiter,
                payload: delivery.payload@,
            },
        }
    }
}

/// What ends a shard's event handling.
#[derive(Clone, Copy, Debug, PartialEq, Eq, Structural)]
pub enum Error {
    /// The gateway invalidated the session and it cannot be resumed.
    InvalidSession,
}

} // verus!
