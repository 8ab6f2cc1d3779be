//! Game events: everything that the game client can be told about.

use vstd::prelude::*;
use crate::plid::PlayerId;
use crate::grid::pos::Pos;
use crate::time::MwDur;
use super::{ItemKind, StructureKind, TileKind};

verus! {

/// An event as seen from the view of one player.
#[derive(Debug, Clone, PartialEq, Eq)]
pub struct GameEvent {
    pub plid: PlayerId,
    pub ev: MwEv,
}

impl GameEvent {
    /// Pair an event with the view it is for.
    pub fn from_pair(pair: (PlayerId, MwEv)) -> (r: GameEvent)
        ensures
            r.plid == pair.0,
            r.ev == pair.1,
    {
        GameEvent { plid: pair.0, ev: pair.1 }
    }
}

/// All events that the game client can handle.
#[derive(Debug, Clone, PartialEq, Eq)]
pub enum MwEv {
    Nop,
    Debug(u8, Pos),
    Player {
        plid: PlayerId,
        subplid: Option<u8>,
        ev: PlayerEv,
    },
    Tremor,
    Smoke {
        pos: Pos,
    },
    Unsmoke {
        pos: Pos,
    },
    CitMoney {
        cit: u8,
        money: u32,
    },
    CitIncome {
        cit: u8,
        money: u32,
        income: u16,
    },
    CitMoneyTransact {
        cit: u8,
        amount: i16,
    },
    CitRes {
        cit: u8,
        res: u16,
    },
    CitTradeInfo {
        cit: u8,
        export: u8,
        import: u8,
    },
    Flag {
        plid: PlayerId,
        pos: Pos,
    },
    StructureGone {
        pos: Pos,
    },
    StructureHp {
        pos: Pos,
        hp: u8,
    },
    Explode {
        pos: Pos,
    },
    BuildNew {
        pos: Pos,
        kind: StructureKind,
        pts: u16,
    },
    Construction {
        pos: Pos,
        current: u16,
        rate: u16,
    },
    RevealStructure {
        pos: Pos,
        kind: StructureKind,
    },
    DigitCapture {
        pos: Pos,
        digit: u8,
        asterisk: bool,
    },
    RevealItem {
        pos: Pos,
        item: ItemKind,
    },
    TileKind {
        pos: Pos,
        kind: TileKind,
    },
    TileOwner {
        pos: Pos,
        plid: PlayerId,
    },
}

/// Events about a player.
#[derive(Debug, Clone, PartialEq, Eq)]
pub enum PlayerEv {
    Joined {
        name: String,
    },
    NetRttInfo {
        duration: MwDur,
    },
    Timeout {
        duration: MwDur,
    },
    TimeoutFinished,
    Exploded {
        pos: Pos,
        killer: PlayerId,
    },
    LivesRemain {
        lives: u8,
    },
    Protected,
    Unprotected,
    Eliminated,
    Surrendered,
    Disconnected,
    Kicked,
    MatchTimeRemain {
        secs: u16,
    },
    ChatFriendly {
        text: String,
    },
    ChatAll {
        text: String,
    },
    VoteNew {
        id: u8,
        l10nkey: String,
    },
    VoteNo {
        id: u8,
    },
    VoteYes {
        id: u8,
    },
    VoteFail {
        id: u8,
    },
    VotePass {
        id: u8,
    },
}


/// The mathematical value of a [`PlayerEv`]: its text fields as character sequences.
pub enum PlayerEvV {
    Joined { name: Seq<char> },
    NetRttInfo { duration: MwDur },
    Timeout { duration: MwDur },
    TimeoutFinished,
    Exploded { pos: Pos, killer: PlayerId },
    LivesRemain { lives: u8 },
    Protected,
    Unprotected,
    Eliminated,
    Surrendered,
    Disconnected,
    Kicked,
    MatchTimeRemain { secs: u16 },
    ChatFriendly { text: Seq<char> },
    ChatAll { text: Seq<char> },
    VoteNew { id: u8, l10nkey: Seq<char> },
    VoteNo { id: u8 },
    VoteYes { id: u8 },
    VoteFail { id: u8 },
    VotePass { id: u8 },
}

/// The mathematical value of a [`MwEv`]: the same event, with the text of
/// player events as character sequences.
pub enum MwEvV {
    Nop,
    Debug(u8, Pos),
    Player { plid: PlayerId, subplid: Option<u8>, ev: PlayerEvV },
    Tremor,
    Smoke { pos: Pos },
    Unsmoke { pos: Pos },
    CitMoney { cit: u8, money: u32 },
    CitIncome { cit: u8, money: u32, income: u16 },
    CitMoneyTransact { cit: u8, amount: i16 },
    CitRes { cit: u8, res: u16 },
    CitTradeInfo { cit: u8, export: u8, import: u8 },
    Flag { plid: PlayerId, pos: Pos },
    StructureGone { pos: Pos },
    StructureHp { pos: Pos, hp: u8 },
    Explode { pos: Pos },
    BuildNew { pos: Pos, kind: StructureKind, pts: u16 },
    Construction { pos: Pos, current: u16, rate: u16 },
    RevealStructure { pos: Pos, kind: StructureKind },
    DigitCapture { pos: Pos, digit: u8, asterisk: bool },
    RevealItem { pos: Pos, item: ItemKind },
    TileKind { pos: Pos, kind: TileKind },
    TileOwner { pos: Pos, plid: PlayerId },
}

impl View for PlayerEv {
    type V = PlayerEvV;

    open spec fn view(&self) -> PlayerEvV {
        match self {
            PlayerEv::Joined { name } => PlayerEvV::Joined { name: name@ },
            PlayerEv::NetRttInfo { duration } => PlayerEvV::NetRttInfo { duration: *duration },
            PlayerEv::Timeout { duration } => PlayerEvV::Timeout { duration: *duration },
            PlayerEv::TimeoutFinished => PlayerEvV::TimeoutFinished,
            PlayerEv::Exploded { pos, killer } => PlayerEvV::Exploded { pos: *pos, killer: *killer },
            PlayerEv::LivesRemain { lives } => PlayerEvV::LivesRemain { lives: *lives },
            PlayerEv::Protected => PlayerEvV::Protected,
            PlayerEv::Unprotected => PlayerEvV::Unprotected,
            PlayerEv::Eliminated => PlayerEvV::Eliminated,
            PlayerEv::Surrendered => PlayerEvV::Surrendered,
            PlayerEv::Disconnected => PlayerEvV::Disconnected,
            PlayerEv::Kicked => PlayerEvV::Kicked,
            PlayerEv::MatchTimeRemain { secs } => PlayerEvV::MatchTimeRemain { secs: *secs },
            PlayerEv::ChatFriendly { text } => PlayerEvV::ChatFriendly { text: text@ },
            PlayerEv::ChatAll { text } => PlayerEvV::ChatAll { text: text@ },
            PlayerEv::VoteNew { id, l10nkey } => PlayerEvV::VoteNew { id: *id, l10nkey: l10nkey@ },
            PlayerEv::VoteNo { id } => PlayerEvV::VoteNo { id: *id },
            PlayerEv::VoteYes { id } => PlayerEvV::VoteYes { id: *id },
            PlayerEv::VoteFail { id } => PlayerEvV::VoteFail { id: *id },
            PlayerEv::VotePass { id } => PlayerEvV::VotePass { id: *id },
        }
    }
}

impl View for MwEv {
    type V = MwEvV;

    open spec fn view(&self) -> MwEvV {
        match self {
            MwEv::Nop => MwEvV::Nop,
            MwEv::Debug(i, pos) => MwEvV::Debug(*i, *pos),
            MwEv::Player { plid, subplid, ev } => MwEvV::Player { plid: *plid, subplid: *subplid, ev: ev@ },
            MwEv::Tremor => MwEvV::Tremor,
            MwEv::Smoke { pos } => MwEvV::Smoke { pos: *pos },
            MwEv::Unsmoke { pos } => MwEvV::Unsmoke { pos: *pos },
            MwEv::CitMoney { cit, money } => MwEvV::CitMoney { cit: *cit, money: *money },
            MwEv::CitIncome { cit, money, income } => MwEvV::CitIncome { cit: *cit, money: *money, income: *income },
            MwEv::CitMoneyTransact { cit, amount } => MwEvV::CitMoneyTransact { cit: *cit, amount: *amount },
            MwEv::CitRes { cit, res } => MwEvV::CitRes { cit: *cit, res: *res },
            MwEv::CitTradeInfo { cit, export, import } => MwEvV::CitTradeInfo { cit: *cit, export: *export, import: *import },
            MwEv::Flag { plid, pos } => MwEvV::Flag { plid: *plid, pos: *pos },
            MwEv::StructureGone { pos } => MwEvV::StructureGone { pos: *pos },
            MwEv::StructureHp { pos, hp } => MwEvV::StructureHp { pos: *pos, hp: *hp },
            MwEv::Explode { pos } => MwEvV::Explode { pos: *pos },
            MwEv::BuildNew { pos, kind, pts } => MwEvV::BuildNew { pos: *pos, kind: *kind, pts: *pts },
            MwEv::Construction { pos, current, rate } => MwEvV::Construction { pos: *pos, current: *current, rate: *rate },
            MwEv::RevealStructure { pos, kind } => MwEvV::RevealStructure { pos: *pos, kind: *kind },
            MwEv::DigitCapture { pos, digit, asterisk } => MwEvV::DigitCapture { pos: *pos, digit: *digit, asterisk: *asterisk },
            MwEv::RevealItem { pos, item } => MwEvV::RevealItem { pos: *pos, item: *item },
            MwEv::TileKind { pos, kind } => MwEvV::TileKind { pos: *pos, kind: *kind },
            MwEv::TileOwner { pos, plid } => MwEvV::TileOwner { pos: *pos, plid: *plid },
        }
    }
}

/// The priority class to use when sending a message or stream.
///
/// When using a flexible multi-stream transport such as QUIC, a separate stream
/// can be used for each class, to improve the reliability and performance of
/// the gameplay experience. If a stream contains messages of mixed class, the
/// top-most class should be used.
#[derive(Debug, Clone, Copy, PartialEq, Eq, PartialOrd, Ord, Hash, Structural)]
pub enum MessageClass {
    /// Messages that affect the game world as observed by multiple players.
    /// Reliable, ordered, highest priority.
    PvP,
    /// Messages that are seen by multiple players, but do not affect the game world.
    /// Reliable, ordered, medium priority.
    Notification,
    /// Messages that only affect the player receiving them.
    /// Reliable, ordered, lower priority.
    Personal,
    /// Messages that are not directly involved in gameplay.
    /// Reliable, ordered, lowest priority.
    Background,
    /// Messages for real-time updates that can be dropped.
    /// Can be sent as datagrams.
    Unreliable,
}

/// The priority class of an event.
pub open spec fn class_of(ev: MwEv) -> MessageClass {
    match ev {
        MwEv::Nop => MessageClass::Unreliable,
        MwEv::Debug(_, _) => MessageClass::Background,
        MwEv::Player { ev, .. } => match ev {
            PlayerEv::NetRttInfo { .. } => MessageClass::Unreliable,
            PlayerEv::ChatAll { .. } | PlayerEv::ChatFriendly { .. } | PlayerEv::VoteNew { .. }
            | PlayerEv::VoteNo { .. } | PlayerEv::VoteYes { .. } | PlayerEv::VoteFail { .. }
            | PlayerEv::VotePass { .. } => MessageClass::Background,
            _ => MessageClass::Notification,
        },
        MwEv::Tremor => MessageClass::Background,
        MwEv::Smoke { .. } | MwEv::Unsmoke { .. } => MessageClass::PvP,
        MwEv::CitMoney { .. } => MessageClass::Unreliable,
        MwEv::CitIncome { .. } | MwEv::CitMoneyTransact { .. } | MwEv::CitRes { .. }
        | MwEv::CitTradeInfo { .. } => MessageClass::Personal,
        MwEv::Flag { .. } | MwEv::StructureGone { .. } | MwEv::StructureHp { .. }
        | MwEv::Explode { .. } => MessageClass::PvP,
        MwEv::BuildNew { .. } => MessageClass::Personal,
        MwEv::Construction { .. } => MessageClass::Unreliable,
        MwEv::RevealStructure { .. } | MwEv::DigitCapture { .. } | MwEv::RevealItem { .. }
        | MwEv::TileKind { .. } | MwEv::TileOwner { .. } => MessageClass::PvP,
    }
}

impl MwEv {
    /// The priority class to send this event with.
    pub fn message_class(self) -> (c: MessageClass)
        ensures
            c == class_of(self),
    {
        match self {
            MwEv::Nop => MessageClass::Unreliable,
            MwEv::Debug(_, _) => MessageClass::Background,
            MwEv::Player { ev, .. } => match ev {
                PlayerEv::NetRttInfo { .. } => MessageClass::Unreliable,
                PlayerEv::ChatAll { .. } => MessageClass::Background,
                PlayerEv::ChatFriendly { .. } => MessageClass::Background,
                PlayerEv::VoteNew { .. } => MessageClass::Background,
                PlayerEv::VoteNo { .. } => MessageClass::Background,
                PlayerEv::VoteYes { .. } => MessageClass::Background,
                PlayerEv::VoteFail { .. } => MessageClass::Background,
                PlayerEv::VotePass { .. } => MessageClass::Background,
                _ => MessageClass::Notification,
            },
            MwEv::Tremor => MessageClass::Background,
            MwEv::Smoke { .. } => MessageClass::PvP,
            MwEv::Unsmoke { .. } => MessageClass::PvP,
            MwEv::CitMoney { .. } => MessageClass::Unreliable,
            MwEv::CitIncome { .. } => MessageClass::Personal,
            MwEv::CitMoneyTransact { .. } => MessageClass::Personal,
            MwEv::CitRes { .. } => MessageClass::Personal,
            MwEv::CitTradeInfo { .. } => MessageClass::Personal,
            MwEv::Flag { .. } => MessageClass::PvP,
            MwEv::StructureGone { .. } => MessageClass::PvP,
            MwEv::StructureHp { .. } => MessageClass::PvP,
            MwEv::Explode { .. } => MessageClass::PvP,
            MwEv::BuildNew { .. } => MessageClass::Personal,
            MwEv::Construction { .. } => MessageClass::Unreliable,
            MwEv::RevealStructure { .. } => MessageClass::PvP,
            MwEv::DigitCapture { .. } => MessageClass::PvP,
            MwEv::RevealItem { .. } => MessageClass::PvP,
            MwEv::TileKind { .. } => MessageClass::PvP,
            MwEv::TileOwner { .. } => MessageClass::PvP,
        }
    }
}

} // verus!
