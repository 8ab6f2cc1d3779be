//! The low-level representation of messages, which maps directly to the
//! binary encodings, and the conversions of the game's kinds into it.

use vstd::prelude::*;
use crate::plid::PlayerId;
use crate::grid::pos::Pos;
use crate::time::MwDur;
use crate::game::{ItemKind, StructureKind, TileKind};
use crate::game::event::{MwEv, MwEvV, PlayerEv, PlayerEvV};

verus! {

/// Low-level representation of messages.
#[derive(Debug, Clone, Copy, PartialEq, Eq, Hash, Structural)]
pub enum Msg {
    Nop,
    Player { plid: PlayerId, subplid: Option<u8>, status: MsgPlayer },
    Tremor,
    Smoke { pos: Pos },
    Unsmoke { pos: Pos },
    CitMoney { cit: u8, money: u32 },
    CitIncome { cit: u8, money: u32, income: u16 },
    CitMoneyTransact { cit: u8, amount: i16 },
    CitRes { cit: u8, res: u16 },
    CitTradeInfo { cit: u8, export: u8, import: u8 },
    Flag { plid: PlayerId, pos: Pos },
    StructureGone { pos: Pos },
    StructureHp { pos: Pos, hp: u8 },
    Explode { pos: Pos },
    BuildNew { pos: Pos, kind: MsgStructureKind, pts: u16 },
    Construction { pos: Pos, current: u16, rate: u16 },
    RevealStructure { pos: Pos, kind: MsgStructureKind },
    DigitCapture { pos: Pos, digit: u8, asterisk: bool },
    RevealItem { pos: Pos, item: MsgItem },
    TileKind { pos: Pos, kind: MsgTileKind },
    TileOwner { pos: Pos, plid: PlayerId },
}

/// Low-level representation of player status messages.
#[derive(Debug, Clone, Copy, PartialEq, Eq, Hash, Structural)]
pub enum MsgPlayer {
    Joined,
    NetRttInfo { duration: MwDur },
    Timeout { duration: MwDur },
    TimeoutFinished,
    Exploded { pos: Pos, killer: PlayerId },
    LivesRemain { lives: u8 },
    Protected,
    Unprotected,
    Eliminated,
    Surrendered,
    Disconnected,
    Kicked,
    MatchTimeRemain { secs: u16 },
}

/// Tile kinds as messages encode them.
#[derive(Debug, Clone, Copy, PartialEq, Eq, PartialOrd, Ord, Hash, Structural)]
pub enum MsgTileKind {
    Water,
    Mountain,
    Forest,
    Destroyed,
    Foundation,
    Regular,
    Fertile,
}

/// Item kinds as messages encode them.
#[derive(Debug, Clone, Copy, PartialEq, Eq, PartialOrd, Ord, Hash, Structural)]
pub enum MsgItem {
    NoItem,
    Decoy,
    Mine,
    Trap,
}

/// Structure kinds as messages encode them.
#[derive(Debug, Clone, Copy, PartialEq, Eq, PartialOrd, Ord, Hash, Structural)]
pub enum MsgStructureKind {
    Road,
    Bridge,
    Wall,
    Tower,
}

impl MsgTileKind {
    /// The number that encodes the kind (1 is unused).
    pub open spec fn code(self) -> u8 {
        match self {
            MsgTileKind::Water => 0,
            MsgTileKind::Mountain => 2,
            MsgTileKind::Forest => 3,
            MsgTileKind::Destroyed => 4,
            MsgTileKind::Foundation => 5,
            MsgTileKind::Regular => 6,
            MsgTileKind::Fertile => 7,
        }
    }

    /// The kind that a number encodes, if any.
    pub open spec fn from_code(v: u8) -> Option<MsgTileKind> {
        if v == 0 { Some(MsgTileKind::Water) }
        else if v == 2 { Some(MsgTileKind::Mountain) }
        else if v == 3 { Some(MsgTileKind::Forest) }
        else if v == 4 { Some(MsgTileKind::Destroyed) }
        else if v == 5 { Some(MsgTileKind::Foundation) }
        else if v == 6 { Some(MsgTileKind::Regular) }
        else if v == 7 { Some(MsgTileKind::Fertile) }
        else { None }
    }

    /// The number that encodes the kind.
    pub fn to_u8(self) -> (r: u8)
        ensures
            r == self.code(),
    {
        match self {
            MsgTileKind::Water => 0,
            MsgTileKind::Mountain => 2,
            MsgTileKind::Forest => 3,
            MsgTileKind::Destroyed => 4,
            MsgTileKind::Foundation => 5,
            MsgTileKind::Regular => 6,
            MsgTileKind::Fertile => 7,
        }
    }

    /// The kind that a number encodes, if any.
    pub fn from_u8(v: u8) -> (r: Option<MsgTileKind>)
        ensures
            r == MsgTileKind::from_code(v),
            r matches Some(k) ==> k.code() == v,
    {
        if v == 0 { Some(MsgTileKind::Water) }
        else if v == 2 { Some(MsgTileKind::Mountain) }
        else if v == 3 { Some(MsgTileKind::Forest) }
        else if v == 4 { Some(MsgTileKind::Destroyed) }
        else if v == 5 { Some(MsgTileKind::Foundation) }
        else if v == 6 { Some(MsgTileKind::Regular) }
        else if v == 7 { Some(MsgTileKind::Fertile) }
        else { None }
    }
}

impl MsgItem {
    /// The number that encodes the kind.
    pub open spec fn code(self) -> u8 {
        match self {
            MsgItem::NoItem => 0,
            MsgItem::Decoy => 1,
            MsgItem::Mine => 2,
            MsgItem::Trap => 3,
        }
    }

    /// The number that encodes the kind.
    pub fn to_u8(self) -> (r: u8)
        ensures
            r == self.code(),
    {
        match self {
            MsgItem::NoItem => 0,
            MsgItem::Decoy => 1,
            MsgItem::Mine => 2,
            MsgItem::Trap => 3,
        }
    }

    /// The kind that a number encodes, if any.
    pub fn from_u8(v: u8) -> (r: Option<MsgItem>)
        ensures
            v < 4 <==> r is Some,
            r matches Some(k) ==> k.code() == v,
    {
        if v == 0 { Some(MsgItem::NoItem) }
        else if v == 1 { Some(MsgItem::Decoy) }
        else if v == 2 { Some(MsgItem::Mine) }
        else if v == 3 { Some(MsgItem::Trap) }
        else { None }
    }
}

impl MsgStructureKind {
    /// The number that encodes the kind.
    pub open spec fn code(self) -> u8 {
        match self {
            MsgStructureKind::Road => 0,
            MsgStructureKind::Bridge => 1,
            MsgStructureKind::Wall => 2,
            MsgStructureKind::Tower => 3,
        }
    }

    /// The number that encodes the kind.
    pub fn to_u8(self) -> (r: u8)
        ensures
            r == self.code(),
    {
        match self {
            MsgStructureKind::Road => 0,
            MsgStructureKind::Bridge => 1,
            MsgStructureKind::Wall => 2,
            MsgStructureKind::Tower => 3,
        }
    }

    /// The kind that a number encodes, if any.
    pub fn from_u8(v: u8) -> (r: Option<MsgStructureKind>)
        ensures
            v < 4 <==> r is Some,
            r matches Some(k) ==> k.code() == v,
    {
        if v == 0 { Some(MsgStructureKind::Road) }
        else if v == 1 { Some(MsgStructureKind::Bridge) }
        else if v == 2 { Some(MsgStructureKind::Wall) }
        else if v == 3 { Some(MsgStructureKind::Tower) }
        else { None }
    }
}

/// The message tile kind of a game tile kind: both kinds of foundation
/// become `Foundation`.
pub open spec fn msg_tile_kind(k: TileKind) -> MsgTileKind {
    match k {
        TileKind::Water => MsgTileKind::Water,
        TileKind::FoundationRoad => MsgTileKind::Foundation,
        TileKind::FoundationStruct => MsgTileKind::Foundation,
        TileKind::Regular => MsgTileKind::Regular,
        TileKind::Fertile => MsgTileKind::Fertile,
        TileKind::Forest => MsgTileKind::Forest,
        TileKind::Mountain => MsgTileKind::Mountain,
        TileKind::Destroyed => MsgTileKind::Destroyed,
    }
}

/// The message item kind of a game item kind: a safe tile holds `None`.
pub open spec fn msg_item(k: ItemKind) -> MsgItem {
    match k {
        ItemKind::Safe => MsgItem::NoItem,
        ItemKind::Mine => MsgItem::Mine,
        ItemKind::Decoy => MsgItem::Decoy,
        ItemKind::Trap => MsgItem::Trap,
    }
}

/// The message structure kind of a game structure kind: a barricade is a
/// `Wall`, a watch tower a `Tower`.
pub open spec fn msg_structure_kind(k: StructureKind) -> MsgStructureKind {
    match k {
        StructureKind::Road => MsgStructureKind::Road,
        StructureKind::Barricade => MsgStructureKind::Wall,
        StructureKind::WatchTower => MsgStructureKind::Tower,
        StructureKind::Bridge => MsgStructureKind::Bridge,
    }
}

impl From<TileKind> for MsgTileKind {
    fn from(value: TileKind) -> (r: Self) {
        match value {
            TileKind::Water => MsgTileKind::Water,
            TileKind::FoundationRoad => MsgTileKind::Foundation,
            TileKind::FoundationStruct => MsgTileKind::Foundation,
            TileKind::Regular => MsgTileKind::Regular,
            TileKind::Fertile => MsgTileKind::Fertile,
            TileKind::Forest => MsgTileKind::Forest,
            TileKind::Mountain => MsgTileKind::Mountain,
            TileKind::Destroyed => MsgTileKind::Destroyed,
        }
    }
}

impl vstd::std_specs::convert::FromSpecImpl<TileKind> for MsgTileKind {
    open spec fn obeys_from_spec() -> bool {
        true
    }

    open spec fn from_spec(value: TileKind) -> MsgTileKind {
        msg_tile_kind(value)
    }
}

impl From<ItemKind> for MsgItem {
    fn from(value: ItemKind) -> (r: Self) {
        match value {
            ItemKind::Safe => MsgItem::NoItem,
            ItemKind::Mine => MsgItem::Mine,
            ItemKind::Decoy => MsgItem::Decoy,
            ItemKind::Trap => MsgItem::Trap,
        }
    }
}

impl vstd::std_specs::convert::FromSpecImpl<ItemKind> for MsgItem {
    open spec fn obeys_from_spec() -> bool {
        true
    }

    open spec fn from_spec(value: ItemKind) -> MsgItem {
        msg_item(value)
    }
}

impl From<StructureKind> for MsgStructureKind {
    fn from(value: StructureKind) -> (r: Self) {
        match value {
            StructureKind::Road => MsgStructureKind::Road,
            StructureKind::Barricade => MsgStructureKind::Wall,
            StructureKind::WatchTower => MsgStructureKind::Tower,
            StructureKind::Bridge => MsgStructureKind::Bridge,
        }
    }
}

impl vstd::std_specs::convert::FromSpecImpl<StructureKind> for MsgStructureKind {
    open spec fn obeys_from_spec() -> bool {
        true
    }

    open spec fn from_spec(value: StructureKind) -> MsgStructureKind {
        msg_structure_kind(value)
    }
}

/// The player events that have no low-level message: chat and votes.
pub open spec fn player_ev_has_msg(ev: PlayerEvV) -> bool {
    match ev {
        PlayerEvV::ChatFriendly { .. } | PlayerEvV::ChatAll { .. } | PlayerEvV::VoteNew { .. }
        | PlayerEvV::VoteNo { .. } | PlayerEvV::VoteYes { .. } | PlayerEvV::VoteFail { .. }
        | PlayerEvV::VotePass { .. } => false,
        _ => true,
    }
}

/// Whether an event has a low-level message: all but the chat and vote
/// events of players.
pub open spec fn ev_has_msg(ev: MwEvV) -> bool {
    match ev {
        MwEvV::Player { ev, .. } => player_ev_has_msg(ev),
        _ => true,
    }
}

/// The player status message of a player event (a join keeps no name).
pub open spec fn msg_player_of(ev: PlayerEvV) -> MsgPlayer {
    match ev {
        PlayerEvV::Joined { .. } => MsgPlayer::Joined,
        PlayerEvV::NetRttInfo { duration } => MsgPlayer::NetRttInfo { duration },
        PlayerEvV::Timeout { duration } => MsgPlayer::Timeout { duration },
        PlayerEvV::TimeoutFinished => MsgPlayer::TimeoutFinished,
        PlayerEvV::Exploded { pos, killer } => MsgPlayer::Exploded { pos, killer },
        PlayerEvV::LivesRemain { lives } => MsgPlayer::LivesRemain { lives },
        PlayerEvV::Protected => MsgPlayer::Protected,
        PlayerEvV::Unprotected => MsgPlayer::Unprotected,
        PlayerEvV::Eliminated => MsgPlayer::Eliminated,
        PlayerEvV::Surrendered => MsgPlayer::Surrendered,
        PlayerEvV::Disconnected => MsgPlayer::Disconnected,
        PlayerEvV::Kicked => MsgPlayer::Kicked,
        PlayerEvV::MatchTimeRemain { secs } => MsgPlayer::MatchTimeRemain { secs },
        _ => MsgPlayer::Joined,
    }
}

/// The low-level message of an event: the same fields, the kinds as
/// messages encode them, and no message (`Nop`) for debug events.
pub open spec fn msg_of(ev: MwEvV) -> Msg {
    match ev {
        MwEvV::Nop => Msg::Nop,
        MwEvV::Debug(..) => Msg::Nop,
        MwEvV::Player { plid, subplid, ev } => Msg::Player { plid, subplid, status: msg_player_of(ev) },
        MwEvV::Tremor => Msg::Tremor,
        MwEvV::Smoke { pos } => Msg::Smoke { pos },
        MwEvV::Unsmoke { pos } => Msg::Unsmoke { pos },
        MwEvV::CitMoney { cit, money } => Msg::CitMoney { cit, money },
        MwEvV::CitIncome { cit, money, income } => Msg::CitIncome { cit, money, income },
        MwEvV::CitMoneyTransact { cit, amount } => Msg::CitMoneyTransact { cit, amount },
        MwEvV::CitRes { cit, res } => Msg::CitRes { cit, res },
        MwEvV::CitTradeInfo { cit, export, import } => Msg::CitTradeInfo { cit, export, import },
        MwEvV::Flag { plid, pos } => Msg::Flag { plid, pos },
        MwEvV::StructureGone { pos } => Msg::StructureGone { pos },
        MwEvV::StructureHp { pos, hp } => Msg::StructureHp { pos, hp },
        MwEvV::Explode { pos } => Msg::Explode { pos },
        MwEvV::BuildNew { pos, kind, pts } => Msg::BuildNew { pos, kind: msg_structure_kind(kind), pts },
        MwEvV::Construction { pos, current, rate } => Msg::Construction { pos, current, rate },
        MwEvV::RevealStructure { pos, kind } => Msg::RevealStructure { pos, kind: msg_structure_kind(kind) },
        MwEvV::DigitCapture { pos, digit, asterisk } => Msg::DigitCapture { pos, digit, asterisk },
        MwEvV::RevealItem { pos, item } => Msg::RevealItem { pos, item: msg_item(item) },
        MwEvV::TileKind { pos, kind } => Msg::TileKind { pos, kind: msg_tile_kind(kind) },
        MwEvV::TileOwner { pos, plid } => Msg::TileOwner { pos, plid },
    }
}

impl Msg {
    /// The low-level message of a game event (see `msg_of`). Chat and vote
    /// events of players have none.
    pub fn of_ev(ev: &MwEv) -> (r: Msg)
        requires
            ev_has_msg(ev@),
        ensures
            r == msg_of(ev@),
    {
        match ev {
            MwEv::Nop => Msg::Nop,
            MwEv::Debug(..) => Msg::Nop,
            MwEv::Player { plid, subplid, ev } => {
                let status = match ev {
                    PlayerEv::Joined { .. } => MsgPlayer::Joined,
                    PlayerEv::NetRttInfo { duration } => MsgPlayer::NetRttInfo { duration: *duration },
                    PlayerEv::Timeout { duration } => MsgPlayer::Timeout { duration: *duration },
                    PlayerEv::TimeoutFinished => MsgPlayer::TimeoutFinished,
                    PlayerEv::Exploded { pos, killer } => MsgPlayer::Exploded { pos: *pos, killer: *killer },
                    PlayerEv::LivesRemain { lives } => MsgPlayer::LivesRemain { lives: *lives },
                    PlayerEv::Protected => MsgPlayer::Protected,
                    PlayerEv::Unprotected => MsgPlayer::Unprotected,
                    PlayerEv::Eliminated => MsgPlayer::Eliminated,
                    PlayerEv::Surrendered => MsgPlayer::Surrendered,
                    PlayerEv::Disconnected => MsgPlayer::Disconnected,
                    PlayerEv::Kicked => MsgPlayer::Kicked,
                    PlayerEv::MatchTimeRemain { secs } => MsgPlayer::MatchTimeRemain { secs: *secs },
                    _ => MsgPlayer::Joined,
                };
                Msg::Player { plid: *plid, subplid: *subplid, status }
            },
            MwEv::Tremor => Msg::Tremor,
            MwEv::Smoke { pos } => Msg::Smoke { pos: *pos },
            MwEv::Unsmoke { pos } => Msg::Unsmoke { pos: *pos },
            MwEv::CitMoney { cit, money } => Msg::CitMoney { cit: *cit, money: *money },
            MwEv::CitIncome { cit, money, income } => Msg::CitIncome { cit: *cit, money: *money, income: *income },
            MwEv::CitMoneyTransact { cit, amount } => Msg::CitMoneyTransact { cit: *cit, amount: *amount },
            MwEv::CitRes { cit, res } => Msg::CitRes { cit: *cit, res: *res },
            MwEv::CitTradeInfo { cit, export, import } => Msg::CitTradeInfo { cit: *cit, export: *export, import: *import },
            MwEv::Flag { plid, pos } => Msg::Flag { plid: *plid, pos: *pos },
            MwEv::StructureGone { pos } => Msg::StructureGone { pos: *pos },
            MwEv::StructureHp { pos, hp } => Msg::StructureHp { pos: *pos, hp: *hp },
            MwEv::Explode { pos } => Msg::Explode { pos: *pos },
            MwEv::BuildNew { pos, kind, pts } => Msg::BuildNew { pos: *pos, kind: MsgStructureKind::from(*kind), pts: *pts },
            MwEv::Construction { pos, current, rate } => Msg::Construction { pos: *pos, current: *current, rate: *rate },
            MwEv::RevealStructure { pos, kind } => Msg::RevealStructure { pos: *pos, kind: MsgStructureKind::from(*kind) },
            MwEv::DigitCapture { pos, digit, asterisk } => Msg::DigitCapture { pos: *pos, digit: *digit, asterisk: *asterisk },
            MwEv::RevealItem { pos, item } => Msg::RevealItem { pos: *pos, item: MsgItem::from(*item) },
            MwEv::TileKind { pos, kind } => Msg::TileKind { pos: *pos, kind: MsgTileKind::from(*kind) },
            MwEv::TileOwner { pos, plid } => Msg::TileOwner { pos: *pos, plid: *plid },
        }
    }
}

} // verus!
