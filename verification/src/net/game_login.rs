//! The first message of a game connection: the client's version, cipher
//! key, account, character and password, and the echo of the challenge.
use vstd::prelude::*;
use crate::net::message::{MessageView, NetworkMessage, NETWORK_MESSAGE_MAXSIZE};
use crate::net::protocol_version::ClientVersion;
use crate::net::requests::{rd16, rd32, rd8, rdstr, skip};
use crate::util::date::{date_text, decimal_chars, format_date_short, push_decimal_chars};
use crate::util::text::push_text;
use crate::map::Position;

verus! {

/// The operating system and protocol number a game login announces, and
/// the state after them (and, for 10.98, the 7 bytes of client details).
pub open spec fn game_login_header(m: MessageView, version: ClientVersion) -> (u16, u16, MessageView) {
    let (os, m1) = rd16(m);
    let (v, m2) = rd16(m1);
    (os, v, if version == ClientVersion::V1098 { skip(m2, 7) } else { m2 })
}

/// Reads the header of a game login (see `game_login_header`): the
/// operating system and the protocol number.
pub fn read_game_login_header(msg: &mut NetworkMessage, version: ClientVersion) -> (r: (u16, u16))
    ensures
        (r.0, r.1, final(msg)@) == game_login_header(old(msg)@, version),
{
    let os = msg.get_u16();
    let v = msg.get_u16();
    if version.is_1098() {
        let pos = msg.get_buffer_position();
        if pos as usize + 7 <= NETWORK_MESSAGE_MAXSIZE {
            msg.skip_bytes(7);
        }
    }
    (os, v)
}

/// The index of the first line break in `s` from `i` on, or the length.
pub open spec fn line_end(s: Seq<u8>, i: int) -> int
    decreases s.len() - i,
{
    if i < 0 || i >= s.len() {
        s.len() as int
    } else if s[i] == 10 {
        i
    } else {
        line_end(s, i + 1)
    }
}

/// The account name of a 10.98 session text: its first line.
pub open spec fn session_account(s: Seq<u8>) -> Seq<u8> {
    s.take(line_end(s, 0))
}

/// The password of a 10.98 session text: its second line, empty when
/// there is none.
pub open spec fn session_password(s: Seq<u8>) -> Seq<u8> {
    let e = line_end(s, 0);
    if e >= s.len() {
        Seq::empty()
    } else {
        s.subrange(e + 1, line_end(s, e + 1))
    }
}

fn find_line_end(s: &Vec<u8>, from: usize) -> (e: usize)
    requires
        from <= s@.len(),
    ensures
        e == line_end(s@, from as int),
        from <= e <= s@.len(),
{
    let mut e = from;
    while e < s.len() && s[e] != 10
        invariant
            from <= e <= s@.len(),
            line_end(s@, from as int) == line_end(s@, e as int),
        decreases s@.len() - e,
    {
        e = e + 1;
    }
    e
}

fn copy_range(s: &Vec<u8>, from: usize, to: usize) -> (r: Vec<u8>)
    requires
        from <= to <= s@.len(),
    ensures
        r@ == s@.subrange(from as int, to as int),
{
    let mut r: Vec<u8> = Vec::new();
    let mut i = from;
    while i < to
        invariant
            from <= i <= to,
            to <= s@.len(),
            r@ == s@.subrange(from as int, i as int),
        decreases to - i,
    {
        r.push(s[i]);
        i = i + 1;
        assert(r@ =~= s@.subrange(from as int, i as int));
    }
    r
}

/// Splits a 10.98 session text into account name and password.
pub fn split_session(s: &Vec<u8>) -> (r: (Vec<u8>, Vec<u8>))
    ensures
        r.0@ == session_account(s@),
        r.1@ == session_password(s@),
{
    let e = find_line_end(s, 0);
    let account = copy_range(s, 0, e);
    assert(account@ =~= session_account(s@));
    if e >= s.len() {
        return (account, Vec::new());
    }
    let e2 = find_line_end(s, e + 1);
    let password = copy_range(s, e + 1, e2);
    (account, password)
}

/// The body of a game login, read after its header is deciphered.
#[derive(Debug, Clone, PartialEq, Eq)]
pub struct GameLoginBody {
    pub key: [u32; 4],
    pub account: Vec<u8>,
    pub character: Vec<u8>,
    pub password: Vec<u8>,
    pub timestamp: u32,
    pub random: u8,
}

/// What reading a game login body from `m` gives: the cipher key, a
/// gamemaster flag byte that is skipped, the credentials (a session text
/// and the character for 10.98, else account, character and password),
/// then the challenge echo.
pub open spec fn game_login_body(m: MessageView, version: ClientVersion, b: GameLoginBody, m1: MessageView) -> bool {
    let (k0, ma) = rd32(m);
    let (k1, mb) = rd32(ma);
    let (k2, mc) = rd32(mb);
    let (k3, md) = rd32(mc);
    let me = skip(md, 1);
    let (mf, acc, chr, pwd) = if version == ClientVersion::V1098 {
        let (session, x) = rdstr(me);
        let (c, y) = rdstr(x);
        (y, session_account(session), c, session_password(session))
    } else {
        let (a, x) = rdstr(me);
        let (c, y) = rdstr(x);
        let (p, z) = rdstr(y);
        (z, a, c, p)
    };
    let (ts, mg) = rd32(mf);
    let (rnd, mh) = rd8(mg);
    &&& b.key@ == seq![k0, k1, k2, k3]
    &&& b.account@ == acc
    &&& b.character@ == chr
    &&& b.password@ == pwd
    &&& b.timestamp == ts
    &&& b.random == rnd
    &&& m1 == mh
}

/// Reads the body of a game login (see `game_login_body`).
pub fn read_game_login_body(msg: &mut NetworkMessage, version: ClientVersion) -> (b: GameLoginBody)
    ensures
        game_login_body(old(msg)@, version, b, final(msg)@),
{
    let k0 = msg.get_u32();
    let k1 = msg.get_u32();
    let k2 = msg.get_u32();
    let k3 = msg.get_u32();
    let pos = msg.get_buffer_position();
    if (pos as usize) < NETWORK_MESSAGE_MAXSIZE {
        msg.skip_bytes(1);
    }
    let (account, character, password) = if version.is_1098() {
        let session = msg.get_string(None);
        let (acc, pwd) = split_session(&session);
        let chr = msg.get_string(None);
        (acc, chr, pwd)
    } else {
        let acc = msg.get_string(None);
        let chr = msg.get_string(None);
        let pwd = msg.get_string(None);
        (acc, chr, pwd)
    };
    let timestamp = msg.get_u32();
    let random = msg.get_byte();
    let key = [k0, k1, k2, k3];
    assert(key@ =~= seq![k0, k1, k2, k3]);
    GameLoginBody { key, account, character, password, timestamp, random }
}

/// Why a game login is refused before the account is checked.
#[derive(Debug, Clone, Copy, PartialEq, Eq, Structural)]
pub enum GameLoginRefusal {
    /// No account name was given.
    EmptyAccount,
    /// The challenge echo does not match; the connection is dropped
    /// without a message.
    ChallengeMismatch,
    /// The protocol is outside the server's range, whose lowest number is
    /// given.
    WrongVersion { min: u16 },
}

/// Why a game login with body `b` announcing protocol `client` is
/// refused, if it is: an empty account name first, then a wrong challenge
/// echo, then a protocol outside the range of `version`.
pub open spec fn game_login_refusal(b: GameLoginBody, client: u16, challenge_timestamp: u32, challenge_random: u8, version: ClientVersion) -> Option<GameLoginRefusal> {
    let (min, max) = if version == ClientVersion::V1098 {
        (1097u16, 1098u16)
    } else {
        (860u16, 860u16)
    };
    if b.account@.len() == 0 {
        Some(GameLoginRefusal::EmptyAccount)
    } else if b.timestamp != challenge_timestamp || b.random != challenge_random {
        Some(GameLoginRefusal::ChallengeMismatch)
    } else if client < min || client > max {
        Some(GameLoginRefusal::WrongVersion { min })
    } else {
        None
    }
}

/// Why a game login is refused, if it is (see `game_login_refusal`).
pub fn check_game_login(b: &GameLoginBody, client: u16, challenge_timestamp: u32, challenge_random: u8, version: ClientVersion) -> (r: Option<GameLoginRefusal>)
    ensures
        r == game_login_refusal(*b, client, challenge_timestamp, challenge_random, version),
{
    let min = version.min_version();
    let max = version.max_version();
    if b.account.len() == 0 {
        Some(GameLoginRefusal::EmptyAccount)
    } else if b.timestamp != challenge_timestamp || b.random != challenge_random {
        Some(GameLoginRefusal::ChallengeMismatch)
    } else if client < min || client > max {
        Some(GameLoginRefusal::WrongVersion { min })
    } else {
        None
    }
}

/// The state of the game world as a login sees it.
#[derive(Debug, Clone, Copy, PartialEq, Eq, Structural)]
pub enum WorldState {
    Startup,
    Maintain,
    Closing,
    Closed,
    Open,
}

/// A ban: when it ends (seconds since the epoch; zero or less for never)
/// and why it was given.
#[derive(Debug, Clone)]
pub struct BanInfo {
    pub expires_at: i64,
    pub reason: String,
}

/// What a login needs to know of the character it loaded: whether its
/// group lets it log in always, whether its account is a gamemaster's or
/// higher, whether its group keeps it from being banned, and its account.
#[derive(Debug, Clone, Copy, PartialEq, Eq, Structural)]
pub struct LoginPlayerFacts {
    pub has_can_always_login_flag: bool,
    pub is_game_master_or_above: bool,
    pub cannot_be_banned: bool,
    pub account_number: u32,
}

/// Where a game login stands: waiting for the first message's checks, for
/// the IP ban lookup, the authentication, the character, the account ban
/// lookup, or done.
#[derive(Debug, Clone, Copy, PartialEq, Eq, Structural)]
pub enum GameLoginStage {
    AwaitChecked,
    AwaitIpBan,
    AwaitAuth,
    AwaitPlayer,
    AwaitAccountBan,
    Finished,
}

/// What the outside world reports to a game login.
#[derive(Debug, Clone)]
pub enum GameLoginEvent {
    /// The first message passed its checks; the world is in state `world`.
    Checked { world: WorldState },
    /// The IP ban lookup answered.
    IpBan { ban: Option<BanInfo> },
    /// The account and password were checked.
    Authenticated { ok: bool },
    /// The character was loaded (or not), with the world's state, the
    /// player limit (zero for none) and the number of players online.
    PlayerLoaded { player: Option<LoginPlayerFacts>, world: WorldState, max_players: usize, online: usize },
    /// The account ban lookup answered.
    AccountBan { ban: Option<BanInfo> },
}

/// What a game login asks the outside world to do next.
#[derive(Debug, Clone, PartialEq, Eq)]
pub enum GameLoginAction {
    /// Send `message` and close the connection.
    Disconnect { message: String },
    QueryIpBan,
    Authenticate,
    LoadPlayer,
    QueryAccountBan { account: u32 },
    /// Let the character enter the world.
    Admit,
    /// The event does not belong to this stage; nothing happens.
    Ignore,
}

/// A login action as the contracts see it.
pub enum GameLoginActionView {
    Disconnect(Seq<char>),
    QueryIpBan,
    Authenticate,
    LoadPlayer,
    QueryAccountBan(u32),
    Admit,
    Ignore,
}

/// The view of a login action.
pub open spec fn action_view(a: GameLoginAction) -> GameLoginActionView {
    match a {
        GameLoginAction::Disconnect { message } => GameLoginActionView::Disconnect(message@),
        GameLoginAction::QueryIpBan => GameLoginActionView::QueryIpBan,
        GameLoginAction::Authenticate => GameLoginActionView::Authenticate,
        GameLoginAction::LoadPlayer => GameLoginActionView::LoadPlayer,
        GameLoginAction::QueryAccountBan { account } => GameLoginActionView::QueryAccountBan(account),
        GameLoginAction::Admit => GameLoginActionView::Admit,
        GameLoginAction::Ignore => GameLoginActionView::Ignore,
    }
}

/// The message of ban `b` on the `what` ("IP" or "account"): until when it
/// lasts, or that it is permanent, then its reason.
pub open spec fn ban_text(what: Seq<char>, b: BanInfo) -> Seq<char> {
    if b.expires_at > 0 {
        "Your "@ + what + " has been banned until "@ + date_text(((b.expires_at as u32) / 86400) as int)
            + ".\n\nReason specified:\n"@ + b.reason@
    } else {
        "Your "@ + what + " has been permanently banned.\n\nReason specified:\n"@ + b.reason@
    }
}

/// Whether a character logs in even when the world is closing or closed
/// or full: its group allows it, or its account is a gamemaster's or
/// higher.
pub open spec fn can_always_login(p: LoginPlayerFacts) -> bool {
    p.has_can_always_login_flag || p.is_game_master_or_above
}

/// The next stage and action of a game login at stage `s` on event `e`.
pub open spec fn game_login_next(s: GameLoginStage, e: GameLoginEvent) -> (
    GameLoginStage,
    GameLoginActionView,
) {
    let done = GameLoginStage::Finished;
    match (s, e) {
        (GameLoginStage::AwaitChecked, GameLoginEvent::Checked { world }) => if world
            == WorldState::Startup {
            (done, GameLoginActionView::Disconnect("Gameworld is starting up. Please wait."@))
        } else if world == WorldState::Maintain {
            (
                done,
                GameLoginActionView::Disconnect(
                    "Gameworld is under maintenance. Please re-connect in a while."@,
                ),
            )
        } else {
            (GameLoginStage::AwaitIpBan, GameLoginActionView::QueryIpBan)
        },
        (GameLoginStage::AwaitIpBan, GameLoginEvent::IpBan { ban }) => match ban {
            Some(b) => (done, GameLoginActionView::Disconnect(ban_text("IP"@, b))),
            None => (GameLoginStage::AwaitAuth, GameLoginActionView::Authenticate),
        },
        (GameLoginStage::AwaitAuth, GameLoginEvent::Authenticated { ok }) => if ok {
            (GameLoginStage::AwaitPlayer, GameLoginActionView::LoadPlayer)
        } else {
            (done, GameLoginActionView::Disconnect("Account name or password is not correct."@))
        },
        (
            GameLoginStage::AwaitPlayer,
            GameLoginEvent::PlayerLoaded { player, world, max_players, online },
        ) => match player {
            None => (done, GameLoginActionView::Disconnect("Your character could not be loaded."@)),
            Some(p) => if world == WorldState::Closing && !can_always_login(p) {
                (
                    done,
                    GameLoginActionView::Disconnect(
                        "The game is just going down.\nPlease try again later."@,
                    ),
                )
            } else if world == WorldState::Closed && !can_always_login(p) {
                (
                    done,
                    GameLoginActionView::Disconnect(
                        "Server is currently closed.\nPlease try again later."@,
                    ),
                )
            } else if !can_always_login(p) && max_players > 0 && online >= max_players {
                (
                    done,
                    GameLoginActionView::Disconnect(
                        "Too many players online.\nPlease try again later."@,
                    ),
                )
            } else if !p.cannot_be_banned {
                (
                    GameLoginStage::AwaitAccountBan,
                    GameLoginActionView::QueryAccountBan(p.account_number),
                )
            } else {
                (done, GameLoginActionView::Admit)
            },
        },
        (GameLoginStage::AwaitAccountBan, GameLoginEvent::AccountBan { ban }) => match ban {
            Some(b) => (done, GameLoginActionView::Disconnect(ban_text("account"@, b))),
            None => (done, GameLoginActionView::Admit),
        },
        _ => (s, GameLoginActionView::Ignore),
    }
}

fn text(s: &str) -> (r: String)
    ensures
        r@ == s@,
{
    let mut r = String::new();
    push_text(&mut r, s);
    r
}

fn ban_message(what: &str, b: &BanInfo) -> (r: String)
    ensures
        r@ == ban_text(what@, *b),
{
    let mut r = text("Your ");
    push_text(&mut r, what);
    if b.expires_at > 0 {
        push_text(&mut r, " has been banned until ");
        let date = format_date_short(b.expires_at as u32);
        push_text(&mut r, date.as_str());
        push_text(&mut r, ".\n\nReason specified:\n");
    } else {
        push_text(&mut r, " has been permanently banned.\n\nReason specified:\n");
    }
    push_text(&mut r, b.reason.as_str());
    r
}

/// Takes a game login one step (see `game_login_next`).
pub fn game_login_step(s: GameLoginStage, e: &GameLoginEvent) -> (r: (GameLoginStage, GameLoginAction))
    ensures
        (r.0, action_view(r.1)) == game_login_next(s, *e),
{
    let done = GameLoginStage::Finished;
    match (s, e) {
        (GameLoginStage::AwaitChecked, GameLoginEvent::Checked { world }) => {
            if *world == WorldState::Startup {
                (done, GameLoginAction::Disconnect { message: text("Gameworld is starting up. Please wait.") })
            } else if *world == WorldState::Maintain {
                (
                    done,
                    GameLoginAction::Disconnect {
                        message: text("Gameworld is under maintenance. Please re-connect in a while."),
                    },
                )
            } else {
                (GameLoginStage::AwaitIpBan, GameLoginAction::QueryIpBan)
            }
        },
        (GameLoginStage::AwaitIpBan, GameLoginEvent::IpBan { ban }) => match ban {
            Some(b) => (done, GameLoginAction::Disconnect { message: ban_message("IP", b) }),
            None => (GameLoginStage::AwaitAuth, GameLoginAction::Authenticate),
        },
        (GameLoginStage::AwaitAuth, GameLoginEvent::Authenticated { ok }) => {
            if *ok {
                (GameLoginStage::AwaitPlayer, GameLoginAction::LoadPlayer)
            } else {
                (done, GameLoginAction::Disconnect { message: text("Account name or password is not correct.") })
            }
        },
        (
            GameLoginStage::AwaitPlayer,
            GameLoginEvent::PlayerLoaded { player, world, max_players, online },
        ) => match player {
            None => (done, GameLoginAction::Disconnect { message: text("Your character could not be loaded.") }),
            Some(p) => {
                let always = p.has_can_always_login_flag || p.is_game_master_or_above;
                if *world == WorldState::Closing && !always {
                    (
                        done,
                        GameLoginAction::Disconnect {
                            message: text("The game is just going down.\nPlease try again later."),
                        },
                    )
                } else if *world == WorldState::Closed && !always {
                    (
                        done,
                        GameLoginAction::Disconnect {
                            message: text("Server is currently closed.\nPlease try again later."),
                        },
                    )
                } else if !always && *max_players > 0 && *online >= *max_players {
                    (
                        done,
                        GameLoginAction::Disconnect {
                            message: text("Too many players online.\nPlease try again later."),
                        },
                    )
                } else if !p.cannot_be_banned {
                    (GameLoginStage::AwaitAccountBan, GameLoginAction::QueryAccountBan { account: p.account_number })
                } else {
                    (done, GameLoginAction::Admit)
                }
            },
        },
        (GameLoginStage::AwaitAccountBan, GameLoginEvent::AccountBan { ban }) => match ban {
            Some(b) => (done, GameLoginAction::Disconnect { message: ban_message("account", b) }),
            None => (done, GameLoginAction::Admit),
        },
        _ => (s, GameLoginAction::Ignore),
    }
}

/// Where an admitted character enters the world: its saved position, or
/// where that is unset (x and y zero) its town's temple, when the town is
/// known (`temple`).
pub open spec fn login_position_of(saved: Position, temple: Option<Position>) -> Position {
    if saved.x == 0 && saved.y == 0 {
        match temple {
            Some(t) => t,
            None => saved,
        }
    } else {
        saved
    }
}

/// Where an admitted character enters the world (see `login_position_of`).
pub fn login_position(saved: Position, temple: Option<Position>) -> (p: Position)
    ensures
        p == login_position_of(saved, temple),
{
    if saved.x == 0 && saved.y == 0 {
        match temple {
            Some(t) => t,
            None => saved,
        }
    } else {
        saved
    }
}

/// The text a client of the wrong protocol is told: the lowest protocol
/// allowed, as major and minor number ("Only clients with protocol 8.60
/// allowed!").
pub open spec fn protocol_text(min: u16) -> Seq<char> {
    "Only clients with protocol "@ + decimal_chars((min / 100) as nat) + "."@ + decimal_chars(
        (min % 100) as nat,
    ) + " allowed!"@
}

/// The text a client of the wrong protocol is told (see `protocol_text`).
pub fn protocol_message(min: u16) -> (s: String)
    ensures
        s@ == protocol_text(min),
{
    let mut s = text("Only clients with protocol ");
    push_decimal_chars(&mut s, (min / 100) as u64);
    push_text(&mut s, ".");
    push_decimal_chars(&mut s, (min % 100) as u64);
    push_text(&mut s, " allowed!");
    s
}

/// The text a refused game login is told, if any: the challenge mismatch
/// closes the connection without one.
pub open spec fn game_login_refusal_text(r: GameLoginRefusal) -> Option<Seq<char>> {
    match r {
        GameLoginRefusal::EmptyAccount => Some("You must enter your account name."@),
        GameLoginRefusal::ChallengeMismatch => None,
        GameLoginRefusal::WrongVersion { min } => Some(protocol_text(min)),
    }
}

/// The text a refused game login is told, if any (see
/// `game_login_refusal_text`).
pub fn game_login_refusal_message(r: GameLoginRefusal) -> (m: Option<String>)
    ensures
        match game_login_refusal_text(r) {
            Some(t) => m matches Some(s) && s@ == t,
            None => m is None,
        },
{
    match r {
        GameLoginRefusal::EmptyAccount => Some(text("You must enter your account name.")),
        GameLoginRefusal::ChallengeMismatch => None,
        GameLoginRefusal::WrongVersion { min } => Some(protocol_message(min)),
    }
}

} // verus!
