//! The messages that players exchange over a connection, and the handshake that
//! starts a match of two.
use rand::RngExt;
use vstd::prelude::*;

use crate::agreement::{check_protocol_version, BattleConfig, Expected, NetAction, NetError, PROTOCOL_VERSION};

verus! {

/// A computer that a player sits at.
#[derive(Debug, Clone, Copy, PartialEq, Eq)]
pub enum PeerHost {
    V4([u8; 4]),
    V6([u8; 16]),
}

/// Where a player can be reached.
#[derive(Debug, Clone, Copy, PartialEq, Eq)]
pub struct PeerAddr {
    pub host: PeerHost,
    pub port: u16,
}

/// One member of a room. All members get the list in the same order, and the
/// place in it is the number of a player. A computer player has no address.
#[derive(Debug, Clone, PartialEq, Eq)]
pub struct RoomMember {
    pub name: String,
    pub mesh_addr: Option<PeerAddr>,
}

/// A message. A `proxy_for` tells the computer player for which the host sends.
#[derive(Debug, Clone, PartialEq, Eq)]
pub enum GameMessage {
    Hello { name: String, protocol_version: u32 },
    JoinRoom { name: String, mesh_port: u16, protocol_version: u32 },
    /// The members of the room, the host first, and which of them is
    /// addressed.
    RoomRoster { members: Vec<RoomMember>, your_index: usize },
    StartConfig(Box<BattleConfig>),
    /// The seed of the people's field, and one for each computer player.
    SeedAgree { seed: u64, ai_seeds: Vec<u64> },
    Input { action: NetAction, proxy_for: Option<usize> },
    Heartbeat,
    Attack { rock_amount: u32, bomb_amount: u32, proxy_for: Option<usize> },
    Result { reached_goal: bool, proxy_for: Option<usize> },
    Bye,
}

/// What the two sides have agreed on when the handshake is over.
#[derive(Debug, Clone, PartialEq, Eq)]
pub struct HandshakeResult {
    pub opponent_name: String,
    pub config: BattleConfig,
    pub seed: u64,
    pub ai_seeds: Vec<u64>,
}

/// The message is the greeting of a player of that name who speaks this
/// version.
pub open spec fn greets(msg: GameMessage, name: Seq<char>) -> bool {
    msg matches GameMessage::Hello { name: n, protocol_version } && n@ == name && protocol_version
        == PROTOCOL_VERSION
}

/// The message holds these settings.
pub open spec fn configures(msg: GameMessage, config: BattleConfig) -> bool {
    msg matches GameMessage::StartConfig(c) && *c == config
}

/// The message holds this seed and no seeds for computer players.
pub open spec fn seeds(msg: GameMessage, seed: u64) -> bool {
    msg matches GameMessage::SeedAgree { seed: s, ai_seeds } && s == seed && ai_seeds@.len() == 0
}

/// What a host has agreed on.
pub open spec fn agreed(r: HandshakeResult, name: Seq<char>, config: BattleConfig, seed: u64, ai_seeds: Seq<u64>) -> bool {
    &&& r.opponent_name@ == name
    &&& r.config == config
    &&& r.seed == seed
    &&& r.ai_seeds@ == ai_seeds
}

/// What a host sends in answer to a greeting, and what it has agreed on then.
#[derive(Debug)]
pub struct HostReply {
    pub sends: Vec<GameMessage>,
    pub result: HandshakeResult,
}

/// What a host makes of the first message of a client: a greeting in this
/// version is answered with a greeting, the settings and the seed. Nothing is
/// sent otherwise.
pub open spec fn host_answers(
    first: GameMessage,
    my_name: Seq<char>,
    config: BattleConfig,
    seed: u64,
    r: Result<HostReply, NetError>,
) -> bool {
    match first {
        GameMessage::Hello { name, protocol_version } => if protocol_version == PROTOCOL_VERSION {
            r matches Ok(reply) && reply.sends@.len() == 3 && greets(reply.sends@[0], my_name)
                && configures(reply.sends@[1], config) && seeds(reply.sends@[2], seed) && agreed(
                reply.result,
                name@,
                config,
                seed,
                Seq::empty(),
            )
        } else {
            r == Err::<HostReply, NetError>(NetError::VersionMismatch { peer: protocol_version })
        },
        _ => r == Err::<HostReply, NetError>(
            NetError::UnexpectedMessage { expected: Expected::Hello },
        ),
    }
}

/// The greeting of a player.
pub fn hello(my_name: &str) -> (msg: GameMessage)
    ensures
        greets(msg, my_name@),
{
    GameMessage::Hello { name: my_name.to_owned(), protocol_version: PROTOCOL_VERSION }
}

/// Answers the first message of a client, with a seed for the match.
pub fn answer_hello(first: &GameMessage, my_name: &str, config: BattleConfig, seed: u64) -> (r: Result<
    HostReply,
    NetError,
>)
    ensures
        host_answers(*first, my_name@, config, seed, r),
{
    match first {
        GameMessage::Hello { name, protocol_version } => {
            match check_protocol_version(*protocol_version) {
                Err(e) => Err(e),
                Ok(()) => {
                    let mut sends: Vec<GameMessage> = Vec::new();
                    sends.push(hello(my_name));
                    sends.push(GameMessage::StartConfig(Box::new(config)));
                    sends.push(GameMessage::SeedAgree { seed, ai_seeds: Vec::new() });
                    let result = HandshakeResult {
                        opponent_name: name.clone(),
                        config,
                        seed,
                        ai_seeds: Vec::new(),
                    };
                    assert(result.ai_seeds@ =~= Seq::<u64>::empty());
                    Ok(HostReply { sends, result })
                },
            }
        },
        _ => Err(NetError::UnexpectedMessage { expected: Expected::Hello }),
    }
}

/// Calls `rand::rng` and draws a number from it with `rand::RngExt::random`.
/// Any number may come out.
#[verifier::external_body]
fn random_seed() -> (seed: u64) {
    rand::rng().random()
}

/// The seed in what a host has agreed on.
pub open spec fn reply_seed(r: Result<HostReply, NetError>) -> u64 {
    match r {
        Ok(reply) => reply.result.seed,
        Err(_) => 0,
    }
}

/// The host's side of the handshake: answers the first message of a client,
/// with a random seed. The seed that is sent is the one that is agreed on.
pub fn run_host_handshake(first: &GameMessage, my_name: &str, config: BattleConfig) -> (r: Result<
    HostReply,
    NetError,
>)
    ensures
        host_answers(*first, my_name@, config, reply_seed(r), r),
{
    let seed: u64 = random_seed();
    answer_hello(first, my_name, config, seed)
}

/// How far a client has come.
#[derive(Debug)]
pub enum ClientStage {
    AwaitHello,
    AwaitConfig { opponent_name: String },
    AwaitSeed { opponent_name: String, config: BattleConfig },
    Done(HandshakeResult),
}

/// What a client makes of the next message of the host.
pub open spec fn client_goes(stage: ClientStage, msg: GameMessage, r: Result<ClientStage, NetError>) -> bool {
    match stage {
        ClientStage::AwaitHello => match msg {
            GameMessage::Hello { name, protocol_version } => if protocol_version == PROTOCOL_VERSION {
                r matches Ok(ClientStage::AwaitConfig { opponent_name }) && opponent_name@ == name@
            } else {
                r == Err::<ClientStage, NetError>(
                    NetError::VersionMismatch { peer: protocol_version },
                )
            },
            _ => r == Err::<ClientStage, NetError>(
                NetError::UnexpectedMessage { expected: Expected::Hello },
            ),
        },
        ClientStage::AwaitConfig { opponent_name: known } => match msg {
            GameMessage::StartConfig(c) => r matches Ok(
                ClientStage::AwaitSeed { opponent_name, config },
            ) && opponent_name@ == known@ && config == *c,
            _ => r == Err::<ClientStage, NetError>(
                NetError::UnexpectedMessage { expected: Expected::StartConfig },
            ),
        },
        ClientStage::AwaitSeed { opponent_name: known, config } => match msg {
            GameMessage::SeedAgree { seed, ai_seeds } => r matches Ok(ClientStage::Done(result)) && agreed(
                result,
                known@,
                config,
                seed,
                ai_seeds@,
            ),
            _ => r == Err::<ClientStage, NetError>(
                NetError::UnexpectedMessage { expected: Expected::SeedAgree },
            ),
        },
        ClientStage::Done(result) => r == Ok::<ClientStage, NetError>(stage),
    }
}

/// The client's side of the handshake, one message of the host at a time: a
/// greeting in this version, the settings, then the seed. The client adopts
/// what the host says. Once it is done, it stays so.
pub fn run_client_handshake(stage: ClientStage, msg: GameMessage) -> (r: Result<ClientStage, NetError>)
    ensures
        client_goes(stage, msg, r),
{
    match stage {
        ClientStage::AwaitHello => match msg {
            GameMessage::Hello { name, protocol_version } => {
                match check_protocol_version(protocol_version) {
                    Err(e) => Err(e),
                    Ok(()) => Ok(ClientStage::AwaitConfig { opponent_name: name }),
                }
            },
            _ => Err(NetError::UnexpectedMessage { expected: Expected::Hello }),
        },
        ClientStage::AwaitConfig { opponent_name } => match msg {
            GameMessage::StartConfig(config) => Ok(ClientStage::AwaitSeed { opponent_name, config: *config }),
            _ => Err(NetError::UnexpectedMessage { expected: Expected::StartConfig }),
        },
        ClientStage::AwaitSeed { opponent_name, config } => match msg {
            GameMessage::SeedAgree { seed, ai_seeds } => Ok(
                ClientStage::Done(HandshakeResult { opponent_name, config, seed, ai_seeds }),
            ),
            _ => Err(NetError::UnexpectedMessage { expected: Expected::SeedAgree }),
        },
        ClientStage::Done(result) => Ok(ClientStage::Done(result)),
    }
}

/// The handshake leaves both sides with the same settings and the same seed,
/// and each with the name of the other.
pub proof fn law_handshake_agrees(
    greeting: GameMessage,
    client_name: Seq<char>,
    host_name: Seq<char>,
    config: BattleConfig,
    seed: u64,
    reply: HostReply,
    first: ClientStage,
    second: ClientStage,
    last: ClientStage,
)
    requires
        greets(greeting, client_name),
        host_answers(greeting, host_name, config, seed, Ok(reply)),
        client_goes(ClientStage::AwaitHello, reply.sends@[0], Ok(first)),
        client_goes(first, reply.sends@[1], Ok(second)),
        client_goes(second, reply.sends@[2], Ok(last)),
    ensures
        last matches ClientStage::Done(result) && result.config == reply.result.config && result.seed
            == reply.result.seed && result.ai_seeds@ =~= reply.result.ai_seeds@ && result.opponent_name@
            == host_name && reply.result.opponent_name@ == client_name,
{
}

/// A client that is greeted in another version, or by something that is no
/// greeting, goes no further; nor does a host.
pub proof fn law_strangers_are_turned_away(
    msg: GameMessage,
    my_name: Seq<char>,
    config: BattleConfig,
    seed: u64,
    host: Result<HostReply, NetError>,
    client: Result<ClientStage, NetError>,
)
    requires
        !(msg matches GameMessage::Hello { protocol_version, .. } && protocol_version == PROTOCOL_VERSION),
        host_answers(msg, my_name, config, seed, host),
        client_goes(ClientStage::AwaitHello, msg, client),
    ensures
        host is Err,
        client is Err,
{
}

/// What the thread that listens on a connection passes on.
#[derive(Debug)]
pub enum NetworkEvent {
    Message(GameMessage),
    /// The connection is gone, or something unreadable came.
    Disconnected,
}

/// What is passed on of what was read, and whether that was the last: a
/// farewell is passed on and ends the listening, a fault is the end of it.
pub fn pass_on(received: Result<GameMessage, NetError>) -> (r: (NetworkEvent, bool))
    ensures
        match received {
            Ok(msg) => r.0 == NetworkEvent::Message(msg) && r.1 == (msg is Bye),
            Err(_) => r.0 is Disconnected && r.1,
        },
{
    match received {
        Ok(msg) => {
            let last: bool = matches!(msg, GameMessage::Bye);
            (NetworkEvent::Message(msg), last)
        },
        Err(_) => (NetworkEvent::Disconnected, true),
    }
}

} // verus!
