//! Commands and the frames that carry them.

use crate::json::{entries_insert, lemma_entries_empty, str_eq, Json, JsonModel};
use vstd::prelude::*;
use vstd::string::*;

verus! {

/// The commands of the protocol.
#[derive(Debug, Clone, Copy, PartialEq, Eq, Structural)]
pub enum RpcCommand {
    Dispatch,
    SetActivity,
    InviteBrowser,
    GuildTemplateBrowser,
    DeepLink,
    ConnectionsCallback,
    Authorize,
    Authenticate,
    Subscribe,
    Unsubscribe,
    Ping,
}

impl RpcCommand {
    /// The name of the command on the wire.
    pub open spec fn wire(self) -> Seq<char> {
        match self {
            RpcCommand::Dispatch => "DISPATCH"@,
            RpcCommand::SetActivity => "SET_ACTIVITY"@,
            RpcCommand::InviteBrowser => "INVITE_BROWSER"@,
            RpcCommand::GuildTemplateBrowser => "GUILD_TEMPLATE_BROWSER"@,
            RpcCommand::DeepLink => "DEEP_LINK"@,
            RpcCommand::ConnectionsCallback => "CONNECTIONS_CALLBACK"@,
            RpcCommand::Authorize => "AUTHORIZE"@,
            RpcCommand::Authenticate => "AUTHENTICATE"@,
            RpcCommand::Subscribe => "SUBSCRIBE"@,
            RpcCommand::Unsubscribe => "UNSUBSCRIBE"@,
            RpcCommand::Ping => "PING"@,
        }
    }

    /// The command with the given wire name, looked for in the order of the declaration.
    pub open spec fn of_wire(name: Seq<char>) -> Option<RpcCommand> {
        if name == "DISPATCH"@ {
            Some(RpcCommand::Dispatch)
        } else if name == "SET_ACTIVITY"@ {
            Some(RpcCommand::SetActivity)
        } else if name == "INVITE_BROWSER"@ {
            Some(RpcCommand::InviteBrowser)
        } else if name == "GUILD_TEMPLATE_BROWSER"@ {
            Some(RpcCommand::GuildTemplateBrowser)
        } else if name == "DEEP_LINK"@ {
            Some(RpcCommand::DeepLink)
        } else if name == "CONNECTIONS_CALLBACK"@ {
            Some(RpcCommand::ConnectionsCallback)
        } else if name == "AUTHORIZE"@ {
            Some(RpcCommand::Authorize)
        } else if name == "AUTHENTICATE"@ {
            Some(RpcCommand::Authenticate)
        } else if name == "SUBSCRIBE"@ {
            Some(RpcCommand::Subscribe)
        } else if name == "UNSUBSCRIBE"@ {
            Some(RpcCommand::Unsubscribe)
        } else if name == "PING"@ {
            Some(RpcCommand::Ping)
        } else {
            None
        }
    }

    /// The name of the command on the wire.
    pub fn as_str(self) -> (r: &'static str)
        ensures
            r@ == self.wire(),
    {
        match self {
            RpcCommand::Dispatch => "DISPATCH",
            RpcCommand::SetActivity => "SET_ACTIVITY",
            RpcCommand::InviteBrowser => "INVITE_BROWSER",
            RpcCommand::GuildTemplateBrowser => "GUILD_TEMPLATE_BROWSER",
            RpcCommand::DeepLink => "DEEP_LINK",
            RpcCommand::ConnectionsCallback => "CONNECTIONS_CALLBACK",
            RpcCommand::Authorize => "AUTHORIZE",
            RpcCommand::Authenticate => "AUTHENTICATE",
            RpcCommand::Subscribe => "SUBSCRIBE",
            RpcCommand::Unsubscribe => "UNSUBSCRIBE",
            RpcCommand::Ping => "PING",
        }
    }

    /// The command with the given wire name.
    pub fn from_wire(name: &str) -> (r: Option<RpcCommand>)
        ensures
            r == RpcCommand::of_wire(name@),
    {
        if str_eq(name, "DISPATCH") {
            Some(RpcCommand::Dispatch)
        } else if str_eq(name, "SET_ACTIVITY") {
            Some(RpcCommand::SetActivity)
        } else if str_eq(name, "INVITE_BROWSER") {
            Some(RpcCommand::InviteBrowser)
        } else if str_eq(name, "GUILD_TEMPLATE_BROWSER") {
            Some(RpcCommand::GuildTemplateBrowser)
        } else if str_eq(name, "DEEP_LINK") {
            Some(RpcCommand::DeepLink)
        } else if str_eq(name, "CONNECTIONS_CALLBACK") {
            Some(RpcCommand::ConnectionsCallback)
        } else if str_eq(name, "AUTHORIZE") {
            Some(RpcCommand::Authorize)
        } else if str_eq(name, "AUTHENTICATE") {
            Some(RpcCommand::Authenticate)
        } else if str_eq(name, "SUBSCRIBE") {
            Some(RpcCommand::Subscribe)
        } else if str_eq(name, "UNSUBSCRIBE") {
            Some(RpcCommand::Unsubscribe)
        } else if str_eq(name, "PING") {
            Some(RpcCommand::Ping)
        } else {
            None
        }
    }
}

/// Reading the wire name of a command gives the command back.
pub proof fn lemma_command_wire_round_trip(c: RpcCommand)
    ensures
        RpcCommand::of_wire(c.wire()) == Some(c),
{
    reveal_strlit("DISPATCH");
    reveal_strlit("SET_ACTIVITY");
    reveal_strlit("INVITE_BROWSER");
    reveal_strlit("GUILD_TEMPLATE_BROWSER");
    reveal_strlit("DEEP_LINK");
    reveal_strlit("CONNECTIONS_CALLBACK");
    reveal_strlit("AUTHORIZE");
    reveal_strlit("AUTHENTICATE");
    reveal_strlit("SUBSCRIBE");
    reveal_strlit("UNSUBSCRIBE");
    reveal_strlit("PING");
    match c {
        RpcCommand::Dispatch => {},
        RpcCommand::SetActivity => {
            assert("SET_ACTIVITY"@[0] != "DISPATCH"@[0]);
        },
        RpcCommand::InviteBrowser => {
            assert("INVITE_BROWSER"@[0] != "DISPATCH"@[0]);
            assert("INVITE_BROWSER"@[0] != "SET_ACTIVITY"@[0]);
        },
        RpcCommand::GuildTemplateBrowser => {
            assert("GUILD_TEMPLATE_BROWSER"@[0] != "DISPATCH"@[0]);
            assert("GUILD_TEMPLATE_BROWSER"@[0] != "SET_ACTIVITY"@[0]);
            assert("GUILD_TEMPLATE_BROWSER"@[0] != "INVITE_BROWSER"@[0]);
        },
        RpcCommand::DeepLink => {
            assert("DEEP_LINK"@[1] != "DISPATCH"@[1]);
            assert("DEEP_LINK"@[0] != "SET_ACTIVITY"@[0]);
            assert("DEEP_LINK"@[0] != "INVITE_BROWSER"@[0]);
            assert("DEEP_LINK"@[0] != "GUILD_TEMPLATE_BROWSER"@[0]);
        },
        RpcCommand::ConnectionsCallback => {
            assert("CONNECTIONS_CALLBACK"@[0] != "DISPATCH"@[0]);
            assert("CONNECTIONS_CALLBACK"@[0] != "SET_ACTIVITY"@[0]);
            assert("CONNECTIONS_CALLBACK"@[0] != "INVITE_BROWSER"@[0]);
            assert("CONNECTIONS_CALLBACK"@[0] != "GUILD_TEMPLATE_BROWSER"@[0]);
            assert("CONNECTIONS_CALLBACK"@[0] != "DEEP_LINK"@[0]);
        },
        RpcCommand::Authorize => {
            assert("AUTHORIZE"@[0] != "DISPATCH"@[0]);
            assert("AUTHORIZE"@[0] != "SET_ACTIVITY"@[0]);
            assert("AUTHORIZE"@[0] != "INVITE_BROWSER"@[0]);
            assert("AUTHORIZE"@[0] != "GUILD_TEMPLATE_BROWSER"@[0]);
            assert("AUTHORIZE"@[0] != "DEEP_LINK"@[0]);
            assert("AUTHORIZE"@[0] != "CONNECTIONS_CALLBACK"@[0]);
        },
        RpcCommand::Authenticate => {
            assert("AUTHENTICATE"@[0] != "DISPATCH"@[0]);
            assert("AUTHENTICATE"@[0] != "SET_ACTIVITY"@[0]);
            assert("AUTHENTICATE"@[0] != "INVITE_BROWSER"@[0]);
            assert("AUTHENTICATE"@[0] != "GUILD_TEMPLATE_BROWSER"@[0]);
            assert("AUTHENTICATE"@[0] != "DEEP_LINK"@[0]);
            assert("AUTHENTICATE"@[0] != "CONNECTIONS_CALLBACK"@[0]);
            assert("AUTHENTICATE"@[5] != "AUTHORIZE"@[5]);
        },
        RpcCommand::Subscribe => {
            assert("SUBSCRIBE"@[0] != "DISPATCH"@[0]);
            assert("SUBSCRIBE"@[1] != "SET_ACTIVITY"@[1]);
            assert("SUBSCRIBE"@[0] != "INVITE_BROWSER"@[0]);
            assert("SUBSCRIBE"@[0] != "GUILD_TEMPLATE_BROWSER"@[0]);
            assert("SUBSCRIBE"@[0] != "DEEP_LINK"@[0]);
            assert("SUBSCRIBE"@[0] != "CONNECTIONS_CALLBACK"@[0]);
            assert("SUBSCRIBE"@[0] != "AUTHORIZE"@[0]);
            assert("SUBSCRIBE"@[0] != "AUTHENTICATE"@[0]);
        },
        RpcCommand::Unsubscribe => {
            assert("UNSUBSCRIBE"@[0] != "DISPATCH"@[0]);
            assert("UNSUBSCRIBE"@[0] != "SET_ACTIVITY"@[0]);
            assert("UNSUBSCRIBE"@[0] != "INVITE_BROWSER"@[0]);
            assert("UNSUBSCRIBE"@[0] != "GUILD_TEMPLATE_BROWSER"@[0]);
            assert("UNSUBSCRIBE"@[0] != "DEEP_LINK"@[0]);
            assert("UNSUBSCRIBE"@[0] != "CONNECTIONS_CALLBACK"@[0]);
            assert("UNSUBSCRIBE"@[0] != "AUTHORIZE"@[0]);
            assert("UNSUBSCRIBE"@[0] != "AUTHENTICATE"@[0]);
            assert("UNSUBSCRIBE"@[0] != "SUBSCRIBE"@[0]);
        },
        RpcCommand::Ping => {
            assert("PING"@[0] != "DISPATCH"@[0]);
            assert("PING"@[0] != "SET_ACTIVITY"@[0]);
            assert("PING"@[0] != "INVITE_BROWSER"@[0]);
            assert("PING"@[0] != "GUILD_TEMPLATE_BROWSER"@[0]);
            assert("PING"@[0] != "DEEP_LINK"@[0]);
            assert("PING"@[0] != "CONNECTIONS_CALLBACK"@[0]);
            assert("PING"@[0] != "AUTHORIZE"@[0]);
            assert("PING"@[0] != "AUTHENTICATE"@[0]);
            assert("PING"@[0] != "SUBSCRIBE"@[0]);
            assert("PING"@[0] != "UNSUBSCRIBE"@[0]);
        },
    }
}


/// A frame as a client sends it.
#[derive(Debug, Clone)]
pub struct IncomingFrame {
    pub cmd: RpcCommand,
    pub args: Json,
    pub nonce: Option<String>,
}

/// A frame as the broker sends it.
#[derive(Debug, Clone)]
pub struct OutgoingFrame {
    pub cmd: RpcCommand,
    pub evt: Option<String>,
    pub data: Json,
    pub nonce: Option<String>,
    pub pid: Option<u32>,
}

/// What a JSON value spells as an incoming frame: the command, the arguments
/// (the empty object where there are none) and the nonce.
pub open spec fn incoming_of(m: JsonModel) -> Option<(RpcCommand, JsonModel, Option<Seq<char>>)> {
    let cmd = match m.get("cmd"@) {
        Some(JsonModel::Str(name)) => RpcCommand::of_wire(name),
        _ => None,
    };
    let args = match m.get("args"@) {
        Some(a) => a,
        None => JsonModel::Obj(Map::empty()),
    };
    let nonce: Option<Option<Seq<char>>> = match m.get("nonce"@) {
        None => Some(None),
        Some(JsonModel::Null) => Some(None),
        Some(JsonModel::Str(n)) => Some(Some(n)),
        Some(_) => None,
    };
    if cmd is Some && nonce is Some {
        Some((cmd->0, args, nonce->0))
    } else {
        None
    }
}

/// `m` with `key` set to `v` where there is a `v`.
pub open spec fn with_member(
    m: Map<Seq<char>, JsonModel>,
    key: Seq<char>,
    v: Option<JsonModel>,
) -> Map<Seq<char>, JsonModel> {
    match v {
        Some(x) => m.insert(key, x),
        None => m,
    }
}

/// The wire form of a frame with the given members. A member that is not
/// there is left out, not written as null.
pub open spec fn frame_json(
    cmd: Seq<char>,
    evt: Option<Seq<char>>,
    data: JsonModel,
    nonce: Option<JsonModel>,
    pid: Option<u32>,
) -> JsonModel {
    let m0 = Map::<Seq<char>, JsonModel>::empty().insert("cmd"@, JsonModel::Str(cmd));
    let m1 = with_member(
        m0,
        "evt"@,
        match evt {
            Some(e) => Some(JsonModel::Str(e)),
            None => None,
        },
    );
    let m2 = m1.insert("data"@, data);
    let m3 = with_member(m2, "nonce"@, nonce);
    JsonModel::Obj(
        with_member(
            m3,
            "pid"@,
            match pid {
                Some(p) => Some(JsonModel::Int(p as int)),
                None => None,
            },
        ),
    )
}

/// Builds the wire form of a frame from its members.
pub fn build_frame(
    cmd: &str,
    evt: Option<&str>,
    data: Json,
    nonce: Option<&Json>,
    pid: Option<u32>,
) -> (r: Json)
    ensures
        r@ == frame_json(
            cmd@,
            match evt {
                Some(e) => Some(e@),
                None => None,
            },
            data@,
            match nonce {
                Some(n) => Some(n@),
                None => None,
            },
            pid,
        ),
{
    let mut out: Vec<(String, Json)> = Vec::new();
    proof {
        lemma_entries_empty();
    }
    entries_insert(&mut out, "cmd", Json::string(cmd));
    match evt {
        Some(e) => {
            entries_insert(&mut out, "evt", Json::string(e));
        },
        None => {},
    }
    entries_insert(&mut out, "data", data);
    match nonce {
        Some(n) => {
            entries_insert(&mut out, "nonce", n.deep_clone());
        },
        None => {},
    }
    match pid {
        Some(p) => {
            entries_insert(&mut out, "pid", Json::uint(p as u64));
        },
        None => {},
    }
    Json::Object(out)
}

impl IncomingFrame {
    /// Reads a frame: `cmd` must name a command, and `nonce` must be a string where it is there.
    pub fn from_json(v: &Json) -> (r: Option<IncomingFrame>)
        ensures
            match r {
                Some(f) => incoming_of(v@) == Some(
                    (
                        f.cmd,
                        f.args@,
                        match f.nonce {
                            Some(n) => Some(n@),
                            None => None,
                        },
                    ),
                ),
                None => incoming_of(v@) is None,
            },
    {
        let cmd = match v.get("cmd") {
            Some(c) => match c.as_str() {
                Some(name) => match RpcCommand::from_wire(name) {
                    Some(cmd) => cmd,
                    None => {
                        return None;
                    },
                },
                None => {
                    return None;
                },
            },
            None => {
                return None;
            },
        };
        let nonce = match v.get("nonce") {
            None => None,
            Some(n) => match n.as_str() {
                Some(text) => Some(text.to_owned()),
                None => {
                    if n.is_null() {
                        None
                    } else {
                        return None;
                    }
                },
            },
        };
        let args = match v.get("args") {
            Some(a) => a.deep_clone(),
            None => Json::empty_object(),
        };
        Some(IncomingFrame { cmd, args, nonce })
    }
}

impl OutgoingFrame {
    /// The wire form of the frame.
    pub open spec fn json(self) -> JsonModel {
        frame_json(
            self.cmd.wire(),
            match self.evt {
                Some(e) => Some(e@),
                None => None,
            },
            self.data@,
            match self.nonce {
                Some(n) => Some(JsonModel::Str(n@)),
                None => None,
            },
            self.pid,
        )
    }

    /// The wire form of the frame.
    pub fn to_json(&self) -> (r: Json)
        ensures
            r@ == self.json(),
    {
        let nonce = match &self.nonce {
            Some(n) => Some(Json::string(n.as_str())),
            None => None,
        };
        build_frame(
            self.cmd.as_str(),
            match &self.evt {
                Some(e) => Some(e.as_str()),
                None => None,
            },
            self.data.deep_clone(),
            nonce.as_ref(),
            self.pid,
        )
    }
}

/// Where the service that the broker stands in for is reached.
#[derive(Debug, Clone)]
pub struct ReadyConfig {
    pub cdn_host: String,
    pub api_endpoint: String,
    pub environment: String,
}

/// The user that the broker reports.
#[derive(Debug, Clone)]
pub struct MockUser {
    pub id: String,
    pub username: String,
    pub discriminator: String,
    pub avatar: String,
    pub bot: bool,
}

/// What the broker sends once a connection is open.
#[derive(Debug, Clone)]
pub struct ReadyEvent {
    pub v: u8,
    pub config: ReadyConfig,
    pub user: MockUser,
}

impl Default for ReadyConfig {
    fn default() -> (r: ReadyConfig)
        ensures
            r.cdn_host@ == "cdn.discordapp.com"@,
            r.api_endpoint@ == "//discord.com/api"@,
            r.environment@ == "production"@,
    {
        ReadyConfig {
            cdn_host: "cdn.discordapp.com".to_owned(),
            api_endpoint: "//discord.com/api".to_owned(),
            environment: "production".to_owned(),
        }
    }
}

impl Default for MockUser {
    fn default() -> (r: MockUser)
        ensures
            r.id@ == "961950517370097704"@,
            r.username@ == "drpc"@,
            r.discriminator@ == "0000"@,
            r.avatar@ == "a_39e73cb4db97d204c41e5328c85dc993"@,
            r.bot,
    {
        MockUser {
            id: "961950517370097704".to_owned(),
            username: "drpc".to_owned(),
            discriminator: "0000".to_owned(),
            avatar: "a_39e73cb4db97d204c41e5328c85dc993".to_owned(),
            bot: true,
        }
    }
}

impl ReadyConfig {
    pub open spec fn json(self) -> JsonModel {
        JsonModel::Obj(
            Map::empty().insert("cdn_host"@, JsonModel::Str(self.cdn_host@)).insert(
                "api_endpoint"@,
                JsonModel::Str(self.api_endpoint@),
            ).insert("environment"@, JsonModel::Str(self.environment@)),
        )
    }

    /// The wire form of the configuration.
    pub fn to_json(&self) -> (r: Json)
        ensures
            r@ == self.json(),
    {
        let mut out: Vec<(String, Json)> = Vec::new();
        proof {
            lemma_entries_empty();
        }
        entries_insert(&mut out, "cdn_host", Json::string(self.cdn_host.as_str()));
        entries_insert(&mut out, "api_endpoint", Json::string(self.api_endpoint.as_str()));
        entries_insert(&mut out, "environment", Json::string(self.environment.as_str()));
        Json::Object(out)
    }
}

impl MockUser {
    pub open spec fn json(self) -> JsonModel {
        JsonModel::Obj(
            Map::empty().insert("id"@, JsonModel::Str(self.id@)).insert(
                "username"@,
                JsonModel::Str(self.username@),
            ).insert("discriminator"@, JsonModel::Str(self.discriminator@)).insert(
                "avatar"@,
                JsonModel::Str(self.avatar@),
            ).insert("bot"@, JsonModel::Bool(self.bot)),
        )
    }

    /// The wire form of the user.
    pub fn to_json(&self) -> (r: Json)
        ensures
            r@ == self.json(),
    {
        let mut out: Vec<(String, Json)> = Vec::new();
        proof {
            lemma_entries_empty();
        }
        entries_insert(&mut out, "id", Json::string(self.id.as_str()));
        entries_insert(&mut out, "username", Json::string(self.username.as_str()));
        entries_insert(&mut out, "discriminator", Json::string(self.discriminator.as_str()));
        entries_insert(&mut out, "avatar", Json::string(self.avatar.as_str()));
        entries_insert(&mut out, "bot", Json::Bool(self.bot));
        Json::Object(out)
    }
}

/// The payload that every connection is greeted with.
pub open spec fn ready_payload() -> JsonModel {
    JsonModel::Obj(
        Map::empty().insert("v"@, JsonModel::Int(1)).insert(
            "config"@,
            JsonModel::Obj(
                Map::empty().insert("cdn_host"@, JsonModel::Str("cdn.discordapp.com"@)).insert(
                    "api_endpoint"@,
                    JsonModel::Str("//discord.com/api"@),
                ).insert("environment"@, JsonModel::Str("production"@)),
            ),
        ).insert(
            "user"@,
            JsonModel::Obj(
                Map::empty().insert("id"@, JsonModel::Str("961950517370097704"@)).insert(
                    "username"@,
                    JsonModel::Str("drpc"@),
                ).insert("discriminator"@, JsonModel::Str("0000"@)).insert(
                    "avatar"@,
                    JsonModel::Str("a_39e73cb4db97d204c41e5328c85dc993"@),
                ).insert("bot"@, JsonModel::Bool(true)),
            ),
        ),
    )
}

/// The frame that every connection is greeted with: a `DISPATCH` with the
/// event `READY`, no nonce and no pid.
pub open spec fn ready_frame_json() -> JsonModel {
    frame_json("DISPATCH"@, Some("READY"@), ready_payload(), None, None)
}

impl ReadyEvent {
    /// The payload with version 1 and the fixed configuration and user.
    pub fn new() -> (r: ReadyEvent)
        ensures
            r.json() == ready_payload(),
    {
        ReadyEvent { v: 1, config: ReadyConfig::default(), user: MockUser::default() }
    }

    pub open spec fn json(self) -> JsonModel {
        JsonModel::Obj(
            Map::empty().insert("v"@, JsonModel::Int(self.v as int)).insert(
                "config"@,
                self.config.json(),
            ).insert("user"@, self.user.json()),
        )
    }

    /// The wire form of the payload.
    pub fn to_json(&self) -> (r: Json)
        ensures
            r@ == self.json(),
    {
        let mut out: Vec<(String, Json)> = Vec::new();
        proof {
            lemma_entries_empty();
        }
        entries_insert(&mut out, "v", Json::uint(self.v as u64));
        entries_insert(&mut out, "config", self.config.to_json());
        entries_insert(&mut out, "user", self.user.to_json());
        Json::Object(out)
    }
}

/// The frame that greets a connection.
pub fn ready_frame() -> (r: OutgoingFrame)
    ensures
        r.json() == ready_frame_json(),
        r.cmd == RpcCommand::Dispatch,
        r.nonce is None,
        r.pid is None,
{
    OutgoingFrame {
        cmd: RpcCommand::Dispatch,
        evt: Some("READY".to_owned()),
        data: ReadyEvent::new().to_json(),
        nonce: None,
        pid: None,
    }
}

} // verus!
