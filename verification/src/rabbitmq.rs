//! What the bot does with the messages of the broker: sessions of the game server, and events of
//! the TeamSpeak server.
use serde_json::Value;
use vstd::prelude::*;
use vstd::string::*;

use crate::config::RabbitMqConfig;
use crate::position;
use crate::position::{PlayerPositionService, PlayerSession, SessionView};
use crate::seq_logger;
use crate::seq_logger::{EventView, SeqEvent};
use crate::text;
use crate::ts3_client_list::{Ts3ClientInfo, Ts3ClientList};

verus! {

/// An event of the TeamSpeak server.
#[derive(Debug)]
pub struct Ts3EventEnvelope {
    pub event_type: String,
    pub timestamp: String,
    pub payload: Ts3UserPayload,
}

/// The user that an event of the TeamSpeak server is about.
#[derive(Debug)]
pub struct Ts3UserPayload {
    pub client_id: u16,
    pub unique_id: String,
    pub nickname: String,
    pub channel_id: Option<u64>,
    pub country_code: Option<String>,
    pub is_input_muted: Option<bool>,
    pub is_output_muted: Option<bool>,
}

/// The address of the broker.
pub open spec fn address_of(config: RabbitMqConfig) -> Seq<char> {
    "amqp://"@ + config.username@ + ":"@ + config.password@ + "@"@ + config.hostname@ + ":"@
        + text::decimal(config.port as nat)
}

/// The address of the broker, with the credentials of the bot.
pub fn broker_address(config: &RabbitMqConfig) -> (address: String)
    ensures
        address@ == address_of(*config),
{
    let mut address = "amqp://".to_owned();
    address.append(config.username.as_str());
    address.append(":");
    address.append(config.password.as_str());
    address.append("@");
    address.append(config.hostname.as_str());
    address.append(":");
    address.append(text::decimal_text(config.port as u64).as_str());
    address
}

/// A queue of the broker that is read.
#[derive(Debug)]
pub struct Source {
    pub address: String,
    pub queue: String,
    /// The exchange that the queue is bound to first, if any.
    pub exchange: Option<String>,
}

/// A queue of the broker as a mathematical value.
#[verifier::ext_equal]
pub struct SourceView {
    pub address: Seq<char>,
    pub queue: Seq<char>,
    pub exchange: Option<Seq<char>>,
}

impl View for Source {
    type V = SourceView;

    open spec fn view(&self) -> SourceView {
        SourceView {
            address: self.address@,
            queue: self.queue@,
            exchange: position::optional_text(self.exchange),
        }
    }
}

/// A delivery of the queue of sessions, read as far as it goes.
#[derive(Debug)]
pub enum Delivery {
    /// A session, with its coordinates as the log shows them.
    Session { session: PlayerSession, x: Value, y: Value, z: Value },
    /// Something else, and what is wrong with it.
    Unreadable { error: String },
}

/// The log entry of a session.
pub open spec fn session_entry(
    session: SessionView,
    x: Value,
    y: Value,
    z: Value,
    payload: Seq<char>,
) -> EventView {
    EventView {
        message_template: "RabbitMQ {event}: {gamer_name}"@,
        level: "Debug"@,
        properties: seq_logger::no_members(),
    }.with("event"@, seq_logger::json_string(session.event)).with(
        "gamer_name"@,
        seq_logger::json_string(session.gamer_name),
    ).with("country"@, seq_logger::json_integer(session.country)).with(
        "uid"@,
        seq_logger::json_string(position::text_or_empty(session.team_speak_id)),
    ).with("x"@, x).with("y"@, y).with("z"@, z).with(
        "type"@,
        seq_logger::json_string(position::text_or_empty(session.aircraft_type)),
    ).with("name"@, seq_logger::json_string(position::text_or_empty(session.name))).with(
        "payload"@,
        seq_logger::json_string(payload),
    )
}

/// The log entry of a delivery that could not be read.
pub open spec fn failure_entry(error: Seq<char>, payload: Seq<char>) -> EventView {
    EventView {
        message_template: "Failed to parse PlayerSession: {error}"@,
        level: "Warning"@,
        properties: seq_logger::no_members(),
    }.with("error"@, seq_logger::json_string(error)).with(
        "payload"@,
        seq_logger::json_string(payload),
    )
}

impl Delivery {
    /// The log entry of a delivery.
    pub open spec fn entry(self, payload: Seq<char>) -> EventView {
        match self {
            Delivery::Session { session, x, y, z } => session_entry(session@, x, y, z, payload),
            Delivery::Unreadable { error } => failure_entry(error@, payload),
        }
    }
}

fn string_property(event: SeqEvent, key: &str, value: String) -> (more: SeqEvent)
    ensures
        more@ == event@.with(key@, seq_logger::json_string(value@)),
{
    event.with_property(key, seq_logger::string_value(value))
}

/// Writes the log entry of a session. The coordinates are those of the session, as JSON values.
pub fn session_event(
    session: &PlayerSession,
    x: Value,
    y: Value,
    z: Value,
    payload: &str,
) -> (event: SeqEvent)
    ensures
        event@ == session_entry(session@, x, y, z, payload@),
{
    let event = SeqEvent::new("RabbitMQ {event}: {gamer_name}", "Debug");
    let event = string_property(event, "event", session.event.clone());
    let event = string_property(event, "gamer_name", session.gamer_name.clone());
    let event = event.with_property("country", seq_logger::integer_value(session.country));
    let event = string_property(event, "uid", position::clone_or_empty(&session.team_speak_id));
    let event = event.with_property("x", x).with_property("y", y).with_property("z", z);
    let event = string_property(event, "type", position::clone_or_empty(&session.aircraft_type));
    let event = string_property(event, "name", position::clone_or_empty(&session.name));
    string_property(event, "payload", payload.to_owned())
}

/// Writes the log entry of a delivery that could not be read.
pub fn failure_event(error: &str, payload: &str) -> (event: SeqEvent)
    ensures
        event@ == failure_entry(error@, payload@),
{
    let event = SeqEvent::new("Failed to parse PlayerSession: {error}", "Warning");
    let event = string_property(event, "error", error.to_owned());
    string_property(event, "payload", payload.to_owned())
}

/// Reads the queue of sessions.
#[derive(Debug)]
pub struct RabbitMqConsumer {
    pub config: RabbitMqConfig,
}

impl RabbitMqConsumer {
    /// A consumer that is configured like this.
    pub fn new(config: RabbitMqConfig) -> (consumer: Self)
        ensures
            consumer.config == config,
    {
        RabbitMqConsumer { config }
    }

    /// The queue that is read, unless the broker is switched off.
    pub fn source(&self) -> (source: Option<Source>)
        ensures
            match source {
                Some(source) => self.config.enabled && source@ == (SourceView {
                    address: address_of(self.config),
                    queue: self.config.queue@,
                    exchange: None,
                }),
                None => !self.config.enabled,
            },
    {
        if !self.config.enabled {
            return None;
        }
        Some(
            Source {
                address: broker_address(&self.config),
                queue: self.config.queue.clone(),
                exchange: None,
            },
        )
    }

    /// Takes a delivery into account, and writes its log entry where the log is kept.
    pub fn handle_delivery(
        &self,
        service: &mut PlayerPositionService,
        delivery: Delivery,
        payload: &str,
        logging: bool,
    ) -> (entry: Option<SeqEvent>)
        ensures
            final(service)@ == match delivery {
                Delivery::Session { session, .. } => old(service)@.after(session@),
                Delivery::Unreadable { .. } => old(service)@,
            },
            old(service)@.wf() ==> final(service)@.wf(),
            match entry {
                Some(event) => logging && event@ == delivery.entry(payload@),
                None => !logging,
            },
    {
        match delivery {
            Delivery::Session { session, x, y, z } => {
                let entry: Option<SeqEvent> = if logging {
                    Some(session_event(&session, x, y, z, payload))
                } else {
                    None
                };
                service.handle_session(session);
                entry
            },
            Delivery::Unreadable { error } => {
                if logging {
                    Some(failure_event(error.as_str(), payload))
                } else {
                    None
                }
            },
        }
    }
}

/// What an event of the TeamSpeak server says.
#[derive(Debug, Clone, Copy, PartialEq, Eq, Structural)]
pub enum Ts3Event {
    Connected,
    Disconnected,
    Moved,
    /// Muted or unmuted: who is online does not change.
    AudioState,
    Unknown,
}

/// The meaning of the name of an event.
pub open spec fn event_named(name: Seq<char>) -> Ts3Event {
    if name == "userConnected"@ {
        Ts3Event::Connected
    } else if name == "userDisconnected"@ {
        Ts3Event::Disconnected
    } else if name == "userMoved"@ {
        Ts3Event::Moved
    } else if name == "userAudioStateChanged"@ {
        Ts3Event::AudioState
    } else {
        Ts3Event::Unknown
    }
}

/// The clients that are online after an event about one of them.
pub open spec fn after_event(
    clients: Map<u16, Option<Seq<char>>>,
    event: Ts3Event,
    client_id: u16,
    uid: Seq<char>,
) -> Map<u16, Option<Seq<char>>> {
    match event {
        Ts3Event::Connected | Ts3Event::Moved => clients.insert(client_id, Some(uid)),
        Ts3Event::Disconnected => clients.remove(client_id),
        Ts3Event::AudioState | Ts3Event::Unknown => clients,
    }
}

/// Why the queue of TeamSpeak events is not read, or where it is.
#[derive(Debug)]
pub enum Ts3Source {
    /// No queue is configured.
    NoQueue,
    /// The broker is switched off.
    Disabled,
    /// The queue is read.
    Queue(Source),
}

/// Reads the queue of TeamSpeak events.
#[derive(Debug)]
pub struct RabbitMqTs3Consumer {
    pub config: RabbitMqConfig,
}

impl RabbitMqTs3Consumer {
    /// A consumer that is configured like this.
    pub fn new(config: RabbitMqConfig) -> (consumer: Self)
        ensures
            consumer.config == config,
    {
        RabbitMqTs3Consumer { config }
    }

    /// The name of the queue, where one is configured.
    pub open spec fn queue(&self) -> Option<Seq<char>> {
        match self.config.ts3_events_queue {
            Some(queue) => if queue@.len() > 0 {
                Some(queue@)
            } else {
                None
            },
            None => None,
        }
    }

    /// The queue that is read, unless none is configured or the broker is switched off.
    pub fn source(&self) -> (source: Ts3Source)
        ensures
            match source {
                Ts3Source::NoQueue => self.queue() is None,
                Ts3Source::Disabled => self.queue() is Some && !self.config.enabled,
                Ts3Source::Queue(source) => {
                    &&& self.queue() is Some
                    &&& self.config.enabled
                    &&& source@ == (SourceView {
                        address: address_of(self.config),
                        queue: self.queue()->0,
                        exchange: position::optional_text(self.config.ts3_events_exchange),
                    })
                },
            },
    {
        match &self.config.ts3_events_queue {
            Some(queue) => {
                if queue.as_str().is_empty() {
                    return Ts3Source::NoQueue;
                }
                if !self.config.enabled {
                    return Ts3Source::Disabled;
                }
                Ts3Source::Queue(
                    Source {
                        address: broker_address(&self.config),
                        queue: queue.clone(),
                        exchange: position::clone_optional(&self.config.ts3_events_exchange),
                    },
                )
            },
            None => Ts3Source::NoQueue,
        }
    }

    /// Takes an event into account, and says what it was.
    pub fn handle_message(
        &self,
        clients: &mut Ts3ClientList,
        envelope: &Ts3EventEnvelope,
    ) -> (event: Ts3Event)
        ensures
            event == event_named(envelope.event_type@),
            final(clients)@ == after_event(
                old(clients)@,
                event,
                envelope.payload.client_id,
                envelope.payload.unique_id@,
            ),
    {
        let name = envelope.event_type.as_str();
        let user = &envelope.payload;
        let event: Ts3Event = if text::same(name, "userConnected") {
            Ts3Event::Connected
        } else if text::same(name, "userDisconnected") {
            Ts3Event::Disconnected
        } else if text::same(name, "userMoved") {
            Ts3Event::Moved
        } else if text::same(name, "userAudioStateChanged") {
            Ts3Event::AudioState
        } else {
            Ts3Event::Unknown
        };
        match event {
            Ts3Event::Connected | Ts3Event::Moved => {
                clients.insert_or_update(
                    Ts3ClientInfo {
                        client_id: user.client_id,
                        uid: Some(user.unique_id.clone()),
                    },
                );
            },
            Ts3Event::Disconnected => {
                clients.remove(user.client_id);
            },
            Ts3Event::AudioState | Ts3Event::Unknown => {},
        }
        event
    }
}

/// The log entry of a session names the event and the player, and keeps the message as it came.
pub proof fn law_session_logged(
    session: SessionView,
    x: Value,
    y: Value,
    z: Value,
    payload: Seq<char>,
)
    ensures
        ({
            let logged = session_entry(session, x, y, z, payload).properties;
            &&& logged["event"@] == seq_logger::json_string(session.event)
            &&& logged["gamer_name"@] == seq_logger::json_string(session.gamer_name)
            &&& logged["country"@] == seq_logger::json_integer(session.country)
            &&& logged["x"@] == x
            &&& logged["y"@] == y
            &&& logged["z"@] == z
            &&& logged["payload"@] == seq_logger::json_string(payload)
            &&& match session.team_speak_id {
                Some(uid) => logged["uid"@] == seq_logger::json_string(uid),
                None => logged["uid"@] == seq_logger::json_string(Seq::empty()),
            }
            &&& match session.aircraft_type {
                Some(text) => logged["type"@] == seq_logger::json_string(text),
                None => logged["type"@] == seq_logger::json_string(Seq::empty()),
            }
            &&& match session.name {
                Some(text) => logged["name"@] == seq_logger::json_string(text),
                None => logged["name"@] == seq_logger::json_string(Seq::empty()),
            }
        }),
{
    reveal_strlit("event");
    reveal_strlit("gamer_name");
    reveal_strlit("country");
    reveal_strlit("uid");
    reveal_strlit("x");
    reveal_strlit("y");
    reveal_strlit("z");
    reveal_strlit("type");
    reveal_strlit("name");
    reveal_strlit("payload");
    assert("event"@.len() == 5);
    assert("gamer_name"@.len() == 10);
    assert("country"@.len() == 7 && "country"@[0] == 'c');
    assert("uid"@.len() == 3);
    assert("x"@.len() == 1 && "x"@[0] == 'x');
    assert("y"@.len() == 1 && "y"@[0] == 'y');
    assert("z"@.len() == 1 && "z"@[0] == 'z');
    assert("type"@.len() == 4 && "type"@[0] == 't');
    assert("name"@.len() == 4 && "name"@[0] == 'n');
    assert("payload"@.len() == 7 && "payload"@[0] == 'p');
}

/// The four events that the TeamSpeak server sends are told apart.
pub proof fn law_events_told_apart()
    ensures
        event_named("userConnected"@) == Ts3Event::Connected,
        event_named("userDisconnected"@) == Ts3Event::Disconnected,
        event_named("userMoved"@) == Ts3Event::Moved,
        event_named("userAudioStateChanged"@) == Ts3Event::AudioState,
{
    reveal_strlit("userConnected");
    reveal_strlit("userDisconnected");
    reveal_strlit("userMoved");
    reveal_strlit("userAudioStateChanged");
    assert("userConnected"@.len() == 13);
    assert("userDisconnected"@.len() == 16);
    assert("userMoved"@.len() == 9);
    assert("userAudioStateChanged"@.len() == 21);
}

/// An event about one client leaves all others as they are.
pub proof fn law_other_clients_untouched(
    clients: Map<u16, Option<Seq<char>>>,
    event: Ts3Event,
    client_id: u16,
    uid: Seq<char>,
    other: u16,
)
    requires
        other != client_id,
    ensures
        after_event(clients, event, client_id, uid).contains_key(other) == clients.contains_key(
            other,
        ),
        clients.contains_key(other) ==> after_event(clients, event, client_id, uid)[other]
            == clients[other],
{
}

/// A client that connects and disconnects again leaves no trace.
pub proof fn law_connect_then_disconnect(
    clients: Map<u16, Option<Seq<char>>>,
    client_id: u16,
    uid: Seq<char>,
)
    requires
        !clients.contains_key(client_id),
    ensures
        after_event(
            after_event(clients, Ts3Event::Connected, client_id, uid),
            Ts3Event::Disconnected,
            client_id,
            uid,
        ) == clients,
{
    assert(clients.insert(client_id, Some(uid)).remove(client_id) =~= clients);
}

/// An event that is delivered twice has the effect of one.
pub proof fn law_repeated_event(
    clients: Map<u16, Option<Seq<char>>>,
    event: Ts3Event,
    client_id: u16,
    uid: Seq<char>,
)
    ensures
        after_event(after_event(clients, event, client_id, uid), event, client_id, uid)
            == after_event(clients, event, client_id, uid),
{
    assert(after_event(after_event(clients, event, client_id, uid), event, client_id, uid)
        =~= after_event(clients, event, client_id, uid));
}

/// A client that has moved is known as if it had connected.
pub proof fn law_move_is_connect(
    clients: Map<u16, Option<Seq<char>>>,
    client_id: u16,
    uid: Seq<char>,
)
    ensures
        after_event(clients, Ts3Event::Moved, client_id, uid) == after_event(
            clients,
            Ts3Event::Connected,
            client_id,
            uid,
        ),
{
}

/// The entry of a session has the template and the level of a session, and the ten properties and no
/// others.
pub proof fn law_session_entry_members(
    session: SessionView,
    x: Value,
    y: Value,
    z: Value,
    payload: Seq<char>,
    key: Seq<char>,
)
    ensures
        session_entry(session, x, y, z, payload).message_template
            == "RabbitMQ {event}: {gamer_name}"@,
        session_entry(session, x, y, z, payload).level == "Debug"@,
        session_entry(session, x, y, z, payload).properties.contains_key(key) <==> key == "event"@
            || key == "gamer_name"@ || key == "country"@ || key == "uid"@ || key == "x"@ || key
            == "y"@ || key == "z"@ || key == "type"@ || key == "name"@ || key == "payload"@,
{
}

/// The entry of a delivery that could not be read says what is wrong with it and what it holds, as a
/// warning, and nothing else.
pub proof fn law_failure_logged(error: Seq<char>, payload: Seq<char>, key: Seq<char>)
    ensures
        ({
            let entry = failure_entry(error, payload);
            &&& entry.message_template == "Failed to parse PlayerSession: {error}"@
            &&& entry.level == "Warning"@
            &&& entry.properties["error"@] == seq_logger::json_string(error)
            &&& entry.properties["payload"@] == seq_logger::json_string(payload)
            &&& entry.properties.contains_key(key) <==> key == "error"@ || key == "payload"@
        }),
{
    reveal_strlit("error");
    reveal_strlit("payload");
    assert("error"@.len() == 5);
    assert("payload"@.len() == 7);
}

/// Which entry a delivery gets.
pub proof fn law_delivery_entry(delivery: Delivery, payload: Seq<char>)
    ensures
        match delivery {
            Delivery::Session { session, x, y, z } => delivery.entry(payload) == session_entry(
                session@,
                x,
                y,
                z,
                payload,
            ),
            Delivery::Unreadable { error } => delivery.entry(payload) == failure_entry(
                error@,
                payload,
            ),
        },
{
}

/// A name that means an event is one of the four; any other means nothing.
pub proof fn law_event_named(name: Seq<char>)
    ensures
        event_named(name) != Ts3Event::Unknown <==> name == "userConnected"@ || name
            == "userDisconnected"@ || name == "userMoved"@ || name == "userAudioStateChanged"@,
{
    law_events_told_apart();
}

/// A client that connects or moves is online under the UID of the event; one that disconnects is
/// not; a change of the audio state, or an event that is not known, changes nothing.
pub proof fn law_client_after_event(
    clients: Map<u16, Option<Seq<char>>>,
    client_id: u16,
    uid: Seq<char>,
    other: u16,
)
    ensures
        ({
            let connected = after_event(clients, Ts3Event::Connected, client_id, uid);
            let moved = after_event(clients, Ts3Event::Moved, client_id, uid);
            let gone = after_event(clients, Ts3Event::Disconnected, client_id, uid);
            &&& connected.contains_key(client_id) && connected[client_id] == Some(uid)
            &&& moved.contains_key(client_id) && moved[client_id] == Some(uid)
            &&& !gone.contains_key(client_id)
            &&& after_event(clients, Ts3Event::AudioState, client_id, uid) == clients
            &&& after_event(clients, Ts3Event::Unknown, client_id, uid) == clients
            &&& other != client_id ==> {
                &&& connected.contains_key(other) == clients.contains_key(other)
                &&& moved.contains_key(other) == clients.contains_key(other)
                &&& gone.contains_key(other) == clients.contains_key(other)
                &&& connected[other] == clients[other]
                &&& moved[other] == clients[other]
                &&& clients.contains_key(other) ==> gone[other] == clients[other]
            }
        }),
{
}

/// The address names user and password, host and port, in this order and with these marks between
/// them; each stands as it is configured.
pub proof fn law_address_parts(config: RabbitMqConfig)
    ensures
        ({
            let address = address_of(config);
            let user = 7 + config.username@.len() as int;
            let password = user + 1 + config.password@.len() as int;
            let host = password + 1 + config.hostname@.len() as int;
            &&& address.subrange(0, 7) == "amqp://"@
            &&& address.subrange(7, user) == config.username@
            &&& address[user] == ':'
            &&& address.subrange(user + 1, password) == config.password@
            &&& address[password] == '@'
            &&& address.subrange(password + 1, host) == config.hostname@
            &&& address[host] == ':'
            &&& text::number_of(address.subrange(host + 1, address.len() as int)) == config.port
        }),
{
    reveal_strlit("amqp://");
    reveal_strlit(":");
    reveal_strlit("@");
    assert("amqp://"@.len() == 7);
    assert(":"@.len() == 1 && ":"@[0] == ':');
    assert("@"@.len() == 1 && "@"@[0] == '@');
    text::law_decimal_read_back(config.port as nat);
    let address = address_of(config);
    let user = 7 + config.username@.len() as int;
    let password = user + 1 + config.password@.len() as int;
    let host = password + 1 + config.hostname@.len() as int;
    assert(address.subrange(0, 7) =~= "amqp://"@);
    assert(address.subrange(7, user) =~= config.username@);
    assert(address.subrange(user + 1, password) =~= config.password@);
    assert(address.subrange(password + 1, host) =~= config.hostname@);
    assert(address.subrange(host + 1, address.len() as int) =~= text::decimal(config.port as nat));
}

/// The queue of TeamSpeak events is the configured one; there is none exactly if none is configured,
/// or one without a name.
pub proof fn law_event_queue(consumer: RabbitMqTs3Consumer, name: Seq<char>)
    ensures
        consumer.queue() == Some(name) <==> name.len() > 0
            && consumer.config.ts3_events_queue is Some
            && consumer.config.ts3_events_queue->0@ == name,
{
}

/// A source says of each field what its view says.
pub proof fn law_source_view(source: Source)
    ensures
        source@.address == source.address@,
        source@.queue == source.queue@,
        source.exchange is None ==> source@.exchange is None,
        source.exchange matches Some(exchange) ==> source@.exchange == Some(exchange@),
{
}

} // verus!
