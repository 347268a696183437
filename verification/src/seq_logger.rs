//! Structured log events, and how they are sent to a Seq server: in batches, one line of JSON
//! for each event.
use serde_json::Value;
use vstd::prelude::*;
use vstd::string::*;

use crate::text;

verus! {

/// A JSON value.
#[verifier::external_type_specification]
#[verifier::external_body]
pub struct ExValue(Value);

/// The members of a JSON object.
#[verifier::external_type_specification]
#[verifier::external_body]
#[verifier::reject_recursive_types(K)]
#[verifier::reject_recursive_types(V)]
pub struct ExJsonMap<K, V>(serde_json::Map<K, V>);

/// What a JSON object holds: the value of each key.
pub uninterp spec fn members(object: serde_json::Map<String, Value>) -> Map<Seq<char>, Value>;

/// A text as a JSON value.
pub uninterp spec fn json_string(s: Seq<char>) -> Value;

/// An integer as a JSON value.
pub uninterp spec fn json_integer(n: i32) -> Value;

/// A JSON object as compact text.
pub uninterp spec fn object_text(object: Map<Seq<char>, Value>) -> Seq<char>;

/// An object without members.
pub open spec fn no_members() -> Map<Seq<char>, Value> {
    Map::empty()
}

/// `serde_json::Map::new`: an object without members.
#[verifier::external_body]
fn new_object() -> (object: serde_json::Map<String, Value>)
    ensures
        members(object) == no_members(),
{
    serde_json::Map::new()
}

/// `serde_json::Map::insert`: the value is stored under the key, in place of what was there.
#[verifier::external_body]
fn set_member(object: &mut serde_json::Map<String, Value>, key: String, value: Value)
    ensures
        members(*final(object)) == members(*old(object)).insert(key@, value),
{
    object.insert(key, value);
}

/// `serde_json::Map::clone`: an object with the same members.
#[verifier::external_body]
fn clone_object(object: &serde_json::Map<String, Value>) -> (copy: serde_json::Map<String, Value>)
    ensures
        members(copy) == members(*object),
{
    object.clone()
}

/// `serde_json::Map::into_iter`, collected: every member once. The order is the map's own and is
/// left open.
#[verifier::external_body]
fn into_members(object: serde_json::Map<String, Value>) -> (all: Vec<(String, Value)>)
    ensures
        enumerates(all@, members(object)),
{
    object.into_iter().collect()
}

/// `serde_json::Value::from` of a `String`: the text as a JSON value.
#[verifier::external_body]
pub(crate) fn string_value(s: String) -> (value: Value)
    ensures
        value == json_string(s@),
{
    Value::from(s)
}

/// `serde_json::Value::from` of an `i32`: the integer as a JSON value.
#[verifier::external_body]
pub(crate) fn integer_value(n: i32) -> (value: Value)
    ensures
        value == json_integer(n),
{
    Value::from(n)
}

/// `serde_json::Value::to_string` of an object: its compact text. Members are kept and written in
/// the order of their keys, so the text depends on what the object holds alone.
#[verifier::external_body]
fn text_of_object(object: serde_json::Map<String, Value>) -> (s: String)
    ensures
        s@ == object_text(members(object)),
{
    Value::Object(object).to_string()
}

/// A digit.
pub open spec fn is_digit(c: char) -> bool {
    '0' <= c <= '9'
}

/// Two digits, from an index on.
pub open spec fn two_digits(s: Seq<char>, i: int) -> bool {
    is_digit(s[i]) && is_digit(s[i + 1])
}

/// The form of a point in time: `YYYY-MM-DDThh:mm:ss.mmmZ`. A year beyond four digits takes more
/// room.
pub open spec fn is_time(s: Seq<char>) -> bool {
    let n = s.len() as int;
    &&& n >= 24
    &&& s[n - 20] == '-' && two_digits(s, n - 19)
    &&& s[n - 17] == '-' && two_digits(s, n - 16)
    &&& s[n - 14] == 'T' && two_digits(s, n - 13)
    &&& s[n - 11] == ':' && two_digits(s, n - 10)
    &&& s[n - 8] == ':' && two_digits(s, n - 7)
    &&& s[n - 5] == '.' && two_digits(s, n - 4) && is_digit(s[n - 2])
    &&& s[n - 1] == 'Z'
}

/// `chrono::Utc::now` as text, by `to_rfc3339_opts` with milliseconds and `Z`: a point in time of
/// this form. Which one is not said: it depends on the clock.
#[verifier::external_body]
fn time_stamp() -> (now: String)
    ensures
        is_time(now@),
{
    chrono::Utc::now().to_rfc3339_opts(chrono::SecondsFormat::Millis, true)
}

/// `all` lists the members of an object: every key once, with its value.
pub open spec fn enumerates(all: Seq<(String, Value)>, object: Map<Seq<char>, Value>) -> bool {
    &&& forall|i: int|
        0 <= i < all.len() ==> object.contains_key((#[trigger] all[i]).0@) && object[all[i].0@]
            == all[i].1
    &&& forall|i: int, j: int|
        0 <= i < j < all.len() ==> (#[trigger] all[i]).0@ != (#[trigger] all[j]).0@
    &&& forall|key: Seq<char>| #[trigger]
        object.contains_key(key) ==> exists|i: int|
            0 <= i < all.len() && (#[trigger] all[i]).0@ == key
}

/// A single event.
#[derive(Debug)]
pub struct SeqEvent {
    pub message_template: String,
    pub level: &'static str,
    pub properties: serde_json::Map<String, Value>,
}

/// A single event as a mathematical value.
#[verifier::ext_equal]
pub struct EventView {
    pub message_template: Seq<char>,
    pub level: Seq<char>,
    pub properties: Map<Seq<char>, Value>,
}

impl View for SeqEvent {
    type V = EventView;

    open spec fn view(&self) -> EventView {
        EventView {
            message_template: self.message_template@,
            level: self.level@,
            properties: members(self.properties),
        }
    }
}

impl Clone for SeqEvent {
    fn clone(&self) -> (copy: Self)
        ensures
            copy@ == self@,
    {
        SeqEvent {
            message_template: self.message_template.clone(),
            level: self.level,
            properties: clone_object(&self.properties),
        }
    }
}

impl EventView {
    /// The event with one more property, or another value of a property.
    pub open spec fn with(self, key: Seq<char>, value: Value) -> EventView {
        EventView { properties: self.properties.insert(key, value), ..self }
    }

    /// The members of the JSON object that the server is sent: the time, the message template,
    /// the level and the name of the application, and over them the properties.
    pub open spec fn object(self, time: Seq<char>, application: Seq<char>) -> Map<
        Seq<char>,
        Value,
    > {
        no_members().insert("@t"@, json_string(time)).insert(
            "@mt"@,
            json_string(self.message_template),
        ).insert("@l"@, json_string(self.level)).insert(
            "Application"@,
            json_string(application),
        ).union_prefer_right(self.properties)
    }

    /// The JSON text that the server is sent.
    pub open spec fn text(self, time: Seq<char>, application: Seq<char>) -> Seq<char> {
        object_text(self.object(time, application))
    }
}

impl SeqEvent {
    /// An event without properties.
    pub fn new(template: &str, level: &'static str) -> (event: Self)
        ensures
            event@ == (EventView {
                message_template: template@,
                level: level@,
                properties: no_members(),
            }),
    {
        SeqEvent { message_template: template.to_owned(), level, properties: new_object() }
    }

    /// Adds a property. A second value under one key takes the place of the first.
    pub fn with_property(self, key: &str, value: Value) -> (event: Self)
        ensures
            event@ == self@.with(key@, value),
    {
        let mut event = self;
        set_member(&mut event.properties, key.to_owned(), value);
        event
    }

    /// The JSON text that the server is sent for this event at a given time.
    pub fn text_at(&self, time: &str, application: &str) -> (json: String)
        ensures
            json@ == self@.text(time@, application@),
    {
        let mut object = new_object();
        set_member(&mut object, "@t".to_owned(), string_value(time.to_owned()));
        set_member(&mut object, "@mt".to_owned(), string_value(self.message_template.clone()));
        set_member(&mut object, "@l".to_owned(), string_value(self.level.to_owned()));
        set_member(
            &mut object,
            "Application".to_owned(),
            string_value(application.to_owned()),
        );
        let ghost base = members(object);
        let mut all = into_members(clone_object(&self.properties));
        let ghost listed = all@;
        while all.len() > 0
            invariant
                enumerates(listed, self@.properties),
                all@ == listed.take(all@.len() as int),
                all@.len() <= listed.len(),
                forall|key: Seq<char>| #[trigger]
                    members(object).contains_key(key) <==> base.contains_key(key) || exists|i: int|
                        all@.len() <= i < listed.len() && (#[trigger] listed[i]).0@ == key,
                forall|key: Seq<char>| #[trigger]
                    members(object).contains_key(key) ==> members(object)[key] == (if exists|i: int|
                        all@.len() <= i < listed.len() && (#[trigger] listed[i]).0@ == key {
                        self@.properties[key]
                    } else {
                        base[key]
                    }),
            decreases all@.len(),
        {
            let ghost before = members(object);
            match all.pop() {
                Some((key, value)) => {
                    let ghost n = all@.len() as int;
                    assert(listed[n] == (key, value));
                    set_member(&mut object, key, value);
                    assert forall|k: Seq<char>| #[trigger] members(object).contains_key(k) <==> base.contains_key(
                        k,
                    ) || exists|i: int|
                        n <= i < listed.len() && (#[trigger] listed[i]).0@ == k by {
                        assert(before.contains_key(k) || !before.contains_key(k));
                        if k == listed[n].0@ {
                            assert(members(object).contains_key(k));
                        }
                    }
                },
                None => {},
            }
        }
        assert(members(object) =~= self@.object(time@, application@));
        text_of_object(object)
    }
}

/// Texts, each on a line of its own.
pub open spec fn lines(texts: Seq<Seq<char>>) -> Seq<char>
    decreases texts.len(),
{
    if texts.len() == 0 {
        Seq::empty()
    } else {
        lines(texts.drop_last()) + texts.last() + "\n"@
    }
}

/// The contents of a list of texts.
pub open spec fn text_views(texts: Seq<String>) -> Seq<Seq<char>> {
    Seq::new(texts.len(), |i: int| texts[i]@)
}

/// Writes texts, each on a line of its own.
pub fn join_lines(texts: &Vec<String>) -> (body: String)
    ensures
        body@ == lines(text_views(texts@)),
{
    let mut body: String = String::new();
    let mut i: usize = 0;
    while i < texts.len()
        invariant
            i <= texts@.len(),
            body@ == lines(text_views(texts@).take(i as int)),
        decreases texts.len() - i,
    {
        assert(text_views(texts@).take(i + 1).drop_last() =~= text_views(texts@).take(i as int));
        body.append(texts[i].as_str());
        body.append("\n");
        i += 1;
    }
    assert(text_views(texts@).take(texts@.len() as int) =~= text_views(texts@));
    body
}

/// The JSON texts of events that were stamped at the given times.
pub open spec fn event_texts(
    events: Seq<SeqEvent>,
    times: Seq<Seq<char>>,
    application: Seq<char>,
) -> Seq<Seq<char>> {
    Seq::new(events.len(), |i: int| events[i]@.text(times[i], application))
}

/// A body that the server is sent for a batch: a line for each event, in their order. Each event
/// is stamped with a point in time of its own.
pub open spec fn is_body(
    body: Seq<char>,
    events: Seq<SeqEvent>,
    times: Seq<Seq<char>>,
    application: Seq<char>,
) -> bool {
    &&& times.len() == events.len()
    &&& forall|i: int| 0 <= i < times.len() ==> is_time(#[trigger] times[i])
    &&& body == lines(event_texts(events, times, application))
}

/// The body that the server is sent for a batch. The times are those of the clock.
pub fn batch_body(events: &Vec<SeqEvent>, application: &str) -> (body: String)
    ensures
        exists|times: Seq<Seq<char>>| is_body(body@, events@, times, application@),
{
    let mut texts: Vec<String> = Vec::new();
    let ghost mut times: Seq<Seq<char>> = Seq::empty();
    let mut i: usize = 0;
    while i < events.len()
        invariant
            i <= events@.len(),
            texts@.len() == i,
            times.len() == i,
            forall|j: int| 0 <= j < i ==> is_time(#[trigger] times[j]),
            forall|j: int| 0 <= j < i ==> (#[trigger] texts@[j])@ == events@[j]@.text(
                times[j],
                application@,
            ),
        decreases events.len() - i,
    {
        let now = time_stamp();
        let json = events[i].text_at(now.as_str(), application);
        proof {
            times = times.push(now@);
        }
        texts.push(json);
        i += 1;
    }
    let body = join_lines(&texts);
    assert(text_views(texts@) =~= event_texts(events@, times, application@));
    assert(is_body(body@, events@, times, application@));
    body
}

/// Where the server at an address takes events. Slashes at the end of the address do not count.
pub open spec fn events_path(url: Seq<char>) -> Seq<char> {
    text::without_trailing_slashes(url) + "/api/events/raw?clef"@
}

/// The address that events are sent to.
pub fn events_url(url: &str) -> (address: String)
    ensures
        address@ == events_path(url@),
{
    let mut address = text::trim_end_slashes(url).to_owned();
    address.append("/api/events/raw?clef");
    address
}

/// The headers of a request: the content type, and the key of the server's API where one is
/// configured.
pub open spec fn header_views(api_key: Option<Seq<char>>) -> Seq<(Seq<char>, Seq<char>)> {
    let content_type = seq![("Content-Type"@, "application/vnd.serilog.clef"@)];
    match api_key {
        Some(key) => content_type.push(("X-Seq-ApiKey"@, key)),
        None => content_type,
    }
}

/// The contents of a list of headers.
pub open spec fn pair_views(headers: Seq<(&'static str, String)>) -> Seq<(Seq<char>, Seq<char>)> {
    Seq::new(headers.len(), |i: int| (headers[i].0@, headers[i].1@))
}

/// The headers that events are sent with.
pub fn request_headers(api_key: &Option<String>) -> (headers: Vec<(&'static str, String)>)
    ensures
        pair_views(headers@) == header_views(crate::position::optional_text(*api_key)),
{
    let mut headers: Vec<(&'static str, String)> = Vec::new();
    headers.push(("Content-Type", "application/vnd.serilog.clef".to_owned()));
    if let Some(key) = api_key {
        headers.push(("X-Seq-ApiKey", key.clone()));
    }
    assert(pair_views(headers@) =~= header_views(crate::position::optional_text(*api_key)));
    headers
}

/// How many events make a batch that is sent at once.
pub const BATCH_SIZE: usize = 100;

/// How often the events that wait are sent, in milliseconds: once a second.
pub const FLUSH_INTERVAL_MS: u64 = 1000;

/// Something that happens to the events that wait.
pub enum BatchStep {
    /// An event is logged.
    Logged(SeqEvent),
    /// The interval has passed.
    Tick,
}

/// The events that wait to be sent.
#[derive(Debug)]
pub struct SeqBatch {
    waiting: Vec<SeqEvent>,
}

impl View for SeqBatch {
    type V = Seq<SeqEvent>;

    closed spec fn view(&self) -> Seq<SeqEvent> {
        self.waiting@
    }
}

/// Whether the events that wait are sent: those that are enough for a batch at once, any others
/// when a second has passed.
pub open spec fn is_due(waiting: Seq<SeqEvent>, step: BatchStep) -> bool {
    match step {
        BatchStep::Logged(event) => waiting.len() + 1 >= BATCH_SIZE,
        BatchStep::Tick => waiting.len() > 0,
    }
}

/// The events that wait, and the one that a step brings.
pub open spec fn gathered(waiting: Seq<SeqEvent>, step: BatchStep) -> Seq<SeqEvent> {
    match step {
        BatchStep::Logged(event) => waiting.push(event),
        BatchStep::Tick => waiting,
    }
}

/// What a step sends.
pub open spec fn sent(waiting: Seq<SeqEvent>, step: BatchStep) -> Seq<SeqEvent> {
    if is_due(waiting, step) {
        gathered(waiting, step)
    } else {
        Seq::empty()
    }
}

/// What waits after a step.
pub open spec fn left(waiting: Seq<SeqEvent>, step: BatchStep) -> Seq<SeqEvent> {
    if is_due(waiting, step) {
        Seq::empty()
    } else {
        gathered(waiting, step)
    }
}

impl SeqBatch {
    /// No more events wait than make up less than a batch.
    pub open spec fn wf(&self) -> bool {
        self@.len() < BATCH_SIZE
    }

    /// No event waits.
    pub fn new() -> (batch: Self)
        ensures
            batch.wf(),
            batch@ == Seq::<SeqEvent>::empty(),
    {
        SeqBatch { waiting: Vec::new() }
    }

    /// Takes a step, and hands out the batch that is to be sent, if one is due.
    pub fn step(&mut self, step: BatchStep) -> (due: Option<Vec<SeqEvent>>)
        requires
            old(self).wf(),
        ensures
            final(self).wf(),
            due is Some == is_due(old(self)@, step),
            due matches Some(batch) ==> batch@ == sent(old(self)@, step),
            final(self)@ == left(old(self)@, step),
    {
        let flush: bool = match step {
            BatchStep::Logged(event) => {
                self.waiting.push(event);
                self.waiting.len() >= BATCH_SIZE
            },
            BatchStep::Tick => self.waiting.len() > 0,
        };
        if flush {
            let mut batch: Vec<SeqEvent> = Vec::new();
            std::mem::swap(&mut batch, &mut self.waiting);
            Some(batch)
        } else {
            None
        }
    }
}

/// All that waits after a run of steps, from nothing.
pub open spec fn left_after(steps: Seq<BatchStep>) -> Seq<SeqEvent>
    decreases steps.len(),
{
    if steps.len() == 0 {
        Seq::empty()
    } else {
        left(left_after(steps.drop_last()), steps.last())
    }
}

/// All that a run of steps sends, in order.
pub open spec fn sent_by(steps: Seq<BatchStep>) -> Seq<SeqEvent>
    decreases steps.len(),
{
    if steps.len() == 0 {
        Seq::empty()
    } else {
        sent_by(steps.drop_last()) + sent(left_after(steps.drop_last()), steps.last())
    }
}

/// All that a run of steps logs, in order.
pub open spec fn logged_by(steps: Seq<BatchStep>) -> Seq<SeqEvent>
    decreases steps.len(),
{
    if steps.len() == 0 {
        Seq::empty()
    } else {
        match steps.last() {
            BatchStep::Logged(event) => logged_by(steps.drop_last()).push(event),
            BatchStep::Tick => logged_by(steps.drop_last()),
        }
    }
}

/// No event is lost, sent twice or sent out of order: what was sent and what waits is what was
/// logged.
pub proof fn law_no_event_lost(steps: Seq<BatchStep>)
    ensures
        sent_by(steps) + left_after(steps) == logged_by(steps),
    decreases steps.len(),
{
    if steps.len() > 0 {
        law_no_event_lost(steps.drop_last());
    }
    assert(sent_by(steps) + left_after(steps) =~= logged_by(steps));
}

/// No batch is larger than the batch size.
pub proof fn law_batch_bounded(steps: Seq<BatchStep>, step: BatchStep)
    ensures
        sent(left_after(steps), step).len() <= BATCH_SIZE,
        left_after(steps).len() < BATCH_SIZE,
    decreases steps.len(),
{
    if steps.len() > 0 {
        law_batch_bounded(steps.drop_last(), steps.last());
    }
}

/// When a second has passed nothing waits any more.
pub proof fn law_tick_sends_all(steps: Seq<BatchStep>)
    ensures
        left_after(steps.push(BatchStep::Tick)) == Seq::<SeqEvent>::empty(),
        sent_by(steps.push(BatchStep::Tick)) == logged_by(steps),
{
    let more = steps.push(BatchStep::Tick);
    assert(more.drop_last() =~= steps);
    law_no_event_lost(steps);
    assert(left_after(more) =~= Seq::empty());
    assert(sent_by(more) =~= logged_by(steps));
}

/// A slash at the end of the server's address makes no difference.
pub proof fn law_trailing_slash(url: Seq<char>)
    ensures
        events_path(url.push('/')) == events_path(url),
{
    assert(url.push('/').drop_last() =~= url);
}

/// A property takes the place of a member that is always there.
pub proof fn law_property_prevails(
    event: EventView,
    key: Seq<char>,
    value: Value,
    time: Seq<char>,
    application: Seq<char>,
)
    ensures
        event.with(key, value).object(time, application).contains_key(key),
        event.with(key, value).object(time, application)[key] == value,
{
}

/// An event without such properties says when it happened, what, how severe it is, and where.
pub proof fn law_base_members(event: EventView, time: Seq<char>, application: Seq<char>)
    requires
        !event.properties.contains_key("@t"@),
        !event.properties.contains_key("@mt"@),
        !event.properties.contains_key("@l"@),
        !event.properties.contains_key("Application"@),
    ensures
        event.object(time, application)["@t"@] == json_string(time),
        event.object(time, application)["@mt"@] == json_string(event.message_template),
        event.object(time, application)["@l"@] == json_string(event.level),
        event.object(time, application)["Application"@] == json_string(application),
{
    reveal_strlit("@t");
    reveal_strlit("@mt");
    reveal_strlit("@l");
    reveal_strlit("Application");
    assert("@t"@.len() == 2);
    assert("@mt"@.len() == 3);
    assert("@l"@.len() == 2);
    assert("@t"@[1] == 't');
    assert("@l"@[1] == 'l');
    assert("Application"@.len() == 11);
}

/// A property is added to an event, or takes the place of one with its name; nothing else of the
/// event changes.
pub proof fn law_property_added(event: EventView, key: Seq<char>, value: Value, other: Seq<char>)
    ensures
        event.with(key, value).message_template == event.message_template,
        event.with(key, value).level == event.level,
        event.with(key, value).properties.contains_key(key),
        event.with(key, value).properties[key] == value,
        other != key ==> event.with(key, value).properties.contains_key(other)
            == event.properties.contains_key(other),
        other != key ==> event.with(key, value).properties[other] == event.properties[other],
{
}

/// The members of an event's object are its properties, as they are, and the four that are always
/// there; there are no others.
pub proof fn law_object_members(
    event: EventView,
    time: Seq<char>,
    application: Seq<char>,
    key: Seq<char>,
)
    ensures
        event.object(time, application).contains_key(key) <==> event.properties.contains_key(key)
            || key == "@t"@ || key == "@mt"@ || key == "@l"@ || key == "Application"@,
        event.properties.contains_key(key) ==> event.object(time, application)[key]
            == event.properties[key],
{
}

/// An event without such properties has each of the members that are always there, whatever other
/// properties it has.
pub proof fn law_base_member(event: EventView, time: Seq<char>, application: Seq<char>)
    ensures
        !event.properties.contains_key("@t"@) ==> event.object(time, application)["@t"@]
            == json_string(time),
        !event.properties.contains_key("@mt"@) ==> event.object(time, application)["@mt"@]
            == json_string(event.message_template),
        !event.properties.contains_key("@l"@) ==> event.object(time, application)["@l"@]
            == json_string(event.level),
        !event.properties.contains_key("Application"@) ==> event.object(
            time,
            application,
        )["Application"@] == json_string(application),
        event.text(time, application) == object_text(event.object(time, application)),
{
    reveal_strlit("@t");
    reveal_strlit("@mt");
    reveal_strlit("@l");
    reveal_strlit("Application");
    assert("@t"@.len() == 2 && "@t"@[1] == 't');
    assert("@mt"@.len() == 3);
    assert("@l"@.len() == 2 && "@l"@[1] == 'l');
    assert("Application"@.len() == 11);
}

/// The lines of two lists of texts, one after the other, are the lines of both in a row.
pub proof fn law_lines_in_order(first: Seq<Seq<char>>, second: Seq<Seq<char>>)
    ensures
        lines(first + second) == lines(first) + lines(second),
    decreases second.len(),
{
    if second.len() == 0 {
        assert(first + second =~= first);
        assert(lines(first) + lines(second) =~= lines(first));
    } else {
        law_lines_in_order(first, second.drop_last());
        assert((first + second).drop_last() =~= first + second.drop_last());
        assert((first + second).last() == second.last());
        assert(lines(first + second) =~= lines(first) + lines(second));
    }
}

/// A text is written whole, with the end of the line behind it.
pub proof fn law_line(text: Seq<char>)
    ensures
        lines(seq![text]).len() == text.len() + 1,
        lines(seq![text]).take(text.len() as int) == text,
        lines(seq![text])[text.len() as int] == '\n',
{
    reveal_strlit("\n");
    assert(seq![text].drop_last() =~= Seq::empty());
    assert(lines(seq![text].drop_last()) =~= Seq::empty());
    assert(seq![text].last() == text);
    assert(lines(seq![text]).take(text.len() as int) =~= text);
}

/// A body holds the event's texts and nothing else, each with a time of its own, in the order in
/// which they were logged.
pub proof fn law_body_lines(
    body: Seq<char>,
    events: Seq<SeqEvent>,
    times: Seq<Seq<char>>,
    application: Seq<char>,
    texts: Seq<Seq<char>>,
)
    requires
        is_body(body, events, times, application),
        texts.len() == events.len(),
        forall|i: int|
            0 <= i < events.len() ==> #[trigger] texts[i] == events[i]@.text(
                times[i],
                application,
            ),
    ensures
        body == lines(texts),
        times.len() == events.len(),
        forall|i: int| 0 <= i < times.len() ==> is_time(#[trigger] times[i]),
{
    assert(event_texts(events, times, application) =~= texts);
}

/// Events go to the raw events of the server, in compact form: whatever slashes its address ends
/// with.
pub proof fn law_events_path(url: Seq<char>)
    ensures
        ({
            let path = events_path(url);
            let base = path.len() - 20;
            &&& 0 <= base <= url.len()
            &&& path.subrange(base, path.len() as int) == "/api/events/raw?clef"@
            &&& path.take(base) == url.take(base)
            &&& base > 0 ==> url[base - 1] != '/'
            &&& forall|i: int| base <= i < url.len() ==> #[trigger] url[i] == '/'
        }),
{
    text::law_slashes_cut(url);
    reveal_strlit("/api/events/raw?clef");
    assert("/api/events/raw?clef"@.len() == 20);
    let path = events_path(url);
    let base = path.len() - 20;
    assert(path.subrange(base, path.len() as int) =~= "/api/events/raw?clef"@);
    assert(path.take(base) =~= url.take(base));
}

/// A request names its format, and hands over the key exactly if there is one.
pub proof fn law_headers(api_key: Option<Seq<char>>)
    ensures
        header_views(api_key)[0].0 == "Content-Type"@,
        header_views(api_key)[0].1 == "application/vnd.serilog.clef"@,
        api_key is None ==> header_views(api_key).len() == 1,
        api_key matches Some(key) ==> {
            &&& header_views(api_key).len() == 2
            &&& header_views(api_key)[1].0 == "X-Seq-ApiKey"@
            &&& header_views(api_key)[1].1 == key
        },
{
}

/// A batch goes out with its hundredth event, and otherwise each time a second has passed, if
/// anything waits. It holds all that waits, and leaves nothing; where none goes out everything
/// waits on.
pub proof fn law_batch_due(waiting: Seq<SeqEvent>, step: BatchStep)
    ensures
        match step {
            BatchStep::Logged(event) => if waiting.len() >= 99 {
                sent(waiting, step) == waiting.push(event) && left(waiting, step).len() == 0
            } else {
                sent(waiting, step).len() == 0 && left(waiting, step) == waiting.push(event)
            },
            BatchStep::Tick => sent(waiting, step) == waiting && left(waiting, step).len() == 0,
        },
        is_due(waiting, step) <==> sent(waiting, step).len() > 0,
        FLUSH_INTERVAL_MS == 1000,
{
    if step is Tick && waiting.len() == 0 {
        assert(sent(waiting, step) =~= waiting);
    }
}

/// An event says of each field what its view says.
pub proof fn law_event_view(event: SeqEvent)
    ensures
        event@.message_template == event.message_template@,
        event@.level == event.level@,
        event@.properties == members(event.properties),
{
}

} // verus!
