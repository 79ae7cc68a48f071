//! Streaming of contract events to gRPC clients.
//!
//! The service listens to the simulation bus. Of its events only completed
//! simulations are streamed, as contract events, and only those that match the
//! client's filters.

use crate::json::number_object;
use crate::json::record_array;
use crate::text::contains_text;
use crate::text::split_text;
use crate::ws::SimulationEvent;
use std::sync::Arc;
use vstd::prelude::*;

verus! {

/// The streaming service. It holds the bus that events come from.
pub struct EventStreamServiceImpl<B> {
    bus: Arc<B>,
}

impl<B> EventStreamServiceImpl<B> {
    /// The bus that events come from.
    pub closed spec fn source(&self) -> Arc<B> {
        self.bus
    }

    /// A service that is backed by the given bus.
    pub fn new(bus: Arc<B>) -> (r: EventStreamServiceImpl<B>)
        ensures
            r.source() == bus,
    {
        EventStreamServiceImpl { bus }
    }

    /// The bus that events come from.
    pub fn bus(&self) -> (r: Arc<B>)
        ensures
            r == self.source(),
    {
        self.bus.clone()
    }
}

/// A client's request for a stream of contract events.
#[derive(Debug, Clone, PartialEq)]
pub struct StreamContractEventsRequest {
    /// Text that the contract identifier must contain; empty for all contracts.
    pub contract_id: String,
    /// First ledger that the client is interested in.
    pub start_ledger: u32,
    /// Comma-separated event types; empty for all types.
    pub event_types_filter: String,
}

/// A contract event as it is sent to clients.
#[derive(Debug, Clone, PartialEq)]
pub struct ContractEvent {
    /// Ledger sequence number; not known yet, and zero.
    pub ledger_sequence: u32,
    /// Unix time of the event, in seconds.
    pub ledger_close_time: i64,
    /// Contract identifier.
    pub contract_id: String,
    /// Type of the event.
    pub event_type: String,
    /// Topics, as a JSON array.
    pub topics_json: String,
    /// Value, as a JSON object.
    pub value_json: String,
    /// Transaction hash; not known yet, and empty.
    pub tx_hash: String,
}

/// What a contract event says.
pub struct ContractEventData {
    /// Ledger sequence number.
    pub ledger_sequence: u32,
    /// Unix time of the event, in seconds.
    pub ledger_close_time: i64,
    /// Contract identifier.
    pub contract_id: Seq<char>,
    /// Type of the event.
    pub event_type: Seq<char>,
    /// Topics, as a JSON array.
    pub topics_json: Seq<char>,
    /// Value, as a JSON object.
    pub value_json: Seq<char>,
    /// Transaction hash.
    pub tx_hash: Seq<char>,
}

impl View for ContractEvent {
    type V = ContractEventData;

    open spec fn view(&self) -> ContractEventData {
        ContractEventData {
            ledger_sequence: self.ledger_sequence,
            ledger_close_time: self.ledger_close_time,
            contract_id: self.contract_id@,
            event_type: self.event_type@,
            topics_json: self.topics_json@,
            value_json: self.value_json@,
            tx_hash: self.tx_hash@,
        }
    }
}

/// The texts of some strings.
pub open spec fn texts(v: Seq<String>) -> Seq<Seq<char>> {
    v.map_values(|s: String| s@)
}

/// A contract filter lets an identifier pass that contains it.
pub open spec fn contract_matches(filter: Seq<char>, contract_id: Seq<char>) -> bool {
    filter.len() == 0 || crate::text::has_infix(contract_id, filter)
}

/// A list of event types lets a type pass that contains one of them; an empty
/// list lets every type pass.
pub open spec fn type_matches(filters: Seq<Seq<char>>, event_type: Seq<char>) -> bool {
    filters.len() == 0 || exists|i: int|
        0 <= i < filters.len() && crate::text::has_infix(event_type, #[trigger] filters[i])
}

/// The members of the value of a completed simulation, sorted by key.
pub open spec fn completed_members(data: crate::ws::CompletedPayload) -> Seq<
    (Seq<char>, Seq<char>),
> {
    seq![
        ("cost_stroops"@, crate::text::decimal(data.cost_stroops as nat)),
        ("cpu_instructions"@, crate::text::decimal(data.cpu_instructions as nat)),
        ("ledger_read_bytes"@, crate::text::decimal(data.ledger_read_bytes as nat)),
        ("ledger_write_bytes"@, crate::text::decimal(data.ledger_write_bytes as nat)),
        ("ram_bytes"@, crate::text::decimal(data.ram_bytes as nat)),
        ("transaction_size_bytes"@, crate::text::decimal(data.transaction_size_bytes as nat)),
    ]
}

/// A topic that is a symbol.
pub open spec fn symbol_members(value: Seq<char>) -> Seq<(Seq<char>, Seq<char>)> {
    seq![
        ("type"@, crate::json::quoted("symbol"@)),
        ("value"@, crate::json::quoted(value)),
    ]
}

/// The topics of a completed simulation: two symbols.
pub open spec fn completed_topics() -> Seq<char> {
    seq!['['] + crate::json::object_text(symbol_members("simulation"@)) + seq![',']
        + crate::json::object_text(symbol_members("simulation_completed"@)) + seq![']']
}

/// The contract event that a bus event is streamed as, if it is streamed: it
/// must be a completed simulation whose job matches the contract filter, and
/// the type of completed simulations must match the type filters.
pub open spec fn translation(
    event: SimulationEvent,
    contract_filter: Seq<char>,
    type_filters: Seq<Seq<char>>,
) -> Option<ContractEventData> {
    match event {
        SimulationEvent::Completed { job_id, data, timestamp } => if contract_matches(
            contract_filter,
            job_id@,
        ) && type_matches(type_filters, "simulation_completed"@) {
            Some(
                ContractEventData {
                    ledger_sequence: 0,
                    ledger_close_time: timestamp.unix_seconds,
                    contract_id: job_id@,
                    event_type: "simulation_completed"@,
                    topics_json: completed_topics(),
                    value_json: crate::json::object_text(completed_members(data)),
                    tx_hash: Seq::empty(),
                },
            )
        } else {
            None
        },
        _ => None,
    }
}

/// What an optional contract event says.
pub open spec fn event_data(e: Option<ContractEvent>) -> Option<ContractEventData> {
    match e {
        Some(e) => Some(e@),
        None => None,
    }
}

/// Whether one of the type filters occurs in `event_type`, or there is none.
fn matches_type(filters: &[String], event_type: &str) -> (r: bool)
    ensures
        r == type_matches(texts(filters@), event_type@),
{
    if filters.len() == 0 {
        return true;
    }
    for i in 0..filters.len()
        invariant
            forall|j: int|
                0 <= j < i ==> !crate::text::has_infix(event_type@, #[trigger] texts(filters@)[j]),
    {
        assert(texts(filters@)[i as int] == filters@[i as int]@);
        if contains_text(event_type, filters[i].as_str()) {
            return true;
        }
    }
    false
}

/// The value of a completed simulation, in JSON.
fn value_json(data: &crate::ws::CompletedPayload) -> (r: String)
    ensures
        r@ == crate::json::object_text(completed_members(*data)),
{
    let members: Vec<(&str, u64)> = vec![
        ("cost_stroops", data.cost_stroops),
        ("cpu_instructions", data.cpu_instructions),
        ("ledger_read_bytes", data.ledger_read_bytes),
        ("ledger_write_bytes", data.ledger_write_bytes),
        ("ram_bytes", data.ram_bytes),
        ("transaction_size_bytes", data.transaction_size_bytes),
    ];
    proof {
        assert(crate::json::number_members(members@) == completed_members(*data));
        lemma_value_keys(*data);
    }
    number_object(&members)
}

/// The keys of the value of a completed simulation are plain and sorted.
proof fn lemma_value_keys(data: crate::ws::CompletedPayload)
    ensures
        crate::json::has_plain_sorted_keys(completed_members(data)),
{
    reveal_strlit("cost_stroops");
    reveal_strlit("cpu_instructions");
    reveal_strlit("ledger_read_bytes");
    reveal_strlit("ledger_write_bytes");
    reveal_strlit("ram_bytes");
    reveal_strlit("transaction_size_bytes");
    let c1 = "cost_stroops"@;
    let c2 = "cpu_instructions"@;
    let c3 = "ledger_read_bytes"@;
    let c4 = "ledger_write_bytes"@;
    let c5 = "ram_bytes"@;
    let c6 = "transaction_size_bytes"@;
    assert(c1.take(1) == c2.take(1));
    assert(crate::json::differ_first_at(c1, c2, 1));
    assert(c3.take(7) == c4.take(7));
    assert(crate::json::differ_first_at(c3, c4, 7));
    assert(forall|a: Seq<char>, b: Seq<char>| #![auto] a.take(0) == b.take(0));
    assert(crate::json::differ_first_at(c1, c3, 0));
    assert(crate::json::differ_first_at(c1, c4, 0));
    assert(crate::json::differ_first_at(c1, c5, 0));
    assert(crate::json::differ_first_at(c1, c6, 0));
    assert(crate::json::differ_first_at(c2, c3, 0));
    assert(crate::json::differ_first_at(c2, c4, 0));
    assert(crate::json::differ_first_at(c2, c5, 0));
    assert(crate::json::differ_first_at(c2, c6, 0));
    assert(crate::json::differ_first_at(c3, c5, 0));
    assert(crate::json::differ_first_at(c3, c6, 0));
    assert(crate::json::differ_first_at(c4, c5, 0));
    assert(crate::json::differ_first_at(c4, c6, 0));
    assert(crate::json::differ_first_at(c5, c6, 0));
}

/// The topics of a completed simulation, in JSON.
fn topics_json() -> (r: String)
    ensures
        r@ == completed_topics(),
{
    let first: Vec<(&str, &str)> = vec![("type", "symbol"), ("value", "simulation")];
    let second: Vec<(&str, &str)> = vec![("type", "symbol"), ("value", "simulation_completed")];
    let ghost one = first@;
    let ghost two = second@;
    let records: Vec<Vec<(&str, &str)>> = vec![first, second];
    proof {
        reveal_strlit("type");
        reveal_strlit("value");
        reveal_strlit("symbol");
        reveal_strlit("simulation");
        reveal_strlit("simulation_completed");
        assert("type"@.take(0) == "value"@.take(0));
        assert(crate::json::differ_first_at("type"@, "value"@, 0));
        assert(crate::json::text_members(one) == symbol_members("simulation"@));
        assert(crate::json::text_members(two) == symbol_members("simulation_completed"@));
        assert(crate::json::is_plain_record(one));
        assert(crate::json::is_plain_record(two));
        assert(records@.drop_last().len() == 1);
        assert(records@.drop_last().last()@ == one);
        reveal_with_fuel(crate::json::records_text, 3);
    }
    record_array(&records)
}

/// Converts a bus event to the contract event that is streamed for it, or
/// `None` when it is not a completed simulation or does not match the filters.
pub fn translate_event(
    event: SimulationEvent,
    contract_id_filter: &str,
    event_types_filter: &[String],
) -> (r: Option<ContractEvent>)
    ensures
        event_data(r) == translation(event, contract_id_filter@, texts(event_types_filter@)),
{
    let (job_id, data, timestamp) = match event {
        SimulationEvent::Completed { job_id, data, timestamp } => (job_id, data, timestamp),
        _ => {
            return None;
        },
    };
    if !contract_id_filter.is_empty() && !contains_text(job_id.as_str(), contract_id_filter) {
        return None;
    }
    if !matches_type(event_types_filter, "simulation_completed") {
        return None;
    }
    Some(
        ContractEvent {
            ledger_sequence: 0,
            ledger_close_time: timestamp.unix_seconds,
            contract_id: job_id,
            event_type: "simulation_completed".to_owned(),
            topics_json: topics_json(),
            value_json: value_json(&data),
            tx_hash: String::new(),
        },
    )
}

/// The pieces of an event type filter that count: without surrounding white
/// space, in lower case, and not empty.
pub open spec fn wanted_types(pieces: Seq<Seq<char>>) -> Seq<Seq<char>>
    decreases pieces.len(),
{
    if pieces.len() == 0 {
        Seq::empty()
    } else {
        let wanted = crate::text::lowercase(crate::text::trimmed(pieces.last()));
        if wanted.len() == 0 {
            wanted_types(pieces.drop_last())
        } else {
            wanted_types(pieces.drop_last()).push(wanted)
        }
    }
}

/// The event types that a comma-separated filter names.
pub open spec fn named_types(filter: Seq<char>) -> Seq<Seq<char>> {
    wanted_types(crate::text::split_on(filter, ','))
}

/// Reads a comma-separated list of event types.
pub fn parse_event_types(filter: &str) -> (r: Vec<String>)
    ensures
        texts(r@) == named_types(filter@),
{
    let pieces = split_text(filter, ',');
    let mut types: Vec<String> = Vec::new();
    for i in 0..pieces.len()
        invariant
            texts(types@) == wanted_types(texts(pieces@).take(i as int)),
    {
        let wanted = pieces[i].as_str().trim().to_lowercase();
        proof {
            let upto = texts(pieces@).take(i + 1);
            assert(upto.drop_last() == texts(pieces@).take(i as int));
            assert(upto.last() == pieces@[i as int]@);
            assert(wanted@ == crate::text::lowercase(crate::text::trimmed(upto.last())));
        }
        let ghost before = types@;
        if !wanted.as_str().is_empty() {
            types.push(wanted);
            assert(texts(types@) == texts(before).push(wanted@));
        }
    }
    assert(texts(pieces@).take(pieces@.len() as int) == texts(pieces@));
    types
}

/// What comes from the bus.
pub enum BusItem {
    /// An event.
    Event(SimulationEvent),
    /// The stream was too slow, and that many events were lost.
    Lagged(u64),
}

/// What a client wants to see.
pub struct StreamFilter {
    /// Text that the contract identifier must contain.
    pub contract_id: String,
    /// Event types of which one must occur.
    pub event_types: Vec<String>,
}

impl StreamFilter {
    /// The filter of a client's request.
    pub fn from_request(request: &StreamContractEventsRequest) -> (r: StreamFilter)
        ensures
            r.contract_id@ == request.contract_id@,
            texts(r.event_types@) == named_types(request.event_types_filter@),
    {
        StreamFilter {
            contract_id: request.contract_id.clone(),
            event_types: parse_event_types(request.event_types_filter.as_str()),
        }
    }

    /// What is sent to the client for an item from the bus. A lag is passed
    /// over: a slow client misses events, and its stream goes on.
    pub fn select(&self, item: BusItem) -> (r: Option<ContractEvent>)
        ensures
            event_data(r) == (match item {
                BusItem::Event(event) => translation(
                    event,
                    self.contract_id@,
                    texts(self.event_types@),
                ),
                BusItem::Lagged(_) => None,
            }),
    {
        match item {
            BusItem::Lagged(_) => None,
            BusItem::Event(event) => translate_event(
                event,
                self.contract_id.as_str(),
                self.event_types.as_slice(),
            ),
        }
    }
}

/// Only completed simulations are streamed, under the identifier of their job
/// and with the time at which they completed.
pub proof fn only_completed_simulations_are_streamed(
    event: SimulationEvent,
    contract_filter: Seq<char>,
    type_filters: Seq<Seq<char>>,
)
    ensures
        translation(event, contract_filter, type_filters) matches Some(sent) ==> {
            &&& event matches SimulationEvent::Completed { job_id, timestamp, .. }
            &&& sent.contract_id == job_id@
            &&& sent.ledger_close_time == timestamp.unix_seconds
        },
{
}

/// Without filters every completed simulation is streamed.
pub proof fn no_filter_streams_every_completion(event: SimulationEvent)
    requires
        event is Completed,
    ensures
        translation(event, Seq::empty(), Seq::empty()) is Some,
{
}

/// A type filter of nothing but commas and white space names no type, so that it
/// lets every type pass.
pub proof fn blank_type_filter_names_nothing(filter: Seq<char>)
    requires
        forall|i: int|
            0 <= i < crate::text::split_on(filter, ',').len() ==> crate::text::trimmed(
                #[trigger] crate::text::split_on(filter, ',')[i],
            ).len() == 0,
    ensures
        named_types(filter) == Seq::<Seq<char>>::empty(),
{
    lemma_blank_pieces(crate::text::split_on(filter, ','));
}

/// Blank pieces do not count.
proof fn lemma_blank_pieces(pieces: Seq<Seq<char>>)
    requires
        forall|i: int|
            0 <= i < pieces.len() ==> crate::text::trimmed(#[trigger] pieces[i]).len() == 0,
    ensures
        wanted_types(pieces) == Seq::<Seq<char>>::empty(),
    decreases pieces.len(),
{
    if pieces.len() > 0 {
        let blank = crate::text::trimmed(pieces[pieces.len() - 1]);
        assert(vstd::utf8::is_ascii_chars(blank));
        assert(crate::text::lowercase(blank).len() == 0);
        lemma_blank_pieces(pieces.drop_last());
    }
}

/// What is streamed under a contract filter and some type filters is streamed,
/// the same, without the contract filter, and with more type filters.
pub proof fn filters_only_narrow(
    event: SimulationEvent,
    contract_filter: Seq<char>,
    type_filters: Seq<Seq<char>>,
    more: Seq<Seq<char>>,
)
    requires
        translation(event, contract_filter, type_filters) is Some,
    ensures
        translation(event, Seq::empty(), type_filters) == translation(
            event,
            contract_filter,
            type_filters,
        ),
        translation(event, contract_filter, Seq::empty()) == translation(
            event,
            contract_filter,
            type_filters,
        ),
        type_filters.len() > 0 ==> translation(event, contract_filter, type_filters + more)
            == translation(event, contract_filter, type_filters),
{
    if type_filters.len() > 0 {
        let i = choose|i: int|
            0 <= i < type_filters.len() && crate::text::has_infix(
                "simulation_completed"@,
                #[trigger] type_filters[i],
            );
        assert((type_filters + more)[i] == type_filters[i]);
    }
}

/// What is streamed under a contract filter carries an identifier in which the
/// filter stands, and under type filters a type in which one of them stands. It is
/// a completed simulation, sent under the identifier of its job, with the second
/// of its completion and with each of its costs in decimal digits.
pub proof fn streamed_events_match_their_filters(
    event: SimulationEvent,
    contract_filter: &str,
    type_filters: &[String],
    r: Option<ContractEvent>,
)
    requires
        call_ensures(translate_event, (event, contract_filter, type_filters), r),
    ensures
        r matches Some(sent) ==> {
            &&& sent.contract_id@.len() >= contract_filter@.len()
            &&& exists|i: int|
                0 <= i <= sent.contract_id@.len() - contract_filter@.len()
                    && #[trigger] sent.contract_id@.subrange(i, i + contract_filter@.len())
                    == contract_filter@
            &&& type_filters@.len() > 0 ==> exists|j: int, i: int|
                0 <= j < type_filters@.len() && 0 <= i <= sent.event_type@.len()
                    - type_filters@[j]@.len() && #[trigger] sent.event_type@.subrange(
                    i,
                    i + type_filters@[j]@.len(),
                ) == type_filters@[j]@
        },
        r matches Some(sent) ==> {
            &&& event matches SimulationEvent::Completed { job_id, data, timestamp }
            &&& sent.contract_id@ == job_id@
            &&& sent.event_type@ == "simulation_completed"@
            &&& sent.ledger_close_time == timestamp.unix_seconds
            &&& sent.ledger_sequence == 0 && sent.tx_hash@.len() == 0
            &&& sent.value_json@ == "{\"cost_stroops\":"@ + crate::text::decimal(
                data.cost_stroops as nat,
            ) + ",\"cpu_instructions\":"@ + crate::text::decimal(data.cpu_instructions as nat)
                + ",\"ledger_read_bytes\":"@ + crate::text::decimal(data.ledger_read_bytes as nat)
                + ",\"ledger_write_bytes\":"@ + crate::text::decimal(
                data.ledger_write_bytes as nat,
            ) + ",\"ram_bytes\":"@ + crate::text::decimal(data.ram_bytes as nat)
                + ",\"transaction_size_bytes\":"@ + crate::text::decimal(
                data.transaction_size_bytes as nat,
            ) + "}"@
            &&& sent.topics_json@
                == "[{\"type\":\"symbol\",\"value\":\"simulation\"},{\"type\":\"symbol\",\"value\":\"simulation_completed\"}]"@
        },
{
    if let Some(sent) = r {
        let id = sent.contract_id@;
        assert(sent@ == event_data(r)->0);
        if contract_filter@.len() == 0 {
            assert(id.subrange(0, 0int + contract_filter@.len()) == contract_filter@);
        }
        if type_filters@.len() > 0 {
            let wanted = texts(type_filters@);
            let j = choose|j: int|
                0 <= j < wanted.len() && crate::text::has_infix(
                    "simulation_completed"@,
                    #[trigger] wanted[j],
                );
            assert(wanted[j] == type_filters@[j]@);
            let kind = sent.event_type@;
            let n = type_filters@[j]@.len();
            let i = choose|i: int|
                0 <= i <= kind.len() - n && #[trigger] kind.subrange(i, i + n) == wanted[j];
            assert(kind.subrange(i, i + type_filters@[j]@.len()) == type_filters@[j]@);
        }
        if let SimulationEvent::Completed { job_id, data, timestamp } = event {
            lemma_value_text(data);
            lemma_topics_text();
        }
    }
}

/// A completed simulation in whose identifier the contract filter stands, and in
/// whose type one of the type filters stands if there are any, is streamed.
pub proof fn matching_completions_are_streamed(
    event: SimulationEvent,
    contract_filter: &str,
    type_filters: &[String],
    r: Option<ContractEvent>,
    at: int,
    j: int,
    type_at: int,
)
    requires
        call_ensures(translate_event, (event, contract_filter, type_filters), r),
        event matches SimulationEvent::Completed { job_id, .. } && 0 <= at <= job_id@.len()
            - contract_filter@.len() && job_id@.subrange(at, at + contract_filter@.len())
            == contract_filter@,
        type_filters@.len() > 0 ==> 0 <= j < type_filters@.len() && 0 <= type_at
            <= "simulation_completed"@.len() - type_filters@[j]@.len()
            && "simulation_completed"@.subrange(type_at, type_at + type_filters@[j]@.len())
            == type_filters@[j]@,
    ensures
        r is Some,
{
    if type_filters@.len() > 0 {
        assert(texts(type_filters@)[j] == type_filters@[j]@);
        assert(crate::text::has_infix("simulation_completed"@, texts(type_filters@)[j]));
    }
}

/// The text of the value of a completed simulation.
proof fn lemma_value_text(data: crate::ws::CompletedPayload)
    ensures
        crate::json::object_text(completed_members(data)) == "{\"cost_stroops\":"@
            + crate::text::decimal(data.cost_stroops as nat) + ",\"cpu_instructions\":"@
            + crate::text::decimal(data.cpu_instructions as nat) + ",\"ledger_read_bytes\":"@
            + crate::text::decimal(data.ledger_read_bytes as nat) + ",\"ledger_write_bytes\":"@
            + crate::text::decimal(data.ledger_write_bytes as nat) + ",\"ram_bytes\":"@
            + crate::text::decimal(data.ram_bytes as nat) + ",\"transaction_size_bytes\":"@
            + crate::text::decimal(data.transaction_size_bytes as nat) + "}"@,
{
    reveal_strlit("cost_stroops");
    reveal_strlit("cpu_instructions");
    reveal_strlit("ledger_read_bytes");
    reveal_strlit("ledger_write_bytes");
    reveal_strlit("ram_bytes");
    reveal_strlit("transaction_size_bytes");
    reveal_strlit("{\"cost_stroops\":");
    reveal_strlit(",\"cpu_instructions\":");
    reveal_strlit(",\"ledger_read_bytes\":");
    reveal_strlit(",\"ledger_write_bytes\":");
    reveal_strlit(",\"ram_bytes\":");
    reveal_strlit(",\"transaction_size_bytes\":");
    reveal_strlit("}");
    let m = completed_members(data);
    let t1 = seq!['{'] + crate::json::members_text(m.take(1));
    let t2 = seq!['{'] + crate::json::members_text(m.take(2));
    let t3 = seq!['{'] + crate::json::members_text(m.take(3));
    let t4 = seq!['{'] + crate::json::members_text(m.take(4));
    let t5 = seq!['{'] + crate::json::members_text(m.take(5));
    assert(m.take(2).drop_last() == m.take(1));
    assert(m.take(3).drop_last() == m.take(2));
    assert(m.take(4).drop_last() == m.take(3));
    assert(m.take(5).drop_last() == m.take(4));
    assert(m.drop_last() == m.take(5));
    assert(t1 == "{\"cost_stroops\":"@ + m[0].1);
    assert(t2 == t1 + ",\"cpu_instructions\":"@ + m[1].1);
    assert(t3 == t2 + ",\"ledger_read_bytes\":"@ + m[2].1);
    assert(t4 == t3 + ",\"ledger_write_bytes\":"@ + m[3].1);
    assert(t5 == t4 + ",\"ram_bytes\":"@ + m[4].1);
    assert(crate::json::object_text(m) == t5 + ",\"transaction_size_bytes\":"@ + m[5].1 + "}"@);
}

/// The text of the topics of a completed simulation.
proof fn lemma_topics_text()
    ensures
        completed_topics()
            == "[{\"type\":\"symbol\",\"value\":\"simulation\"},{\"type\":\"symbol\",\"value\":\"simulation_completed\"}]"@,
{
    reveal_strlit("type");
    reveal_strlit("value");
    reveal_strlit("symbol");
    reveal_strlit("simulation");
    reveal_strlit("simulation_completed");
    reveal_strlit(
        "[{\"type\":\"symbol\",\"value\":\"simulation\"},{\"type\":\"symbol\",\"value\":\"simulation_completed\"}]",
    );
    reveal_with_fuel(crate::json::members_text, 3);
    let one = crate::json::object_text(symbol_members("simulation"@));
    let two = crate::json::object_text(symbol_members("simulation_completed"@));
    assert(symbol_members("simulation"@).drop_last().len() == 1);
    assert(symbol_members("simulation_completed"@).drop_last().len() == 1);
    assert(one.len() == 38);
    assert(two.len() == 48);
}

/// Reading two lists of event types that are joined by a comma gives the types of
/// the first and then those of the second.
pub proof fn type_lists_join(
    a: &str,
    b: &str,
    both: &str,
    from_a: Vec<String>,
    from_b: Vec<String>,
    from_both: Vec<String>,
)
    requires
        call_ensures(parse_event_types, (a,), from_a),
        call_ensures(parse_event_types, (b,), from_b),
        call_ensures(parse_event_types, (both,), from_both),
        both@ == a@.push(',') + b@,
    ensures
        from_both@.len() == from_a@.len() + from_b@.len(),
        forall|i: int| 0 <= i < from_a@.len() ==> (#[trigger] from_both@[i])@ == from_a@[i]@,
        forall|i: int|
            0 <= i < from_b@.len() ==> from_both@[from_a@.len() + i]@ == (#[trigger] from_b@[i])@,
{
    crate::text::lemma_split_joins(a@, b@, ',');
    lemma_wanted_joins(crate::text::split_on(a@, ','), crate::text::split_on(b@, ','));
    let (x, y, xy) = (texts(from_a@), texts(from_b@), texts(from_both@));
    assert(xy == x + y);
    assert forall|i: int| 0 <= i < from_a@.len() implies (#[trigger] from_both@[i])@
        == from_a@[i]@ by {
        assert(xy[i] == x[i]);
    }
    assert forall|i: int| 0 <= i < from_b@.len() implies from_both@[from_a@.len() + i]@ == (
    #[trigger] from_b@[i])@ by {
        assert(xy[x.len() + i] == y[i]);
    }
}

/// A text without a comma names one event type, in lower case and without white
/// space around it, or none if nothing is left.
pub proof fn single_type_is_read(filter: &str, r: Vec<String>)
    requires
        call_ensures(parse_event_types, (filter,), r),
        !filter@.contains(','),
    ensures
        ({
            let name = crate::text::lowercase(crate::text::trimmed(filter@));
            &&& name.len() == 0 ==> r@.len() == 0
            &&& name.len() > 0 ==> r@.len() == 1 && r@[0]@ == name
        }),
{
    crate::text::lemma_single_piece(filter@, ',');
    let pieces = crate::text::split_on(filter@, ',');
    assert(pieces.drop_last() == Seq::<Seq<char>>::empty());
    assert(wanted_types(pieces.drop_last()) == Seq::<Seq<char>>::empty());
    if r@.len() > 0 {
        assert(texts(r@)[0] == r@[0]@);
    }
    assert(texts(r@).len() == r@.len());
}

/// The wanted types of two lists of pieces, one behind the other.
proof fn lemma_wanted_joins(a: Seq<Seq<char>>, b: Seq<Seq<char>>)
    ensures
        wanted_types(a + b) == wanted_types(a) + wanted_types(b),
    decreases b.len(),
{
    if b.len() == 0 {
        assert(a + b == a);
    } else {
        assert((a + b).drop_last() == a + b.drop_last());
        lemma_wanted_joins(a, b.drop_last());
    }
}

/// A client is sent for an event what the event is under the client's own filters,
/// and nothing for a lag.
pub proof fn selection_follows_the_request(
    request: &StreamContractEventsRequest,
    filter: StreamFilter,
    names: &str,
    types: Vec<String>,
    item: BusItem,
    sent: Option<ContractEvent>,
    event: SimulationEvent,
    contract_filter: &str,
    type_filters: &[String],
    translated: Option<ContractEvent>,
)
    requires
        contract_filter@ == request.contract_id@,
        type_filters@ == filter.event_types@,
        call_ensures(translate_event, (event, contract_filter, type_filters), translated),
        call_ensures(StreamFilter::from_request, (request,), filter),
        call_ensures(parse_event_types, (names,), types),
        names@ == request.event_types_filter@,
        call_ensures(StreamFilter::select, (&filter, item), sent),
    ensures
        item is Lagged ==> sent is None,
        filter.contract_id@ == request.contract_id@,
        item == BusItem::Event(event) ==> (sent is Some <==> translated is Some),
        item == BusItem::Event(event) && sent is Some ==> {
            let (a, b) = (sent->0, translated->0);
            &&& a.ledger_sequence == b.ledger_sequence && a.ledger_close_time
                == b.ledger_close_time
            &&& a.contract_id@ == b.contract_id@ && a.event_type@ == b.event_type@
            &&& a.topics_json@ == b.topics_json@ && a.value_json@ == b.value_json@
            &&& a.tx_hash@ == b.tx_hash@
        },
        sent matches Some(event) ==> exists|i: int|
            0 <= i <= event.contract_id@.len() - request.contract_id@.len()
                && #[trigger] event.contract_id@.subrange(i, i + request.contract_id@.len())
                == request.contract_id@,
        filter.event_types@.len() == types@.len(),
        forall|i: int|
            0 <= i < types@.len() ==> (#[trigger] filter.event_types@[i])@ == types@[i]@,
        item matches BusItem::Event(SimulationEvent::Completed { job_id, .. }) ==> (
        request.contract_id@.len() == 0 && types@.len() == 0 ==> (sent matches Some(event)
            && event.contract_id@ == job_id@)),
{
    if item == BusItem::Event(event) {
        assert(event_data(sent) == event_data(translated));
        if sent is Some {
            assert(sent->0@ == translated->0@);
        }
    }
    if let Some(event) = sent {
        let id = event.contract_id@;
        assert(event@ == event_data(sent)->0);
        if request.contract_id@.len() == 0 {
            assert(id.subrange(0, 0int + request.contract_id@.len()) == request.contract_id@);
        }
    }
    assert(texts(filter.event_types@) == texts(types@));
    assert(texts(types@).len() == types@.len());
    assert forall|i: int| 0 <= i < types@.len() implies (#[trigger] filter.event_types@[i])@
        == types@[i]@ by {
        assert(texts(filter.event_types@)[i] == texts(types@)[i]);
    }
}

/// Server-side TLS configuration: the paths of the files to load.
#[derive(Debug, Clone)]
pub struct TlsConfig {
    /// PEM certificate chain, the leaf first and then the intermediates.
    pub cert_chain: String,
    /// PEM private key matching the leaf certificate.
    pub private_key: String,
    /// Optional custom root CA used to validate client certificates.
    pub ca_cert: Option<String>,
}

/// Why a TLS configuration is not usable.
#[derive(Debug, Clone, Copy, PartialEq, Eq, Structural)]
pub enum TlsConfigError {
    /// A certificate chain is configured without its private key.
    MissingKey,
}

impl TlsConfigError {
    /// The error in words.
    pub fn to_string(&self) -> (r: String)
        ensures
            r@ == "GRPC_TLS_CERT is set but GRPC_TLS_KEY is missing"@,
    {
        "GRPC_TLS_CERT is set but GRPC_TLS_KEY is missing".to_owned()
    }
}

impl TlsConfig {
    /// The configuration from the values of `GRPC_TLS_CERT`, `GRPC_TLS_KEY` and
    /// `GRPC_TLS_CA_CERT`, where they are set. Without a certificate chain TLS
    /// is not configured; with one the key is needed.
    pub fn from_env(
        cert_chain: Option<String>,
        private_key: Option<String>,
        ca_cert: Option<String>,
    ) -> (r: Result<Option<TlsConfig>, TlsConfigError>)
        ensures
            match (cert_chain, private_key) {
                (None, _) => r == Ok::<Option<TlsConfig>, TlsConfigError>(None),
                (Some(_), None) => r == Err::<Option<TlsConfig>, _>(TlsConfigError::MissingKey),
                (Some(cert_chain), Some(private_key)) => r == Ok::<_, TlsConfigError>(
                    Some(TlsConfig { cert_chain, private_key, ca_cert }),
                ),
            },
    {
        match cert_chain {
            None => Ok(None),
            Some(cert_chain) => match private_key {
                None => Err(TlsConfigError::MissingKey),
                Some(private_key) => Ok(Some(TlsConfig { cert_chain, private_key, ca_cert })),
            },
        }
    }

    /// The path of the root CA to load, if one is configured; an empty path
    /// counts as none.
    pub fn client_ca_path(&self) -> (r: Option<&str>)
        ensures
            match self.ca_cert {
                Some(path) if path@.len() > 0 => r matches Some(p) && p@ == path@,
                _ => r is None,
            },
    {
        match &self.ca_cert {
            Some(path) => {
                if path.as_str().is_empty() {
                    None
                } else {
                    Some(path.as_str())
                }
            },
            None => None,
        }
    }
}

/// How the endpoint is served.
pub enum ServingPlan {
    /// Over TLS with this configuration.
    Tls(TlsConfig),
    /// Without TLS.
    Plaintext,
}

/// Decides how the endpoint is served, given what reading the configuration came
/// to: over TLS when both the certificate chain and its key are there, else
/// without.
pub fn serving_plan(configured: Result<Option<TlsConfig>, TlsConfigError>) -> (r: ServingPlan)
    ensures
        r == (match configured {
            Ok(Some(tls)) => ServingPlan::Tls(tls),
            _ => ServingPlan::Plaintext,
        }),
{
    match configured {
        Ok(Some(tls)) => ServingPlan::Tls(tls),
        _ => ServingPlan::Plaintext,
    }
}

impl Default for TlsConfig {
    fn default() -> (r: TlsConfig)
        ensures
            r.cert_chain@.len() == 0,
            r.private_key@.len() == 0,
            r.ca_cert is None,
    {
        TlsConfig { cert_chain: String::new(), private_key: String::new(), ca_cert: None }
    }
}

/// TLS is configured exactly if there is a certificate chain, and then needs its
/// key; the values are taken as they are. It is served over TLS exactly if both are
/// there.
pub proof fn tls_needs_chain_and_key(
    cert_chain: Option<String>,
    private_key: Option<String>,
    ca_cert: Option<String>,
    configured: Result<Option<TlsConfig>, TlsConfigError>,
    plan: ServingPlan,
)
    requires
        call_ensures(TlsConfig::from_env, (cert_chain, private_key, ca_cert), configured),
        call_ensures(serving_plan, (configured,), plan),
    ensures
        cert_chain is None ==> configured == Ok::<Option<TlsConfig>, TlsConfigError>(None),
        cert_chain is Some && private_key is None ==> configured is Err,
        cert_chain is Some && private_key is Some ==> (plan matches ServingPlan::Tls(tls)
            && Some(tls.cert_chain) == cert_chain && Some(tls.private_key) == private_key
            && tls.ca_cert == ca_cert),
        cert_chain is None || private_key is None ==> plan is Plaintext,
{
}

/// The root CA to load is the configured one, unless its path is empty.
pub proof fn empty_ca_path_counts_as_none(config: &TlsConfig, r: Option<&str>)
    requires
        call_ensures(TlsConfig::client_ca_path, (config,), r),
    ensures
        r is Some <==> (config.ca_cert matches Some(path) && path@.len() > 0),
        r matches Some(p) ==> p@ == config.ca_cert->0@,
{
}

/// A service hands out the bus that it was made with.
pub proof fn services_keep_their_bus<B>(
    bus: Arc<B>,
    service: EventStreamServiceImpl<B>,
    handed: Arc<B>,
)
    requires
        call_ensures(EventStreamServiceImpl::<B>::new, (bus,), service),
        call_ensures(EventStreamServiceImpl::<B>::bus, (&service,), handed),
    ensures
        handed == bus,
{
}

/// Two contract events that say the same are the same in every field.
pub proof fn contract_events_say_everything(a: ContractEvent, b: ContractEvent)
    requires
        a@ == b@,
    ensures
        a.ledger_sequence == b.ledger_sequence,
        a.ledger_close_time == b.ledger_close_time,
        a.contract_id@ == b.contract_id@,
        a.event_type@ == b.event_type@,
        a.topics_json@ == b.topics_json@,
        a.value_json@ == b.value_json@,
        a.tx_hash@ == b.tx_hash@,
{
}

} // verus!
