//! The connection log: per peer, the append-only list of what happened on
//! that peer's connections, with peers kept in first-seen order.

use vstd::prelude::*;
use crate::format::ResponseFormat;
use crate::http::encode_response;
use crate::http::http_frame;
use crate::message::status_code;
use crate::message::ConnectionFailedError;
use crate::message::Message;
use crate::keyed::distinct_keys;
use crate::keyed::has_key;
use crate::keyed::key_index;
use crate::keyed::lemma_key_index_unique;
use crate::message::Method;
use crate::message::PeerModel;
use crate::message::Peer;
use crate::message::Status;
use crate::ordmap::index_entries;
use crate::ordmap::map_get;
use crate::ordmap::map_insert;
use crate::ordmap::map_new;
use crate::text::joined_lines;
use crate::text::join_lines;

verus! {

/// One logged entry: which peer it is about, what happened, and when.
#[derive(Debug)]
pub struct TuiResponse {
    pub addr: Peer,
    pub content: Option<String>,
    pub time: String,
    pub status: Option<Status>,
    pub method: Option<Method>,
    pub format: Option<ResponseFormat>,
}

/// Mathematical model of a [`TuiResponse`].
pub ghost struct EntryModel {
    pub addr: PeerModel,
    pub content: Option<Seq<char>>,
    pub time: Seq<char>,
    pub status: Option<Status>,
    pub method: Option<Method>,
    pub format: Option<ResponseFormat>,
}

impl View for TuiResponse {
    type V = EntryModel;

    open spec fn view(&self) -> EntryModel {
        EntryModel {
            addr: self.addr@,
            content: match self.content {
                Some(ref c) => Some(c@),
                None => None,
            },
            time: self.time@,
            status: self.status,
            method: self.method,
            format: self.format,
        }
    }
}

impl TuiResponse {
    /// A copy whose model equals this entry's.
    pub fn duplicate(&self) -> (r: TuiResponse)
        ensures
            r@ == self@,
    {
        TuiResponse {
            addr: self.addr.duplicate(),
            content: match &self.content {
                Some(c) => Some(c.clone()),
                None => None,
            },
            time: self.time.clone(),
            status: self.status,
            method: self.method,
            format: self.format,
        }
    }

    /// This entry's content as a single row: its lines joined with one
    /// space after each, or a placeholder where there is none.
    pub fn get_response_as_line(&self) -> (r: String)
        ensures
            r@ == match self@.content {
                Some(c) => joined_lines(c),
                None => "No content"@,
            },
    {
        match &self.content {
            Some(content) => join_lines(content.as_str()),
            None => String::from_str("No content"),
        }
    }
}

/// The model of one peer's entry list.
pub open spec fn entries_model(es: Seq<TuiResponse>) -> Seq<EntryModel> {
    es.map(|i: int, e: TuiResponse| e@)
}

/// `log` with `e` appended to the entries of `key`: an already-seen peer
/// keeps its place and grows by one entry, a new peer is appended last
/// with that one entry.
pub open spec fn log_append(
    log: Seq<(Seq<char>, Seq<EntryModel>)>,
    key: Seq<char>,
    e: EntryModel,
) -> Seq<(Seq<char>, Seq<EntryModel>)> {
    if has_key(log, key) {
        let i = key_index(log, key);
        log.update(i, (key, log[i].1.push(e)))
    } else {
        log.push((key, seq![e]))
    }
}

/// The connection log: for each peer, in first-seen order, the entries
/// about it in receipt order.
#[derive(Debug)]
pub struct ConnectionLog {
    index: indexmap::IndexMap<String, usize>,
    groups: Vec<(String, Vec<TuiResponse>)>,
}

impl View for ConnectionLog {
    type V = Seq<(Seq<char>, Seq<EntryModel>)>;

    closed spec fn view(&self) -> Seq<(Seq<char>, Seq<EntryModel>)> {
        Seq::new(self.groups@.len(), |i: int| (self.groups@[i].0@, entries_model(self.groups@[i].1@)))
    }
}

impl ConnectionLog {
    /// The position index mirrors the group vector pairwise, and no peer
    /// occurs twice.
    pub closed spec fn well_formed(&self) -> bool {
        &&& index_entries(self.index).len() == self.groups@.len()
        &&& (forall|i: int|
            0 <= i < self.groups@.len() ==> #[trigger] index_entries(self.index)[i].0
                == self.groups@[i].0@ && index_entries(self.index)[i].1 as int == i)
        &&& distinct_keys(self@)
    }

    /// An empty log.
    pub fn new() -> (r: ConnectionLog)
        ensures
            r.well_formed(),
            r@.len() == 0,
    {
        let r = ConnectionLog { index: map_new(), groups: Vec::new() };
        proof {
            assert(r@.len() == 0);
        }
        r
    }

    /// How many peers have been seen.
    pub fn len(&self) -> (r: usize)
        ensures
            r == self@.len(),
    {
        self.groups.len()
    }

    /// Whether no peer has been seen yet.
    pub fn is_empty(&self) -> (r: bool)
        ensures
            r == (self@.len() == 0),
    {
        self.groups.len() == 0
    }

    /// The peer key and entry list at a position in first-seen order.
    pub fn get_index(&self, i: usize) -> (r: Option<&(String, Vec<TuiResponse>)>)
        ensures
            (match r {
                Some(p) => i < self@.len() && self@[i as int] == (p.0@, entries_model(p.1@)),
                None => i >= self@.len(),
            }),
    {
        if i < self.groups.len() {
            Some(&self.groups[i])
        } else {
            None
        }
    }

    /// Appends `entry` under the peer key `key`: a peer already in the
    /// log keeps its place and grows by this one entry at the end, a new
    /// peer joins at the end of the key order.
    pub fn push_entry(&mut self, key: String, entry: TuiResponse)
        requires
            old(self).well_formed(),
        ensures
            final(self).well_formed(),
            final(self)@ == log_append(old(self)@, key@, entry@),
    {
        let ghost old_view = self@;
        let ghost em = entry@;
        match map_get(&self.index, &key) {
            Some(i) => {
                proof {
                    let j = choose|j: int|
                        0 <= j < index_entries(self.index).len() && index_entries(self.index)[j]
                            == (key@, i);
                    assert(index_entries(self.index)[j] == (key@, i));
                    assert(index_entries(self.index)[j].0 == key@);
                    assert(index_entries(self.index)[j].1 == i);
                    assert(i as int == j);
                    lemma_key_index_unique(old_view, key@, i as int);
                }
                let slot = group_at(&mut self.groups, i);
                slot.1.push(entry);
                proof {
                    assert(entries_model(self.groups@[i as int].1@) =~= entries_model(
                        old(self).groups@[i as int].1@,
                    ).push(em));
                    assert(self@ =~= log_append(old_view, key@, em));
                }
            },
            None => {
                proof {
                    assert forall|k: int| 0 <= k < old_view.len() implies old_view[k].0 != key@ by {
                        assert(index_entries(self.index)[k].0 == self.groups@[k].0@);
                    }
                }
                let n = self.groups.len();
                map_insert(&mut self.index, key.clone(), n);
                let mut es: Vec<TuiResponse> = Vec::new();
                es.push(entry);
                self.groups.push((key, es));
                proof {
                    assert(entries_model(es@) =~= seq![em]);
                    assert(self@ =~= log_append(old_view, key@, em));
                }
            },
        }
    }

    /// A fresh copy of the whole log, for rendering without holding the
    /// log back.
    pub fn snapshot(&self) -> (r: ConnectionLog)
        requires
            self.well_formed(),
        ensures
            r.well_formed(),
            r@ == self@,
    {
        let mut index = map_new();
        let mut groups: Vec<(String, Vec<TuiResponse>)> = Vec::new();
        let n = self.groups.len();
        let mut i: usize = 0;
        while i < n
            invariant
                0 <= i <= n,
                n == self.groups@.len(),
                self.well_formed(),
                groups@.len() == i,
                index_entries(index).len() == i,
                forall|k: int|
                    0 <= k < i ==> #[trigger] index_entries(index)[k].0 == groups@[k].0@
                        && index_entries(index)[k].1 as int == k,
                forall|k: int|
                    0 <= k < i ==> #[trigger] groups@[k].0@ == self.groups@[k].0@ && entries_model(
                        groups@[k].1@,
                    ) == entries_model(self.groups@[k].1@),
            decreases n - i,
        {
            let pair = &self.groups[i];
            let key = pair.0.clone();
            let mut es: Vec<TuiResponse> = Vec::new();
            let m = pair.1.len();
            let mut j: usize = 0;
            while j < m
                invariant
                    0 <= j <= m,
                    m == pair.1@.len(),
                    es@.len() == j,
                    forall|k: int| 0 <= k < j ==> #[trigger] es@[k]@ == pair.1@[k]@,
                decreases m - j,
            {
                es.push(pair.1[j].duplicate());
                j += 1;
            }
            proof {
                assert(entries_model(es@) =~= entries_model(pair.1@));
                assert forall|k: int|
                    0 <= k < index_entries(index).len() implies index_entries(index)[k].0
                    != key@ by {
                    assert(index_entries(index)[k].0 == groups@[k].0@);
                    assert(self@[k].0 == self.groups@[k].0@);
                    assert(self@[i as int].0 == self.groups@[i as int].0@);
                }
            }
            map_insert(&mut index, key.clone(), i);
            groups.push((key, es));
            i += 1;
        }
        let r = ConnectionLog { index, groups };
        proof {
            assert(r@ =~~= self@);
            assert forall|a: int, b: int| 0 <= a < b < r@.len() implies r@[a].0 != r@[b].0 by {
                assert(self@[a].0 != self@[b].0);
            }
        }
        r
    }
}

/// Relies on `chrono::Utc::now` and `DateTime::to_rfc3339`: the moment
/// of the call, formatted.  Nothing is promised of the text; every
/// contract downstream holds whatever it is.
#[verifier::external_body]
fn now_rfc3339() -> String {
    chrono::Utc::now().to_rfc3339()
}

/// The log entry a domain event asks for, stamped `time`, keyed by the
/// IP of the peer it references; events referencing no peer ask for
/// none.
pub open spec fn event_entry(m: Message, time: Seq<char>) -> Option<(Seq<char>, EntryModel)> {
    match m {
        Message::ConnectionFailed(e) => match e {
            ConnectionFailedError::Connection(_) => None,
            ConnectionFailedError::Parsing(addr, err) => Some(
                (
                    addr@.ip,
                    EntryModel {
                        addr: addr@,
                        content: Some("Error: "@ + err@),
                        time,
                        status: Some(Status::InternalServerError),
                        method: None,
                        format: None,
                    },
                ),
            ),
        },
        Message::Response(rm) => Some(
            (
                rm.addr@.ip,
                EntryModel {
                    addr: rm.addr@,
                    content: Some(
                        http_frame(
                            status_code(rm.response.status),
                            rm.response@.content,
                            rm.response@.format,
                        ),
                    ),
                    time,
                    status: None,
                    method: None,
                    format: Some(ResponseFormat::Json),
                },
            ),
        ),
        Message::ConnectionReceived(c) => match c {
            Some(addr) => Some(
                (
                    addr@.ip,
                    EntryModel {
                        addr: addr@,
                        content: Some("Established connection"@),
                        time,
                        status: Some(Status::Okay),
                        method: None,
                        format: None,
                    },
                ),
            ),
            None => None,
        },
    }
}

/// One domain event applied to the log: the entry it asks for is
/// appended under its peer, and an event referencing no peer changes
/// nothing.
pub open spec fn apply_event(
    log: Seq<(Seq<char>, Seq<EntryModel>)>,
    m: Message,
    time: Seq<char>,
) -> Seq<(Seq<char>, Seq<EntryModel>)> {
    match event_entry(m, time) {
        Some(p) => log_append(log, p.0, p.1),
        None => log,
    }
}

/// Applies one received domain event to the shared log, stamping it with
/// the present moment: exactly one entry is appended for an event that
/// references a peer, and nothing changes for one that does not.
pub fn handle_message(message: Message, connections: &mut ConnectionLog)
    requires
        old(connections).well_formed(),
    ensures
        final(connections).well_formed(),
        exists|t: Seq<char>|
            final(connections)@ == apply_event(old(connections)@, message, t),
{
    let ghost msg = message;
    let time = now_rfc3339();
    let ghost t = time@;
    match message {
        Message::ConnectionFailed(error) => match error {
            ConnectionFailedError::Connection(_) => {
                proof {
                    assert(connections@ == apply_event(old(connections)@, msg, t));
                }
            },
            ConnectionFailedError::Parsing(addr, err) => {
                let mut content = String::from_str("Error: ");
                proof {
                    reveal_strlit("Error: ");
                }
                content.append(err.as_str());
                let key = addr.ip.clone();
                let entry = TuiResponse {
                    content: Some(content),
                    addr,
                    format: None,
                    time,
                    status: Some(Status::InternalServerError),
                    method: None,
                };
                connections.push_entry(key, entry);
                proof {
                    assert(connections@ == apply_event(old(connections)@, msg, t));
                }
            },
        },
        Message::Response(rm) => {
            let content = encode_response(&rm.response);
            let key = rm.addr.ip.clone();
            let entry = TuiResponse {
                status: None,
                method: None,
                addr: rm.addr,
                content: Some(content),
                format: Some(ResponseFormat::Json),
                time,
            };
            connections.push_entry(key, entry);
            proof {
                assert(connections@ == apply_event(old(connections)@, msg, t));
            }
        },
        Message::ConnectionReceived(connection) => match connection {
            Some(addr) => {
                let content = String::from_str("Established connection");
                proof {
                    reveal_strlit("Established connection");
                }
                let key = addr.ip.clone();
                let entry = TuiResponse {
                    status: Some(Status::Okay),
                    method: None,
                    addr,
                    content: Some(content),
                    format: None,
                    time,
                };
                connections.push_entry(key, entry);
                proof {
                    assert(connections@ == apply_event(old(connections)@, msg, t));
                }
            },
            None => {
                proof {
                    assert(connections@ == apply_event(old(connections)@, msg, t));
                }
            },
        },
    }
}

/// A sequence of stamped domain events applied to the log, in receipt
/// order.
pub open spec fn apply_events(
    log: Seq<(Seq<char>, Seq<EntryModel>)>,
    events: Seq<(Message, Seq<char>)>,
) -> Seq<(Seq<char>, Seq<EntryModel>)>
    decreases events.len(),
{
    if events.len() == 0 {
        log
    } else {
        apply_event(apply_events(log, events.drop_last()), events.last().0, events.last().1)
    }
}

/// The entries the log holds for the peer keyed `key`.
pub open spec fn peer_entries(
    log: Seq<(Seq<char>, Seq<EntryModel>)>,
    key: Seq<char>,
) -> Seq<EntryModel> {
    if has_key(log, key) {
        log[key_index(log, key)].1
    } else {
        Seq::empty()
    }
}

/// The entries that the events referencing the peer keyed `key` ask for,
/// in receipt order.
pub open spec fn derived_for_peer(
    events: Seq<(Message, Seq<char>)>,
    key: Seq<char>,
) -> Seq<EntryModel>
    decreases events.len(),
{
    if events.len() == 0 {
        Seq::empty()
    } else {
        let rest = derived_for_peer(events.drop_last(), key);
        match event_entry(events.last().0, events.last().1) {
            Some(p) => if p.0 == key {
                rest.push(p.1)
            } else {
                rest
            },
            None => rest,
        }
    }
}

proof fn lemma_log_append_distinct(
    log: Seq<(Seq<char>, Seq<EntryModel>)>,
    key: Seq<char>,
    e: EntryModel,
)
    requires
        distinct_keys(log),
    ensures
        distinct_keys(log_append(log, key, e)),
{
    let log2 = log_append(log, key, e);
    if has_key(log, key) {
        let i = key_index(log, key);
        assert(0 <= i < log.len() && log[i].0 == key);
        assert forall|a: int, b: int| 0 <= a < b < log2.len() implies log2[a].0 != log2[b].0 by {
            assert(log2[a].0 == log[a].0);
            assert(log2[b].0 == log[b].0);
        }
    } else {
        assert forall|a: int, b: int| 0 <= a < b < log2.len() implies log2[a].0 != log2[b].0 by {
            if b < log.len() {
            } else {
                assert(log2[b].0 == key);
                assert(!(exists|k: int| 0 <= k < log.len() && log[k].0 == key));
            }
        }
    }
}

proof fn lemma_peer_entries_append(
    log: Seq<(Seq<char>, Seq<EntryModel>)>,
    key: Seq<char>,
    e: EntryModel,
    q: Seq<char>,
)
    requires
        distinct_keys(log),
    ensures
        peer_entries(log_append(log, key, e), q) == if q == key {
            peer_entries(log, q).push(e)
        } else {
            peer_entries(log, q)
        },
{
    let log2 = log_append(log, key, e);
    lemma_log_append_distinct(log, key, e);
    if has_key(log, key) {
        let i = key_index(log, key);
        assert(0 <= i < log.len() && log[i].0 == key);
        assert forall|k: int| 0 <= k < log2.len() implies log2[k].0 == log[k].0 by {}
        if q == key {
            lemma_key_index_unique(log2, q, i);
            assert(peer_entries(log2, q) == log[i].1.push(e));
            lemma_key_index_unique(log, q, i);
        } else {
            if has_key(log, q) {
                let j = key_index(log, q);
                assert(0 <= j < log.len() && log[j].0 == q);
                assert(j != i);
                lemma_key_index_unique(log2, q, j);
                lemma_key_index_unique(log, q, j);
                assert(log2[j] == log[j]);
            } else {
                if has_key(log2, q) {
                    let j = key_index(log2, q);
                    assert(log[j].0 == q);
                }
            }
        }
    } else {
        if q == key {
            lemma_key_index_unique(log2, q, log.len() as int);
            assert(peer_entries(log2, q) == seq![e]);
            if has_key(log, q) {
                let j = key_index(log, q);
                assert(log[j].0 == q);
            }
            assert(peer_entries(log, q).push(e) =~= seq![e]);
        } else {
            if has_key(log, q) {
                let j = key_index(log, q);
                assert(0 <= j < log.len() && log[j].0 == q);
                lemma_key_index_unique(log2, q, j);
                lemma_key_index_unique(log, q, j);
                assert(log2[j] == log[j]);
            } else {
                if has_key(log2, q) {
                    let j = key_index(log2, q);
                    assert(0 <= j < log2.len() && log2[j].0 == q);
                    if j < log.len() {
                        assert(log[j].0 == q);
                    } else {
                        assert(log2[j].0 == key);
                    }
                }
            }
        }
    }
}

proof fn lemma_apply_events_distinct(events: Seq<(Message, Seq<char>)>)
    ensures
        distinct_keys(apply_events(Seq::<(Seq<char>, Seq<EntryModel>)>::empty(), events)),
    decreases events.len(),
{
    let empty = Seq::<(Seq<char>, Seq<EntryModel>)>::empty();
    if events.len() == 0 {
    } else {
        lemma_apply_events_distinct(events.drop_last());
        let prev = apply_events(empty, events.drop_last());
        match event_entry(events.last().0, events.last().1) {
            Some(p) => {
                lemma_log_append_distinct(prev, p.0, p.1);
            },
            None => {},
        }
    }
}

/// The aggregation law: after any sequence of domain events is applied to
/// an empty log, the log holds, for every peer, exactly the entries that
/// the events referencing that peer asked for, in receipt order — nothing
/// reordered, nothing dropped.
pub proof fn lemma_log_aggregation(events: Seq<(Message, Seq<char>)>, key: Seq<char>)
    ensures
        peer_entries(apply_events(Seq::<(Seq<char>, Seq<EntryModel>)>::empty(), events), key)
            == derived_for_peer(events, key),
    decreases events.len(),
{
    let empty = Seq::<(Seq<char>, Seq<EntryModel>)>::empty();
    if events.len() == 0 {
        assert(!has_key(empty, key));
    } else {
        lemma_log_aggregation(events.drop_last(), key);
        lemma_apply_events_distinct(events.drop_last());
        let prev = apply_events(empty, events.drop_last());
        match event_entry(events.last().0, events.last().1) {
            Some(p) => {
                lemma_peer_entries_append(prev, p.0, p.1, key);
            },
            None => {},
        }
    }
}

/// A mutable slot of the group vector.
fn group_at<'a>(groups: &'a mut Vec<(String, Vec<TuiResponse>)>, i: usize) -> (slot: &'a mut (
    String,
    Vec<TuiResponse>,
))
    requires
        i < old(groups)@.len(),
    ensures
        *slot == old(groups)@[i as int],
        final(groups)@ == old(groups)@.update(i as int, *final(slot)),
{
    &mut groups[i]
}

} // verus!
