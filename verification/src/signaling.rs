//! The signalling server: it keeps the open sessions and introduces a viewer to
//! the host whose code the viewer gives.
//!
//! A host opens a session and gets a code.  The first viewer that joins with the
//! code, within five minutes, learns the host's address and fingerprint, and the
//! host learns the viewer's address.  After that, and after five minutes, the code
//! is good for nothing.

use vstd::prelude::*;

use crate::code::{
    code_with_number, gen_code, is_code, lemma_code_has_number, lemma_indices_give_code,
    lemma_numbers_give_different_codes, number_indices, numbered_code, CODE_COUNT,
};
use crate::entry::optional_text;
use crate::integrity::{check_tag, tag_holds, tag_of, CREATE_KIND, JOIN_KIND};
use crate::message::{Msg, MsgView};
use crate::text::join3;

verus! {

/// How long a session stays open, in nanoseconds: five minutes.
pub const SESSION_LIFETIME: u64 = 300_000_000_000;

/// How long the server waits between two removals of old sessions, in
/// nanoseconds: half a minute.
pub const CLEANUP_INTERVAL: u64 = 30_000_000_000;

/// Where a connection stands with the server's key.
#[derive(Debug)]
pub enum Access {
    /// The server asks for no key, and none was presented.
    Open,
    /// The server asks for this key.
    Locked(String),
    /// The peer presented this key, and has access.
    Granted(String),
}

/// Where a connection stands with the server's key, with texts as sequences of
/// characters.
pub enum AccessView {
    Open,
    Locked(Seq<char>),
    Granted(Seq<char>),
}

impl View for Access {
    type V = AccessView;

    open spec fn view(&self) -> AccessView {
        match *self {
            Access::Open => AccessView::Open,
            Access::Locked(key) => AccessView::Locked(key@),
            Access::Granted(key) => AccessView::Granted(key@),
        }
    }
}

impl Access {
    /// The key that the peer presented, if it has.
    fn presented(&self) -> (key: Option<&String>)
        ensures
            match key {
                Some(k) => presented_key(self@) == Some(k@),
                None => presented_key(self@) is None,
            },
    {
        match self {
            Access::Granted(key) => Some(key),
            _ => None,
        }
    }
}

/// Where a new connection stands on a server that asks for `required`.
pub open spec fn access_for(required: Option<Seq<char>>) -> AccessView {
    match required {
        Some(key) => AccessView::Locked(key),
        None => AccessView::Open,
    }
}

/// Where a new connection stands, given the key that the server asks for, if it
/// asks for one.
pub fn access(required: Option<String>) -> (access: Access)
    ensures
        access@ == access_for(optional_text(required)),
{
    match required {
        Some(key) => Access::Locked(key),
        None => Access::Open,
    }
}

/// What came next over a connection.
pub enum Incoming {
    /// A text, and the message in it if it is one.
    Text(Option<Msg>),
    /// Anything else: another kind of frame, an error, or the end.
    Other,
}

/// What came next over a connection, as plain values.
pub enum IncomingView {
    Text(Option<MsgView>),
    Other,
}

impl View for Incoming {
    type V = IncomingView;

    open spec fn view(&self) -> IncomingView {
        match *self {
            Incoming::Text(Some(msg)) => IncomingView::Text(Some(msg@)),
            Incoming::Text(None) => IncomingView::Text(None),
            Incoming::Other => IncomingView::Other,
        }
    }
}

/// What becomes of a connection.
#[derive(Debug)]
pub enum Request {
    /// The peer has access by this key; its request comes next.
    Continue { key: String },
    /// A session is opened for a host at this address, with a certificate of this
    /// fingerprint.
    Create { host_addr: String, cert_fingerprint: String },
    /// A viewer at this address joins.
    Join { viewer_addr: String },
    /// This is answered, and the connection closed.
    Refuse(Msg),
    /// The connection is closed without an answer.
    Ignore,
}

/// What becomes of a connection, as plain values.
pub enum RequestView {
    Continue { key: Seq<char> },
    Create { host_addr: Seq<char>, cert_fingerprint: Seq<char> },
    Join { viewer_addr: Seq<char> },
    Refuse(MsgView),
    Ignore,
}

impl View for Request {
    type V = RequestView;

    open spec fn view(&self) -> RequestView {
        match *self {
            Request::Continue { key } => RequestView::Continue { key: key@ },
            Request::Create { host_addr, cert_fingerprint } => RequestView::Create {
                host_addr: host_addr@,
                cert_fingerprint: cert_fingerprint@,
            },
            Request::Join { viewer_addr } => RequestView::Join { viewer_addr: viewer_addr@ },
            Request::Refuse(msg) => RequestView::Refuse(msg@),
            Request::Ignore => RequestView::Ignore,
        }
    }
}

/// The refusal with the given reason.
pub open spec fn refused(reason: Seq<char>) -> RequestView {
    RequestView::Refuse(MsgView::Error { reason })
}

/// What a message comes to by the peer's access alone.  A key may be presented
/// first; where the server asks for one it must be, and it must be that one.
pub open spec fn access_decision(access: AccessView, incoming: IncomingView) -> Option<RequestView> {
    match (access, incoming) {
        (_, IncomingView::Other) => Some(RequestView::Ignore),
        (AccessView::Locked(required), IncomingView::Text(Some(MsgView::Auth { key }))) =>
            if key == required {
                Some(RequestView::Continue { key })
            } else {
                Some(refused("AUTH_KEY invalida"@))
            },
        (AccessView::Locked(_), _) => Some(refused("esperava {type:auth}"@)),
        (AccessView::Open, IncomingView::Text(Some(MsgView::Auth { key }))) => Some(
            RequestView::Continue { key },
        ),
        _ => None,
    }
}

/// The key that the peer presented, if it has.
pub open spec fn presented_key(access: AccessView) -> Option<Seq<char>> {
    match access {
        AccessView::Granted(key) => Some(key),
        _ => None,
    }
}

/// What a message from a host comes to.  A request under a tag that is not its own is
/// refused.
pub open spec fn create_decision(access: AccessView, incoming: IncomingView) -> RequestView {
    match access_decision(access, incoming) {
        Some(request) => request,
        None => match incoming {
            IncomingView::Text(Some(MsgView::Create { host_addr, cert_fingerprint, tag })) =>
                if tag_holds(
                    presented_key(access),
                    tag,
                    CREATE_KIND,
                    host_addr,
                    cert_fingerprint,
                ) {
                    RequestView::Create { host_addr, cert_fingerprint }
                } else {
                    refused("hmac invalido"@)
                },
            _ => refused("esperava {type:create}"@),
        },
    }
}

/// What a message from a viewer comes to.  A request under a tag that is not its own
/// is refused.
pub open spec fn join_decision(access: AccessView, incoming: IncomingView) -> RequestView {
    match access_decision(access, incoming) {
        Some(request) => request,
        None => match incoming {
            IncomingView::Text(Some(MsgView::Join { code, viewer_addr, tag })) => if tag_holds(
                presented_key(access),
                tag,
                JOIN_KIND,
                code,
                viewer_addr,
            ) {
                RequestView::Join { viewer_addr }
            } else {
                refused("hmac invalido"@)
            },
            _ => refused("esperava {type:join}"@),
        },
    }
}

fn refuse(reason: &str) -> (request: Request)
    ensures
        request@ == refused(reason@),
{
    Request::Refuse(Msg::Error { reason: reason.to_owned() })
}

fn decide_access(access: &Access, incoming: &Incoming) -> (request: Option<Request>)
    ensures
        match request {
            Some(r) => access_decision(access@, incoming@) == Some(r@),
            None => access_decision(access@, incoming@) is None,
        },
{
    match incoming {
        Incoming::Other => Some(Request::Ignore),
        Incoming::Text(msg) => match access {
            Access::Locked(required) => match msg {
                Some(Msg::Auth { key }) => if *key == *required {
                    Some(Request::Continue { key: key.clone() })
                } else {
                    Some(refuse("AUTH_KEY invalida"))
                },
                _ => Some(refuse("esperava {type:auth}")),
            },
            Access::Open => match msg {
                Some(Msg::Auth { key }) => Some(Request::Continue { key: key.clone() }),
                _ => None,
            },
            Access::Granted(_) => None,
        },
    }
}

/// Decides on a message of a host: after its key it must ask for a session.
pub fn create_request(access: &Access, incoming: Incoming) -> (request: Request)
    ensures
        request@ == create_decision(access@, incoming@),
{
    match decide_access(access, &incoming) {
        Some(request) => request,
        None => match incoming {
            Incoming::Text(Some(Msg::Create { host_addr, cert_fingerprint, tag })) => {
                if check_tag(
                    access.presented(),
                    &tag,
                    CREATE_KIND,
                    host_addr.as_str(),
                    cert_fingerprint.as_str(),
                ) {
                    Request::Create { host_addr, cert_fingerprint }
                } else {
                    refuse("hmac invalido")
                }
            },
            _ => refuse("esperava {type:create}"),
        },
    }
}

/// Decides on a message of a viewer: after its key it must ask to join.  The code
/// in the message plays no part beyond its tag; the one the viewer connected with
/// counts.
pub fn join_request(access: &Access, incoming: Incoming) -> (request: Request)
    ensures
        request@ == join_decision(access@, incoming@),
{
    match decide_access(access, &incoming) {
        Some(request) => request,
        None => match incoming {
            Incoming::Text(Some(Msg::Join { code, viewer_addr, tag })) => {
                if check_tag(
                    access.presented(),
                    &tag,
                    JOIN_KIND,
                    code.as_str(),
                    viewer_addr.as_str(),
                ) {
                    Request::Join { viewer_addr }
                } else {
                    refuse("hmac invalido")
                }
            },
            _ => refuse("esperava {type:join}"),
        },
    }
}

/// What is known of an open session.
pub struct SessionInfo {
    /// Where the host listens.
    pub host_addr: Seq<char>,
    /// The fingerprint of the certificate that the host presents.
    pub cert_fingerprint: Seq<char>,
    /// Whether the host still waits to hear of a viewer.
    pub waiting: bool,
    /// When the session was opened, in nanoseconds on the server's clock.
    pub created_at: u64,
}

/// The open sessions by their codes.
pub type SessionTable = Map<Seq<char>, SessionInfo>;

/// A session that has just been opened.
pub open spec fn new_session(
    host_addr: Seq<char>,
    cert_fingerprint: Seq<char>,
    now: u64,
) -> SessionInfo {
    SessionInfo { host_addr, cert_fingerprint, waiting: true, created_at: now }
}

/// The same session, once its host has been told of a viewer.
pub open spec fn told(session: SessionInfo) -> SessionInfo {
    SessionInfo { waiting: false, ..session }
}

/// Whether a session is less than five minutes old.  A clock that reads earlier
/// than when the session was opened counts as no time passed.
pub open spec fn alive(session: SessionInfo, now: u64) -> bool {
    now - session.created_at < SESSION_LIFETIME
}

/// The sessions that are left when the old ones are removed.
pub open spec fn cleaned(table: SessionTable, now: u64) -> SessionTable {
    Map::new(
        |code: Seq<char>| table.contains_key(code) && alive(table[code], now),
        |code: Seq<char>| table[code],
    )
}

/// Whether a viewer can join with `code`: the session is open, not too old, and its
/// host still waits.
pub open spec fn joinable(table: SessionTable, code: Seq<char>, now: u64) -> bool {
    table.contains_key(code) && alive(table[code], now) && table[code].waiting
}

/// The sessions after a viewer joined with `code`.
pub open spec fn joined(table: SessionTable, code: Seq<char>, now: u64) -> SessionTable {
    if joinable(table, code, now) {
        table.insert(code, told(table[code]))
    } else {
        table
    }
}

/// The answer that there is no session with `code`.
pub open spec fn not_found(code: Seq<char>) -> MsgView {
    MsgView::Error { reason: "sessao "@ + code + " nao encontrada"@ }
}

/// What a viewer that joins with `code` is answered.
pub open spec fn join_answer(table: SessionTable, code: Seq<char>, now: u64) -> MsgView {
    if joinable(table, code, now) {
        MsgView::HostReady {
            host_addr: table[code].host_addr,
            cert_fingerprint: table[code].cert_fingerprint,
        }
    } else {
        not_found(code)
    }
}

/// Whether there is a code that no session has.
pub open spec fn some_code_free(table: SessionTable) -> bool {
    exists|code: Seq<char>| #[trigger] is_code(code) && !table.contains_key(code)
}

/// How many codes are drawn before they are gone through one by one.
const DRAWS: u32 = 16;

/// Whether the first `count` of `draws` belong to sessions already.
pub open spec fn all_taken(table: SessionTable, draws: Seq<String>, count: int) -> bool {
    forall|i: int| 0 <= i < count ==> table.contains_key((#[trigger] draws[i])@)
}

/// Whether the draw at `k` is the first one that is free.
pub open spec fn is_first_free(table: SessionTable, draws: Seq<String>, k: int) -> bool {
    &&& 0 <= k < draws.len()
    &&& !table.contains_key(draws[k]@)
    &&& all_taken(table, draws, k)
}

/// Draws `count` session codes.
fn draw_codes(count: u32) -> (draws: Vec<String>)
    ensures
        draws@.len() == count,
        forall|i: int| 0 <= i < draws@.len() ==> is_code((#[trigger] draws@[i])@),
{
    let mut draws: Vec<String> = Vec::new();
    let mut left: u32 = count;
    while left > 0
        invariant
            draws@.len() + left == count,
            forall|i: int| 0 <= i < draws@.len() ==> is_code((#[trigger] draws@[i])@),
        decreases left,
    {
        draws.push(gen_code());
        left = left - 1;
    }
    draws
}

/// Whether a session that was opened at `created_at` is less than five minutes old.
fn is_alive(created_at: u64, now: u64) -> (alive: bool)
    ensures
        alive == (now - created_at < SESSION_LIFETIME),
{
    now < created_at || now - created_at < SESSION_LIFETIME
}

fn not_found_reply(code: &String) -> (msg: Msg)
    ensures
        msg@ == not_found(code@),
{
    Msg::Error { reason: join3("sessao ", code.as_str(), " nao encontrada") }
}

/// An open session.
struct Session {
    code: String,
    host_addr: String,
    cert_fingerprint: String,
    waiting: bool,
    created_at: u64,
}

impl Session {
    spec fn info(self) -> SessionInfo {
        SessionInfo {
            host_addr: self.host_addr@,
            cert_fingerprint: self.cert_fingerprint@,
            waiting: self.waiting,
            created_at: self.created_at,
        }
    }
}

/// No two sessions have the same code.
spec fn distinct_codes(entries: Seq<Session>) -> bool {
    forall|i: int, j: int|
        0 <= i < j < entries.len() ==> (#[trigger] entries[i]).code@ != (
        #[trigger] entries[j]).code@
}

/// Whether some session has the code `code`.
spec fn has_code(entries: Seq<Session>, code: Seq<char>) -> bool {
    exists|i: int| 0 <= i < entries.len() && (#[trigger] entries[i]).code@ == code
}

/// The place of the session with the code `code`.
spec fn place_of(entries: Seq<Session>, code: Seq<char>) -> int {
    choose|i: int| 0 <= i < entries.len() && (#[trigger] entries[i]).code@ == code
}

spec fn table_of(entries: Seq<Session>) -> SessionTable {
    Map::new(
        |code: Seq<char>| has_code(entries, code),
        |code: Seq<char>| entries[place_of(entries, code)].info(),
    )
}

/// The table of `entries` is the one that holds each of them and nothing else.
proof fn lemma_table_is(entries: Seq<Session>, table: SessionTable)
    requires
        distinct_codes(entries),
        forall|i: int|
            0 <= i < entries.len() ==> table.contains_key((#[trigger] entries[i]).code@)
                && table[entries[i].code@] == entries[i].info(),
        forall|code: Seq<char>| #[trigger] table.contains_key(code) ==> has_code(entries, code),
    ensures
        table_of(entries) == table,
{
    assert forall|code: Seq<char>| has_code(entries, code) implies table.contains_key(code)
        && #[trigger] table_of(entries)[code] == table[code] by {
        let i = place_of(entries, code);
        assert(entries[i].code@ == code);
    }
    assert(table_of(entries) =~= table);
}

/// Each session is in the table under its code.
proof fn lemma_in_table(entries: Seq<Session>, i: int)
    requires
        distinct_codes(entries),
        0 <= i < entries.len(),
    ensures
        table_of(entries).contains_key(entries[i].code@),
        table_of(entries)[entries[i].code@] == entries[i].info(),
{
    assert(has_code(entries, entries[i].code@));
    let j = place_of(entries, entries[i].code@);
    assert(entries[j].code@ == entries[i].code@);
    assert(i == j);
}

/// There are as many sessions in the table as entries.
proof fn lemma_table_size(entries: Seq<Session>)
    requires
        distinct_codes(entries),
    ensures
        table_of(entries).dom().finite(),
        table_of(entries).dom().len() == entries.len(),
{
    let codes = entries.map_values(|session: Session| session.code@);
    assert forall|i: int, j: int| 0 <= i < codes.len() && 0 <= j < codes.len() && i
        != j implies codes[i] != codes[j] by {
        if i < j {
            assert(entries[i].code@ != entries[j].code@);
        } else {
            assert(entries[j].code@ != entries[i].code@);
        }
    }
    codes.unique_seq_to_set();
    assert forall|code: Seq<char>| #[trigger] has_code(entries, code) implies codes.to_set().contains(
        code,
    ) by {
        let i = place_of(entries, code);
        assert(codes[i] == code);
    }
    assert forall|code: Seq<char>| #[trigger] codes.to_set().contains(code) implies has_code(
        entries,
        code,
    ) by {
        let i = choose|i: int| 0 <= i < codes.len() && codes[i] == code;
        assert(entries[i].code@ == code);
    }
    assert(table_of(entries).dom() =~= codes.to_set());
}

/// The codes with the lowest `count` numbers.
spec fn lowest_codes(count: nat) -> Set<Seq<char>>
    decreases count,
{
    if count == 0 {
        Set::empty()
    } else {
        lowest_codes((count - 1) as nat).insert(numbered_code(count - 1))
    }
}

proof fn lemma_lowest_codes(count: nat)
    requires
        count <= CODE_COUNT,
    ensures
        lowest_codes(count).finite(),
        lowest_codes(count).len() == count,
        forall|code: Seq<char>| #[trigger]
            lowest_codes(count).contains(code) ==> exists|n: int|
                0 <= n < count && code == #[trigger] numbered_code(n),
    decreases count,
{
    if count > 0 {
        let fewer = (count - 1) as nat;
        lemma_lowest_codes(fewer);
        if lowest_codes(fewer).contains(numbered_code(count - 1)) {
            let n = choose|n: int|
                0 <= n < fewer && numbered_code(count - 1) == #[trigger] numbered_code(n);
            lemma_numbers_give_different_codes(n, count - 1);
        }
    }
}

/// Where there are fewer sessions than codes, a code is free.
proof fn lemma_room_for_code(table: SessionTable)
    requires
        table.dom().finite(),
        table.dom().len() < CODE_COUNT,
    ensures
        some_code_free(table),
{
    let all = lowest_codes(CODE_COUNT as nat);
    lemma_lowest_codes(CODE_COUNT as nat);
    if !some_code_free(table) {
        assert forall|code: Seq<char>| #[trigger] all.contains(code) implies table.dom().contains(
            code,
        ) by {
            let n = choose|n: int| 0 <= n < CODE_COUNT && code == #[trigger] numbered_code(n);
            lemma_indices_give_code(number_indices(n));
            assert(is_code(code));
        }
        vstd::set_lib::lemma_len_subset(all, table.dom());
    }
}

/// The open sessions.
pub struct Sessions {
    entries: Vec<Session>,
}

impl View for Sessions {
    type V = SessionTable;

    closed spec fn view(&self) -> SessionTable {
        table_of(self.entries@)
    }
}

impl Sessions {
    /// No two sessions have the same code.
    pub closed spec fn well_formed(&self) -> bool {
        distinct_codes(self.entries@)
    }

    /// No sessions.
    pub fn new() -> (sessions: Sessions)
        ensures
            sessions.well_formed(),
            sessions@ == Map::<Seq<char>, SessionInfo>::empty(),
    {
        let sessions = Sessions { entries: Vec::new() };
        proof {
            lemma_table_is(sessions.entries@, Map::empty());
        }
        sessions
    }

    fn find(&self, code: &String) -> (place: Option<usize>)
        ensures
            match place {
                Some(i) => i < self.entries@.len() && self.entries@[i as int].code@ == code@,
                None => !has_code(self.entries@, code@),
            },
    {
        let mut i: usize = 0;
        while i < self.entries.len()
            invariant
                i <= self.entries@.len(),
                forall|j: int| 0 <= j < i ==> (#[trigger] self.entries@[j]).code@ != code@,
            decreases self.entries@.len() - i,
        {
            if self.entries[i].code == *code {
                return Some(i);
            }
            i = i + 1;
        }
        None
    }

    /// Whether a session has the code `code`.
    pub fn contains(&self, code: &String) -> (found: bool)
        requires
            self.well_formed(),
        ensures
            found == self@.contains_key(code@),
    {
        match self.find(code) {
            Some(i) => {
                proof {
                    lemma_in_table(self.entries@, i as int);
                }
                true
            },
            None => false,
        }
    }

    /// Opens a session under `code`, unless the code is taken.
    pub fn open(
        &mut self,
        code: &String,
        host_addr: &String,
        cert_fingerprint: &String,
        now: u64,
    ) -> (opened: bool)
        requires
            old(self).well_formed(),
        ensures
            final(self).well_formed(),
            opened == !old(self)@.contains_key(code@),
            final(self)@ == if opened {
                old(self)@.insert(code@, new_session(host_addr@, cert_fingerprint@, now))
            } else {
                old(self)@
            },
    {
        if self.contains(code) {
            return false;
        }
        let ghost before = self.entries@;
        let session = Session {
            code: code.clone(),
            host_addr: host_addr.clone(),
            cert_fingerprint: cert_fingerprint.clone(),
            waiting: true,
            created_at: now,
        };
        self.entries.push(session);
        proof {
            let after = self.entries@;
            let table = table_of(before).insert(
                code@,
                new_session(host_addr@, cert_fingerprint@, now),
            );
            assert(after.last() == session);
            assert forall|i: int, j: int| 0 <= i < j < after.len() implies (
            #[trigger] after[i]).code@ != (#[trigger] after[j]).code@ by {
                lemma_in_table(before, i);
            }
            assert forall|i: int| 0 <= i < after.len() implies table.contains_key(
                (#[trigger] after[i]).code@,
            ) && table[after[i].code@] == after[i].info() by {
                if i < before.len() {
                    lemma_in_table(before, i);
                }
            }
            assert forall|c: Seq<char>| #[trigger] table.contains_key(c) implies has_code(
                after,
                c,
            ) by {
                if c == code@ {
                    assert(after[after.len() - 1].code@ == c);
                } else {
                    let i = place_of(before, c);
                    assert(after[i].code@ == c);
                }
            }
            lemma_table_is(after, table);
        }
        true
    }

    /// Opens a session under the first of `draws` that no other session has.
    ///
    /// There is none only if every one of them is taken; nothing changes then.
    pub fn open_first_free(
        &mut self,
        draws: &Vec<String>,
        host_addr: &String,
        cert_fingerprint: &String,
        now: u64,
    ) -> (code: Option<String>)
        requires
            old(self).well_formed(),
        ensures
            final(self).well_formed(),
            match code {
                Some(c) => {
                    &&& exists|k: int| is_first_free(old(self)@, draws@, k) && draws@[k]@ == c@
                    &&& final(self)@ == old(self)@.insert(
                        c@,
                        new_session(host_addr@, cert_fingerprint@, now),
                    )
                },
                None => all_taken(old(self)@, draws@, draws@.len() as int) && final(self)@ == old(
                    self,
                )@,
            },
    {
        let mut k: usize = 0;
        while k < draws.len()
            invariant
                k <= draws@.len(),
                self.well_formed(),
                self@ == old(self)@,
                all_taken(old(self)@, draws@, k as int),
            decreases draws@.len() - k,
        {
            if self.open(&draws[k], host_addr, cert_fingerprint, now) {
                assert(is_first_free(old(self)@, draws@, k as int));
                return Some(draws[k].clone());
            }
            k = k + 1;
        }
        None
    }

    /// Whether there is room for another session.
    pub fn has_room(&self) -> (room: bool)
        requires
            self.well_formed(),
        ensures
            room == (self@.dom().len() < CODE_COUNT),
            room ==> some_code_free(self@),
    {
        proof {
            lemma_table_size(self.entries@);
            if self.entries@.len() < CODE_COUNT {
                lemma_room_for_code(self@);
            }
        }
        (self.entries.len() as u64) < CODE_COUNT
    }

    /// Opens a session under a code that no other session has.
    ///
    /// Codes are drawn until one is free; which ones come is left to chance.  Should
    /// draw after draw be taken, the first free code is looked for instead.
    pub fn create_session(
        &mut self,
        host_addr: &String,
        cert_fingerprint: &String,
        now: u64,
    ) -> (code: String)
        requires
            old(self).well_formed(),
            some_code_free(old(self)@),
        ensures
            final(self).well_formed(),
            is_code(code@),
            !old(self)@.contains_key(code@),
            final(self)@ == old(self)@.insert(
                code@,
                new_session(host_addr@, cert_fingerprint@, now),
            ),
    {
        let draws = draw_codes(DRAWS);
        match self.open_first_free(&draws, host_addr, cert_fingerprint, now) {
            Some(code) => code,
            None => self.open_lowest_free(host_addr, cert_fingerprint, now),
        }
    }

    /// Opens a session under the code with the lowest number that no other session
    /// has.
    fn open_lowest_free(
        &mut self,
        host_addr: &String,
        cert_fingerprint: &String,
        now: u64,
    ) -> (code: String)
        requires
            old(self).well_formed(),
            some_code_free(old(self)@),
        ensures
            final(self).well_formed(),
            is_code(code@),
            !old(self)@.contains_key(code@),
            final(self)@ == old(self)@.insert(
                code@,
                new_session(host_addr@, cert_fingerprint@, now),
            ),
    {
        let ghost free = choose|c: Seq<char>| #[trigger] is_code(c) && !old(self)@.contains_key(c);
        let ghost number = lemma_code_has_number(free);
        let mut n: u64 = 0;
        loop
            invariant
                self.well_formed(),
                self@ == old(self)@,
                0 <= n <= number < CODE_COUNT,
                !old(self)@.contains_key(numbered_code(number)),
            decreases number - n,
        {
            let code = code_with_number(n);
            if self.open(&code, host_addr, cert_fingerprint, now) {
                return code;
            }
            n = n + 1;
        }
    }

    /// Lets a viewer at `viewer_addr` join the session `code`: gives the answer to
    /// the viewer, and the viewer's address if the host is to be told of it.
    pub fn join_session(&mut self, code: &String, viewer_addr: String, now: u64) -> (outcome: (
        Msg,
        Option<String>,
    ))
        requires
            old(self).well_formed(),
        ensures
            final(self).well_formed(),
            final(self)@ == joined(old(self)@, code@, now),
            outcome.0@ == join_answer(old(self)@, code@, now),
            outcome.0 matches Msg::HostReady { host_addr, cert_fingerprint } ==> host_addr@ == old(
                self,
            )@[code@].host_addr && cert_fingerprint@ == old(self)@[code@].cert_fingerprint,
            outcome.1 == if joinable(old(self)@, code@, now) {
                Some(viewer_addr)
            } else {
                None
            },
    {
        let ghost before = self.entries@;
        match self.find(code) {
            None => {
                (not_found_reply(code), None)
            },
            Some(i) => {
                proof {
                    lemma_in_table(before, i as int);
                }
                if !self.entries[i].waiting || !is_alive(self.entries[i].created_at, now) {
                    return (not_found_reply(code), None);
                }
                let host_addr = self.entries[i].host_addr.clone();
                let cert_fingerprint = self.entries[i].cert_fingerprint.clone();
                let session = Session {
                    code: self.entries[i].code.clone(),
                    host_addr: host_addr.clone(),
                    cert_fingerprint: cert_fingerprint.clone(),
                    waiting: false,
                    created_at: self.entries[i].created_at,
                };
                self.entries.set(i, session);
                proof {
                    let after = self.entries@;
                    let table = joined(table_of(before), code@, now);
                    assert forall|j: int, k: int| 0 <= j < k < after.len() implies (
                    #[trigger] after[j]).code@ != (#[trigger] after[k]).code@ by {
                        assert(before[j].code@ != before[k].code@);
                    }
                    assert forall|j: int| 0 <= j < after.len() implies table.contains_key(
                        (#[trigger] after[j]).code@,
                    ) && table[after[j].code@] == after[j].info() by {
                        lemma_in_table(before, j);
                        if j != i {
                            assert(before[j].code@ != before[i as int].code@);
                        }
                    }
                    assert forall|c: Seq<char>| #[trigger] table.contains_key(c) implies has_code(
                        after,
                        c,
                    ) by {
                        let j = place_of(before, c);
                        assert(before[j].code@ == c);
                        assert(after[j].code@ == c);
                    }
                    lemma_table_is(after, table);
                }
                (Msg::HostReady { host_addr, cert_fingerprint }, Some(viewer_addr))
            },
        }
    }

    /// Ends the session `code`, once its host's wait is over.
    pub fn end_session(&mut self, code: &String)
        requires
            old(self).well_formed(),
        ensures
            final(self).well_formed(),
            final(self)@ == old(self)@.remove(code@),
    {
        let ghost before = self.entries@;
        match self.find(code) {
            None => {
                assert(table_of(before) =~= table_of(before).remove(code@));
            },
            Some(i) => {
                let _ = self.entries.remove(i);
                proof {
                    let after = self.entries@;
                    let table = table_of(before).remove(code@);
                    assert(after == before.remove(i as int));
                    assert forall|j: int| 0 <= j < after.len() implies #[trigger] after[j]
                        == before[if j < i {
                        j
                    } else {
                        j + 1
                    }] by {}
                    assert forall|j: int| 0 <= j < after.len() implies table.contains_key(
                        (#[trigger] after[j]).code@,
                    ) && table[after[j].code@] == after[j].info() by {
                        let k = if j < i {
                            j
                        } else {
                            j + 1
                        };
                        lemma_in_table(before, k);
                        assert(before[k].code@ != before[i as int].code@);
                    }
                    assert forall|c: Seq<char>| #[trigger] table.contains_key(c) implies has_code(
                        after,
                        c,
                    ) by {
                        let k = place_of(before, c);
                        assert(before[k].code@ == c && k != i);
                        let j = if k < i {
                            k
                        } else {
                            k - 1
                        };
                        assert(after[j].code@ == c);
                    }
                    lemma_table_is(after, table);
                }
            },
        }
    }

    /// Removes the sessions that are five minutes old or older.
    pub fn cleanup(&mut self, now: u64)
        requires
            old(self).well_formed(),
        ensures
            final(self).well_formed(),
            final(self)@ == cleaned(old(self)@, now),
            forall|code: Seq<char>|
                final(self)@.contains_key(code) <==> #[trigger] old(self)@.contains_key(code) && now
                    - old(self)@[code].created_at < SESSION_LIFETIME,
    {
        let ghost before = self.entries@;
        let mut i: usize = 0;
        while i < self.entries.len()
            invariant
                i <= self.entries@.len(),
                distinct_codes(before),
                before == old(self).entries@,
                distinct_codes(self.entries@),
                forall|j: int| 0 <= j < i ==> alive((#[trigger] self.entries@[j]).info(), now),
                forall|j: int|
                    0 <= j < self.entries@.len() ==> before.contains(#[trigger] self.entries@[j]),
                forall|k: int|
                    0 <= k < before.len() && alive((#[trigger] before[k]).info(), now)
                        ==> self.entries@.contains(before[k]),
            decreases self.entries@.len() - i,
        {
            if is_alive(self.entries[i].created_at, now) {
                i = i + 1;
            } else {
                let ghost entries = self.entries@;
                let _ = self.entries.remove(i);
                proof {
                    let rest = self.entries@;
                    assert forall|j: int| 0 <= j < rest.len() implies #[trigger] rest[j]
                        == entries[if j < i {
                        j
                    } else {
                        j + 1
                    }] by {}
                    assert forall|k: int|
                        0 <= k < before.len() && alive(
                            (#[trigger] before[k]).info(),
                            now,
                        ) implies rest.contains(before[k]) by {
                        let j = choose|j: int|
                            0 <= j < entries.len() && entries[j] == before[k];
                        assert(j != i);
                        assert(rest[if j < i {
                            j
                        } else {
                            j - 1
                        }] == before[k]);
                    }
                }
            }
        }
        proof {
            let after = self.entries@;
            let table = cleaned(table_of(before), now);
            assert forall|j: int| 0 <= j < after.len() implies table.contains_key(
                (#[trigger] after[j]).code@,
            ) && table[after[j].code@] == after[j].info() by {
                assert(before.contains(after[j]));
                let k = choose|k: int| 0 <= k < before.len() && before[k] == after[j];
                lemma_in_table(before, k);
            }
            assert forall|c: Seq<char>| #[trigger] table.contains_key(c) implies has_code(
                after,
                c,
            ) by {
                let k = place_of(before, c);
                assert(before[k].code@ == c);
                assert(after.contains(before[k]));
                let j = choose|j: int| 0 <= j < after.len() && after[j] == before[k];
                assert(after[j].code@ == c);
            }
            lemma_table_is(after, table);
        }
    }
}

/// The answer to a host whose session was opened: its code.
pub fn created_reply(code: &String) -> (msg: Msg)
    ensures
        msg@ == (MsgView::Code { code: code@ }),
        msg matches Msg::Code { code: told } && told@ == code@,
{
    Msg::Code { code: code.clone() }
}

/// The message to a host whose wait is over: of the viewer that joined, if one did.
pub fn viewer_notice(viewer: Option<String>) -> (message: Option<Msg>)
    ensures
        match viewer {
            Some(viewer_addr) => {
                &&& message matches Some(msg)
                &&& msg@ == (MsgView::ViewerReady { viewer_addr: viewer_addr@ })
                &&& msg matches Msg::ViewerReady { viewer_addr: told }
                &&& told@ == viewer_addr@
            },
            None => message is None,
        },
{
    match viewer {
        Some(viewer_addr) => Some(Msg::ViewerReady { viewer_addr }),
        None => None,
    }
}

/// Where the server asks for a key, nothing is served before that key was
/// presented: a first message is let through exactly if it presents it.
pub proof fn lemma_key_before_service(required: Seq<char>, incoming: IncomingView)
    ensures
        ({
            let locked = access_for(Some(required));
            let presents = incoming == IncomingView::Text(Some(MsgView::Auth { key: required }));
            &&& create_decision(locked, incoming) is Continue <==> presents
            &&& join_decision(locked, incoming) is Continue <==> presents
            &&& !(create_decision(locked, incoming) is Create)
            &&& !(join_decision(locked, incoming) is Join)
        }),
{
}

/// A request that carries a tag which is not its own under the key that was presented
/// is refused, and asks for nothing.
pub proof fn lemma_altered_request_refused(
    key: Seq<char>,
    first: Seq<char>,
    second: Seq<char>,
    tag: Seq<char>,
)
    ensures
        tag != tag_of(key, CREATE_KIND, first, second) ==> create_decision(
            AccessView::Granted(key),
            IncomingView::Text(
                Some(
                    MsgView::Create { host_addr: first, cert_fingerprint: second, tag: Some(tag) },
                ),
            ),
        ) == refused("hmac invalido"@),
        tag != tag_of(key, JOIN_KIND, first, second) ==> join_decision(
            AccessView::Granted(key),
            IncomingView::Text(
                Some(MsgView::Join { code: first, viewer_addr: second, tag: Some(tag) }),
            ),
        ) == refused("hmac invalido"@),
{
}

/// A viewer that joins a session in time, as the first one, learns the host's
/// address and fingerprint, both as the host gave them.
pub proof fn lemma_join_finds_host(
    table: SessionTable,
    code: Seq<char>,
    host_addr: Seq<char>,
    cert_fingerprint: Seq<char>,
    opened_at: u64,
    now: u64,
)
    requires
        now - opened_at < SESSION_LIFETIME,
    ensures
        ({
            let opened = table.insert(code, new_session(host_addr, cert_fingerprint, opened_at));
            &&& joinable(opened, code, now)
            &&& join_answer(opened, code, now) == (MsgView::HostReady {
                host_addr,
                cert_fingerprint,
            })
        }),
{
}

/// A code is good for one viewer: once a viewer has tried it, whether that one was
/// let in or not, it is refused at every later time, and the host hears of no other
/// viewer.
pub proof fn lemma_code_is_good_once(table: SessionTable, code: Seq<char>, now: u64, later: u64)
    requires
        now <= later,
    ensures
        !joinable(joined(table, code, now), code, later),
        join_answer(joined(table, code, now), code, later) == not_found(code),
        joined(joined(table, code, now), code, later) == joined(table, code, now),
{
}

/// After its session has ended a code finds nothing: a viewer is answered that
/// the session does not exist.
pub proof fn lemma_ended_code_is_refused(table: SessionTable, code: Seq<char>, now: u64)
    ensures
        join_answer(table.remove(code), code, now) == not_found(code),
        !joinable(table.remove(code), code, now),
{
}

/// A code expires: five minutes or more after its session was opened it is refused,
/// whether or not old sessions were removed, and before that removing old sessions
/// makes no difference to it.
pub proof fn lemma_code_expires(table: SessionTable, code: Seq<char>, now: u64)
    ensures
        table.contains_key(code) && now - table[code].created_at >= SESSION_LIFETIME
            ==> join_answer(table, code, now) == not_found(code),
        join_answer(cleaned(table, now), code, now) == join_answer(table, code, now),
        joinable(cleaned(table, now), code, now) == joinable(table, code, now),
{
}

/// What happens to one session leaves the others as they are.
pub proof fn lemma_other_sessions_untouched(
    table: SessionTable,
    code: Seq<char>,
    session: SessionInfo,
    other: Seq<char>,
    now: u64,
    later: u64,
)
    requires
        other != code,
    ensures
        join_answer(table.insert(code, session), other, later) == join_answer(table, other, later),
        join_answer(joined(table, code, now), other, later) == join_answer(table, other, later),
        join_answer(table.remove(code), other, later) == join_answer(table, other, later),
        joinable(table.insert(code, session), other, later) == joinable(table, other, later),
        joinable(joined(table, code, now), other, later) == joinable(table, other, later),
        joinable(table.remove(code), other, later) == joinable(table, other, later),
{
}

/// A session that is opened and ended, with or without a viewer between, leaves the
/// table as it was.
pub proof fn lemma_open_then_end(
    table: SessionTable,
    code: Seq<char>,
    session: SessionInfo,
    now: u64,
)
    requires
        !table.contains_key(code),
    ensures
        table.insert(code, session).remove(code) == table,
        joined(table.insert(code, session), code, now).remove(code) == table,
{
    assert(table.insert(code, session).remove(code) =~= table);
    assert(joined(table.insert(code, session), code, now).remove(code) =~= table);
}

/// Removing old sessions twice at one time removes no more than once, and a
/// session that is removed stays removed at every later time.
pub proof fn lemma_cleanup_repeats(table: SessionTable, now: u64, later: u64)
    requires
        now <= later,
    ensures
        cleaned(cleaned(table, now), later) == cleaned(table, later),
{
    assert(cleaned(cleaned(table, now), later) =~= cleaned(table, later));
}

/// Removing old sessions keeps exactly those that are less than five minutes old, each
/// as it was, whether or not a viewer has joined it.
pub proof fn lemma_cleanup_keeps_young(table: SessionTable, code: Seq<char>, now: u64)
    ensures
        cleaned(table, now).contains_key(code) <==> table.contains_key(code) && now
            - table[code].created_at < SESSION_LIFETIME,
        cleaned(table, now).contains_key(code) ==> cleaned(table, now)[code] == table[code],
{
}

/// A session that is opened holds what the host gave, waits for a viewer, and is gone
/// with the first cleanup five minutes later; its code is refused from then on.
pub proof fn lemma_new_session_expires(
    table: SessionTable,
    code: Seq<char>,
    host_addr: Seq<char>,
    cert_fingerprint: Seq<char>,
    opened_at: u64,
    now: u64,
)
    ensures
        ({
            let session = new_session(host_addr, cert_fingerprint, opened_at);
            let opened = table.insert(code, session);
            &&& session.host_addr == host_addr
            &&& session.cert_fingerprint == cert_fingerprint
            &&& session.waiting
            &&& session.created_at == opened_at
            &&& now - opened_at >= SESSION_LIFETIME ==> !joinable(opened, code, now)
                && !cleaned(opened, now).contains_key(code)
            &&& now - opened_at < SESSION_LIFETIME ==> joinable(opened, code, now)
                && cleaned(opened, now).contains_key(code)
        }),
{
}

/// A viewer that joins changes one thing: the host of that session waits no more.  Its
/// address, its fingerprint and its age stay, and so do all other sessions; a viewer
/// that cannot join changes nothing.
pub proof fn lemma_join_changes_waiting_only(
    table: SessionTable,
    code: Seq<char>,
    other: Seq<char>,
    now: u64,
)
    ensures
        joinable(table, code, now) <==> table.contains_key(code) && table[code].waiting && now
            - table[code].created_at < SESSION_LIFETIME,
        joined(table, code, now).contains_key(other) <==> table.contains_key(other),
        other != code && table.contains_key(other) ==> joined(table, code, now)[other]
            == table[other],
        !joinable(table, code, now) ==> joined(table, code, now) == table,
        joinable(table, code, now) ==> {
            let session = joined(table, code, now)[code];
            &&& !session.waiting
            &&& session.host_addr == table[code].host_addr
            &&& session.cert_fingerprint == table[code].cert_fingerprint
            &&& session.created_at == table[code].created_at
        },
{
}

/// A request that carries no tag, or its own, is granted with its fields as they are:
/// after a key, and on a server that asks for none also without one if there is no tag.
pub proof fn lemma_request_granted(
    key: Seq<char>,
    first: Seq<char>,
    second: Seq<char>,
    tag: Option<Seq<char>>,
)
    requires
        tag is None || tag == Some(tag_of(key, CREATE_KIND, first, second)) || tag == Some(
            tag_of(key, JOIN_KIND, first, second),
        ),
    ensures
        ({
            let create = IncomingView::Text(
                Some(MsgView::Create { host_addr: first, cert_fingerprint: second, tag }),
            );
            let join = IncomingView::Text(
                Some(MsgView::Join { code: first, viewer_addr: second, tag }),
            );
            let created = RequestView::Create { host_addr: first, cert_fingerprint: second };
            let joins = RequestView::Join { viewer_addr: second };
            &&& tag is None ==> create_decision(AccessView::Granted(key), create) == created
            &&& tag is None ==> create_decision(access_for(None), create) == created
            &&& tag is None ==> join_decision(AccessView::Granted(key), join) == joins
            &&& tag is None ==> join_decision(access_for(None), join) == joins
            &&& tag == Some(tag_of(key, CREATE_KIND, first, second)) ==> create_decision(
                AccessView::Granted(key),
                create,
            ) == created
            &&& tag == Some(tag_of(key, JOIN_KIND, first, second)) ==> join_decision(
                AccessView::Granted(key),
                join,
            ) == joins
        }),
{
}

/// A key is taken as it is presented: by a server that asks for none, whatever it is,
/// and by one that asks for it; any other key is refused there.
pub proof fn lemma_key_taken(required: Seq<char>, key: Seq<char>)
    ensures
        ({
            let presents = IncomingView::Text(Some(MsgView::Auth { key }));
            let taken = RequestView::Continue { key };
            let wrong = RequestView::Refuse(MsgView::Error { reason: "AUTH_KEY invalida"@ });
            &&& create_decision(access_for(None), presents) == taken
            &&& join_decision(access_for(None), presents) == taken
            &&& create_decision(access_for(Some(required)), presents) == if key == required {
                taken
            } else {
                wrong
            }
            &&& join_decision(access_for(Some(required)), presents) == if key == required {
                taken
            } else {
                wrong
            }
        }),
{
}

/// After its key a peer that asks for anything else than what it connected for is told
/// what was expected.
pub proof fn lemma_other_request_refused(key: Seq<char>, msg: Option<MsgView>)
    ensures
        !(msg matches Some(m) && m is Create) ==> create_decision(
            AccessView::Granted(key),
            IncomingView::Text(msg),
        ) == RequestView::Refuse(MsgView::Error { reason: "esperava {type:create}"@ }),
        !(msg matches Some(m) && m is Join) ==> join_decision(
            AccessView::Granted(key),
            IncomingView::Text(msg),
        ) == RequestView::Refuse(MsgView::Error { reason: "esperava {type:join}"@ }),
        create_decision(AccessView::Granted(key), IncomingView::Other) is Ignore,
        join_decision(AccessView::Granted(key), IncomingView::Other) is Ignore,
{
}

/// The first free draw is free, and every draw before it is taken.
pub proof fn lemma_first_free_draw(table: SessionTable, draws: Seq<String>, k: int, earlier: int)
    requires
        is_first_free(table, draws, k),
        0 <= earlier < k,
    ensures
        k < draws.len(),
        !table.contains_key(draws[k]@),
        table.contains_key(draws[earlier]@),
{
}

} // verus!
