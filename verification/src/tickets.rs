//! Expiring, file-scoped media tickets of the companion server.
use vstd::prelude::*;
use crate::server::{ErrorCode, ServiceError};
use crate::text::{chars_of, decimal, decimal_chars, extend_chars, string_of};

verus! {

/// How long a media ticket stays valid: six hours, in milliseconds.
pub const TICKET_LIFETIME_MS: u64 = 21_600_000;

/// The most tickets the server holds at once.
pub const TICKET_CAPACITY: usize = 256;

/// The furthest resume position a ticket may prepare: seven days, in milliseconds.
pub const MAX_RESUME_MS: u64 = 604_800_000;

/// What the client receives for a new ticket: the paths it may stream from.
#[derive(Debug)]
pub struct MediaTicket {
    pub direct_path: String,
    pub transcode_path: String,
    pub token: String,
    pub expires_in_seconds: u64,
    pub transcode_start_ms: u64,
}

struct Ticket {
    token: String,
    torrent_id: String,
    file: usize,
    expires_ms: u64,
}

/// What a ticket grants: a torrent's file, until a moment of the server's monotonic clock.
pub type Grant = (Seq<char>, usize, u64);

spec fn grant_of(t: Ticket) -> Grant {
    (t.torrent_id@, t.file, t.expires_ms)
}

spec fn tickets_map(s: Seq<Ticket>) -> Map<Seq<char>, Grant>
    decreases s.len(),
{
    if s.len() == 0 {
        Map::empty()
    } else {
        tickets_map(s.drop_last()).insert(s.last().token@, grant_of(s.last()))
    }
}

spec fn distinct_tokens(s: Seq<Ticket>) -> bool {
    forall|i: int, j: int| 0 <= i < s.len() && 0 <= j < s.len() && i != j ==> s[i].token@ != s[j].token@
}

proof fn lemma_map_contains(s: Seq<Ticket>, k: Seq<char>)
    ensures
        tickets_map(s).contains_key(k) <==> exists|i: int| 0 <= i < s.len() && #[trigger] s[i].token@ == k,
    decreases s.len(),
{
    if s.len() > 0 {
        lemma_map_contains(s.drop_last(), k);
        if tickets_map(s.drop_last()).contains_key(k) {
            let i = choose|i: int| 0 <= i < s.drop_last().len() && #[trigger] s.drop_last()[i].token@ == k;
            assert(s[i].token@ == k);
        }
        if exists|i: int| 0 <= i < s.len() && #[trigger] s[i].token@ == k {
            let i = choose|i: int| 0 <= i < s.len() && #[trigger] s[i].token@ == k;
            if i < s.len() - 1 {
                assert(s.drop_last()[i].token@ == k);
            }
        }
    }
}

proof fn lemma_map_value(s: Seq<Ticket>, i: int)
    requires
        distinct_tokens(s),
        0 <= i < s.len(),
    ensures
        tickets_map(s).contains_key(s[i].token@),
        tickets_map(s)[s[i].token@] == grant_of(s[i]),
    decreases s.len(),
{
    if i < s.len() - 1 {
        let d = s.drop_last();
        assert(d[i] == s[i]);
        assert(distinct_tokens(d)) by {
            assert forall|a: int, b: int| 0 <= a < d.len() && 0 <= b < d.len() && a != b implies d[a].token@ != d[b].token@ by {
                assert(d[a] == s[a] && d[b] == s[b]);
            }
        }
        lemma_map_value(d, i);
        assert(s.last().token@ != s[i].token@);
    }
}

proof fn lemma_map_len(s: Seq<Ticket>)
    requires
        distinct_tokens(s),
    ensures
        tickets_map(s).dom().finite(),
        tickets_map(s).dom().len() == s.len(),
    decreases s.len(),
{
    if s.len() > 0 {
        let d = s.drop_last();
        assert(distinct_tokens(d)) by {
            assert forall|a: int, b: int| 0 <= a < d.len() && 0 <= b < d.len() && a != b implies d[a].token@ != d[b].token@ by {
                assert(d[a] == s[a] && d[b] == s[b]);
            }
        }
        lemma_map_len(d);
        lemma_map_contains(d, s.last().token@);
        if tickets_map(d).contains_key(s.last().token@) {
            let i = choose|i: int| 0 <= i < d.len() && #[trigger] d[i].token@ == s.last().token@;
            assert(d[i] == s[i]);
        }
    }
}

enum Keep {
    Live(u64),
    OtherThan(String),
}

spec fn keeps(rule: Keep, g: Grant) -> bool {
    match rule {
        Keep::Live(now) => g.2 > now,
        Keep::OtherThan(id) => g.0 != id@,
    }
}

spec fn kept_by(m: Map<Seq<char>, Grant>, rule: Keep) -> Map<Seq<char>, Grant> {
    Map::new(|k: Seq<char>| m.contains_key(k) && keeps(rule, m[k]), |k: Seq<char>| m[k])
}

impl Keep {
    fn keeps_ticket(&self, t: &Ticket) -> (b: bool)
        ensures
            b == keeps(*self, grant_of(*t)),
    {
        match self {
            Keep::Live(now) => t.expires_ms > *now,
            Keep::OtherThan(id) => t.torrent_id != *id,
        }
    }
}

/// The tickets of `m` still valid at `now`.
pub open spec fn live_tickets(m: Map<Seq<char>, Grant>, now: u64) -> Map<Seq<char>, Grant> {
    Map::new(|k: Seq<char>| m.contains_key(k) && m[k].2 > now, |k: Seq<char>| m[k])
}

/// The tickets of `m` that do not belong to torrent `id`.
pub open spec fn without_torrent(m: Map<Seq<char>, Grant>, id: Seq<char>) -> Map<Seq<char>, Grant> {
    Map::new(|k: Seq<char>| m.contains_key(k) && m[k].0 != id, |k: Seq<char>| m[k])
}

/// `n` written with at least three digits, as `{:03}` formats it.
pub open spec fn three_digits(n: nat) -> Seq<char> {
    if n < 10 {
        "00"@ + decimal(n)
    } else if n < 100 {
        "0"@ + decimal(n)
    } else {
        decimal(n)
    }
}

/// The transcode path of a ticket, starting at the resume position in seconds with
/// millisecond precision when there is one.
pub open spec fn transcode_path_of(token: Seq<char>, resume_ms: nat) -> Seq<char> {
    let base = "/media/"@ + token + "/transcode"@;
    if resume_ms > 0 {
        base + "?start="@ + decimal(resume_ms / 1000) + "."@ + three_digits(resume_ms % 1000)
    } else {
        base
    }
}

/// The tickets the server has issued and not yet dropped.
pub struct TicketStore {
    tickets: Vec<Ticket>,
}

impl View for TicketStore {
    type V = Map<Seq<char>, Grant>;

    closed spec fn view(&self) -> Map<Seq<char>, Grant> {
        tickets_map(self.tickets@)
    }
}

fn three_digit_chars(n: u64) -> (r: Vec<char>)
    ensures
        r@ == three_digits(n as nat),
{
    let mut r: Vec<char> = if n < 10 {
        chars_of("00")
    } else if n < 100 {
        chars_of("0")
    } else {
        Vec::new()
    };
    extend_chars(&mut r, decimal_chars(n).as_slice());
    r
}

/// The transcode path of a new ticket.
pub fn transcode_path(token: &str, resume_ms: u64) -> (r: String)
    ensures
        r@ == transcode_path_of(token@, resume_ms as nat),
{
    let mut out = chars_of("/media/");
    extend_chars(&mut out, chars_of(token).as_slice());
    extend_chars(&mut out, chars_of("/transcode").as_slice());
    if resume_ms > 0 {
        extend_chars(&mut out, chars_of("?start=").as_slice());
        extend_chars(&mut out, decimal_chars(resume_ms / 1000).as_slice());
        extend_chars(&mut out, chars_of(".").as_slice());
        extend_chars(&mut out, three_digit_chars(resume_ms % 1000).as_slice());
    }
    string_of(out.as_slice())
}

impl TicketStore {
    #[verifier::type_invariant]
    spec fn well_formed(self) -> bool {
        &&& distinct_tokens(self.tickets@)
        &&& self.tickets@.len() <= TICKET_CAPACITY
    }

    /// An empty store.
    pub fn new() -> (s: TicketStore)
        ensures
            s@ == Map::<Seq<char>, Grant>::empty(),
    {
        TicketStore { tickets: Vec::new() }
    }

    /// How many tickets the store holds; never more than `TICKET_CAPACITY`.
    pub fn len(&self) -> (n: usize)
        ensures
            self@.dom().finite(),
            n == self@.dom().len(),
            n <= TICKET_CAPACITY,
    {
        proof {
            use_type_invariant(self);
            lemma_map_len(self.tickets@);
        }
        self.tickets.len()
    }

    /// Keep only the tickets that `rule` keeps.
    fn retain_where(&mut self, rule: &Keep)
        ensures
            final(self)@ == kept_by(old(self)@, *rule),
    {
        proof {
            use_type_invariant(&*self);
        }
        let ghost s = self.tickets@;
        let mut kept: Vec<Ticket> = Vec::new();
        let mut rest: Vec<Ticket> = Vec::new();
        std::mem::swap(&mut rest, &mut self.tickets);
        let ghost mut idx: Seq<int> = Seq::empty();
        let mut taken: usize = 0;
        while rest.len() > 0
            invariant
                distinct_tokens(s),
                s.len() <= TICKET_CAPACITY,
                taken + rest@.len() == s.len(),
                rest@ == s.subrange(taken as int, s.len() as int),
                idx.len() == kept@.len(),
                idx.len() <= taken,
                forall|j: int| 0 <= j < idx.len() ==> 0 <= #[trigger] idx[j] < taken && kept@[j] == s[idx[j]]
                    && keeps(*rule, grant_of(s[idx[j]])),
                forall|a: int, b: int| 0 <= a < b < idx.len() ==> idx[a] < idx[b],
                forall|i: int| 0 <= i < taken && #[trigger] keeps(*rule, grant_of(s[i])) ==> exists|j: int| 0 <= j < idx.len() && idx[j] == i,
            decreases rest@.len(),
        {
            let ghost old_idx = idx;
            let t = rest.remove(0);
            assert(t == s[taken as int]);
            if rule.keeps_ticket(&t) {
                kept.push(t);
                proof {
                    idx = idx.push(taken as int);
                }
            }
            taken = taken + 1;
            assert(rest@ =~= s.subrange(taken as int, s.len() as int));
            assert forall|i: int| 0 <= i < taken && #[trigger] keeps(*rule, grant_of(s[i]))
                implies exists|j: int| 0 <= j < idx.len() && idx[j] == i by {
                if i == taken - 1 {
                    assert(idx[idx.len() - 1] == i);
                } else {
                    let j = choose|j: int| 0 <= j < old_idx.len() && old_idx[j] == i;
                    assert(idx[j] == i);
                }
            }
        }
        assert(distinct_tokens(kept@)) by {
            assert forall|a: int, b: int| 0 <= a < kept@.len() && 0 <= b < kept@.len() && a != b
                implies kept@[a].token@ != kept@[b].token@ by {
                assert(idx[a] != idx[b]) by {
                    if a < b { assert(idx[a] < idx[b]); } else { assert(idx[b] < idx[a]); }
                }
            }
        }
        proof {
            let m = tickets_map(s);
            let n = tickets_map(kept@);
            assert forall|k: Seq<char>| n.contains_key(k) <==> kept_by(m, *rule).contains_key(k) by {
                lemma_map_contains(kept@, k);
                lemma_map_contains(s, k);
                if n.contains_key(k) {
                    let j = choose|j: int| 0 <= j < kept@.len() && #[trigger] kept@[j].token@ == k;
                    lemma_map_value(s, idx[j]);
                }
                if kept_by(m, *rule).contains_key(k) {
                    let i = choose|i: int| 0 <= i < s.len() && #[trigger] s[i].token@ == k;
                    lemma_map_value(s, i);
                    assert(keeps(*rule, grant_of(s[i])));
                    let j = choose|j: int| 0 <= j < idx.len() && idx[j] == i;
                    assert(kept@[j].token@ == k);
                }
            }
            assert forall|k: Seq<char>| n.contains_key(k) implies n[k] == kept_by(m, *rule)[k] by {
                lemma_map_contains(kept@, k);
                let j = choose|j: int| 0 <= j < kept@.len() && #[trigger] kept@[j].token@ == k;
                lemma_map_value(kept@, j);
                lemma_map_value(s, idx[j]);
            }
            assert(n =~= kept_by(m, *rule));
        }
        self.tickets = kept;
    }

    /// Drop the tickets that have expired at `now`.
    fn retain_live(&mut self, now: u64)
        ensures
            final(self)@ == live_tickets(old(self)@, now),
    {
        let rule = Keep::Live(now);
        self.retain_where(&rule);
        assert(kept_by(old(self)@, rule) =~= live_tickets(old(self)@, now));
    }

    /// Forget every ticket of a torrent that was removed.
    pub fn forget_torrent(&mut self, torrent_id: &String)
        ensures
            final(self)@ == without_torrent(old(self)@, torrent_id@),
    {
        let rule = Keep::OtherThan(torrent_id.clone());
        self.retain_where(&rule);
        assert(kept_by(old(self)@, rule) =~= without_torrent(old(self)@, torrent_id@));
    }

    fn position(&self, token: &String) -> (r: Option<usize>)
        ensures
            match r {
                Some(i) => i < self.tickets@.len() && self.tickets@[i as int].token@ == token@,
                None => !self@.contains_key(token@),
            },
    {
        let mut i: usize = 0;
        while i < self.tickets.len()
            invariant
                i <= self.tickets@.len(),
                forall|j: int| 0 <= j < i ==> #[trigger] self.tickets@[j].token@ != token@,
            decreases self.tickets@.len() - i,
        {
            if self.tickets[i].token == *token {
                return Some(i);
            }
            i = i + 1;
        }
        proof {
            lemma_map_contains(self.tickets@, token@);
        }
        None
    }

    /// Look up a ticket at `now`, first dropping every expired one.
    pub fn lookup(&mut self, token: &String, now: u64) -> (r: Result<(String, usize), ServiceError>)
        ensures
            final(self)@ == live_tickets(old(self)@, now),
            match r {
                Ok((torrent, file)) => live_tickets(old(self)@, now).contains_key(token@)
                    && live_tickets(old(self)@, now)[token@].0 == torrent@
                    && live_tickets(old(self)@, now)[token@].1 == file,
                Err(e) => !live_tickets(old(self)@, now).contains_key(token@) && e.code == ErrorCode::Forbidden
                    && e.message@ == "media ticket expired or invalid"@,
            },
    {
        self.retain_live(now);
        proof {
            use_type_invariant(&*self);
        }
        match self.position(token) {
            Some(i) => {
                proof {
                    lemma_map_value(self.tickets@, i as int);
                }
                Ok((self.tickets[i].torrent_id.clone(), self.tickets[i].file))
            },
            None => Err(ServiceError {
                code: ErrorCode::Forbidden,
                message: string_of(chars_of("media ticket expired or invalid").as_slice()),
            }),
        }
    }

    /// Revoke a ticket for future requests.
    pub fn revoke(&mut self, token: &String)
        ensures
            final(self)@ == old(self)@.remove(token@),
    {
        proof {
            use_type_invariant(&*self);
        }
        match self.position(token) {
            Some(i) => {
                let ghost s = self.tickets@;
                let mut list: Vec<Ticket> = Vec::new();
                std::mem::swap(&mut list, &mut self.tickets);
                list.remove(i);
                proof {
                    let r = s.remove(i as int);
                    assert(list@ == r);
                    assert(distinct_tokens(r)) by {
                        assert forall|a: int, b: int| 0 <= a < r.len() && 0 <= b < r.len() && a != b
                            implies r[a].token@ != r[b].token@ by {
                            let sa = if a < i { a } else { a + 1 };
                            let sb = if b < i { b } else { b + 1 };
                            assert(r[a] == s[sa] && r[b] == s[sb]);
                        }
                    }
                    let m = tickets_map(s);
                    let n = tickets_map(r);
                    assert forall|k: Seq<char>| n.contains_key(k) <==> m.remove(token@).contains_key(k) by {
                        lemma_map_contains(r, k);
                        lemma_map_contains(s, k);
                        if n.contains_key(k) {
                            let j = choose|j: int| 0 <= j < r.len() && #[trigger] r[j].token@ == k;
                            let sj = if j < i { j } else { j + 1 };
                            assert(r[j] == s[sj]);
                        }
                        if m.remove(token@).contains_key(k) {
                            let q = choose|q: int| 0 <= q < s.len() && #[trigger] s[q].token@ == k;
                            assert(q != i);
                            let rq = if q < i { q } else { q - 1 };
                            assert(r[rq] == s[q]);
                        }
                    }
                    assert forall|k: Seq<char>| n.contains_key(k) implies n[k] == m.remove(token@)[k] by {
                        lemma_map_contains(r, k);
                        let j = choose|j: int| 0 <= j < r.len() && #[trigger] r[j].token@ == k;
                        let sj = if j < i { j } else { j + 1 };
                        assert(r[j] == s[sj]);
                        lemma_map_value(r, j);
                        lemma_map_value(s, sj);
                    }
                    assert(n =~= m.remove(token@));
                }
                self.tickets = list;
            },
            None => {
                assert(self@.remove(token@) =~= self@);
            },
        }
    }
    /// Issue a ticket for `file` of torrent `torrent_id`, under the fresh `token`, at `now`
    /// on the server's monotonic clock in milliseconds. `file_known` tells whether the torrent
    /// lists that file. Expired tickets are dropped first; the new one lives six hours.
    pub fn issue(
        &mut self,
        torrent_id: &String,
        file: usize,
        file_known: bool,
        resume_ms: u64,
        token: String,
        now: u64,
    ) -> (r: Result<MediaTicket, ServiceError>)
        requires
            now + TICKET_LIFETIME_MS <= u64::MAX,
        ensures
            !file_known ==> final(self)@ == old(self)@ && (r matches Err(e) && e.code == ErrorCode::NotFound
                && e.message@ == "torrent file not found"@),
            file_known && resume_ms > MAX_RESUME_MS ==> final(self)@ == old(self)@ && (r matches Err(e)
                && e.code == ErrorCode::InvalidInput
                && e.message@ == "companion preparation supports resume positions up to seven days"@),
            file_known && resume_ms <= MAX_RESUME_MS ==> {
                let live = live_tickets(old(self)@, now);
                &&& live.dom().finite()
                &&& live.dom().len() >= TICKET_CAPACITY ==> final(self)@ == live && (r matches Err(e)
                    && e.code == ErrorCode::Busy && e.message@ == "media ticket limit reached"@)
                &&& live.dom().len() < TICKET_CAPACITY ==> final(self)@ == live.insert(
                    token@,
                    (torrent_id@, file, (now + TICKET_LIFETIME_MS) as u64),
                ) && (r matches Ok(t) && t.token@ == token@
                    && t.direct_path@ == "/media/"@ + token@ + "/original"@
                    && t.transcode_path@ == transcode_path_of(token@, resume_ms as nat)
                    && t.expires_in_seconds == TICKET_LIFETIME_MS / 1000
                    && t.transcode_start_ms == resume_ms)
            },
    {
        if !file_known {
            return Err(ServiceError {
                code: ErrorCode::NotFound,
                message: string_of(chars_of("torrent file not found").as_slice()),
            });
        }
        if resume_ms > MAX_RESUME_MS {
            return Err(ServiceError {
                code: ErrorCode::InvalidInput,
                message: string_of(chars_of("companion preparation supports resume positions up to seven days").as_slice()),
            });
        }
        self.retain_live(now);
        if self.len() >= TICKET_CAPACITY {
            return Err(ServiceError {
                code: ErrorCode::Busy,
                message: string_of(chars_of("media ticket limit reached").as_slice()),
            });
        }
        let transcode = transcode_path(token.as_str(), resume_ms);
        let mut direct = chars_of("/media/");
        extend_chars(&mut direct, chars_of(token.as_str()).as_slice());
        extend_chars(&mut direct, chars_of("/original").as_slice());
        let ghost live = self@;
        self.revoke(&token);
        let ticket = Ticket {
            token: token.clone(),
            torrent_id: torrent_id.clone(),
            file,
            expires_ms: now + TICKET_LIFETIME_MS,
        };
        proof {
            use_type_invariant(&*self);
            lemma_map_contains(self.tickets@, token@);
            lemma_map_len(self.tickets@);
            lemma_map_len(self.tickets@);
            assert(self@.dom().len() <= live.dom().len()) by {
                vstd::set_lib::lemma_len_subset(self@.dom(), live.dom());
            }
        }
        let ghost before = self.tickets@;
        let mut list: Vec<Ticket> = Vec::new();
        std::mem::swap(&mut list, &mut self.tickets);
        list.push(ticket);
        proof {
            assert(list@.drop_last() =~= before);
            assert(distinct_tokens(list@)) by {
                assert forall|a: int, b: int| 0 <= a < list@.len() && 0 <= b < list@.len() && a != b
                    implies list@[a].token@ != list@[b].token@ by {
                    if a < before.len() && b < before.len() {
                        assert(list@[a] == before[a] && list@[b] == before[b]);
                    } else if a < before.len() {
                        assert(list@[a] == before[a]);
                    } else if b < before.len() {
                        assert(list@[b] == before[b]);
                    }
                }
            }
        }
        self.tickets = list;
        Ok(MediaTicket {
            direct_path: string_of(direct.as_slice()),
            transcode_path: transcode,
            token,
            expires_in_seconds: TICKET_LIFETIME_MS / 1000,
            transcode_start_ms: resume_ms,
        })
    }
}

/// A ticket issued at `issued` (the store then holds the earlier tickets still live, plus the
/// new one) is found by every lookup before its six hours run out, with the file it grants.
pub proof fn lemma_ticket_valid_until_expiry(
    m: Map<Seq<char>, Grant>,
    token: Seq<char>,
    torrent: Seq<char>,
    file: usize,
    issued: u64,
    later: u64,
)
    requires
        issued + TICKET_LIFETIME_MS <= u64::MAX,
        later < issued + TICKET_LIFETIME_MS,
    ensures
        ({
            let after = live_tickets(m, issued).insert(token, (torrent, file, (issued + TICKET_LIFETIME_MS) as u64));
            &&& live_tickets(after, later).contains_key(token)
            &&& live_tickets(after, later)[token] == (torrent, file, (issued + TICKET_LIFETIME_MS) as u64)
        }),
{
}

/// Once its six hours have run out, a ticket is never found again.
pub proof fn lemma_expired_ticket_refused(
    m: Map<Seq<char>, Grant>,
    token: Seq<char>,
    torrent: Seq<char>,
    file: usize,
    issued: u64,
    later: u64,
)
    requires
        issued + TICKET_LIFETIME_MS <= u64::MAX,
        later >= issued + TICKET_LIFETIME_MS,
    ensures
        !live_tickets(
            live_tickets(m, issued).insert(token, (torrent, file, (issued + TICKET_LIFETIME_MS) as u64)),
            later,
        ).contains_key(token),
{
}

/// A revoked ticket is refused at any later lookup.
pub proof fn lemma_revoked_ticket_refused(m: Map<Seq<char>, Grant>, token: Seq<char>, now: u64)
    ensures
        !live_tickets(m.remove(token), now).contains_key(token),
{
}

/// Dropping expired tickets never changes what a live ticket grants, and dropping the tickets
/// of a removed torrent keeps every ticket of other torrents.
pub proof fn lemma_cleanup_keeps_other_tickets(m: Map<Seq<char>, Grant>, now: u64, torrent: Seq<char>, token: Seq<char>)
    requires
        m.contains_key(token),
    ensures
        m[token].2 > now ==> live_tickets(m, now).contains_key(token) && live_tickets(m, now)[token] == m[token],
        m[token].0 != torrent ==> without_torrent(m, torrent).contains_key(token)
            && without_torrent(m, torrent)[token] == m[token],
        !(m[token].0 != torrent) ==> !without_torrent(m, torrent).contains_key(token),
{
}

} // verus!
