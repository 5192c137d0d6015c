//! The credential broker: a correlation table from single-use tokens to the
//! pending requests for a privileged secret, each with its own deadline.

use vstd::prelude::*;

verus! {

/// How long a request waits for its answer, in milliseconds.
pub const RESPONSE_TIMEOUT_MS: u64 = 120000;

/// Event that carries a credential request to the user interface.
pub const REQUEST_EVENT: &'static str = "sudo-password-request";

/// The deadline of a request registered at `now`.
pub open spec fn deadline_after(now: nat) -> nat {
    if now + RESPONSE_TIMEOUT_MS <= u64::MAX {
        (now + RESPONSE_TIMEOUT_MS) as nat
    } else {
        u64::MAX as nat
    }
}

/// A response for `token` at `now` resolves a pending request: the token is
/// registered and its deadline has not passed.
pub open spec fn resolves(table: Map<Seq<char>, nat>, token: Seq<char>, now: nat) -> bool {
    table.contains_key(token) && now < table[token]
}

/// The table after a response for `token` at `now`: the resolved request is
/// deregistered; any other response changes nothing.
pub open spec fn after_response(table: Map<Seq<char>, nat>, token: Seq<char>, now: nat) -> Map<
    Seq<char>,
    nat,
> {
    if resolves(table, token, now) {
        table.remove(token)
    } else {
        table
    }
}

/// The table after the requests whose deadline is at or before `now` time out.
pub open spec fn after_expiry(table: Map<Seq<char>, nat>, now: nat) -> Map<Seq<char>, nat> {
    Map::new(|k: Seq<char>| table.contains_key(k) && now < table[k], |k: Seq<char>| table[k])
}

/// Name of the event that carries the answer for `token`.
pub open spec fn response_event(token: Seq<char>) -> Seq<char> {
    "sudo-password-response-"@ + token
}

/// What JSON text decodes to as a string, when it is one.
pub uninterp spec fn json_string_value(text: Seq<char>) -> Option<Seq<char>>;

/// The secret carried by a response payload: the JSON string it holds, or the
/// empty secret when it holds none.
pub open spec fn payload_secret(payload: Seq<char>) -> Seq<char> {
    match json_string_value(payload) {
        Some(s) => s,
        None => seq![],
    }
}

/// Lower-case hexadecimal digit.
pub open spec fn is_lower_hex(c: char) -> bool {
    ('0' <= c && c <= '9') || ('a' <= c && c <= 'f')
}

/// The hyphenated lower-case form of a UUID.
pub open spec fn is_hyphenated_uuid(s: Seq<char>) -> bool {
    &&& s.len() == 36
    &&& forall|i: int|
        0 <= i < 36 ==> if i == 8 || i == 13 || i == 18 || i == 23 {
            #[trigger] s[i] == '-'
        } else {
            is_lower_hex(s[i])
        }
}

/// Relies on `uuid::Uuid::new_v4` and its `Display`: a random version-4 UUID,
/// written as 36 characters, lower-case hexadecimal digits in five groups
/// separated by hyphens.
#[verifier::external_body]
fn mint_token() -> (r: String)
    ensures
        is_hyphenated_uuid(r@),
{
    uuid::Uuid::new_v4().to_string()
}

/// Relies on `serde_json::from_str::<String>`: the string that JSON text holds,
/// `None` when the text is not a JSON string.
#[verifier::external_body]
fn decode_json_string(text: &str) -> (r: Option<String>)
    ensures
        match r {
            Some(s) => json_string_value(text@) == Some(s@),
            None => json_string_value(text@) is None,
        },
{
    serde_json::from_str::<String>(text).ok()
}

/// The secret carried by a response payload; a payload that is not a JSON
/// string gives the empty secret.
pub fn secret_from_payload(payload: &str) -> (r: String)
    ensures
        r@ == payload_secret(payload@),
{
    match decode_json_string(payload) {
        Some(s) => s,
        None => String::new(),
    }
}

/// Name of the event that carries the answer for `token`.
pub fn response_event_name(token: &str) -> (r: String)
    ensures
        r@ == response_event(token@),
{
    let mut s = String::from_str("sudo-password-response-");
    s.append(token);
    s
}

struct Waiter {
    token: String,
    deadline: u64,
}

/// Pending credential requests, each addressed by its own token. Tokens are
/// single-use: once registered, a token is never accepted again, even after
/// its request was answered, timed out or withdrawn.
pub struct CredentialBroker {
    waiters: Vec<Waiter>,
    table: Ghost<Map<Seq<char>, nat>>,
    issued: Vec<String>,
}

impl View for CredentialBroker {
    type V = Map<Seq<char>, nat>;

    closed spec fn view(&self) -> Map<Seq<char>, nat> {
        self.table@
    }
}

impl CredentialBroker {
    /// Every token ever registered with this broker.
    pub closed spec fn issued(&self) -> Set<Seq<char>> {
        Set::new(|k: Seq<char>| exists|i: int| 0 <= i < self.issued@.len() && (#[trigger] self.issued@[i])@ == k)
    }

    /// The waiters list and the table agree, one waiter per token, and every
    /// pending token was registered.
    pub closed spec fn wf(&self) -> bool {
        &&& forall|k: Seq<char>| #[trigger] self.table@.contains_key(k) ==> self.issued().contains(k)
        &&& forall|i: int|
            0 <= i < self.waiters@.len() ==> {
                let w = #[trigger] self.waiters@[i];
                self.table@.contains_key(w.token@) && self.table@[w.token@] == w.deadline
            }
        &&& forall|k: Seq<char>|
            #[trigger] self.table@.contains_key(k) ==> exists|i: int|
                0 <= i < self.waiters@.len() && (#[trigger] self.waiters@[i]).token@ == k
        &&& forall|i: int, j: int|
            0 <= i < j < self.waiters@.len() ==> (#[trigger] self.waiters@[i]).token@
                != (#[trigger] self.waiters@[j]).token@
    }

    /// A broker with no pending request.
    pub fn new() -> (r: Self)
        ensures
            r.wf(),
            r@ == Map::<Seq<char>, nat>::empty(),
            r.issued() == Set::<Seq<char>>::empty(),
    {
        let r = CredentialBroker { waiters: Vec::new(), table: Ghost(Map::empty()), issued: Vec::new() };
        assert(r.issued() =~= Set::<Seq<char>>::empty());
        r
    }

    fn was_issued(&self, token: &String) -> (r: bool)
        ensures
            r == self.issued().contains(token@),
    {
        let mut i: usize = 0;
        while i < self.issued.len()
            invariant
                i <= self.issued@.len(),
                forall|k: int| 0 <= k < i ==> (#[trigger] self.issued@[k])@ != token@,
            decreases self.issued@.len() - i,
        {
            if self.issued[i] == *token {
                assert(self.issued@[i as int]@ == token@);
                return true;
            }
            i = i + 1;
        }
        false
    }

    fn find(&self, token: &String) -> (r: Option<usize>)
        requires
            self.wf(),
        ensures
            match r {
                Some(i) => i < self.waiters@.len() && self.waiters@[i as int].token@ == token@,
                None => !self@.contains_key(token@),
            },
    {
        let mut i: usize = 0;
        while i < self.waiters.len()
            invariant
                i <= self.waiters@.len(),
                forall|k: int| 0 <= k < i ==> (#[trigger] self.waiters@[k]).token@ != token@,
            decreases self.waiters@.len() - i,
        {
            if self.waiters[i].token == *token {
                return Some(i);
            }
            i = i + 1;
        }
        None
    }

    /// Whether a request for `token` is pending.
    pub fn is_pending(&self, token: &str) -> (r: bool)
        requires
            self.wf(),
        ensures
            r == self@.contains_key(token@),
    {
        let t = String::from_str(token);
        match self.find(&t) {
            Some(_) => true,
            None => false,
        }
    }

    /// Registers a request for `token` made at `now`, waiting until
    /// `deadline_after(now)`. A token registered before, pending or not, is
    /// refused and nothing changes.
    pub fn register(&mut self, token: String, now: u64) -> (r: bool)
        requires
            old(self).wf(),
        ensures
            final(self).wf(),
            r == !old(self).issued().contains(token@),
            r ==> final(self)@ == old(self)@.insert(token@, deadline_after(now as nat)),
            r ==> final(self).issued() == old(self).issued().insert(token@),
            !r ==> final(self)@ == old(self)@ && final(self).issued() == old(self).issued(),
    {
        if self.was_issued(&token) {
            return false;
        }
        match self.find(&token) {
            Some(_) => false,
            None => {
                let deadline = now.saturating_add(RESPONSE_TIMEOUT_MS);
                let ghost t = token@;
                let ghost old_waiters = self.waiters@;
                let ghost old_issued = self.issued();
                let ghost old_issued_vec = self.issued@;
                self.issued.push(token.clone());
                self.waiters.push(Waiter { token, deadline });
                self.table = Ghost(self.table@.insert(t, deadline as nat));
                proof {
                    let n = old_waiters.len() as int;
                    assert(self.waiters@[n].token@ == t);
                    assert(self.issued@[old_issued_vec.len() as int]@ == t);
                    assert forall|k: Seq<char>| self.issued().contains(k) <==> old_issued.insert(t).contains(k) by {
                        if old_issued.contains(k) {
                            let i = choose|i: int| 0 <= i < old_issued_vec.len() && (#[trigger] old_issued_vec[i])@ == k;
                            assert(self.issued@[i] == old_issued_vec[i]);
                        }
                        if self.issued().contains(k) && k != t {
                            let i = choose|i: int| 0 <= i < self.issued@.len() && (#[trigger] self.issued@[i])@ == k;
                            assert(i < old_issued_vec.len());
                            assert(old_issued_vec[i] == self.issued@[i]);
                        }
                    }
                    assert(self.issued() =~= old_issued.insert(t));
                    assert forall|k: Seq<char>| #[trigger] self.table@.contains_key(k) implies exists|
                        i: int,
                    | 0 <= i < self.waiters@.len() && (#[trigger] self.waiters@[i]).token@ == k by {
                        if k == t {
                            assert(self.waiters@[n].token@ == k);
                        } else {
                            let i = choose|i: int|
                                0 <= i < old_waiters.len() && (#[trigger] old_waiters[i]).token@
                                    == k;
                            assert(self.waiters@[i] == old_waiters[i]);
                        }
                    }
                }
                true
            },
        }
    }

    /// Mints a fresh token, registers a request for it made at `now`, and
    /// returns it; `None`, with nothing changed, should the minted token have
    /// been registered before. So a broker that never registered a token of
    /// the minted shape always succeeds.
    pub fn begin_request(&mut self, now: u64) -> (r: Option<String>)
        requires
            old(self).wf(),
        ensures
            final(self).wf(),
            match r {
                Some(t) => {
                    &&& is_hyphenated_uuid(t@)
                    &&& !old(self).issued().contains(t@)
                    &&& final(self)@ == old(self)@.insert(t@, deadline_after(now as nat))
                    &&& final(self).issued() == old(self).issued().insert(t@)
                },
                None => {
                    &&& final(self)@ == old(self)@
                    &&& final(self).issued() == old(self).issued()
                    &&& exists|k: Seq<char>| #[trigger] old(self).issued().contains(k) && is_hyphenated_uuid(k)
                },
            },
    {
        let token = mint_token();
        let copy = token.clone();
        if self.register(token, now) {
            Some(copy)
        } else {
            None
        }
    }

    fn remove_at(&mut self, i: usize)
        requires
            old(self).wf(),
            i < old(self).waiters@.len(),
        ensures
            final(self).wf(),
            final(self)@ == old(self)@.remove(old(self).waiters@[i as int].token@),
            final(self).issued() == old(self).issued(),
            final(self).waiters@ == old(self).waiters@.remove(i as int),
    {
        let ghost old_waiters = self.waiters@;
        let ghost t = self.waiters@[i as int].token@;
        let _w = self.waiters.remove(i);
        self.table = Ghost(self.table@.remove(t));
        proof {
            assert forall|j: int| 0 <= j < self.waiters@.len() implies {
                let w = #[trigger] self.waiters@[j];
                self.table@.contains_key(w.token@) && self.table@[w.token@] == w.deadline
            } by {
                if j < i {
                    assert(self.waiters@[j] == old_waiters[j]);
                    assert(old_waiters[j].token@ != t);
                } else {
                    assert(self.waiters@[j] == old_waiters[j + 1]);
                    assert(old_waiters[j + 1].token@ != t);
                }
            }
            assert forall|k: Seq<char>| #[trigger] self.table@.contains_key(k) implies exists|
                j: int,
            | 0 <= j < self.waiters@.len() && (#[trigger] self.waiters@[j]).token@ == k by {
                let j = choose|j: int|
                    0 <= j < old_waiters.len() && (#[trigger] old_waiters[j]).token@ == k;
                assert(j != i);
                if j < i {
                    assert(self.waiters@[j] == old_waiters[j]);
                } else {
                    assert(self.waiters@[j - 1] == old_waiters[j]);
                }
            }
            assert forall|a: int, b: int|
                0 <= a < b < self.waiters@.len() implies (#[trigger] self.waiters@[a]).token@
                != (#[trigger] self.waiters@[b]).token@ by {
                let a0 = if a < i { a } else { a + 1 };
                let b0 = if b < i { b } else { b + 1 };
                assert(self.waiters@[a] == old_waiters[a0]);
                assert(self.waiters@[b] == old_waiters[b0]);
            }
        }
    }

    /// Delivers the answer `secret` for `token` at `now`. It resolves the
    /// request, once, when the token is pending and its deadline has not
    /// passed; the request is then deregistered. An answer for an unknown,
    /// already answered or expired token is ignored.
    pub fn respond(&mut self, token: &str, secret: String, now: u64) -> (r: Option<String>)
        requires
            old(self).wf(),
        ensures
            final(self).wf(),
            final(self)@ == after_response(old(self)@, token@, now as nat),
            final(self).issued() == old(self).issued(),
            resolves(old(self)@, token@, now as nat) ==> r == Some(secret),
            !resolves(old(self)@, token@, now as nat) ==> r is None,
    {
        let t = String::from_str(token);
        match self.find(&t) {
            Some(i) => {
                if now < self.waiters[i].deadline {
                    self.remove_at(i);
                    Some(secret)
                } else {
                    None
                }
            },
            None => None,
        }
    }

    /// Delivers a response payload for `token` at `now`: as `respond`, with
    /// the secret decoded from the payload.
    pub fn respond_with_payload(&mut self, token: &str, payload: &str, now: u64) -> (r: Option<
        String,
    >)
        requires
            old(self).wf(),
        ensures
            final(self).wf(),
            final(self)@ == after_response(old(self)@, token@, now as nat),
            final(self).issued() == old(self).issued(),
            resolves(old(self)@, token@, now as nat) ==> (r matches Some(s) && s@ == payload_secret(
                payload@,
            )),
            !resolves(old(self)@, token@, now as nat) ==> r is None,
    {
        let secret = secret_from_payload(payload);
        self.respond(token, secret, now)
    }

    /// Tears down every request whose deadline is at or before `now`, and
    /// returns their tokens: each of them has timed out.
    pub fn expire(&mut self, now: u64) -> (r: Vec<String>)
        requires
            old(self).wf(),
        ensures
            final(self).wf(),
            final(self)@ == after_expiry(old(self)@, now as nat),
            final(self).issued() == old(self).issued(),
            forall|k: Seq<char>|
                (exists|i: int| 0 <= i < r@.len() && (#[trigger] r@[i])@ == k) <==> (old(
                    self,
                )@.contains_key(k) && old(self)@[k] <= now),
    {
        let ghost old_table = self@;
        let ghost old_issued = self.issued();
        let mut expired: Vec<String> = Vec::new();
        let mut i: usize = 0;
        while i < self.waiters.len()
            invariant
                self.wf(),
                self.issued() == old_issued,
                i <= self.waiters@.len(),
                forall|j: int| 0 <= j < i ==> now < (#[trigger] self.waiters@[j]).deadline,
                forall|k: Seq<char>|
                    #[trigger] self@.contains_key(k) ==> old_table.contains_key(k) && self@[k]
                        == old_table[k],
                forall|k: Seq<char>|
                    old_table.contains_key(k) && now < old_table[k] ==> #[trigger] self@.contains_key(k),
                forall|k: Seq<char>|
                    #[trigger] old_table.contains_key(k) && old_table[k] <= now ==> (
                    self@.contains_key(k) || exists|j: int|
                        0 <= j < expired@.len() && (#[trigger] expired@[j])@ == k),
                forall|j: int|
                    0 <= j < expired@.len() ==> old_table.contains_key((#[trigger] expired@[j])@)
                        && old_table[expired@[j]@] <= now,
            decreases self.waiters@.len() - i,
        {
            if now < self.waiters[i].deadline {
                i = i + 1;
            } else {
                let token = self.waiters[i].token.clone();
                let ghost before = expired@;
                let ghost table_before = self@;
                let ghost waiters_before = self.waiters@;
                proof {
                    assert(table_before.contains_key(token@));
                }
                self.remove_at(i);
                expired.push(token);
                proof {
                    assert forall|j: int| 0 <= j < i implies now < (#[trigger] self.waiters@[j]).deadline by {
                        assert(self.waiters@[j] == waiters_before[j]);
                    }
                    assert(expired@[before.len() as int]@ == token@);
                    assert forall|k: Seq<char>|
                        #[trigger] old_table.contains_key(k) && old_table[k] <= now implies (
                        self@.contains_key(k) || exists|j: int|
                            0 <= j < expired@.len() && (#[trigger] expired@[j])@ == k) by {
                        if k == token@ {
                            assert(expired@[before.len() as int]@ == k);
                        } else if !table_before.contains_key(k) {
                            let j = choose|j: int| 0 <= j < before.len() && (#[trigger] before[j])@ == k;
                            assert(expired@[j] == before[j]);
                        }
                    }
                    assert forall|j: int|
                        0 <= j < expired@.len() implies old_table.contains_key((#[trigger] expired@[j])@)
                            && old_table[expired@[j]@] <= now by {
                        if j < before.len() {
                            assert(expired@[j] == before[j]);
                        }
                    }
                }
            }
        }
        proof {
            assert forall|k: Seq<char>| #[trigger] self@.contains_key(k) implies now < self@[k] by {
                let j = choose|j: int|
                    0 <= j < self.waiters@.len() && (#[trigger] self.waiters@[j]).token@ == k;
                assert(now < self.waiters@[j].deadline);
            }
            assert(self@ =~= after_expiry(old_table, now as nat));
            assert forall|k: Seq<char>|
                (exists|i: int| 0 <= i < expired@.len() && (#[trigger] expired@[i])@ == k) <==> (
                old_table.contains_key(k) && old_table[k] <= now) by {
                if exists|i: int| 0 <= i < expired@.len() && (#[trigger] expired@[i])@ == k {
                    let i = choose|i: int| 0 <= i < expired@.len() && (#[trigger] expired@[i])@ == k;
                    assert(old_table.contains_key(expired@[i]@));
                }
                if old_table.contains_key(k) && old_table[k] <= now {
                    if self@.contains_key(k) {
                        assert(now < self@[k]);
                    }
                }
            }
        }
        expired
    }

    /// Withdraws the request for `token`, resolved or not: the waiter is torn
    /// down. Returns whether it was pending.
    pub fn withdraw(&mut self, token: &str) -> (r: bool)
        requires
            old(self).wf(),
        ensures
            final(self).wf(),
            r == old(self)@.contains_key(token@),
            final(self)@ == old(self)@.remove(token@),
            final(self).issued() == old(self).issued(),
    {
        let t = String::from_str(token);
        match self.find(&t) {
            Some(i) => {
                self.remove_at(i);
                true
            },
            None => {
                assert(self@.remove(token@) =~= self@);
                false
            },
        }
    }

    /// Number of pending requests.
    pub fn pending_count(&self) -> (r: usize)
        requires
            self.wf(),
        ensures
            r == self@.len(),
    {
        proof {
            self.lemma_len();
        }
        self.waiters.len()
    }

    proof fn lemma_len(&self)
        requires
            self.wf(),
        ensures
            self@.len() == self.waiters@.len(),
            self@.dom().finite(),
    {
        let toks = self.waiters@.map_values(|w: Waiter| w.token@);
        assert forall|k: Seq<char>| self@.dom().contains(k) <==> toks.to_set().contains(k) by {
            if self@.dom().contains(k) {
                let i = choose|i: int|
                    0 <= i < self.waiters@.len() && (#[trigger] self.waiters@[i]).token@ == k;
                assert(toks[i] == k);
            }
            if toks.to_set().contains(k) {
                assert(toks.contains(k));
                let i = choose|i: int| 0 <= i < toks.len() && toks[i] == k;
                assert(self.waiters@[i].token@ == k);
            }
        }
        assert(self@.dom() =~= toks.to_set());
        assert forall|i: int, j: int| 0 <= i < toks.len() && 0 <= j < toks.len() && i != j implies toks[i] != toks[j] by {
            if i < j {
                assert(self.waiters@[i].token@ != self.waiters@[j].token@);
            } else {
                assert(self.waiters@[j].token@ != self.waiters@[i].token@);
            }
        }
        assert(toks.no_duplicates());
        toks.unique_seq_to_set();
    }
}

/// An answer for a token that was never requested resolves nothing and leaves
/// every pending request as it was.
pub proof fn lemma_unknown_token_ignored(table: Map<Seq<char>, nat>, token: Seq<char>, now: nat)
    requires
        !table.contains_key(token),
    ensures
        !resolves(table, token, now),
        after_response(table, token, now) == table,
{
}

/// An answer that arrives once its request has timed out is ignored, whether
/// the timeout was already swept away or not, and an answered request cannot
/// be answered a second time.
pub proof fn lemma_late_or_repeated_answer_ignored(
    table: Map<Seq<char>, nat>,
    token: Seq<char>,
    swept_at: nat,
    now: nat,
)
    requires
        table.contains_key(token),
    ensures
        table[token] <= swept_at ==> !resolves(after_expiry(table, swept_at), token, now)
            && after_response(after_expiry(table, swept_at), token, now) == after_expiry(
            table,
            swept_at,
        ),
        table[token] <= now ==> !resolves(table, token, now) && after_response(table, token, now)
            == table,
        resolves(table, token, now) ==> !resolves(after_response(table, token, now), token, swept_at),
{
}

/// Requests never share a waiter: answering `b` leaves the request for `a`
/// pending with its own deadline, and `a` still times out once that deadline
/// has passed.
pub proof fn lemma_requests_independent(
    table: Map<Seq<char>, nat>,
    a: Seq<char>,
    b: Seq<char>,
    now: nat,
    later: nat,
)
    requires
        a != b,
        table.contains_key(a),
        table.contains_key(b),
        now < table[b],
    ensures
        resolves(table, b, now),
        after_response(table, b, now).contains_key(a),
        after_response(table, b, now)[a] == table[a],
        !after_response(table, b, now).contains_key(b),
        later >= table[a] ==> !after_expiry(after_response(table, b, now), later).contains_key(a),
{
}

} // verus!
