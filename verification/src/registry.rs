//! The session registry: a capacity-bounded store of debug sessions keyed
//! by session id, owning creation, lookup and destruction.
//!
//! The capacity check runs before any hardware is touched, so a rejected
//! creation is side-effect free. Lookups hand out the stored session; the
//! session's own exclusive access (`&mut`) guards the hardware, not the
//! registry.

use vstd::prelude::*;
use crate::DebugError;
use crate::hw;
use crate::session::{DebugSession, ProbeInfo};

verus! {

/// Digits only, and at least one of them.
pub open spec fn is_dec(s: Seq<char>) -> bool {
    s.len() > 0 && forall|i: int| 0 <= i < s.len() ==> '0' <= #[trigger] s[i] <= '9'
}

/// The value a digit string denotes.
pub open spec fn dec_val(s: Seq<char>) -> int
    decreases s.len(),
{
    if s.len() == 0 {
        0
    } else {
        dec_val(s.drop_last()) * 10 + (s.last() as int - '0' as int)
    }
}

proof fn lemma_dec_val_nonneg(s: Seq<char>)
    requires
        forall|i: int| 0 <= i < s.len() ==> '0' <= #[trigger] s[i] <= '9',
    ensures
        dec_val(s) >= 0,
    decreases s.len(),
{
    if s.len() > 0 {
        lemma_dec_val_nonneg(s.drop_last());
    }
}

proof fn lemma_dec_val_prefix_le(s: Seq<char>, i: int)
    requires
        forall|i: int| 0 <= i < s.len() ==> '0' <= #[trigger] s[i] <= '9',
        0 <= i <= s.len(),
    ensures
        dec_val(s.take(i)) <= dec_val(s),
    decreases s.len() - i,
{
    if i == s.len() {
        assert(s.take(i) =~= s);
    } else {
        lemma_dec_val_prefix_le(s, i + 1);
        assert(s.take(i + 1).drop_last() =~= s.take(i));
        assert(s.take(i + 1).last() == s[i]);
        lemma_dec_val_nonneg(s.take(i));
        assert(dec_val(s.take(i + 1)) == dec_val(s.take(i)) * 10 + (s[i] as int - '0' as int));
        assert(dec_val(s.take(i)) * 10 >= dec_val(s.take(i)));
    }
}

/// Parses a probe-index selector: digits only, value within `usize`.
/// Anything else — empty, a stray character, overflow — is `None` and is
/// then treated as a serial number by the caller.
pub fn parse_index(s: &str) -> (r: Option<usize>)
    ensures
        r matches Some(v) ==> is_dec(s@) && v == dec_val(s@),
        r is None ==> !(is_dec(s@) && dec_val(s@) <= usize::MAX),
{
    let n = s.unicode_len();
    if n == 0 {
        return None;
    }
    let mut acc: usize = 0;
    let mut i: usize = 0;
    while i < n
        invariant
            0 <= i <= n,
            n == s@.len(),
            forall|j: int| 0 <= j < i ==> '0' <= #[trigger] s@[j] <= '9',
            acc == dec_val(s@.take(i as int)),
        decreases n - i,
    {
        let c = s.get_char(i);
        let cv = c as u32;
        if cv < 48 || cv > 57 {
            proof {
                assert(!('0' <= s@[i as int] <= '9'));
            }
            return None;
        }
        let d = (cv - 48) as usize;
        let stepped = match acc.checked_mul(10) {
            Some(m) => m.checked_add(d),
            None => None,
        };
        proof {
            assert(s@.take(i + 1).drop_last() =~= s@.take(i as int));
            assert(s@.take(i + 1).last() == s@[i as int]);
            assert(dec_val(s@.take(i + 1)) == acc * 10 + d);
        }
        match stepped {
            Some(v) => {
                acc = v;
            }
            None => {
                proof {
                    if is_dec(s@) {
                        lemma_dec_val_prefix_le(s@, i + 1);
                    }
                }
                return None;
            }
        }
        i = i + 1;
    }
    proof {
        assert(s@.take(n as int) =~= s@);
    }
    Some(acc)
}

/// Which probe a selector denotes within an enumerated probe list: the
/// first probe for the literal "auto", the probe at that position for a
/// numeric index, else the first probe whose serial number equals the
/// selector; `None` when nothing matches.
pub open spec fn selector_resolution(sel: Seq<char>, probes: Seq<ProbeInfo>) -> Option<int> {
    if sel == "auto"@ {
        if probes.len() > 0 {
            Some(0)
        } else {
            None
        }
    } else if is_dec(sel) && dec_val(sel) <= usize::MAX {
        if dec_val(sel) < probes.len() {
            Some(dec_val(sel))
        } else {
            None
        }
    } else {
        first_serial_match(probes, sel)
    }
}

/// The first position whose probe carries the given serial number.
pub open spec fn first_serial_match(probes: Seq<ProbeInfo>, sel: Seq<char>) -> Option<int>
    decreases probes.len(),
{
    if probes.len() == 0 {
        None
    } else if probes[0].serial_number matches Some(sn) && sn@ == sel {
        Some(0)
    } else {
        match first_serial_match(probes.drop_first(), sel) {
            Some(i) => Some(i + 1),
            None => None,
        }
    }
}

/// A position option, shifted by an offset.
pub open spec fn shift_opt(o: Option<int>, n: int) -> Option<int> {
    match o {
        Some(k) => Some(k + n),
        None => None,
    }
}

proof fn lemma_first_serial_match_bounds(probes: Seq<ProbeInfo>, sel: Seq<char>)
    ensures
        first_serial_match(probes, sel) matches Some(i) ==> 0 <= i < probes.len() && (
        probes[i].serial_number matches Some(sn) && sn@ == sel),
    decreases probes.len(),
{
    if probes.len() > 0 {
        lemma_first_serial_match_bounds(probes.drop_first(), sel);
    }
}

/// Resolves a probe selector against an enumerated probe list, failing
/// with `ProbeNotFound` exactly when the selector denotes no probe in the
/// list.
pub fn resolve_probe_selector(selector: &str, probes: &Vec<ProbeInfo>) -> (r: Result<
    usize,
    DebugError,
>)
    ensures
        r matches Ok(i) ==> selector_resolution(selector@, probes@) == Some(i as int),
        r matches Err(e) ==> e matches DebugError::ProbeNotFound(_)
            && selector_resolution(selector@, probes@) is None,
{
    let key = selector.to_owned();
    let auto = "auto".to_owned();
    if key == auto {
        if probes.len() > 0 {
            return Ok(0);
        } else {
            return Err(DebugError::probe_not_found("No probes found", String::new()));
        }
    }
    if let Some(index) = parse_index(selector) {
        if index < probes.len() {
            return Ok(index);
        } else {
            return Err(
                DebugError::probe_not_found("Probe index not found: ", selector.to_owned()),
            );
        }
    }
    proof {
        assert(probes@.skip(0) =~= probes@);
    }
    let mut i: usize = 0;
    while i < probes.len()
        invariant
            0 <= i <= probes@.len(),
            key@ == selector@,
            !(selector@ == "auto"@),
            !(is_dec(selector@) && dec_val(selector@) <= usize::MAX),
            first_serial_match(probes@, selector@) == shift_opt(
                first_serial_match(probes@.skip(i as int), selector@),
                i as int,
            ),
        decreases probes@.len() - i,
    {
        let ghost rest = probes@.skip(i as int);
        let matched = match &probes[i].serial_number {
            Some(sn) => *sn == key,
            None => false,
        };
        proof {
            assert(rest.len() == probes@.len() - i);
            assert(rest[0] == probes@[i as int]);
            assert(rest.drop_first() =~= probes@.skip(i + 1));
        }
        if matched {
            proof {
                assert(first_serial_match(rest, selector@) == Some(0int));
            }
            return Ok(i);
        }
        proof {
            assert(!(rest[0].serial_number matches Some(sn) && sn@ == selector@));
            assert(first_serial_match(rest, selector@) == shift_opt(
                first_serial_match(probes@.skip(i + 1), selector@),
                1,
            ));
        }
        i = i + 1;
    }
    proof {
        assert(probes@.skip(probes@.len() as int) =~= Seq::<ProbeInfo>::empty());
        assert(first_serial_match(Seq::<ProbeInfo>::empty(), selector@) is None);
        assert(first_serial_match(probes@, selector@) is None);
    }
    Err(DebugError::probe_not_found("Probe not found: ", selector.to_owned()))
}

/// Whether some session in a sequence carries the given id.
spec fn seq_has_id(s: Seq<DebugSession>, x: Seq<char>) -> bool {
    exists|j: int| 0 <= j < s.len() && (#[trigger] s[j]).id_str() == x
}

/// The session registry.
pub struct DebugSessionManager {
    sessions: Vec<DebugSession>,
    max_sessions: usize,
}

impl DebugSessionManager {
    /// The stored sessions' ids, in storage order.
    pub closed spec fn ids(&self) -> Seq<Seq<char>> {
        self.sessions@.map_values(|s: DebugSession| s.id_str())
    }

    /// How many sessions are stored.
    pub open spec fn count_spec(&self) -> int {
        self.ids().len() as int
    }

    /// The capacity fixed at construction.
    pub closed spec fn max_spec(&self) -> int {
        self.max_sessions as int
    }

    /// Whether a session with the given id is stored.
    pub open spec fn contains_id(&self, id: Seq<char>) -> bool {
        exists|i: int| 0 <= i < self.ids().len() && #[trigger] self.ids()[i] == id
    }

    /// Registry validity: capacity is respected, ids are distinct, and
    /// every stored session is itself valid.
    pub closed spec fn wf(&self) -> bool {
        &&& self.sessions@.len() <= self.max_sessions
        &&& forall|i: int, j: int|
            0 <= i < j < self.sessions@.len() ==> (#[trigger] self.sessions@[i]).id_str() != (
            #[trigger] self.sessions@[j]).id_str()
        &&& forall|i: int| 0 <= i < self.sessions@.len() ==> (#[trigger] self.sessions@[i]).wf()
    }

    /// An empty registry with the given fixed capacity.
    pub fn new(max_sessions: usize) -> (r: DebugSessionManager)
        ensures
            r.wf(),
            r.count_spec() == 0,
            r.max_spec() == max_sessions,
    {
        DebugSessionManager { sessions: Vec::new(), max_sessions }
    }

    /// Enumerates the connected probes as plain metadata records.
    pub fn list_probes(&self) -> (r: Result<Vec<ProbeInfo>, DebugError>)
        ensures
            r is Ok,
    {
        let raw = hw::list_connected_probes();
        Ok(Self::describe_probes(&raw))
    }

    /// Converts an enumerated probe list to plain metadata records: one
    /// record per probe, in enumeration order. This is the conversion
    /// behind `list_probes`.
    pub fn describe_probes(raw: &Vec<probe_rs::probe::DebugProbeInfo>) -> (r: Vec<ProbeInfo>)
        ensures
            r@.len() == raw@.len(),
    {
        let mut infos: Vec<ProbeInfo> = Vec::new();
        let mut i: usize = 0;
        while i < raw.len()
            invariant
                0 <= i <= raw@.len(),
                infos@.len() == i,
            decreases raw@.len() - i,
        {
            let (identifier, vendor_id, product_id, serial_number, probe_type) =
                hw::describe_probe(&raw[i]);
            infos.push(ProbeInfo { identifier, vendor_id, product_id, serial_number, probe_type });
            i = i + 1;
        }
        infos
    }

    /// Creates a session: rejects with `SessionLimitExceeded` while at
    /// capacity — before any hardware is touched — then resolves the
    /// probe selector against the enumerated probes, opens and attaches
    /// the probe, and stores the session under its fresh id. On any
    /// failure the registry is unchanged.
    pub fn create_session(
        &mut self,
        probe_selector: String,
        target_chip: String,
        speed_khz: u32,
        connect_under_reset: bool,
    ) -> (r: Result<String, DebugError>)
        requires
            old(self).wf(),
        ensures
            final(self).wf(),
            final(self).max_spec() == old(self).max_spec(),
            old(self).count_spec() >= old(self).max_spec() ==> (r matches Err(e) && (e
                matches DebugError::SessionLimitExceeded(m) && m == old(self).max_spec())),
            (r matches Err(e) && e matches DebugError::SessionLimitExceeded(_)) ==> old(
                self,
            ).count_spec() >= old(self).max_spec(),
            r matches Ok(id) ==> {
                &&& old(self).count_spec() < old(self).max_spec()
                &&& final(self).contains_id(id@)
                &&& final(self).count_spec() <= old(self).count_spec() + 1
                &&& id@.len() >= 8 && id@.subrange(0, 8) == "session_"@
            },
            r matches Ok(id) ==> forall|x: Seq<char>|
                #[trigger] old(self).contains_id(x) ==> final(self).contains_id(x),
            r matches Ok(id) ==> (!old(self).contains_id(id@) ==> final(self).count_spec() == old(
                self,
            ).count_spec() + 1),
            r matches Err(e) ==> final(self).ids() == old(self).ids() && (e
                matches DebugError::SessionLimitExceeded(_) || e
                matches DebugError::ProbeNotFound(_) || e matches DebugError::ConnectionFailed(_)),
    {
        if self.sessions.len() >= self.max_sessions {
            return Err(DebugError::SessionLimitExceeded(self.max_sessions));
        }
        let raw = hw::list_connected_probes();
        let infos = Self::describe_probes(&raw);
        let index = match resolve_probe_selector(probe_selector.as_str(), &infos) {
            Ok(i) => i,
            Err(e) => {
                return Err(e);
            }
        };
        proof {
            crate::registry::lemma_selector_resolution_bounds(probe_selector@, infos@);
        }
        let probe = match hw::open_probe(&raw[index]) {
            Ok(p) => p,
            Err(e) => {
                return Err(DebugError::connection("Failed to open probe: ", e));
            }
        };
        let session = match DebugSession::new(probe, target_chip, speed_khz, connect_under_reset) {
            Ok(s) => s,
            Err(e) => {
                return Err(e);
            }
        };
        let id = session.id().to_owned();
        let ghost before = self.sessions@;
        match self.find_index(&id) {
            Some(i) => {
                // A stored session already carries this id (the fresh id
                // collided): replace it, as a map insert would.
                let _ = self.sessions.swap_remove(i);
                proof {
                    let t = before.update(i as int, before.last()).drop_last();
                    assert(self.sessions@ == t);
                    Self::lemma_distinct_after_swap_remove(before, i as int);
                    assert(before[i as int].id_str() == id@);
                    assert(old(self).ids()[i as int] == id@);
                    assert(old(self).contains_id(id@));
                    assert forall|x: Seq<char>|
                        seq_has_id(before, x) && x != id@ implies seq_has_id(t, x) by {
                        let j = choose|j: int|
                            0 <= j < before.len() && (#[trigger] before[j]).id_str() == x;
                        if j == i {
                            assert(false);
                        } else if j == before.len() - 1 {
                            assert(t[i as int] == before[before.len() - 1]);
                            assert((t[i as int]).id_str() == x);
                        } else {
                            assert(t[j] == before[j]);
                            assert((t[j]).id_str() == x);
                        }
                    }
                }
            }
            None => {
                proof {
                    assert(self.sessions@ == before);
                }
            }
        }
        let ghost pruned = self.sessions@;
        self.sessions.push(session);
        proof {
            assert(self.sessions@.drop_last() =~= pruned);
            assert forall|p: int, q: int| 0 <= p < q < self.sessions@.len() implies (
            #[trigger] self.sessions@[p]).id_str() != (#[trigger] self.sessions@[q]).id_str() by {
                if q == self.sessions@.len() - 1 {
                    assert(self.sessions@[p] == pruned[p]);
                } else {
                    assert(self.sessions@[p] == pruned[p]);
                    assert(self.sessions@[q] == pruned[q]);
                }
            }
            let n = self.sessions@.len() as int;
            assert(self.ids()[n - 1] == id@);
            assert forall|x: Seq<char>| #[trigger] old(self).contains_id(x) implies
                self.contains_id(x) by {
                let j0 = choose|j: int|
                    0 <= j < old(self).ids().len() && #[trigger] old(self).ids()[j] == x;
                assert((before[j0]).id_str() == x);
                if x == id@ {
                    assert(self.ids()[n - 1] == x);
                } else {
                    assert(seq_has_id(before, x));
                    assert(seq_has_id(pruned, x));
                    let jp = choose|j: int|
                        0 <= j < pruned.len() && (#[trigger] pruned[j]).id_str() == x;
                    assert(self.sessions@[jp] == pruned[jp]);
                    assert(self.ids()[jp] == x);
                }
            }
        }
        Ok(id)
    }

    /// The position of the session with the given id, if any.
    fn find_index(&self, session_id: &String) -> (r: Option<usize>)
        ensures
            r matches Some(i) ==> i < self.sessions@.len() && self.sessions@[i as int].id_str()
                == session_id@,
            r is None ==> forall|i: int|
                0 <= i < self.sessions@.len() ==> (#[trigger] self.sessions@[i]).id_str()
                    != session_id@,
    {
        let mut i: usize = 0;
        while i < self.sessions.len()
            invariant
                0 <= i <= self.sessions@.len(),
                forall|j: int|
                    0 <= j < i ==> (#[trigger] self.sessions@[j]).id_str() != session_id@,
            decreases self.sessions@.len() - i,
        {
            if self.sessions[i].id_matches(session_id) {
                return Some(i);
            }
            i = i + 1;
        }
        None
    }

    proof fn lemma_distinct_after_swap_remove(s: Seq<DebugSession>, i: int)
        requires
            0 <= i < s.len(),
            forall|p: int, q: int|
                0 <= p < q < s.len() ==> (#[trigger] s[p]).id_str() != (#[trigger] s[q]).id_str(),
            forall|p: int| 0 <= p < s.len() ==> (#[trigger] s[p]).wf(),
        ensures
            forall|p: int, q: int|
                0 <= p < q < s.update(i, s.last()).drop_last().len() ==> (#[trigger] s.update(
                    i,
                    s.last(),
                ).drop_last()[p]).id_str() != (#[trigger] s.update(i, s.last()).drop_last()[
                    q
                ]).id_str(),
            forall|p: int|
                0 <= p < s.update(i, s.last()).drop_last().len() ==> (#[trigger] s.update(
                    i,
                    s.last(),
                ).drop_last()[p]).wf(),
            forall|p: int|
                0 <= p < s.update(i, s.last()).drop_last().len() && s[i].id_str() != s.last().id_str()
                    ==> (#[trigger] s.update(i, s.last()).drop_last()[p]).id_str() != s[i].id_str(),
    {
        let t = s.update(i, s.last()).drop_last();
        assert forall|p: int, q: int| 0 <= p < q < t.len() implies (#[trigger] t[p]).id_str() != (
        #[trigger] t[q]).id_str() by {
            if p == i {
                assert(t[p] == s[s.len() - 1]);
                assert(t[q] == s[q]);
            } else if q == i {
                assert(t[q] == s[s.len() - 1]);
                assert(t[p] == s[p]);
            } else {
                assert(t[p] == s[p]);
                assert(t[q] == s[q]);
            }
        }
        assert forall|p: int| 0 <= p < t.len() implies (#[trigger] t[p]).wf() by {
            if p == i {
                assert(t[p] == s[s.len() - 1]);
            } else {
                assert(t[p] == s[p]);
            }
        }
        assert forall|p: int|
            0 <= p < t.len() && s[i].id_str() != s.last().id_str() implies (
        #[trigger] t[p]).id_str() != s[i].id_str() by {
            if p == i {
                assert(t[p] == s[s.len() - 1]);
            } else {
                assert(t[p] == s[p]);
            }
        }
    }

    /// A shared reference to the stored session with the given id; fails
    /// with `InvalidSession` exactly when no session carries it.
    pub fn get_session(&self, session_id: &str) -> (r: Result<&DebugSession, DebugError>)
        requires
            self.wf(),
        ensures
            r matches Ok(s) ==> self.contains_id(session_id@) && s.id_str() == session_id@
                && s.wf() && exists|i: int|
                0 <= i < self.count_spec() && #[trigger] self.sessions_internal()[i] == *s,
            r matches Err(e) ==> e matches DebugError::InvalidSession(_) && !self.contains_id(
                session_id@,
            ),
    {
        let key = session_id.to_owned();
        match self.find_index(&key) {
            Some(i) => {
                proof {
                    assert(self.ids()[i as int] == session_id@);
                    assert(self.sessions_internal()[i as int] == self.sessions@[i as int]);
                }
                Ok(&self.sessions[i])
            }
            None => {
                proof {
                    assert forall|i: int| 0 <= i < self.ids().len() implies #[trigger] self.ids()[i]
                        != session_id@ by {
                        assert(self.ids()[i] == self.sessions@[i].id_str());
                    }
                }
                Err(DebugError::InvalidSession(key))
            }
        }
    }

    /// The position of the stored session with the given id; fails with
    /// `InvalidSession` exactly when no session carries it. Use with
    /// `session_at_mut` to operate on the session.
    pub fn session_index(&self, session_id: &str) -> (r: Result<usize, DebugError>)
        requires
            self.wf(),
        ensures
            r matches Ok(i) ==> i < self.count_spec() && self.ids()[i as int] == session_id@,
            r matches Err(e) ==> e matches DebugError::InvalidSession(_) && !self.contains_id(
                session_id@,
            ),
    {
        let key = session_id.to_owned();
        match self.find_index(&key) {
            Some(i) => {
                proof {
                    assert(self.ids()[i as int] == session_id@);
                }
                Ok(i)
            }
            None => {
                proof {
                    assert forall|i: int| 0 <= i < self.ids().len() implies #[trigger] self.ids()[i]
                        != session_id@ by {
                        assert(self.ids()[i] == self.sessions@[i].id_str());
                    }
                }
                Err(DebugError::InvalidSession(key))
            }
        }
    }

    /// Exclusive access to the stored session at a position, for one
    /// hardware-facing operation at a time.
    pub fn session_at_mut(&mut self, index: usize) -> (r: &mut DebugSession)
        requires
            old(self).wf(),
            index < old(self).count_spec(),
        ensures
            *r == old(self).sessions_internal()[index as int],
            r.wf(),
            final(self).sessions_internal() == old(self).sessions_internal().update(
                index as int,
                *final(r),
            ),
            final(self).max_spec() == old(self).max_spec(),
    {
        &mut self.sessions[index]
    }

    /// The stored sessions, in storage order.
    pub closed spec fn sessions_internal(&self) -> Seq<DebugSession> {
        self.sessions@
    }

    /// Removes and drops the session with the given id, releasing its
    /// hardware handle; fails with `InvalidSession` exactly when no
    /// session carries the id. Every other session stays stored.
    pub fn close_session(&mut self, session_id: &str) -> (r: Result<(), DebugError>)
        requires
            old(self).wf(),
        ensures
            final(self).wf(),
            final(self).max_spec() == old(self).max_spec(),
            r is Ok <==> old(self).contains_id(session_id@),
            r is Ok ==> !final(self).contains_id(session_id@) && final(self).count_spec() == old(
                self,
            ).count_spec() - 1,
            r matches Err(e) ==> e matches DebugError::InvalidSession(_) && final(self).ids()
                == old(self).ids(),
            forall|x: Seq<char>|
                x != session_id@ ==> (final(self).contains_id(x) <==> old(self).contains_id(x)),
    {
        let key = session_id.to_owned();
        match self.find_index(&key) {
            Some(i) => {
                let ghost before = self.sessions@;
                let _ = self.sessions.swap_remove(i);
                proof {
                    Self::lemma_distinct_after_swap_remove(before, i as int);
                    let t = before.update(i as int, before.last()).drop_last();
                    assert(self.sessions@ == t);
                    assert(old(self).ids()[i as int] == before[i as int].id_str());
                    assert forall|p: int| 0 <= p < t.len() implies (#[trigger] t[p]).id_str()
                        != session_id@ by {
                        if i < before.len() - 1 {
                            assert(before[i as int].id_str() != before.last().id_str());
                        }
                        if p == i {
                            assert(t[p] == before[before.len() - 1]);
                        } else {
                            assert(t[p] == before[p]);
                        }
                    }
                    assert forall|x: Seq<char>| x != session_id@ implies (final(self).contains_id(
                        x,
                    ) <==> old(self).contains_id(x)) by {
                        if old(self).contains_id(x) {
                            let j = choose|j: int|
                                0 <= j < old(self).ids().len() && #[trigger] old(self).ids()[j]
                                    == x;
                            assert(before[j].id_str() == x);
                            if j == before.len() - 1 {
                                if i < before.len() - 1 {
                                    assert(t[i as int] == before[before.len() - 1]);
                                    assert(final(self).ids()[i as int] == x);
                                } else {
                                    assert(false);
                                }
                            } else {
                                assert(t[j] == before[j]);
                                assert(final(self).ids()[j] == x);
                            }
                        }
                        if final(self).contains_id(x) {
                            let j = choose|j: int|
                                0 <= j < final(self).ids().len() && #[trigger] final(self).ids()[j]
                                    == x;
                            assert(t[j].id_str() == x);
                            if j == i {
                                assert(t[j] == before[before.len() - 1]);
                                assert(old(self).ids()[before.len() - 1] == x);
                            } else {
                                assert(t[j] == before[j]);
                                assert(old(self).ids()[j] == x);
                            }
                        }
                    }
                    assert forall|p: int|
                        0 <= p < final(self).ids().len() implies #[trigger] final(self).ids()[p]
                        != session_id@ by {
                        assert(final(self).ids()[p] == t[p].id_str());
                    }
                    assert(old(self).contains_id(session_id@));
                }
                Ok(())
            }
            None => {
                proof {
                    assert forall|i: int| 0 <= i < self.ids().len() implies #[trigger] self.ids()[i]
                        != session_id@ by {
                        assert(self.ids()[i] == self.sessions@[i].id_str());
                    }
                }
                Err(DebugError::InvalidSession(key))
            }
        }
    }

    /// A valid registry stores no two sessions under one id.
    pub proof fn lemma_ids_distinct(&self)
        requires
            self.wf(),
        ensures
            forall|i: int, j: int|
                0 <= i < j < self.ids().len() ==> #[trigger] self.ids()[i] != #[trigger] self.ids()[
                    j
                ],
    {
        assert forall|i: int, j: int|
            0 <= i < j < self.ids().len() implies #[trigger] self.ids()[i]
            != #[trigger] self.ids()[j] by {
            assert(self.ids()[i] == self.sessions@[i].id_str());
            assert(self.ids()[j] == self.sessions@[j].id_str());
        }
    }

    /// The stored session ids, in storage order: complete, in storage
    /// order, and — of a valid registry — free of duplicates.
    pub fn list_sessions(&self) -> (r: Vec<String>)
        ensures
            r@.len() == self.count_spec(),
            forall|i: int| 0 <= i < r@.len() ==> (#[trigger] r@[i])@ == self.ids()[i],
            self.wf() ==> forall|i: int, j: int|
                0 <= i < j < r@.len() ==> (#[trigger] r@[i])@ != (#[trigger] r@[j])@,
    {
        proof {
            if self.wf() {
                self.lemma_ids_distinct();
            }
        }
        let mut r: Vec<String> = Vec::new();
        let mut i: usize = 0;
        while i < self.sessions.len()
            invariant
                0 <= i <= self.sessions@.len(),
                r@.len() == i,
                forall|j: int| 0 <= j < i ==> (#[trigger] r@[j])@ == self.sessions@[j].id_str(),
            decreases self.sessions@.len() - i,
        {
            r.push(self.sessions[i].id().to_owned());
            i = i + 1;
        }
        r
    }

    /// How many sessions are stored.
    pub fn session_count(&self) -> (r: usize)
        ensures
            r == self.count_spec(),
    {
        self.sessions.len()
    }
}

/// A resolved selector denotes a position inside the probe list.
pub proof fn lemma_selector_resolution_bounds(sel: Seq<char>, probes: Seq<ProbeInfo>)
    ensures
        selector_resolution(sel, probes) matches Some(i) ==> 0 <= i < probes.len(),
{
    if sel == "auto"@ {
    } else if is_dec(sel) && dec_val(sel) <= usize::MAX {
        lemma_dec_val_nonneg(sel);
    } else {
        lemma_first_serial_match_bounds(probes, sel);
    }
}

} // verus!
