//! Per-peer sessions: symmetric key material, the strictly increasing send
//! counter, and the sliding replay window over received counters.

use crate::error::Error;
use vstd::assert_by_contradiction;
use vstd::prelude::*;

verus! {

/// How a session authenticates its peer: not at all, by passcode (PASE), or
/// by certificate (CASE, bound to a fabric slot).
#[derive(Clone, Copy, Debug, PartialEq, Eq, Structural)]
pub enum SessionMode {
    PlainText,
    Pase,
    Case(u8),
}

/// What a finished handshake hands to the session store to install an
/// encrypted session: ids, mode, and the three derived 16-byte keys.
pub struct CloneData {
    pub peer_sess_id: u16,
    pub local_sess_id: u16,
    pub mode: SessionMode,
    pub dec_key: Vec<u8>,
    pub enc_key: Vec<u8>,
    pub att_challenge: Vec<u8>,
}

impl CloneData {
    pub open spec fn wf(&self) -> bool {
        self.dec_key@.len() == 16 && self.enc_key@.len() == 16 && self.att_challenge@.len() == 16
    }

    /// Fresh clone data with zeroed keys.
    pub fn new(peer_sess_id: u16, local_sess_id: u16, mode: SessionMode) -> (r: CloneData)
        ensures
            r.wf(),
            r.peer_sess_id == peer_sess_id,
            r.local_sess_id == local_sess_id,
            r.mode == mode,
    {
        let mut dec_key: Vec<u8> = Vec::new();
        let mut enc_key: Vec<u8> = Vec::new();
        let mut att_challenge: Vec<u8> = Vec::new();
        let mut i: usize = 0;
        while i < 16
            invariant
                i <= 16,
                dec_key@.len() == i,
                enc_key@.len() == i,
                att_challenge@.len() == i,
            decreases 16 - i,
        {
            dec_key.push(0);
            enc_key.push(0);
            att_challenge.push(0);
            i = i + 1;
        }
        CloneData { peer_sess_id, local_sess_id, mode, dec_key, enc_key, att_challenge }
    }
}

/// The replay window is 32 counters wide.
pub const REPLAY_WINDOW: u32 = 32;

/// A secure channel with one peer.
pub struct Session {
    pub peer_addr: u64,
    pub local_sess_id: u16,
    pub peer_sess_id: u16,
    pub mode: SessionMode,
    pub dec_key: Vec<u8>,
    pub enc_key: Vec<u8>,
    pub att_challenge: Vec<u8>,
    pub msg_ctr_tx: u32,
    pub rx_ctr_max: u32,
    pub rx_bitmap: u32,
}

/// Whether counter `c` was already seen: it is the highest received, or it
/// lies inside the window and its bit is set.
pub open spec fn spec_rx_seen(s: Session, c: u32) -> bool {
    ||| c == s.rx_ctr_max
    ||| (c < s.rx_ctr_max && s.rx_ctr_max - c <= REPLAY_WINDOW && (s.rx_bitmap >> (((s.rx_ctr_max
        - c) as u32) - 1) as u32) & 1 == 1)
}

/// Whether counter `c` is admissible: not older than the window and not seen.
pub open spec fn spec_rx_accept(s: Session, c: u32) -> bool {
    &&& !spec_rx_seen(s, c)
    &&& (c >= s.rx_ctr_max || s.rx_ctr_max - c <= REPLAY_WINDOW)
}

/// The session state after admitting counter `c`.
pub open spec fn spec_rx_update(s: Session, c: u32) -> Session {
    if c > s.rx_ctr_max {
        let d = (c - s.rx_ctr_max) as u32;
        let shifted: u32 = if d >= 32 {
            0u32
        } else {
            (s.rx_bitmap << d) as u32
        };
        let with_old_max: u32 = if d <= 32 {
            (shifted | (1u32 << ((d - 1) as u32))) as u32
        } else {
            shifted
        };
        Session { rx_ctr_max: c, rx_bitmap: with_old_max, ..s }
    } else {
        Session { rx_bitmap: (s.rx_bitmap | (1u32 << ((s.rx_ctr_max - c - 1) as u32))) as u32, ..s }
    }
}

impl Session {
    pub open spec fn wf(&self) -> bool {
        self.dec_key@.len() == 16 && self.enc_key@.len() == 16 && self.att_challenge@.len() == 16
    }

    /// A fresh unencrypted (provisional) session bound to a peer address.
    pub fn new_unencrypted(peer_addr: u64) -> (r: Session)
        ensures
            r.wf(),
            r.peer_addr == peer_addr,
            r.mode == SessionMode::PlainText,
            r.msg_ctr_tx == 1,
            r.rx_ctr_max == 0,
            r.rx_bitmap == 0,
    {
        let cd = CloneData::new(0, 0, SessionMode::PlainText);
        Session {
            peer_addr,
            local_sess_id: 0,
            peer_sess_id: 0,
            mode: SessionMode::PlainText,
            dec_key: cd.dec_key,
            enc_key: cd.enc_key,
            att_challenge: cd.att_challenge,
            msg_ctr_tx: 1,
            rx_ctr_max: 0,
            rx_bitmap: 0,
        }
    }

    /// An encrypted session created from a provisional one and the key
    /// material of a finished handshake.
    pub fn clone_session(&self, cd: &CloneData) -> (r: Session)
        requires
            cd.wf(),
        ensures
            r.wf(),
            r.peer_addr == self.peer_addr,
            r.local_sess_id == cd.local_sess_id,
            r.peer_sess_id == cd.peer_sess_id,
            r.mode == cd.mode,
            r.dec_key@ == cd.dec_key@,
            r.enc_key@ == cd.enc_key@,
            r.att_challenge@ == cd.att_challenge@,
            r.msg_ctr_tx == 1,
            r.rx_ctr_max == 0,
            r.rx_bitmap == 0,
    {
        Session {
            peer_addr: self.peer_addr,
            local_sess_id: cd.local_sess_id,
            peer_sess_id: cd.peer_sess_id,
            mode: cd.mode,
            dec_key: crate::crypto::copy_bytes(&cd.dec_key),
            enc_key: crate::crypto::copy_bytes(&cd.enc_key),
            att_challenge: crate::crypto::copy_bytes(&cd.att_challenge),
            msg_ctr_tx: 1,
            rx_ctr_max: 0,
            rx_bitmap: 0,
        }
    }

    /// Takes the next send counter. Each call returns a counter strictly
    /// greater than every counter returned before; at the end of the counter
    /// space the session is exhausted and sending fails.
    pub fn get_next_tx_ctr(&mut self) -> (r: Result<u32, Error>)
        ensures
            match r {
                Ok(c) => {
                    &&& old(self).msg_ctr_tx < u32::MAX
                    &&& c == old(self).msg_ctr_tx
                    &&& *final(self) == (Session {
                        msg_ctr_tx: (old(self).msg_ctr_tx + 1) as u32,
                        ..*old(self)
                    })
                },
                Err(e) => {
                    &&& old(self).msg_ctr_tx == u32::MAX
                    &&& e == Error::NoSpace
                    &&& *final(self) == *old(self)
                },
            },
    {
        if self.msg_ctr_tx == u32::MAX {
            Err(Error::NoSpace)
        } else {
            let c = self.msg_ctr_tx;
            self.msg_ctr_tx = self.msg_ctr_tx + 1;
            Ok(c)
        }
    }

    /// Admits or rejects a received counter. A rejected counter leaves the
    /// session untouched; an admitted one is recorded in the window.
    pub fn rx_filter(&mut self, c: u32) -> (r: bool)
        ensures
            r == spec_rx_accept(*old(self), c),
            r ==> *final(self) == spec_rx_update(*old(self), c),
            !r ==> *final(self) == *old(self),
    {
        if c == self.rx_ctr_max {
            return false;
        }
        if c > self.rx_ctr_max {
            let d = c - self.rx_ctr_max;
            let shifted: u32 = if d >= 32 {
                0u32
            } else {
                self.rx_bitmap << d
            };
            let with_old_max: u32 = if d <= 32 {
                shifted | (1u32 << (d - 1))
            } else {
                shifted
            };
            self.rx_ctr_max = c;
            self.rx_bitmap = with_old_max;
            return true;
        }
        let age = self.rx_ctr_max - c;
        if age > REPLAY_WINDOW {
            return false;
        }
        let bit: u32 = 1u32 << (age - 1);
        let ghost bm: u32 = self.rx_bitmap;
        let ghost k: u32 = (age - 1) as u32;
        proof {
            assert((bm >> k) & 1 == 1 <==> bm & (1u32 << k) != 0) by (bit_vector);
        }
        if self.rx_bitmap & bit != 0 {
            return false;
        }
        self.rx_bitmap = self.rx_bitmap | bit;
        true
    }
}

/// A counter admitted once is rejected when it comes again: the replay law.
pub proof fn lemma_replay_rejected(s: Session, c: u32)
    requires
        spec_rx_accept(s, c),
    ensures
        !spec_rx_accept(spec_rx_update(s, c), c),
{
    let s2 = spec_rx_update(s, c);
    if c > s.rx_ctr_max {
        assert(s2.rx_ctr_max == c);
        assert(spec_rx_seen(s2, c));
    } else {
        let k = ((s.rx_ctr_max - c) as u32 - 1) as u32;
        let bm = s.rx_bitmap;
        assert(k < 32);
        assert(((bm | (1u32 << k)) >> k) & 1 == 1) by (bit_vector)
            requires
                k < 32,
        ;
        assert(spec_rx_seen(s2, c));
    }
}

/// At most this many concurrent sessions.
pub const MAX_SESSIONS: usize = 16;

/// Whether some session in the table holds this local session id.
pub open spec fn spec_sid_taken(sessions: Seq<Session>, sid: u16) -> bool {
    exists|j: int| 0 <= j < sessions.len() && (#[trigger] sessions[j]).local_sess_id == sid
}

/// A table of at most sixteen sessions cannot hold all of the seventeen
/// lowest nonzero ids: some id among them is free.
proof fn lemma_sid_free_exists(sessions: Seq<Session>)
    requires
        sessions.len() <= MAX_SESSIONS,
    ensures
        exists|x: u16| 1 <= x <= MAX_SESSIONS + 1 && !(#[trigger] spec_sid_taken(sessions, x)),
{
    broadcast use vstd::seq_lib::seq_to_set_is_finite;

    assert_by_contradiction!(exists|x: u16|
        1 <= x <= MAX_SESSIONS + 1 && !(#[trigger] spec_sid_taken(sessions, x)), {
        let ids = sessions.map_values(|s: Session| s.local_sess_id as int);
        let taken = ids.to_set();
        ids.lemma_cardinality_of_set();
        let low = vstd::set_lib::set_int_range(1, MAX_SESSIONS + 2);
        vstd::set_lib::lemma_int_range(1, MAX_SESSIONS + 2);
        assert forall|x: int| low.contains(x) implies taken.contains(x) by {
            let xu = x as u16;
            assert(spec_sid_taken(sessions, xu)) by {
                if !spec_sid_taken(sessions, xu) {
                    assert(1 <= xu <= MAX_SESSIONS + 1 && !spec_sid_taken(sessions, xu));
                }
            }
            let j = choose|j: int|
                0 <= j < sessions.len() && (#[trigger] sessions[j]).local_sess_id == xu;
            assert(ids[j] == x);
            assert(taken.contains(ids[j]));
        }
        vstd::set_lib::lemma_len_subset(low, taken);
    });
}

/// The bounded session table and the local session-id allocator.
pub struct SessionMgr {
    pub sessions: Vec<Session>,
    pub next_sess_id: u16,
}

impl SessionMgr {
    pub open spec fn wf(&self) -> bool {
        &&& self.sessions@.len() <= MAX_SESSIONS
        &&& self.next_sess_id >= 1
        &&& forall|i: int| 0 <= i < self.sessions@.len() ==> (#[trigger] self.sessions@[i]).wf()
    }

    pub fn new() -> (r: SessionMgr)
        ensures
            r.wf(),
            r.sessions@.len() == 0,
    {
        SessionMgr { sessions: Vec::new(), next_sess_id: 1 }
    }

    /// Hands out a local session id: 0 (the unencrypted id) is never used,
    /// and no live session holds the returned id. The monotonic candidate is
    /// preferred; only when a live session already holds it does the
    /// allocator fall back to the lowest free id.
    pub fn reserve_new_sess_id(&mut self) -> (r: u16)
        requires
            old(self).wf(),
        ensures
            final(self).wf(),
            r >= 1,
            !spec_sid_taken(old(self).sessions@, r),
            !spec_sid_taken(old(self).sessions@, old(self).next_sess_id) ==> r == old(
                self,
            ).next_sess_id,
            final(self).sessions@ == old(self).sessions@,
            final(self).next_sess_id == if old(self).next_sess_id == u16::MAX {
                1u16
            } else {
                (old(self).next_sess_id + 1) as u16
            },
    {
        let c0 = self.next_sess_id;
        if self.next_sess_id == u16::MAX {
            self.next_sess_id = 1;
        } else {
            self.next_sess_id = self.next_sess_id + 1;
        }
        if self.lookup_by_local_sid(c0).is_none() {
            return c0;
        }
        let bound: u16 = (MAX_SESSIONS as u16) + 1;
        let mut c: u16 = 1;
        while c <= bound
            invariant
                self.wf(),
                1 <= c <= bound + 1,
                bound == MAX_SESSIONS + 1,
                self.sessions@ == old(self).sessions@,
                spec_sid_taken(old(self).sessions@, old(self).next_sess_id),
                self.next_sess_id == if old(self).next_sess_id == u16::MAX {
                    1u16
                } else {
                    (old(self).next_sess_id + 1) as u16
                },
                forall|x: u16| 1 <= x < c ==> #[trigger] spec_sid_taken(self.sessions@, x),
            decreases bound + 1 - c,
        {
            if self.lookup_by_local_sid(c).is_none() {
                return c;
            }
            proof {
                assert(spec_sid_taken(self.sessions@, c));
            }
            c = c + 1;
        }
        // Unreachable: the loop found every candidate taken, yet a table of
        // at most sixteen sessions must leave one of the seventeen free.
        proof {
            lemma_sid_free_exists(self.sessions@);
            let x = choose|x: u16|
                1 <= x <= MAX_SESSIONS + 1 && !(#[trigger] spec_sid_taken(self.sessions@, x));
            assert(spec_sid_taken(self.sessions@, x));
        }
        1
    }

    /// Installs the encrypted session a finished handshake produced, cloned
    /// from the provisional session at `idx`.
    pub fn clone_session(&mut self, idx: usize, cd: &CloneData) -> (r: Result<usize, Error>)
        requires
            old(self).wf(),
            cd.wf(),
            idx < old(self).sessions@.len(),
        ensures
            final(self).wf(),
            final(self).next_sess_id == old(self).next_sess_id,
            match r {
                Ok(i) => {
                    &&& old(self).sessions@.len() < MAX_SESSIONS
                    &&& i == old(self).sessions@.len()
                    &&& final(self).sessions@.len() == old(self).sessions@.len() + 1
                    &&& final(self).sessions@[i as int].mode == cd.mode
                    &&& final(self).sessions@[i as int].local_sess_id == cd.local_sess_id
                    &&& final(self).sessions@[i as int].peer_sess_id == cd.peer_sess_id
                    &&& final(self).sessions@[i as int].enc_key@ == cd.enc_key@
                    &&& final(self).sessions@[i as int].dec_key@ == cd.dec_key@
                    &&& final(self).sessions@[i as int].att_challenge@ == cd.att_challenge@
                    &&& forall|j: int|
                        0 <= j < old(self).sessions@.len() ==> final(self).sessions@[j] == old(
                            self,
                        ).sessions@[j]
                },
                Err(e) => {
                    &&& old(self).sessions@.len() == MAX_SESSIONS
                    &&& e == Error::NoSpace
                    &&& final(self).sessions@ == old(self).sessions@
                },
            },
    {
        if self.sessions.len() >= MAX_SESSIONS {
            return Err(Error::NoSpace);
        }
        let base = &self.sessions[idx];
        let fresh = base.clone_session(cd);
        let i = self.sessions.len();
        self.sessions.push(fresh);
        Ok(i)
    }

    /// Finds the session with the given local session id.
    pub fn lookup_by_local_sid(&self, sid: u16) -> (r: Option<usize>)
        ensures
            match r {
                Some(i) => {
                    &&& i < self.sessions@.len()
                    &&& self.sessions@[i as int].local_sess_id == sid
                },
                None => forall|j: int|
                    0 <= j < self.sessions@.len() ==> (#[trigger] self.sessions@[j]).local_sess_id
                        != sid,
            },
    {
        let n = self.sessions.len();
        let mut i: usize = 0;
        while i < n
            invariant
                i <= n,
                n == self.sessions@.len(),
                forall|j: int|
                    0 <= j < i ==> (#[trigger] self.sessions@[j]).local_sess_id != sid,
            decreases n - i,
        {
            if self.sessions[i].local_sess_id == sid {
                return Some(i);
            }
            i = i + 1;
        }
        None
    }
}

} // verus!
