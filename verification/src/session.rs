//! Sessions by token.
//!
//! A session is kept under a token of 16 random bytes, each written in
//! hexadecimal without a leading zero.

use vstd::prelude::*;
use vstd::string::StringExecFns;
use rand::Rng;
use crate::client::DAPClient;
use crate::text::str_eq;

verus! {

/// `Rng::gen::<u8>` of the rand crate on the generator that
/// `rand::thread_rng` returns, which the system seeds: one random byte.
/// Nothing is promised of it.
#[verifier::external_body]
fn random_byte() -> u8 {
    rand::thread_rng().gen::<u8>()
}

/// The character that writes the hexadecimal digit `d` in lower case.
pub open spec fn hex_digit(d: nat) -> char {
    if d < 10 {
        (48 + d) as char
    } else {
        (87 + d) as char
    }
}

/// `b` in hexadecimal, without a leading zero.
pub open spec fn hex_chars(b: u8) -> Seq<char> {
    if b < 16 {
        seq![hex_digit(b as nat)]
    } else {
        seq![hex_digit((b / 16) as nat), hex_digit((b % 16) as nat)]
    }
}

/// The token that `bytes` make: each byte in hexadecimal, one after the other.
pub open spec fn token_chars(bytes: Seq<u8>) -> Seq<char>
    decreases bytes.len(),
{
    if bytes.len() == 0 {
        Seq::empty()
    } else {
        token_chars(bytes.drop_last()) + hex_chars(bytes.last())
    }
}

/// The text of one hexadecimal digit.
fn hex_text(d: u8) -> (r: &'static str)
    requires
        d < 16,
    ensures
        r@ == seq![hex_digit(d as nat)],
{
    proof {
        reveal_strlit("0");
        reveal_strlit("1");
        reveal_strlit("2");
        reveal_strlit("3");
        reveal_strlit("4");
        reveal_strlit("5");
        reveal_strlit("6");
        reveal_strlit("7");
        reveal_strlit("8");
        reveal_strlit("9");
        reveal_strlit("a");
        reveal_strlit("b");
        reveal_strlit("c");
        reveal_strlit("d");
        reveal_strlit("e");
        reveal_strlit("f");
    }
    let r = if d == 0 {
        "0"
    } else if d == 1 {
        "1"
    } else if d == 2 {
        "2"
    } else if d == 3 {
        "3"
    } else if d == 4 {
        "4"
    } else if d == 5 {
        "5"
    } else if d == 6 {
        "6"
    } else if d == 7 {
        "7"
    } else if d == 8 {
        "8"
    } else if d == 9 {
        "9"
    } else if d == 10 {
        "a"
    } else if d == 11 {
        "b"
    } else if d == 12 {
        "c"
    } else if d == 13 {
        "d"
    } else if d == 14 {
        "e"
    } else {
        "f"
    };
    assert(r@ =~= seq![hex_digit(d as nat)]);
    r
}

/// Appends `b` in hexadecimal to `out`.
fn push_hex(out: &mut String, b: u8)
    ensures
        final(out)@ == old(out)@ + hex_chars(b),
{
    if b >= 16 {
        out.append(hex_text(b / 16));
    }
    out.append(hex_text(b % 16));
    assert(final(out)@ =~= old(out)@ + hex_chars(b));
}

/// The token that the bytes make.
pub fn token_from_bytes(bytes: &[u8]) -> (r: String)
    ensures
        r@ == token_chars(bytes@),
{
    let mut out = String::new();
    let mut i: usize = 0;
    while i < bytes.len()
        invariant
            i <= bytes.len(),
            out@ == token_chars(bytes@.take(i as int)),
        decreases bytes.len() - i,
    {
        proof {
            assert(bytes@.take(i as int + 1).drop_last() =~= bytes@.take(i as int));
            assert(bytes@.take(i as int + 1).last() == bytes@[i as int]);
        }
        push_hex(&mut out, bytes[i]);
        i = i + 1;
    }
    assert(bytes@.take(i as int) =~= bytes@);
    out
}

/// A fresh token: that of 16 random bytes.
pub fn generate_token() -> (r: String)
    ensures
        exists|bytes: Seq<u8>| bytes.len() == 16 && r@ == token_chars(bytes),
{
    let mut bytes: Vec<u8> = Vec::new();
    let mut i: usize = 0;
    while i < 16
        invariant
            i <= 16,
            bytes.len() == i,
        decreases 16 - i,
    {
        bytes.push(random_byte());
        i = i + 1;
    }
    token_from_bytes(bytes.as_slice())
}

/// One session.
pub struct DebugSession {
    pub token: String,
    pub client: DAPClient,
    pub configuration_done_sent: bool,
}

/// The sessions, each under its token.
pub struct SessionManager {
    sessions: Vec<DebugSession>,
}

/// Whether one of `sessions` is kept under `token`.
pub open spec fn keeps(sessions: Seq<DebugSession>, token: Seq<char>) -> bool {
    exists|i: int| 0 <= i < sessions.len() && (#[trigger] sessions[i]).token@ == token
}

/// Where the first of `sessions` from `start` on stands that is kept under
/// `token`.
pub open spec fn place_from(sessions: Seq<DebugSession>, token: Seq<char>, start: int) -> Option<int>
    decreases sessions.len() - start,
{
    if start < 0 || start >= sessions.len() {
        None
    } else if sessions[start].token@ == token {
        Some(start)
    } else {
        place_from(sessions, token, start + 1)
    }
}

/// Where the session stands that is kept under `token`.
pub open spec fn place_of(sessions: Seq<DebugSession>, token: Seq<char>) -> Option<int> {
    place_from(sessions, token, 0)
}

/// `sessions` without the one that is kept under `token`.
pub open spec fn without(sessions: Seq<DebugSession>, token: Seq<char>) -> Seq<DebugSession> {
    match place_of(sessions, token) {
        Some(i) => sessions.remove(i),
        None => sessions,
    }
}

/// The place that is found for a token is the first one under that token,
/// and where none is found there is none.
pub proof fn lemma_place_from(sessions: Seq<DebugSession>, token: Seq<char>, start: int)
    requires
        0 <= start,
    ensures
        match place_from(sessions, token, start) {
            Some(i) => start <= i < sessions.len() && sessions[i].token@ == token && forall|j: int|
                start <= j < i ==> (#[trigger] sessions[j]).token@ != token,
            None => forall|j: int|
                start <= j < sessions.len() ==> (#[trigger] sessions[j]).token@ != token,
        },
    decreases sessions.len() - start,
{
    if start < sessions.len() && sessions[start].token@ != token {
        lemma_place_from(sessions, token, start + 1);
    }
}

impl SessionManager {
    /// The sessions that are kept, the newest first.
    pub closed spec fn sessions(&self) -> Seq<DebugSession> {
        self.sessions@
    }

    /// No two sessions are kept under one token.
    pub closed spec fn wf(&self) -> bool {
        forall|i: int, j: int|
            0 <= i < j < self.sessions@.len() ==> (#[trigger] self.sessions@[i]).token@ != (
            #[trigger] self.sessions@[j]).token@
    }

    /// A manager that keeps no session.
    pub fn new() -> (r: Self)
        ensures
            r.wf(),
            r.sessions() == Seq::<DebugSession>::empty(),
    {
        SessionManager { sessions: Vec::new() }
    }

    /// Where the session kept under `token` stands.
    fn position(&self, token: &str) -> (r: Option<usize>)
        ensures
            match r {
                Some(i) => place_of(self.sessions(), token@) == Some(i as int) && i
                    < self.sessions().len(),
                None => place_of(self.sessions(), token@) is None,
            },
    {
        let mut i: usize = 0;
        while i < self.sessions.len()
            invariant
                i <= self.sessions.len(),
                place_of(self.sessions@, token@) == place_from(self.sessions@, token@, i as int),
            decreases self.sessions.len() - i,
        {
            if str_eq(self.sessions[i].token.as_str(), token) {
                return Some(i);
            }
            i = i + 1;
        }
        None
    }

    /// Keeps a new session under a fresh token and returns the token. The
    /// new session stands first; a session that was kept under the same
    /// token is replaced.
    pub fn create_session(&mut self, client: DAPClient) -> (token: String)
        requires
            old(self).wf(),
        ensures
            final(self).wf(),
            exists|bytes: Seq<u8>| bytes.len() == 16 && token@ == token_chars(bytes),
            final(self).sessions().len() > 0,
            final(self).sessions()[0].token@ == token@,
            final(self).sessions()[0].client == client,
            !final(self).sessions()[0].configuration_done_sent,
            final(self).sessions().drop_first() == without(old(self).sessions(), token@),
    {
        let token = generate_token();
        let _ = self.remove_session(token.as_str());
        let ghost before = self.sessions@;
        let session = DebugSession { token: token.clone(), client, configuration_done_sent: false };
        self.sessions.insert(0, session);
        proof {
            let now = self.sessions@;
            assert(now.drop_first() =~= before);
            lemma_place_from(before, token@, 0);
            assert forall|i: int, j: int| 0 <= i < j < now.len() implies (#[trigger] now[i]).token@
                != (#[trigger] now[j]).token@ by {
                if i == 0 {
                    assert(now[j] == before[j - 1]);
                } else {
                    assert(now[i] == before[i - 1]);
                    assert(now[j] == before[j - 1]);
                }
            }
        }
        token
    }

    /// The session that is kept under `token`.
    pub fn get_session(&self, token: &str) -> (r: Option<&DebugSession>)
        ensures
            match r {
                Some(s) => place_of(self.sessions(), token@) matches Some(i) && self.sessions()[i]
                    == *s && s.token@ == token@,
                None => place_of(self.sessions(), token@) is None && !keeps(
                    self.sessions(),
                    token@,
                ),
            },
    {
        proof {
            lemma_place_from(self.sessions@, token@, 0);
        }
        match self.position(token) {
            Some(i) => Some(&self.sessions[i]),
            None => None,
        }
    }

    /// Takes the session that is kept under `token` out and returns it, so
    /// that what belongs to it can be released.
    pub fn remove_session(&mut self, token: &str) -> (r: Option<DebugSession>)
        requires
            old(self).wf(),
        ensures
            final(self).wf(),
            final(self).sessions() == without(old(self).sessions(), token@),
            !keeps(final(self).sessions(), token@),
            match r {
                Some(s) => place_of(old(self).sessions(), token@) matches Some(i) && old(
                    self,
                ).sessions()[i] == s && s.token@ == token@,
                None => place_of(old(self).sessions(), token@) is None,
            },
    {
        proof {
            lemma_place_from(self.sessions@, token@, 0);
        }
        match self.position(token) {
            Some(i) => {
                let ghost before = self.sessions@;
                let taken = self.sessions.remove(i);
                proof {
                    let now = self.sessions@;
                    assert(now =~= before.remove(i as int));
                    assert forall|a: int, b: int| 0 <= a < b < now.len() implies (
                    #[trigger] now[a]).token@ != (#[trigger] now[b]).token@ by {
                        let x = if a < i {
                            a
                        } else {
                            a + 1
                        };
                        let y = if b < i {
                            b
                        } else {
                            b + 1
                        };
                        assert(now[a] == before[x]);
                        assert(now[b] == before[y]);
                    }
                    if keeps(now, token@) {
                        let j = choose|j: int| 0 <= j < now.len() && (#[trigger] now[j]).token@
                            == token@;
                        let y = if j < i {
                            j
                        } else {
                            j + 1
                        };
                        assert(now[j] == before[y]);
                        assert(before[y].token@ == before[i as int].token@);
                        assert(false);
                    }
                }
                Some(taken)
            },
            None => None,
        }
    }
}

} // verus!
