//! The registry of live terminal sessions, keyed by identifiers `term-<n>`
//! minted from a counter that only grows.

use vstd::prelude::*;
use vstd::string::*;
use crate::decimal::{decimal, lemma_decimal_injective, parse_u64, u64_text};
use crate::json::{Json, JsonTree};
use crate::methods::{ok_result, ok_tree, TermCloseParams, TermCreateResult, TermDataParams, TermDataResult};
use crate::params::text_of;
use crate::encoding::{base64url_decoded, base64url_text, decode_base64url, encode_base64url};

verus! {

/// The text that starts every terminal identifier.
pub open spec fn terminal_prefix() -> Seq<char> {
    seq!['t', 'e', 'r', 'm', '-']
}

/// The identifier of the session minted with number `n`.
pub open spec fn terminal_id(n: nat) -> Seq<char> {
    terminal_prefix() + decimal(n)
}

/// Sessions minted with different numbers have different identifiers.
pub proof fn lemma_terminal_id_injective(a: nat, b: nat)
    ensures
        terminal_id(a) == terminal_id(b) ==> a == b,
{
    if terminal_id(a) == terminal_id(b) {
        assert(decimal(a) =~= terminal_id(a).subrange(5, terminal_id(a).len() as int));
        assert(decimal(b) =~= terminal_id(b).subrange(5, terminal_id(b).len() as int));
        lemma_decimal_injective(a, b);
    }
}

/// Any number of sessions created one after another, with numbers
/// `first`, `first + 1`, ..., get pairwise distinct identifiers.
pub proof fn lemma_created_ids_distinct(first: nat, count: nat)
    ensures
        forall|i: nat, j: nat|
            i < j < count ==> #[trigger] terminal_id(first + i) != #[trigger] terminal_id(first + j),
{
    assert forall|i: nat, j: nat| i < j < count implies #[trigger] terminal_id(first + i)
        != #[trigger] terminal_id(first + j) by {
        lemma_terminal_id_injective(first + i, first + j);
    }
}

/// The number that the identifier `id` was minted with, if it has the form
/// `term-<n>`.
pub open spec fn id_number(id: Seq<char>) -> Option<u64> {
    if exists|n: u64| id == terminal_id(n as nat) {
        Some(choose|n: u64| id == terminal_id(n as nat))
    } else {
        None
    }
}

proof fn lemma_id_number(n: u64)
    ensures
        id_number(terminal_id(n as nat)) == Some(n),
{
    let m = choose|m: u64| terminal_id(n as nat) == terminal_id(m as nat);
    lemma_terminal_id_injective(n as nat, m as nat);
}

/// The identifier minted with number `n`.
pub fn format_terminal_id(n: u64) -> (r: String)
    ensures
        r@ == terminal_id(n as nat),
{
    let mut r = "term-".to_owned();
    proof {
        reveal_strlit("term-");
        assert("term-"@ =~= terminal_prefix());
    }
    let digits = u64_text(n);
    r.append(digits.as_str());
    r
}

/// The number in an identifier of the form `term-<n>`.
pub fn parse_terminal_id(id: &str) -> (r: Option<u64>)
    ensures
        r == id_number(id@),
{
    let len = id.unicode_len();
    proof {
        reveal_strlit("term-");
        assert("term-"@ =~= terminal_prefix());
    }
    if len < 5 || id.substring_char(0, 5).to_owned() != "term-".to_owned() {
        proof {
            assert forall|n: u64| id@ != terminal_id(n as nat) by {
                if id@ == terminal_id(n as nat) {
                    assert(id@.subrange(0, 5) =~= terminal_prefix());
                }
            }
        }
        return None;
    }
    let digits = id.substring_char(5, len);
    assert(id@ =~= terminal_prefix() + digits@) by {
        assert(id@.subrange(0, 5) =~= terminal_prefix());
    }
    match parse_u64(digits) {
        Some(n) => {
            proof {
                lemma_id_number(n);
            }
            Some(n)
        },
        None => {
            proof {
                assert forall|n: u64| id@ != terminal_id(n as nat) by {
                    if id@ == terminal_id(n as nat) {
                        assert(digits@ =~= id@.subrange(5, id@.len() as int));
                        assert(decimal(n as nat) =~= terminal_id(n as nat).subrange(
                            5,
                            id@.len() as int,
                        ));
                    }
                }
            }
            None
        },
    }
}

/// Live sessions of type `S`, each under the number it was minted with.
pub struct TerminalManager<S> {
    sessions: Vec<(u64, S)>,
    next: u64,
}

impl<S> TerminalManager<S> {
    /// The live sessions, by the number they were minted with.
    pub closed spec fn live(&self) -> Map<u64, S> {
        Map::new(
            |n: u64| exists|i: int| 0 <= i < self.sessions@.len() && self.sessions@[i].0 == n,
            |n: u64|
                self.sessions@[choose|i: int|
                    0 <= i < self.sessions@.len() && self.sessions@[i].0 == n].1,
        )
    }

    /// The number the next session will be minted with.
    pub closed spec fn next_number(&self) -> u64 {
        self.next
    }

    /// Numbers are unique, and each was minted before the counter's value.
    pub closed spec fn wf(&self) -> bool {
        &&& self.next >= 1
        &&& forall|i: int, j: int|
            0 <= i < j < self.sessions@.len() ==> self.sessions@[i].0 != self.sessions@[j].0
        &&& forall|i: int| 0 <= i < self.sessions@.len() ==> self.sessions@[i].0 < self.next
    }

    proof fn lemma_live_at(&self, i: int)
        requires
            self.wf(),
            0 <= i < self.sessions@.len(),
        ensures
            self.live().contains_key(self.sessions@[i].0),
            self.live()[self.sessions@[i].0] == self.sessions@[i].1,
    {
        let n = self.sessions@[i].0;
        let j = choose|j: int| 0 <= j < self.sessions@.len() && self.sessions@[j].0 == n;
        assert(j == i);
    }

    /// The number the next session will be minted with.
    pub fn next_number_exec(&self) -> (r: u64)
        ensures
            r == self.next_number(),
    {
        self.next
    }

    pub fn new() -> (r: TerminalManager<S>)
        ensures
            r.wf(),
            r.live() == Map::<u64, S>::empty(),
            r.next_number() == 1,
    {
        let r = TerminalManager { sessions: Vec::new(), next: 1 };
        assert(r.live() =~= Map::<u64, S>::empty());
        r
    }

    /// The slot of the live session numbered `n`, if any.
    fn slot_of(&self, n: u64) -> (r: Option<usize>)
        requires
            self.wf(),
        ensures
            r matches Some(i) ==> i < self.sessions@.len() && self.sessions@[i as int].0 == n,
            r is None ==> !self.live().contains_key(n),
    {
        let mut i: usize = 0;
        while i < self.sessions.len()
            invariant
                i <= self.sessions@.len(),
                forall|j: int| 0 <= j < i ==> self.sessions@[j].0 != n,
            decreases self.sessions@.len() - i,
        {
            if self.sessions[i].0 == n {
                return Some(i);
            }
            i = i + 1;
        }
        None
    }

    /// Adds `session` under a freshly minted identifier and returns it.
    pub fn create(&mut self, session: S) -> (id: String)
        requires
            old(self).wf(),
            old(self).next_number() < u64::MAX,
        ensures
            final(self).wf(),
            id@ == terminal_id(old(self).next_number() as nat),
            !old(self).live().contains_key(old(self).next_number()),
            final(self).live() == old(self).live().insert(old(self).next_number(), session),
            final(self).next_number() == old(self).next_number() + 1,
    {
        let ghost old_self = *self;
        let n = self.next;
        self.sessions.push((n, session));
        self.next = n + 1;
        proof {
            assert(self.wf());
            assert forall|k: u64| #[trigger] self.live().contains_key(k) == old_self.live().insert(
                n,
                session,
            ).contains_key(k) by {
                if k == n {
                    assert(self.sessions@[self.sessions@.len() - 1].0 == n);
                } else if old_self.live().contains_key(k) {
                    let j = choose|j: int| 0 <= j < old_self.sessions@.len() && old_self.sessions@[j].0 == k;
                    assert(self.sessions@[j] == old_self.sessions@[j]);
                }
            }
            assert forall|k: u64| #[trigger] self.live().contains_key(k) implies self.live()[k]
                == old_self.live().insert(n, session)[k] by {
                let j = choose|j: int| 0 <= j < self.sessions@.len() && self.sessions@[j].0 == k;
                self.lemma_live_at(j);
                if k != n {
                    assert(self.sessions@[j] == old_self.sessions@[j]);
                    old_self.lemma_live_at(j);
                }
            }
            assert(self.live() =~= old_self.live().insert(n, session));
        }
        format_terminal_id(n)
    }

    /// The live session with identifier `id`, if there is one.
    pub fn get(&self, id: &str) -> (r: Option<&S>)
        requires
            self.wf(),
        ensures
            r matches Some(s) ==> (id_number(id@) matches Some(n) && self.live().contains_key(n)
                && self.live()[n] == *s),
            r is None ==> (id_number(id@) matches Some(n) ==> !self.live().contains_key(n)),
    {
        match parse_terminal_id(id) {
            Some(n) => match self.slot_of(n) {
                Some(i) => {
                    proof {
                        self.lemma_live_at(i as int);
                    }
                    Some(&self.sessions[i].1)
                },
                None => None,
            },
            None => None,
        }
    }

    /// Removes the session with identifier `id`, if it is live, and returns
    /// it. Removing an identifier that is not live changes nothing.
    pub fn remove(&mut self, id: &str) -> (r: Option<S>)
        requires
            old(self).wf(),
        ensures
            final(self).wf(),
            final(self).next_number() == old(self).next_number(),
            match id_number(id@) {
                Some(n) => final(self).live() == old(self).live().remove(n) && (r matches Some(s)
                    ==> old(self).live().contains_key(n) && old(self).live()[n] == s) && (r is None
                    ==> !old(self).live().contains_key(n)),
                None => final(self).live() == old(self).live() && r is None,
            },
    {
        let ghost old_self = *self;
        match parse_terminal_id(id) {
            Some(n) => match self.slot_of(n) {
                Some(i) => {
                    proof {
                        self.lemma_live_at(i as int);
                    }
                    let (_, s) = self.sessions.remove(i);
                    proof {
                        assert(self.wf());
                        assert forall|k: u64| #[trigger] self.live().contains_key(k) == old_self.live().remove(
                            n,
                        ).contains_key(k) by {
                            if old_self.live().contains_key(k) && k != n {
                                let j = choose|j: int|
                                    0 <= j < old_self.sessions@.len() && old_self.sessions@[j].0 == k;
                                if j < i {
                                    assert(self.sessions@[j] == old_self.sessions@[j]);
                                } else {
                                    assert(self.sessions@[j - 1] == old_self.sessions@[j]);
                                }
                            }
                            if self.live().contains_key(k) {
                                let j = choose|j: int| 0 <= j < self.sessions@.len() && self.sessions@[j].0 == k;
                                if j < i {
                                    assert(self.sessions@[j] == old_self.sessions@[j]);
                                } else {
                                    assert(self.sessions@[j] == old_self.sessions@[j + 1]);
                                }
                            }
                        }
                        assert forall|k: u64| #[trigger] self.live().contains_key(k) implies self.live()[k]
                            == old_self.live().remove(n)[k] by {
                            let j = choose|j: int| 0 <= j < self.sessions@.len() && self.sessions@[j].0 == k;
                            self.lemma_live_at(j);
                            if j < i {
                                assert(self.sessions@[j] == old_self.sessions@[j]);
                                old_self.lemma_live_at(j);
                            } else {
                                assert(self.sessions@[j] == old_self.sessions@[j + 1]);
                                old_self.lemma_live_at(j + 1);
                            }
                        }
                        assert(self.live() =~= old_self.live().remove(n));
                    }
                    Some(s)
                },
                None => {
                    assert(self.live() =~= old_self.live().remove(n));
                    None
                },
            },
            None => None,
        }
    }

    /// How many sessions are live.
    pub fn len(&self) -> (r: usize)
        requires
            self.wf(),
        ensures
            r == self.live().len(),
    {
        proof {
            self.lemma_live_len();
        }
        self.sessions.len()
    }

    proof fn lemma_live_len(&self)
        requires
            self.wf(),
        ensures
            self.live().len() == self.sessions@.len(),
            self.live().dom().finite(),
    {
        let keys = Seq::new(self.sessions@.len(), |i: int| self.sessions@[i].0);
        assert(keys.no_duplicates());
        assert forall|k: u64| #[trigger] self.live().dom().contains(k) == keys.to_set().contains(k) by {
            if self.live().dom().contains(k) {
                let i = choose|i: int| 0 <= i < self.sessions@.len() && self.sessions@[i].0 == k;
                assert(keys[i] == k);
            }
            if keys.contains(k) {
                let i = choose|i: int| 0 <= i < keys.len() && keys[i] == k;
                assert(self.sessions@[i].0 == k);
            }
        }
        assert(self.live().dom() =~= keys.to_set());
        keys.unique_seq_to_set();
    }
}

/// Most bytes of output that one `terminal/data` request returns.
pub const OUTPUT_CHUNK: usize = 8192;

/// How long, in milliseconds, a `terminal/data` request waits for output.
pub const OUTPUT_GRACE_MILLIS: u64 = 10;

/// How many of `available` pending output bytes one request returns.
pub fn output_take(available: usize) -> (r: usize)
    ensures
        r == if available <= OUTPUT_CHUNK {
            available
        } else {
            OUTPUT_CHUNK
        },
{
    if available <= OUTPUT_CHUNK {
        available
    } else {
        OUTPUT_CHUNK
    }
}

/// How a new terminal's shell is started.
pub struct ShellCommand {
    /// The program: the user's login shell.
    pub program: String,
    pub args: Vec<String>,
    /// Variables exported to the shell.
    pub env: Vec<(String, String)>,
}

/// The shell a new terminal runs: the value of `SHELL` when it is set,
/// else `/bin/bash`, started as a login shell with a 256-colour, true-colour
/// terminal type.
pub fn shell_command(shell_var: Option<String>) -> (r: ShellCommand)
    ensures
        r.program@ == match shell_var {
            Some(s) => s@,
            None => "/bin/bash"@,
        },
        r.args@.len() == 1 && r.args@[0]@ == "-l"@,
        r.env@.len() == 2,
        r.env@[0].0@ == "TERM"@ && r.env@[0].1@ == "xterm-256color"@,
        r.env@[1].0@ == "COLORTERM"@ && r.env@[1].1@ == "truecolor"@,
{
    let program = match shell_var {
        Some(s) => s,
        None => "/bin/bash".to_owned(),
    };
    let mut args: Vec<String> = Vec::new();
    args.push("-l".to_owned());
    let mut env: Vec<(String, String)> = Vec::new();
    env.push(("TERM".to_owned(), "xterm-256color".to_owned()));
    env.push(("COLORTERM".to_owned(), "truecolor".to_owned()));
    ShellCommand { program, args, env }
}

/// Every number at or past the counter was never minted, so no live session
/// has it.
pub proof fn lemma_never_minted_not_live<S>(m: TerminalManager<S>, n: u64)
    requires
        m.wf(),
        n >= m.next_number(),
    ensures
        !m.live().contains_key(n),
{
}

/// The failure text for an identifier that names no live session.
pub open spec fn unknown_terminal_text(id: Seq<char>) -> Seq<char> {
    "unknown terminal: "@ + id
}

pub fn unknown_terminal(id: &str) -> (r: String)
    ensures
        r@ == unknown_terminal_text(id@),
{
    let mut m = "unknown terminal: ".to_owned();
    m.append(id);
    m
}

/// The failure text for input that is not URL-safe base64 starts with this.
pub open spec fn bad_base64_prefix() -> Seq<char> {
    "bad base64: "@
}

/// The terminal and the input bytes of a `terminal/data` request.
pub fn terminal_input(params: &Json) -> (r: Result<(String, Vec<u8>), String>)
    ensures
        !(params@ is Object) ==> r is Err,
        params@ is Object ==> match (text_of(params@, "id"@), text_of(params@, "data"@)) {
            (Err(e), _) => r matches Err(m) && m@ == e,
            (Ok(_), Err(e)) => r matches Err(m) && m@ == e,
            (Ok(id), Ok(data)) => match base64url_decoded(data) {
                Some(bytes) => r matches Ok((i, b)) && i@ == id && b@ == bytes,
                None => r matches Err(m) && m@.len() >= bad_base64_prefix().len() && m@.subrange(
                    0,
                    bad_base64_prefix().len() as int,
                ) == bad_base64_prefix(),
            },
        },
{
    let p = match TermDataParams::from_json(params) {
        Ok(p) => p,
        Err(e) => {
            return Err(e);
        },
    };
    match decode_base64url(p.data.as_str()) {
        Ok(bytes) => Ok((p.id, bytes)),
        Err(e) => {
            let mut m = "bad base64: ".to_owned();
            m.append(e.as_str());
            assert(m@.subrange(0, bad_base64_prefix().len() as int) =~= bad_base64_prefix());
            Err(m)
        },
    }
}

/// The result of a `terminal/data` request whose read gave `output`: the
/// bytes in URL-safe base64, the empty text when there were none.
pub fn terminal_output(output: &[u8]) -> (r: Json)
    ensures
        r@ == JsonTree::Object(seq![("output"@, JsonTree::Str(base64url_text(output@)))]),
        output@.len() == 0 ==> r@ == JsonTree::Object(seq![("output"@, JsonTree::Str(Seq::empty()))]),
{
    let text = encode_base64url(output);
    let r = TermDataResult { output: text };
    let j = r.to_json();
    proof {
        if output@.len() == 0 {
            assert(r.output@ =~= Seq::<char>::empty());
        }
    }
    j
}

/// Adds `session` to `manager` and returns the result of `terminal/create`:
/// the new identifier. Fails only when the counter is spent.
pub fn terminal_create<S>(manager: &mut TerminalManager<S>, session: S) -> (r: Result<Json, String>)
    requires
        old(manager).wf(),
    ensures
        final(manager).wf(),
        old(manager).next_number() < u64::MAX ==> {
            &&& r matches Ok(j) && j@ == JsonTree::Object(
                seq![("id"@, JsonTree::Str(terminal_id(old(manager).next_number() as nat)))],
            )
            &&& final(manager).live() == old(manager).live().insert(
                old(manager).next_number(),
                session,
            )
            &&& final(manager).next_number() == old(manager).next_number() + 1
        },
        old(manager).next_number() == u64::MAX ==> r is Err && *final(manager) == *old(manager),
{
    if manager.next_number_exec() == u64::MAX {
        return Err("terminal identifiers are spent".to_owned());
    }
    let id = manager.create(session);
    Ok(TermCreateResult { id }.to_json())
}

/// The live session named by `id`, or the unknown-terminal failure.
pub fn find_terminal<'a, S>(manager: &'a TerminalManager<S>, id: &str) -> (r: Result<&'a S, String>)
    requires
        manager.wf(),
    ensures
        r matches Ok(s) ==> (id_number(id@) matches Some(n) && manager.live().contains_key(n)
            && manager.live()[n] == *s),
        r matches Err(m) ==> m@ == unknown_terminal_text(id@) && (id_number(id@) matches Some(n)
            ==> !manager.live().contains_key(n)),
        (id_number(id@) matches Some(n) && manager.live().contains_key(n)) ==> r is Ok,
{
    match manager.get(id) {
        Some(s) => Ok(s),
        None => Err(unknown_terminal(id)),
    }
}

/// Handles `terminal/close`: the session named in `params` is removed if it
/// is live, and the result is `{"ok": true}` either way.
pub fn terminal_close<S>(manager: &mut TerminalManager<S>, params: &Json) -> (r: Result<Json, String>)
    requires
        old(manager).wf(),
    ensures
        final(manager).wf(),
        final(manager).next_number() == old(manager).next_number(),
        !(params@ is Object) ==> r is Err && final(manager).live() == old(manager).live(),
        params@ is Object ==> match text_of(params@, "id"@) {
            Err(e) => r matches Err(m) && m@ == e && final(manager).live() == old(manager).live(),
            Ok(id) => {
                &&& r matches Ok(j) && j@ == ok_tree()
                &&& final(manager).live() == match id_number(id) {
                    Some(n) => old(manager).live().remove(n),
                    None => old(manager).live(),
                }
            },
        },
{
    let p = match TermCloseParams::from_json(params) {
        Ok(p) => p,
        Err(e) => {
            return Err(e);
        },
    };
    let _closed = manager.remove(p.id.as_str());
    Ok(ok_result())
}

/// Closing the same identifier twice: both closes succeed, and the second
/// changes nothing.
pub proof fn lemma_close_twice<S>(live: Map<u64, S>, n: u64)
    ensures
        live.remove(n).remove(n) == live.remove(n),
        !live.remove(n).contains_key(n),
{
    assert(live.remove(n).remove(n) =~= live.remove(n));
}

} // verus!
