use vstd::prelude::*;

use crate::contract::{position_of, EventsContract};
use crate::effects::Effect;
use crate::errors::Error;
use crate::events::{Notice, TokenDeregistered, TokenRegistered};
use crate::types::{Account, Invocation};

verus! {

/// `s` with the element at `i` replaced by the last one and the last
/// dropped: the slot layout after removing `s[i]`.
pub open spec fn swap_remove_spec(s: Seq<Account>, i: int) -> Seq<Account> {
    s.update(i, s.last()).drop_last()
}

/// Removing by swap keeps the sequence free of duplicates and removes
/// exactly the element at `i` from its set of elements.
pub proof fn lemma_swap_remove(s: Seq<Account>, i: int)
    requires
        s.no_duplicates(),
        0 <= i < s.len(),
    ensures
        swap_remove_spec(s, i).no_duplicates(),
        swap_remove_spec(s, i).len() == s.len() - 1,
        swap_remove_spec(s, i).to_set() == s.to_set().remove(s[i]),
        forall|x: Account| #[trigger] swap_remove_spec(s, i).contains(x) <==> (s.contains(x) && x != s[i]),
{
    let r = swap_remove_spec(s, i);
    let n = s.len();
    assert forall|x: Account| #[trigger] r.contains(x) <==> (s.contains(x) && x != s[i]) by {
        if r.contains(x) {
            let k = choose|k: int| 0 <= k < r.len() && r[k] == x;
            if k == i {
                assert(x == s[n - 1]);
                assert(n - 1 != i);
            } else {
                assert(x == s[k]);
            }
        }
        if s.contains(x) && x != s[i] {
            let k = choose|k: int| 0 <= k < n && s[k] == x;
            if k == n - 1 {
                assert(r[i] == x);
            } else {
                assert(r[k] == x);
            }
        }
    }
    assert(r.to_set() =~= s.to_set().remove(s[i]));
    assert forall|a: int, b: int| 0 <= a < r.len() && 0 <= b < r.len() && a != b implies r[a] != r[b] by {
        let ia = if a == i { n - 1 } else { a };
        let ib = if b == i { n - 1 } else { b };
        assert(r[a] == s[ia]);
        assert(r[b] == s[ib]);
    }
}

/// The whitelisted tokens after applying `ops` in order to `start`: a
/// registration `(true, t)` adds `t`, a deregistration `(false, t)` drops it.
pub open spec fn whitelist_after(start: Set<Account>, ops: Seq<(bool, Account)>) -> Set<Account>
    decreases ops.len(),
{
    if ops.len() == 0 {
        start
    } else {
        let s = whitelist_after(start, ops.drop_last());
        if ops.last().0 {
            s.insert(ops.last().1)
        } else {
            s.remove(ops.last().1)
        }
    }
}

/// After the first `k` whitelist changes of a run, the list has no
/// duplicates and holds exactly the tokens registered and not since
/// deregistered.
proof fn lemma_whitelist_run(cs: Seq<EventsContract>, ops: Seq<(bool, Account)>, k: int)
    requires
        cs.len() == ops.len() + 1,
        cs[0].supported_tokens@.no_duplicates(),
        forall|j: int| 0 <= j < ops.len() ==> if (#[trigger] ops[j]).0 {
            EventsContract::token_registered(&cs[j], &cs[j + 1], ops[j].1) && cs[j].supported_tokens@.len() < u32::MAX
        } else {
            EventsContract::token_deregistered(&cs[j], &cs[j + 1], ops[j].1)
        },
        0 <= k <= ops.len(),
    ensures
        cs[k].supported_tokens@.no_duplicates(),
        cs[k].supported_tokens@.to_set() == whitelist_after(cs[0].supported_tokens@.to_set(), ops.subrange(0, k)),
    decreases k,
{
    if k > 0 {
        lemma_whitelist_run(cs, ops, k - 1);
        let s = cs[k - 1].supported_tokens@;
        let t = ops[k - 1].1;
        let pre = ops.subrange(0, k);
        assert(pre.drop_last() =~= ops.subrange(0, k - 1));
        assert(pre.last() == ops[k - 1]);
        if ops[k - 1].0 {
            if s.contains(t) {
                assert(s.to_set().insert(t) =~= s.to_set());
            } else {
                assert forall|x: Account| s.push(t).to_set().contains(x) <==> s.to_set().insert(t).contains(x) by {
                    if s.push(t).contains(x) {
                        let i = choose|i: int| 0 <= i < s.push(t).len() && s.push(t)[i] == x;
                        if i < s.len() {
                            assert(s[i] == x);
                        }
                    }
                    if s.contains(x) {
                        let i = choose|i: int| 0 <= i < s.len() && s[i] == x;
                        assert(s.push(t)[i] == x);
                    }
                    assert(s.push(t)[s.len() as int] == t);
                }
                assert(s.push(t).to_set() =~= s.to_set().insert(t));
            }
        } else {
            if s.contains(t) {
                let i = s.index_of(t);
                assert(s[i] == t);
                lemma_swap_remove(s, i);
            } else {
                assert(s.to_set().remove(t) =~= s.to_set());
            }
        }
    }
}

/// Whitelist enumeration follows registrations: after any run of successful
/// registrations and deregistrations, the slots `0 .. count` hold exactly
/// the tokens registered and not since deregistered, each once. Stated for
/// registrations made while the list had room.
pub proof fn law_whitelist_enumerates_registered(cs: Seq<EventsContract>, ops: Seq<(bool, Account)>)
    requires
        cs.len() == ops.len() + 1,
        cs[0].supported_tokens@.no_duplicates(),
        forall|j: int| 0 <= j < ops.len() ==> if (#[trigger] ops[j]).0 {
            EventsContract::token_registered(&cs[j], &cs[j + 1], ops[j].1) && cs[j].supported_tokens@.len() < u32::MAX
        } else {
            EventsContract::token_deregistered(&cs[j], &cs[j + 1], ops[j].1)
        },
    ensures
        cs[ops.len() as int].supported_tokens@.no_duplicates(),
        cs[ops.len() as int].supported_tokens@.to_set() == whitelist_after(cs[0].supported_tokens@.to_set(), ops),
        cs[ops.len() as int].supported_tokens@.len() == whitelist_after(cs[0].supported_tokens@.to_set(), ops).len(),
{
    let n = ops.len() as int;
    lemma_whitelist_run(cs, ops, n);
    assert(ops.subrange(0, n) =~= ops);
    cs[n].supported_tokens@.unique_seq_to_set();
}

impl EventsContract {
    /// Whether `token` is whitelisted.
    pub open spec fn token_supported(&self, token: Account) -> bool {
        self.supported_tokens@.contains(token)
    }

    /// `new`'s whitelist is `old`'s with `token` appended, unless it was
    /// already there or the list is full.
    pub open spec fn token_registered(old: &EventsContract, new: &EventsContract, token: Account) -> bool {
        new.supported_tokens@ == if old.token_supported(token) || old.supported_tokens@.len() == u32::MAX {
            old.supported_tokens@
        } else {
            old.supported_tokens@.push(token)
        }
    }

    /// `new`'s whitelist is `old`'s with `token` swap-removed, if it was
    /// there.
    pub open spec fn token_deregistered(old: &EventsContract, new: &EventsContract, token: Account) -> bool {
        new.supported_tokens@ == if old.token_supported(token) {
            swap_remove_spec(old.supported_tokens@, old.supported_tokens@.index_of(token))
        } else {
            old.supported_tokens@
        }
    }

    /// Adds `token` to the whitelist (a no-op when already there).
    pub fn register_supported_token(&mut self, inv: &Invocation, token: Account) -> (r: Result<Vec<Effect>, Error>)
        requires
            old(self).wf(),
        ensures
            final(self).wf(),
            r is Err ==> *final(self) == *old(self),
            r is Err <==> old(self).admin_error(inv) is Some,
            r matches Err(e) ==> Some(e) == old(self).admin_error(inv),
            r matches Ok(fx) ==> {
                &&& EventsContract::token_registered(old(self), final(self), token)
                &&& *final(self) == EventsContract { supported_tokens: final(self).supported_tokens, ..*old(self) }
                &&& fx@ == seq![Effect::Publish(Notice::TokenRegistered(TokenRegistered { token }))]
            },
    {
        self.require_admin(inv)?;
        if position_of(&self.supported_tokens, token).is_none() && self.supported_tokens.len() < 0xFFFF_FFFFusize {
            self.supported_tokens.push(token);
        }
        let mut fx: Vec<Effect> = Vec::new();
        fx.push(Effect::Publish(Notice::TokenRegistered(TokenRegistered { token })));
        Ok(fx)
    }

    /// Removes `token` from the whitelist; the last token takes its slot.
    pub fn deregister_supported_token(&mut self, inv: &Invocation, token: Account) -> (r: Result<Vec<Effect>, Error>)
        requires
            old(self).wf(),
        ensures
            final(self).wf(),
            r is Err ==> *final(self) == *old(self),
            r is Err <==> old(self).admin_error(inv) is Some,
            r matches Err(e) ==> Some(e) == old(self).admin_error(inv),
            r matches Ok(fx) ==> {
                &&& EventsContract::token_deregistered(old(self), final(self), token)
                &&& !final(self).token_supported(token)
                &&& forall|t: Account| t != token ==> (final(self).token_supported(t) <==> old(self).token_supported(t))
                &&& *final(self) == EventsContract { supported_tokens: final(self).supported_tokens, ..*old(self) }
                &&& fx@ == seq![Effect::Publish(Notice::TokenDeregistered(TokenDeregistered { token }))]
            },
    {
        self.require_admin(inv)?;
        match position_of(&self.supported_tokens, token) {
            Some(i) => {
                proof {
                    let s = self.supported_tokens@;
                    assert(s.contains(token));
                    let k = s.index_of(token);
                    assert(s[k] == token);
                    if k != i as int {
                        assert(s[i as int] == s[k]);
                    }
                    lemma_swap_remove(s, i as int);
                }
                self.supported_tokens.swap_remove(i);
            },
            None => {},
        }
        let mut fx: Vec<Effect> = Vec::new();
        fx.push(Effect::Publish(Notice::TokenDeregistered(TokenDeregistered { token })));
        Ok(fx)
    }

    /// Whether `token` is whitelisted.
    pub fn is_supported_token(&self, token: Account) -> (b: bool)
        ensures
            b == self.token_supported(token),
    {
        position_of(&self.supported_tokens, token).is_some()
    }

    /// `TokenNotSupported` unless `token` is whitelisted.
    pub fn require_supported(&self, token: Account) -> (r: Result<(), Error>)
        ensures
            r is Err <==> !self.token_supported(token),
            r matches Err(e) ==> e == Error::TokenNotSupported,
    {
        if self.is_supported_token(token) {
            Ok(())
        } else {
            Err(Error::TokenNotSupported)
        }
    }

    /// Number of whitelisted tokens.
    pub fn supported_token_count(&self) -> (n: u32)
        requires
            self.wf(),
        ensures
            n == self.supported_tokens@.len(),
    {
        self.supported_tokens.len() as u32
    }

    /// The token in slot `idx`, if any.
    pub fn supported_token_at(&self, idx: u32) -> (r: Option<Account>)
        ensures
            r == if idx < self.supported_tokens@.len() {
                Some(self.supported_tokens@[idx as int])
            } else {
                None::<Account>
            },
    {
        if (idx as usize) < self.supported_tokens.len() {
            Some(self.supported_tokens[idx as usize])
        } else {
            None
        }
    }
}

} // verus!
