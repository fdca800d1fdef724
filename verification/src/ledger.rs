use vstd::prelude::*;

verus! {

/// First-match lookup in a sequence of (address, balance) entries.
pub open spec fn find_bal(s: Seq<(String, u128)>, a: Seq<char>) -> Option<u128>
    decreases s.len(),
{
    if s.len() == 0 {
        None
    } else if s[0].0@ == a {
        Some(s[0].1)
    } else {
        find_bal(s.subrange(1, s.len() as int), a)
    }
}

/// The address-to-balance mapping kept by the mock contract: its sole
/// persisted state. Unknown addresses hold balance 0.
pub struct Ledger {
    entries: Vec<(String, u128)>,
}

impl View for Ledger {
    type V = Seq<(String, u128)>;

    closed spec fn view(&self) -> Seq<(String, u128)> {
        self.entries@
    }
}

impl Ledger {
    /// Every stored address appears at most once.
    pub open spec fn well_formed(self) -> bool {
        forall|i: int, j: int|
            0 <= i < j < self@.len() ==> self@[i].0@ != self@[j].0@
    }

    /// The balance of an address: the stored amount, or 0 when absent.
    pub open spec fn balance_spec(self, a: Seq<char>) -> u128 {
        match find_bal(self@, a) {
            Some(b) => b,
            None => 0,
        }
    }

    /// An empty ledger: every balance is 0.
    pub fn new() -> (r: Ledger)
        ensures
            r.well_formed(),
            r@.len() == 0,
            forall|a: Seq<char>| r.balance_spec(a) == 0,
    {
        Ledger { entries: Vec::new() }
    }

    /// Reads the balance of `addr`, 0 for addresses never credited.
    pub fn balance_of(&self, addr: &String) -> (r: u128)
        ensures
            r == self.balance_spec(addr@),
    {
        let n = self.entries.len();
        let mut i: usize = 0;
        proof {
            assert(self.entries@.subrange(0, n as int) =~= self.entries@);
        }
        while i < n
            invariant
                0 <= i <= n,
                n == self.entries@.len(),
                find_bal(self.entries@, addr@) == find_bal(
                    self.entries@.subrange(i as int, n as int),
                    addr@,
                ),
            decreases n - i,
        {
            if self.entries[i].0 == *addr {
                proof {
                    assert(self.entries@.subrange(i as int, n as int)[0] == self.entries@[i as int]);
                }
                return self.entries[i].1;
            }
            proof {
                let tail = self.entries@.subrange(i as int, n as int);
                assert(tail[0] == self.entries@[i as int]);
                assert(tail.subrange(1, tail.len() as int) =~= self.entries@.subrange(
                    i as int + 1,
                    n as int,
                ));
            }
            i = i + 1;
        }
        proof {
            assert(self.entries@.subrange(n as int, n as int).len() == 0);
        }
        0
    }

    /// Adds `amount` to the balance of `addr`, creating the entry on first
    /// credit. Every other balance is untouched.
    pub fn credit(&mut self, addr: String, amount: u128)
        requires
            old(self).well_formed(),
            old(self).balance_spec(addr@) + amount <= u128::MAX,
        ensures
            final(self).well_formed(),
            final(self).balance_spec(addr@) == old(self).balance_spec(addr@) + amount,
            forall|a: Seq<char>| a != addr@ ==> final(self).balance_spec(a) == old(
                self,
            ).balance_spec(a),
    {
        let ghost s0 = old(self)@;
        let n = self.entries.len();
        let mut i: usize = 0;
        proof {
            assert(s0 == self.entries@);
        }
        while i < n
            invariant
                0 <= i <= n,
                n == self.entries@.len(),
                self.entries@ == s0,
                s0 == old(self)@,
                old(self).well_formed(),
                old(self).balance_spec(addr@) + amount <= u128::MAX,
                forall|j: int| 0 <= j < i ==> s0[j].0@ != addr@,
            decreases n - i,
        {
            if self.entries[i].0 == addr {
                let old_amount = self.entries[i].1;
                proof {
                    lemma_find_first_match(s0, addr@, i as int);
                }
                self.entries[i] = (addr, old_amount + amount);
                proof {
                    lemma_find_update(s0, i as int, (addr, (old_amount + amount) as u128));
                    assert(forall|x: int, y: int|
                        0 <= x < y < self.entries@.len() ==> self.entries@[x].0@
                            != self.entries@[y].0@) by {
                        assert(forall|k: int|
                            0 <= k < s0.len() ==> #[trigger] self.entries@[k].0@ == s0[k].0@);
                    }
                }
                return;
            }
            i = i + 1;
        }
        proof {
            lemma_find_no_match(s0, addr@);
        }
        self.entries.push((addr, amount));
        proof {
            lemma_find_push(s0, (addr, amount));
            assert(forall|x: int, y: int|
                0 <= x < y < self.entries@.len() ==> self.entries@[x].0@ != self.entries@[y].0@)
                by {
                assert(forall|k: int| 0 <= k < s0.len() ==> self.entries@[k] == s0[k]);
                assert(self.entries@[s0.len() as int].0@ == addr@);
            }
        }
    }
}

/// When the entries before `i` do not carry key `k = s[i].0@`, the lookup of
/// `k` lands exactly on entry `i`.
proof fn lemma_find_first_match(s: Seq<(String, u128)>, a: Seq<char>, i: int)
    requires
        0 <= i < s.len(),
        s[i].0@ == a,
        forall|j: int| 0 <= j < i ==> s[j].0@ != a,
    ensures
        find_bal(s, a) == Some(s[i].1),
    decreases i,
{
    if i == 0 {
    } else {
        let tail = s.subrange(1, s.len() as int);
        assert(tail[i - 1] == s[i]);
        assert(forall|j: int| 0 <= j < i - 1 ==> tail[j] == s[j + 1]);
        lemma_find_first_match(tail, a, i - 1);
    }
}

/// When no entry carries key `a`, the lookup of `a` comes back empty.
proof fn lemma_find_no_match(s: Seq<(String, u128)>, a: Seq<char>)
    requires
        forall|j: int| 0 <= j < s.len() ==> s[j].0@ != a,
    ensures
        find_bal(s, a) is None,
    decreases s.len(),
{
    if s.len() > 0 {
        let tail = s.subrange(1, s.len() as int);
        assert(forall|j: int| 0 <= j < tail.len() ==> tail[j] == s[j + 1]);
        lemma_find_no_match(tail, a);
    }
}

/// Replacing entry `i` by a pair with the same key changes the lookup of that
/// key to the new amount and no other lookup, provided no earlier entry
/// carries the key.
proof fn lemma_find_update(s: Seq<(String, u128)>, i: int, p: (String, u128))
    requires
        0 <= i < s.len(),
        p.0@ == s[i].0@,
        forall|j: int| 0 <= j < i ==> s[j].0@ != s[i].0@,
    ensures
        find_bal(s.update(i, p), s[i].0@) == Some(p.1),
        forall|a: Seq<char>| a != s[i].0@ ==> find_bal(s.update(i, p), a) == find_bal(s, a),
    decreases s.len(),
{
    let t = s.update(i, p);
    if i == 0 {
        assert(t[0] == p);
        assert(t.subrange(1, t.len() as int) =~= s.subrange(1, s.len() as int));
        assert forall|a: Seq<char>| a != s[i].0@ implies find_bal(t, a) == find_bal(s, a) by {
            assert(t[0].0@ == s[0].0@);
        }
    } else {
        let st = s.subrange(1, s.len() as int);
        assert(forall|j: int| 0 <= j < st.len() ==> st[j] == s[j + 1]);
        lemma_find_update(st, i - 1, p);
        assert(t[0] == s[0]);
        assert(t.subrange(1, t.len() as int) =~= st.update(i - 1, p));
        assert(st[i - 1] == s[i]);
        assert(find_bal(t, s[i].0@) == Some(p.1));
        assert forall|a: Seq<char>| a != s[i].0@ implies find_bal(t, a) == find_bal(s, a) by {
            assert(find_bal(t, a) == if t[0].0@ == a {
                Some(t[0].1)
            } else {
                find_bal(st.update(i - 1, p), a)
            });
            assert(find_bal(s, a) == if s[0].0@ == a {
                Some(s[0].1)
            } else {
                find_bal(st, a)
            });
        }
    }
}

/// Appending an entry with a key that the sequence lacks adds that lookup and
/// changes no other.
proof fn lemma_find_push(s: Seq<(String, u128)>, p: (String, u128))
    requires
        find_bal(s, p.0@) is None,
    ensures
        find_bal(s.push(p), p.0@) == Some(p.1),
        forall|a: Seq<char>| a != p.0@ ==> find_bal(s.push(p), a) == find_bal(s, a),
    decreases s.len(),
{
    let t = s.push(p);
    if s.len() == 0 {
        assert(t[0] == p);
        assert(find_bal(t, p.0@) == Some(p.1));
        assert forall|a: Seq<char>| a != p.0@ implies find_bal(t, a) == find_bal(s, a) by {
            assert(t.len() == 1);
            assert(t.subrange(1, 1) =~= Seq::<(String, u128)>::empty());
            assert(find_bal(t.subrange(1, t.len() as int), a) is None);
            assert(find_bal(t, a) is None);
            assert(find_bal(s, a) is None);
        }
    } else {
        let st = s.subrange(1, s.len() as int);
        assert(t[0] == s[0]);
        assert(t.subrange(1, t.len() as int) =~= st.push(p));
        lemma_find_push(st, p);
        assert(find_bal(t, p.0@) == Some(p.1));
        assert forall|a: Seq<char>| a != p.0@ implies find_bal(t, a) == find_bal(s, a) by {
            assert(find_bal(t, a) == if t[0].0@ == a {
                Some(t[0].1)
            } else {
                find_bal(st.push(p), a)
            });
            assert(find_bal(s, a) == if s[0].0@ == a {
                Some(s[0].1)
            } else {
                find_bal(st, a)
            });
        }
    }
}

} // verus!
