//! Shared access control: the administrator, role membership, the pause flag, the
//! reentrancy guard, the logic version and the upgrade timelock.
use vstd::prelude::*;

verus! {

/// Whether two byte strings are equal.
pub fn bytes_eq(a: &Vec<u8>, b: &Vec<u8>) -> (r: bool)
    ensures
        r == (a@ == b@),
{
    if a.len() != b.len() {
        return false;
    }
    let mut i: usize = 0;
    while i < a.len()
        invariant
            a@.len() == b@.len(),
            i <= a@.len(),
            forall|j: int| 0 <= j < i ==> a@[j] == b@[j],
        decreases a@.len() - i,
    {
        if a[i] != b[i] {
            return false;
        }
        i = i + 1;
    }
    assert(a@ =~= b@);
    true
}

/// Whether two strings are equal.
pub fn str_eq(a: &String, b: &String) -> (r: bool)
    ensures
        r == (a@ == b@),
{
    a.eq(b)
}

/// Whether a list of grants contains the grant `g`.
pub open spec fn grants_contain(s: Seq<(String, u64)>, g: (Seq<char>, u64)) -> bool {
    exists|j: int| 0 <= j < s.len() && #[trigger] s[j].0@ == g.0 && s[j].1 == g.1
}

proof fn lemma_grants_push(s: Seq<(String, u64)>, x: (String, u64), g: (Seq<char>, u64))
    ensures
        grants_contain(s.push(x), g) == (grants_contain(s, g) || (x.0@ == g.0 && x.1 == g.1)),
{
    let t = s.push(x);
    if grants_contain(t, g) {
        let j = choose|j: int| 0 <= j < t.len() && #[trigger] t[j].0@ == g.0 && t[j].1 == g.1;
        if j < s.len() {
            assert(s[j] == t[j]);
        }
    }
    if grants_contain(s, g) {
        let j = choose|j: int| 0 <= j < s.len() && #[trigger] s[j].0@ == g.0 && s[j].1 == g.1;
        assert(t[j] == s[j]);
    }
    if x.0@ == g.0 && x.1 == g.1 {
        assert(t[s.len() as int] == x);
    }
}

/// A set of (role name, account) grants.
pub struct RoleSet {
    pub grants: Vec<(String, u64)>,
}

impl RoleSet {
    /// The grants, as a set of (role name, account) pairs.
    pub open spec fn view_set(self) -> Set<(Seq<char>, u64)> {
        Set::new(|g: (Seq<char>, u64)| grants_contain(self.grants@, g))
    }

    /// Whether `account` holds `role`.
    pub open spec fn holds(self, role: Seq<char>, account: u64) -> bool {
        self.view_set().contains((role, account))
    }

    /// No grants.
    pub fn new() -> (r: Self)
        ensures
            r.view_set() == Set::<(Seq<char>, u64)>::empty(),
            r.grants@.len() == 0,
    {
        let r = RoleSet { grants: Vec::new() };
        assert(r.view_set() =~= Set::<(Seq<char>, u64)>::empty());
        r
    }

    /// Whether `account` holds `role`.
    pub fn has_role(&self, role: &String, account: u64) -> (r: bool)
        ensures
            r == self.holds(role@, account),
    {
        let mut i: usize = 0;
        while i < self.grants.len()
            invariant
                i <= self.grants@.len(),
                forall|j: int|
                    0 <= j < i ==> !(#[trigger] self.grants@[j].0@ == role@ && self.grants@[j].1
                        == account),
            decreases self.grants@.len() - i,
        {
            if self.grants[i].1 == account && str_eq(&self.grants[i].0, role) {
                assert(grants_contain(self.grants@, (role@, account)));
                return true;
            }
            i = i + 1;
        }
        false
    }

    /// Grants `role` to `account`.
    pub fn grant(&mut self, role: String, account: u64)
        ensures
            final(self).view_set() == old(self).view_set().insert((role@, account)),
    {
        let ghost o = self.view_set();
        let ghost og = self.grants@;
        let ghost x = (role, account);
        let ghost r = role@;
        self.grants.push((role, account));
        assert(self.grants@ == og.push(x));
        assert forall|g: (Seq<char>, u64)|
            #[trigger] self.view_set().contains(g) == o.insert((r, account)).contains(g) by {
            lemma_grants_push(og, x, g);
        }
        assert(self.view_set() =~= o.insert((r, account)));
    }

    /// Revokes `role` from `account`.
    pub fn revoke(&mut self, role: &String, account: u64)
        ensures
            final(self).view_set() == old(self).view_set().remove((role@, account)),
    {
        let ghost o = self.view_set();
        let ghost target = (role@, account);
        let mut kept: Vec<(String, u64)> = Vec::new();
        let mut i: usize = 0;
        let n0 = self.grants.len();
        while i < n0
            invariant
                n0 == self.grants@.len(),
                target == (role@, account),
                self.grants@ == old(self).grants@,
                i <= n0,
                forall|g: (Seq<char>, u64)|
                    #[trigger] grants_contain(kept@, g) <==> (g != target && grants_contain(
                        self.grants@.take(i as int),
                        g,
                    )),
            decreases n0 - i,
        {
            let ghost kept_old = kept@;
            let ghost cur = self.grants@[i as int];
            assert(self.grants@.take(i + 1) == self.grants@.take(i as int).push(cur));
            let acc_eq = self.grants[i].1 == account;
            let name_eq = str_eq(&self.grants[i].0, role);
            assert(acc_eq == (cur.1 == account));
            assert(name_eq == (cur.0@ == role@));
            let same = acc_eq && name_eq;
            if !same {
                let g = (self.grants[i].0.clone(), self.grants[i].1);
                assert(g.0@ == cur.0@ && g.1 == cur.1);
                kept.push(g);
                assert(kept@ == kept_old.push(g));
                assert forall|h: (Seq<char>, u64)|
                    #[trigger] grants_contain(kept@, h) <==> (h != target && grants_contain(
                        self.grants@.take(i + 1),
                        h,
                    )) by {
                    lemma_grants_push(kept_old, g, h);
                    lemma_grants_push(self.grants@.take(i as int), cur, h);
                }
            } else {
                assert(cur.0@ == role@ && cur.1 == account);
                assert forall|h: (Seq<char>, u64)|
                    #[trigger] grants_contain(kept@, h) <==> (h != target && grants_contain(
                        self.grants@.take(i + 1),
                        h,
                    )) by {
                    lemma_grants_push(self.grants@.take(i as int), cur, h);
                }
            }
            i = i + 1;
        }
        assert(self.grants@.take(n0 as int) == self.grants@);
        self.grants = kept;
        assert(self.view_set() =~= o.remove(target));
    }
}


/// A contract WASM upgrade waiting behind a timelock: the new code's hash and the
/// time after which it may be installed.
pub struct UpgradeTimelock {
    pub scheduled: Option<(Vec<u8>, u64)>,
}

impl UpgradeTimelock {
    /// Whether an upgrade to `hash` is scheduled with unlock time `unlock_time`.
    pub open spec fn is_scheduled(self, hash: Seq<u8>, unlock_time: u64) -> bool {
        self.scheduled matches Some(p) && p.0@ == hash && p.1 == unlock_time
    }

    /// Nothing scheduled.
    pub fn new() -> (r: Self)
        ensures
            r.scheduled is None,
    {
        UpgradeTimelock { scheduled: None }
    }

    /// Schedules an upgrade to `new_wasm_hash`, executable from `unlock_time` on,
    /// replacing any earlier schedule. The unlock time must lie in the future.
    pub fn schedule(&mut self, new_wasm_hash: Vec<u8>, unlock_time: u64, now: u64)
        requires
            now < unlock_time,
        ensures
            final(self).is_scheduled(new_wasm_hash@, unlock_time),
    {
        self.scheduled = Some((new_wasm_hash, unlock_time));
    }

    /// Cancels the scheduled upgrade, if any.
    pub fn cancel(&mut self)
        ensures
            final(self).scheduled is None,
    {
        self.scheduled = None;
    }

    /// Whether the scheduled upgrade may be executed now with code `hash`: one is
    /// scheduled, for that hash, and its timelock has expired.
    pub open spec fn ready(self, hash: Seq<u8>, now: u64) -> bool {
        self.scheduled matches Some(p) && p.0@ == hash && now >= p.1
    }

    /// Executes the scheduled upgrade: the schedule is consumed so it cannot be reused.
    /// The new code is installed by the host.
    pub fn execute(&mut self, new_wasm_hash: &Vec<u8>, now: u64)
        requires
            old(self).ready(new_wasm_hash@, now),
        ensures
            final(self).scheduled is None,
    {
        self.scheduled = None;
    }

    /// Whether `execute` may be called.
    pub fn can_execute(&self, new_wasm_hash: &Vec<u8>, now: u64) -> (r: bool)
        ensures
            r == self.ready(new_wasm_hash@, now),
    {
        match &self.scheduled {
            None => false,
            Some(p) => bytes_eq(&p.0, new_wasm_hash) && now >= p.1,
        }
    }
}


/// A scheduled upgrade is used at most once, and never before its time: once executed
/// or cancelled nothing is scheduled, so no hash is ready; while its unlock time is
/// ahead, it is not ready either.
pub proof fn law_upgrade_timelock(t: UpgradeTimelock, hash: Seq<u8>, unlock_time: u64, now: u64)
    ensures
        t.scheduled is None ==> !t.ready(hash, now),
        t.is_scheduled(hash, unlock_time) && now < unlock_time ==> !t.ready(hash, now),
{
}

/// The lock that refuses a protected operation entered again before it finished.
pub struct ReentrancyGuard {
    pub held: bool,
}

impl ReentrancyGuard {
    /// A free guard.
    pub fn new() -> (r: Self)
        ensures
            !r.held,
    {
        ReentrancyGuard { held: false }
    }

    /// Takes the guard. Refuses (returns false, changing nothing) when it is already
    /// held: the call is a reentrant one.
    pub fn set_reentrancy_guard(&mut self) -> (r: bool)
        ensures
            r == !old(self).held,
            final(self).held,
    {
        if self.held {
            return false;
        }
        self.held = true;
        true
    }

    /// Releases the guard.
    pub fn remove_reentrancy_guard(&mut self)
        ensures
            !final(self).held,
    {
        self.held = false;
    }
}

} // verus!
