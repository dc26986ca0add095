//! The user directory: which site each user belongs to.
use vstd::prelude::*;

verus! {

/// The site of a user that the directory does not list.
pub const UNKNOWN_SITE: &'static str = "unknown";

/// One record of a user directory document.
pub struct UserEntry {
    pub username: String,
    pub location: String,
}

/// The mapping that a sequence of (user, site) records gives: a later record
/// of a user overrides an earlier one.
pub open spec fn dir_map(s: Seq<(Seq<char>, Seq<char>)>) -> Map<Seq<char>, Seq<char>>
    decreases s.len(),
{
    if s.len() == 0 {
        Map::empty()
    } else {
        dir_map(s.drop_last()).insert(s.last().0, s.last().1)
    }
}

/// The site that `dir` gives `user`: its entry, or `"unknown"`.
pub open spec fn resolve(dir: Map<Seq<char>, Seq<char>>, user: Seq<char>) -> Seq<char> {
    if dir.contains_key(user) {
        dir[user]
    } else {
        UNKNOWN_SITE@
    }
}

pub open spec fn entry_pairs(s: Seq<UserEntry>) -> Seq<(Seq<char>, Seq<char>)> {
    s.map_values(|e: UserEntry| (e.username@, e.location@))
}

/// A mapping from user to site, built once and then only read.
pub struct Directory {
    entries: Vec<UserEntry>,
}

impl View for Directory {
    type V = Map<Seq<char>, Seq<char>>;

    closed spec fn view(&self) -> Map<Seq<char>, Seq<char>> {
        dir_map(entry_pairs(self.entries@))
    }
}

proof fn lemma_later_entries_other(s: Seq<(Seq<char>, Seq<char>)>, j: int, u: Seq<char>)
    requires
        0 <= j <= s.len(),
        forall|k: int| j <= k < s.len() ==> (#[trigger] s[k]).0 != u,
    ensures
        dir_map(s).contains_key(u) == dir_map(s.take(j)).contains_key(u),
        dir_map(s).contains_key(u) ==> dir_map(s)[u] == dir_map(s.take(j))[u],
    decreases s.len(),
{
    if j == s.len() {
        assert(s.take(j) == s);
    } else {
        assert(s.drop_last().take(j) == s.take(j));
        assert(s.last().0 != u);
        lemma_later_entries_other(s.drop_last(), j, u);
    }
}

impl Directory {
    /// An empty directory: every user resolves to `"unknown"`.
    pub fn new() -> (r: Directory)
        ensures
            r@ == Map::<Seq<char>, Seq<char>>::empty(),
    {
        Directory { entries: Vec::new() }
    }

    /// Records that `username` belongs to `location`, overriding an earlier record.
    pub fn insert(&mut self, username: String, location: String)
        ensures
            final(self)@ == old(self)@.insert(username@, location@),
    {
        let ghost before = entry_pairs(self.entries@);
        self.entries.push(UserEntry { username, location });
        assert(entry_pairs(self.entries@).drop_last() == before);
    }

    /// The directory of `users`; where a user appears twice the last record wins.
    pub fn from_entries(users: &Vec<UserEntry>) -> (r: Directory)
        ensures
            r@ == dir_map(entry_pairs(users@)),
    {
        let mut d = Directory { entries: Vec::new() };
        let ghost all = entry_pairs(users@);
        assert(entry_pairs(d.entries@) =~= all.take(0));
        let mut i: usize = 0;
        while i < users.len()
            invariant
                all == entry_pairs(users@),
                i <= users@.len(),
                entry_pairs(d.entries@) == all.take(i as int),
            decreases users@.len() - i,
        {
            let e = UserEntry {
                username: users[i].username.clone(),
                location: users[i].location.clone(),
            };
            assert((e.username@, e.location@) == all[i as int]);
            let ghost before = d.entries@;
            d.entries.push(e);
            assert(d.entries@ == before.push(e));
            assert(entry_pairs(d.entries@) =~= entry_pairs(before).push(all[i as int]));
            i = i + 1;
            assert(entry_pairs(d.entries@) =~= all.take(i as int));
        }
        assert(all.take(i as int) == all);
        d
    }

    /// The site of `user`: its entry, or `"unknown"` where the directory has none.
    pub fn site_of(&self, user: &str) -> (r: String)
        ensures
            r@ == resolve(self@, user@),
            !self@.contains_key(user@) ==> r@ == UNKNOWN_SITE@,
    {
        let u: String = user.to_owned();
        let ghost s = entry_pairs(self.entries@);
        let mut i: usize = self.entries.len();
        while i > 0
            invariant
                s == entry_pairs(self.entries@),
                u@ == user@,
                i <= s.len(),
                forall|k: int| i <= k < s.len() ==> (#[trigger] s[k]).0 != user@,
            decreases i,
        {
            let e = &self.entries[i - 1];
            if e.username == u {
                proof {
                    lemma_later_entries_other(s, i as int, user@);
                    assert(s.take(i as int).drop_last() == s.take(i - 1));
                }
                return e.location.clone();
            }
            i = i - 1;
        }
        proof {
            lemma_later_entries_other(s, 0, user@);
        }
        UNKNOWN_SITE.to_owned()
    }
}

} // verus!
