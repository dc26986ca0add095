//! Per-site aggregation: the licenses each site holds and who holds them.
use vstd::prelude::*;
use crate::error::ReportError;
use crate::scanner::views;

verus! {

/// What a site bucket holds: its total usage and the users that added to it, in order.
pub struct SiteView {
    pub usage: nat,
    pub users: Seq<Seq<char>>,
}

/// The licenses that users of one site hold.
pub struct Site {
    pub usage: u32,
    pub users: Vec<String>,
}

impl View for Site {
    type V = SiteView;

    open spec fn view(&self) -> SiteView {
        SiteView { usage: self.usage as nat, users: views(self.users@) }
    }
}

impl Site {
    /// A bucket that holds the first contribution: `lic_count` licenses of `user_name`.
    pub fn new(lic_count: u32, user_name: String) -> (r: Site)
        ensures
            r@ == (SiteView { usage: lic_count as nat, users: seq![user_name@] }),
    {
        let users = vec![user_name];
        assert(views(users@) =~= seq![user_name@]);
        Site { usage: lic_count, users }
    }

    /// Adds `val` licenses to the total.
    pub fn add(&mut self, val: u32)
        requires
            old(self).usage + val <= u32::MAX,
        ensures
            final(self)@ == (SiteView { usage: old(self)@.usage + val as nat, users: old(self)@.users }),
    {
        self.usage = self.usage + val;
    }

    /// Appends `user_name` to the users of the site.
    pub fn push_user(&mut self, user_name: String)
        ensures
            final(self)@ == (SiteView { usage: old(self)@.usage, users: old(self)@.users.push(user_name@) }),
    {
        let ghost before = self.users@;
        self.users.push(user_name);
        assert(views(self.users@) =~= views(before).push(user_name@));
    }
}

/// The index of the bucket of `site` in `t`, or -1 where there is none.
pub open spec fn find_site(t: Seq<(Seq<char>, SiteView)>, site: Seq<char>) -> int
    decreases t.len(),
{
    if t.len() == 0 {
        -1
    } else if t.last().0 == site {
        t.len() - 1
    } else {
        find_site(t.drop_last(), site)
    }
}

/// `count` licenses of `user` added to the bucket of `site`, which is made if
/// `t` has none.
pub open spec fn add_usage(t: Seq<(Seq<char>, SiteView)>, site: Seq<char>, count: nat, user: Seq<char>) -> Seq<(Seq<char>, SiteView)> {
    let i = find_site(t, site);
    if i >= 0 {
        t.update(i, (site, SiteView { usage: t[i].1.usage + count, users: t[i].1.users.push(user) }))
    } else {
        t.push((site, SiteView { usage: count, users: seq![user] }))
    }
}

/// Adding `count` to the bucket of `site` would pass `u32::MAX`.
pub open spec fn add_overflows(t: Seq<(Seq<char>, SiteView)>, site: Seq<char>, count: nat) -> bool {
    let i = find_site(t, site);
    i >= 0 && t[i].1.usage + count > u32::MAX
}

proof fn lemma_find_site_range(t: Seq<(Seq<char>, SiteView)>, site: Seq<char>)
    ensures
        -1 <= find_site(t, site) < t.len(),
        find_site(t, site) >= 0 ==> t[find_site(t, site)].0 == site,
    decreases t.len(),
{
    if t.len() > 0 && t.last().0 != site {
        lemma_find_site_range(t.drop_last(), site);
    }
}

proof fn lemma_find_site_prefix(t: Seq<(Seq<char>, SiteView)>, j: int, site: Seq<char>)
    requires
        0 <= j <= t.len(),
        forall|k: int| j <= k < t.len() ==> (#[trigger] t[k]).0 != site,
    ensures
        find_site(t, site) == find_site(t.take(j), site),
    decreases t.len(),
{
    if j == t.len() {
        assert(t.take(j) == t);
    } else {
        assert(t.drop_last().take(j) == t.take(j));
        assert(t.last().0 != site);
        lemma_find_site_prefix(t.drop_last(), j, site);
    }
}

/// A site name with its bucket.
pub struct SiteEntry {
    pub site: String,
    pub stats: Site,
}

pub open spec fn entry_views(s: Seq<SiteEntry>) -> Seq<(Seq<char>, SiteView)> {
    s.map_values(|e: SiteEntry| (e.site@, e.stats@))
}

/// The buckets of all sites seen so far, in order of their first contribution.
pub struct SiteTable {
    entries: Vec<SiteEntry>,
}

impl View for SiteTable {
    type V = Seq<(Seq<char>, SiteView)>;

    closed spec fn view(&self) -> Seq<(Seq<char>, SiteView)> {
        entry_views(self.entries@)
    }
}

impl SiteTable {
    /// A table with no bucket.
    pub fn new() -> (r: SiteTable)
        ensures
            r@ == Seq::<(Seq<char>, SiteView)>::empty(),
    {
        let r = SiteTable { entries: Vec::new() };
        assert(r@ =~= Seq::<(Seq<char>, SiteView)>::empty());
        r
    }

    /// The number of buckets.
    pub fn len(&self) -> (r: usize)
        ensures
            r == self@.len(),
    {
        self.entries.len()
    }

    /// The bucket at position `i`.
    pub fn get(&self, i: usize) -> (r: &SiteEntry)
        requires
            i < self@.len(),
        ensures
            (r.site@, r.stats@) == self@[i as int],
    {
        &self.entries[i]
    }

    /// The index of the bucket of `site`, if there is one.
    fn position(&self, site: &String) -> (r: Option<usize>)
        ensures
            match r {
                Some(i) => i as int == find_site(self@, site@),
                None => find_site(self@, site@) == -1,
            },
    {
        let ghost t = self@;
        let mut i: usize = self.entries.len();
        while i > 0
            invariant
                t == self@,
                i <= t.len(),
                forall|k: int| i <= k < t.len() ==> (#[trigger] t[k]).0 != site@,
            decreases i,
        {
            if self.entries[i - 1].site == *site {
                proof {
                    lemma_find_site_prefix(t, i as int, site@);
                    assert(t.take(i as int).last() == t[i - 1]);
                }
                return Some(i - 1);
            }
            i = i - 1;
        }
        proof {
            lemma_find_site_prefix(t, 0, site@);
        }
        None
    }

    /// Adds `count` licenses of `user` to the bucket of `site`, making the
    /// bucket on the site's first contribution. Fails, changing nothing, where
    /// the site's total would pass `u32::MAX`.
    pub fn record(&mut self, site: String, count: u32, user: String) -> (r: Result<(), ReportError>)
        ensures
            add_overflows(old(self)@, site@, count as nat) ==> r == Err::<(), ReportError>(ReportError::UsageOverflow)
                && final(self)@ == old(self)@,
            !add_overflows(old(self)@, site@, count as nat) ==> r is Ok
                && final(self)@ == add_usage(old(self)@, site@, count as nat, user@),
    {
        let ghost before = self@;
        proof {
            lemma_find_site_range(before, site@);
        }
        match self.position(&site) {
            Some(i) => {
                if self.entries[i].stats.usage > u32::MAX - count {
                    return Err(ReportError::UsageOverflow);
                }
                let ghost old_entries = self.entries@;
                let mut e = self.entries.remove(i);
                e.stats.add(count);
                e.stats.push_user(user);
                self.entries.insert(i, e);
                assert(self.entries@ == old_entries.update(i as int, e));
                assert(self@ =~= add_usage(before, site@, count as nat, user@));
            },
            None => {
                let ghost old_entries = self.entries@;
                let e = SiteEntry { site, stats: Site::new(count, user) };
                self.entries.push(e);
                assert(self@ =~= add_usage(before, e.site@, count as nat, user@));
            },
        }
        Ok(())
    }
}

} // verus!
