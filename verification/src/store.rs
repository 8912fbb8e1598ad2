//! The profiles of a session, in file order, and the selection among them.

use vstd::prelude::*;
use vstd::arithmetic::div_mod::{lemma_mod_add_multiples_vanish, lemma_mod_self_0, lemma_small_mod};
use crate::codec::{parse, serialize};
use crate::profile::{host_views, HostEntry, HostView};

verus! {

/// Why the store refused a profile or an index.
#[derive(Clone, Copy, PartialEq, Eq, Debug, Structural)]
pub enum StoreError {
    /// The profile has an empty name.
    EmptyName,
    /// There is no profile at the index.
    NoSuchProfile,
}

/// The store as a mathematical value: the profiles in order, and the index of
/// the selected one.
pub struct StoreView {
    pub hosts: Seq<HostView>,
    pub selected: nat,
}

impl StoreView {
    /// Every profile is valid, and the selection is an index of a profile
    /// wherever there is a profile; in an empty store it is zero.
    pub open spec fn wf(self) -> bool {
        &&& forall|i: int| 0 <= i < self.hosts.len() ==> (#[trigger] self.hosts[i]).valid()
        &&& self.hosts.len() > 0 ==> self.selected < self.hosts.len()
        &&& self.hosts.len() == 0 ==> self.selected == 0
    }

    /// The store that holds the given profiles, with the first one selected.
    pub open spec fn holding(hosts: Seq<HostView>) -> StoreView {
        StoreView { hosts, selected: 0 }
    }

    /// The selected profile; an empty store has none.
    pub open spec fn current(self) -> Option<HostView> {
        if self.hosts.len() > 0 {
            Some(self.hosts[self.selected as int])
        } else {
            None
        }
    }

    /// The store with the profile at `index` selected.
    pub open spec fn select(self, index: nat) -> StoreView {
        StoreView { selected: index, ..self }
    }

    /// The store with the selection moved down by one, from the last profile
    /// to the first.
    pub open spec fn select_next(self) -> StoreView {
        if self.hosts.len() == 0 {
            self
        } else {
            self.select(((self.selected as int + 1) % (self.hosts.len() as int)) as nat)
        }
    }

    /// The store with the selection moved up by one, from the first profile
    /// to the last.
    pub open spec fn select_previous(self) -> StoreView {
        if self.hosts.len() == 0 {
            self
        } else {
            self.select(
                ((self.selected as int + self.hosts.len() - 1) % (self.hosts.len() as int)) as nat,
            )
        }
    }

    /// The store with the profile at `index` replaced.
    pub open spec fn replace(self, index: nat, host: HostView) -> StoreView {
        StoreView { hosts: self.hosts.update(index as int, host), ..self }
    }

    /// The store with one more profile at its end.
    pub open spec fn append(self, host: HostView) -> StoreView {
        StoreView { hosts: self.hosts.push(host), ..self }
    }
}

/// Moving the selection down from the last profile gives the first, moving it
/// up from the first gives the last, and in an empty store neither move
/// changes anything.
pub proof fn lemma_selection_wraps(s: StoreView)
    requires
        s.wf(),
    ensures
        s.hosts.len() > 0 && s.selected == s.hosts.len() - 1 ==> s.select_next().selected == 0,
        s.hosts.len() > 0 && s.selected == 0 ==> s.select_previous().selected == s.hosts.len()
            - 1,
        s.hosts.len() == 0 ==> s.select_next() == s && s.select_previous() == s,
        s.select_next().wf(),
        s.select_previous().wf(),
        s.select_next().hosts == s.hosts,
        s.select_previous().hosts == s.hosts,
{
    let n = s.hosts.len() as int;
    if n > 0 {
        lemma_step_down(s.selected as int, n);
        lemma_step_up(s.selected as int, n);
    }
}

/// One step down among `n` places, from the last to the first.
proof fn lemma_step_down(i: int, n: int)
    requires
        0 <= i < n,
    ensures
        (i + 1) % n == if i + 1 == n {
            0
        } else {
            i + 1
        },
{
    if i + 1 == n {
        lemma_mod_self_0(n);
    } else {
        lemma_small_mod((i + 1) as nat, n as nat);
    }
}

/// One step up among `n` places, from the first to the last.
proof fn lemma_step_up(i: int, n: int)
    requires
        0 <= i < n,
    ensures
        (i + n - 1) % n == if i == 0 {
            n - 1
        } else {
            i - 1
        },
{
    if i == 0 {
        lemma_small_mod((n - 1) as nat, n as nat);
    } else {
        lemma_mod_add_multiples_vanish(i - 1, n);
        lemma_small_mod((i - 1) as nat, n as nat);
        assert(i + n - 1 == n + (i - 1));
    }
}

/// The profiles of a session, in the order of the file, which is the order in
/// which they are shown, and the index of the selected one.
pub struct ProfileStore {
    hosts: Vec<HostEntry>,
    selected: usize,
}

impl View for ProfileStore {
    type V = StoreView;

    closed spec fn view(&self) -> StoreView {
        StoreView { hosts: host_views(self.hosts@), selected: self.selected as nat }
    }
}

impl ProfileStore {
    /// A store of the given profiles, with the first selected. A profile with
    /// an empty name is refused.
    pub fn new(hosts: Vec<HostEntry>) -> (r: Result<ProfileStore, StoreError>)
        ensures
            match r {
                Ok(s) => {
                    &&& s@ == StoreView::holding(host_views(hosts@))
                    &&& s@.wf()
                },
                Err(e) => {
                    &&& e == StoreError::EmptyName
                    &&& exists|i: int| 0 <= i < hosts.len() && !(#[trigger] hosts[i])@.valid()
                },
            },
    {
        let mut i: usize = 0;
        while i < hosts.len()
            invariant
                i <= hosts.len(),
                forall|j: int| 0 <= j < i ==> (#[trigger] hosts[j])@.valid(),
            decreases hosts.len() - i,
        {
            if !hosts[i].has_name() {
                return Err(StoreError::EmptyName);
            }
            i += 1;
        }
        Ok(ProfileStore { hosts, selected: 0 })
    }

    /// A store of the profiles of a configuration text, with the first
    /// selected.
    pub fn from_config(text: &str) -> (s: ProfileStore)
        ensures
            s@ == StoreView::holding(parse(text@)),
            s@.wf(),
    {
        let hosts = HostEntry::parse_ssh_config(text);
        proof {
            assert forall|i: int| 0 <= i < hosts.len() implies (#[trigger] host_views(
                hosts@,
            )[i]).valid() by {
                assert(host_views(hosts@)[i] == hosts[i]@);
            }
        }
        ProfileStore { hosts, selected: 0 }
    }

    /// The number of profiles.
    pub fn len(&self) -> (n: usize)
        ensures
            n == self@.hosts.len(),
    {
        self.hosts.len()
    }

    /// Whether the store holds no profile.
    pub fn is_empty(&self) -> (r: bool)
        ensures
            r == (self@.hosts.len() == 0),
    {
        self.hosts.len() == 0
    }

    /// The index of the selected profile. In an empty store it is zero and
    /// names no profile.
    pub fn selected(&self) -> (i: usize)
        requires
            self@.wf(),
        ensures
            i == self@.selected,
            self@.hosts.len() > 0 ==> i < self@.hosts.len(),
    {
        self.selected
    }

    /// The profiles, in order.
    pub fn hosts(&self) -> (r: &[HostEntry])
        ensures
            host_views(r@) == self@.hosts,
    {
        self.hosts.as_slice()
    }

    /// The profile at `index`, where there is one.
    pub fn get(&self, index: usize) -> (r: Option<&HostEntry>)
        ensures
            match r {
                Some(h) => index < self@.hosts.len() && h@ == self@.hosts[index as int],
                None => index >= self@.hosts.len(),
            },
    {
        if index < self.hosts.len() {
            Some(&self.hosts[index])
        } else {
            None
        }
    }

    /// The selected profile; `None` in an empty store.
    pub fn current(&self) -> (r: Option<&HostEntry>)
        requires
            self@.wf(),
        ensures
            match r {
                Some(h) => self@.current() == Some(h@),
                None => self@.current() is None,
            },
    {
        if self.hosts.len() > 0 {
            Some(&self.hosts[self.selected])
        } else {
            None
        }
    }

    /// Selects the profile at `index`. Where there is none the selection
    /// stays, and the result is `false`.
    pub fn select(&mut self, index: usize) -> (r: bool)
        requires
            old(self)@.wf(),
        ensures
            final(self)@.wf(),
            r == (index < old(self)@.hosts.len()),
            final(self)@ == if r {
                old(self)@.select(index as nat)
            } else {
                old(self)@
            },
    {
        if index < self.hosts.len() {
            self.selected = index;
            true
        } else {
            false
        }
    }

    /// Moves the selection down by one, from the last profile to the first.
    /// Does nothing in an empty store.
    pub fn select_next(&mut self)
        requires
            old(self)@.wf(),
        ensures
            final(self)@.wf(),
            final(self)@ == old(self)@.select_next(),
    {
        proof {
            if self.hosts.len() > 0 {
                lemma_step_down(self.selected as int, self.hosts.len() as int);
            }
        }
        if self.hosts.len() > 0 {
            if self.selected + 1 == self.hosts.len() {
                self.selected = 0;
            } else {
                self.selected = self.selected + 1;
            }
        }
    }

    /// Moves the selection up by one, from the first profile to the last.
    /// Does nothing in an empty store.
    pub fn select_previous(&mut self)
        requires
            old(self)@.wf(),
        ensures
            final(self)@.wf(),
            final(self)@ == old(self)@.select_previous(),
    {
        proof {
            if self.hosts.len() > 0 {
                lemma_step_up(self.selected as int, self.hosts.len() as int);
            }
        }
        if self.hosts.len() > 0 {
            if self.selected == 0 {
                self.selected = self.hosts.len() - 1;
            } else {
                self.selected = self.selected - 1;
            }
        }
    }

    /// Puts `host` in the place of the profile at `index`. A profile with an
    /// empty name is refused, and so is an index at which there is no
    /// profile; the store then stays as it is.
    pub fn replace(&mut self, index: usize, host: HostEntry) -> (r: Result<(), StoreError>)
        requires
            old(self)@.wf(),
        ensures
            final(self)@.wf(),
            match r {
                Ok(_) => {
                    &&& host@.valid()
                    &&& index < old(self)@.hosts.len()
                    &&& final(self)@ == old(self)@.replace(index as nat, host@)
                },
                Err(e) => {
                    &&& final(self)@ == old(self)@
                    &&& e == if !host@.valid() {
                        StoreError::EmptyName
                    } else {
                        StoreError::NoSuchProfile
                    }
                    &&& !host@.valid() || index >= old(self)@.hosts.len()
                },
            },
    {
        if !host.has_name() {
            return Err(StoreError::EmptyName);
        }
        if index >= self.hosts.len() {
            return Err(StoreError::NoSuchProfile);
        }
        proof {
            assert(host_views(self.hosts@.update(index as int, host)) =~= host_views(
                self.hosts@,
            ).update(index as int, host@));
        }
        self.hosts[index] = host;
        Ok(())
    }

    /// Adds `host` after the last profile and returns its index. A profile
    /// with an empty name is refused; the store then stays as it is.
    pub fn append(&mut self, host: HostEntry) -> (r: Result<usize, StoreError>)
        requires
            old(self)@.wf(),
        ensures
            final(self)@.wf(),
            match r {
                Ok(index) => {
                    &&& host@.valid()
                    &&& index == old(self)@.hosts.len()
                    &&& final(self)@ == old(self)@.append(host@)
                },
                Err(e) => {
                    &&& !host@.valid()
                    &&& e == StoreError::EmptyName
                    &&& final(self)@ == old(self)@
                },
            },
    {
        if !host.has_name() {
            return Err(StoreError::EmptyName);
        }
        let index = self.hosts.len();
        proof {
            assert(host_views(self.hosts@.push(host)) =~= host_views(self.hosts@).push(host@));
        }
        self.hosts.push(host);
        Ok(index)
    }

    /// The configuration text of the store: all its profiles, in order. This
    /// is what is written to the file when the store is saved.
    pub fn serialize(&self) -> (text: String)
        ensures
            text@ == serialize(self@.hosts),
    {
        HostEntry::serialize_ssh_config(self.hosts.as_slice())
    }
}

} // verus!
