//! Profile and page navigation: bounded-index bookkeeping over the
//! configuration document.
//!
//! The manager tracks which profile and page are active and remembers,
//! per profile, the page that was last active there, so that switching
//! back to a profile restores its page. All reads are made against a
//! configuration handed in by the caller; indices that fall outside it
//! are reported, never followed.

use vstd::prelude::*;
use crate::config::QDeckConfig;
use crate::config::Profile;
use crate::config::Page;

verus! {

/// The remembered page index of a profile, by name. The binding added
/// most recently stands first and wins.
pub open spec fn page_lookup(m: Seq<(String, usize)>, name: Seq<char>) -> Option<usize>
    decreases m.len(),
{
    if m.len() == 0 {
        None
    } else if m.first().0@ == name {
        Some(m.first().1)
    } else {
        page_lookup(m.drop_first(), name)
    }
}

/// The page restored when a profile becomes active: its remembered page,
/// or the first page, clamped into the profile's page range.
pub open spec fn remembered_page(m: Seq<(String, usize)>, p: Profile) -> int {
    let raw = match page_lookup(m, p.name@) {
        Some(v) => v as int,
        None => 0int,
    };
    let cap = if p.pages@.len() == 0 {
        0int
    } else {
        p.pages@.len() - 1
    };
    if raw <= cap {
        raw
    } else {
        cap
    }
}

/// The first profile with the given name.
pub open spec fn find_profile(ps: Seq<Profile>, name: Seq<char>) -> Option<int>
    decreases ps.len(),
{
    if ps.len() == 0 {
        None
    } else if ps.first().name@ == name {
        Some(0)
    } else {
        match find_profile(ps.drop_first(), name) {
            Some(i) => Some(i + 1),
            None => None,
        }
    }
}

pub proof fn lemma_find_profile_bounds(ps: Seq<Profile>, name: Seq<char>)
    ensures
        match find_profile(ps, name) {
            Some(i) => 0 <= i < ps.len() && ps[i].name@ == name,
            None => true,
        },
    decreases ps.len(),
{
    if ps.len() > 0 && ps.first().name@ != name {
        lemma_find_profile_bounds(ps.drop_first(), name);
    }
}

/// Adding a binding at the front shadows older ones of the same name and
/// leaves every other name's lookup unchanged.
proof fn lemma_page_lookup_snoc(m: Seq<(String, usize)>, entry: (String, usize), name: Seq<char>)
    ensures
        page_lookup(m.push(entry), name) == (if page_lookup(m, name) is Some {
            page_lookup(m, name)
        } else if entry.0@ == name {
            Some(entry.1)
        } else {
            None::<usize>
        }),
    decreases m.len(),
{
    let pushed = m.push(entry);
    if m.len() == 0 {
        assert(pushed.first() == entry);
        assert(pushed.drop_first() =~= Seq::<(String, usize)>::empty());
        assert(page_lookup(pushed.drop_first(), name) is None);
    } else {
        assert(pushed.first() == m.first());
        assert(pushed.drop_first() =~= m.drop_first().push(entry));
        lemma_page_lookup_snoc(m.drop_first(), entry, name);
    }
}

/// The navigation state: the active profile and page, and the page each
/// profile was last on.
#[derive(Debug)]
pub struct ProfileState {
    pub current_profile_index: usize,
    pub current_page_index: usize,
    pub last_active_pages: Vec<(String, usize)>,
}

impl Default for ProfileState {
    fn default() -> (r: ProfileState)
        ensures
            r.current_profile_index == 0,
            r.current_page_index == 0,
            r.last_active_pages@.len() == 0,
    {
        ProfileState {
            current_profile_index: 0,
            current_page_index: 0,
            last_active_pages: Vec::new(),
        }
    }
}

/// A profile summary handed to callers.
#[derive(Debug, Clone)]
pub struct ProfileInfo {
    pub name: String,
    pub index: usize,
    pub page_count: usize,
    pub current_page_index: usize,
    pub hotkey: Option<String>,
}

/// A page summary handed to callers.
#[derive(Debug, Clone)]
pub struct PageInfo {
    pub name: String,
    pub index: usize,
    pub rows: u32,
    pub cols: u32,
    pub button_count: usize,
}

/// Where the navigation currently stands, for breadcrumbs.
#[derive(Debug, Clone)]
pub struct NavigationContext {
    pub profile_name: String,
    pub profile_index: usize,
    pub page_name: String,
    pub page_index: usize,
    pub total_profiles: usize,
    pub total_pages: usize,
    pub has_previous_page: bool,
    pub has_next_page: bool,
}

/// Why a navigation request was rejected.
#[derive(Debug, Clone, Copy, PartialEq, Eq, Structural)]
pub enum ProfileError {
    ProfileIndexOutOfBounds,
    PageIndexOutOfBounds,
    ProfileNotFound,
    NoPages,
}

/// Whether `info` is the summary of profile `i` under page memory `m`.
pub open spec fn profile_info_matches(
    info: ProfileInfo,
    config: QDeckConfig,
    m: Seq<(String, usize)>,
    i: int,
) -> bool {
    &&& info.name == config.profiles@[i].name
    &&& info.index == i
    &&& info.page_count == config.profiles@[i].pages@.len()
    &&& info.current_page_index == remembered_page(m, config.profiles@[i])
    &&& info.hotkey == config.profiles@[i].hotkey
}

/// Whether `info` is the summary of page `j` of profile `p`.
pub open spec fn page_info_matches(info: PageInfo, p: Profile, j: int) -> bool {
    &&& info.name == p.pages@[j].name
    &&& info.index == j
    &&& info.rows == p.pages@[j].rows
    &&& info.cols == p.pages@[j].cols
    &&& info.button_count == p.pages@[j].buttons@.len()
}

pub struct ProfileManager {
    pub state: ProfileState,
}

fn page_memory_get(m: &Vec<(String, usize)>, name: &str) -> (r: Option<usize>)
    ensures
        r == page_lookup(m@, name@),
{
    proof {
        assert(m@.subrange(0, m@.len() as int) =~= m@);
    }
    page_memory_get_from(m, 0, name)
}

fn page_memory_get_from(m: &Vec<(String, usize)>, from: usize, name: &str) -> (r: Option<usize>)
    requires
        from <= m@.len(),
    ensures
        r == page_lookup(m@.subrange(from as int, m@.len() as int), name@),
    decreases m@.len() - from,
{
    let ghost suffix = m@.subrange(from as int, m@.len() as int);
    if from >= m.len() {
        None
    } else {
        proof {
            assert(suffix.first() == m@[from as int]);
            assert(suffix.drop_first() =~= m@.subrange(from + 1, m@.len() as int));
        }
        if crate::text::str_eq(m[from].0.as_str(), name) {
            Some(m[from].1)
        } else {
            page_memory_get_from(m, from + 1, name)
        }
    }
}

/// The page restored for `profile` under memory `m`.
fn restored_page(m: &Vec<(String, usize)>, profile: &Profile) -> (r: usize)
    ensures
        r == remembered_page(m@, *profile),
{
    let raw = match page_memory_get(m, profile.name.as_str()) {
        Some(v) => v,
        None => 0,
    };
    let cap = if profile.pages.len() == 0 {
        0
    } else {
        profile.pages.len() - 1
    };
    if raw <= cap {
        raw
    } else {
        cap
    }
}

fn make_profile_info(config: &QDeckConfig, m: &Vec<(String, usize)>, i: usize) -> (info:
    ProfileInfo)
    requires
        i < config.profiles@.len(),
    ensures
        profile_info_matches(info, *config, m@, i as int),
{
    let profile = &config.profiles[i];
    ProfileInfo {
        name: profile.name.clone(),
        index: i,
        page_count: profile.pages.len(),
        current_page_index: restored_page(m, profile),
        hotkey: profile.hotkey.clone(),
    }
}

fn make_page_info(profile: &Profile, j: usize) -> (info: PageInfo)
    requires
        j < profile.pages@.len(),
    ensures
        page_info_matches(info, *profile, j as int),
{
    let page = &profile.pages[j];
    PageInfo {
        name: page.name.clone(),
        index: j,
        rows: page.rows,
        cols: page.cols,
        button_count: page.buttons.len(),
    }
}

impl ProfileManager {
    pub fn new() -> (r: Result<ProfileManager, ProfileError>)
        ensures
            r matches Ok(pm) && pm.state.current_profile_index == 0
                && pm.state.current_page_index == 0 && pm.state.last_active_pages@.len() == 0,
    {
        Ok(ProfileManager { state: ProfileState::default() })
    }

    /// The current navigation state.
    pub fn get_state(&self) -> (r: &ProfileState)
        ensures
            r == &self.state,
    {
        &self.state
    }

    /// A summary of every profile, in configuration order.
    pub fn get_profiles(&self, config: &QDeckConfig) -> (r: Vec<ProfileInfo>)
        ensures
            r@.len() == config.profiles@.len(),
            forall|i: int|
                0 <= i < r@.len() ==> profile_info_matches(
                    #[trigger] r@[i],
                    *config,
                    self.state.last_active_pages@,
                    i,
                ),
    {
        let mut out: Vec<ProfileInfo> = Vec::new();
        let mut i: usize = 0;
        while i < config.profiles.len()
            invariant
                i <= config.profiles@.len(),
                out@.len() == i,
                forall|k: int|
                    0 <= k < i ==> profile_info_matches(
                        #[trigger] out@[k],
                        *config,
                        self.state.last_active_pages@,
                        k,
                    ),
            decreases config.profiles@.len() - i,
        {
            let info = make_profile_info(config, &self.state.last_active_pages, i);
            out.push(info);
            i = i + 1;
        }
        out
    }

    /// The active profile's summary; rejected when the active index has
    /// fallen outside the configuration.
    pub fn get_current_profile(&self, config: &QDeckConfig) -> (r: Result<
        ProfileInfo,
        ProfileError,
    >)
        ensures
            r is Ok <==> self.state.current_profile_index < config.profiles@.len(),
            r matches Ok(info) ==> profile_info_matches(
                info,
                *config,
                self.state.last_active_pages@,
                self.state.current_profile_index as int,
            ),
            r is Err ==> r == Err::<ProfileInfo, ProfileError>(ProfileError::ProfileIndexOutOfBounds),
    {
        if self.state.current_profile_index >= config.profiles.len() {
            return Err(ProfileError::ProfileIndexOutOfBounds);
        }
        Ok(make_profile_info(config, &self.state.last_active_pages, self.state.current_profile_index))
    }

    /// Makes the profile at `profile_index` active and restores its
    /// remembered page. An index outside the configuration is rejected
    /// and changes nothing.
    pub fn switch_to_profile(&mut self, profile_index: usize, config: &QDeckConfig) -> (r: Result<
        ProfileInfo,
        ProfileError,
    >)
        ensures
            r is Ok <==> profile_index < config.profiles@.len(),
            r matches Ok(info) ==> {
                &&& final(self).state.current_profile_index == profile_index
                &&& final(self).state.current_page_index == remembered_page(
                    old(self).state.last_active_pages@,
                    config.profiles@[profile_index as int],
                )
                &&& final(self).state.last_active_pages@ == old(self).state.last_active_pages@
                &&& profile_info_matches(
                    info,
                    *config,
                    old(self).state.last_active_pages@,
                    profile_index as int,
                )
            },
            r is Err ==> *final(self) == *old(self) && r == Err::<ProfileInfo, ProfileError>(
                ProfileError::ProfileIndexOutOfBounds,
            ),
    {
        if profile_index >= config.profiles.len() {
            return Err(ProfileError::ProfileIndexOutOfBounds);
        }
        let profile = &config.profiles[profile_index];
        self.state.current_profile_index = profile_index;
        let page_index = restored_page(&self.state.last_active_pages, profile);
        self.state.current_page_index = page_index;
        Ok(make_profile_info(config, &self.state.last_active_pages, profile_index))
    }

    /// Switches to the first profile with the given name; an unknown name
    /// is rejected and changes nothing.
    pub fn switch_to_profile_by_name(&mut self, profile_name: &str, config: &QDeckConfig) -> (r:
        Result<ProfileInfo, ProfileError>)
        ensures
            r is Ok <==> find_profile(config.profiles@, profile_name@) is Some,
            r matches Ok(info) ==> {
                let i = find_profile(config.profiles@, profile_name@).unwrap();
                &&& final(self).state.current_profile_index == i
                &&& final(self).state.current_page_index == remembered_page(
                    old(self).state.last_active_pages@,
                    config.profiles@[i],
                )
                &&& final(self).state.last_active_pages@ == old(self).state.last_active_pages@
                &&& profile_info_matches(info, *config, old(self).state.last_active_pages@, i)
            },
            r is Err ==> *final(self) == *old(self) && r == Err::<ProfileInfo, ProfileError>(
                ProfileError::ProfileNotFound,
            ),
    {
        proof {
            lemma_find_profile_bounds(config.profiles@, profile_name@);
            assert(config.profiles@.subrange(0, config.profiles@.len() as int)
                =~= config.profiles@);
        }
        match Self::find_profile_index(config, 0, profile_name) {
            Some(i) => {
                let r = self.switch_to_profile(i, config);
                match r {
                    Ok(info) => Ok(info),
                    Err(_) => Err(ProfileError::ProfileNotFound),
                }
            },
            None => Err(ProfileError::ProfileNotFound),
        }
    }

    fn find_profile_index(config: &QDeckConfig, from: usize, name: &str) -> (r: Option<usize>)
        requires
            from <= config.profiles@.len(),
        ensures
            match r {
                Some(i) => find_profile(
                    config.profiles@.subrange(from as int, config.profiles@.len() as int),
                    name@,
                ) == Some(i - from) && from <= i < config.profiles@.len(),
                None => find_profile(
                    config.profiles@.subrange(from as int, config.profiles@.len() as int),
                    name@,
                ) is None,
            },
        decreases config.profiles@.len() - from,
    {
        let ghost suffix = config.profiles@.subrange(from as int, config.profiles@.len() as int);
        if from >= config.profiles.len() {
            None
        } else {
            proof {
                assert(suffix.first() == config.profiles@[from as int]);
                assert(suffix.drop_first() =~= config.profiles@.subrange(
                    from + 1,
                    config.profiles@.len() as int,
                ));
            }
            if crate::text::str_eq(config.profiles[from].name.as_str(), name) {
                Some(from)
            } else {
                Self::find_profile_index(config, from + 1, name)
            }
        }
    }

    /// The summaries of the active profile's pages.
    pub fn get_current_profile_pages(&self, config: &QDeckConfig) -> (r: Result<
        Vec<PageInfo>,
        ProfileError,
    >)
        ensures
            r is Ok <==> self.state.current_profile_index < config.profiles@.len(),
            r matches Ok(pages) ==> {
                let p = config.profiles@[self.state.current_profile_index as int];
                pages@.len() == p.pages@.len() && forall|j: int|
                    0 <= j < pages@.len() ==> page_info_matches(#[trigger] pages@[j], p, j)
            },
            r is Err ==> r == Err::<Vec<PageInfo>, ProfileError>(
                ProfileError::ProfileIndexOutOfBounds,
            ),
    {
        self.get_profile_pages(self.state.current_profile_index, config)
    }

    /// The summaries of one profile's pages.
    pub fn get_profile_pages(&self, profile_index: usize, config: &QDeckConfig) -> (r: Result<
        Vec<PageInfo>,
        ProfileError,
    >)
        ensures
            r is Ok <==> profile_index < config.profiles@.len(),
            r matches Ok(pages) ==> {
                let p = config.profiles@[profile_index as int];
                pages@.len() == p.pages@.len() && forall|j: int|
                    0 <= j < pages@.len() ==> page_info_matches(#[trigger] pages@[j], p, j)
            },
            r is Err ==> r == Err::<Vec<PageInfo>, ProfileError>(
                ProfileError::ProfileIndexOutOfBounds,
            ),
    {
        if profile_index >= config.profiles.len() {
            return Err(ProfileError::ProfileIndexOutOfBounds);
        }
        let profile = &config.profiles[profile_index];
        let mut out: Vec<PageInfo> = Vec::new();
        let mut j: usize = 0;
        while j < profile.pages.len()
            invariant
                j <= profile.pages@.len(),
                out@.len() == j,
                forall|k: int|
                    0 <= k < j ==> page_info_matches(#[trigger] out@[k], *profile, k),
            decreases profile.pages@.len() - j,
        {
            let info = make_page_info(profile, j);
            out.push(info);
            j = j + 1;
        }
        Ok(out)
    }

    /// The active page's summary; rejected when either active index has
    /// fallen outside the configuration.
    pub fn get_current_page(&self, config: &QDeckConfig) -> (r: Result<PageInfo, ProfileError>)
        ensures
            r is Ok <==> (self.state.current_profile_index < config.profiles@.len()
                && self.state.current_page_index < config.profiles@[self.state.current_profile_index as int].pages@.len()),
            r matches Ok(info) ==> page_info_matches(
                info,
                config.profiles@[self.state.current_profile_index as int],
                self.state.current_page_index as int,
            ),
    {
        if self.state.current_profile_index >= config.profiles.len() {
            return Err(ProfileError::ProfileIndexOutOfBounds);
        }
        let profile = &config.profiles[self.state.current_profile_index];
        if self.state.current_page_index >= profile.pages.len() {
            return Err(ProfileError::PageIndexOutOfBounds);
        }
        Ok(make_page_info(profile, self.state.current_page_index))
    }

    /// Makes the page at `page_index` active in the active profile and
    /// remembers it as that profile's page. Indices outside the
    /// configuration are rejected and change nothing.
    pub fn switch_to_page(&mut self, page_index: usize, config: &QDeckConfig) -> (r: Result<
        PageInfo,
        ProfileError,
    >)
        ensures
            r is Ok <==> (old(self).state.current_profile_index < config.profiles@.len()
                && page_index < config.profiles@[old(self).state.current_profile_index as int].pages@.len()),
            r matches Ok(info) ==> {
                let p = config.profiles@[old(self).state.current_profile_index as int];
                &&& final(self).state.current_profile_index == old(
                    self,
                ).state.current_profile_index
                &&& final(self).state.current_page_index == page_index
                &&& final(self).state.last_active_pages@ == old(
                    self,
                ).state.last_active_pages@.insert(0, (p.name, page_index))
                &&& page_info_matches(info, p, page_index as int)
            },
            r is Err ==> *final(self) == *old(self),
    {
        if self.state.current_profile_index >= config.profiles.len() {
            return Err(ProfileError::ProfileIndexOutOfBounds);
        }
        let profile = &config.profiles[self.state.current_profile_index];
        if page_index >= profile.pages.len() {
            return Err(ProfileError::PageIndexOutOfBounds);
        }
        self.state.current_page_index = page_index;
        self.state.last_active_pages.insert(0, (profile.name.clone(), page_index));
        Ok(make_page_info(profile, page_index))
    }

    /// Moves to the next page of the active profile, wrapping at the end.
    pub fn next_page(&mut self, config: &QDeckConfig) -> (r: Result<PageInfo, ProfileError>)
        ensures
            r is Ok <==> (old(self).state.current_profile_index < config.profiles@.len()
                && config.profiles@[old(self).state.current_profile_index as int].pages@.len() > 0),
            r matches Ok(info) ==> {
                let p = config.profiles@[old(self).state.current_profile_index as int];
                let next = (old(self).state.current_page_index as int + 1) % (
                p.pages@.len() as int);
                &&& final(self).state.current_profile_index == old(
                    self,
                ).state.current_profile_index
                &&& final(self).state.current_page_index == next
                &&& final(self).state.last_active_pages@ == old(
                    self,
                ).state.last_active_pages@.insert(0, (p.name, info.index))
                &&& page_info_matches(info, p, next)
            },
            r is Err ==> *final(self) == *old(self),
    {
        if self.state.current_profile_index >= config.profiles.len() {
            return Err(ProfileError::ProfileIndexOutOfBounds);
        }
        let profile = &config.profiles[self.state.current_profile_index];
        if profile.pages.len() == 0 {
            return Err(ProfileError::NoPages);
        }
        let n = profile.pages.len();
        let next = ((self.state.current_page_index % n) + 1) % n;
        proof {
            crate::profile::lemma_mod_succ(self.state.current_page_index as int, n as int);
        }
        self.switch_to_page(next, config)
    }

    /// Moves to the previous page of the active profile, wrapping at the
    /// start.
    pub fn previous_page(&mut self, config: &QDeckConfig) -> (r: Result<PageInfo, ProfileError>)
        ensures
            r is Ok <==> (old(self).state.current_profile_index < config.profiles@.len() && {
                let p = config.profiles@[old(self).state.current_profile_index as int];
                p.pages@.len() > 0 && (if old(self).state.current_page_index == 0 {
                    p.pages@.len() - 1
                } else {
                    old(self).state.current_page_index - 1
                }) < p.pages@.len()
            }),
            r matches Ok(info) ==> {
                let p = config.profiles@[old(self).state.current_profile_index as int];
                let prev = if old(self).state.current_page_index == 0 {
                    p.pages@.len() - 1
                } else {
                    old(self).state.current_page_index - 1
                };
                &&& final(self).state.current_profile_index == old(
                    self,
                ).state.current_profile_index
                &&& final(self).state.current_page_index == prev
                &&& final(self).state.last_active_pages@ == old(
                    self,
                ).state.last_active_pages@.insert(0, (p.name, info.index))
                &&& page_info_matches(info, p, prev as int)
            },
            r is Err ==> *final(self) == *old(self),
    {
        if self.state.current_profile_index >= config.profiles.len() {
            return Err(ProfileError::ProfileIndexOutOfBounds);
        }
        let profile = &config.profiles[self.state.current_profile_index];
        if profile.pages.len() == 0 {
            return Err(ProfileError::NoPages);
        }
        let prev = if self.state.current_page_index == 0 {
            profile.pages.len() - 1
        } else {
            self.state.current_page_index - 1
        };
        self.switch_to_page(prev, config)
    }

    /// The active profile and page themselves.
    pub fn get_current_profile_and_page<'a>(&self, config: &'a QDeckConfig) -> (r: Result<
        (&'a Profile, &'a Page),
        ProfileError,
    >)
        ensures
            r is Ok <==> (self.state.current_profile_index < config.profiles@.len()
                && self.state.current_page_index < config.profiles@[self.state.current_profile_index as int].pages@.len()),
            r matches Ok(pair) ==> *pair.0 == config.profiles@[self.state.current_profile_index as int]
                && *pair.1 == config.profiles@[self.state.current_profile_index as int].pages@[self.state.current_page_index as int],
    {
        if self.state.current_profile_index >= config.profiles.len() {
            return Err(ProfileError::ProfileIndexOutOfBounds);
        }
        let profile = &config.profiles[self.state.current_profile_index];
        if self.state.current_page_index >= profile.pages.len() {
            return Err(ProfileError::PageIndexOutOfBounds);
        }
        let page = &profile.pages[self.state.current_page_index];
        Ok((profile, page))
    }

    /// Clamps the active indices into the configuration and gives every
    /// profile a remembered page, keeping the bindings that exist.
    pub fn initialize_from_config(&mut self, config: &QDeckConfig) -> (r: Result<(), ProfileError>)
        ensures
            r is Ok,
            config.profiles@.len() == 0 ==> *final(self) == *old(self),
            config.profiles@.len() > 0 ==> {
                &&& final(self).state.current_profile_index == (if old(
                    self,
                ).state.current_profile_index < config.profiles@.len() {
                    old(self).state.current_profile_index as int
                } else {
                    0int
                })
                &&& final(self).state.current_page_index == (if old(self).state.current_page_index
                    < config.profiles@[final(self).state.current_profile_index as int].pages@.len() {
                    old(self).state.current_page_index as int
                } else {
                    0int
                })
                &&& forall|i: int|
                    0 <= i < config.profiles@.len() ==> page_lookup(
                        final(self).state.last_active_pages@,
                        #[trigger] config.profiles@[i].name@,
                    ) is Some
                &&& forall|n: Seq<char>|
                    #[trigger] page_lookup(old(self).state.last_active_pages@, n) is Some
                        ==> page_lookup(final(self).state.last_active_pages@, n) == page_lookup(
                        old(self).state.last_active_pages@,
                        n,
                    )
            },
    {
        if config.profiles.len() == 0 {
            return Ok(());
        }
        if self.state.current_profile_index >= config.profiles.len() {
            self.state.current_profile_index = 0;
        }
        let profile = &config.profiles[self.state.current_profile_index];
        if self.state.current_page_index >= profile.pages.len() {
            self.state.current_page_index = 0;
        }
        let mut i: usize = 0;
        while i < config.profiles.len()
            invariant
                config.profiles@.len() > 0,
                i <= config.profiles@.len(),
                forall|k: int|
                    0 <= k < i ==> page_lookup(
                        self.state.last_active_pages@,
                        #[trigger] config.profiles@[k].name@,
                    ) is Some,
                forall|n: Seq<char>|
                    #[trigger] page_lookup(old(self).state.last_active_pages@, n) is Some
                        ==> page_lookup(self.state.last_active_pages@, n) == page_lookup(
                        old(self).state.last_active_pages@,
                        n,
                    ),
                self.state.current_profile_index == (if old(self).state.current_profile_index
                    < config.profiles@.len() {
                    old(self).state.current_profile_index as int
                } else {
                    0int
                }),
                self.state.current_page_index == (if old(self).state.current_page_index
                    < config.profiles@[self.state.current_profile_index as int].pages@.len() {
                    old(self).state.current_page_index as int
                } else {
                    0int
                }),
            decreases config.profiles@.len() - i,
        {
            let name = config.profiles[i].name.as_str();
            match page_memory_get(&self.state.last_active_pages, name) {
                Some(_) => {},
                None => {
                    let ghost before = self.state.last_active_pages@;
                    let owned = config.profiles[i].name.clone();
                    self.state.last_active_pages.push((owned, 0));
                    proof {
                        assert forall|n: Seq<char>| true implies page_lookup(
                            self.state.last_active_pages@,
                            n,
                        ) == (if page_lookup(before, n) is Some {
                            page_lookup(before, n)
                        } else if config.profiles@[i as int].name@ == n {
                            Some(0usize)
                        } else {
                            None::<usize>
                        }) by {
                            lemma_page_lookup_snoc(
                                before,
                                (config.profiles@[i as int].name, 0usize),
                                n,
                            );
                        }
                    }
                },
            }
            i = i + 1;
        }
        Ok(())
    }

    /// Returns to the default state: first profile, first page, no
    /// remembered pages.
    pub fn reset(&mut self)
        ensures
            final(self).state.current_profile_index == 0,
            final(self).state.current_page_index == 0,
            final(self).state.last_active_pages@.len() == 0,
    {
        self.state = ProfileState::default();
    }

    /// Where the navigation stands: names, indices, totals, and whether a
    /// page exists on either side.
    pub fn get_navigation_context(&self, config: &QDeckConfig) -> (r: Result<
        NavigationContext,
        ProfileError,
    >)
        ensures
            r is Ok <==> (self.state.current_profile_index < config.profiles@.len()
                && self.state.current_page_index < config.profiles@[self.state.current_profile_index as int].pages@.len()),
            r matches Ok(ctx) ==> {
                let p = config.profiles@[self.state.current_profile_index as int];
                &&& ctx.profile_name == p.name
                &&& ctx.profile_index == self.state.current_profile_index
                &&& ctx.page_name == p.pages@[self.state.current_page_index as int].name
                &&& ctx.page_index == self.state.current_page_index
                &&& ctx.total_profiles == config.profiles@.len()
                &&& ctx.total_pages == p.pages@.len()
                &&& ctx.has_previous_page == (self.state.current_page_index > 0)
                &&& ctx.has_next_page == (self.state.current_page_index + 1 < p.pages@.len())
            },
    {
        let pair = self.get_current_profile_and_page(config)?;
        let profile = pair.0;
        let page = pair.1;
        Ok(
            NavigationContext {
                profile_name: profile.name.clone(),
                profile_index: self.state.current_profile_index,
                page_name: page.name.clone(),
                page_index: self.state.current_page_index,
                total_profiles: config.profiles.len(),
                total_pages: profile.pages.len(),
                has_previous_page: self.state.current_page_index > 0,
                has_next_page: self.state.current_page_index < profile.pages.len() - 1,
            },
        )
    }
}

/// Stepping by one and reducing modulo `n` commute.
pub proof fn lemma_mod_succ(a: int, n: int)
    requires
        n > 0,
        a >= 0,
    ensures
        ((a % n) + 1) % n == (a + 1) % n,
{
    vstd::arithmetic::div_mod::lemma_add_mod_noop(a % n, 1, n);
    vstd::arithmetic::div_mod::lemma_add_mod_noop(a, 1, n);
    vstd::arithmetic::div_mod::lemma_mod_twice(a, n);
}

} // verus!
