//! Profile management. Every operation keeps three things: at least one
//! profile exists, profile names are unique, and the active name is that of
//! an existing profile.
use vstd::prelude::*;

use crate::settings::{Profile, ProfileModel, Settings, SettingsModel};
use crate::text::{dec, lemma_dec_injective, push_dec, same_text, trim, trimmed};

verus! {

/// Whether a profile other than the one at `skip` has this name.
pub open spec fn taken(s: SettingsModel, name: Seq<char>, skip: Option<int>) -> bool {
    exists|j: int|
        0 <= j < s.profiles.len() && skip != Some(j) && (#[trigger] s.profiles[j]).name == name
}

/// A name with a number behind it.
pub open spec fn numbered(base: Seq<char>, k: nat) -> Seq<char> {
    base + " "@ + dec(k)
}

/// The trimmed name; "Profile" in place of an empty one.
pub open spec fn base_name(desired: Seq<char>) -> Seq<char> {
    if trim(desired).len() == 0 {
        "Profile"@
    } else {
        trim(desired)
    }
}

/// Whether `k` is the least number from 2 whose numbered name is free.
pub open spec fn is_first_free(
    s: SettingsModel,
    base: Seq<char>,
    skip: Option<int>,
    k: nat,
) -> bool {
    &&& k >= 2
    &&& !taken(s, numbered(base, k), skip)
    &&& forall|j: nat| 2 <= j < k ==> taken(s, #[trigger] numbered(base, j), skip)
}

/// The name a profile gets: the desired one when it is free, else the desired
/// one numbered with the first free number from 2.
pub open spec fn unique(s: SettingsModel, desired: Seq<char>, skip: Option<int>) -> Seq<char> {
    let base = base_name(desired);
    if !taken(s, base, skip) {
        base
    } else {
        numbered(base, choose|k: nat| is_first_free(s, base, skip, k))
    }
}

/// A default profile at the end.
pub open spec fn added(s: SettingsModel) -> SettingsModel {
    SettingsModel {
        profiles: s.profiles.push(
            ProfileModel { name: unique(s, "New profile"@, None), ..ProfileModel::fresh() },
        ),
        ..s
    }
}

/// A copy of profile `i`, under a name of its own, at the end.
pub open spec fn duplicated(s: SettingsModel, i: int) -> SettingsModel {
    SettingsModel {
        profiles: s.profiles.push(
            ProfileModel { name: unique(s, s.profiles[i].name + " copy"@, None), ..s.profiles[i] },
        ),
        ..s
    }
}

/// Profile `i` under another name; the active name follows.
pub open spec fn renamed(s: SettingsModel, i: int, name: Seq<char>) -> SettingsModel {
    let fresh = unique(s, name, Some(i));
    SettingsModel {
        profiles: s.profiles.update(i, ProfileModel { name: fresh, ..s.profiles[i] }),
        active_profile: if s.profiles[i].name == s.active_profile {
            fresh
        } else {
            s.active_profile
        },
        ..s
    }
}

/// Profile `i` active.
pub open spec fn activated(s: SettingsModel, i: int) -> SettingsModel {
    SettingsModel { active_profile: s.profiles[i].name, ..s }
}

/// Without profile `i`; the first one left becomes active in its place.
pub open spec fn removed(s: SettingsModel, i: int) -> SettingsModel {
    let left = s.profiles.remove(i);
    SettingsModel {
        profiles: left,
        active_profile: if s.profiles[i].name == s.active_profile {
            left[0].name
        } else {
            s.active_profile
        },
        ..s
    }
}

/// At least one profile, unique names, and an active name that exists.
pub open spec fn sound(s: SettingsModel) -> bool {
    &&& s.profiles.len() > 0
    &&& forall|i: int, j: int|
        0 <= i < j < s.profiles.len() ==> (#[trigger] s.profiles[i]).name != (
        #[trigger] s.profiles[j]).name
    &&& s.has_profile(s.active_profile)
}

// ---------------------------------------------------------------------
// A free number always exists
// ---------------------------------------------------------------------

proof fn lemma_numbered_injective(base: Seq<char>, a: nat, b: nat)
    requires
        numbered(base, a) == numbered(base, b),
    ensures
        a == b,
{
    let p = base + " "@;
    let x = numbered(base, a);
    let y = numbered(base, b);
    assert(dec(a) =~= x.subrange(p.len() as int, x.len() as int));
    assert(dec(b) =~= y.subrange(p.len() as int, y.len() as int));
    lemma_dec_injective(a, b);
}

spec fn candidates(base: Seq<char>, k: nat) -> Set<Seq<char>>
    decreases k,
{
    if k <= 2 {
        Set::empty()
    } else {
        candidates(base, (k - 1) as nat).insert(numbered(base, (k - 1) as nat))
    }
}

proof fn lemma_candidates(base: Seq<char>, k: nat)
    requires
        k >= 2,
    ensures
        candidates(base, k).finite(),
        candidates(base, k).len() == k - 2,
        forall|x: Seq<char>|
            candidates(base, k).contains(x) ==> exists|j: nat|
                2 <= j < k && x == #[trigger] numbered(base, j),
    decreases k,
{
    if k > 2 {
        let m = (k - 1) as nat;
        lemma_candidates(base, m);
        if candidates(base, m).contains(numbered(base, m)) {
            let j = choose|j: nat| 2 <= j < m && numbered(base, m) == #[trigger] numbered(base, j);
            lemma_numbered_injective(base, m, j);
        }
    }
}

/// As long as every number below `k` is taken, there are at least `k - 2`
/// profiles.
proof fn lemma_taken_bound(s: SettingsModel, base: Seq<char>, skip: Option<int>, k: nat)
    requires
        k >= 2,
        forall|j: nat| 2 <= j < k ==> taken(s, #[trigger] numbered(base, j), skip),
    ensures
        k - 2 <= s.profiles.len(),
{
    let names = s.profiles.map_values(|p: ProfileModel| p.name);
    lemma_candidates(base, k);
    names.lemma_cardinality_of_set();
    assert(candidates(base, k).subset_of(names.to_set())) by {
        assert forall|x: Seq<char>| candidates(base, k).contains(x) implies names.to_set().contains(
            x,
        ) by {
            let j = choose|j: nat| 2 <= j < k && x == #[trigger] numbered(base, j);
            assert(taken(s, numbered(base, j), skip));
            let i = choose|i: int|
                0 <= i < s.profiles.len() && skip != Some(i) && (#[trigger] s.profiles[i]).name
                    == x;
            assert(names[i] == x);
        }
    }
    vstd::set_lib::lemma_len_subset(candidates(base, k), names.to_set());
}

proof fn lemma_first_free_is_chosen(
    s: SettingsModel,
    base: Seq<char>,
    skip: Option<int>,
    k: nat,
)
    requires
        is_first_free(s, base, skip, k),
    ensures
        k == choose|j: nat| is_first_free(s, base, skip, j),
{
    let j = choose|j: nat| is_first_free(s, base, skip, j);
    if j < k {
        assert(taken(s, numbered(base, j), skip));
    } else if k < j {
        assert(taken(s, numbered(base, k), skip));
    }
}

/// A name from [`unique`] is free, and it is the desired one, or the desired
/// one with the first free number from 2: there always is one.
pub proof fn law_unique_name_is_the_first_free(
    s: SettingsModel,
    desired: Seq<char>,
    skip: Option<int>,
)
    ensures
        !taken(s, unique(s, desired, skip), skip),
        ({
            let base = base_name(desired);
            if taken(s, base, skip) {
                exists|k: nat| #[trigger]
                    is_first_free(s, base, skip, k) && unique(s, desired, skip) == numbered(base, k)
            } else {
                unique(s, desired, skip) == base
            }
        }),
{
    let base = base_name(desired);
    if taken(s, base, skip) {
        lemma_some_number_is_free(s, base, skip, 2);
        let k = choose|k: nat| is_first_free(s, base, skip, k);
        assert(is_first_free(s, base, skip, k));
    }
}

proof fn lemma_some_number_is_free(
    s: SettingsModel,
    base: Seq<char>,
    skip: Option<int>,
    k: nat,
)
    requires
        k >= 2,
        forall|j: nat| 2 <= j < k ==> taken(s, #[trigger] numbered(base, j), skip),
    ensures
        exists|j: nat| is_first_free(s, base, skip, j),
    decreases s.profiles.len() + 3 - k,
{
    lemma_taken_bound(s, base, skip, k);
    if taken(s, numbered(base, k), skip) {
        lemma_some_number_is_free(s, base, skip, k + 1);
    } else {
        assert(is_first_free(s, base, skip, k));
    }
}

// ---------------------------------------------------------------------
// Operations
// ---------------------------------------------------------------------

fn is_taken(settings: &Settings, name: &str, skip: Option<usize>) -> (r: bool)
    ensures
        r == taken(settings@, name@, skip_of(skip)),
{
    let ghost models = settings@.profiles;
    let mut j: usize = 0;
    while j < settings.profiles.len()
        invariant
            j <= settings.profiles@.len(),
            models == settings@.profiles,
            forall|i: int|
                0 <= i < j && skip_of(skip) != Some(i) ==> (#[trigger] models[i]).name != name@,
        decreases settings.profiles.len() - j,
    {
        let skipped = match skip {
            Some(k) => k == j,
            None => false,
        };
        if !skipped && same_text(settings.profiles[j].name.as_str(), name) {
            assert(models[j as int].name == name@);
            return true;
        }
        j += 1;
    }
    false
}

/// The position to skip, as an integer.
pub open spec fn skip_of(skip: Option<usize>) -> Option<int> {
    match skip {
        Some(i) => Some(i as int),
        None => None,
    }
}

/// `desired` if it is free, else `desired 2`, `desired 3`, ... The profile at
/// `skip` (the one being renamed) does not count.
pub fn unique_name(settings: &Settings, desired: &str, skip: Option<usize>) -> (r: String)
    requires
        settings.profiles@.len() <= u32::MAX - 2,
    ensures
        r@ == unique(settings@, desired@, skip_of(skip)),
        !taken(settings@, r@, skip_of(skip)),
        taken(settings@, base_name(desired@), skip_of(skip)) ==> exists|k: nat| #[trigger]
            is_first_free(settings@, base_name(desired@), skip_of(skip), k) && r@ == numbered(
                base_name(desired@),
                k,
            ),
{
    let wanted = trimmed(desired);
    let base = if wanted.is_empty() {
        "Profile"
    } else {
        wanted
    };
    if !is_taken(settings, base, skip) {
        return base.to_owned();
    }
    let ghost s = settings@;
    let mut k: u32 = 2;
    loop
        invariant
            s == settings@,
            settings.profiles@.len() <= u32::MAX - 2,
            base@ == base_name(desired@),
            taken(s, base@, skip_of(skip)),
            k >= 2,
            forall|j: nat| 2 <= j < k ==> taken(s, #[trigger] numbered(base@, j), skip_of(skip)),
        decreases u32::MAX - k,
    {
        let mut candidate = base.to_owned();
        candidate.append(" ");
        push_dec(&mut candidate, k as u64);
        assert(candidate@ == numbered(base@, k as nat));
        if !is_taken(settings, candidate.as_str(), skip) {
            proof {
                assert(is_first_free(s, base@, skip_of(skip), k as nat));
                lemma_first_free_is_chosen(s, base@, skip_of(skip), k as nat);
            }
            return candidate;
        }
        proof {
            lemma_taken_bound(s, base@, skip_of(skip), (k + 1) as nat);
        }
        k += 1;
    }
}

/// Append a fresh default profile; returns its index.
pub fn add(settings: &mut Settings) -> (r: usize)
    requires
        old(settings).profiles@.len() <= u32::MAX - 2,
    ensures
        final(settings)@ == added(old(settings)@),
        r == old(settings).profiles@.len(),
{
    let name = unique_name(settings, "New profile", None);
    let mut p = Profile::default();
    p.name = name;
    settings.profiles.push(p);
    assert(settings@.profiles =~= added(old(settings)@).profiles);
    settings.profiles.len() - 1
}

/// Copy profile `i`, everything but the name; returns the copy's index, or
/// none when there is no such profile.
pub fn duplicate(settings: &mut Settings, i: usize) -> (r: Option<usize>)
    requires
        old(settings).profiles@.len() <= u32::MAX - 2,
    ensures
        if i < old(settings).profiles@.len() {
            final(settings)@ == duplicated(old(settings)@, i as int) && r == Some(
                old(settings).profiles@.len() as usize,
            )
        } else {
            *final(settings) == *old(settings) && r is None
        },
{
    if i >= settings.profiles.len() {
        return None;
    }
    let mut p = settings.profiles[i].duplicate();
    let mut desired = p.name.clone();
    desired.append(" copy");
    p.name = unique_name(settings, desired.as_str(), None);
    settings.profiles.push(p);
    assert(settings@.profiles =~= duplicated(old(settings)@, i as int).profiles);
    Some(settings.profiles.len() - 1)
}

/// Rename profile `i`. A blank name is refused; a name that another profile
/// has is numbered. The active name follows.
pub fn rename(settings: &mut Settings, i: usize, new_name: &str) -> (r: bool)
    requires
        old(settings).profiles@.len() <= u32::MAX - 2,
    ensures
        r == (i < old(settings).profiles@.len() && trim(new_name@).len() > 0),
        r ==> final(settings)@ == renamed(old(settings)@, i as int, new_name@),
        !r ==> *final(settings) == *old(settings),
{
    if i >= settings.profiles.len() || trimmed(new_name).is_empty() {
        return false;
    }
    let name = unique_name(settings, new_name, Some(i));
    let was_active = settings.profiles[i].name == settings.active_profile;
    settings.profiles[i].name = name.clone();
    if was_active {
        settings.active_profile = name;
    }
    assert(settings@.profiles =~= renamed(old(settings)@, i as int, new_name@).profiles);
    true
}

/// Make profile `i` the active one. Returns whether that changed which
/// profile is active.
pub fn activate(settings: &mut Settings, i: usize) -> (r: bool)
    ensures
        r == (i < old(settings).profiles@.len() && old(settings).profiles@[i as int].name@ != old(
            settings,
        ).active_profile@),
        r ==> final(settings)@ == activated(old(settings)@, i as int),
        !r ==> *final(settings) == *old(settings),
{
    if i >= settings.profiles.len() {
        return false;
    }
    if settings.active_profile == settings.profiles[i].name {
        return false;
    }
    settings.active_profile = settings.profiles[i].name.clone();
    true
}

/// Delete profile `i`. The last remaining profile stays; deleting the active
/// profile activates the first one left.
pub fn remove(settings: &mut Settings, i: usize) -> (r: bool)
    ensures
        r == (old(settings).profiles@.len() > 1 && i < old(settings).profiles@.len()),
        r ==> final(settings)@ == removed(old(settings)@, i as int),
        !r ==> *final(settings) == *old(settings),
{
    if settings.profiles.len() <= 1 || i >= settings.profiles.len() {
        return false;
    }
    let was_active = settings.profiles[i].name == settings.active_profile;
    let _ = settings.profiles.remove(i);
    if was_active {
        settings.active_profile = settings.profiles[0].name.clone();
    }
    assert(settings@.profiles =~= removed(old(settings)@, i as int).profiles);
    true
}

// ---------------------------------------------------------------------
// Laws
// ---------------------------------------------------------------------

/// Adding a profile keeps names unique and leaves the active one alone.
pub proof fn law_add_is_sound(s: SettingsModel)
    requires
        sound(s),
    ensures
        sound(added(s)),
        added(s).active_profile == s.active_profile,
{
    law_unique_name_is_the_first_free(s, "New profile"@, None);
    lemma_pushed_is_sound(s, added(s).profiles.last());
}

/// Copying a profile keeps names unique, leaves the active one alone, and
/// copies everything but the name.
pub proof fn law_duplicate_is_sound(s: SettingsModel, i: int)
    requires
        sound(s),
        0 <= i < s.profiles.len(),
    ensures
        sound(duplicated(s, i)),
        duplicated(s, i).active_profile == s.active_profile,
        duplicated(s, i).profiles.last() == (ProfileModel {
            name: duplicated(s, i).profiles.last().name,
            ..s.profiles[i]
        }),
{
    law_unique_name_is_the_first_free(s, s.profiles[i].name + " copy"@, None);
    lemma_pushed_is_sound(s, duplicated(s, i).profiles.last());
}

proof fn lemma_pushed_is_sound(s: SettingsModel, p: ProfileModel)
    requires
        sound(s),
        !taken(s, p.name, None),
    ensures
        sound(SettingsModel { profiles: s.profiles.push(p), ..s }),
{
    let t = SettingsModel { profiles: s.profiles.push(p), ..s };
    let k = choose|k: int|
        0 <= k < s.profiles.len() && (#[trigger] s.profiles[k]).name == s.active_profile;
    assert(t.profiles[k].name == t.active_profile);
}

/// Renaming keeps names unique, and the profile that was active stays active.
pub proof fn law_rename_is_sound(s: SettingsModel, i: int, name: Seq<char>)
    requires
        sound(s),
        0 <= i < s.profiles.len(),
    ensures
        sound(renamed(s, i, name)),
        renamed(s, i, name).active_index() == s.active_index(),
{
    law_unique_name_is_the_first_free(s, name, Some(i));
    let t = renamed(s, i, name);
    let k = choose|k: int|
        0 <= k < s.profiles.len() && (#[trigger] s.profiles[k]).name == s.active_profile;
    assert(t.profiles[k].name == t.active_profile);
    assert forall|a: int, b: int| 0 <= a < b < t.profiles.len() implies (
    #[trigger] t.profiles[a]).name != (#[trigger] t.profiles[b]).name by {
        assert(s.profiles[a].name != s.profiles[b].name);
    }
    lemma_active_is(s, k);
    lemma_active_is(t, k);
}

/// Renaming a profile to the name it has changes nothing.
pub proof fn law_rename_to_own_name_changes_nothing(s: SettingsModel, i: int)
    requires
        sound(s),
        0 <= i < s.profiles.len(),
        trim(s.profiles[i].name) == s.profiles[i].name,
        s.profiles[i].name.len() > 0,
    ensures
        renamed(s, i, s.profiles[i].name) == s,
{
    let name = s.profiles[i].name;
    assert(!taken(s, name, Some(i)));
    assert(renamed(s, i, name).profiles =~= s.profiles);
}

proof fn lemma_active_is(s: SettingsModel, k: int)
    requires
        sound(s),
        0 <= k < s.profiles.len(),
        s.profiles[k].name == s.active_profile,
    ensures
        s.active_index() == k,
{
    let name = s.active_profile;
    assert forall|j: int| 0 <= j < k implies (#[trigger] s.profiles[j]).name != name by {}
    assert(crate::settings::is_first_named(s.profiles, name, k));
    let m = choose|m: int| crate::settings::is_first_named(s.profiles, name, m);
    assert(s.profiles[m].name == s.profiles[k].name);
    if m < k {
        assert(s.profiles[m].name != s.profiles[k].name);
    } else if k < m {
        assert(s.profiles[k].name != s.profiles[m].name);
    }
}

/// Activating keeps everything sound, and makes that profile the active one.
pub proof fn law_activate_is_sound(s: SettingsModel, i: int)
    requires
        sound(s),
        0 <= i < s.profiles.len(),
    ensures
        sound(activated(s, i)),
        activated(s, i).active_index() == i,
{
    assert(activated(s, i).profiles[i].name == activated(s, i).active_profile);
    lemma_active_is(activated(s, i), i);
}

/// Deleting keeps a profile, unique names and an existing active name.
pub proof fn law_remove_is_sound(s: SettingsModel, i: int)
    requires
        sound(s),
        s.profiles.len() > 1,
        0 <= i < s.profiles.len(),
    ensures
        sound(removed(s, i)),
        s.profiles[i].name != s.active_profile ==> removed(s, i).active_profile
            == s.active_profile,
        s.profiles[i].name == s.active_profile ==> removed(s, i).active_index() == 0,
{
    let t = removed(s, i);
    let k = choose|k: int|
        0 <= k < s.profiles.len() && (#[trigger] s.profiles[k]).name == s.active_profile;
    assert forall|a: int, b: int| 0 <= a < b < t.profiles.len() implies (
    #[trigger] t.profiles[a]).name != (#[trigger] t.profiles[b]).name by {
        let a0 = if a < i { a } else { a + 1 };
        let b0 = if b < i { b } else { b + 1 };
        assert(t.profiles[a] == s.profiles[a0]);
        assert(t.profiles[b] == s.profiles[b0]);
    }
    if s.profiles[i].name == s.active_profile {
        assert(t.profiles[0].name == t.active_profile);
        lemma_active_is(t, 0);
    } else {
        let k0 = if k < i { k } else { k - 1 };
        assert(t.profiles[k0].name == t.active_profile);
    }
}

} // verus!
