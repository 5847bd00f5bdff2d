//! Profile usage registry: which session holds which profile, and the
//! single-handle exclusivity rule for devices that cannot be shared.

use vstd::prelude::*;

use crate::error::IoError;
use crate::strutil::str_eq;
use vstd::string::StringExecFns;

verus! {

/// Information about an active profile usage.
#[derive(Clone, Debug)]
pub struct ProfileUsage {
    /// The session holding the profile.
    pub session_id: String,
}

/// The session registered for `id` in `entries`, scanning newest first.
pub open spec fn reg_lookup(entries: Seq<(String, String)>, id: Seq<char>) -> Option<Seq<char>>
    decreases entries.len(),
{
    if entries.len() == 0 {
        None
    } else if entries.last().0@ == id {
        Some(entries.last().1@)
    } else {
        reg_lookup(entries.drop_last(), id)
    }
}

/// `entries` with every registration of `id` removed, order kept.
pub open spec fn reg_remove(entries: Seq<(String, String)>, id: Seq<char>) -> Seq<(
    String,
    String,
)>
    decreases entries.len(),
{
    if entries.len() == 0 {
        Seq::empty()
    } else {
        let rest = reg_remove(entries.drop_last(), id);
        if entries.last().0@ == id {
            rest
        } else {
            rest.push(entries.last())
        }
    }
}

/// Removing one profile's registrations affects no other profile.
pub proof fn lemma_reg_remove_lookup(entries: Seq<(String, String)>, id: Seq<char>, k: Seq<char>)
    ensures
        reg_lookup(reg_remove(entries, id), k) == if k == id {
            None::<Seq<char>>
        } else {
            reg_lookup(entries, k)
        },
    decreases entries.len(),
{
    if entries.len() > 0 {
        lemma_reg_remove_lookup(entries.drop_last(), id, k);
        let rest = reg_remove(entries.drop_last(), id);
        if entries.last().0@ == id {
        } else {
            assert(rest.push(entries.last()).last() == entries.last());
            assert(rest.push(entries.last()).drop_last() =~= rest);
        }
    }
}

/// The profile usage map: `profile_id` to the `session_id` that holds it.
pub struct ProfileRegistry {
    entries: Vec<(String, String)>,
}

impl ProfileRegistry {
    /// The registrations, in registration order.
    pub closed spec fn view(self) -> Seq<(String, String)> {
        self.entries@
    }

    /// The session registered for a profile, if any.
    pub open spec fn spec_usage(self, id: Seq<char>) -> Option<Seq<char>> {
        reg_lookup(self.view(), id)
    }

    /// An empty registry.
    pub fn new() -> (r: ProfileRegistry)
        ensures
            r.view() == Seq::<(String, String)>::empty(),
    {
        let r = ProfileRegistry { entries: Vec::new() };
        proof {
            assert(r.view() =~= Seq::<(String, String)>::empty());
        }
        r
    }

    /// Registers a profile as used by a session; any earlier registration
    /// of the same profile is replaced.
    pub fn register_usage(&mut self, profile_id: &str, session_id: &str)
        ensures
            final(self).spec_usage(profile_id@) == Some(session_id@),
            forall|k: Seq<char>|
                k != profile_id@ ==> #[trigger] final(self).spec_usage(k) == old(
                    self,
                ).spec_usage(k),
    {
        self.unregister_usage(profile_id);
        let ghost mid = *self;
        let ghost pre = self.entries@;
        self.entries.push((profile_id.to_owned(), session_id.to_owned()));
        proof {
            assert(self.entries@.last().0@ == profile_id@);
            assert(self.entries@.drop_last() =~= pre);
            assert forall|k: Seq<char>| k != profile_id@ implies #[trigger] reg_lookup(
                self.entries@,
                k,
            ) == mid.spec_usage(k) by {
                assert(self.entries@.last().0@ != k);
            }
        }
    }

    /// Removes a profile's registration, if any.
    pub fn unregister_usage(&mut self, profile_id: &str)
        ensures
            final(self).spec_usage(profile_id@) is None,
            forall|k: Seq<char>|
                k != profile_id@ ==> #[trigger] final(self).spec_usage(k) == old(
                    self,
                ).spec_usage(k),
    {
        let ghost pre = self.entries@;
        let mut kept: Vec<(String, String)> = Vec::new();
        let mut i: usize = 0;
        proof {
            assert(pre.take(0) =~= Seq::<(String, String)>::empty());
            assert(kept@ =~= reg_remove(pre.take(0), profile_id@));
        }
        while i < self.entries.len()
            invariant
                i <= pre.len(),
                self.entries@ == pre,
                kept@ == reg_remove(pre.take(i as int), profile_id@),
            decreases pre.len() - i,
        {
            let keep = !str_eq(self.entries[i].0.as_str(), profile_id);
            proof {
                assert(pre.take(i as int + 1).drop_last() =~= pre.take(i as int));
                assert(pre.take(i as int + 1).last() == pre[i as int]);
            }
            if keep {
                let key = self.entries[i].0.clone();
                let val = self.entries[i].1.clone();
                kept.push((key, val));
                proof {
                    assert(kept@.drop_last() =~= reg_remove(pre.take(i as int), profile_id@));
                    assert(kept@ =~= reg_remove(pre.take(i as int + 1), profile_id@));
                }
            }
            i = i + 1;
        }
        proof {
            assert(pre.take(pre.len() as int) =~= pre);
        }
        self.entries = kept;
        proof {
            assert forall|k: Seq<char>| true implies #[trigger] reg_lookup(
                self.entries@,
                k,
            ) == (if k == profile_id@ {
                None::<Seq<char>>
            } else {
                reg_lookup(pre, k)
            }) by {
                lemma_reg_remove_lookup(pre, profile_id@, k);
            }
        }
    }

    /// The usage record for a profile, if one is registered.
    pub fn get_usage(&self, profile_id: &str) -> (r: Option<ProfileUsage>)
        ensures
            match (r, self.spec_usage(profile_id@)) {
                (Some(u), Some(s)) => u.session_id@ == s,
                (None, None) => true,
                _ => false,
            },
    {
        let n = self.entries.len();
        let mut i: usize = n;
        proof {
            assert(self.entries@.take(n as int) =~= self.entries@);
        }
        while i > 0
            invariant
                i <= n == self.entries@.len(),
                reg_lookup(self.entries@, profile_id@) == reg_lookup(
                    self.entries@.take(i as int),
                    profile_id@,
                ),
            decreases i,
        {
            proof {
                assert(self.entries@.take(i as int).last() == self.entries@[i - 1]);
                assert(self.entries@.take(i as int).drop_last() =~= self.entries@.take(i - 1));
            }
            if str_eq(self.entries[i - 1].0.as_str(), profile_id) {
                let session_id = self.entries[i - 1].1.clone();
                return Some(ProfileUsage { session_id });
            }
            i = i - 1;
        }
        proof {
            assert(self.entries@.take(0) =~= Seq::<(String, String)>::empty());
        }
        None
    }

    /// Whether a session may open this profile: kinds that are not
    /// single-handle always may; single-handle kinds only while no session
    /// is registered for the profile.
    pub fn can_use_profile(&self, profile_id: &str, profile_kind: &str) -> (r: Result<
        (),
        IoError,
    >)
        ensures
            r is Ok <==> (!spec_single_handle_kind(profile_kind@) || self.spec_usage(
                profile_id@,
            ) is None),
            r matches Err(e) ==> e matches IoError::DeviceBusy { device: d } && d@
                == profile_id@,
    {
        if !is_single_handle_kind(profile_kind) {
            return Ok(());
        }
        match self.get_usage(profile_id) {
            Some(_) => Err(IoError::busy(profile_id)),
            None => Ok(()),
        }
    }
}

/// Whether a profile kind needs exclusive, single-handle access.
pub open spec fn spec_single_handle_kind(kind: Seq<char>) -> bool {
    kind == "slcan"@ || kind == "serial"@
}

/// Whether a profile kind needs exclusive, single-handle access (slcan and
/// plain serial devices do: they own the port).
pub fn is_single_handle_kind(profile_kind: &str) -> (r: bool)
    ensures
        r == spec_single_handle_kind(profile_kind@),
{
    str_eq(profile_kind, "slcan") || str_eq(profile_kind, "serial")
}

} // verus!
