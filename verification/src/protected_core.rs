//! The copy of the core that the helper starts: kept the same as the core in use, and checked in
//! full only where something may have changed since the last check.

use vstd::prelude::*;

use crate::peel::opt_str_view;
use crate::text::same_text;

verus! {

/// The stamps of both directories when they were found to hold the same.
pub struct ProtectedCoreCacheRecord {
    pub active: String,
    pub protected: String,
}

/// What is remembered of the last full check.
pub struct ProtectedCoreCache {
    pub record: Option<ProtectedCoreCacheRecord>,
}

/// How keeping the copy up to date goes on.
#[derive(Clone, Copy, PartialEq, Eq, Structural, Debug)]
pub enum ProtectedNext {
    /// There is no copy to keep on this platform, or the core's directory is not known.
    Skip,
    /// Nothing has changed since the last full check.
    Cached,
    /// Compare the files in full.
    Compare,
    /// The files are the same: look at the stamps once more.
    Confirm,
    /// Stage these files and have the helper install them.
    Promote,
    /// There is nothing to stage.
    NothingToPromote,
}

/// The stamps are those of the last full check.
pub open spec fn is_cached(
    cache: ProtectedCoreCache,
    active: Seq<char>,
    protected: Option<Seq<char>>,
) -> bool {
    match (cache.record, protected) {
        (Some(r), Some(p)) => r.active@ == active && r.protected@ == p,
        _ => false,
    }
}

/// Are the stamps those of the last full check?
pub fn protected_core_cache_hit(
    cache: &ProtectedCoreCache,
    active: &str,
    protected: Option<&str>,
) -> (r: bool)
    ensures
        r == is_cached(*cache, active@, opt_str_view(protected)),
{
    match (&cache.record, protected) {
        (Some(rec), Some(p)) => same_text(rec.active.as_str(), active) && same_text(
            rec.protected.as_str(),
            p,
        ),
        _ => false,
    }
}

impl ProtectedCoreCache {
    /// A start asks for the copy to be up to date. `active` and `protected` are the stamps of the
    /// directories, the second being `None` where there is no copy. What is remembered is dropped
    /// where it does not apply.
    pub fn begin(&mut self, has_copy: bool, active: &str, protected: Option<&str>) -> (r:
        ProtectedNext)
        ensures
            if !has_copy {
                r == ProtectedNext::Skip && *final(self) == *old(self)
            } else if is_cached(*old(self), active@, opt_str_view(protected)) {
                r == ProtectedNext::Cached && *final(self) == *old(self)
            } else {
                r == ProtectedNext::Compare && final(self).record is None
            },
    {
        if !has_copy {
            return ProtectedNext::Skip;
        }
        if protected_core_cache_hit(self, active, protected) {
            return ProtectedNext::Cached;
        }
        self.record = None;
        ProtectedNext::Compare
    }

    /// The files were compared in full. `files` is how many there are to stage.
    pub fn compared(up_to_date: bool, files: usize) -> (r: ProtectedNext)
        ensures
            r == (if up_to_date {
                ProtectedNext::Confirm
            } else if files == 0 {
                ProtectedNext::NothingToPromote
            } else {
                ProtectedNext::Promote
            }),
    {
        if up_to_date {
            ProtectedNext::Confirm
        } else if files == 0 {
            ProtectedNext::NothingToPromote
        } else {
            ProtectedNext::Promote
        }
    }

    /// The files are the same. That is remembered only where neither directory changed while they
    /// were being compared.
    pub fn confirmed(
        &mut self,
        active_before: &str,
        protected_before: Option<&str>,
        active_after: &str,
        protected_after: &str,
    )
        ensures
            if active_before@ == active_after@ && opt_str_view(protected_before) == Some(
                protected_after@,
            ) {
                &&& final(self).record matches Some(r)
                &&& r.active@ == active_after@
                &&& r.protected@ == protected_after@
            } else {
                *final(self) == *old(self)
            },
    {
        let copy_unchanged = match protected_before {
            Some(p) => same_text(p, protected_after),
            None => false,
        };
        if same_text(active_before, active_after) && copy_unchanged {
            self.record = Some(
                ProtectedCoreCacheRecord {
                    active: active_after.to_owned(),
                    protected: protected_after.to_owned(),
                },
            );
        }
    }
}

/// A full check is skipped only for the very stamps that one was made with.
pub proof fn law_a_skipped_check_was_made_before(
    cache: ProtectedCoreCache,
    active: Seq<char>,
    protected: Option<Seq<char>>,
    other_active: Seq<char>,
    other_protected: Option<Seq<char>>,
)
    requires
        is_cached(cache, active, protected),
        is_cached(cache, other_active, other_protected),
    ensures
        active == other_active,
        protected == other_protected,
{
}

/// A check is skipped exactly for both of the stamps that are remembered, and it is begun only
/// where there is a copy; a check that is due leaves nothing remembered.
pub proof fn law_a_check_is_skipped_by_both_stamps(
    cache: ProtectedCoreCache,
    active: &str,
    protected: Option<&str>,
    hit: bool,
    asked: &mut ProtectedCoreCache,
    has_copy: bool,
    r: ProtectedNext,
)
    requires
        call_ensures(protected_core_cache_hit, (&cache, active, protected), hit),
        *old(asked) == cache,
        call_ensures(ProtectedCoreCache::begin, (asked, has_copy, active, protected), r),
    ensures
        hit <==> cache.record is Some && protected is Some && cache.record->0.active@ == active@
            && cache.record->0.protected@ == protected->0@,
        r == ProtectedNext::Skip <==> !has_copy,
        r == ProtectedNext::Cached <==> has_copy && hit,
        r == ProtectedNext::Compare <==> has_copy && !hit,
        r == ProtectedNext::Compare ==> final(asked).record is None,
        r != ProtectedNext::Compare ==> *final(asked) == *old(asked),
{
    assert(opt_str_view(protected) == (match protected {
        Some(p) => Some(p@),
        None => None,
    }));
}

/// Files are installed exactly where they differ and there are any; files that are the same are
/// remembered by their stamps where neither stamp changed meanwhile, and asking for those stamps
/// is then answered from memory.
pub proof fn law_a_check_that_held_is_remembered(
    up_to_date: bool,
    files: usize,
    r: ProtectedNext,
    cache: &mut ProtectedCoreCache,
    active_before: &str,
    protected_before: Option<&str>,
    active_after: &str,
    protected_after: &str,
    hit: bool,
)
    requires
        call_ensures(ProtectedCoreCache::compared, (up_to_date, files), r),
        call_ensures(
            ProtectedCoreCache::confirmed,
            (cache, active_before, protected_before, active_after, protected_after),
            (),
        ),
        call_ensures(
            protected_core_cache_hit,
            (final(cache), active_after, Some(protected_after)),
            hit,
        ),
    ensures
        r == ProtectedNext::Confirm <==> up_to_date,
        r == ProtectedNext::Promote <==> !up_to_date && files > 0,
        r == ProtectedNext::NothingToPromote <==> !up_to_date && files == 0,
        ({
            let steady = active_before@ == active_after@ && protected_before is Some
                && protected_before->0@ == protected_after@;
            &&& steady ==> hit
            &&& !steady ==> *final(cache) == *old(cache)
        }),
{
    assert(opt_str_view(protected_before) == (match protected_before {
        Some(p) => Some(p@),
        None => None,
    }));
    assert(opt_str_view(Some(protected_after)) == Some(protected_after@));
}

} // verus!
