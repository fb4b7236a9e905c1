//! The history of captures: which screenshot was read, when, and what text
//! came back. The newest capture comes first.
use vstd::prelude::*;

verus! {

/// One capture in the history.
pub struct ScreenshotData {
    /// Where the screenshot's PNG file was saved.
    pub screenshot_path: String,
    /// Seconds since the Unix epoch at which it was saved.
    pub created_at: u64,
    /// The text that the model read from it.
    pub response: String,
}

impl ScreenshotData {
    /// A copy of this entry.
    pub fn duplicate(&self) -> (r: ScreenshotData)
        ensures
            r == *self,
    {
        ScreenshotData {
            screenshot_path: self.screenshot_path.clone(),
            created_at: self.created_at,
            response: self.response.clone(),
        }
    }
}

/// Adds a capture at the front of the history: the newest entry comes
/// first and the earlier ones follow in their order.
pub fn record_screenshot(history: &mut Vec<ScreenshotData>, screenshot_path: String, created_at: u64, response: &str)
    ensures
        final(history)@.len() == old(history)@.len() + 1,
        final(history)@.skip(1) == old(history)@,
        final(history)@[0].screenshot_path == screenshot_path,
        final(history)@[0].created_at == created_at,
        final(history)@[0].response@ == response@,
{
    let entry = ScreenshotData { screenshot_path, created_at, response: String::from_str(response) };
    history.insert(0, entry);
    assert(history@.skip(1) =~= old(history)@);
}

/// The entries whose flag is set, in their order.
pub open spec fn kept(entries: Seq<ScreenshotData>, flags: Seq<bool>) -> Seq<ScreenshotData>
    decreases entries.len(),
{
    if entries.len() == 0 {
        Seq::empty()
    } else if flags[entries.len() - 1] {
        kept(entries.drop_last(), flags).push(entries.last())
    } else {
        kept(entries.drop_last(), flags)
    }
}

/// The history entries that can still be shown: those whose screenshot file
/// still exists (`exists[i]` tells it for `entries[i]`), in their order.
pub fn visible_history(entries: &Vec<ScreenshotData>, exists: &Vec<bool>) -> (r: Vec<ScreenshotData>)
    requires
        exists@.len() == entries@.len(),
    ensures
        r@ == kept(entries@, exists@),
{
    let mut r: Vec<ScreenshotData> = Vec::new();
    let mut i: usize = 0;
    while i < entries.len()
        invariant
            exists@.len() == entries@.len(),
            i <= entries@.len(),
            r@ == kept(entries@.take(i as int), exists@),
        decreases entries@.len() - i,
    {
        assert(entries@.take(i + 1).drop_last() =~= entries@.take(i as int));
        if exists[i] {
            r.push(entries[i].duplicate());
        }
        i = i + 1;
    }
    assert(entries@.take(entries@.len() as int) =~= entries@);
    r
}

/// Every entry of the visible history is an entry of the history whose
/// screenshot exists, and every such entry is visible.
pub proof fn visible_history_members(entries: Seq<ScreenshotData>, flags: Seq<bool>)
    requires
        flags.len() == entries.len(),
    ensures
        forall|e: ScreenshotData| kept(entries, flags).contains(e) <==>
            exists|i: int| 0 <= i < entries.len() && flags[i] && entries[i] == e,
    decreases entries.len(),
{
    if entries.len() > 0 {
        let n = entries.len() - 1;
        visible_history_members(entries.drop_last(), flags.drop_last());
        assert(kept(entries.drop_last(), flags) == kept(entries.drop_last(), flags.drop_last())) by {
            lemma_kept_prefix_flags(entries.drop_last(), flags, flags.drop_last());
        }
        assert forall|e: ScreenshotData| kept(entries, flags).contains(e) <==>
            exists|i: int| 0 <= i < entries.len() && flags[i] && entries[i] == e by {
            if kept(entries, flags).contains(e) {
                if flags[n] && e == entries[n] {
                    assert(0 <= n < entries.len() && flags[n] && entries[n] == e);
                } else {
                    let rest = kept(entries.drop_last(), flags);
                    if flags[n] {
                        let k = choose|k: int| 0 <= k < rest.push(entries.last()).len() && rest.push(entries.last())[k] == e;
                        assert(k < rest.len());
                        assert(rest.contains(e));
                    }
                    let i = choose|i: int| 0 <= i < entries.drop_last().len() && flags.drop_last()[i] && entries.drop_last()[i] == e;
                    assert(0 <= i < entries.len() && flags[i] && entries[i] == e);
                }
            }
            if exists|i: int| 0 <= i < entries.len() && flags[i] && entries[i] == e {
                let i = choose|i: int| 0 <= i < entries.len() && flags[i] && entries[i] == e;
                let rest = kept(entries.drop_last(), flags);
                if i == n {
                    assert(rest.push(entries.last())[rest.len() as int] == e);
                } else {
                    assert(entries.drop_last()[i] == e && flags.drop_last()[i]);
                    assert(rest.contains(e));
                    if flags[n] {
                        let k = choose|k: int| 0 <= k < rest.len() && rest[k] == e;
                        assert(rest.push(entries.last())[k] == e);
                    }
                }
            }
        }
    }
}

/// The visible history keeps the history's order: an entry appended to the
/// history is appended to the visible history when its file exists, and
/// changes nothing when it does not.
pub proof fn visible_history_keeps_order(entries: Seq<ScreenshotData>, e: ScreenshotData, flags: Seq<bool>)
    requires
        flags.len() == entries.len() + 1,
    ensures
        flags[entries.len() as int] ==> kept(entries.push(e), flags) == kept(entries, flags).push(e),
        !flags[entries.len() as int] ==> kept(entries.push(e), flags) == kept(entries, flags),
{
    assert(entries.push(e).drop_last() =~= entries);
}

/// When every screenshot still exists the whole history is visible, in its
/// order; when none does, nothing is.
pub proof fn visible_history_all_or_none(entries: Seq<ScreenshotData>, flags: Seq<bool>)
    requires
        flags.len() == entries.len(),
    ensures
        (forall|i: int| 0 <= i < flags.len() ==> flags[i]) ==> kept(entries, flags) == entries,
        (forall|i: int| 0 <= i < flags.len() ==> !flags[i]) ==> kept(entries, flags) == Seq::<ScreenshotData>::empty(),
    decreases entries.len(),
{
    if entries.len() > 0 {
        let n = entries.len() - 1;
        lemma_kept_prefix_flags(entries.drop_last(), flags, flags.drop_last());
        visible_history_all_or_none(entries.drop_last(), flags.drop_last());
        if forall|i: int| 0 <= i < flags.len() ==> flags[i] {
            assert(forall|i: int| 0 <= i < flags.drop_last().len() ==> flags.drop_last()[i]) by {
                assert forall|i: int| 0 <= i < flags.drop_last().len() implies flags.drop_last()[i] by {
                    assert(flags[i]);
                }
            }
            assert(flags[n]);
            assert(entries.drop_last().push(entries.last()) =~= entries);
        }
        if forall|i: int| 0 <= i < flags.len() ==> !flags[i] {
            assert(forall|i: int| 0 <= i < flags.drop_last().len() ==> !flags.drop_last()[i]) by {
                assert forall|i: int| 0 <= i < flags.drop_last().len() implies !flags.drop_last()[i] by {
                    assert(!flags[i]);
                }
            }
            assert(!flags[n]);
        }
    }
}

proof fn lemma_kept_prefix_flags(entries: Seq<ScreenshotData>, flags: Seq<bool>, other: Seq<bool>)
    requires
        entries.len() <= other.len(),
        entries.len() <= flags.len(),
        forall|i: int| 0 <= i < entries.len() ==> flags[i] == other[i],
    ensures
        kept(entries, flags) == kept(entries, other),
    decreases entries.len(),
{
    if entries.len() > 0 {
        lemma_kept_prefix_flags(entries.drop_last(), flags, other);
    }
}

/// Two saves in a row leave the later capture first, then the earlier one,
/// then the history as it was.
pub proof fn newest_first(h0: Seq<ScreenshotData>, h1: Seq<ScreenshotData>, h2: Seq<ScreenshotData>)
    requires
        h1.len() == h0.len() + 1,
        h1.skip(1) == h0,
        h2.len() == h1.len() + 1,
        h2.skip(1) == h1,
    ensures
        h2 == seq![h2[0], h1[0]] + h0,
{
    assert(h2 =~= seq![h2[0], h1[0]] + h0) by {
        assert forall|i: int| 2 <= i < h2.len() implies h2[i] == h0[i - 2] by {
            assert(h2[i] == h2.skip(1)[i - 1]);
            assert(h1[i - 1] == h1.skip(1)[i - 2]);
        }
        assert(h2[1] == h2.skip(1)[0]);
    }
}

/// `s` is a version-4 UUID in its hyphenated lower-case text form.
pub open spec fn is_uuid_v4_text(s: Seq<char>) -> bool {
    &&& s.len() == 36
    &&& forall|i: int| 0 <= i < 36 ==> (if i == 8 || i == 13 || i == 18 || i == 23 {
        s[i] == '-'
    } else {
        ('0' <= s[i] <= '9') || ('a' <= s[i] <= 'f')
    })
    &&& s[14] == '4'
    &&& (s[19] == '8' || s[19] == '9' || s[19] == 'a' || s[19] == 'b')
}

/// A fresh random identifier from `uuid::Uuid::new_v4`, formatted by its
/// `Display` impl. Trusted: the text is a hyphenated lower-case version-4
/// UUID, as the crate's version and variant masks and its hyphenated
/// formatter show. Which identifier comes out is random and not stated; the
/// crate panics when the system's random source fails.
#[verifier::external_body]
fn random_uuid_v4() -> (s: String)
    ensures
        is_uuid_v4_text(s@),
{
    uuid::Uuid::new_v4().to_string()
}

/// A fresh file name for a screenshot: a random version-4 UUID followed by
/// `.png`.
pub fn screenshot_file_name() -> (s: String)
    ensures
        s@.len() == 40,
        is_uuid_v4_text(s@.subrange(0, 36)),
        s@.subrange(36, 40) == ".png"@,
{
    let mut s = random_uuid_v4();
    let ghost id = s@;
    s.append(".png");
    proof {
        reveal_strlit(".png");
        assert(s@.subrange(0, 36) =~= id);
        assert(s@.subrange(36, 40) =~= ".png"@);
    }
    s
}

} // verus!
