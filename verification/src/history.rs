//! Version history of an image: snapshot naming, rebase (disabling edits),
//! revert lookups and the order in which edits are replayed.
use vstd::prelude::*;
use crate::text::{
    chars_of, chars_start_with, concat, copy_range, decimal, lemma_parse_decimal, numeral, parse_unsigned,
    parse_unsigned_chars, push_numeral, starts_with, string_of,
};

verus! {

/// The hash of a snapshot taken at `now_sec`: the first eight digits of the
/// lower-case hexadecimal numeral of the time.
pub open spec fn snapshot_hash_of(now_sec: nat) -> Seq<char> {
    let h = numeral(now_sec, 16);
    if h.len() <= 8 {
        h
    } else {
        h.take(8)
    }
}

/// The hash of a snapshot taken at `now_sec` seconds since the epoch.
pub fn snapshot_hash(now_sec: u64) -> (r: String)
    ensures
        r@ == snapshot_hash_of(now_sec as nat),
{
    let mut v: Vec<char> = Vec::new();
    push_numeral(&mut v, now_sec, 16);
    assert(v@ =~= numeral(now_sec as nat, 16));
    if v.len() <= 8 {
        string_of(v.as_slice())
    } else {
        let t = copy_range(v.as_slice(), 0, 8);
        assert(t@ =~= v@.take(8));
        string_of(t.as_slice())
    }
}

/// The file a snapshot is stored in: `<stem>_<hash>.webp`.
pub open spec fn snapshot_file_name_of(stem: Seq<char>, hash: Seq<char>) -> Seq<char> {
    stem + "_"@ + hash + ".webp"@
}

/// The file name of the snapshot of `stem` with hash `hash`.
pub fn snapshot_file_name(stem: &str, hash: &str) -> (r: String)
    ensures
        r@ == snapshot_file_name_of(stem@, hash@),
{
    let v = concat(chars_of(stem).as_slice(), chars_of("_").as_slice());
    let v = concat(v.as_slice(), chars_of(hash).as_slice());
    let v = concat(v.as_slice(), chars_of(".webp").as_slice());
    string_of(v.as_slice())
}

/// After a rebase, an entry stays enabled when it was enabled and its index
/// is not among those to disable.
pub open spec fn rebased(enabled: Seq<bool>, indexes: Seq<usize>) -> Seq<bool> {
    Seq::new(enabled.len(), |i: int| enabled[i] && !indexes.contains(i as usize))
}

/// Disables the history entries at `indexes_to_disable`; indexes past the end
/// are ignored.
pub fn rebase_flags(enabled: &mut Vec<bool>, indexes_to_disable: &[usize])
    ensures
        final(enabled)@ == rebased(old(enabled)@, indexes_to_disable@),
{
    let ghost orig = enabled@;
    let mut k: usize = 0;
    while k < indexes_to_disable.len()
        invariant
            k <= indexes_to_disable@.len(),
            indexes_to_disable@.len() == indexes_to_disable.len(),
            enabled@ == rebased(orig, indexes_to_disable@.take(k as int)),
        decreases indexes_to_disable@.len() - k,
    {
        let idx = indexes_to_disable[k];
        if idx < enabled.len() {
            enabled.set(idx, false);
        }
        k = k + 1;
        proof {
            let done = indexes_to_disable@.take(k as int);
            assert(done =~= indexes_to_disable@.take(k - 1).push(idx));
            assert forall|i: int| 0 <= i < orig.len() implies #[trigger] done.contains(i as usize)
                == (indexes_to_disable@.take(k - 1).contains(i as usize) || i as usize == idx) by {
                let prev = indexes_to_disable@.take(k - 1);
                if done.contains(i as usize) {
                    let j = choose|j: int| 0 <= j < done.len() && done[j] == i as usize;
                    if j < prev.len() {
                        assert(prev[j] == done[j]);
                    }
                }
                if prev.contains(i as usize) {
                    let j = choose|j: int| 0 <= j < prev.len() && prev[j] == i as usize;
                    assert(done[j] == prev[j]);
                }
                if i as usize == idx {
                    assert(done[done.len() - 1] == idx);
                }
            }
            assert(enabled@ =~= rebased(orig, done));
        }
    }
    assert(indexes_to_disable@.take(indexes_to_disable@.len() as int) =~= indexes_to_disable@);
}

/// What became of a request to toggle a history entry.
#[derive(Debug, Clone, Copy, PartialEq, Eq, Structural)]
pub enum ToggleOutcome {
    /// The base snapshot (index 0) is never toggled.
    BaseLocked,
    Toggled,
    OutOfRange,
}

/// Flips whether the entry at `idx` is replayed, except for the base snapshot.
pub fn toggle_entry(enabled: &mut Vec<bool>, idx: usize) -> (r: ToggleOutcome)
    ensures
        idx == 0 ==> r == ToggleOutcome::BaseLocked && final(enabled)@ == old(enabled)@,
        idx > 0 && idx < old(enabled)@.len() ==> r == ToggleOutcome::Toggled && final(enabled)@
            == old(enabled)@.update(idx as int, !old(enabled)@[idx as int]),
        idx > 0 && idx >= old(enabled)@.len() ==> r == ToggleOutcome::OutOfRange && final(enabled)@
            == old(enabled)@,
{
    if idx == 0 {
        return ToggleOutcome::BaseLocked;
    }
    if idx < enabled.len() {
        let v = enabled[idx];
        enabled.set(idx, !v);
        ToggleOutcome::Toggled
    } else {
        ToggleOutcome::OutOfRange
    }
}

/// The indexes of the recorded edits that rebuilding an image replays, in
/// order: every entry after the base snapshot that is enabled and records an
/// operation.
pub open spec fn replay_indices_of(enabled: Seq<bool>, has_op: Seq<bool>) -> Seq<usize>
    decreases enabled.len(),
{
    if enabled.len() <= 1 {
        Seq::empty()
    } else {
        let i = enabled.len() - 1;
        let rest = replay_indices_of(enabled.drop_last(), has_op);
        if enabled[i] && i < has_op.len() && has_op[i] {
            rest.push(i as usize)
        } else {
            rest
        }
    }
}

/// The indexes of the recorded edits to replay when rebuilding an image.
pub fn replay_indices(enabled: &[bool], has_op: &[bool]) -> (r: Vec<usize>)
    requires
        enabled@.len() == has_op@.len(),
    ensures
        r@ == replay_indices_of(enabled@, has_op@),
{
    let mut r: Vec<usize> = Vec::new();
    if enabled.len() == 0 {
        return r;
    }
    let mut i: usize = 1;
    assert(enabled@.take(1).len() <= 1);
    while i < enabled.len()
        invariant
            1 <= i <= enabled@.len(),
            enabled@.len() == enabled.len(),
            enabled@.len() == has_op@.len(),
            r@ == replay_indices_of(enabled@.take(i as int), has_op@),
        decreases enabled@.len() - i,
    {
        let ghost pre = enabled@.take(i as int);
        let ghost next = enabled@.take(i + 1);
        assert(next.drop_last() =~= pre);
        if enabled[i] && has_op[i] {
            r.push(i);
        }
        i = i + 1;
    }
    assert(enabled@.take(enabled@.len() as int) =~= enabled@);
    r
}

/// The entry a commit reference names: a numeral that is a valid index names
/// the entry at that index; anything else (a hash, or a numeral past the end,
/// which may be an all-digit hash) names the first entry whose hash starts
/// with it.
pub open spec fn commit_index_of(hashes: Seq<Seq<char>>, commit_ref: Seq<char>) -> Option<nat> {
    let idx = parse_unsigned(commit_ref, usize::MAX as nat);
    if idx is Some && idx->0 < hashes.len() {
        Some(idx->0)
    } else {
        first_hash_match(hashes, commit_ref)
    }
}

/// The first entry whose hash starts with `prefix`, if any.
pub open spec fn first_hash_match(hashes: Seq<Seq<char>>, prefix: Seq<char>) -> Option<nat> {
    if exists|i: int| 0 <= i < hashes.len() && starts_with(#[trigger] hashes[i], prefix) {
        Some(
            (choose|i: int|
                0 <= i < hashes.len() && starts_with(hashes[i], prefix) && forall|j: int|
                    0 <= j < i ==> !starts_with(#[trigger] hashes[j], prefix)) as nat,
        )
    } else {
        None
    }
}

/// The index of the history entry that `commit_ref` names among entries with
/// these hashes.
pub fn resolve_commit_ref(hashes: &[String], commit_ref: &str) -> (r: Option<usize>)
    ensures
        r matches Some(i) ==> commit_index_of(hashes@.map_values(|h: String| h@), commit_ref@) == Some(
            i as nat,
        ),
        r is None ==> commit_index_of(hashes@.map_values(|h: String| h@), commit_ref@) is None,
{
    let ghost hs = hashes@.map_values(|h: String| h@);
    let rc = chars_of(commit_ref);
    let parsed = parse_unsigned_chars(rc.as_slice(), usize::MAX as u64);
    if let Some(idx) = parsed {
        if (idx as usize) < hashes.len() {
            return Some(idx as usize);
        }
    }
    let mut i: usize = 0;
    while i < hashes.len()
        invariant
            i <= hashes@.len(),
            hashes@.len() == hashes.len(),
            hs == hashes@.map_values(|h: String| h@),
            rc@ == commit_ref@,
            !(parse_unsigned(commit_ref@, usize::MAX as nat) matches Some(n) && n < hashes@.len()),
            forall|j: int| 0 <= j < i ==> !starts_with(#[trigger] hs[j], commit_ref@),
        decreases hashes@.len() - i,
    {
        let hc = chars_of(hashes[i].as_str());
        if chars_start_with(hc.as_slice(), rc.as_slice()) {
            proof {
                assert(hs[i as int] == hashes@[i as int]@);
                assert(starts_with(hs[i as int], commit_ref@));
                let w = choose|k: int|
                    0 <= k < hs.len() && starts_with(hs[k], commit_ref@) && forall|j: int|
                        0 <= j < k ==> !starts_with(#[trigger] hs[j], commit_ref@);
                assert(w == i) by {
                    if w < i {
                    } else if w > i {
                    }
                }
            }
            return Some(i);
        }
        proof {
            assert(hs[i as int] == hashes@[i as int]@);
        }
        i = i + 1;
    }
    None
}

/// Disabling the same entries twice is the same as disabling them once.
pub proof fn lemma_rebase_idempotent(enabled: Seq<bool>, indexes: Seq<usize>)
    ensures
        rebased(rebased(enabled, indexes), indexes) == rebased(enabled, indexes),
{
    assert(rebased(rebased(enabled, indexes), indexes) =~= rebased(enabled, indexes));
}

/// A rebase only ever disables entries: what it leaves enabled was enabled.
pub proof fn lemma_rebase_only_disables(enabled: Seq<bool>, indexes: Seq<usize>, i: int)
    requires
        0 <= i < enabled.len(),
        rebased(enabled, indexes)[i],
    ensures
        enabled[i],
{
}

/// The base snapshot is never replayed, and every replayed index names an
/// enabled entry that records an operation, in increasing order.
pub proof fn lemma_replay_indices_sound(enabled: Seq<bool>, has_op: Seq<bool>)
    requires
        enabled.len() == has_op.len(),
        enabled.len() <= usize::MAX,
    ensures
        forall|k: int|
            0 <= k < replay_indices_of(enabled, has_op).len() ==> {
                let i = #[trigger] replay_indices_of(enabled, has_op)[k] as int;
                &&& 1 <= i < enabled.len()
                &&& enabled[i]
                &&& has_op[i]
            },
        forall|k: int, l: int|
            0 <= k < l < replay_indices_of(enabled, has_op).len() ==> #[trigger] replay_indices_of(
                enabled,
                has_op,
            )[k] < #[trigger] replay_indices_of(enabled, has_op)[l],
    decreases enabled.len(),
{
    lemma_replay_indices_sound_prefix(enabled, has_op);
}

proof fn lemma_replay_indices_sound_prefix(enabled: Seq<bool>, has_op: Seq<bool>)
    requires
        enabled.len() <= has_op.len(),
        enabled.len() <= usize::MAX,
    ensures
        forall|k: int|
            0 <= k < replay_indices_of(enabled, has_op).len() ==> {
                let i = #[trigger] replay_indices_of(enabled, has_op)[k] as int;
                &&& 1 <= i < enabled.len()
                &&& enabled[i]
                &&& has_op[i]
            },
        forall|k: int, l: int|
            0 <= k < l < replay_indices_of(enabled, has_op).len() ==> #[trigger] replay_indices_of(
                enabled,
                has_op,
            )[k] < #[trigger] replay_indices_of(enabled, has_op)[l],
    decreases enabled.len(),
{
    if enabled.len() > 1 {
        let e2 = enabled.drop_last();
        lemma_replay_indices_sound_prefix(e2, has_op);
        let rest = replay_indices_of(e2, has_op);
        let r = replay_indices_of(enabled, has_op);
        let last = enabled.len() - 1;
        assert(enabled.len() > 1);
        assert(r == (if enabled[last] && last < has_op.len() && has_op[last] {
            rest.push(last as usize)
        } else {
            rest
        }));
        if enabled[last] && last < has_op.len() && has_op[last] {
            assert(r == rest.push(last as usize));
        } else {
            assert(r == rest);
        }
        assert forall|k: int| 0 <= k < r.len() implies {
            let i = #[trigger] r[k] as int;
            &&& 1 <= i < enabled.len()
            &&& enabled[i]
            &&& has_op[i]
        } by {
            if k < rest.len() {
                assert(r[k] == rest[k]);
                assert(e2[rest[k] as int] == enabled[rest[k] as int]);
            } else {
                assert(r[k] == last as usize);
            }
        }
        assert forall|k: int, l: int| 0 <= k < l < r.len() implies #[trigger] r[k] < #[trigger] r[l] by {
            if l < rest.len() {
                assert(r[k] == rest[k] && r[l] == rest[l]);
            } else {
                assert(r[k] == rest[k]);
                assert(r[l] == last as usize);
                assert(rest[k] < e2.len());
            }
        }
    }
}

/// Toggling an entry twice restores the history flags.
pub proof fn lemma_toggle_twice(enabled: Seq<bool>, idx: int)
    requires
        0 < idx < enabled.len(),
    ensures
        enabled.update(idx, !enabled[idx]).update(idx, !enabled.update(idx, !enabled[idx])[idx])
            == enabled,
{
    assert(enabled.update(idx, !enabled[idx]).update(idx, !enabled.update(idx, !enabled[idx])[idx])
        =~= enabled);
}


/// The entry a persistent undo disables: the last entry that is enabled and
/// records an operation.
pub open spec fn last_active_edit_of(enabled: Seq<bool>, has_op: Seq<bool>) -> Option<nat>
    decreases enabled.len(),
{
    if enabled.len() == 0 {
        None
    } else {
        let i = enabled.len() - 1;
        if enabled[i] && i < has_op.len() && has_op[i] {
            Some(i as nat)
        } else {
            last_active_edit_of(enabled.drop_last(), has_op)
        }
    }
}

/// The entry a persistent redo enables again: the first entry that is disabled
/// and records an operation.
pub open spec fn first_disabled_edit_of(enabled: Seq<bool>, has_op: Seq<bool>) -> Option<nat>
    decreases enabled.len(),
{
    if enabled.len() == 0 {
        None
    } else {
        let i = enabled.len() - 1;
        match first_disabled_edit_of(enabled.drop_last(), has_op) {
            Some(j) => Some(j),
            None => if !enabled[i] && i < has_op.len() && has_op[i] {
                Some(i as nat)
            } else {
                None
            },
        }
    }
}

/// The index of the entry that a persistent undo disables, if any.
pub fn last_active_edit(enabled: &[bool], has_op: &[bool]) -> (r: Option<usize>)
    requires
        enabled@.len() == has_op@.len(),
    ensures
        match r {
            Some(i) => last_active_edit_of(enabled@, has_op@) == Some(i as nat),
            None => last_active_edit_of(enabled@, has_op@) is None,
        },
{
    let mut found: Option<usize> = None;
    let mut i: usize = 0;
    while i < enabled.len()
        invariant
            i <= enabled@.len(),
            enabled@.len() == has_op@.len(),
            match found {
                Some(k) => last_active_edit_of(enabled@.take(i as int), has_op@) == Some(k as nat),
                None => last_active_edit_of(enabled@.take(i as int), has_op@) is None,
            },
        decreases enabled@.len() - i,
    {
        assert(enabled@.take(i + 1).drop_last() =~= enabled@.take(i as int));
        if enabled[i] && has_op[i] {
            found = Some(i);
        }
        i = i + 1;
    }
    assert(enabled@.take(enabled@.len() as int) =~= enabled@);
    found
}

/// The index of the entry that a persistent redo enables again, if any.
pub fn first_disabled_edit(enabled: &[bool], has_op: &[bool]) -> (r: Option<usize>)
    requires
        enabled@.len() == has_op@.len(),
    ensures
        match r {
            Some(i) => first_disabled_edit_of(enabled@, has_op@) == Some(i as nat),
            None => first_disabled_edit_of(enabled@, has_op@) is None,
        },
{
    let mut found: Option<usize> = None;
    let mut i: usize = 0;
    while i < enabled.len()
        invariant
            i <= enabled@.len(),
            enabled@.len() == has_op@.len(),
            match found {
                Some(k) => first_disabled_edit_of(enabled@.take(i as int), has_op@) == Some(k as nat),
                None => first_disabled_edit_of(enabled@.take(i as int), has_op@) is None,
            },
        decreases enabled@.len() - i,
    {
        assert(enabled@.take(i + 1).drop_last() =~= enabled@.take(i as int));
        if found.is_none() && !enabled[i] && has_op[i] {
            found = Some(i);
        }
        i = i + 1;
    }
    assert(enabled@.take(enabled@.len() as int) =~= enabled@);
    found
}

/// A persistent undo picks an enabled entry that records an operation, with
/// no such entry after it; a redo picks a disabled one with none before it.
pub proof fn lemma_undo_redo_targets(enabled: Seq<bool>, has_op: Seq<bool>)
    requires
        enabled.len() == has_op.len(),
    ensures
        last_active_edit_of(enabled, has_op) matches Some(i) ==> i < enabled.len() && enabled[i as int]
            && has_op[i as int] && forall|j: int| i < j < enabled.len() ==> !(#[trigger] enabled[j]
            && has_op[j]),
        last_active_edit_of(enabled, has_op) is None ==> forall|j: int|
            0 <= j < enabled.len() ==> !(#[trigger] enabled[j] && has_op[j]),
        first_disabled_edit_of(enabled, has_op) matches Some(i) ==> i < enabled.len() && !enabled[i as int]
            && has_op[i as int] && forall|j: int| 0 <= j < i ==> !(!(#[trigger] enabled[j]) && has_op[j]),
        first_disabled_edit_of(enabled, has_op) is None ==> forall|j: int|
            0 <= j < enabled.len() ==> !(!(#[trigger] enabled[j]) && has_op[j]),
    decreases enabled.len(),
{
    lemma_undo_redo_targets_prefix(enabled, has_op);
}

proof fn lemma_undo_redo_targets_prefix(enabled: Seq<bool>, has_op: Seq<bool>)
    requires
        enabled.len() <= has_op.len(),
    ensures
        last_active_edit_of(enabled, has_op) matches Some(i) ==> i < enabled.len() && enabled[i as int]
            && has_op[i as int] && forall|j: int| i < j < enabled.len() ==> !(#[trigger] enabled[j]
            && has_op[j]),
        last_active_edit_of(enabled, has_op) is None ==> forall|j: int|
            0 <= j < enabled.len() ==> !(#[trigger] enabled[j] && has_op[j]),
        first_disabled_edit_of(enabled, has_op) matches Some(i) ==> i < enabled.len() && !enabled[i as int]
            && has_op[i as int] && forall|j: int| 0 <= j < i ==> !(!(#[trigger] enabled[j]) && has_op[j]),
        first_disabled_edit_of(enabled, has_op) is None ==> forall|j: int|
            0 <= j < enabled.len() ==> !(!(#[trigger] enabled[j]) && has_op[j]),
    decreases enabled.len(),
{
    if enabled.len() > 0 {
        let e2 = enabled.drop_last();
        lemma_undo_redo_targets_prefix(e2, has_op);
        assert forall|j: int| 0 <= j < e2.len() implies e2[j] == enabled[j] by {}
    }
}

proof fn lemma_replay_indices_complete_prefix(enabled: Seq<bool>, has_op: Seq<bool>, i: int)
    requires
        enabled.len() <= has_op.len(),
        1 <= i < enabled.len(),
        enabled[i],
        has_op[i],
    ensures
        replay_indices_of(enabled, has_op).contains(i as usize),
    decreases enabled.len(),
{
    let last = enabled.len() - 1;
    let rest = replay_indices_of(enabled.drop_last(), has_op);
    if i == last {
        assert(replay_indices_of(enabled, has_op) == rest.push(i as usize));
        assert(replay_indices_of(enabled, has_op)[rest.len() as int] == i as usize);
    } else {
        lemma_replay_indices_complete_prefix(enabled.drop_last(), has_op, i);
        let k = choose|k: int| 0 <= k < rest.len() && rest[k] == i as usize;
        let r = replay_indices_of(enabled, has_op);
        if enabled[last] && last < has_op.len() && has_op[last] {
            assert(r == rest.push(last as usize));
            assert(r[k] == i as usize);
        } else {
            assert(r == rest);
        }
    }
}

/// Rebuilding replays every enabled entry after the base snapshot that
/// records an operation.
pub proof fn lemma_replay_indices_complete(enabled: Seq<bool>, has_op: Seq<bool>, i: int)
    requires
        enabled.len() == has_op.len(),
        1 <= i < enabled.len(),
        enabled[i],
        has_op[i],
    ensures
        replay_indices_of(enabled, has_op).contains(i as usize),
{
    lemma_replay_indices_complete_prefix(enabled, has_op, i);
}

proof fn lemma_first_match(hashes: Seq<Seq<char>>, p: Seq<char>, i: int)
    requires
        0 <= i < hashes.len(),
        starts_with(hashes[i], p),
    ensures
        exists|m: int|
            0 <= m <= i && starts_with(hashes[m], p) && forall|j: int|
                0 <= j < m ==> !starts_with(#[trigger] hashes[j], p),
    decreases i,
{
    if exists|k: int| 0 <= k < i && starts_with(#[trigger] hashes[k], p) {
        let k = choose|k: int| 0 <= k < i && starts_with(#[trigger] hashes[k], p);
        lemma_first_match(hashes, p, k);
    } else {
        assert(forall|j: int| 0 <= j < i ==> !starts_with(#[trigger] hashes[j], p));
    }
}

/// A snapshot's own hash names it (or an earlier snapshot whose hash starts
/// with it) when revert looks it up, unless the hash is a numeral that is also
/// a valid index, which reads as that index instead.
pub proof fn lemma_commit_ref_finds_hash(hashes: Seq<Seq<char>>, i: int)
    requires
        0 <= i < hashes.len(),
        !(parse_unsigned(hashes[i], usize::MAX as nat) matches Some(n) && n < hashes.len()),
    ensures
        commit_index_of(hashes, hashes[i]) matches Some(j) && j <= i && starts_with(
            hashes[j as int],
            hashes[i],
        ) && forall|k: int| 0 <= k < j ==> !starts_with(#[trigger] hashes[k], hashes[i]),
{
    let p = hashes[i];
    assert(p.take(p.len() as int) =~= p);
    assert(starts_with(hashes[i], p));
    lemma_first_match(hashes, p, i);
    let w = choose|m: int|
        0 <= m < hashes.len() && starts_with(hashes[m], p) && forall|j: int|
            0 <= j < m ==> !starts_with(#[trigger] hashes[j], p);
    assert(w <= i) by {
        if w > i {
            assert(!starts_with(hashes[i], p));
        }
    }
}

/// A decimal index names the entry at that index when revert looks it up.
pub proof fn lemma_commit_ref_by_index(hashes: Seq<Seq<char>>, i: nat)
    requires
        i < hashes.len(),
        i <= usize::MAX,
    ensures
        commit_index_of(hashes, decimal(i)) == Some(i),
{
    lemma_parse_decimal(i, usize::MAX as nat);
}

} // verus!
