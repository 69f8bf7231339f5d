//! Keys that several actions of a list bind: how they are found, what is
//! reported of them, and how the report reads.

use crate::actions::{lemma_bindings_disjoint, Action};
use crate::key::Key;
use crate::text::{join, join_strings, texts};
use vstd::prelude::*;
use vstd::string::*;

verus! {

/// The entries of `actions` that bind `key`, in their order.
pub open spec fn binders(actions: Seq<Action>, key: Key) -> Seq<Action> {
    actions.filter(binds_key(key))
}

/// The test that `binders` filters by.
pub open spec fn binds_key(key: Key) -> spec_fn(Action) -> bool {
    |action: Action| action.binds(key)
}

/// Whether an entry of `actions` before position `i` binds `key`.
pub open spec fn bound_before(actions: Seq<Action>, i: int, key: Key) -> bool {
    exists|j: int| 0 <= j < i && j < actions.len() && #[trigger] actions[j].binds(key)
}

/// Whether two entries of `actions` both bind `key`.
pub open spec fn shares(actions: Seq<Action>, key: Key) -> bool {
    exists|i: int, j: int|
        0 <= i < j < actions.len() && #[trigger] actions[i].binds(key)
            && #[trigger] actions[j].binds(key)
}

/// Whether two entries of `actions` have a key in common.
pub open spec fn has_conflict(actions: Seq<Action>) -> bool {
    exists|key: Key| shares(actions, key)
}

/// The test for a key of entry `i` to be reported there: no earlier entry binds
/// it, and at least two entries do.
pub open spec fn reported_at(actions: Seq<Action>, i: int) -> spec_fn(Key) -> bool {
    |key: Key| !bound_before(actions, i, key) && binders(actions, key).len() >= 2
}

/// A key together with all the entries that bind it.
pub open spec fn conflict_of(actions: Seq<Action>) -> spec_fn(Key) -> (Key, Seq<Action>) {
    |key: Key| (key, binders(actions, key))
}

/// The conflicts reported at entry `i`, in the order of its keys.
pub open spec fn conflicts_at(actions: Seq<Action>, i: int) -> Seq<(Key, Seq<Action>)> {
    actions[i].spec_keys().filter(reported_at(actions, i)).map_values(conflict_of(actions))
}

/// The conflicts reported at the first `n` entries.
pub open spec fn conflicts_upto(actions: Seq<Action>, n: nat) -> Seq<(Key, Seq<Action>)>
    decreases n,
{
    if n == 0 {
        Seq::empty()
    } else {
        conflicts_upto(actions, (n - 1) as nat) + conflicts_at(actions, n - 1)
    }
}

/// Every key that two or more entries of `actions` bind, each with all the
/// entries that bind it. A key stands where the first entry that binds it
/// stands, keys of one entry in the order of the entry's key list.
pub open spec fn spec_conflicts(actions: Seq<Action>) -> Seq<(Key, Seq<Action>)> {
    conflicts_upto(actions, actions.len())
}

/// Counting the entries that bind a key: there is one exactly if some entry binds
/// the key, and there are two exactly if two entries share it.
pub proof fn lemma_binders_len(actions: Seq<Action>, key: Key)
    ensures
        binders(actions, key).len() >= 1 <==> bound_before(actions, actions.len() as int, key),
        binders(actions, key).len() >= 2 <==> shares(actions, key),
    decreases actions.len(),
{
    reveal(Seq::filter);
    if actions.len() > 0 {
        let prefix = actions.drop_last();
        lemma_binders_len(prefix, key);
        assert(actions =~= prefix.push(actions.last()));
        prefix.lemma_filter_push(actions.last(), binds_key(key));
    }
}

/// What stands among the conflicts reported at entry `i`: the keys of that
/// entry that no earlier entry binds and that two entries share, each with all
/// the entries that bind it.
pub proof fn lemma_conflicts_at(actions: Seq<Action>, i: int, conflict: (Key, Seq<Action>))
    requires
        0 <= i < actions.len(),
    ensures
        conflicts_at(actions, i).contains(conflict) <==> {
            &&& actions[i].binds(conflict.0)
            &&& !bound_before(actions, i, conflict.0)
            &&& shares(actions, conflict.0)
            &&& conflict.1 == binders(actions, conflict.0)
        },
{
    let keys = actions[i].spec_keys();
    let kept = keys.filter(reported_at(actions, i));
    let listed = conflicts_at(actions, i);
    lemma_binders_len(actions, conflict.0);
    if listed.contains(conflict) {
        let t = choose|t: int| 0 <= t < listed.len() && listed[t] == conflict;
        keys.lemma_filter_pred(reported_at(actions, i), t);
        keys.lemma_filter_contains_rev(reported_at(actions, i), kept[t]);
    }
    if actions[i].binds(conflict.0) && !bound_before(actions, i, conflict.0) && shares(
        actions,
        conflict.0,
    ) && conflict.1 == binders(actions, conflict.0) {
        let t = choose|t: int| 0 <= t < keys.len() && keys[t] == conflict.0;
        keys.lemma_filter_contains(reported_at(actions, i), t);
        let u = choose|u: int| 0 <= u < kept.len() && kept[u] == conflict.0;
        assert(listed[u] == conflict);
    }
}

/// What stands among the conflicts reported at the first `n` entries.
pub proof fn lemma_conflicts_upto(actions: Seq<Action>, n: nat, conflict: (Key, Seq<Action>))
    requires
        n <= actions.len(),
    ensures
        conflicts_upto(actions, n).contains(conflict) <==> exists|i: int|
            0 <= i < n && #[trigger] conflicts_at(actions, i).contains(conflict),
    decreases n,
{
    if n > 0 {
        let earlier = conflicts_upto(actions, (n - 1) as nat);
        let here = conflicts_at(actions, n - 1);
        lemma_conflicts_upto(actions, (n - 1) as nat, conflict);
        if earlier.contains(conflict) {
            let t = choose|t: int| 0 <= t < earlier.len() && earlier[t] == conflict;
            assert((earlier + here)[t] == conflict);
        }
        if here.contains(conflict) {
            let t = choose|t: int| 0 <= t < here.len() && here[t] == conflict;
            assert((earlier + here)[earlier.len() + t] == conflict);
        }
    }
}

/// The first entry of `actions` that binds `key`.
pub open spec fn first_binder(actions: Seq<Action>, key: Key) -> int {
    choose|i: int|
        0 <= i < actions.len() && #[trigger] actions[i].binds(key) && !bound_before(
            actions,
            i,
            key,
        )
}

/// Where an entry binds a key, there is a first entry that does.
pub proof fn lemma_first_binder(actions: Seq<Action>, key: Key, i: int)
    requires
        0 <= i < actions.len(),
        actions[i].binds(key),
    ensures
        0 <= first_binder(actions, key) <= i,
        actions[first_binder(actions, key)].binds(key),
        !bound_before(actions, first_binder(actions, key), key),
    decreases i,
{
    if bound_before(actions, i, key) {
        let j = choose|j: int| 0 <= j < i && j < actions.len() && actions[j].binds(key);
        lemma_first_binder(actions, key, j);
    }
}

/// The report is exact. A key stands in it, with all the entries that bind it,
/// exactly if two entries share the key; and every item of the report is such a
/// key with those entries.
pub proof fn lemma_report_is_exact(actions: Seq<Action>, key: Key)
    ensures
        spec_conflicts(actions).contains((key, binders(actions, key))) <==> shares(actions, key),
        forall|conflict: (Key, Seq<Action>)| #[trigger]
            spec_conflicts(actions).contains(conflict) ==> shares(actions, conflict.0)
                && conflict.1 == binders(actions, conflict.0),
{
    let conflict = (key, binders(actions, key));
    lemma_conflicts_upto(actions, actions.len(), conflict);
    if spec_conflicts(actions).contains(conflict) {
        let i = choose|i: int|
            0 <= i < actions.len() && #[trigger] conflicts_at(actions, i).contains(conflict);
        lemma_conflicts_at(actions, i, conflict);
    }
    if shares(actions, key) {
        let (i, j) = choose|i: int, j: int|
            0 <= i < j < actions.len() && actions[i].binds(key) && actions[j].binds(key);
        lemma_first_binder(actions, key, i);
        let f = first_binder(actions, key);
        lemma_conflicts_at(actions, f, conflict);
    }
    assert forall|other: (Key, Seq<Action>)| #[trigger]
        spec_conflicts(actions).contains(other) implies shares(actions, other.0) && other.1
        == binders(actions, other.0) by {
        lemma_conflicts_upto(actions, actions.len(), other);
        let i = choose|i: int|
            0 <= i < actions.len() && #[trigger] conflicts_at(actions, i).contains(other);
        lemma_conflicts_at(actions, i, other);
    }
}

/// There is something to report exactly if two entries have a key in common.
pub proof fn lemma_report_empty_iff_no_conflict(actions: Seq<Action>)
    ensures
        spec_conflicts(actions).len() == 0 <==> !has_conflict(actions),
{
    if has_conflict(actions) {
        let key = choose|key: Key| shares(actions, key);
        lemma_report_is_exact(actions, key);
    }
    if spec_conflicts(actions).len() > 0 {
        let conflict = spec_conflicts(actions)[0];
        assert(spec_conflicts(actions).contains(conflict));
        lemma_report_is_exact(actions, conflict.0);
    }
}

/// Whether no two items of a report speak of the same key.
pub open spec fn keys_distinct(conflicts: Seq<(Key, Seq<Action>)>) -> bool {
    forall|a: int, b: int|
        0 <= a < b < conflicts.len() ==> (#[trigger] conflicts[a]).0 != (#[trigger] conflicts[b]).0
}

/// No action lists a key twice.
pub proof fn lemma_keys_listed_once(action: Action)
    ensures
        action.spec_keys().no_duplicates(),
{
}

/// What is kept of a list without repetitions has none.
proof fn lemma_filter_keeps_distinct(keys: Seq<Key>, test: spec_fn(Key) -> bool)
    requires
        keys.no_duplicates(),
    ensures
        keys.filter(test).no_duplicates(),
    decreases keys.len(),
{
    reveal(Seq::filter);
    if keys.len() > 0 {
        let prefix = keys.drop_last();
        lemma_filter_keeps_distinct(prefix, test);
        if test(keys.last()) && prefix.filter(test).contains(keys.last()) {
            prefix.lemma_filter_contains_rev(test, keys.last());
        }
    }
}

/// Among the conflicts reported at the first `n` entries no key stands twice.
proof fn lemma_upto_names_each_key_once(actions: Seq<Action>, n: nat)
    requires
        n <= actions.len(),
    ensures
        keys_distinct(conflicts_upto(actions, n)),
    decreases n,
{
    if n > 0 {
        let earlier = conflicts_upto(actions, (n - 1) as nat);
        let here = conflicts_at(actions, n - 1);
        lemma_upto_names_each_key_once(actions, (n - 1) as nat);
        lemma_keys_listed_once(actions[n - 1]);
        lemma_filter_keeps_distinct(actions[n - 1].spec_keys(), reported_at(actions, n - 1));
        assert forall|a: int, b: int| 0 <= a < b < (earlier + here).len() implies (#[trigger] (earlier
            + here)[a]).0 != (#[trigger] (earlier + here)[b]).0 by {
            if a < earlier.len() <= b {
                let first = earlier[a];
                let second = here[b - earlier.len()];
                lemma_conflicts_upto(actions, (n - 1) as nat, first);
                let i = choose|i: int|
                    0 <= i < n - 1 && #[trigger] conflicts_at(actions, i).contains(first);
                lemma_conflicts_at(actions, i, first);
                lemma_conflicts_at(actions, n - 1, second);
            }
        }
    }
}

/// The report names each key once.
pub proof fn lemma_report_names_each_key_once(actions: Seq<Action>)
    ensures
        keys_distinct(spec_conflicts(actions)),
{
    lemma_upto_names_each_key_once(actions, actions.len());
}

/// Two entries have a key in common exactly if they are the same action: a list
/// of actions is free of conflicts exactly if no action stands in it twice.
pub proof fn lemma_conflict_iff_repeated(actions: Seq<Action>)
    ensures
        has_conflict(actions) <==> !actions.no_duplicates(),
{
    if has_conflict(actions) {
        let key = choose|key: Key| shares(actions, key);
        let (i, j) = choose|i: int, j: int|
            0 <= i < j < actions.len() && actions[i].binds(key) && actions[j].binds(key);
        lemma_bindings_disjoint(actions[i], actions[j], key);
    }
    if !actions.no_duplicates() {
        let (i, j) = choose|i: int, j: int|
            0 <= i < actions.len() && 0 <= j < actions.len() && i != j && actions[i] == actions[j];
        let key = actions[i].spec_keys()[0];
        assert(actions[i].binds(key) && actions[j].binds(key));
        assert(shares(actions, key));
    }
}

/// How one conflict reads in a message.
pub open spec fn conflict_text(conflict: (Key, Seq<Action>)) -> Seq<char> {
    "Conflict key "@ + conflict.0.spec_name() + " with actions "@ + join(
        conflict.1.map_values(|action: Action| action.spec_name()),
        ", "@,
    )
}

/// How a list of conflicts reads in a message.
pub open spec fn spec_message(conflicts: Seq<(Key, Seq<Action>)>) -> Seq<char> {
    join(conflicts.map_values(|conflict: (Key, Seq<Action>)| conflict_text(conflict)), "; "@)
}

/// A key that several entries of a list of actions bind.
#[derive(Debug)]
pub struct KeyConflict {
    pub key: Key,
    /// The entries that bind the key, in the order of the list.
    pub actions: Vec<Action>,
}

impl View for KeyConflict {
    type V = (Key, Seq<Action>);

    open spec fn view(&self) -> (Key, Seq<Action>) {
        (self.key, self.actions@)
    }
}

impl KeyConflict {
    /// The conflict as a sentence.
    pub fn to_string(&self) -> (text: String)
        ensures
            text@ == conflict_text(self@),
    {
        let mut names: Vec<String> = Vec::new();
        let mut i: usize = 0;
        while i < self.actions.len()
            invariant
                i <= self.actions@.len(),
                names@.len() == i,
                forall|j: int| 0 <= j < i ==> names@[j]@ == self.actions@[j].spec_name(),
            decreases self.actions@.len() - i,
        {
            names.push(self.actions[i].to_string());
            i += 1;
        }
        assert(texts(names@) =~= self.actions@.map_values(|action: Action| action.spec_name()));
        let mut text = String::from_str("Conflict key ");
        text.append(self.key.to_string().as_str());
        text.append(" with actions ");
        text.append(join_strings(&names, ", ").as_str());
        text
    }
}

/// Why a list of actions is no catalog: the keys that several of its entries bind.
#[derive(Debug)]
pub struct CatalogError {
    pub conflicts: Vec<KeyConflict>,
}

/// What a list of conflicts holds.
pub open spec fn conflict_views(conflicts: Seq<KeyConflict>) -> Seq<(Key, Seq<Action>)> {
    Seq::new(conflicts.len(), |i: int| conflicts[i]@)
}

impl View for CatalogError {
    type V = Seq<(Key, Seq<Action>)>;

    open spec fn view(&self) -> Seq<(Key, Seq<Action>)> {
        conflict_views(self.conflicts@)
    }
}

impl CatalogError {
    /// The error as a message: one sentence for each conflict.
    pub fn to_string(&self) -> (message: String)
        ensures
            message@ == spec_message(self@),
    {
        let mut sentences: Vec<String> = Vec::new();
        let mut i: usize = 0;
        while i < self.conflicts.len()
            invariant
                i <= self.conflicts@.len(),
                sentences@.len() == i,
                forall|j: int| 0 <= j < i ==> sentences@[j]@ == conflict_text(self.conflicts@[j]@),
            decreases self.conflicts@.len() - i,
        {
            sentences.push(self.conflicts[i].to_string());
            i += 1;
        }
        assert(texts(sentences@) =~= self@.map_values(
            |conflict: (Key, Seq<Action>)| conflict_text(conflict),
        ));
        join_strings(&sentences, "; ")
    }
}

/// Whether an entry of `actions` before position `i` binds `key`.
fn binds_before(actions: &Vec<Action>, i: usize, key: Key) -> (r: bool)
    requires
        i <= actions@.len(),
    ensures
        r == bound_before(actions@, i as int, key),
{
    let mut j: usize = 0;
    while j < i
        invariant
            j <= i <= actions@.len(),
            forall|k: int| 0 <= k < j ==> !actions@[k].binds(key),
        decreases i - j,
    {
        if actions[j].is_bound_to(key) {
            return true;
        }
        j += 1;
    }
    false
}

/// The entries of `actions` that bind `key`.
fn collect_binders(actions: &Vec<Action>, key: Key) -> (found: Vec<Action>)
    ensures
        found@ == binders(actions@, key),
{
    let mut found: Vec<Action> = Vec::new();
    let mut j: usize = 0;
    while j < actions.len()
        invariant
            j <= actions@.len(),
            found@ == actions@.take(j as int).filter(binds_key(key)),
        decreases actions@.len() - j,
    {
        proof {
            let before = actions@.take(j as int);
            assert(actions@.take(j + 1) =~= before.push(actions@[j as int]));
            before.lemma_filter_push(actions@[j as int], binds_key(key));
        }
        if actions[j].is_bound_to(key) {
            found.push(actions[j]);
        }
        j += 1;
    }
    assert(actions@.take(j as int) =~= actions@);
    found
}

/// The conflicts of `actions`, as `spec_conflicts` lists them.
pub fn find_conflicts(actions: &Vec<Action>) -> (conflicts: Vec<KeyConflict>)
    ensures
        conflict_views(conflicts@) == spec_conflicts(actions@),
{
    let mut conflicts: Vec<KeyConflict> = Vec::new();
    let mut i: usize = 0;
    while i < actions.len()
        invariant
            i <= actions@.len(),
            conflict_views(conflicts@) == conflicts_upto(actions@, i as nat),
        decreases actions@.len() - i,
    {
        let keys = actions[i].keys();
        let ghost before = conflict_views(conflicts@);
        let mut t: usize = 0;
        while t < keys.len()
            invariant
                i < actions@.len(),
                keys@ == actions@[i as int].spec_keys(),
                t <= keys@.len(),
                conflict_views(conflicts@) == before + keys@.take(t as int).filter(
                    reported_at(actions@, i as int),
                ).map_values(conflict_of(actions@)),
            decreases keys@.len() - t,
        {
            let key = keys[t];
            let ghost shown = conflict_views(conflicts@);
            proof {
                let seen = keys@.take(t as int);
                assert(keys@.take(t + 1) =~= seen.push(key));
                seen.lemma_filter_push(key, reported_at(actions@, i as int));
                seen.filter(reported_at(actions@, i as int)).lemma_push_map_commute(
                    conflict_of(actions@),
                    key,
                );
            }
            if !binds_before(actions, i, key) {
                let sharing = collect_binders(actions, key);
                if sharing.len() >= 2 {
                    conflicts.push(KeyConflict { key, actions: sharing });
                    assert(conflict_views(conflicts@) =~= shown.push((key, binders(actions@, key))));
                }
            }
            t += 1;
        }
        assert(keys@.take(t as int) =~= keys@);
        i += 1;
    }
    conflicts
}

} // verus!
