//! From configured documents to the targets that carry a strategy.

use crate::outside::utf8_lossy;
use crate::path::FilePath;
use crate::schema::{
    entries_view, id_before, ids_ascending, Doc, Entries, Strategy, StrategyView, Target, TargetView,
};
use vstd::prelude::*;
use vstd::utf8::{decode_utf8, valid_utf8};

verus! {

/// A target that carries a strategy, paired with the file it came from.
#[derive(Debug)]
pub struct StrategyTarget {
    pub yaml_path: FilePath,
    pub target_id: String,
    pub target: Target,
    pub strategy: Strategy,
}

/// The value of a [`StrategyTarget`].
pub struct StrategyTargetView {
    pub yaml_path: Seq<u8>,
    pub target_id: Seq<char>,
    pub target: TargetView,
    pub strategy: StrategyView,
}

impl View for StrategyTarget {
    type V = StrategyTargetView;

    open spec fn view(&self) -> StrategyTargetView {
        StrategyTargetView {
            yaml_path: self.yaml_path@,
            target_id: self.target_id@,
            target: self.target@,
            strategy: self.strategy@,
        }
    }
}

impl Clone for StrategyTarget {
    fn clone(&self) -> (r: StrategyTarget)
        ensures
            r@ == self@,
    {
        StrategyTarget {
            yaml_path: self.yaml_path.clone(),
            target_id: self.target_id.clone(),
            target: self.target.clone(),
            strategy: self.strategy.clone(),
        }
    }
}

/// What a target's state is filed under: its file's path as a text, and its id.
pub type Key = (Seq<char>, Seq<char>);

impl StrategyTargetView {
    /// What this target's state is filed under.
    pub open spec fn key(self) -> Key {
        (utf8_lossy(self.yaml_path), self.target_id)
    }
}

impl StrategyTarget {
    /// What this target's state is filed under: the path as a text, and the id.
    pub fn key(&self) -> (r: (String, &str))
        ensures
            (r.0@, r.1@) == self@.key(),
            valid_utf8(self@.yaml_path) ==> self@.key().0 == decode_utf8(self@.yaml_path),
    {
        (self.yaml_path.display(), self.target_id.as_str())
    }
}

/// The step at which a document could not be loaded.
#[derive(Clone, Copy, Debug, PartialEq, Eq, Structural)]
pub enum LoadStage {
    Canonicalise,
    Read,
    Parse,
}

/// Why a document could not be loaded.
#[derive(Debug)]
pub struct LoadError {
    pub stage: LoadStage,
    pub path: String,
    pub cause: String,
}

/// The value of a [`LoadError`].
pub struct LoadErrorView {
    pub stage: LoadStage,
    pub path: Seq<char>,
    pub cause: Seq<char>,
}

impl View for LoadError {
    type V = LoadErrorView;

    open spec fn view(&self) -> LoadErrorView {
        LoadErrorView { stage: self.stage, path: self.path@, cause: self.cause@ }
    }
}

impl Clone for LoadError {
    fn clone(&self) -> (r: LoadError)
        ensures
            r@ == self@,
    {
        LoadError { stage: self.stage, path: self.path.clone(), cause: self.cause.clone() }
    }
}

/// The first failure in a sequence of results.
pub open spec fn first_failure<T, E>(s: Seq<Result<T, E>>) -> Option<E>
    decreases s.len(),
{
    if s.len() == 0 {
        None
    } else {
        match first_failure(s.drop_last()) {
            Some(e) => Some(e),
            None => match s.last() {
                Ok(_) => None,
                Err(e) => Some(e),
            },
        }
    }
}

/// The values of results none of which is a failure.
pub open spec fn successes<T, E>(s: Seq<Result<T, E>>) -> Seq<T> {
    Seq::new(s.len(), |i: int| s[i]->Ok_0)
}

/// The elements in the order of their first occurrence.
pub open spec fn distinct<T>(s: Seq<T>) -> Seq<T>
    decreases s.len(),
{
    if s.len() == 0 {
        s
    } else {
        let head = distinct(s.drop_last());
        if head.contains(s.last()) {
            head
        } else {
            head.push(s.last())
        }
    }
}

/// The views of paths.
pub open spec fn paths_view(s: Seq<FilePath>) -> Seq<Seq<u8>> {
    Seq::new(s.len(), |i: int| s[i]@)
}

/// The view of an attempt to resolve a path.
pub open spec fn resolved_view(r: Result<FilePath, LoadError>) -> Result<Seq<u8>, LoadErrorView> {
    match r {
        Ok(p) => Ok(p@),
        Err(e) => Err(e@),
    }
}

/// The views of attempts to resolve paths.
pub open spec fn resolved_views(s: Seq<Result<FilePath, LoadError>>) -> Seq<
    Result<Seq<u8>, LoadErrorView>,
> {
    Seq::new(s.len(), |i: int| resolved_view(s[i]))
}

/// The view of a list of distinct paths, or of the failure to make one.
pub open spec fn paths_result(r: Result<Vec<FilePath>, LoadError>) -> Result<
    Seq<Seq<u8>>,
    LoadErrorView,
> {
    match r {
        Ok(v) => Ok(paths_view(v@)),
        Err(e) => Err(e@),
    }
}

/// The distinct documents among the configured ones, or the first failure to resolve one.
pub open spec fn distinct_resolved(s: Seq<Result<Seq<u8>, LoadErrorView>>) -> Result<
    Seq<Seq<u8>>,
    LoadErrorView,
> {
    match first_failure(s) {
        Some(e) => Err(e),
        None => Ok(distinct(successes(s))),
    }
}

/// Collapses configured paths, each already resolved to its canonical form or to the reason
/// why it has none, into one entry per file, in the order of first mention.
pub fn distinct_paths(resolved: &Vec<Result<FilePath, LoadError>>) -> (r: Result<
    Vec<FilePath>,
    LoadError,
>)
    ensures
        paths_result(r) == distinct_resolved(resolved_views(resolved@)),
{
    let ghost all = resolved_views(resolved@);
    let mut out: Vec<FilePath> = Vec::new();
    assert(paths_view(out@) =~= distinct(successes(all.take(0))));
    let mut i: usize = 0;
    while i < resolved.len()
        invariant
            all == resolved_views(resolved@),
            i <= resolved.len(),
            first_failure(all.take(i as int)) is None,
            paths_view(out@) == distinct(successes(all.take(i as int))),
        decreases resolved.len() - i,
    {
        proof {
            assert(all.take(i + 1).drop_last() =~= all.take(i as int));
            assert(successes(all.take(i + 1)).drop_last() =~= successes(all.take(i as int)));
        }
        match &resolved[i] {
            Err(e) => {
                proof {
                    lemma_failure_is_first(all, i as int);
                }
                return Err(e.clone());
            },
            Ok(p) => {
                if !contains_path(&out, p) {
                    let ghost seen = out@;
                    out.push(p.clone());
                    assert(paths_view(out@) =~= paths_view(seen).push(p@));
                }
            },
        }
        i += 1;
    }
    assert(all.take(resolved.len() as int) =~= all);
    Ok(out)
}

/// The first failure of a sequence is that of any prefix that has one.
proof fn lemma_failure_is_first<T, E>(s: Seq<Result<T, E>>, i: int)
    requires
        0 <= i < s.len(),
        first_failure(s.take(i + 1)) is Some,
    ensures
        first_failure(s) == first_failure(s.take(i + 1)),
    decreases s.len(),
{
    if i + 1 == s.len() {
        assert(s.take(i + 1) =~= s);
    } else {
        assert(s.drop_last().take(i + 1) =~= s.take(i + 1));
        lemma_failure_is_first(s.drop_last(), i);
    }
}

/// Whether a path is in a list.
fn contains_path(paths: &Vec<FilePath>, path: &FilePath) -> (r: bool)
    ensures
        r == paths_view(paths@).contains(path@),
{
    let mut i: usize = 0;
    while i < paths.len()
        invariant
            i <= paths.len(),
            forall|k: int| 0 <= k < i ==> paths@[k]@ != path@,
        decreases paths.len() - i,
    {
        if paths[i].same_as(path) {
            assert(paths_view(paths@)[i as int] == path@);
            return true;
        }
        i += 1;
    }
    false
}

/// The targets of one document that carry a strategy, in the document's order.
pub open spec fn strategy_targets(path: Seq<u8>, entries: Entries) -> Seq<StrategyTargetView>
    decreases entries.len(),
{
    if entries.len() == 0 {
        Seq::empty()
    } else {
        let head = strategy_targets(path, entries.drop_last());
        let (id, target) = entries.last();
        match target.strategy {
            Some(strategy) => head.push(
                StrategyTargetView { yaml_path: path, target_id: id, target, strategy },
            ),
            None => head,
        }
    }
}

/// The targets of all documents that carry a strategy, document by document.
pub open spec fn all_strategy_targets(docs: Seq<(Seq<u8>, Entries)>) -> Seq<StrategyTargetView>
    decreases docs.len(),
{
    if docs.len() == 0 {
        Seq::empty()
    } else {
        all_strategy_targets(docs.drop_last()) + strategy_targets(docs.last().0, docs.last().1)
    }
}

/// The view of an attempt to load a document.
pub open spec fn loaded_view(r: Result<(FilePath, Doc), LoadError>) -> Result<
    (Seq<u8>, Entries),
    LoadErrorView,
> {
    match r {
        Ok((path, doc)) => Ok((path@, doc.targets@)),
        Err(e) => Err(e@),
    }
}

/// The views of attempts to load documents.
pub open spec fn loaded_views(s: Seq<Result<(FilePath, Doc), LoadError>>) -> Seq<
    Result<(Seq<u8>, Entries), LoadErrorView>,
> {
    Seq::new(s.len(), |i: int| loaded_view(s[i]))
}

/// The views of targets.
pub open spec fn targets_view(s: Seq<StrategyTarget>) -> Seq<StrategyTargetView> {
    Seq::new(s.len(), |i: int| s[i]@)
}

/// The view of a list of targets, or of the failure to make one.
pub open spec fn targets_result(r: Result<Vec<StrategyTarget>, LoadError>) -> Result<
    Seq<StrategyTargetView>,
    LoadErrorView,
> {
    match r {
        Ok(v) => Ok(targets_view(v@)),
        Err(e) => Err(e@),
    }
}

/// The strategy-bearing targets of the documents, or the first failure to load one.
pub open spec fn loaded_targets(s: Seq<Result<(Seq<u8>, Entries), LoadErrorView>>) -> Result<
    Seq<StrategyTargetView>,
    LoadErrorView,
> {
    match first_failure(s) {
        Some(e) => Err(e),
        None => Ok(all_strategy_targets(successes(s))),
    }
}

/// The strategy-bearing targets of documents, each already read and parsed or paired with the
/// reason why it could not be. Targets come document by document, in the order of their ids.
pub fn load_strategy_targets(loaded: &Vec<Result<(FilePath, Doc), LoadError>>) -> (r: Result<
    Vec<StrategyTarget>,
    LoadError,
>)
    ensures
        targets_result(r) == loaded_targets(loaded_views(loaded@)),
{
    let ghost all = loaded_views(loaded@);
    let mut out: Vec<StrategyTarget> = Vec::new();
    assert(targets_view(out@) =~= all_strategy_targets(successes(all.take(0))));
    let mut i: usize = 0;
    while i < loaded.len()
        invariant
            all == loaded_views(loaded@),
            i <= loaded.len(),
            first_failure(all.take(i as int)) is None,
            targets_view(out@) == all_strategy_targets(successes(all.take(i as int))),
        decreases loaded.len() - i,
    {
        proof {
            assert(all.take(i + 1).drop_last() =~= all.take(i as int));
            assert(successes(all.take(i + 1)).drop_last() =~= successes(all.take(i as int)));
        }
        match &loaded[i] {
            Err(e) => {
                proof {
                    lemma_failure_is_first(all, i as int);
                }
                return Err(e.clone());
            },
            Ok((path, doc)) => {
                push_strategy_targets(path, doc, &mut out);
            },
        }
        i += 1;
    }
    assert(all.take(loaded.len() as int) =~= all);
    Ok(out)
}

/// Appends the strategy-bearing targets of one document.
fn push_strategy_targets(path: &FilePath, doc: &Doc, out: &mut Vec<StrategyTarget>)
    ensures
        targets_view(final(out)@) == targets_view(old(out)@) + strategy_targets(
            path@,
            doc.targets@,
        ),
{
    let entries = doc.targets.entries();
    let ghost all = doc.targets@;
    let ghost start = targets_view(out@);
    assert(start =~= start + strategy_targets(path@, all.take(0)));
    let mut i: usize = 0;
    while i < entries.len()
        invariant
            all == entries_view(entries@),
            i <= entries.len(),
            targets_view(out@) == start + strategy_targets(path@, all.take(i as int)),
        decreases entries.len() - i,
    {
        proof {
            assert(all.take(i + 1).drop_last() =~= all.take(i as int));
        }
        let entry = &entries[i];
        if let Some(strategy) = &entry.1.strategy {
            let ghost seen = out@;
            let found = StrategyTarget {
                yaml_path: path.clone(),
                target_id: entry.0.clone(),
                target: entry.1.clone(),
                strategy: strategy.clone(),
            };
            out.push(found);
            assert(targets_view(out@) =~= targets_view(seen).push(found@));
            assert(targets_view(out@) =~= start + strategy_targets(path@, all.take(i + 1)));
        }
        i += 1;
    }
    assert(all.take(entries.len() as int) =~= all);
}

/// Collapsing keeps each element once and loses none.
pub proof fn law_distinct_keeps_each_once<T>(s: Seq<T>)
    ensures
        distinct(s).no_duplicates(),
        forall|x: T| distinct(s).contains(x) <==> s.contains(x),
    decreases s.len(),
{
    if s.len() > 0 {
        let head = s.drop_last();
        law_distinct_keeps_each_once(head);
        let kept = distinct(head);
        assert forall|x: T| distinct(s).contains(x) <==> s.contains(x) by {
            if s.contains(x) {
                let i = choose|i: int| 0 <= i < s.len() && s[i] == x;
                if i < head.len() {
                    assert(head[i] == x);
                    assert(head.contains(x));
                    assert(distinct(head).contains(x));
                    let k = choose|k: int| 0 <= k < kept.len() && kept[k] == x;
                    assert(distinct(s)[k] == x);
                } else if !kept.contains(x) {
                    assert(distinct(s)[kept.len() as int] == x);
                }
            }
            if distinct(s).contains(x) {
                let k = choose|k: int| 0 <= k < distinct(s).len() && distinct(s)[k] == x;
                if k < kept.len() {
                    assert(kept[k] == x);
                    assert(distinct(head).contains(x));
                    assert(head.contains(x));
                    let i = choose|i: int| 0 <= i < head.len() && head[i] == x;
                    assert(s[i] == x);
                } else {
                    assert(s[s.len() - 1] == x);
                }
            }
        }
    }
}

/// A repeated mention changes nothing.
pub proof fn law_repeated_mention_collapses<T>(s: Seq<T>, x: T)
    requires
        s.contains(x),
    ensures
        distinct(s.push(x)) == distinct(s),
{
    law_distinct_keeps_each_once(s);
    assert(s.push(x).drop_last() =~= s);
}

/// Elements come in the order of their first mention: what is mentioned later never comes
/// before what is mentioned earlier.
pub proof fn law_distinct_keeps_order<T>(s: Seq<T>, k: int)
    requires
        0 <= k <= s.len(),
    ensures
        distinct(s.take(k)).is_prefix_of(distinct(s)),
    decreases s.len(),
{
    if k == s.len() {
        assert(s.take(k) =~= s);
        assert(distinct(s) =~= distinct(s).subrange(0, distinct(s).len() as int));
    } else {
        let head = s.drop_last();
        law_distinct_keeps_order(head, k);
        assert(head.take(k) =~= s.take(k));
        let n = distinct(s.take(k)).len() as int;
        assert(distinct(s).subrange(0, n) =~= distinct(head).subrange(0, n));
    }
}

/// The target that an entry of a document stands for.
pub open spec fn entry_target(path: Seq<u8>, entry: (Seq<char>, TargetView)) -> StrategyTargetView {
    StrategyTargetView {
        yaml_path: path,
        target_id: entry.0,
        target: entry.1,
        strategy: entry.1.strategy->0,
    }
}

/// Entry `i` carries a strategy, and `t` is the target that it stands for.
pub open spec fn lists(path: Seq<u8>, entries: Entries, i: int, t: StrategyTargetView) -> bool {
    0 <= i < entries.len() && entries[i].1.strategy is Some && t == entry_target(path, entries[i])
}

/// The targets of a document are those of its entries that carry a strategy.
pub proof fn law_document_targets(path: Seq<u8>, entries: Entries, t: StrategyTargetView)
    ensures
        strategy_targets(path, entries).contains(t) <==> exists|i: int| lists(path, entries, i, t),
    decreases entries.len(),
{
    let found = strategy_targets(path, entries);
    if entries.len() > 0 {
        let head = entries.drop_last();
        let before = strategy_targets(path, head);
        law_document_targets(path, head, t);
        if found.contains(t) {
            let k = choose|k: int| 0 <= k < found.len() && found[k] == t;
            if k < before.len() {
                assert(before[k] == t);
                let i = choose|i: int| lists(path, head, i, t);
                assert(lists(path, entries, i, t));
            } else {
                assert(lists(path, entries, entries.len() - 1, t));
            }
        }
        if exists|i: int| lists(path, entries, i, t) {
            let i = choose|i: int| lists(path, entries, i, t);
            if i < head.len() {
                assert(lists(path, head, i, t));
                let k = choose|k: int| 0 <= k < before.len() && before[k] == t;
                assert(found[k] == t);
            } else {
                assert(found[before.len() as int] == t);
            }
        }
    }
}

/// The loaded targets are those of all documents, no more and no fewer.
pub proof fn law_loaded_targets(docs: Seq<(Seq<u8>, Entries)>, t: StrategyTargetView)
    ensures
        all_strategy_targets(docs).contains(t) <==> exists|d: int|
            0 <= d < docs.len() && (#[trigger] strategy_targets(
                docs[d].0,
                docs[d].1,
            )).contains(t),
    decreases docs.len(),
{
    let found = all_strategy_targets(docs);
    if docs.len() > 0 {
        let head = docs.drop_last();
        let before = all_strategy_targets(head);
        let last = strategy_targets(docs.last().0, docs.last().1);
        law_loaded_targets(head, t);
        if found.contains(t) {
            let k = choose|k: int| 0 <= k < found.len() && found[k] == t;
            if k < before.len() {
                assert(before[k] == t);
                let d = choose|d: int|
                    0 <= d < head.len() && (#[trigger] strategy_targets(
                        head[d].0,
                        head[d].1,
                    )).contains(t);
                assert(strategy_targets(docs[d].0, docs[d].1).contains(t));
            } else {
                assert(last[k - before.len()] == t);
                assert(strategy_targets(
                    docs[docs.len() - 1].0,
                    docs[docs.len() - 1].1,
                ).contains(t));
            }
        }
        if exists|d: int|
            0 <= d < docs.len() && (#[trigger] strategy_targets(docs[d].0, docs[d].1)).contains(t) {
            let d = choose|d: int|
                0 <= d < docs.len() && (#[trigger] strategy_targets(
                    docs[d].0,
                    docs[d].1,
                )).contains(t);
            if d < head.len() {
                assert(strategy_targets(head[d].0, head[d].1).contains(t));
                let k = choose|k: int| 0 <= k < before.len() && before[k] == t;
                assert(found[k] == t);
            } else {
                let k = choose|k: int| 0 <= k < last.len() && last[k] == t;
                assert(found[before.len() + k] == t);
            }
        }
    }
}

/// The targets of one document come in ascending order of their ids.
pub proof fn law_document_targets_ascend(path: Seq<u8>, entries: Entries)
    requires
        ids_ascending(entries),
    ensures
        forall|i: int, j: int|
            0 <= i < j < strategy_targets(path, entries).len() ==> id_before(
                (#[trigger] strategy_targets(path, entries)[i]).target_id,
                (#[trigger] strategy_targets(path, entries)[j]).target_id,
            ),
    decreases entries.len(),
{
    if entries.len() > 0 {
        let head = entries.drop_last();
        let before = strategy_targets(path, head);
        let found = strategy_targets(path, entries);
        assert(ids_ascending(head)) by {
            assert forall|a: int, b: int| 0 <= a < b < head.len() implies id_before(
                #[trigger] head[a].0,
                #[trigger] head[b].0,
            ) by {
                assert(id_before(entries[a].0, entries[b].0));
            }
        }
        law_document_targets_ascend(path, head);
        assert forall|i: int, j: int| 0 <= i < j < found.len() implies id_before(
            (#[trigger] found[i]).target_id,
            (#[trigger] found[j]).target_id,
        ) by {
            if j < before.len() {
                assert(id_before(before[i].target_id, before[j].target_id));
            } else {
                law_document_targets(path, head, before[i]);
                assert(before.contains(before[i]));
                let e = choose|e: int| lists(path, head, e, before[i]);
                assert(id_before(entries[e].0, entries[entries.len() - 1].0));
            }
        }
    }
}

/// Loaded from documents with distinct paths, no two targets share both path and id.
pub proof fn law_targets_listed_once(docs: Seq<(Seq<u8>, Entries)>, i: int, j: int)
    requires
        forall|a: int, b: int|
            0 <= a < b < docs.len() ==> (#[trigger] docs[a]).0 != (#[trigger] docs[b]).0,
        forall|a: int| 0 <= a < docs.len() ==> ids_ascending((#[trigger] docs[a]).1),
        0 <= i < j < all_strategy_targets(docs).len(),
    ensures
        ({
            let x = all_strategy_targets(docs)[i];
            let y = all_strategy_targets(docs)[j];
            x.yaml_path != y.yaml_path || x.target_id != y.target_id
        }),
    decreases docs.len(),
{
    let head = docs.drop_last();
    let before = all_strategy_targets(head);
    let found = all_strategy_targets(docs);
    let (path, entries) = docs.last();
    let last = strategy_targets(path, entries);
    assert(ids_ascending(docs[docs.len() - 1].1));
    if j < before.len() {
        law_targets_listed_once(head, i, j);
    } else {
        let y = last[j - before.len()];
        law_document_targets(path, entries, y);
        assert(last.contains(y));
        if i < before.len() {
            let x = before[i];
            law_loaded_targets(head, x);
            assert(before.contains(x));
            let d = choose|d: int|
                0 <= d < head.len() && (#[trigger] strategy_targets(
                    head[d].0,
                    head[d].1,
                )).contains(x);
            law_document_targets(head[d].0, head[d].1, x);
            assert(docs[d].0 != docs[docs.len() - 1].0);
        } else {
            law_document_targets_ascend(path, entries);
            let x = last[i - before.len()];
            assert(id_before(x.target_id, y.target_id));
            crate::schema::lemma_id_before_irreflexive(x.target_id);
        }
    }
}

/// Targets of different files are filed under different keys, even with the same id, and so
/// are different ids of one file. The paths are valid UTF-8, and so are spelled out in the key
/// as they stand.
pub proof fn law_keys_tell_targets_apart(a: StrategyTargetView, b: StrategyTargetView)
    requires
        valid_utf8(a.yaml_path),
        valid_utf8(b.yaml_path),
        a.key().0 == decode_utf8(a.yaml_path),
        b.key().0 == decode_utf8(b.yaml_path),
        a.yaml_path != b.yaml_path || a.target_id != b.target_id,
    ensures
        a.key() != b.key(),
{
    vstd::utf8::decode_utf8_encode_utf8(a.yaml_path);
    vstd::utf8::decode_utf8_encode_utf8(b.yaml_path);
}

/// A failure is the first one just if all results before it are good, and there is none just if
/// all results are good.
pub proof fn law_first_failure<T, E>(s: Seq<Result<T, E>>, i: int)
    ensures
        0 <= i < s.len() && s[i] is Err && (forall|j: int| 0 <= j < i ==> #[trigger] s[j] is Ok)
            ==> first_failure(s) == Some(s[i]->Err_0),
        (forall|j: int| 0 <= j < s.len() ==> #[trigger] s[j] is Ok) <==> first_failure(s) is None,
    decreases s.len(),
{
    if s.len() > 0 {
        let head = s.drop_last();
        law_first_failure(head, i);
        assert(forall|j: int| 0 <= j < head.len() ==> #[trigger] head[j] == s[j]);
        if 0 <= i < s.len() && s[i] is Err && (forall|j: int|
            0 <= j < i ==> #[trigger] s[j] is Ok) {
            if i == s.len() - 1 {
                assert(forall|j: int| 0 <= j < head.len() ==> #[trigger] head[j] is Ok);
            } else {
                assert(head[i] == s[i]);
            }
        }
        if first_failure(s) is None {
            assert forall|j: int| 0 <= j < s.len() implies #[trigger] s[j] is Ok by {
                if j < head.len() {
                    assert(head[j] is Ok);
                }
            }
        }
        if forall|j: int| 0 <= j < s.len() ==> #[trigger] s[j] is Ok {
            assert(s[s.len() - 1] is Ok);
            assert(forall|j: int| 0 <= j < head.len() ==> #[trigger] head[j] is Ok);
        }
    }
}

/// Resolving and loading fail with the failure before which there is none, and succeed where
/// there is none, with all that was resolved or loaded.
pub proof fn law_loading_results(
    resolved: Seq<Result<Seq<u8>, LoadErrorView>>,
    loaded: Seq<Result<(Seq<u8>, Entries), LoadErrorView>>,
    i: int,
)
    ensures
        0 <= i < resolved.len() && resolved[i] is Err && (forall|j: int|
            0 <= j < i ==> #[trigger] resolved[j] is Ok) ==> distinct_resolved(resolved) == Err::<
            Seq<Seq<u8>>,
            LoadErrorView,
        >(resolved[i]->Err_0),
        (forall|j: int| 0 <= j < resolved.len() ==> #[trigger] resolved[j] is Ok)
            ==> distinct_resolved(resolved) == Ok::<Seq<Seq<u8>>, LoadErrorView>(
            distinct(Seq::new(resolved.len(), |j: int| resolved[j]->Ok_0)),
        ),
        0 <= i < loaded.len() && loaded[i] is Err && (forall|j: int|
            0 <= j < i ==> #[trigger] loaded[j] is Ok) ==> loaded_targets(loaded) == Err::<
            Seq<StrategyTargetView>,
            LoadErrorView,
        >(loaded[i]->Err_0),
        (forall|j: int| 0 <= j < loaded.len() ==> #[trigger] loaded[j] is Ok) ==> loaded_targets(
            loaded,
        ) == Ok::<Seq<StrategyTargetView>, LoadErrorView>(
            all_strategy_targets(Seq::new(loaded.len(), |j: int| loaded[j]->Ok_0)),
        ),
{
    law_first_failure(resolved, i);
    law_first_failure(loaded, i);
    assert(successes(resolved) =~= Seq::new(resolved.len(), |j: int| resolved[j]->Ok_0));
    assert(successes(loaded) =~= Seq::new(loaded.len(), |j: int| loaded[j]->Ok_0));
}

/// The targets of a document are found entry by entry: one with a strategy is found, with its
/// file, its id, all of it and its strategy; one without is passed over.
pub proof fn law_entries_in_order(
    path: Seq<u8>,
    a: Entries,
    b: Entries,
    id: Seq<char>,
    target: TargetView,
)
    ensures
        strategy_targets(path, a + b) == strategy_targets(path, a) + strategy_targets(path, b),
        target.strategy is None ==> strategy_targets(path, seq![(id, target)]) == Seq::<
            StrategyTargetView,
        >::empty(),
        target.strategy matches Some(strategy) ==> strategy_targets(path, seq![(id, target)])
            == seq![StrategyTargetView { yaml_path: path, target_id: id, target, strategy }],
    decreases b.len(),
{
    let one: Entries = seq![(id, target)];
    assert(one.drop_last() =~= Seq::empty());
    assert(strategy_targets(path, one.drop_last()) =~= Seq::empty());
    if let Some(strategy) = target.strategy {
        assert(strategy_targets(path, one) =~= seq![
            StrategyTargetView { yaml_path: path, target_id: id, target, strategy },
        ]);
    }
    if b.len() == 0 {
        assert(a + b =~= a);
        assert(strategy_targets(path, a) + strategy_targets(path, b) =~= strategy_targets(path, a));
    } else {
        law_entries_in_order(path, a, b.drop_last(), id, target);
        assert((a + b).drop_last() =~= a + b.drop_last());
        assert((a + b).last() == b.last());
        assert(strategy_targets(path, a + b) =~= strategy_targets(path, a) + strategy_targets(
            path,
            b,
        ));
    }
}

/// The targets of documents come document by document.
pub proof fn law_documents_in_order(
    a: Seq<(Seq<u8>, Entries)>,
    b: Seq<(Seq<u8>, Entries)>,
    path: Seq<u8>,
    entries: Entries,
)
    ensures
        all_strategy_targets(a + b) == all_strategy_targets(a) + all_strategy_targets(b),
        all_strategy_targets(seq![(path, entries)]) == strategy_targets(path, entries),
    decreases b.len(),
{
    let one = seq![(path, entries)];
    assert(one.drop_last() =~= Seq::empty());
    assert(all_strategy_targets(one.drop_last()) =~= Seq::empty());
    assert(all_strategy_targets(one) =~= strategy_targets(path, entries));
    if b.len() == 0 {
        assert(a + b =~= a);
        assert(all_strategy_targets(a) + all_strategy_targets(b) =~= all_strategy_targets(a));
    } else {
        law_documents_in_order(a, b.drop_last(), path, entries);
        assert((a + b).drop_last() =~= a + b.drop_last());
        assert((a + b).last() == b.last());
        assert(all_strategy_targets(a + b) =~= all_strategy_targets(a) + all_strategy_targets(b));
    }
}

/// A state is filed under the path as a text and under the id.
pub proof fn law_key(t: StrategyTargetView)
    ensures
        t.key().0 == utf8_lossy(t.yaml_path),
        t.key().1 == t.target_id,
{
}

/// Targets, failures and lists are seen as they are, field by field.
pub proof fn law_loader_views(
    t: StrategyTarget,
    error: LoadError,
    path: FilePath,
    doc: Doc,
    paths: Vec<FilePath>,
    targets: Vec<StrategyTarget>,
    resolved: Seq<Result<FilePath, LoadError>>,
    loaded: Seq<Result<(FilePath, Doc), LoadError>>,
    i: int,
)
    ensures
        t@.yaml_path == t.yaml_path@,
        t@.target_id == t.target_id@,
        t@.target == t.target@,
        t@.strategy == t.strategy@,
        error@.stage == error.stage,
        error@.path == error.path@,
        error@.cause == error.cause@,
        resolved_view(Ok(path)) == Ok::<Seq<u8>, LoadErrorView>(path@),
        resolved_view(Err(error)) == Err::<Seq<u8>, LoadErrorView>(error@),
        loaded_view(Ok((path, doc))) == Ok::<(Seq<u8>, Entries), LoadErrorView>(
            (path@, doc.targets@),
        ),
        loaded_view(Err(error)) == Err::<(Seq<u8>, Entries), LoadErrorView>(error@),
        resolved_views(resolved).len() == resolved.len(),
        0 <= i < resolved.len() ==> resolved_views(resolved)[i] == resolved_view(resolved[i]),
        loaded_views(loaded).len() == loaded.len(),
        0 <= i < loaded.len() ==> loaded_views(loaded)[i] == loaded_view(loaded[i]),
        paths_view(paths@).len() == paths@.len(),
        0 <= i < paths@.len() ==> paths_view(paths@)[i] == paths@[i]@,
        targets_view(targets@).len() == targets@.len(),
        0 <= i < targets@.len() ==> targets_view(targets@)[i] == targets@[i]@,
        paths_result(Ok(paths)) == Ok::<Seq<Seq<u8>>, LoadErrorView>(paths_view(paths@)),
        paths_result(Err(error)) == Err::<Seq<Seq<u8>>, LoadErrorView>(error@),
        targets_result(Ok(targets)) == Ok::<Seq<StrategyTargetView>, LoadErrorView>(
            targets_view(targets@),
        ),
        targets_result(Err(error)) == Err::<Seq<StrategyTargetView>, LoadErrorView>(error@),
{
}

} // verus!
