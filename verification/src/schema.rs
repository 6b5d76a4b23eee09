//! The part of a bullseye document that the executor reads.

use crate::text::text_opt;
use vstd::prelude::*;
use vstd::utf8::encode_utf8;

verus! {

/// Where a target stands on its way to the desired state.
#[derive(Clone, Copy, Debug, PartialEq, Eq, Structural)]
pub enum Status {
    Identified,
    Converging,
    Achieved,
    SetAside,
}

impl Default for Status {
    /// A target without a status has only been identified.
    fn default() -> (r: Status)
        ensures
            r == Status::Identified,
    {
        Status::Identified
    }
}

/// The status ends all automatic work on a target.
pub open spec fn terminal(s: Status) -> bool {
    s == Status::Achieved || s == Status::SetAside
}

impl Status {
    /// Whether the status ends all automatic work on a target.
    pub fn is_terminal(self) -> (r: bool)
        ensures
            r == terminal(self),
    {
        matches!(self, Status::Achieved | Status::SetAside)
    }
}

/// How a strategy asks to be retried. Carried along; the backoff ladder is fixed.
#[derive(Debug)]
pub struct RetryPolicy {
    pub max_attempts: Option<u32>,
    pub backoff: Option<String>,
}

/// The value of a [`RetryPolicy`].
pub struct RetryView {
    pub max_attempts: Option<u32>,
    pub backoff: Option<Seq<char>>,
}

impl View for RetryPolicy {
    type V = RetryView;

    open spec fn view(&self) -> RetryView {
        RetryView { max_attempts: self.max_attempts, backoff: text_opt(self.backoff) }
    }
}

impl Clone for RetryPolicy {
    fn clone(&self) -> (r: RetryPolicy)
        ensures
            r@ == self@,
    {
        RetryPolicy { max_attempts: self.max_attempts, backoff: clone_text_opt(&self.backoff) }
    }
}

/// A copy of an optional text.
pub(crate) fn clone_text_opt(s: &Option<String>) -> (r: Option<String>)
    ensures
        text_opt(r) == text_opt(*s),
{
    match s {
        Some(t) => Some(t.clone()),
        None => None,
    }
}

/// The command that restores a target's desired state, and when to run it.
#[derive(Debug)]
pub struct Strategy {
    pub command: String,
    pub trigger: String,
    pub timeout: Option<String>,
    pub retry: Option<RetryPolicy>,
}

/// The value of a [`Strategy`].
pub struct StrategyView {
    pub command: Seq<char>,
    pub trigger: Seq<char>,
    pub timeout: Option<Seq<char>>,
    pub retry: Option<RetryView>,
}

impl View for Strategy {
    type V = StrategyView;

    open spec fn view(&self) -> StrategyView {
        StrategyView {
            command: self.command@,
            trigger: self.trigger@,
            timeout: text_opt(self.timeout),
            retry: match self.retry {
                Some(p) => Some(p@),
                None => None,
            },
        }
    }
}

impl Clone for Strategy {
    fn clone(&self) -> (r: Strategy)
        ensures
            r@ == self@,
    {
        let retry = match &self.retry {
            Some(p) => Some(p.clone()),
            None => None,
        };
        Strategy {
            command: self.command.clone(),
            trigger: self.trigger.clone(),
            timeout: clone_text_opt(&self.timeout),
            retry,
        }
    }
}

/// A desired state, with the strategy that restores it if there is one.
#[derive(Debug)]
pub struct Target {
    pub name: String,
    pub status: Status,
    pub strategy: Option<Strategy>,
}

/// The value of a [`Target`].
pub struct TargetView {
    pub name: Seq<char>,
    pub status: Status,
    pub strategy: Option<StrategyView>,
}

impl View for Target {
    type V = TargetView;

    open spec fn view(&self) -> TargetView {
        TargetView {
            name: self.name@,
            status: self.status,
            strategy: match self.strategy {
                Some(s) => Some(s@),
                None => None,
            },
        }
    }
}

impl Clone for Target {
    fn clone(&self) -> (r: Target)
        ensures
            r@ == self@,
    {
        let strategy = match &self.strategy {
            Some(s) => Some(s.clone()),
            None => None,
        };
        Target { name: self.name.clone(), status: self.status, strategy }
    }
}

/// The bytes `a` come strictly before the bytes `b` in lexicographic order: where the two
/// first differ, `a` has the smaller byte or has ended.
pub open spec fn bytes_before(a: Seq<u8>, b: Seq<u8>) -> bool {
    exists|k: int|
        {
            &&& 0 <= k <= a.len()
            &&& k < b.len()
            &&& #[trigger] a.take(k) == b.take(k)
            &&& k < a.len() ==> a[k] < b[k]
        }
}

/// The id `a` comes strictly before the id `b`, in the order of their UTF-8 bytes.
pub open spec fn id_before(a: Seq<char>, b: Seq<char>) -> bool {
    bytes_before(encode_utf8(a), encode_utf8(b))
}

/// How two ids compare.
enum IdOrder {
    Before,
    Same,
    After,
}

/// How the id `a` stands to the id `b`.
fn compare_ids(a: &str, b: &str) -> (r: IdOrder)
    ensures
        match r {
            IdOrder::Before => id_before(a@, b@),
            IdOrder::Same => a@ == b@,
            IdOrder::After => id_before(b@, a@),
        },
{
    let x = a.as_bytes();
    let y = b.as_bytes();
    let mut i: usize = 0;
    while i < x.len() && i < y.len()
        invariant
            x@ == encode_utf8(a@),
            y@ == encode_utf8(b@),
            i <= x.len(),
            i <= y.len(),
            x@.take(i as int) == y@.take(i as int),
        decreases x.len() - i,
    {
        if x[i] < y[i] {
            return IdOrder::Before;
        }
        if y[i] < x[i] {
            return IdOrder::After;
        }
        proof {
            assert(x@.take(i + 1) =~= x@.take(i as int).push(x@[i as int]));
            assert(y@.take(i + 1) =~= y@.take(i as int).push(y@[i as int]));
        }
        i += 1;
    }
    if i < y.len() {
        IdOrder::Before
    } else if i < x.len() {
        IdOrder::After
    } else {
        proof {
            assert(x@.take(i as int) =~= x@);
            assert(y@.take(i as int) =~= y@);
            vstd::utf8::encode_utf8_decode_utf8(a@);
            vstd::utf8::encode_utf8_decode_utf8(b@);
        }
        IdOrder::Same
    }
}

/// No id comes before itself.
pub proof fn lemma_id_before_irreflexive(a: Seq<char>)
    ensures
        !id_before(a, a),
{
}

/// The order of ids is transitive.
pub proof fn lemma_id_before_transitive(a: Seq<char>, b: Seq<char>, c: Seq<char>)
    requires
        id_before(a, b),
        id_before(b, c),
    ensures
        id_before(a, c),
{
    let x = encode_utf8(a);
    let y = encode_utf8(b);
    let z = encode_utf8(c);
    let k = choose|k: int|
        {
            &&& 0 <= k <= x.len()
            &&& k < y.len()
            &&& #[trigger] x.take(k) == y.take(k)
            &&& k < x.len() ==> x[k] < y[k]
        };
    let m = choose|m: int|
        {
            &&& 0 <= m <= y.len()
            &&& m < z.len()
            &&& #[trigger] y.take(m) == z.take(m)
            &&& m < y.len() ==> y[m] < z[m]
        };
    let n = if k <= m {
        k
    } else {
        m
    };
    assert(x.take(n) =~= z.take(n)) by {
        assert(x.take(n) =~= x.take(k).take(n));
        assert(y.take(n) =~= y.take(k).take(n));
        assert(y.take(n) =~= y.take(m).take(n));
        assert(z.take(n) =~= z.take(m).take(n));
    }
    if k < m {
        assert(y.take(m)[k] == z.take(m)[k]);
    } else if m < k {
        assert(x.take(k)[m] == y.take(k)[m]);
    }
}

/// Ids with what they stand for, as a sequence of pairs.
pub type Entries = Seq<(Seq<char>, TargetView)>;

/// The ids ascend strictly, so none occurs twice.
pub open spec fn ids_ascending(s: Entries) -> bool {
    forall|i: int, j: int| 0 <= i < j < s.len() ==> id_before(#[trigger] s[i].0, #[trigger] s[j].0)
}

/// The id occurs among the pairs at position `i`.
pub open spec fn id_at(s: Entries, id: Seq<char>, i: int) -> bool {
    0 <= i < s.len() && s[i].0 == id
}

/// The pairs as a map.
pub open spec fn entries_map(s: Entries) -> Map<Seq<char>, TargetView> {
    Map::new(
        |id: Seq<char>| exists|i: int| id_at(s, id, i),
        |id: Seq<char>| s[choose|i: int| id_at(s, id, i)].1,
    )
}

/// In ascending pairs an id occurs at one position only, and the map holds what stands there.
proof fn lemma_entry_in_map(s: Entries, i: int)
    requires
        ids_ascending(s),
        0 <= i < s.len(),
    ensures
        entries_map(s).contains_key(s[i].0),
        entries_map(s)[s[i].0] == s[i].1,
{
    let id = s[i].0;
    assert(id_at(s, id, i));
    let k = choose|k: int| id_at(s, id, k);
    lemma_id_before_irreflexive(id);
    assert(k == i);
}

/// The targets of a document by id, in ascending order of the ids.
#[derive(Debug)]
pub struct TargetMap {
    entries: Vec<(String, Target)>,
}

/// The value of the pairs that a [`TargetMap`] keeps.
pub open spec fn entries_view(s: Seq<(String, Target)>) -> Entries {
    Seq::new(s.len(), |i: int| (s[i].0@, s[i].1@))
}

impl View for TargetMap {
    type V = Entries;

    closed spec fn view(&self) -> Entries {
        entries_view(self.entries@)
    }
}

impl TargetMap {
    #[verifier::type_invariant]
    spec fn inv(self) -> bool {
        ids_ascending(self@)
    }

    /// No targets.
    pub fn new() -> (r: TargetMap)
        ensures
            r@ == Entries::empty(),
    {
        let r = TargetMap { entries: Vec::new() };
        assert(r@ =~= Entries::empty());
        r
    }

    /// Sets the target for an id and returns the one that it replaces.
    pub fn insert(&mut self, id: String, target: Target) -> (r: Option<Target>)
        ensures
            ids_ascending(final(self)@),
            entries_map(final(self)@) == entries_map(old(self)@).insert(id@, target@),
            r is Some <==> entries_map(old(self)@).contains_key(id@),
            r matches Some(t) ==> t@ == entries_map(old(self)@)[id@],
    {
        proof {
            use_type_invariant(&*self);
        }
        let ghost before = self@;
        let ghost entry = (id@, target@);
        let (i, found) = self.position(id.as_str());
        let mut entries: Vec<(String, Target)> = Vec::new();
        std::mem::swap(&mut entries, &mut self.entries);
        if found {
            let replaced = entries.remove(i);
            entries.insert(i, (id, target));
            proof {
                assert(entries_view(entries@) =~= before.update(i as int, entry));
                lemma_update_entry(before, i as int, entry);
                lemma_entry_in_map(before, i as int);
            }
            self.entries = entries;
            Some(replaced.1)
        } else {
            entries.insert(i, (id, target));
            proof {
                assert(entries_view(entries@) =~= before.insert(i as int, entry));
                lemma_insert_entry(before, i as int, entry);
            }
            self.entries = entries;
            None
        }
    }

    /// The position of an id, or the one where it would stand, and which of the two it is.
    fn position(&self, id: &str) -> (r: (usize, bool))
        ensures
            ids_ascending(self@),
            r.0 <= self@.len(),
            r.1 ==> r.0 < self@.len() && self@[r.0 as int].0 == id@,
            !r.1 ==> {
                &&& forall|k: int| 0 <= k < r.0 ==> id_before(#[trigger] self@[k].0, id@)
                &&& forall|k: int|
                    r.0 <= k < self@.len() ==> id_before(id@, #[trigger] self@[k].0)
            },
    {
        proof {
            use_type_invariant(&*self);
        }
        let mut i: usize = 0;
        while i < self.entries.len()
            invariant
                ids_ascending(self@),
                i <= self.entries.len() == self@.len(),
                forall|k: int| 0 <= k < i ==> id_before(#[trigger] self@[k].0, id@),
            decreases self.entries.len() - i,
        {
            match compare_ids(self.entries[i].0.as_str(), id) {
                IdOrder::Before => {},
                IdOrder::Same => {
                    return (i, true);
                },
                IdOrder::After => {
                    proof {
                        assert forall|k: int| i <= k < self@.len() implies id_before(
                            id@,
                            #[trigger] self@[k].0,
                        ) by {
                            if i < k {
                                lemma_id_before_transitive(
                                    id@,
                                    self@[i as int].0,
                                    self@[k].0,
                                );
                            }
                        }
                    }
                    return (i, false);
                },
            }
            i += 1;
        }
        (i, false)
    }

    /// The target for an id, if there is one.
    pub fn get(&self, id: &str) -> (r: Option<&Target>)
        ensures
            r is Some <==> entries_map(self@).contains_key(id@),
            r matches Some(t) ==> t@ == entries_map(self@)[id@],
    {
        let (i, found) = self.position(id);
        if found {
            proof {
                lemma_entry_in_map(self@, i as int);
            }
            Some(&self.entries[i].1)
        } else {
            proof {
                lemma_id_before_irreflexive(id@);
                assert forall|k: int| !id_at(self@, id@, k) by {}
            }
            None
        }
    }

    /// The ids with their targets, in ascending order of the ids.
    pub fn entries(&self) -> (r: &Vec<(String, Target)>)
        ensures
            entries_view(r@) == self@,
            ids_ascending(self@),
    {
        proof {
            use_type_invariant(&*self);
        }
        &self.entries
    }
}

/// Replacing what stands for an id keeps the order and overwrites the id in the map.
proof fn lemma_update_entry(s: Entries, i: int, entry: (Seq<char>, TargetView))
    requires
        ids_ascending(s),
        0 <= i < s.len(),
        s[i].0 == entry.0,
    ensures
        ids_ascending(s.update(i, entry)),
        entries_map(s.update(i, entry)) == entries_map(s).insert(entry.0, entry.1),
{
    let t = s.update(i, entry);
    assert forall|a: int, b: int| 0 <= a < b < t.len() implies id_before(
        #[trigger] t[a].0,
        #[trigger] t[b].0,
    ) by {
        assert(id_before(s[a].0, s[b].0));
    }
    assert forall|id: Seq<char>|
        entries_map(t).contains_key(id) == #[trigger] entries_map(s).insert(
            entry.0,
            entry.1,
        ).contains_key(id) by {
        assert(id_at(t, entry.0, i));
        if exists|k: int| id_at(s, id, k) {
            let k = choose|k: int| id_at(s, id, k);
            assert(id_at(t, id, k));
        }
        if exists|k: int| id_at(t, id, k) {
            let k = choose|k: int| id_at(t, id, k);
            assert(id_at(s, id, k));
        }
    }
    assert forall|id: Seq<char>| entries_map(t).contains_key(id) implies #[trigger] entries_map(
        t,
    )[id] == entries_map(s).insert(entry.0, entry.1)[id] by {
        let k = choose|k: int| id_at(t, id, k);
        lemma_entry_in_map(t, k);
        lemma_entry_in_map(s, k);
    }
    assert(entries_map(t) =~= entries_map(s).insert(entry.0, entry.1));
}

/// Inserting a new id where it belongs keeps the order and adds the id to the map.
proof fn lemma_insert_entry(s: Entries, i: int, entry: (Seq<char>, TargetView))
    requires
        ids_ascending(s),
        0 <= i <= s.len(),
        forall|k: int| 0 <= k < i ==> id_before(#[trigger] s[k].0, entry.0),
        forall|k: int| i <= k < s.len() ==> id_before(entry.0, #[trigger] s[k].0),
    ensures
        ids_ascending(s.insert(i, entry)),
        !entries_map(s).contains_key(entry.0),
        entries_map(s.insert(i, entry)) == entries_map(s).insert(entry.0, entry.1),
{
    let t = s.insert(i, entry);
    lemma_id_before_irreflexive(entry.0);
    assert forall|a: int, b: int| 0 <= a < b < t.len() implies id_before(
        #[trigger] t[a].0,
        #[trigger] t[b].0,
    ) by {
        let x = if a < i {
            a
        } else {
            a - 1
        };
        let y = if b < i {
            b
        } else {
            b - 1
        };
        if a != i && b != i {
            assert(id_before(s[x].0, s[y].0));
        } else if a == i {
            assert(t[b] == s[y]);
        } else {
            assert(t[a] == s[x]);
        }
    }
    assert forall|id: Seq<char>|
        entries_map(t).contains_key(id) == #[trigger] entries_map(s).insert(
            entry.0,
            entry.1,
        ).contains_key(id) by {
        if exists|k: int| id_at(s, id, k) {
            let k = choose|k: int| id_at(s, id, k);
            assert(id_at(
                t,
                id,
                if k < i {
                    k
                } else {
                    k + 1
                },
            ));
        }
        assert(id_at(t, entry.0, i));
        if exists|k: int| id_at(t, id, k) {
            let k = choose|k: int| id_at(t, id, k);
            if k != i {
                assert(id_at(
                    s,
                    id,
                    if k < i {
                        k
                    } else {
                        k - 1
                    },
                ));
            }
        }
    }
    assert forall|id: Seq<char>| entries_map(t).contains_key(id) implies #[trigger] entries_map(
        t,
    )[id] == entries_map(s).insert(entry.0, entry.1)[id] by {
        let k = choose|k: int| id_at(t, id, k);
        lemma_entry_in_map(t, k);
        if k != i {
            let m = if k < i {
                k
            } else {
                k - 1
            };
            assert(s[m] == t[k]);
            lemma_entry_in_map(s, m);
        }
    }
    assert(entries_map(t) =~= entries_map(s).insert(entry.0, entry.1));
}

/// The part of a bullseye document that the executor reads.
#[derive(Debug)]
pub struct Doc {
    pub schema_version: u32,
    pub targets: TargetMap,
}

/// Work on a target ends when it is achieved or set aside, and at no other status.
pub proof fn law_terminal(s: Status)
    ensures
        terminal(Status::Achieved),
        terminal(Status::SetAside),
        !terminal(Status::Identified),
        !terminal(Status::Converging),
{
}

/// Of two different sequences of bytes one comes before the other.
proof fn lemma_bytes_comparable(a: Seq<u8>, b: Seq<u8>, k: int)
    requires
        0 <= k <= a.len(),
        k <= b.len(),
        a.take(k) == b.take(k),
    ensures
        a == b || bytes_before(a, b) || bytes_before(b, a),
    decreases a.len() - k,
{
    if k == a.len() && k == b.len() {
        assert(a.take(k) =~= a);
        assert(b.take(k) =~= b);
    } else if k == a.len() || k == b.len() || a[k] != b[k] {
        assert(a.take(k) == b.take(k));
        assert(b.take(k) == a.take(k));
    } else {
        assert(a.take(k + 1) =~= a.take(k).push(a[k]));
        assert(b.take(k + 1) =~= b.take(k).push(b[k]));
        lemma_bytes_comparable(a, b, k + 1);
    }
}

/// Ids are strictly and totally ordered.
pub proof fn law_ids_are_ordered(a: Seq<char>, b: Seq<char>, c: Seq<char>)
    ensures
        !id_before(a, a),
        !(id_before(a, b) && id_before(b, a)),
        a == b || id_before(a, b) || id_before(b, a),
        id_before(a, b) && id_before(b, c) ==> id_before(a, c),
{
    let x = encode_utf8(a);
    let y = encode_utf8(b);
    assert(x.take(0) =~= y.take(0));
    lemma_bytes_comparable(x, y, 0);
    vstd::utf8::encode_utf8_decode_utf8(a);
    vstd::utf8::encode_utf8_decode_utf8(b);
    lemma_id_before_irreflexive(a);
    if id_before(a, b) && id_before(b, a) {
        lemma_id_before_transitive(a, b, a);
    }
    if id_before(a, b) && id_before(b, c) {
        lemma_id_before_transitive(a, b, c);
    }
}

/// Bytes are ordered by where they first differ, and a beginning comes before the whole.
pub proof fn law_first_difference_decides(
    head: Seq<u8>,
    x: u8,
    y: u8,
    rest: Seq<u8>,
    other: Seq<u8>,
)
    ensures
        x < y ==> bytes_before(head + seq![x] + rest, head + seq![y] + other),
        bytes_before(head, head + seq![y] + other),
{
    let a = head + seq![x] + rest;
    let b = head + seq![y] + other;
    let k = head.len() as int;
    assert(a.take(k) =~= head);
    assert(b.take(k) =~= head);
    assert(head.take(k) =~= head);
    assert(a.take(k) == b.take(k));
    assert(head.take(k) == b.take(k));
}

/// The map of ascending pairs holds just their ids, and under each what stands beside it.
pub proof fn law_map_of_entries(s: Entries, i: int, id: Seq<char>)
    requires
        forall|a: int, b: int|
            0 <= a < b < s.len() ==> id_before(#[trigger] s[a].0, #[trigger] s[b].0),
    ensures
        0 <= i < s.len() ==> entries_map(s).contains_key(s[i].0),
        0 <= i < s.len() ==> entries_map(s)[s[i].0] == s[i].1,
        entries_map(s).contains_key(id) <==> exists|k: int|
            0 <= k < s.len() && (#[trigger] s[k]).0 == id,
{
    if 0 <= i < s.len() {
        lemma_entry_in_map(s, i);
    }
    if exists|k: int| 0 <= k < s.len() && (#[trigger] s[k]).0 == id {
        let k = choose|k: int| 0 <= k < s.len() && (#[trigger] s[k]).0 == id;
        assert(id_at(s, id, k));
    }
}

/// Pairs ascend just if each id comes before all later ones.
pub proof fn law_ascending(s: Entries, i: int, j: int)
    requires
        0 <= i < j < s.len(),
        ids_ascending(s),
    ensures
        id_before(s[i].0, s[j].0),
        s[i].0 != s[j].0,
{
    lemma_id_before_irreflexive(s[i].0);
}

/// Targets, strategies and pairs are seen as they are, field by field.
pub proof fn law_schema_views(
    target: Target,
    strategy: Strategy,
    retry: RetryPolicy,
    s: Seq<(String, Target)>,
    i: int,
)
    requires
        0 <= i < s.len(),
    ensures
        target@.name == target.name@,
        target@.status == target.status,
        target.strategy matches Some(found) ==> target@.strategy == Some(found@),
        target.strategy is None ==> target@.strategy is None,
        strategy@.command == strategy.command@,
        strategy@.trigger == strategy.trigger@,
        strategy.timeout matches Some(found) ==> strategy@.timeout == Some(found@),
        strategy.timeout is None ==> strategy@.timeout is None,
        strategy.retry matches Some(found) ==> strategy@.retry == Some(found@),
        strategy.retry is None ==> strategy@.retry is None,
        retry@.max_attempts == retry.max_attempts,
        retry.backoff matches Some(found) ==> retry@.backoff == Some(found@),
        retry.backoff is None ==> retry@.backoff is None,
        entries_view(s).len() == s.len(),
        entries_view(s)[i] == (s[i].0@, s[i].1@),
{
}

} // verus!
