//! A map from text to text that is walked in the order of its keys.

use vstd::prelude::*;
use crate::text::chars_of;

verus! {

/// Text order: by the first character in which two texts differ, and a text
/// before its extensions.
pub open spec fn before(a: Seq<char>, b: Seq<char>) -> bool
    decreases b.len(),
{
    if b.len() == 0 {
        false
    } else if a.len() == 0 {
        true
    } else if a[0] != b[0] {
        a[0] < b[0]
    } else {
        before(a.drop_first(), b.drop_first())
    }
}

/// Text order is strict.
pub proof fn before_is_irreflexive(a: Seq<char>)
    ensures
        !before(a, a),
    decreases a.len(),
{
    if a.len() > 0 {
        before_is_irreflexive(a.drop_first());
    }
}

/// Text order is transitive.
pub proof fn before_is_transitive(a: Seq<char>, b: Seq<char>, c: Seq<char>)
    requires
        before(a, b),
        before(b, c),
    ensures
        before(a, c),
    decreases c.len(),
{
    if a.len() > 0 && b.len() > 0 && c.len() > 0 && a[0] == b[0] && b[0] == c[0] {
        before_is_transitive(a.drop_first(), b.drop_first(), c.drop_first());
    }
}

/// Of two different texts one is before the other.
pub proof fn before_is_total(a: Seq<char>, b: Seq<char>)
    ensures
        a == b || before(a, b) || before(b, a),
    decreases a.len(),
{
    if a.len() > 0 && b.len() > 0 {
        if a[0] == b[0] {
            before_is_total(a.drop_first(), b.drop_first());
            if a.drop_first() == b.drop_first() {
                assert(a =~= seq![a[0]] + a.drop_first());
                assert(b =~= seq![b[0]] + b.drop_first());
            }
        }
    } else if a.len() == 0 && b.len() == 0 {
        assert(a =~= b);
    }
}

/// How two texts stand to each other.
enum Place {
    Before,
    Same,
    After,
}

fn place(a: &str, b: &str) -> (r: Place)
    ensures
        r is Before == before(a@, b@),
        r is Same == (a@ == b@),
        r is After == before(b@, a@),
{
    let x = chars_of(a);
    let y = chars_of(b);
    let mut i: usize = 0;
    assert(a@.skip(0) =~= a@);
    assert(b@.skip(0) =~= b@);
    proof {
        before_is_irreflexive(a@);
    }
    while i < x.len() && i < y.len()
        invariant
            x@ == a@,
            y@ == b@,
            i <= x@.len(),
            i <= y@.len(),
            a@.take(i as int) == b@.take(i as int),
            before(a@, b@) == before(a@.skip(i as int), b@.skip(i as int)),
            before(b@, a@) == before(b@.skip(i as int), a@.skip(i as int)),
        decreases x@.len() - i,
    {
        assert(a@.skip(i as int).drop_first() =~= a@.skip(i + 1));
        assert(b@.skip(i as int).drop_first() =~= b@.skip(i + 1));
        if x[i] != y[i] {
            assert(a@.skip(i as int)[0] == x@[i as int]);
            assert(b@.skip(i as int)[0] == y@[i as int]);
            if x[i] < y[i] {
                return Place::Before;
            }
            return Place::After;
        }
        assert(a@.take(i + 1) =~= a@.take(i as int).push(a@[i as int]));
        assert(b@.take(i + 1) =~= b@.take(i as int).push(b@[i as int]));
        i = i + 1;
    }
    if x.len() < y.len() {
        Place::Before
    } else if x.len() > y.len() {
        Place::After
    } else {
        assert(a@.take(i as int) =~= a@);
        assert(b@.take(i as int) =~= b@);
        Place::Same
    }
}

/// Keys in strictly ascending text order.
pub open spec fn ascending(entries: Seq<(Seq<char>, Seq<char>)>) -> bool {
    forall|i: int, j: int|
        0 <= i < j < entries.len() ==> before((#[trigger] entries[i]).0, (#[trigger] entries[j]).0)
}

/// The map that a list of entries writes out, later entries over earlier ones.
pub open spec fn map_of(entries: Seq<(Seq<char>, Seq<char>)>) -> Map<Seq<char>, Seq<char>>
    decreases entries.len(),
{
    if entries.len() == 0 {
        Map::empty()
    } else {
        map_of(entries.drop_last()).insert(entries.last().0, entries.last().1)
    }
}

/// What a list of entries in ascending order maps: each of its keys to the
/// value beside it, and nothing else.
pub proof fn map_of_ascending(entries: Seq<(Seq<char>, Seq<char>)>)
    requires
        ascending(entries),
    ensures
        forall|i: int|
            0 <= i < entries.len() ==> map_of(entries).contains_key((#[trigger] entries[i]).0)
                && map_of(entries)[entries[i].0] == entries[i].1,
        forall|k: Seq<char>| #[trigger]
            map_of(entries).contains_key(k) ==> exists|i: int|
                0 <= i < entries.len() && (#[trigger] entries[i]).0 == k,
    decreases entries.len(),
{
    if entries.len() > 0 {
        let init = entries.drop_last();
        map_of_ascending(init);
        assert forall|i: int| 0 <= i < entries.len() implies map_of(entries).contains_key(
            (#[trigger] entries[i]).0,
        ) && map_of(entries)[entries[i].0] == entries[i].1 by {
            if i < init.len() {
                assert(init[i] == entries[i]);
                assert(before(entries[i].0, entries[entries.len() - 1].0));
                before_is_irreflexive(entries[i].0);
            }
        }
        assert forall|k: Seq<char>| #[trigger] map_of(entries).contains_key(k) implies exists|
            i: int,
        |
            0 <= i < entries.len() && (#[trigger] entries[i]).0 == k by {
            if k == entries.last().0 {
                assert(entries[entries.len() - 1].0 == k);
            } else {
                assert(map_of(init).contains_key(k));
                let i = choose|i: int| 0 <= i < init.len() && (#[trigger] init[i]).0 == k;
                assert(entries[i].0 == k);
            }
        }
    }
}

/// What a map holds decides how it is walked: two lists of entries in
/// ascending order that write out the same map are the same list.
pub proof fn walk_is_decided(
    a: Seq<(Seq<char>, Seq<char>)>,
    b: Seq<(Seq<char>, Seq<char>)>,
)
    requires
        ascending(a),
        ascending(b),
        map_of(a) == map_of(b),
    ensures
        a == b,
    decreases a.len(),
{
    map_of_ascending(a);
    map_of_ascending(b);
    if a.len() == 0 {
        if b.len() > 0 {
            assert(map_of(b).contains_key(b[0].0));
        }
        assert(a =~= b);
    } else {
        let ka = a.last().0;
        let kb = b.last().0;
        assert(map_of(a).contains_key(a[a.len() - 1].0));
        assert(map_of(b).contains_key(ka));
        let j = choose|j: int| 0 <= j < b.len() && (#[trigger] b[j]).0 == ka;
        assert(map_of(b).contains_key(b[b.len() - 1].0));
        assert(map_of(a).contains_key(kb));
        let i = choose|i: int| 0 <= i < a.len() && (#[trigger] a[i]).0 == kb;
        if ka != kb {
            assert(before(b[j].0, b[b.len() - 1].0));
            assert(before(a[i].0, a[a.len() - 1].0));
            before_is_transitive(ka, kb, ka);
            before_is_irreflexive(ka);
        }
        lemma_map_without_last(a);
        lemma_map_without_last(b);
        assert(a[a.len() - 1].1 == map_of(a)[ka]);
        assert(b[b.len() - 1].1 == map_of(b)[kb]);
        walk_is_decided(a.drop_last(), b.drop_last());
        assert(a =~= a.drop_last().push(a.last()));
        assert(b =~= b.drop_last().push(b.last()));
    }
}

proof fn lemma_map_without_last(entries: Seq<(Seq<char>, Seq<char>)>)
    requires
        ascending(entries),
        entries.len() > 0,
    ensures
        ascending(entries.drop_last()),
        map_of(entries.drop_last()) == map_of(entries).remove(entries.last().0),
{
    let init = entries.drop_last();
    let k = entries.last().0;
    map_of_ascending(init);
    if map_of(init).contains_key(k) {
        let i = choose|i: int| 0 <= i < init.len() && (#[trigger] init[i]).0 == k;
        assert(before(entries[i].0, entries[entries.len() - 1].0));
        before_is_irreflexive(k);
    }
    assert(map_of(init) =~= map_of(entries).remove(k));
}

/// A map from text to text, walked in ascending order of its keys.
#[derive(Debug, PartialEq, Eq)]
pub struct StringMap {
    entries: Vec<(String, String)>,
}

impl View for StringMap {
    type V = Map<Seq<char>, Seq<char>>;

    open spec fn view(&self) -> Map<Seq<char>, Seq<char>> {
        map_of(self.entries())
    }
}

impl StringMap {
    /// The entries in the order in which they are walked.
    pub closed spec fn entries(&self) -> Seq<(Seq<char>, Seq<char>)> {
        self.entries@.map_values(|e: (String, String)| (e.0@, e.1@))
    }

    #[verifier::type_invariant]
    spec fn in_order(&self) -> bool {
        ascending(self.entries())
    }

    /// The empty map.
    pub fn new() -> (r: StringMap)
        ensures
            r@ == Map::<Seq<char>, Seq<char>>::empty(),
            r.entries() == Seq::<(Seq<char>, Seq<char>)>::empty(),
    {
        let r = StringMap { entries: Vec::new() };
        assert(r.entries() =~= Seq::empty());
        r
    }

    /// How many keys the map has.
    pub fn len(&self) -> (r: usize)
        ensures
            r == self.entries().len(),
            ascending(self.entries()),
    {
        proof {
            use_type_invariant(self);
        }
        self.entries.len()
    }

    /// The key and the value at place `i` of the walk.
    pub fn entry(&self, i: usize) -> (r: (&str, &str))
        requires
            i < self.entries().len(),
        ensures
            (r.0@, r.1@) == self.entries()[i as int],
    {
        (self.entries[i].0.as_str(), self.entries[i].1.as_str())
    }

    /// Where `key` stands, or where it would have to be put in.
    fn find(&self, key: &str) -> (r: (usize, bool))
        ensures
            r.0 <= self.entries().len(),
            r.1 ==> r.0 < self.entries().len() && self.entries()[r.0 as int].0 == key@,
            !r.1 ==> forall|j: int|
                r.0 <= j < self.entries().len() ==> before(key@, (#[trigger] self.entries()[j]).0),
            forall|j: int| 0 <= j < r.0 ==> before((#[trigger] self.entries()[j]).0, key@),
    {
        proof {
            use_type_invariant(self);
        }
        let mut i: usize = 0;
        while i < self.entries.len()
            invariant
                ascending(self.entries()),
                i <= self.entries().len(),
                forall|j: int| 0 <= j < i ==> before((#[trigger] self.entries()[j]).0, key@),
            decreases self.entries().len() - i,
        {
            match place(self.entries[i].0.as_str(), key) {
                Place::Before => {},
                Place::Same => {
                    return (i, true);
                },
                Place::After => {
                    proof {
                        assert forall|j: int| i <= j < self.entries().len() implies before(
                            key@,
                            (#[trigger] self.entries()[j]).0,
                        ) by {
                            if j > i {
                                before_is_transitive(
                                    key@,
                                    self.entries()[i as int].0,
                                    self.entries()[j].0,
                                );
                            }
                        }
                    }
                    return (i, false);
                },
            }
            i = i + 1;
        }
        (i, false)
    }

    /// The value of `key`.
    pub fn get(&self, key: &str) -> (r: Option<&String>)
        ensures
            r.deep_view() == (if self@.contains_key(key@) {
                Some(self@[key@])
            } else {
                None
            }),
    {
        proof {
            use_type_invariant(self);
            map_of_ascending(self.entries());
        }
        let (i, found) = self.find(key);
        if found {
            Some(&self.entries[i].1)
        } else {
            proof {
                if self@.contains_key(key@) {
                    let j = choose|j: int|
                        0 <= j < self.entries().len() && (#[trigger] self.entries()[j]).0 == key@;
                    before_is_irreflexive(key@);
                }
            }
            None
        }
    }

    /// Maps `key` to `value`, and hands back what it was mapped to before.
    pub fn insert(&mut self, key: String, value: String) -> (r: Option<String>)
        ensures
            final(self)@ == old(self)@.insert(key@, value@),
            ascending(final(self).entries()),
            r.deep_view() == (if old(self)@.contains_key(key@) {
                Some(old(self)@[key@])
            } else {
                None
            }),
    {
        proof {
            use_type_invariant(&*self);
            map_of_ascending(self.entries());
        }
        let ghost was = self.entries();
        let ghost k = key@;
        let ghost v = value@;
        let (i, found) = self.find(key.as_str());
        let mut entries: Vec<(String, String)> = Vec::new();
        std::mem::swap(&mut entries, &mut self.entries);
        let mut r: Option<String> = None;
        if found {
            let (_, replaced) = entries.remove(i);
            r = Some(replaced);
        } else {
            proof {
                if map_of(was).contains_key(k) {
                    let j = choose|j: int| 0 <= j < was.len() && (#[trigger] was[j]).0 == k;
                    before_is_irreflexive(k);
                }
            }
        }
        entries.insert(i, (key, value));
        let ghost now = entries@.map_values(|e: (String, String)| (e.0@, e.1@));
        proof {
            if found {
                assert(now =~= was.update(i as int, (k, v)));
            } else {
                assert(now =~= was.insert(i as int, (k, v)));
            }
            lemma_put(was, now, i as int, found, k, v);
        }
        self.entries = entries;
        r
    }
}

/// Putting an entry in its place keeps the order and writes the key.
proof fn lemma_put(
    was: Seq<(Seq<char>, Seq<char>)>,
    now: Seq<(Seq<char>, Seq<char>)>,
    i: int,
    found: bool,
    k: Seq<char>,
    v: Seq<char>,
)
    requires
        ascending(was),
        0 <= i <= was.len(),
        found ==> i < was.len() && was[i].0 == k,
        !found ==> forall|j: int| i <= j < was.len() ==> before(k, (#[trigger] was[j]).0),
        forall|j: int| 0 <= j < i ==> before((#[trigger] was[j]).0, k),
        now == (if found {
            was.update(i, (k, v))
        } else {
            was.insert(i, (k, v))
        }),
    ensures
        ascending(now),
        map_of(now) == map_of(was).insert(k, v),
{
    let shift: int = if found {
        0
    } else {
        1
    };
    assert forall|a: int, b: int| 0 <= a < b < now.len() implies before(
        (#[trigger] now[a]).0,
        (#[trigger] now[b]).0,
    ) by {
        if a < i {
            assert(now[a] == was[a]);
        } else if a > i {
            assert(now[a] == was[a - shift]);
        }
        if b < i {
            assert(now[b] == was[b]);
        } else if b > i {
            assert(now[b] == was[b - shift]);
        }
    }
    map_of_ascending(was);
    map_of_ascending(now);
    assert(now[i] == (k, v));
    assert forall|x: Seq<char>| map_of(now).contains_key(x) implies #[trigger] map_of(was).insert(
        k,
        v,
    ).contains_key(x) && map_of(now)[x] == map_of(was).insert(k, v)[x] by {
        let a = choose|a: int| 0 <= a < now.len() && (#[trigger] now[a]).0 == x;
        if a < i {
            assert(now[a] == was[a]);
            before_is_irreflexive(x);
        } else if a > i {
            assert(now[a] == was[a - shift]);
            assert(before(now[i].0, now[a].0));
            before_is_irreflexive(x);
        }
    }
    assert forall|x: Seq<char>| #[trigger] map_of(was).insert(k, v).contains_key(x) implies map_of(
        now,
    ).contains_key(x) by {
        if x != k {
            let a = choose|a: int| 0 <= a < was.len() && (#[trigger] was[a]).0 == x;
            if a < i {
                assert(now[a] == was[a]);
            } else {
                assert(now[a + shift] == was[a]);
            }
        }
    }
    assert(map_of(now) =~= map_of(was).insert(k, v));
}

impl Clone for StringMap {
    fn clone(&self) -> (r: Self)
        ensures
            r.entries() == self.entries(),
    {
        proof {
            use_type_invariant(self);
        }
        let mut entries: Vec<(String, String)> = Vec::new();
        let mut i: usize = 0;
        while i < self.entries.len()
            invariant
                i <= self.entries@.len(),
                entries@ == self.entries@.take(i as int),
            decreases self.entries@.len() - i,
        {
            entries.push((self.entries[i].0.clone(), self.entries[i].1.clone()));
            i = i + 1;
        }
        assert(entries@ =~= self.entries@);
        StringMap { entries }
    }
}

impl Default for StringMap {
    fn default() -> (r: Self)
        ensures
            r@ == Map::<Seq<char>, Seq<char>>::empty(),
            r.entries() == Seq::<(Seq<char>, Seq<char>)>::empty(),
    {
        StringMap::new()
    }
}

/// One text is before another exactly where they agree up to some place, and
/// there the one ends or has the smaller character.
pub proof fn texts_are_ordered_at_the_first_difference(a: Seq<char>, b: Seq<char>)
    ensures
        before(a, b) <==> exists|i: int|
            0 <= i <= a.len() && i < b.len() && #[trigger] a.take(i) == b.take(i) && (i == a.len()
                || a[i] < b[i]),
    decreases b.len(),
{
    if before(a, b) {
        let i = lemma_first_difference(a, b);
        assert(a.take(i) == b.take(i));
    }
    if exists|i: int|
        0 <= i <= a.len() && i < b.len() && #[trigger] a.take(i) == b.take(i) && (i == a.len()
            || a[i] < b[i]) {
        let i = choose|i: int|
            0 <= i <= a.len() && i < b.len() && #[trigger] a.take(i) == b.take(i) && (i == a.len()
                || a[i] < b[i]);
        lemma_before_by_difference(a, b, i);
    }
}

proof fn lemma_first_difference(a: Seq<char>, b: Seq<char>) -> (i: int)
    requires
        before(a, b),
    ensures
        0 <= i <= a.len(),
        i < b.len(),
        a.take(i) == b.take(i),
        i == a.len() || a[i] < b[i],
    decreases b.len(),
{
    if a.len() == 0 || a[0] != b[0] {
        assert(a.take(0) =~= b.take(0));
        0
    } else {
        let (x, y) = (a.drop_first(), b.drop_first());
        let i = lemma_first_difference(x, y);
        assert forall|k: int| 0 <= k < i + 1 implies a[k] == b[k] by {
            if k > 0 {
                assert(x.take(i)[k - 1] == y.take(i)[k - 1]);
            }
        }
        assert(a.take(i + 1) =~= b.take(i + 1));
        i + 1
    }
}

proof fn lemma_before_by_difference(a: Seq<char>, b: Seq<char>, i: int)
    requires
        0 <= i <= a.len(),
        i < b.len(),
        a.take(i) == b.take(i),
        i == a.len() || a[i] < b[i],
    ensures
        before(a, b),
    decreases b.len(),
{
    if i > 0 {
        let (x, y) = (a.drop_first(), b.drop_first());
        assert(a[0] == a.take(i)[0] && b[0] == b.take(i)[0]);
        assert(x.take(i - 1) =~= a.take(i).drop_first());
        assert(y.take(i - 1) =~= b.take(i).drop_first());
        lemma_before_by_difference(x, y, i - 1);
    }
}

} // verus!
