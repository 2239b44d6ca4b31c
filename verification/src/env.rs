//! The variables read from an env file: a map from names to values in which
//! a later assignment to a name replaces an earlier one.

use vstd::prelude::*;

verus! {

/// Environment variables, each name at most once, kept in the order of
/// their names.
pub struct EnvMap {
    entries: Vec<(String, String)>,
}

/// Name `a` comes before name `b`: the order of `String`, which compares the
/// UTF-8 bytes, and so the code points, one by one.
pub open spec fn name_lt(a: Seq<char>, b: Seq<char>) -> bool
    decreases a.len(),
{
    if b.len() == 0 {
        false
    } else if a.len() == 0 {
        true
    } else if a[0] != b[0] {
        (a[0] as int) < (b[0] as int)
    } else {
        name_lt(a.drop_first(), b.drop_first())
    }
}

/// No name comes before itself.
proof fn lemma_name_lt_irreflexive(a: Seq<char>)
    ensures
        !name_lt(a, a),
    decreases a.len(),
{
    if a.len() > 0 {
        lemma_name_lt_irreflexive(a.drop_first());
    }
}

/// Of two different names, one comes before the other.
proof fn lemma_name_lt_total(a: Seq<char>, b: Seq<char>)
    requires
        a != b,
    ensures
        name_lt(a, b) || name_lt(b, a),
    decreases a.len(),
{
    if a.len() == 0 || b.len() == 0 {
        if a.len() == 0 && b.len() == 0 {
            assert(a =~= b);
        }
    } else if a[0] != b[0] {
        assert((a[0] as int) != (b[0] as int));
    } else {
        if a.drop_first() == b.drop_first() {
            assert(a =~= b) by {
                assert(a.drop_first().len() == b.drop_first().len());
                assert(a.len() == b.len());
                assert forall|k: int| 0 <= k < a.len() implies a[k] == b[k] by {
                    if k > 0 {
                        assert(a[k] == a.drop_first()[k - 1]);
                        assert(b[k] == b.drop_first()[k - 1]);
                    }
                }
            }
        } else {
            lemma_name_lt_total(a.drop_first(), b.drop_first());
        }
    }
}

/// The order of names is transitive.
proof fn lemma_name_lt_transitive(a: Seq<char>, b: Seq<char>, c: Seq<char>)
    requires
        name_lt(a, b),
        name_lt(b, c),
    ensures
        name_lt(a, c),
    decreases a.len(),
{
    if a.len() > 0 && a[0] == b[0] && b[0] == c[0] {
        lemma_name_lt_transitive(a.drop_first(), b.drop_first(), c.drop_first());
    }
}

/// Names that agree on their first `i` characters compare as their rests do.
proof fn lemma_name_lt_common_prefix(a: Seq<char>, b: Seq<char>, i: int)
    requires
        0 <= i <= a.len(),
        i <= b.len(),
        a.take(i) == b.take(i),
    ensures
        name_lt(a, b) == name_lt(a.skip(i), b.skip(i)),
    decreases i,
{
    if i > 0 {
        assert(a[0] == a.take(i)[0]);
        assert(b[0] == b.take(i)[0]);
        assert(a.drop_first().take(i - 1) =~= a.take(i).drop_first());
        assert(b.drop_first().take(i - 1) =~= b.take(i).drop_first());
        lemma_name_lt_common_prefix(a.drop_first(), b.drop_first(), i - 1);
        assert(a.drop_first().skip(i - 1) =~= a.skip(i));
        assert(b.drop_first().skip(i - 1) =~= b.skip(i));
    } else {
        assert(a.skip(0) =~= a);
        assert(b.skip(0) =~= b);
    }
}

/// The names of `pairs` increase strictly, as a `BTreeMap` walks them.
pub open spec fn names_increase(pairs: Seq<(String, String)>) -> bool {
    forall|i: int, j: int| 0 <= i < j < pairs.len() ==> name_lt(#[trigger] pairs[i].0@, #[trigger] pairs[j].0@)
}

/// Increasing names are distinct.
proof fn lemma_increasing_distinct(pairs: Seq<(String, String)>)
    requires
        names_increase(pairs),
    ensures
        distinct_names(pairs),
{
    assert forall|i: int, j: int|
        0 <= i < pairs.len() && 0 <= j < pairs.len() && i != j implies pairs[i].0@ != pairs[j].0@ by {
        lemma_name_lt_irreflexive(pairs[i].0@);
    }
}

/// The characters of a text.
fn chars_of(text: &str) -> (r: Vec<char>)
    ensures
        r@ == text@,
{
    let mut chars: Vec<char> = Vec::new();
    for c in it: text.chars()
        invariant
            chars@ == it.seq().take(it.index() as int),
    {
        chars.push(c);
    }
    chars
}

/// Whether name `a` comes before name `b`.
fn name_precedes(a: &String, b: &String) -> (r: bool)
    ensures
        r == name_lt(a@, b@),
{
    let ca = chars_of(a.as_str());
    let cb = chars_of(b.as_str());
    let la = ca.len();
    let lb = cb.len();
    let mut i: usize = 0;
    while i < la && i < lb && ca[i] == cb[i]
        invariant
            ca@ == a@,
            cb@ == b@,
            la == ca@.len(),
            lb == cb@.len(),
            i <= la,
            i <= lb,
            a@.take(i as int) == b@.take(i as int),
        decreases la - i,
    {
        proof {
            assert(a@.take(i + 1) =~= a@.take(i as int).push(a@[i as int]));
            assert(b@.take(i + 1) =~= b@.take(i as int).push(b@[i as int]));
        }
        i = i + 1;
    }
    proof {
        lemma_name_lt_common_prefix(a@, b@, i as int);
        assert(a@.skip(i as int).len() == la - i);
        assert(b@.skip(i as int).len() == lb - i);
    }
    if i == lb {
        false
    } else if i == la {
        true
    } else {
        proof {
            assert(a@.skip(i as int)[0] == ca@[i as int]);
            assert(b@.skip(i as int)[0] == cb@[i as int]);
        }
        ca[i] < cb[i]
    }
}

/// The texts of a sequence of name/value pairs.
pub open spec fn pair_texts(pairs: Seq<(String, String)>) -> Seq<(Seq<char>, Seq<char>)> {
    pairs.map_values(|p: (String, String)| (p.0@, p.1@))
}

/// Position `i` of `pairs` holds the name `k`.
pub open spec fn holds_name(pairs: Seq<(String, String)>, i: int, k: Seq<char>) -> bool {
    0 <= i < pairs.len() && pairs[i].0@ == k
}

/// No name occurs twice in `pairs`.
pub open spec fn distinct_names(pairs: Seq<(String, String)>) -> bool {
    forall|i: int, j: int|
        0 <= i < pairs.len() && 0 <= j < pairs.len() && i != j ==> pairs[i].0@ != pairs[j].0@
}

/// The map whose names are those of `pairs`, each with the value it has in
/// the first pair that holds it.
pub open spec fn names_map(pairs: Seq<(String, String)>) -> Map<Seq<char>, Seq<char>> {
    Map::new(
        |k: Seq<char>| exists|i: int| holds_name(pairs, i, k),
        |k: Seq<char>| pairs[choose|i: int| holds_name(pairs, i, k)].1@,
    )
}

/// The map that a sequence of assignments leaves: each name bound to the value
/// of its last assignment.
pub open spec fn assigned(pairs: Seq<(String, String)>) -> Map<Seq<char>, Seq<char>>
    decreases pairs.len(),
{
    if pairs.len() == 0 {
        Map::empty()
    } else {
        assigned(pairs.drop_last()).insert(pairs.last().0@, pairs.last().1@)
    }
}

/// A name is set exactly when some assignment names it, and then it holds the
/// value of the last assignment that names it.
pub proof fn lemma_last_assignment_wins(pairs: Seq<(String, String)>, k: Seq<char>)
    ensures
        assigned(pairs).contains_key(k) <==> exists|i: int| holds_name(pairs, i, k),
        forall|i: int|
            holds_name(pairs, i, k) && (forall|j: int| i < j < pairs.len() ==> pairs[j].0@ != k)
                ==> assigned(pairs)[k] == #[trigger] pairs[i].1@,
    decreases pairs.len(),
{
    if pairs.len() > 0 {
        let front = pairs.drop_last();
        let n = pairs.len() - 1;
        lemma_last_assignment_wins(front, k);
        if pairs.last().0@ == k {
            assert(holds_name(pairs, n, k));
            assert forall|i: int|
                holds_name(pairs, i, k) && (forall|j: int| i < j < pairs.len() ==> pairs[j].0@ != k)
                    implies assigned(pairs)[k] == #[trigger] pairs[i].1@ by {
                if i < n {
                    assert(pairs[n].0@ == k);
                }
            }
        } else {
            assert forall|i: int| holds_name(pairs, i, k) implies holds_name(front, i, k) by {
                assert(i != n);
            }
            assert forall|i: int| holds_name(front, i, k) implies holds_name(pairs, i, k) by {}
            assert forall|i: int|
                holds_name(pairs, i, k) && (forall|j: int| i < j < pairs.len() ==> pairs[j].0@ != k)
                    implies assigned(pairs)[k] == #[trigger] pairs[i].1@ by {
                assert(holds_name(front, i, k));
                assert(front[i] == pairs[i]);
            }
        }
    }
}

/// Inserting a pair with a new name adds that name to the map.
proof fn lemma_names_map_insert(pairs: Seq<(String, String)>, at: int, p: (String, String))
    requires
        0 <= at <= pairs.len(),
        distinct_names(pairs.insert(at, p)),
    ensures
        names_map(pairs.insert(at, p)) == names_map(pairs).insert(p.0@, p.1@),
{
    let s = pairs.insert(at, p);
    assert(holds_name(s, at, p.0@));
    assert forall|k: Seq<char>| #[trigger] names_map(s).contains_key(k) implies
        names_map(pairs).insert(p.0@, p.1@).contains_key(k)
        && names_map(s)[k] == names_map(pairs).insert(p.0@, p.1@)[k] by {
        let j = choose|j: int| holds_name(s, j, k);
        if k == p.0@ {
            assert(j == at);
        } else {
            assert(j != at);
            let jo = if j < at { j } else { j - 1 };
            assert(s[j] == pairs[jo]);
            assert(holds_name(pairs, jo, k));
            let j2 = choose|j2: int| holds_name(pairs, j2, k);
            let js = if j2 < at { j2 } else { j2 + 1 };
            assert(s[js] == pairs[j2]);
            assert(holds_name(s, js, k));
            assert(js == j);
        }
    }
    assert forall|k: Seq<char>| names_map(pairs).contains_key(k) implies #[trigger] names_map(s).contains_key(k) by {
        let j = choose|j: int| holds_name(pairs, j, k);
        let js = if j < at { j } else { j + 1 };
        assert(s[js] == pairs[j]);
        assert(holds_name(s, js, k));
    }
    assert(names_map(s) =~= names_map(pairs).insert(p.0@, p.1@));
}

/// Appending a pair with a new name adds that name to the map.
proof fn lemma_names_map_push(pairs: Seq<(String, String)>, p: (String, String))
    requires
        distinct_names(pairs.push(p)),
    ensures
        names_map(pairs.push(p)) == names_map(pairs).insert(p.0@, p.1@),
{
    assert(pairs.push(p) =~= pairs.insert(pairs.len() as int, p));
    lemma_names_map_insert(pairs, pairs.len() as int, p);
}

/// Replacing the value of the pair at `i` rebinds that pair's name.
proof fn lemma_names_map_update(pairs: Seq<(String, String)>, i: int, p: (String, String))
    requires
        distinct_names(pairs),
        0 <= i < pairs.len(),
        p.0@ == pairs[i].0@,
    ensures
        distinct_names(pairs.update(i, p)),
        names_map(pairs.update(i, p)) == names_map(pairs).insert(p.0@, p.1@),
{
    let s = pairs.update(i, p);
    assert forall|kk: Seq<char>, j: int| holds_name(s, j, kk) <==> holds_name(pairs, j, kk) by {}
    assert(holds_name(pairs, i, p.0@));
    assert forall|k: Seq<char>| #[trigger] names_map(s).contains_key(k) implies
        names_map(pairs).insert(p.0@, p.1@).contains_key(k)
        && names_map(s)[k] == names_map(pairs).insert(p.0@, p.1@)[k] by {
        let j = choose|j: int| holds_name(s, j, k);
        if k == p.0@ {
            assert(j == i);
        } else {
            let j2 = choose|j2: int| holds_name(pairs, j2, k);
            assert(holds_name(pairs, j, k));
            assert(j2 == j);
        }
    }
    assert(names_map(s) =~= names_map(pairs).insert(p.0@, p.1@));
}

/// Where no name repeats, the order of the assignments does not matter: they
/// leave the map of the names.
proof fn lemma_assigned_distinct(pairs: Seq<(String, String)>)
    requires
        distinct_names(pairs),
    ensures
        assigned(pairs) == names_map(pairs),
    decreases pairs.len(),
{
    if pairs.len() == 0 {
        assert(names_map(pairs) =~= Map::<Seq<char>, Seq<char>>::empty());
    } else {
        let front = pairs.drop_last();
        assert(front.push(pairs.last()) =~= pairs);
        lemma_assigned_distinct(front);
        lemma_names_map_push(front, pairs.last());
    }
}

/// Assigning `a` and then `b` leaves the map of `a` updated with that of `b`.
pub proof fn lemma_assigned_concat(a: Seq<(String, String)>, b: Seq<(String, String)>)
    ensures
        assigned(a + b) == assigned(a).union_prefer_right(assigned(b)),
    decreases b.len(),
{
    if b.len() == 0 {
        assert(a + b =~= a);
        assert(assigned(a).union_prefer_right(assigned(b)) =~= assigned(a));
    } else {
        assert((a + b).drop_last() =~= a + b.drop_last());
        lemma_assigned_concat(a, b.drop_last());
        assert(assigned(a + b) =~= assigned(a).union_prefer_right(assigned(b)));
    }
}

impl View for EnvMap {
    type V = Map<Seq<char>, Seq<char>>;

    /// The variables, as a map from names to values.
    closed spec fn view(&self) -> Map<Seq<char>, Seq<char>> {
        names_map(self.entries@)
    }
}

impl EnvMap {
    /// The names increase, so no name occurs twice.
    #[verifier::type_invariant]
    spec fn names_sorted(&self) -> bool {
        names_increase(self.entries@)
    }

    /// The assignments, in the order of their names.
    pub closed spec fn pairs(&self) -> Seq<(String, String)> {
        self.entries@
    }

    /// An empty map.
    pub fn new() -> (r: EnvMap)
        ensures
            r@ == Map::<Seq<char>, Seq<char>>::empty(),
            r.pairs().len() == 0,
    {
        let r = EnvMap { entries: Vec::new() };
        assert(r@ =~= Map::<Seq<char>, Seq<char>>::empty());
        r
    }

    /// The number of variables.
    pub fn len(&self) -> (r: usize)
        ensures
            r == self.pairs().len(),
    {
        self.entries.len()
    }

    /// The assignments, in the order of their names: together they assign
    /// exactly the map.
    pub fn entries(&self) -> (r: &Vec<(String, String)>)
        ensures
            r@ == self.pairs(),
            names_increase(self.pairs()),
            self@ == assigned(self.pairs()),
    {
        proof {
            use_type_invariant(self);
            lemma_increasing_distinct(self.entries@);
            lemma_assigned_distinct(self.entries@);
        }
        &self.entries
    }

    /// The position of `name` among the pairs, if it is there.
    fn position(&self, name: &String) -> (r: Option<usize>)
        ensures
            match r {
                Some(i) => holds_name(self.entries@, i as int, name@),
                None => forall|i: int| !holds_name(self.entries@, i, name@),
            },
    {
        let n = self.entries.len();
        let mut i: usize = 0;
        while i < n
            invariant
                n == self.entries@.len(),
                i <= n,
                forall|j: int| 0 <= j < i ==> !holds_name(self.entries@, j, name@),
            decreases n - i,
        {
            if self.entries[i].0 == *name {
                return Some(i);
            }
            i = i + 1;
        }
        None
    }

    /// The value of `name`, if it is set.
    pub fn get(&self, name: &str) -> (r: Option<&String>)
        ensures
            match r {
                Some(v) => self@.contains_key(name@) && self@[name@] == v@,
                None => !self@.contains_key(name@),
            },
    {
        proof {
            use_type_invariant(self);
            lemma_increasing_distinct(self.entries@);
        }
        let owned = name.to_owned();
        match self.position(&owned) {
            Some(i) => {
                proof {
                    let j = choose|j: int| holds_name(self.entries@, j, name@);
                    assert(j == i);
                }
                Some(&self.entries[i].1)
            },
            None => None,
        }
    }

    /// Sets `name` to `value`, replacing any earlier value; a new name goes
    /// where its order puts it.
    pub fn insert(&mut self, name: String, value: String)
        ensures
            final(self)@ == old(self)@.insert(name@, value@),
    {
        proof {
            use_type_invariant(&*self);
        }
        let ghost old_entries = self.entries@;
        let ghost pair = (name, value);
        let mut entries: Vec<(String, String)> = Vec::new();
        std::mem::swap(&mut entries, &mut self.entries);
        let n = entries.len();
        let mut i: usize = 0;
        while i < n && name_precedes(&entries[i].0, &name)
            invariant
                entries@ == old_entries,
                n == entries@.len(),
                i <= n,
                forall|j: int| 0 <= j < i ==> name_lt(#[trigger] entries@[j].0@, name@),
            decreases n - i,
        {
            i = i + 1;
        }
        proof {
            lemma_increasing_distinct(old_entries);
        }
        if i < n && entries[i].0 == name {
            entries.set(i, (name, value));
            proof {
                lemma_names_map_update(old_entries, i as int, pair);
                assert forall|a: int, b: int| 0 <= a < b < entries@.len() implies name_lt(
                    #[trigger] entries@[a].0@,
                    #[trigger] entries@[b].0@,
                ) by {
                    assert(entries@[a].0@ == old_entries[a].0@);
                    assert(entries@[b].0@ == old_entries[b].0@);
                }
            }
        } else {
            entries.insert(i, (name, value));
            proof {
                let s = entries@;
                assert(s == old_entries.insert(i as int, pair));
                if i < n {
                    lemma_name_lt_total(old_entries[i as int].0@, pair.0@);
                }
                assert forall|a: int, b: int| 0 <= a < b < s.len() implies name_lt(
                    #[trigger] s[a].0@,
                    #[trigger] s[b].0@,
                ) by {
                    if b == i {
                        assert(s[a] == old_entries[a]);
                    } else if a == i {
                        assert(s[b] == old_entries[b - 1]);
                        if b - 1 > i {
                            lemma_name_lt_transitive(pair.0@, old_entries[i as int].0@, old_entries[b - 1].0@);
                        }
                    } else {
                        let ao = if a < i { a } else { a - 1 };
                        let bo = if b < i { b } else { b - 1 };
                        assert(s[a] == old_entries[ao]);
                        assert(s[b] == old_entries[bo]);
                        if a < i && b > i {
                            if bo > i {
                                lemma_name_lt_transitive(pair.0@, old_entries[i as int].0@, old_entries[bo].0@);
                            }
                            assert(name_lt(old_entries[ao].0@, pair.0@));
                            lemma_name_lt_transitive(old_entries[ao].0@, pair.0@, old_entries[bo].0@);
                        }
                    }
                }
                lemma_increasing_distinct(s);
                lemma_names_map_insert(old_entries, i as int, pair);
            }
        }
        self.entries = entries;
    }
}

/// Collects assignments read from an env file into a map: where a name is
/// assigned more than once, the last assignment wins.
pub fn collect_env(items: Vec<(String, String)>) -> (r: EnvMap)
    ensures
        r@ == assigned(items@),
{
    let mut env = EnvMap::new();
    let n = items.len();
    let mut i: usize = 0;
    while i < n
        invariant
            n == items@.len(),
            i <= n,
            env@ == assigned(items@.take(i as int)),
        decreases n - i,
    {
        let name = items[i].0.clone();
        let value = items[i].1.clone();
        proof {
            assert(items@.take(i + 1).drop_last() =~= items@.take(i as int));
        }
        env.insert(name, value);
        i = i + 1;
    }
    assert(items@.take(n as int) =~= items@);
    env
}

} // verus!
