//! The environment of a service: variables by name, held in the order of their
//! names, each name once.

use vstd::prelude::*;
use crate::text::{lex_lt, chars_of, comes_before, same_text, lemma_lex_lt_irreflexive,
    lemma_lex_lt_transitive, lemma_lex_lt_total};

verus! {

/// One environment variable.
#[derive(Debug)]
pub struct EnvVar {
    pub key: String,
    pub value: String,
}

pub struct EnvVarView {
    pub key: Seq<char>,
    pub value: Seq<char>,
}

impl DeepView for EnvVar {
    type V = EnvVarView;

    open spec fn deep_view(&self) -> EnvVarView {
        EnvVarView { key: self.key@, value: self.value@ }
    }
}

impl Clone for EnvVar {
    fn clone(&self) -> (r: Self)
        ensures
            r.deep_view() == self.deep_view(),
    {
        EnvVar { key: self.key.clone(), value: self.value.clone() }
    }
}

/// The keys of `vars` stand in strictly rising order.
pub open spec fn sorted(vars: Seq<EnvVarView>) -> bool {
    forall|i: int, j: int| 0 <= i < j < vars.len() ==> lex_lt(#[trigger] vars[i].key, #[trigger] vars[j].key)
}

/// Some variable of `vars` has the name `key`.
pub open spec fn has_key(vars: Seq<EnvVarView>, key: Seq<char>) -> bool {
    exists|i: int| 0 <= i < vars.len() && #[trigger] vars[i].key == key
}

/// An index at which `vars` holds the name `key`.
pub open spec fn index_of(vars: Seq<EnvVarView>, key: Seq<char>) -> int {
    choose|i: int| 0 <= i < vars.len() && #[trigger] vars[i].key == key
}

/// The variables as a map from name to value.
pub open spec fn as_map(vars: Seq<EnvVarView>) -> Map<Seq<char>, Seq<char>> {
    Map::new(|k: Seq<char>| has_key(vars, k), |k: Seq<char>| vars[index_of(vars, k)].value)
}

/// In a sorted sequence a name stands at one index only, and the map holds the
/// value found there.
pub proof fn lemma_entry_in_map(vars: Seq<EnvVarView>, i: int)
    requires
        sorted(vars),
        0 <= i < vars.len(),
    ensures
        has_key(vars, vars[i].key),
        index_of(vars, vars[i].key) == i,
        as_map(vars).dom().contains(vars[i].key),
        as_map(vars)[vars[i].key] == vars[i].value,
{
    let k = vars[i].key;
    let j = index_of(vars, k);
    lemma_lex_lt_irreflexive(k);
    if j < i {
        assert(lex_lt(vars[j].key, vars[i].key));
    }
    if i < j {
        assert(lex_lt(vars[i].key, vars[j].key));
    }
}

/// Two sorted sequences with the same map are the same sequence.
pub proof fn lemma_sorted_is_canonical(a: Seq<EnvVarView>, b: Seq<EnvVarView>)
    requires
        sorted(a),
        sorted(b),
        as_map(a) == as_map(b),
    ensures
        a == b,
    decreases a.len(),
{
    if a.len() == 0 {
        if b.len() > 0 {
            lemma_entry_in_map(b, 0);
            assert(as_map(a).dom().contains(b[0].key));
        }
        assert(a =~= b);
    } else if b.len() == 0 {
        lemma_entry_in_map(a, 0);
        assert(as_map(b).dom().contains(a[0].key));
    } else {
        // The last name of each is the greatest of the common domain.
        let la = a.len() - 1;
        let lb = b.len() - 1;
        lemma_entry_in_map(a, la);
        lemma_entry_in_map(b, lb);
        assert(has_key(b, a[la].key));
        assert(has_key(a, b[lb].key));
        let ib = index_of(b, a[la].key);
        let ia = index_of(a, b[lb].key);
        lemma_lex_lt_total(a[la].key, b[lb].key);
        if ib < lb {
            assert(lex_lt(b[ib].key, b[lb].key));
        }
        if ia < la {
            assert(lex_lt(a[ia].key, a[la].key));
        }
        assert(a[la].key == b[lb].key);
        assert(a[la].value == b[lb].value);
        let a0 = a.drop_last();
        let b0 = b.drop_last();
        assert(sorted(a0));
        assert(sorted(b0));
        assert forall|k: Seq<char>| has_key(a0, k) <==> has_key(b0, k) by {
            lemma_drop_last_key(a, k);
            lemma_drop_last_key(b, k);
            assert(a.last() == a[la] && b.last() == b[lb]);
            assert(as_map(a).dom().contains(k) == has_key(a, k));
            assert(as_map(b).dom().contains(k) == has_key(b, k));
        }
        assert forall|k: Seq<char>| has_key(a0, k) implies a0[index_of(a0, k)].value == b0[index_of(
            b0,
            k,
        )].value by {
            let i = index_of(a0, k);
            let j = index_of(b0, k);
            lemma_entry_in_map(a, i);
            lemma_entry_in_map(b, j);
            assert(a0[i].key == k && b0[j].key == k);
            assert(as_map(a)[k] == as_map(b)[k]);
        }
        assert(as_map(a0) =~= as_map(b0));
        lemma_sorted_is_canonical(a0, b0);
        assert(a =~= a0.push(a[la]));
        assert(b =~= b0.push(b[lb]));
        assert(a[la] == b[lb]);
    }
}

/// Without its last variable, a sorted sequence has all its names but the last.
proof fn lemma_drop_last_key(vars: Seq<EnvVarView>, k: Seq<char>)
    requires
        sorted(vars),
        vars.len() > 0,
    ensures
        has_key(vars.drop_last(), k) <==> (has_key(vars, k) && k != vars.last().key),
{
    let v0 = vars.drop_last();
    let l = vars.len() - 1;
    if has_key(v0, k) {
        let i = index_of(v0, k);
        assert(vars[i].key == k);
        assert(lex_lt(vars[i].key, vars[l].key));
        lemma_lex_lt_irreflexive(k);
    }
    if has_key(vars, k) && k != vars.last().key {
        let i = index_of(vars, k);
        assert(v0[i].key == k);
    }
}

/// The one sorted sequence that holds the variables of `m`.
pub open spec fn sorted_vars(m: Map<Seq<char>, Seq<char>>) -> Seq<EnvVarView> {
    choose|vars: Seq<EnvVarView>| sorted(vars) && as_map(vars) == m
}

/// A sorted sequence is the one that holds its own map.
pub proof fn lemma_sorted_vars(vars: Seq<EnvVarView>)
    requires
        sorted(vars),
    ensures
        sorted_vars(as_map(vars)) == vars,
{
    let chosen = sorted_vars(as_map(vars));
    assert(sorted(vars) && as_map(vars) == as_map(vars));
    lemma_sorted_is_canonical(chosen, vars);
}

/// The variables of `base` and, for each name that `base` lacks, the variable
/// of `layer`.
pub open spec fn filled(base: Seq<EnvVarView>, layer: Seq<EnvVarView>) -> Seq<EnvVarView> {
    sorted_vars(as_map(layer).union_prefer_right(as_map(base)))
}

/// The environment variables of a manifest.
#[derive(Debug)]
pub struct Env {
    pub entries: Vec<EnvVar>,
}

impl DeepView for Env {
    type V = Seq<EnvVarView>;

    open spec fn deep_view(&self) -> Seq<EnvVarView> {
        self.entries.deep_view()
    }
}

impl Clone for Env {
    fn clone(&self) -> (r: Self)
        ensures
            r.deep_view() == self.deep_view(),
    {
        let r = Env { entries: self.entries.clone() };
        assert(r.entries.deep_view() =~= self.entries.deep_view());
        r
    }
}

impl Default for Env {
    fn default() -> (r: Self)
        ensures
            r.deep_view() == Seq::<EnvVarView>::empty(),
            r.wf(),
    {
        Env::new()
    }
}

impl Env {
    /// The names stand in strictly rising order, so none occurs twice.
    pub open spec fn wf(&self) -> bool {
        sorted(self.deep_view())
    }

    /// The variables as a map from name to value.
    pub open spec fn map(&self) -> Map<Seq<char>, Seq<char>> {
        as_map(self.deep_view())
    }

    /// An environment without variables.
    pub fn new() -> (r: Self)
        ensures
            r.deep_view() == Seq::<EnvVarView>::empty(),
            r.wf(),
            r.map() == Map::<Seq<char>, Seq<char>>::empty(),
    {
        let r = Env { entries: Vec::new() };
        assert(r.deep_view() =~= Seq::<EnvVarView>::empty());
        assert(r.map() =~= Map::<Seq<char>, Seq<char>>::empty());
        r
    }

    /// How many variables there are.
    pub fn len(&self) -> (r: usize)
        ensures
            r == self.deep_view().len(),
    {
        self.entries.len()
    }

    /// Tells whether there is no variable.
    pub fn is_empty(&self) -> (r: bool)
        ensures
            r == (self.deep_view().len() == 0),
    {
        self.entries.len() == 0
    }

    /// Where `key` stands, or would stand: the index of the first variable
    /// whose name does not come before it, and whether that name is `key`.
    fn position(&self, key: &Vec<char>) -> (r: (usize, bool))
        requires
            self.wf(),
        ensures
            r.0 <= self.deep_view().len(),
            forall|j: int| 0 <= j < r.0 ==> lex_lt(#[trigger] self.deep_view()[j].key, key@),
            r.1 ==> r.0 < self.deep_view().len() && self.deep_view()[r.0 as int].key == key@,
            !r.1 ==> forall|j: int|
                r.0 <= j < self.deep_view().len() ==> lex_lt(key@, #[trigger] self.deep_view()[j].key),
            r.1 == has_key(self.deep_view(), key@),
    {
        let ghost vars = self.deep_view();
        let mut i: usize = 0;
        while i < self.entries.len()
            invariant
                i <= vars.len(),
                vars == self.deep_view(),
                vars.len() == self.entries@.len(),
                sorted(vars),
                forall|j: int| 0 <= j < i ==> lex_lt(#[trigger] vars[j].key, key@),
            decreases vars.len() - i,
        {
            let name: Vec<char> = chars_of(self.entries[i].key.as_str());
            assert(name@ == vars[i as int].key);
            if !comes_before(&name, key) {
                let found: bool = same_text(&name, key);
                proof {
                    lemma_lex_lt_total(name@, key@);
                    if !found {
                        assert forall|j: int| i <= j < vars.len() implies lex_lt(
                            key@,
                            #[trigger] vars[j].key,
                        ) by {
                            if i < j {
                                assert(lex_lt(vars[i as int].key, vars[j].key));
                                lemma_lex_lt_transitive(key@, name@, vars[j].key);
                            }
                        }
                        assert(!has_key(vars, key@)) by {
                            if has_key(vars, key@) {
                                let w = index_of(vars, key@);
                                lemma_lex_lt_irreflexive(key@);
                                if w < i {
                                    assert(lex_lt(vars[w].key, key@));
                                } else {
                                    assert(lex_lt(key@, vars[w].key));
                                }
                            }
                        }
                    }
                }
                return (i, found);
            }
            i = i + 1;
        }
        proof {
            assert(!has_key(vars, key@)) by {
                if has_key(vars, key@) {
                    let w = index_of(vars, key@);
                    lemma_lex_lt_irreflexive(key@);
                    assert(lex_lt(vars[w].key, key@));
                }
            }
        }
        (i, false)
    }

    /// Tells whether a variable of this name exists.
    pub fn contains_key(&self, key: &str) -> (r: bool)
        requires
            self.wf(),
        ensures
            r == self.map().dom().contains(key@),
    {
        let name: Vec<char> = chars_of(key);
        let p: (usize, bool) = self.position(&name);
        p.1
    }

    /// The value of the variable `key`, if there is one.
    pub fn get(&self, key: &str) -> (r: Option<&String>)
        requires
            self.wf(),
        ensures
            r is Some <==> self.map().dom().contains(key@),
            r is Some ==> r->0@ == self.map()[key@],
    {
        let name: Vec<char> = chars_of(key);
        let p: (usize, bool) = self.position(&name);
        if p.1 {
            proof {
                lemma_entry_in_map(self.deep_view(), p.0 as int);
            }
            Some(&self.entries[p.0].value)
        } else {
            None
        }
    }

    /// Sets the variable `key` to `value`, whether or not it had a value.
    pub fn insert(&mut self, key: String, value: String)
        requires
            old(self).wf(),
        ensures
            final(self).wf(),
            final(self).map() == old(self).map().insert(key@, value@),
    {
        let name: Vec<char> = chars_of(key.as_str());
        let p: (usize, bool) = self.position(&name);
        let ghost before = self.deep_view();
        let ghost added = EnvVarView { key: key@, value: value@ };
        if p.1 {
            self.entries[p.0] = EnvVar { key, value };
            proof {
                let after = self.deep_view();
                assert(after =~= before.update(p.0 as int, added));
                lemma_update_map(before, p.0 as int, value@);
            }
        } else {
            self.entries.insert(p.0, EnvVar { key, value });
            proof {
                let after = self.deep_view();
                assert(after =~= before.insert(p.0 as int, added));
                lemma_insert_map(before, p.0 as int, added);
            }
        }
    }

    /// Gives the variable `key` the value `value` unless it has one already.
    pub fn or_insert(&mut self, key: String, value: String)
        requires
            old(self).wf(),
        ensures
            final(self).wf(),
            final(self).map() == if old(self).map().dom().contains(key@) {
                old(self).map()
            } else {
                old(self).map().insert(key@, value@)
            },
            old(self).map().dom().contains(key@) ==> final(self).deep_view() == old(
                self,
            ).deep_view(),
    {
        let name: Vec<char> = chars_of(key.as_str());
        let p: (usize, bool) = self.position(&name);
        let ghost before = self.deep_view();
        let ghost added = EnvVarView { key: key@, value: value@ };
        if !p.1 {
            self.entries.insert(p.0, EnvVar { key, value });
            proof {
                let after = self.deep_view();
                assert(after =~= before.insert(p.0 as int, added));
                lemma_insert_map(before, p.0 as int, added);
            }
        }
    }

    /// Takes every variable of `layer` that this environment lacks. A variable
    /// that it has keeps its value.
    pub fn fill_from(&mut self, layer: &Env)
        requires
            old(self).wf(),
            layer.wf(),
        ensures
            final(self).wf(),
            final(self).map() == layer.map().union_prefer_right(old(self).map()),
            final(self).deep_view() == filled(old(self).deep_view(), layer.deep_view()),
    {
        let ghost base = self.map();
        let ghost extra = layer.deep_view();
        let mut i: usize = 0;
        assert(self.map() =~= as_map(extra.take(0)).union_prefer_right(base)) by {
            assert(as_map(extra.take(0)) =~= Map::<Seq<char>, Seq<char>>::empty());
        }
        while i < layer.entries.len()
            invariant
                i <= extra.len(),
                extra == layer.deep_view(),
                extra.len() == layer.entries@.len(),
                sorted(extra),
                self.wf(),
                self.map() == as_map(extra.take(i as int)).union_prefer_right(base),
            decreases extra.len() - i,
        {
            let key: String = layer.entries[i].key.clone();
            let value: String = layer.entries[i].value.clone();
            proof {
                lemma_take_push_map(extra, i as int);
            }
            let ghost now = self.map();
            self.or_insert(key, value);
            i = i + 1;
            assert(self.map() =~= as_map(extra.take(i as int)).union_prefer_right(base));
        }
        assert(extra.take(i as int) =~= extra);
        proof {
            lemma_sorted_vars(self.deep_view());
        }
    }

    /// Tells whether the names stand in strictly rising order.
    pub fn is_sorted(&self) -> (r: bool)
        ensures
            r == self.wf(),
    {
        let ghost vars = self.deep_view();
        if self.entries.len() < 2 {
            return true;
        }
        let mut i: usize = 1;
        let mut last: Vec<char> = chars_of(self.entries[0].key.as_str());
        while i < self.entries.len()
            invariant
                1 <= i <= vars.len(),
                vars == self.deep_view(),
                vars.len() == self.entries@.len(),
                last@ == vars[i - 1].key,
                sorted(vars.take(i as int)),
            decreases vars.len() - i,
        {
            let next: Vec<char> = chars_of(self.entries[i].key.as_str());
            if !comes_before(&last, &next) {
                assert(!sorted(vars)) by {
                    if sorted(vars) {
                        assert(lex_lt(vars[i - 1].key, vars[i as int].key));
                    }
                }
                return false;
            }
            proof {
                let head = vars.take(i + 1);
                assert forall|a: int, b: int| 0 <= a < b < head.len() implies lex_lt(
                    #[trigger] head[a].key,
                    #[trigger] head[b].key,
                ) by {
                    if b < i {
                        assert(lex_lt(vars.take(i as int)[a].key, vars.take(i as int)[b].key));
                    } else if a < i - 1 {
                        assert(lex_lt(vars.take(i as int)[a].key, vars.take(i as int)[i - 1].key));
                        lemma_lex_lt_transitive(vars[a].key, vars[i - 1].key, vars[i as int].key);
                    }
                }
            }
            last = next;
            i = i + 1;
        }
        assert(vars.take(i as int) =~= vars);
        true
    }
}

/// Putting a new value at an index changes the map at that name only.
proof fn lemma_update_map(vars: Seq<EnvVarView>, i: int, value: Seq<char>)
    requires
        sorted(vars),
        0 <= i < vars.len(),
    ensures
        sorted(vars.update(i, EnvVarView { key: vars[i].key, value })),
        as_map(vars.update(i, EnvVarView { key: vars[i].key, value })) == as_map(vars).insert(
            vars[i].key,
            value,
        ),
{
    let after = vars.update(i, EnvVarView { key: vars[i].key, value });
    assert(sorted(after)) by {
        assert forall|a: int, b: int| 0 <= a < b < after.len() implies lex_lt(
            #[trigger] after[a].key,
            #[trigger] after[b].key,
        ) by {
            assert(lex_lt(vars[a].key, vars[b].key));
        }
    }
    let target = as_map(vars).insert(vars[i].key, value);
    assert forall|k: Seq<char>| has_key(after, k) <==> target.dom().contains(k) by {
        if has_key(after, k) {
            let j = index_of(after, k);
            assert(vars[j].key == k);
        }
        if has_key(vars, k) {
            let j = index_of(vars, k);
            assert(after[j].key == k);
        }
        if k == vars[i].key {
            assert(after[i].key == k);
        }
    }
    assert forall|k: Seq<char>| has_key(after, k) implies as_map(after)[k] == target[k] by {
        let j = index_of(after, k);
        lemma_entry_in_map(after, j);
        lemma_entry_in_map(vars, j);
        lemma_entry_in_map(vars, i);
    }
    assert(as_map(after) =~= target);
}

/// Putting a variable with a new name where it belongs gives the map one more
/// entry.
proof fn lemma_insert_map(vars: Seq<EnvVarView>, p: int, added: EnvVarView)
    requires
        sorted(vars),
        0 <= p <= vars.len(),
        forall|j: int| 0 <= j < p ==> lex_lt(#[trigger] vars[j].key, added.key),
        forall|j: int| p <= j < vars.len() ==> lex_lt(added.key, #[trigger] vars[j].key),
    ensures
        sorted(vars.insert(p, added)),
        as_map(vars.insert(p, added)) == as_map(vars).insert(added.key, added.value),
{
    let after = vars.insert(p, added);
    assert(sorted(after)) by {
        assert forall|a: int, b: int| 0 <= a < b < after.len() implies lex_lt(
            #[trigger] after[a].key,
            #[trigger] after[b].key,
        ) by {
            if b < p {
                assert(lex_lt(vars[a].key, vars[b].key));
            } else if b == p {
                assert(lex_lt(vars[a].key, added.key));
            } else if a < p {
                assert(lex_lt(vars[a].key, added.key));
                assert(lex_lt(added.key, vars[b - 1].key));
                lemma_lex_lt_transitive(vars[a].key, added.key, vars[b - 1].key);
            } else if a == p {
                assert(lex_lt(added.key, vars[b - 1].key));
            } else {
                assert(lex_lt(vars[a - 1].key, vars[b - 1].key));
            }
        }
    }
    let target = as_map(vars).insert(added.key, added.value);
    assert forall|k: Seq<char>| has_key(after, k) <==> target.dom().contains(k) by {
        if has_key(after, k) {
            let j = index_of(after, k);
            if j < p {
                assert(vars[j].key == k);
            } else if j > p {
                assert(vars[j - 1].key == k);
            }
        }
        if has_key(vars, k) {
            let j = index_of(vars, k);
            if j < p {
                assert(after[j].key == k);
            } else {
                assert(after[j + 1].key == k);
            }
        }
        if k == added.key {
            assert(after[p].key == k);
        }
    }
    assert forall|k: Seq<char>| has_key(after, k) implies as_map(after)[k] == target[k] by {
        let j = index_of(after, k);
        lemma_entry_in_map(after, j);
        lemma_lex_lt_irreflexive(added.key);
        if j < p {
            lemma_entry_in_map(vars, j);
            assert(lex_lt(vars[j].key, added.key));
        } else if j > p {
            lemma_entry_in_map(vars, j - 1);
            assert(lex_lt(added.key, vars[j - 1].key));
        }
    }
    assert(as_map(after) =~= target);
}

/// The map of the first `i + 1` variables is that of the first `i` with the
/// next one added, whose name none of them has.
proof fn lemma_take_push_map(vars: Seq<EnvVarView>, i: int)
    requires
        sorted(vars),
        0 <= i < vars.len(),
    ensures
        as_map(vars.take(i + 1)) == as_map(vars.take(i)).insert(vars[i].key, vars[i].value),
        !as_map(vars.take(i)).dom().contains(vars[i].key),
{
    let head = vars.take(i);
    assert(sorted(head)) by {
        assert forall|a: int, b: int| 0 <= a < b < head.len() implies lex_lt(
            #[trigger] head[a].key,
            #[trigger] head[b].key,
        ) by {
            assert(lex_lt(vars[a].key, vars[b].key));
        }
    }
    assert forall|j: int| 0 <= j < i implies lex_lt(#[trigger] head[j].key, vars[i].key) by {
        assert(lex_lt(vars[j].key, vars[i].key));
    }
    lemma_insert_map(head, i, vars[i]);
    assert(head.insert(i, vars[i]) =~= vars.take(i + 1));
    if has_key(head, vars[i].key) {
        let w = index_of(head, vars[i].key);
        assert(lex_lt(head[w].key, vars[i].key));
        lemma_lex_lt_irreflexive(vars[i].key);
    }
}

/// A name that a sorted sequence lacks has its place there: all that stand
/// before it are less, all that stand after it are greater.
pub proof fn lemma_place_exists(vars: Seq<EnvVarView>, key: Seq<char>) -> (p: int)
    requires
        sorted(vars),
        !has_key(vars, key),
    ensures
        0 <= p <= vars.len(),
        forall|j: int| 0 <= j < p ==> lex_lt(#[trigger] vars[j].key, key),
        forall|j: int| p <= j < vars.len() ==> lex_lt(key, #[trigger] vars[j].key),
    decreases vars.len(),
{
    if vars.len() == 0 {
        0
    } else {
        let l = vars.len() - 1;
        lemma_lex_lt_total(vars[l].key, key);
        assert(vars[l].key != key);
        if lex_lt(vars[l].key, key) {
            assert forall|j: int| 0 <= j < vars.len() implies lex_lt(#[trigger] vars[j].key, key) by {
                if j < l {
                    assert(lex_lt(vars[j].key, vars[l].key));
                    lemma_lex_lt_transitive(vars[j].key, vars[l].key, key);
                }
            }
            vars.len() as int
        } else {
            let head = vars.drop_last();
            assert(sorted(head)) by {
                assert forall|a: int, b: int| 0 <= a < b < head.len() implies lex_lt(
                    #[trigger] head[a].key,
                    #[trigger] head[b].key,
                ) by {
                    assert(lex_lt(vars[a].key, vars[b].key));
                }
            }
            assert(!has_key(head, key)) by {
                if has_key(head, key) {
                    let w = index_of(head, key);
                    assert(vars[w].key == key);
                }
            }
            let p = lemma_place_exists(head, key);
            assert forall|j: int| 0 <= j < p implies lex_lt(#[trigger] vars[j].key, key) by {
                assert(lex_lt(head[j].key, key));
            }
            assert forall|j: int| p <= j < vars.len() implies lex_lt(key, #[trigger] vars[j].key) by {
                if j < l {
                    assert(lex_lt(key, head[j].key));
                }
            }
            p
        }
    }
}

/// Filling a sorted environment from a sorted layer gives a sorted
/// environment, which holds every variable of the base as it was, and of the
/// layer those whose names the base lacks.
pub proof fn lemma_filled(base: Seq<EnvVarView>, layer: Seq<EnvVarView>)
    requires
        sorted(base),
        sorted(layer),
    ensures
        sorted(filled(base, layer)),
        as_map(filled(base, layer)) == as_map(layer).union_prefer_right(as_map(base)),
    decreases layer.len(),
{
    let goal = as_map(layer).union_prefer_right(as_map(base));
    if layer.len() == 0 {
        assert(as_map(layer) =~= Map::<Seq<char>, Seq<char>>::empty());
        assert(goal =~= as_map(base));
        assert(sorted(base) && as_map(base) == goal);
    } else {
        let l = layer.len() - 1;
        let head = layer.take(l);
        lemma_take_push_map(layer, l);
        assert(layer.take(l + 1) =~= layer);
        assert(sorted(head)) by {
            assert forall|a: int, b: int| 0 <= a < b < head.len() implies lex_lt(
                #[trigger] head[a].key,
                #[trigger] head[b].key,
            ) by {
                assert(lex_lt(layer[a].key, layer[b].key));
            }
        }
        lemma_filled(base, head);
        let before = filled(base, head);
        let added = layer[l];
        if has_key(before, added.key) {
            assert(as_map(before) =~= goal);
            assert(sorted(before) && as_map(before) == goal);
        } else {
            let p = lemma_place_exists(before, added.key);
            lemma_insert_map(before, p, added);
            let after = before.insert(p, added);
            assert(!as_map(before).dom().contains(added.key));
            assert(!as_map(base).dom().contains(added.key));
            assert(as_map(after) == as_map(before).insert(added.key, added.value));
            assert(as_map(layer) == as_map(head).insert(added.key, added.value));
            assert(as_map(after) =~= goal);
            assert(sorted(after) && as_map(after) == goal);
        }
    }
}

} // verus!
