//! Column type inference: from the values of a column to the type
//! expression that describes them.

use crate::value::{bool_text, bool_to_string, Value, Values};
use vstd::prelude::*;

verus! {

/// `seen` with `v` behind it, unless `v` is in it already.
pub open spec fn with_value(seen: Seq<Value>, v: Value) -> Seq<Value> {
    if seen.contains(v) {
        seen
    } else {
        seen.push(v)
    }
}

/// The distinct values of a column, each at the place of its first
/// occurrence.
pub open spec fn distinct(values: Seq<Value>) -> Seq<Value>
    decreases values.len(),
{
    if values.len() == 0 {
        Seq::empty()
    } else {
        with_value(distinct(values.drop_last()), values.last())
    }
}

/// A set of values that keeps the order in which they came.
pub struct ValueSet {
    items: Vec<Values>,
}

impl View for ValueSet {
    type V = Seq<Value>;

    closed spec fn view(&self) -> Seq<Value> {
        self.items.deep_view()
    }
}

impl ValueSet {
    #[verifier::type_invariant]
    spec fn no_value_twice(self) -> bool {
        self.items.deep_view().no_duplicates()
    }

    /// The empty set.
    pub fn new() -> (r: ValueSet)
        ensures
            r@ == Seq::<Value>::empty(),
            r@.no_duplicates(),
    {
        let r = ValueSet { items: Vec::new() };
        assert(r.items.deep_view() =~= Seq::<Value>::empty());
        r
    }

    /// The number of values held.
    pub fn len(&self) -> (r: usize)
        ensures
            r == self@.len(),
    {
        self.items.len()
    }

    /// Whether `v` is held.
    pub fn contains(&self, v: &Values) -> (r: bool)
        ensures
            r == self@.contains(v@),
    {
        let mut i: usize = 0;
        while i < self.items.len()
            invariant
                i <= self.items.len(),
                forall|j: int| 0 <= j < i ==> self@[j] != v@,
            decreases self.items.len() - i,
        {
            if self.items[i] == *v {
                assert(self@[i as int] == v@);
                return true;
            }
            i += 1;
        }
        false
    }

    /// Adds `v` unless it is held already, and says whether it was added.
    pub fn insert(&mut self, v: Values) -> (r: bool)
        ensures
            final(self)@ == with_value(old(self)@, v@),
            final(self)@.no_duplicates(),
            r == !old(self)@.contains(v@),
    {
        proof {
            use_type_invariant(&*self);
        }
        if self.contains(&v) {
            false
        } else {
            let ghost before = self.items.deep_view();
            let mut items: Vec<Values> = Vec::new();
            std::mem::swap(&mut items, &mut self.items);
            items.push(v);
            assert(items.deep_view() =~= before.push(v@));
            self.items = items;
            true
        }
    }
}

/// A text between single quotes: the literal type of that text.
pub open spec fn quoted(s: Seq<char>) -> Seq<char> {
    "'"@ + s + "'"@
}

/// The type of a column that holds one value only: the literal type of a
/// text or of a truth value, `number` for any number, `nil` for no value.
pub open spec fn singleton_type(v: Value) -> Seq<char> {
    match v {
        Value::Nil => "nil"@,
        Value::String(s) => quoted(s),
        Value::Number(_) => "number"@,
        Value::Boolean(b) => bool_text(b),
    }
}

/// The literal types of the texts among `d`, in the order of `d`.
pub open spec fn string_literals(d: Seq<Value>) -> Seq<Seq<char>>
    decreases d.len(),
{
    if d.len() == 0 {
        Seq::empty()
    } else {
        match d.last() {
            Value::String(s) => string_literals(d.drop_last()).push(quoted(s)),
            _ => string_literals(d.drop_last()),
        }
    }
}

/// The parts one after another, with `sep` between each two.
pub open spec fn join(parts: Seq<Seq<char>>, sep: Seq<char>) -> Seq<char>
    decreases parts.len(),
{
    if parts.len() == 0 {
        Seq::empty()
    } else if parts.len() == 1 {
        parts[0]
    } else {
        join(parts.drop_last(), sep) + sep + parts.last()
    }
}

/// Whether every value of `d` that is not absent is a text.
pub open spec fn only_strings(d: Seq<Value>) -> bool {
    forall|i: int| 0 <= i < d.len() ==> (#[trigger] d[i]) is String || d[i] is Nil
}

/// Whether every value of `d` that is not absent is a number.
pub open spec fn only_numbers(d: Seq<Value>) -> bool {
    forall|i: int| 0 <= i < d.len() ==> (#[trigger] d[i]) is Number || d[i] is Nil
}

/// Whether every value of `d` that is not absent is a truth value.
pub open spec fn only_booleans(d: Seq<Value>) -> bool {
    forall|i: int| 0 <= i < d.len() ==> (#[trigger] d[i]) is Boolean || d[i] is Nil
}

/// Whether an absent value is among `d`.
pub open spec fn has_nil(d: Seq<Value>) -> bool {
    d.contains(Value::Nil)
}

/// The narrowest primitive type that covers the kinds of value in `d`.
pub open spec fn primitive_type(d: Seq<Value>) -> Seq<char> {
    if only_numbers(d) && !only_booleans(d) {
        "number"@
    } else if only_booleans(d) && !only_numbers(d) {
        "boolean"@
    } else {
        "string"@
    }
}

/// The type expression of a column whose distinct values are `d`, in the
/// order of their first occurrence, and which has `row_count` rows.
///
/// One distinct value gives its singleton type. Texts that repeat (fewer
/// distinct texts than rows, and nothing else but absent values) give the
/// union of their literal types. Anything else gives a primitive type, with
/// `| nil` behind it where a value is absent.
pub open spec fn column_type(d: Seq<Value>, row_count: nat) -> Seq<char> {
    if d.len() == 1 {
        singleton_type(d[0])
    } else if only_strings(d) && string_literals(d).len() < row_count {
        join(string_literals(d), " | "@)
    } else if has_nil(d) {
        primitive_type(d) + " | nil"@
    } else {
        primitive_type(d)
    }
}

/// The type expression inferred for a column from all of its values.
pub open spec fn inferred_type(values: Seq<Value>, row_count: nat) -> Seq<char> {
    column_type(distinct(values), row_count)
}

/// Puts `s` between single quotes.
pub fn quote(s: &str) -> (r: String)
    ensures
        r@ == quoted(s@),
{
    let mut r = String::from_str("'");
    r.append(s);
    r.append("'");
    r
}

fn singleton_type_of(v: &Values) -> (r: String)
    ensures
        r@ == singleton_type(v@),
{
    match v {
        Values::Nil => String::from_str("nil"),
        Values::String(s) => quote(s.as_str()),
        Values::Number(_) => String::from_str("number"),
        Values::Boolean(b) => bool_to_string(*b),
    }
}

fn literal_union(items: &Vec<Values>) -> (r: String)
    ensures
        r@ == join(string_literals(items.deep_view()), " | "@),
{
    let ghost d = items.deep_view();
    let mut out = String::new();
    let mut first = true;
    let mut i: usize = 0;
    while i < items.len()
        invariant
            i <= items.len(),
            d == items.deep_view(),
            first == (string_literals(d.take(i as int)).len() == 0),
            out@ == join(string_literals(d.take(i as int)), " | "@),
        decreases items.len() - i,
    {
        let ghost before = string_literals(d.take(i as int));
        proof {
            assert(d.take(i + 1).drop_last() =~= d.take(i as int));
            assert(d.take(i + 1).last() == d[i as int]);
        }
        match &items[i] {
            Values::String(s) => {
                let literal = quote(s.as_str());
                proof {
                    let after = string_literals(d.take(i + 1));
                    assert(after =~= before.push(literal@));
                    assert(after.drop_last() =~= before);
                }
                if first {
                    out = literal;
                    first = false;
                } else {
                    out.append(" | ");
                    out.append(literal.as_str());
                }
            },
            _ => {},
        }
        i += 1;
    }
    assert(d.take(items.len() as int) =~= d);
    out
}

/// The type expression of a column from the set of its distinct values and
/// the number of its rows.
pub fn determine_type(header_types: &ValueSet, row_count: usize) -> (r: String)
    ensures
        r@ == column_type(header_types@, row_count as nat),
{
    let items = &header_types.items;
    let ghost d = header_types@;
    if items.len() == 1 {
        return singleton_type_of(&items[0]);
    }
    let mut numbers_only = true;
    let mut booleans_only = true;
    let mut strings_only = true;
    let mut nil_seen = false;
    let mut string_count: usize = 0;
    let mut i: usize = 0;
    while i < items.len()
        invariant
            i <= items.len(),
            d == items.deep_view(),
            numbers_only == only_numbers(d.take(i as int)),
            booleans_only == only_booleans(d.take(i as int)),
            strings_only == only_strings(d.take(i as int)),
            nil_seen == has_nil(d.take(i as int)),
            string_count == string_literals(d.take(i as int)).len(),
            string_count <= i,
        decreases items.len() - i,
    {
        let ghost before = d.take(i as int);
        let ghost after = d.take(i + 1);
        proof {
            assert(after.drop_last() =~= before);
            assert(after.last() == d[i as int]);
            assert(forall|j: int| 0 <= j < i ==> before[j] == after[j]);
            assert(after[i as int] == d[i as int]);
            if has_nil(before) {
                let j = choose|j: int| 0 <= j < before.len() && before[j] == Value::Nil;
                assert(after[j] == Value::Nil);
            }
            if has_nil(after) && !(d[i as int] is Nil) {
                let j = choose|j: int| 0 <= j < after.len() && after[j] == Value::Nil;
                assert(before[j] == Value::Nil);
            }
        }
        match &items[i] {
            Values::Number(_) => {
                strings_only = false;
                booleans_only = false;
            },
            Values::Boolean(_) => {
                strings_only = false;
                numbers_only = false;
            },
            Values::String(_) => {
                numbers_only = false;
                booleans_only = false;
                string_count += 1;
            },
            Values::Nil => {
                nil_seen = true;
            },
        }
        i += 1;
    }
    assert(d.take(items.len() as int) =~= d);
    if strings_only && string_count < row_count {
        literal_union(items)
    } else {
        let mut header_type = if numbers_only && !booleans_only {
            String::from_str("number")
        } else if booleans_only && !numbers_only {
            String::from_str("boolean")
        } else {
            String::from_str("string")
        };
        if nil_seen {
            header_type.append(" | nil");
        }
        header_type
    }
}

/// Infers the type expression of a column from all of its values.
pub fn infer(values: &Vec<Values>, row_count: usize) -> (r: String)
    ensures
        r@ == inferred_type(values.deep_view(), row_count as nat),
{
    let ghost vs = values.deep_view();
    let mut set = ValueSet::new();
    let mut i: usize = 0;
    while i < values.len()
        invariant
            i <= values.len(),
            vs == values.deep_view(),
            set@ == distinct(vs.take(i as int)),
        decreases values.len() - i,
    {
        proof {
            assert(vs.take(i + 1).drop_last() =~= vs.take(i as int));
            assert(vs.take(i + 1).last() == vs[i as int]);
        }
        set.insert(values[i].clone());
        i += 1;
    }
    assert(vs.take(values.len() as int) =~= vs);
    determine_type(&set, row_count)
}

/// Adding a value to the distinct ones adds it to what they contain, and
/// nothing else.
pub proof fn lemma_with_value_contains(seen: Seq<Value>, v: Value, x: Value)
    ensures
        with_value(seen, v).contains(x) <==> seen.contains(x) || x == v,
{
    if seen.contains(v) {
    } else {
        let next = seen.push(v);
        if next.contains(x) {
            let i = choose|i: int| 0 <= i < next.len() && next[i] == x;
            if i < seen.len() {
                assert(seen[i] == x);
            }
        }
        if seen.contains(x) {
            let i = choose|i: int| 0 <= i < seen.len() && seen[i] == x;
            assert(next[i] == x);
        }
        if x == v {
            assert(next[seen.len() as int] == x);
        }
    }
}

/// The distinct values of a column are the values that occur in it.
pub proof fn lemma_distinct_contains(values: Seq<Value>, x: Value)
    ensures
        distinct(values).contains(x) <==> values.contains(x),
    decreases values.len(),
{
    if values.len() > 0 {
        let init = values.drop_last();
        lemma_distinct_contains(init, x);
        lemma_with_value_contains(distinct(init), values.last(), x);
        if values.contains(x) {
            let i = choose|i: int| 0 <= i < values.len() && values[i] == x;
            if i < init.len() {
                assert(init[i] == x);
            }
        }
        if init.contains(x) {
            let i = choose|i: int| 0 <= i < init.len() && init[i] == x;
            assert(values[i] == x);
        }
        if x == values.last() {
            assert(values[values.len() - 1] == x);
        }
    }
}

/// No value occurs twice among the distinct values of a column.
pub proof fn law_distinct_no_duplicates(values: Seq<Value>)
    ensures
        distinct(values).no_duplicates(),
    decreases values.len(),
{
    if values.len() > 0 {
        law_distinct_no_duplicates(values.drop_last());
    }
}

/// A column in which every value equals the first has that one distinct
/// value.
pub proof fn lemma_distinct_of_constant(values: Seq<Value>)
    requires
        values.len() > 0,
        forall|i: int| 0 <= i < values.len() ==> #[trigger] values[i] == values[0],
    ensures
        distinct(values) == seq![values[0]],
    decreases values.len(),
{
    let init = values.drop_last();
    if init.len() == 0 {
        assert(distinct(init) =~= Seq::<Value>::empty());
        assert(distinct(values) =~= seq![values[0]]);
    } else {
        assert(forall|i: int| 0 <= i < init.len() ==> #[trigger] init[i] == values[i]);
        lemma_distinct_of_constant(init);
        assert(init[0] == values[0]);
        assert(seq![values[0]][0] == values.last());
    }
}

/// Singleton rule: a column in which every value is the same has the
/// singleton type of that value, whatever the number of rows.
pub proof fn law_singleton(values: Seq<Value>, row_count: nat)
    requires
        values.len() > 0,
        forall|i: int| 0 <= i < values.len() ==> #[trigger] values[i] == values[0],
    ensures
        inferred_type(values, row_count) == singleton_type(values[0]),
{
    lemma_distinct_of_constant(values);
}

/// Nil widening: a column of numbers and absent values that holds at least
/// one of each has the type `number | nil`.
pub proof fn law_nil_widening(values: Seq<Value>, row_count: nat)
    requires
        forall|i: int| 0 <= i < values.len() ==> (#[trigger] values[i]) is Number || values[i] is Nil,
        exists|i: int| 0 <= i < values.len() && (#[trigger] values[i]) is Number,
        exists|i: int| 0 <= i < values.len() && (#[trigger] values[i]) is Nil,
    ensures
        inferred_type(values, row_count) == "number | nil"@,
{
    let d = distinct(values);
    let n = choose|i: int| 0 <= i < values.len() && (#[trigger] values[i]) is Number;
    let e = choose|i: int| 0 <= i < values.len() && (#[trigger] values[i]) is Nil;
    lemma_distinct_contains(values, values[n]);
    lemma_distinct_contains(values, values[e]);
    lemma_distinct_contains(values, Value::Nil);
    assert(values[e] == Value::Nil);
    let dn = choose|i: int| 0 <= i < d.len() && d[i] == values[n];
    let de = choose|i: int| 0 <= i < d.len() && d[i] == values[e];
    assert(dn != de);
    assert(d.len() != 1);
    assert(!only_strings(d)) by {
        assert(d[dn] is Number);
    }
    assert(!only_booleans(d)) by {
        assert(d[dn] is Number);
    }
    assert(only_numbers(d)) by {
        assert forall|i: int| 0 <= i < d.len() implies (#[trigger] d[i]) is Number || d[i] is Nil by {
            lemma_distinct_contains(values, d[i]);
            let j = choose|j: int| 0 <= j < values.len() && values[j] == d[i];
            assert(values[j] is Number || values[j] is Nil);
        }
    }
    reveal_strlit("number | nil");
    reveal_strlit("number");
    reveal_strlit(" | nil");
    assert("number"@ + " | nil"@ =~= "number | nil"@);
}

/// A column in which no value occurs twice has all of its values as its
/// distinct values.
pub proof fn lemma_distinct_of_distinct(values: Seq<Value>)
    requires
        values.no_duplicates(),
    ensures
        distinct(values) == values,
    decreases values.len(),
{
    if values.len() > 0 {
        let init = values.drop_last();
        lemma_distinct_of_distinct(init);
        if init.contains(values.last()) {
            let i = choose|i: int| 0 <= i < init.len() && init[i] == values.last();
            assert(values[i] == values[values.len() - 1]);
        }
        assert(init.push(values.last()) =~= values);
    } else {
        assert(distinct(values) =~= values);
    }
}

/// Where every value is a text, there are as many literal types as values.
pub proof fn lemma_string_literals_len(d: Seq<Value>)
    requires
        forall|i: int| 0 <= i < d.len() ==> (#[trigger] d[i]) is String,
    ensures
        string_literals(d).len() == d.len(),
    decreases d.len(),
{
    if d.len() > 0 {
        let init = d.drop_last();
        assert forall|i: int| 0 <= i < init.len() implies (#[trigger] init[i]) is String by {
            assert(init[i] == d[i]);
        }
        lemma_string_literals_len(init);
        assert(d[d.len() - 1] is String);
    }
}

/// Free text: a column of two or more texts, none of which occurs twice,
/// with no more rows than texts, has the type `string`.
pub proof fn law_free_text(values: Seq<Value>, row_count: nat)
    requires
        values.len() >= 2,
        values.no_duplicates(),
        forall|i: int| 0 <= i < values.len() ==> (#[trigger] values[i]) is String,
        row_count <= values.len(),
    ensures
        inferred_type(values, row_count) == "string"@,
{
    lemma_distinct_of_distinct(values);
    lemma_string_literals_len(values);
    assert(!only_numbers(values)) by {
        assert(values[0] is String);
    }
    assert(!only_booleans(values)) by {
        assert(values[0] is String);
    }
    if has_nil(values) {
        let i = choose|i: int| 0 <= i < values.len() && values[i] == Value::Nil;
        assert(values[i] is String);
    }
}

/// Enumeration: a column of texts with two or more distinct texts, and
/// fewer of them than rows, has the union of their literal types, in the
/// order of their first occurrence.
pub proof fn law_enumeration(values: Seq<Value>, row_count: nat)
    requires
        forall|i: int| 0 <= i < values.len() ==> (#[trigger] values[i]) is String,
        distinct(values).len() >= 2,
        distinct(values).len() < row_count,
    ensures
        inferred_type(values, row_count) == join(string_literals(distinct(values)), " | "@),
{
    let d = distinct(values);
    assert forall|i: int| 0 <= i < d.len() implies (#[trigger] d[i]) is String by {
        lemma_distinct_contains(values, d[i]);
        let j = choose|j: int| 0 <= j < values.len() && values[j] == d[i];
        assert(values[j] is String);
    }
    lemma_string_literals_len(d);
}

/// Determinism: the inferred type depends on nothing but the values of the
/// column and the number of rows.
pub proof fn law_infer_deterministic(a: Vec<Values>, b: Vec<Values>, row_count: nat)
    requires
        a.deep_view() == b.deep_view(),
    ensures
        inferred_type(a.deep_view(), row_count) == inferred_type(b.deep_view(), row_count),
{
}

} // verus!
