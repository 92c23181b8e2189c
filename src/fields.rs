//! HTTP header fields: an ordered multimap from names to byte-string values.
//!
//! Names compare without regard to ASCII case, as HTTP field names do.
use vstd::prelude::*;
use vstd::string::StrSliceExecFns;

verus! {

/// One entry of a field collection, in the form a spec can talk about.
pub type FieldView = (Seq<char>, Seq<u8>);

/// The lower-case form of an ASCII letter; every other character is kept.
pub open spec fn ascii_lower(c: char) -> char {
    if 'A' <= c && c <= 'Z' {
        ((c as u8) + 32) as char
    } else {
        c
    }
}

/// Two field names are the same name when they agree up to ASCII case.
pub open spec fn same_name(a: Seq<char>, b: Seq<char>) -> bool {
    &&& a.len() == b.len()
    &&& forall|i: int| 0 <= i < a.len() ==> ascii_lower(#[trigger] a[i]) == ascii_lower(b[i])
}

/// The test for entries under `name`.
pub open spec fn named(name: Seq<char>) -> spec_fn(FieldView) -> bool {
    |e: FieldView| same_name(e.0, name)
}

/// The test for entries under any other name.
pub open spec fn not_named(name: Seq<char>) -> spec_fn(FieldView) -> bool {
    |e: FieldView| !same_name(e.0, name)
}

/// The values of a run of entries, in order.
pub open spec fn value_parts(f: Seq<FieldView>) -> Seq<Seq<u8>> {
    f.map_values(|e: FieldView| e.1)
}

/// Entries that store each of `values` under `name`.
pub open spec fn under(name: Seq<char>, values: Seq<Seq<u8>>) -> Seq<FieldView> {
    values.map_values(|v: Seq<u8>| (name, v))
}

/// The contents of a list of byte strings.
pub open spec fn bytes_view(v: Seq<Vec<u8>>) -> Seq<Seq<u8>> {
    v.map_values(|b: Vec<u8>| b@)
}

/// The contents of a list of entries.
pub open spec fn entries_view(v: Seq<Field>) -> Seq<FieldView> {
    v.map_values(|e: Field| e@)
}

/// The values stored under `name`, in order.
pub open spec fn values_of(f: Seq<FieldView>, name: Seq<char>) -> Seq<Seq<u8>> {
    value_parts(f.filter(named(name)))
}

/// The entries whose name is not `name`, in order.
pub open spec fn without(f: Seq<FieldView>, name: Seq<char>) -> Seq<FieldView> {
    f.filter(not_named(name))
}

/// The collection after every entry under `name` is dropped and `values` are
/// appended under that name.
pub open spec fn replaced(f: Seq<FieldView>, name: Seq<char>, values: Seq<Seq<u8>>) -> Seq<
    FieldView,
> {
    without(f, name) + under(name, values)
}

fn lower_char(c: char) -> (r: char)
    ensures
        r == ascii_lower(c),
{
    if 'A' <= c && c <= 'Z' {
        ((c as u8) + 32) as char
    } else {
        c
    }
}

/// Whether `a` and `b` name the same field.
pub fn names_match(a: &str, b: &str) -> (r: bool)
    ensures
        r == same_name(a@, b@),
{
    let n = a.unicode_len();
    if n != b.unicode_len() {
        return false;
    }
    let mut i: usize = 0;
    while i < n
        invariant
            n == a@.len(),
            n == b@.len(),
            i <= n,
            forall|j: int| 0 <= j < i ==> ascii_lower(#[trigger] a@[j]) == ascii_lower(b@[j]),
        decreases n - i,
    {
        if lower_char(a.get_char(i)) != lower_char(b.get_char(i)) {
            return false;
        }
        i = i + 1;
    }
    true
}

/// A single field entry.
#[derive(Clone, Debug, PartialEq, Eq)]
pub struct Field {
    pub name: String,
    pub value: Vec<u8>,
}

impl View for Field {
    type V = FieldView;

    open spec fn view(&self) -> FieldView {
        (self.name@, self.value@)
    }
}

/// An ordered collection of field entries; a name may occur any number of times.
#[derive(Clone, Debug, PartialEq, Eq)]
pub struct Fields {
    pub entries: Vec<Field>,
}

impl View for Fields {
    type V = Seq<FieldView>;

    open spec fn view(&self) -> Seq<FieldView> {
        entries_view(self.entries@)
    }
}

proof fn lemma_value_parts_push(f: Seq<FieldView>, e: FieldView)
    ensures
        value_parts(f.push(e)) == value_parts(f).push(e.1),
{
    assert(value_parts(f.push(e)) =~= value_parts(f).push(e.1));
}

proof fn lemma_bytes_view_push(b: Seq<Vec<u8>>, v: Vec<u8>)
    ensures
        bytes_view(b.push(v)) == bytes_view(b).push(v@),
{
    assert(bytes_view(b.push(v)) =~= bytes_view(b).push(v@));
}

proof fn lemma_entries_view_push(es: Seq<Field>, x: Field)
    ensures
        entries_view(es.push(x)) == entries_view(es).push(x@),
{
    assert(entries_view(es.push(x)) =~= entries_view(es).push(x@));
}

proof fn lemma_under_push(name: Seq<char>, vals: Seq<Seq<u8>>, w: Seq<u8>)
    ensures
        under(name, vals.push(w)) == under(name, vals).push((name, w)),
{
    assert(under(name, vals.push(w)) =~= under(name, vals).push((name, w)));
}

fn copy_bytes(v: &Vec<u8>) -> (r: Vec<u8>)
    ensures
        r@ == v@,
{
    let mut r: Vec<u8> = Vec::new();
    let mut i: usize = 0;
    while i < v.len()
        invariant
            i <= v@.len(),
            r@ == v@.take(i as int),
        decreases v@.len() - i,
    {
        r.push(v[i]);
        i = i + 1;
        assert(r@ =~= v@.take(i as int));
    }
    assert(v@.take(v@.len() as int) =~= v@);
    r
}

impl Fields {
    /// An empty collection.
    pub fn new() -> (r: Fields)
        ensures
            r@ == Seq::<FieldView>::empty(),
    {
        let r = Fields { entries: Vec::new() };
        assert(r@ =~= Seq::<FieldView>::empty());
        r
    }

    /// Adds one entry at the end.
    pub fn append(&mut self, name: String, value: Vec<u8>)
        ensures
            final(self)@ == old(self)@.push((name@, value@)),
    {
        let ghost before = self@;
        self.entries.push(Field { name, value });
        assert(self@ =~= before.push((name@, value@)));
    }

    /// Number of entries.
    pub fn len(&self) -> (r: usize)
        ensures
            r == self@.len(),
    {
        self.entries.len()
    }

    /// Every value stored under `name`, in order of insertion.
    pub fn get(&self, name: &str) -> (r: Vec<Vec<u8>>)
        ensures
            bytes_view(r@) == values_of(self@, name@),
    {
        let mut r: Vec<Vec<u8>> = Vec::new();
        let mut i: usize = 0;
        while i < self.entries.len()
            invariant
                i <= self@.len(),
                self@.len() == self.entries@.len(),
                bytes_view(r@) == values_of(self@.take(i as int), name@),
            decreases self@.len() - i,
        {
            let ghost done = self@.take(i as int);
            let ghost x = self@[i as int];
            let ghost before = r@;
            proof {
                assert(self@.take(i + 1) =~= done.push(x));
                done.lemma_filter_push(x, named(name@));
            }
            let e = &self.entries[i];
            if names_match(e.name.as_str(), name) {
                r.push(copy_bytes(&e.value));
                proof {
                    lemma_value_parts_push(done.filter(named(name@)), x);
                    lemma_bytes_view_push(before, r@.last());
                    assert(r@ == before.push(r@.last()));
                }
            }
            i = i + 1;
        }
        assert(self@.take(self@.len() as int) =~= self@);
        r
    }

    /// Drops every entry under `name`, then appends `values` under that name.
    pub fn set(&mut self, name: &String, values: Vec<Vec<u8>>)
        ensures
            final(self)@ == replaced(old(self)@, name@, bytes_view(values@)),
    {
        let ghost orig = self@;
        let mut kept: Vec<Field> = Vec::new();
        let mut old_entries: Vec<Field> = Vec::new();
        std::mem::swap(&mut old_entries, &mut self.entries);
        let mut i: usize = 0;
        while i < old_entries.len()
            invariant
                i <= orig.len(),
                orig == entries_view(old_entries@),
                entries_view(kept@) == without(orig.take(i as int), name@),
            decreases orig.len() - i,
        {
            let ghost done = orig.take(i as int);
            let ghost x = orig[i as int];
            let ghost before = kept@;
            proof {
                assert(orig.take(i + 1) =~= done.push(x));
                done.lemma_filter_push(x, not_named(name@));
            }
            let e = &old_entries[i];
            if !names_match(e.name.as_str(), name.as_str()) {
                kept.push(Field { name: e.name.clone(), value: copy_bytes(&e.value) });
                proof {
                    lemma_entries_view_push(before, kept@.last());
                    assert(kept@ == before.push(kept@.last()));
                }
            }
            i = i + 1;
        }
        assert(orig.take(orig.len() as int) =~= orig);
        let ghost head = entries_view(kept@);
        let ghost vals = bytes_view(values@);
        let mut j: usize = 0;
        while j < values.len()
            invariant
                j <= values@.len(),
                vals == bytes_view(values@),
                head == without(orig, name@),
                entries_view(kept@) == head + under(name@, vals.take(j as int)),
            decreases values@.len() - j,
        {
            let ghost before = kept@;
            kept.push(Field { name: name.clone(), value: copy_bytes(&values[j]) });
            proof {
                lemma_entries_view_push(before, kept@.last());
                lemma_under_push(name@, vals.take(j as int), vals[j as int]);
                assert(kept@ == before.push(kept@.last()));
                assert(vals.take(j + 1) =~= vals.take(j as int).push(vals[j as int]));
            }
            j = j + 1;
        }
        assert(vals.take(vals.len() as int) =~= vals);
        self.entries = kept;
    }
}

proof fn lemma_filter_push_last<A>(s: Seq<A>, x: A, p: spec_fn(A) -> bool)
    ensures
        s.push(x).filter(p) == (if p(x) {
            s.filter(p).push(x)
        } else {
            s.filter(p)
        }),
{
    reveal(Seq::filter);
    assert(s.push(x).drop_last() =~= s);
}

proof fn lemma_filter_none<A>(s: Seq<A>, p: spec_fn(A) -> bool)
    requires
        forall|i: int| 0 <= i < s.len() ==> !p(#[trigger] s[i]),
    ensures
        s.filter(p) == Seq::<A>::empty(),
    decreases s.len(),
{
    reveal(Seq::filter);
    if s.len() > 0 {
        lemma_filter_none(s.drop_last(), p);
        assert(!p(s[s.len() - 1]));
    }
}

proof fn lemma_filter_all<A>(s: Seq<A>, p: spec_fn(A) -> bool)
    requires
        forall|i: int| 0 <= i < s.len() ==> p(#[trigger] s[i]),
    ensures
        s.filter(p) == s,
    decreases s.len(),
{
    reveal(Seq::filter);
    if s.len() > 0 {
        lemma_filter_all(s.drop_last(), p);
        assert(p(s[s.len() - 1]));
        assert(s.drop_last().push(s.last()) =~= s);
    }
}

/// Filtering by `q` first changes nothing when `p` implies `q`; nothing is
/// left when `p` excludes `q`.
proof fn lemma_filter_twice<A>(s: Seq<A>, q: spec_fn(A) -> bool, p: spec_fn(A) -> bool)
    ensures
        (forall|x: A| #[trigger] p(x) ==> q(x)) ==> s.filter(q).filter(p) == s.filter(p),
        (forall|x: A| #[trigger] p(x) ==> !q(x)) ==> s.filter(q).filter(p) == Seq::<A>::empty(),
    decreases s.len(),
{
    reveal(Seq::filter);
    if s.len() > 0 {
        let t = s.drop_last();
        let x = s.last();
        lemma_filter_twice(t, q, p);
        if q(x) {
            lemma_filter_push_last(t.filter(q), x, p);
        }
    }
}

proof fn lemma_same_name_facts(a: Seq<char>, b: Seq<char>, c: Seq<char>)
    ensures
        same_name(a, a),
        same_name(a, b) ==> same_name(b, a),
        same_name(a, b) && same_name(a, c) ==> same_name(b, c),
{
    if same_name(a, b) && same_name(a, c) {
        assert forall|i: int| 0 <= i < b.len() implies ascii_lower(#[trigger] b[i]) == ascii_lower(
            c[i],
        ) by {
            assert(ascii_lower(a[i]) == ascii_lower(b[i]));
        }
    }
    if same_name(a, b) {
        assert forall|i: int| 0 <= i < b.len() implies ascii_lower(#[trigger] b[i]) == ascii_lower(
            a[i],
        ) by {
            assert(ascii_lower(a[i]) == ascii_lower(b[i]));
        }
    }
}

/// Setting a name to a single value leaves exactly one entry under that
/// name, holding that value, whatever stood under the name before.
pub proof fn lemma_set_single_value(f: Seq<FieldView>, name: Seq<char>, v: Seq<u8>)
    ensures
        replaced(f, name, seq![v]).filter(named(name)) == seq![(name, v)],
        values_of(replaced(f, name, seq![v]), name) == seq![v],
{
    let tail = under(name, seq![v]);
    assert(tail =~= seq![(name, v)]);
    Seq::filter_distributes_over_add(without(f, name), tail, named(name));
    lemma_filter_twice(f, not_named(name), named(name));
    lemma_same_name_facts(name, name, name);
    lemma_filter_all(tail, named(name));
    assert(Seq::<FieldView>::empty() + tail =~= tail);
    assert(value_parts(seq![(name, v)]) =~= seq![v]);
}

/// Setting a name leaves the entries under every other name as they were,
/// in the same order.
pub proof fn lemma_set_keeps_rest(f: Seq<FieldView>, name: Seq<char>, values: Seq<Seq<u8>>)
    ensures
        without(replaced(f, name, values), name) == without(f, name),
{
    let head = without(f, name);
    let tail = under(name, values);
    lemma_same_name_facts(name, name, name);
    assert forall|i: int| 0 <= i < tail.len() implies !not_named(name)(#[trigger] tail[i]) by {}
    Seq::filter_distributes_over_add(head, tail, not_named(name));
    lemma_filter_twice(f, not_named(name), not_named(name));
    lemma_filter_none(tail, not_named(name));
    assert(head + Seq::<FieldView>::empty() =~= head);
}

/// Setting a name leaves the values under any other name as they were.
pub proof fn lemma_set_keeps_others(
    f: Seq<FieldView>,
    name: Seq<char>,
    values: Seq<Seq<u8>>,
    other: Seq<char>,
)
    requires
        !same_name(other, name),
    ensures
        values_of(replaced(f, name, values), other) == values_of(f, other),
{
    let head = without(f, name);
    let tail = under(name, values);
    assert forall|x: FieldView| #[trigger] named(other)(x) implies not_named(name)(x) by {
        lemma_same_name_facts(x.0, other, name);
    }
    assert forall|i: int| 0 <= i < tail.len() implies !named(other)(#[trigger] tail[i]) by {
        lemma_same_name_facts(name, other, name);
    }
    Seq::filter_distributes_over_add(head, tail, named(other));
    lemma_filter_twice(f, not_named(name), named(other));
    lemma_filter_none(tail, named(other));
    assert(f.filter(named(other)) + Seq::<FieldView>::empty() =~= f.filter(named(other)));
}

} // verus!
