//! The order in which violations are shown: by path, then by line, then by
//! severity.

use vstd::prelude::*;
use crate::domain::violations::{count_of, Severity, ValidationReport, Violation};
use crate::numerals::{decimal, decimal_text, digit_char};
use crate::ordering::{
    holds, indices, is_permutation, lemma_stable_order_ascends, lemma_stable_order_is_permutation,
    lemma_stable_order_len, lemma_stable_order_once, lemma_stable_order_stably_sorted,
    lemma_text_le_reflexive, order_by_key, placed, stable_order, text_le,
};
use crate::report::human::{key_of_path, path_key};
use crate::text::append;
use crate::textlines::texts;

verus! {

/// The violations at the given positions, in the order of the positions.
pub open spec fn arranged(vs: Seq<Violation>, order: Seq<int>) -> Seq<Violation> {
    Seq::new(order.len(), |k: int| vs[order[k]])
}

/// The key that orders violations by severity.
pub open spec fn severity_key(v: Violation) -> Seq<char> {
    seq![digit_char(v.severity.level())]
}

/// That many zeros.
pub open spec fn zeros(n: int) -> Seq<char>
    decreases n,
{
    if n <= 0 {
        Seq::<char>::empty()
    } else {
        zeros(n - 1).push('0')
    }
}

/// The key that orders violations by line: the line number, or zero when there
/// is none, in ten digits.
pub open spec fn line_key(v: Violation) -> Seq<char> {
    let digits = decimal(
        match v.line_number {
            Some(l) => l as nat,
            None => 0,
        },
    );
    zeros(10 - digits.len()) + digits
}

/// The key that orders violations by path.
pub open spec fn file_key(v: Violation) -> Seq<char> {
    path_key(v.file_path@)
}

/// Violations in the stable order of their keys.
pub open spec fn ordered_by(vs: Seq<Violation>, key: spec_fn(Violation) -> Seq<char>) -> Seq<
    Violation,
> {
    arranged(vs, stable_order(vs.map_values(key), vs.len()))
}

/// Violations in the order in which they are shown: by path; within a path by
/// line; within a line by severity; and otherwise as they were.
pub open spec fn display_order(vs: Seq<Violation>) -> Seq<Violation> {
    ordered_by(
        ordered_by(ordered_by(vs, |v: Violation| severity_key(v)), |v: Violation| line_key(v)),
        |v: Violation| file_key(v),
    )
}

/// How many of the violations at the given positions have the given severity.
pub open spec fn hits(vs: Seq<Violation>, order: Seq<int>, severity: Severity) -> nat
    decreases order.len(),
{
    if order.len() == 0 {
        0
    } else {
        hits(vs, order.drop_last(), severity) + (if vs[order.last()].severity == severity {
            1nat
        } else {
            0nat
        })
    }
}

proof fn lemma_hits_placed(
    vs: Seq<Violation>,
    keys: Seq<Seq<char>>,
    order: Seq<int>,
    x: int,
    severity: Severity,
)
    ensures
        hits(vs, placed(keys, order, x), severity) == hits(vs, order, severity) + (if vs[x].severity
            == severity {
            1nat
        } else {
            0nat
        }),
    decreases order.len(),
{
    let after = placed(keys, order, x);
    if order.len() == 0 {
        assert(after.drop_last() =~= order);
        assert(after.last() == x);
    } else if crate::ordering::text_le(keys[order.last()], keys[x]) {
        assert(after.drop_last() =~= order);
        assert(after.last() == x);
    } else {
        lemma_hits_placed(vs, keys, order.drop_last(), x, severity);
        let inner = placed(keys, order.drop_last(), x);
        assert(after.drop_last() =~= inner);
        assert(after.last() == order.last());
    }
}

proof fn lemma_hits_of_stable_order(
    vs: Seq<Violation>,
    keys: Seq<Seq<char>>,
    n: nat,
    severity: Severity,
)
    requires
        n <= vs.len(),
    ensures
        hits(vs, stable_order(keys, n), severity) == count_of(vs.take(n as int), severity),
    decreases n,
{
    if n > 0 {
        lemma_hits_of_stable_order(vs, keys, (n - 1) as nat, severity);
        lemma_hits_placed(vs, keys, stable_order(keys, (n - 1) as nat), n - 1, severity);
        assert(vs.take(n as int).drop_last() =~= vs.take(n - 1));
        assert(vs.take(n as int).last() == vs[n - 1]);
    }
}

proof fn lemma_count_of_arranged(vs: Seq<Violation>, order: Seq<int>, severity: Severity)
    ensures
        count_of(arranged(vs, order), severity) == hits(vs, order, severity),
    decreases order.len(),
{
    if order.len() > 0 {
        lemma_count_of_arranged(vs, order.drop_last(), severity);
        assert(arranged(vs, order).drop_last() =~= arranged(vs, order.drop_last()));
        assert(arranged(vs, order).last() == vs[order.last()]);
    }
}

/// Ordering violations by a key changes no count: as many violations of each
/// severity as before.
pub proof fn lemma_ordering_keeps_counts(
    vs: Seq<Violation>,
    key: spec_fn(Violation) -> Seq<char>,
    severity: Severity,
)
    ensures
        count_of(ordered_by(vs, key), severity) == count_of(vs, severity),
        ordered_by(vs, key).len() == vs.len(),
{
    let keys = vs.map_values(key);
    let order = stable_order(keys, vs.len());
    lemma_count_of_arranged(vs, order, severity);
    lemma_hits_of_stable_order(vs, keys, vs.len(), severity);
    assert(vs.take(vs.len() as int) =~= vs);
    lemma_stable_order_len(keys, vs.len());
}

/// Violations ordered by a key ascend by that key: the key of each comes
/// before the key of the next, or equals it.
pub proof fn lemma_ordering_ascends(vs: Seq<Violation>, key: spec_fn(Violation) -> Seq<char>)
    ensures
        ordered_by(vs, key).len() == vs.len(),
        forall|k: int|
            0 <= k < vs.len() - 1 ==> text_le(
                key(#[trigger] ordered_by(vs, key)[k]),
                key(ordered_by(vs, key)[k + 1]),
            ),
{
    let keys = vs.map_values(key);
    let order = stable_order(keys, vs.len());
    lemma_stable_order_len(keys, vs.len());
    lemma_stable_order_ascends(keys, vs.len());
    lemma_stable_order_once(keys, vs.len(), 0);
    assert forall|k: int| 0 <= k < vs.len() - 1 implies text_le(
        key(#[trigger] ordered_by(vs, key)[k]),
        key(ordered_by(vs, key)[k + 1]),
    ) by {
        assert(0 <= order[k] < vs.len());
        assert(0 <= order[k + 1] < vs.len());
        assert(keys[order[k]] == key(vs[order[k]]));
        assert(keys[order[k + 1]] == key(vs[order[k + 1]]));
        assert(text_le(keys[order[k]], keys[order[k + 1]]));
    }
}

/// In display order the paths ascend, part by part.
pub proof fn lemma_display_order_ascends_by_path(vs: Seq<Violation>)
    ensures
        display_order(vs).len() == vs.len(),
        forall|k: int|
            0 <= k < vs.len() - 1 ==> text_le(
                file_key(#[trigger] display_order(vs)[k]),
                file_key(display_order(vs)[k + 1]),
            ),
{
    let by_severity = ordered_by(vs, |v: Violation| severity_key(v));
    let by_line = ordered_by(by_severity, |v: Violation| line_key(v));
    lemma_ordering_ascends(vs, |v: Violation| severity_key(v));
    lemma_ordering_ascends(by_severity, |v: Violation| line_key(v));
    lemma_ordering_ascends(by_line, |v: Violation| file_key(v));
}

/// Whether `a` may stand before `b` in display order: its path comes first;
/// or the paths are the same and its line comes first, no line counting as
/// line zero; or paths and lines are the same and its severity is not the
/// greater one.
pub open spec fn may_precede(a: Violation, b: Violation) -> bool {
    if file_key(a) != file_key(b) {
        text_le(file_key(a), file_key(b))
    } else if line_key(a) != line_key(b) {
        text_le(line_key(a), line_key(b))
    } else {
        text_le(severity_key(a), severity_key(b))
    }
}

/// Whether two violations have the same path, line and severity, as far as
/// the display order looks at them.
pub open spec fn same_rank(a: Violation, b: Violation) -> bool {
    file_key(a) == file_key(b) && line_key(a) == line_key(b) && severity_key(a)
        == severity_key(b)
}

/// The positions of an order as seen through another: at each place of
/// `outer`, the position that `inner` holds at the place that `outer` names.
pub open spec fn through(inner: Seq<int>, outer: Seq<int>) -> Seq<int> {
    Seq::new(outer.len(), |k: int| inner[outer[k]])
}

/// For each place of the display order, the position that its violation had
/// before.
pub open spec fn display_positions(vs: Seq<Violation>) -> Seq<int> {
    let by_severity = ordered_by(vs, |v: Violation| severity_key(v));
    let by_line = ordered_by(by_severity, |v: Violation| line_key(v));
    let first = stable_order(vs.map_values(|v: Violation| severity_key(v)), vs.len());
    let second = stable_order(by_severity.map_values(|v: Violation| line_key(v)), vs.len());
    let third = stable_order(by_line.map_values(|v: Violation| file_key(v)), vs.len());
    through(first, through(second, third))
}

proof fn lemma_through_is_permutation(inner: Seq<int>, outer: Seq<int>, n: int)
    requires
        is_permutation(inner, n),
        is_permutation(outer, n),
    ensures
        is_permutation(through(inner, outer), n),
{
    let b = through(inner, outer);
    assert forall|k: int, l: int| 0 <= k < l < n implies #[trigger] b[k] != #[trigger] b[l] by {
        assert(outer[k] != outer[l]);
        if outer[k] < outer[l] {
            assert(inner[outer[k]] != inner[outer[l]]);
        } else {
            assert(inner[outer[l]] != inner[outer[k]]);
        }
    }
    assert forall|x: int| 0 <= x < n implies #[trigger] holds(b, x) by {
        assert(holds(inner, x));
        let p = choose|p: int| 0 <= p < inner.len() && #[trigger] inner[p] == x;
        assert(holds(outer, p));
        let k = choose|k: int| 0 <= k < outer.len() && #[trigger] outer[k] == p;
        assert(b[k] == x);
    }
}

proof fn lemma_ordered_by_stably(vs: Seq<Violation>, key: spec_fn(Violation) -> Seq<char>)
    ensures
        ({
            let order = stable_order(vs.map_values(key), vs.len());
            &&& is_permutation(order, vs.len() as int)
            &&& ordered_by(vs, key).len() == vs.len()
            &&& forall|k: int|
                0 <= k < vs.len() ==> (#[trigger] ordered_by(vs, key)[k]) == vs[order[k]]
            &&& forall|k: int, l: int|
                0 <= k < l < vs.len() ==> text_le(
                    key(vs[#[trigger] order[k]]),
                    key(vs[#[trigger] order[l]]),
                ) && (key(vs[order[k]]) == key(vs[order[l]]) ==> order[k] < order[l])
        }),
{
    let keys = vs.map_values(key);
    let order = stable_order(keys, vs.len());
    lemma_stable_order_is_permutation(keys, vs.len());
    lemma_stable_order_stably_sorted(keys, vs.len());
    assert forall|k: int, l: int| 0 <= k < l < vs.len() implies text_le(
        key(vs[#[trigger] order[k]]),
        key(vs[#[trigger] order[l]]),
    ) && (key(vs[order[k]]) == key(vs[order[l]]) ==> order[k] < order[l]) by {
        assert(keys[order[k]] == key(vs[order[k]]));
        assert(keys[order[l]] == key(vs[order[l]]));
        assert(text_le(keys[order[k]], keys[order[l]]));
        if key(vs[order[k]]) == key(vs[order[l]]) {
            lemma_text_le_reflexive(keys[order[k]]);
        }
    }
}

/// The display order is a stable sort. It holds the violations that were
/// there, each once; of two places, the violation at the earlier may stand
/// before the one at the later by path, then line, then severity; and
/// violations that are alike in all three keep the order that they had.
pub proof fn lemma_display_order_is_a_stable_sort(vs: Seq<Violation>)
    ensures
        display_order(vs).len() == vs.len(),
        is_permutation(display_positions(vs), vs.len() as int),
        forall|k: int|
            0 <= k < vs.len() ==> (#[trigger] display_order(vs)[k]) == vs[display_positions(vs)[k]],
        forall|k: int, l: int|
            0 <= k < l < vs.len() ==> may_precede(
                #[trigger] display_order(vs)[k],
                #[trigger] display_order(vs)[l],
            ),
        forall|k: int, l: int|
            0 <= k < l < vs.len() && same_rank(
                #[trigger] display_order(vs)[k],
                #[trigger] display_order(vs)[l],
            ) ==> display_positions(vs)[k] < display_positions(vs)[l],
{
    let n = vs.len() as int;
    let by_severity = ordered_by(vs, |v: Violation| severity_key(v));
    let by_line = ordered_by(by_severity, |v: Violation| line_key(v));
    let out = display_order(vs);
    let first = stable_order(vs.map_values(|v: Violation| severity_key(v)), vs.len());
    let second = stable_order(by_severity.map_values(|v: Violation| line_key(v)), vs.len());
    let third = stable_order(by_line.map_values(|v: Violation| file_key(v)), vs.len());
    lemma_ordered_by_stably(vs, |v: Violation| severity_key(v));
    lemma_ordered_by_stably(by_severity, |v: Violation| line_key(v));
    lemma_ordered_by_stably(by_line, |v: Violation| file_key(v));
    lemma_through_is_permutation(second, third, n);
    lemma_through_is_permutation(first, through(second, third), n);
    let from = display_positions(vs);
    assert forall|k: int| 0 <= k < n implies (#[trigger] out[k]) == vs[from[k]] by {
        assert(out[k] == by_line[third[k]]);
        assert(by_line[third[k]] == by_severity[second[third[k]]]);
        assert(by_severity[second[third[k]]] == vs[first[second[third[k]]]]);
    }
    assert forall|k: int, l: int| 0 <= k < l < n implies may_precede(
        #[trigger] out[k],
        #[trigger] out[l],
    ) && (same_rank(out[k], out[l]) ==> from[k] < from[l]) by {
        let p = third[k];
        let q = third[l];
        assert(out[k] == by_line[p] && out[l] == by_line[q]);
        assert(text_le(file_key(by_line[p]), file_key(by_line[q])));
        if file_key(out[k]) == file_key(out[l]) {
            assert(p < q);
            let r = second[p];
            let t = second[q];
            assert(by_line[p] == by_severity[r] && by_line[q] == by_severity[t]);
            assert(text_le(line_key(by_severity[r]), line_key(by_severity[t])));
            if line_key(out[k]) == line_key(out[l]) {
                assert(r < t);
                assert(by_severity[r] == vs[first[r]] && by_severity[t] == vs[first[t]]);
                assert(text_le(severity_key(vs[first[r]]), severity_key(vs[first[t]])));
                if severity_key(out[k]) == severity_key(out[l]) {
                    assert(first[r] < first[t]);
                }
            }
        }
    }
}

/// Showing violations in display order changes no count.
pub proof fn lemma_display_order_keeps_counts(vs: Seq<Violation>, severity: Severity)
    ensures
        count_of(display_order(vs), severity) == count_of(vs, severity),
        display_order(vs).len() == vs.len(),
{
    let by_severity = ordered_by(vs, |v: Violation| severity_key(v));
    let by_line = ordered_by(by_severity, |v: Violation| line_key(v));
    lemma_ordering_keeps_counts(vs, |v: Violation| severity_key(v), severity);
    lemma_ordering_keeps_counts(by_severity, |v: Violation| line_key(v), severity);
    lemma_ordering_keeps_counts(by_line, |v: Violation| file_key(v), severity);
}

fn key_of_severity(v: &Violation) -> (key: Vec<char>)
    ensures
        key@ == severity_key(*v),
{
    let mut key: Vec<char> = Vec::new();
    key.push(
        match v.severity {
            Severity::Info => '0',
            Severity::Warning => '1',
            Severity::Error => '2',
        },
    );
    assert(key@ =~= severity_key(*v));
    key
}

fn key_of_line(v: &Violation) -> (key: Vec<char>)
    ensures
        key@ == line_key(*v),
{
    let digits = decimal_text(
        match v.line_number {
            Some(l) => l as u64,
            None => 0,
        },
    );
    let pad: usize = if digits.len() < 10 {
        10 - digits.len()
    } else {
        0
    };
    let mut key: Vec<char> = Vec::new();
    let mut n: usize = 0;
    assert(key@ =~= zeros(0));
    while n < pad
        invariant
            n <= pad,
            key@ == zeros(n as int),
        decreases pad - n,
    {
        key.push('0');
        n += 1;
    }
    assert(zeros(pad as int) == zeros(10 - digits@.len()));
    append(&mut key, digits.as_slice());
    key
}

/// The kinds of key.
enum Key {
    Severity,
    Line,
    File,
}

/// The key of a kind for a violation.
spec fn key_for(kind: Key, v: Violation) -> Seq<char> {
    match kind {
        Key::Severity => severity_key(v),
        Key::Line => line_key(v),
        Key::File => file_key(v),
    }
}

fn order_by(vs: &Vec<Violation>, kind: Key) -> (out: Vec<Violation>)
    ensures
        out@ == ordered_by(vs@, |v: Violation| key_for(kind, v)),
{
    let ghost key = |v: Violation| key_for(kind, v);
    let mut keys: Vec<Vec<char>> = Vec::new();
    let mut i: usize = 0;
    while i < vs.len()
        invariant
            i <= vs.len(),
            key == (|v: Violation| key_for(kind, v)),
            texts(keys@) == vs@.map_values(key).take(i as int),
        decreases vs.len() - i,
    {
        let k = match kind {
            Key::Severity => key_of_severity(&vs[i]),
            Key::Line => key_of_line(&vs[i]),
            Key::File => key_of_path(vs[i].file_path.as_str()),
        };
        assert(vs@.map_values(key)[i as int] == k@);
        assert(texts(keys@.push(k)) =~= texts(keys@).push(k@));
        assert(vs@.map_values(key).take(i + 1) =~= vs@.map_values(key).take(i as int).push(k@));
        keys.push(k);
        i += 1;
    }
    assert(vs@.map_values(key).take(vs@.len() as int) =~= vs@.map_values(key));
    let order = order_by_key(&keys);
    let ghost spec_order = stable_order(vs@.map_values(key), vs@.len());
    let mut out: Vec<Violation> = Vec::new();
    let mut n: usize = 0;
    while n < order.len()
        invariant
            n <= order.len(),
            order@.len() == vs@.len(),
            indices(order@) == spec_order,
            forall|j: int| 0 <= j < order@.len() ==> (#[trigger] order@[j]) < vs@.len(),
            out@ == arranged(vs@, spec_order.take(n as int)),
        decreases order.len() - n,
    {
        assert(spec_order[n as int] == order@[n as int]);
        let copy = vs[order[n]].duplicate();
        out.push(copy);
        assert(out@ =~= arranged(vs@, spec_order.take(n + 1)));
        n += 1;
    }
    assert(spec_order.len() == order@.len());
    assert(spec_order.take(spec_order.len() as int) =~= spec_order);
    out
}

impl ValidationReport {
    /// Puts the violations in display order: by path, then by line, then by
    /// severity. Counts and everything else stay as they are.
    pub fn sort_violations(&mut self)
        ensures
            final(self).violations@ == display_order(old(self).violations@),
            final(self).summary == old(self).summary,
            final(self).config_fingerprint == old(self).config_fingerprint,
            old(self).wf() ==> final(self).wf(),
    {
        let by_severity = order_by(&self.violations, Key::Severity);
        let by_line = order_by(&by_severity, Key::Line);
        let by_file = order_by(&by_line, Key::File);
        proof {
            assert((|v: Violation| key_for(Key::Severity, v)) =~= (|v: Violation| severity_key(v)));
            assert((|v: Violation| key_for(Key::Line, v)) =~= (|v: Violation| line_key(v)));
            assert((|v: Violation| key_for(Key::File, v)) =~= (|v: Violation| file_key(v)));
            lemma_display_order_keeps_counts(self.violations@, Severity::Error);
            lemma_display_order_keeps_counts(self.violations@, Severity::Warning);
            lemma_display_order_keeps_counts(self.violations@, Severity::Info);
        }
        self.violations = by_file;
    }
}

} // verus!
