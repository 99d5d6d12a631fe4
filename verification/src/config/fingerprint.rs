//! The configuration fingerprint: a digest of the rule set and the path patterns.
//! Categories are taken in the order of their names and rules in the order of
//! their identifiers.

use std::collections::hash_map::DefaultHasher;
use std::hash::Hasher;
use vstd::prelude::*;
use vstd::std_specs::hash::DefaultHasherAdditionalSpecFns;
use vstd::utf8::encode_utf8;
use crate::config::{
    opt_exclude, rule_views, CategoryView, ConfigView, ExcludeConditions, ExcludeView,
    GuardianConfig, PatternRule, RuleType, RuleView,
};
use crate::domain::violations::Severity;
use crate::numerals::{hex_text, hexadecimal};
use crate::ordering::{
    distinct_keys, indices, is_permutation, lemma_stable_order_is_permutation,
    lemma_stable_order_len, lemma_stable_order_of_rearranged, lemma_stable_order_once,
    occurrences, order_by_key, rearranged_keys, stable_order,
};
use crate::text::{chars_of, string_of};
use crate::textlines::{string_texts, texts};

verus! {

/// The `width` low bytes of `n`, lowest first.
pub open spec fn le_bytes(n: nat, width: nat) -> Seq<u8>
    decreases width,
{
    if width == 0 {
        Seq::<u8>::empty()
    } else {
        seq![(n % 256) as u8] + le_bytes(n / 256, (width - 1) as nat)
    }
}

/// What a text feeds to the hasher: its UTF-8 bytes, then one byte `0xff`.
pub open spec fn text_writes(s: Seq<char>) -> Seq<Seq<u8>> {
    seq![encode_utf8(s), seq![0xffu8]]
}

/// What a number feeds to the hasher: eight bytes, lowest first.
pub open spec fn number_writes(n: nat) -> Seq<Seq<u8>> {
    seq![le_bytes(n, 8)]
}

/// What a flag feeds to the hasher: one byte.
pub open spec fn flag_writes(b: bool) -> Seq<Seq<u8>> {
    seq![seq![if b { 1u8 } else { 0u8 }]]
}

/// What an optional text feeds to the hasher: whether it is there, then the text.
pub open spec fn optional_writes(o: Option<Seq<char>>) -> Seq<Seq<u8>> {
    match o {
        Some(s) => number_writes(1) + text_writes(s),
        None => number_writes(0),
    }
}

/// What the first `n` texts of a list feed to the hasher.
pub open spec fn texts_writes(list: Seq<Seq<char>>, n: int) -> Seq<Seq<u8>>
    decreases n,
{
    if n <= 0 {
        Seq::<Seq<u8>>::empty()
    } else {
        texts_writes(list, n - 1) + text_writes(list[n - 1])
    }
}

/// The number that stands for a way of reading a pattern.
pub open spec fn kind_number(t: RuleType) -> nat {
    match t {
        RuleType::Regex => 0,
        RuleType::Ast => 1,
        RuleType::Semantic => 2,
        RuleType::ImportAnalysis => 3,
    }
}

/// What an optional severity feeds to the hasher: whether it is there, then
/// its level.
pub open spec fn severity_writes(o: Option<Severity>) -> Seq<Seq<u8>> {
    match o {
        Some(s) => number_writes(1) + number_writes(s.level()),
        None => number_writes(0),
    }
}

/// What an optional list of texts feeds to the hasher: whether it is there,
/// then the number of texts and the texts.
pub open spec fn optional_texts_writes(o: Option<Seq<Seq<char>>>) -> Seq<Seq<u8>> {
    match o {
        Some(list) => number_writes(1) + number_writes(list.len()) + texts_writes(
            list,
            list.len() as int,
        ),
        None => number_writes(0),
    }
}

/// What optional exclusion conditions feed to the hasher: whether they are
/// there, then the attribute marker, the flag for test files and the file
/// patterns.
pub open spec fn exclusion_writes(o: Option<ExcludeView>) -> Seq<Seq<u8>> {
    match o {
        Some(c) => number_writes(1) + optional_writes(c.attribute) + flag_writes(c.in_tests)
            + optional_texts_writes(c.file_patterns),
        None => number_writes(0),
    }
}

/// What a rule feeds to the hasher: every field of it.
pub open spec fn rule_writes(r: RuleView) -> Seq<Seq<u8>> {
    text_writes(r.id) + number_writes(kind_number(r.rule_type)) + text_writes(r.pattern)
        + text_writes(r.message) + severity_writes(r.severity) + flag_writes(r.enabled)
        + flag_writes(r.case_sensitive) + exclusion_writes(r.exclude_if)
}

/// What the rules at the first `n` positions of `order` feed to the hasher.
pub open spec fn rules_writes(rules: Seq<RuleView>, order: Seq<int>, n: int) -> Seq<Seq<u8>>
    decreases n,
{
    if n <= 0 {
        Seq::<Seq<u8>>::empty()
    } else {
        rules_writes(rules, order, n - 1) + rule_writes(rules[order[n - 1]])
    }
}

/// The identifiers of a list of rules.
pub open spec fn rule_ids(rules: Seq<RuleView>) -> Seq<Seq<char>> {
    rules.map_values(|r: RuleView| r.id)
}

/// The names of a list of categories.
pub open spec fn category_names(categories: Seq<(Seq<char>, CategoryView)>) -> Seq<Seq<char>> {
    categories.map_values(|c: (Seq<char>, CategoryView)| c.0)
}

/// What a category feeds to the hasher: name, severity, flag, the number of
/// its rules, then its rules in the order of their identifiers.
pub open spec fn category_writes(name: Seq<char>, c: CategoryView) -> Seq<Seq<u8>> {
    text_writes(name) + number_writes(c.severity.level()) + flag_writes(c.enabled) + number_writes(
        c.rules.len(),
    ) + rules_writes(
        c.rules,
        stable_order(rule_ids(c.rules), c.rules.len()),
        c.rules.len() as int,
    )
}

/// What the categories at the first `n` positions of `order` feed to the hasher.
pub open spec fn categories_writes(
    categories: Seq<(Seq<char>, CategoryView)>,
    order: Seq<int>,
    n: int,
) -> Seq<Seq<u8>>
    decreases n,
{
    if n <= 0 {
        Seq::<Seq<u8>>::empty()
    } else {
        categories_writes(categories, order, n - 1) + category_writes(
            categories[order[n - 1]].0,
            categories[order[n - 1]].1,
        )
    }
}

/// Everything a configuration feeds to the hasher: the version, the path
/// patterns with their number, the ignore file name, and the categories with
/// their number, in the order of their names.
pub open spec fn fingerprint_writes(c: ConfigView) -> Seq<Seq<u8>> {
    text_writes(c.version) + number_writes(c.path_patterns.len()) + texts_writes(
        c.path_patterns,
        c.path_patterns.len() as int,
    ) + optional_writes(c.ignore_file) + number_writes(c.categories.len()) + categories_writes(
        c.categories,
        stable_order(category_names(c.categories), c.categories.len()),
        c.categories.len() as int,
    )
}

/// The fingerprint: the hash of what the configuration feeds to the hasher, in
/// lower-case hexadecimal.
pub open spec fn fingerprint_of(c: ConfigView) -> Seq<char> {
    hexadecimal(DefaultHasher::spec_finish(fingerprint_writes(c)) as nat)
}

fn hash_text(h: &mut DefaultHasher, s: &str)
    ensures
        final(h)@ == old(h)@ + text_writes(s@),
{
    h.write(s.as_bytes());
    let mut end: Vec<u8> = Vec::new();
    end.push(0xffu8);
    h.write(end.as_slice());
    assert(end@ =~= seq![0xffu8]);
    assert(h@ =~= old(h)@ + text_writes(s@));
}

fn hash_number(h: &mut DefaultHasher, n: u64)
    ensures
        final(h)@ == old(h)@ + number_writes(n as nat),
{
    let mut bytes: Vec<u8> = Vec::new();
    let mut rest: u64 = n;
    let mut i: usize = 0;
    assert(bytes@ + le_bytes(rest as nat, 8) =~= le_bytes(n as nat, 8));
    while i < 8
        invariant
            i <= 8,
            bytes@ + le_bytes(rest as nat, (8 - i) as nat) == le_bytes(n as nat, 8),
        decreases 8 - i,
    {
        let ghost before = bytes@;
        let low: u8 = (rest % 256) as u8;
        bytes.push(low);
        assert(bytes@ + le_bytes((rest / 256) as nat, (8 - i - 1) as nat) =~= before + le_bytes(
            rest as nat,
            (8 - i) as nat,
        ));
        rest = rest / 256;
        i += 1;
    }
    assert(bytes@ =~= le_bytes(n as nat, 8));
    h.write(bytes.as_slice());
    assert(h@ =~= old(h)@ + number_writes(n as nat));
}

fn hash_flag(h: &mut DefaultHasher, b: bool)
    ensures
        final(h)@ == old(h)@ + flag_writes(b),
{
    let mut byte: Vec<u8> = Vec::new();
    byte.push(if b { 1u8 } else { 0u8 });
    h.write(byte.as_slice());
    assert(byte@ =~= seq![if b { 1u8 } else { 0u8 }]);
    assert(h@ =~= old(h)@ + flag_writes(b));
}

fn hash_optional_text(h: &mut DefaultHasher, o: &Option<String>)
    ensures
        final(h)@ == old(h)@ + optional_writes(crate::domain::violations::opt_text(*o)),
{
    match o {
        Some(s) => {
            hash_number(h, 1);
            hash_text(h, s.as_str());
        },
        None => {
            hash_number(h, 0);
        },
    }
    assert(h@ =~= old(h)@ + optional_writes(crate::domain::violations::opt_text(*o)));
}

fn hash_texts(h: &mut DefaultHasher, list: &Vec<String>)
    ensures
        final(h)@ == old(h)@ + texts_writes(string_texts(list@), list@.len() as int),
{
    let ghost all = string_texts(list@);
    let mut i: usize = 0;
    assert(h@ + texts_writes(all, 0) =~= h@);
    while i < list.len()
        invariant
            i <= list.len(),
            all == string_texts(list@),
            h@ == old(h)@ + texts_writes(all, i as int),
        decreases list.len() - i,
    {
        assert(all[i as int] == list@[i as int]@);
        hash_text(h, list[i].as_str());
        i += 1;
        assert(h@ =~= old(h)@ + texts_writes(all, i as int));
    }
}

fn kind_of(t: RuleType) -> (n: u64)
    ensures
        n == kind_number(t),
{
    match t {
        RuleType::Regex => 0,
        RuleType::Ast => 1,
        RuleType::Semantic => 2,
        RuleType::ImportAnalysis => 3,
    }
}

fn hash_severity(h: &mut DefaultHasher, o: Option<Severity>)
    ensures
        final(h)@ == old(h)@ + severity_writes(o),
{
    match o {
        Some(s) => {
            hash_number(h, 1);
            hash_number(h, s.rank() as u64);
        },
        None => {
            hash_number(h, 0);
        },
    }
    assert(h@ =~= old(h)@ + severity_writes(o));
}

fn hash_exclusion(h: &mut DefaultHasher, o: &Option<ExcludeConditions>)
    ensures
        final(h)@ == old(h)@ + exclusion_writes(opt_exclude(*o)),
{
    match o {
        Some(c) => {
            hash_number(h, 1);
            hash_optional_text(h, &c.attribute);
            hash_flag(h, c.in_tests);
            let ghost before = h@;
            match &c.file_patterns {
                Some(list) => {
                    hash_number(h, 1);
                    hash_number(h, list.len() as u64);
                    hash_texts(h, list);
                    assert(string_texts(list@).len() == list@.len());
                },
                None => {
                    hash_number(h, 0);
                },
            }
            assert(h@ =~= before + optional_texts_writes(c@.file_patterns));
        },
        None => {
            hash_number(h, 0);
        },
    }
    assert(h@ =~= old(h)@ + exclusion_writes(opt_exclude(*o)));
}

fn hash_rule(h: &mut DefaultHasher, rule: &PatternRule)
    ensures
        final(h)@ == old(h)@ + rule_writes(rule@),
{
    hash_text(h, rule.id.as_str());
    hash_number(h, kind_of(rule.rule_type));
    hash_text(h, rule.pattern.as_str());
    hash_text(h, rule.message.as_str());
    hash_severity(h, rule.severity);
    hash_flag(h, rule.enabled);
    hash_flag(h, rule.case_sensitive);
    hash_exclusion(h, &rule.exclude_if);
    assert(h@ =~= old(h)@ + rule_writes(rule@));
}

fn hash_rules(h: &mut DefaultHasher, rules: &Vec<PatternRule>)
    ensures
        final(h)@ == old(h)@ + rules_writes(
            rule_views(rules@),
            stable_order(rule_ids(rule_views(rules@)), rules@.len()),
            rules@.len() as int,
        ),
{
    let ghost views = rule_views(rules@);
    let mut keys: Vec<Vec<char>> = Vec::new();
    let mut i: usize = 0;
    while i < rules.len()
        invariant
            i <= rules.len(),
            views == rule_views(rules@),
            texts(keys@) == rule_ids(views).take(i as int),
        decreases rules.len() - i,
    {
        let key = chars_of(rules[i].id.as_str());
        assert(rule_ids(views)[i as int] == views[i as int].id);
        assert(views[i as int] == rules@[i as int]@);
        assert(texts(keys@.push(key)) =~= texts(keys@).push(key@));
        assert(rule_ids(views).take(i + 1) =~= rule_ids(views).take(i as int).push(key@));
        keys.push(key);
        i += 1;
    }
    assert(texts(keys@) =~= rule_ids(views));
    let order = order_by_key(&keys);
    let ghost spec_order = stable_order(rule_ids(views), rules@.len());
    let mut k: usize = 0;
    assert(h@ + rules_writes(views, spec_order, 0) =~= h@);
    while k < order.len()
        invariant
            k <= order.len(),
            order@.len() == rules@.len(),
            views == rule_views(rules@),
            indices(order@) == spec_order,
            forall|j: int| 0 <= j < order@.len() ==> #[trigger] order@[j] < rules@.len(),
            h@ == old(h)@ + rules_writes(views, spec_order, k as int),
        decreases order.len() - k,
    {
        let at: usize = order[k];
        assert(spec_order[k as int] == at);
        assert(views[at as int] == rules@[at as int]@);
        hash_rule(h, &rules[at]);
        k += 1;
        assert(h@ =~= old(h)@ + rules_writes(views, spec_order, k as int));
    }
}

// ---------------------------------------------------------------------------
// What is fed tells the rule
// ---------------------------------------------------------------------------

proof fn lemma_text_first(s: Seq<char>, t: Seq<char>, ra: Seq<Seq<u8>>, rb: Seq<Seq<u8>>)
    requires
        text_writes(s) + ra == text_writes(t) + rb,
    ensures
        s == t,
        ra == rb,
{
    let x = text_writes(s) + ra;
    let y = text_writes(t) + rb;
    assert(x[0] == encode_utf8(s));
    assert(y[0] == encode_utf8(t));
    vstd::utf8::encode_utf8_decode_utf8(s);
    vstd::utf8::encode_utf8_decode_utf8(t);
    assert(ra =~= x.skip(2));
    assert(rb =~= y.skip(2));
}

proof fn lemma_number_first(n: nat, m: nat, ra: Seq<Seq<u8>>, rb: Seq<Seq<u8>>)
    requires
        n < 256,
        m < 256,
        number_writes(n) + ra == number_writes(m) + rb,
    ensures
        n == m,
        ra == rb,
{
    let x = number_writes(n) + ra;
    let y = number_writes(m) + rb;
    assert(x[0] == le_bytes(n, 8));
    assert(y[0] == le_bytes(m, 8));
    assert(le_bytes(n, 8)[0] == (n % 256) as u8);
    assert(le_bytes(m, 8)[0] == (m % 256) as u8);
    assert(ra =~= x.skip(1));
    assert(rb =~= y.skip(1));
}

proof fn lemma_flag_first(a: bool, b: bool, ra: Seq<Seq<u8>>, rb: Seq<Seq<u8>>)
    requires
        flag_writes(a) + ra == flag_writes(b) + rb,
    ensures
        a == b,
        ra == rb,
{
    let x = flag_writes(a) + ra;
    let y = flag_writes(b) + rb;
    assert(x[0] == seq![if a { 1u8 } else { 0u8 }]);
    assert(y[0] == seq![if b { 1u8 } else { 0u8 }]);
    assert(x[0][0] == (if a { 1u8 } else { 0u8 }));
    assert(y[0][0] == (if b { 1u8 } else { 0u8 }));
    assert(ra =~= x.skip(1));
    assert(rb =~= y.skip(1));
}

proof fn lemma_optional_first(
    o: Option<Seq<char>>,
    p: Option<Seq<char>>,
    ra: Seq<Seq<u8>>,
    rb: Seq<Seq<u8>>,
)
    requires
        optional_writes(o) + ra == optional_writes(p) + rb,
    ensures
        o == p,
        ra == rb,
{
    let na: nat = if o is Some { 1 } else { 0 };
    let nb: nat = if p is Some { 1 } else { 0 };
    let ta = match o {
        Some(s) => text_writes(s) + ra,
        None => ra,
    };
    let tb = match p {
        Some(s) => text_writes(s) + rb,
        None => rb,
    };
    assert(optional_writes(o) + ra =~= number_writes(na) + ta);
    assert(optional_writes(p) + rb =~= number_writes(nb) + tb);
    lemma_number_first(na, nb, ta, tb);
    if o is Some {
        lemma_text_first(o->0, p->0, ra, rb);
    }
}

proof fn lemma_severity_first(
    o: Option<Severity>,
    p: Option<Severity>,
    ra: Seq<Seq<u8>>,
    rb: Seq<Seq<u8>>,
)
    requires
        severity_writes(o) + ra == severity_writes(p) + rb,
    ensures
        o == p,
        ra == rb,
{
    let na: nat = if o is Some { 1 } else { 0 };
    let nb: nat = if p is Some { 1 } else { 0 };
    let ta = match o {
        Some(s) => number_writes(s.level()) + ra,
        None => ra,
    };
    let tb = match p {
        Some(s) => number_writes(s.level()) + rb,
        None => rb,
    };
    assert(severity_writes(o) + ra =~= number_writes(na) + ta);
    assert(severity_writes(p) + rb =~= number_writes(nb) + tb);
    lemma_number_first(na, nb, ta, tb);
    if o is Some {
        lemma_number_first(o->0.level(), p->0.level(), ra, rb);
    }
}

proof fn lemma_texts_writes_len(list: Seq<Seq<char>>, n: int)
    requires
        0 <= n,
    ensures
        texts_writes(list, n).len() == 2 * n,
    decreases n,
{
    if n > 0 {
        lemma_texts_writes_len(list, n - 1);
    }
}

proof fn lemma_texts_tell(p: Seq<Seq<char>>, q: Seq<Seq<char>>, n: int)
    requires
        0 <= n <= p.len(),
        n <= q.len(),
        texts_writes(p, n) == texts_writes(q, n),
    ensures
        forall|i: int| 0 <= i < n ==> p[i] == q[i],
    decreases n,
{
    if n > 0 {
        lemma_texts_writes_len(p, n - 1);
        lemma_texts_writes_len(q, n - 1);
        let x = texts_writes(p, n);
        let y = texts_writes(q, n);
        assert(x.take(2 * (n - 1)) =~= texts_writes(p, n - 1));
        assert(y.take(2 * (n - 1)) =~= texts_writes(q, n - 1));
        assert(x[2 * (n - 1)] == encode_utf8(p[n - 1]));
        assert(y[2 * (n - 1)] == encode_utf8(q[n - 1]));
        vstd::utf8::encode_utf8_decode_utf8(p[n - 1]);
        vstd::utf8::encode_utf8_decode_utf8(q[n - 1]);
        lemma_texts_tell(p, q, n - 1);
    }
}

proof fn lemma_optional_texts_tell(o: Option<Seq<Seq<char>>>, p: Option<Seq<Seq<char>>>)
    requires
        optional_texts_writes(o) == optional_texts_writes(p),
    ensures
        o == p,
{
    let e = Seq::<Seq<u8>>::empty();
    let na: nat = if o is Some { 1 } else { 0 };
    let nb: nat = if p is Some { 1 } else { 0 };
    let ta = match o {
        Some(l) => number_writes(l.len()) + texts_writes(l, l.len() as int),
        None => e,
    };
    let tb = match p {
        Some(l) => number_writes(l.len()) + texts_writes(l, l.len() as int),
        None => e,
    };
    assert(optional_texts_writes(o) =~= number_writes(na) + ta);
    assert(optional_texts_writes(p) =~= number_writes(nb) + tb);
    lemma_number_first(na, nb, ta, tb);
    if o is Some {
        let a = o->0;
        let b = p->0;
        lemma_texts_writes_len(a, a.len() as int);
        lemma_texts_writes_len(b, b.len() as int);
        assert(ta.len() == 1 + 2 * a.len());
        assert(tb.len() == 1 + 2 * b.len());
        assert(texts_writes(a, a.len() as int) =~= ta.skip(1));
        assert(texts_writes(b, b.len() as int) =~= tb.skip(1));
        lemma_texts_tell(a, b, a.len() as int);
        assert(a =~= b);
    }
}

proof fn lemma_exclusion_tells(o: Option<ExcludeView>, p: Option<ExcludeView>)
    requires
        exclusion_writes(o) == exclusion_writes(p),
    ensures
        o == p,
{
    let e = Seq::<Seq<u8>>::empty();
    let na: nat = if o is Some { 1 } else { 0 };
    let nb: nat = if p is Some { 1 } else { 0 };
    let ta = match o {
        Some(c) => optional_writes(c.attribute) + (flag_writes(c.in_tests) + optional_texts_writes(
            c.file_patterns,
        )),
        None => e,
    };
    let tb = match p {
        Some(c) => optional_writes(c.attribute) + (flag_writes(c.in_tests) + optional_texts_writes(
            c.file_patterns,
        )),
        None => e,
    };
    assert(exclusion_writes(o) =~= number_writes(na) + ta);
    assert(exclusion_writes(p) =~= number_writes(nb) + tb);
    lemma_number_first(na, nb, ta, tb);
    if o is Some {
        let a = o->0;
        let b = p->0;
        lemma_optional_first(
            a.attribute,
            b.attribute,
            flag_writes(a.in_tests) + optional_texts_writes(a.file_patterns),
            flag_writes(b.in_tests) + optional_texts_writes(b.file_patterns),
        );
        lemma_flag_first(
            a.in_tests,
            b.in_tests,
            optional_texts_writes(a.file_patterns),
            optional_texts_writes(b.file_patterns),
        );
        lemma_optional_texts_tell(a.file_patterns, b.file_patterns);
    }
}

proof fn lemma_regrouped(x: Seq<Seq<u8>>, y: Seq<Seq<u8>>, z: Seq<Seq<u8>>)
    ensures
        (x + y) + z == x + (y + z),
{
    assert((x + y) + z =~= x + (y + z));
}

/// What a rule feeds to the hasher, grouped from the back.
spec fn rule_writes_from(r: RuleView, part: int) -> Seq<Seq<u8>> {
    if part == 7 {
        exclusion_writes(r.exclude_if)
    } else if part == 6 {
        flag_writes(r.case_sensitive) + exclusion_writes(r.exclude_if)
    } else if part == 5 {
        flag_writes(r.enabled) + (flag_writes(r.case_sensitive) + exclusion_writes(r.exclude_if))
    } else if part == 4 {
        severity_writes(r.severity) + (flag_writes(r.enabled) + (flag_writes(r.case_sensitive)
            + exclusion_writes(r.exclude_if)))
    } else if part == 3 {
        text_writes(r.message) + (severity_writes(r.severity) + (flag_writes(r.enabled) + (
        flag_writes(r.case_sensitive) + exclusion_writes(r.exclude_if))))
    } else if part == 2 {
        text_writes(r.pattern) + (text_writes(r.message) + (severity_writes(r.severity) + (
        flag_writes(r.enabled) + (flag_writes(r.case_sensitive) + exclusion_writes(
            r.exclude_if,
        )))))
    } else {
        number_writes(kind_number(r.rule_type)) + (text_writes(r.pattern) + (text_writes(
            r.message,
        ) + (severity_writes(r.severity) + (flag_writes(r.enabled) + (flag_writes(
            r.case_sensitive,
        ) + exclusion_writes(r.exclude_if))))))
    }
}

proof fn lemma_rule_writes_regrouped(r: RuleView)
    ensures
        rule_writes(r) == text_writes(r.id) + rule_writes_from(r, 1),
{
    let t0 = text_writes(r.id);
    let n1 = number_writes(kind_number(r.rule_type));
    let t2 = text_writes(r.pattern);
    let t3 = text_writes(r.message);
    let s4 = severity_writes(r.severity);
    let f5 = flag_writes(r.enabled);
    let f6 = flag_writes(r.case_sensitive);
    let e7 = exclusion_writes(r.exclude_if);
    lemma_regrouped(t0 + n1 + t2 + t3 + s4 + f5, f6, e7);
    lemma_regrouped(t0 + n1 + t2 + t3 + s4, f5, f6 + e7);
    lemma_regrouped(t0 + n1 + t2 + t3, s4, f5 + (f6 + e7));
    lemma_regrouped(t0 + n1 + t2, t3, s4 + (f5 + (f6 + e7)));
    lemma_regrouped(t0 + n1, t2, t3 + (s4 + (f5 + (f6 + e7))));
    lemma_regrouped(t0, n1, t2 + (t3 + (s4 + (f5 + (f6 + e7)))));
}

/// What a rule feeds to the hasher tells the rule: two rules that differ in
/// any field feed the hasher differently.
pub proof fn lemma_writes_tell_the_rule(a: RuleView, b: RuleView)
    requires
        rule_writes(a) == rule_writes(b),
    ensures
        a == b,
{
    lemma_rule_writes_regrouped(a);
    lemma_rule_writes_regrouped(b);
    lemma_text_first(a.id, b.id, rule_writes_from(a, 1), rule_writes_from(b, 1));
    lemma_number_first(
        kind_number(a.rule_type),
        kind_number(b.rule_type),
        rule_writes_from(a, 2),
        rule_writes_from(b, 2),
    );
    lemma_text_first(a.pattern, b.pattern, rule_writes_from(a, 3), rule_writes_from(b, 3));
    lemma_text_first(a.message, b.message, rule_writes_from(a, 4), rule_writes_from(b, 4));
    lemma_severity_first(a.severity, b.severity, rule_writes_from(a, 5), rule_writes_from(b, 5));
    lemma_flag_first(a.enabled, b.enabled, rule_writes_from(a, 6), rule_writes_from(b, 6));
    lemma_flag_first(
        a.case_sensitive,
        b.case_sensitive,
        rule_writes_from(a, 7),
        rule_writes_from(b, 7),
    );
    lemma_exclusion_tells(a.exclude_if, b.exclude_if);
}

/// The pieces for the positions at the first `n` places of `order`, joined.
spec fn joined_pieces(piece: spec_fn(int) -> Seq<Seq<u8>>, order: Seq<int>, n: int) -> Seq<
    Seq<u8>,
>
    decreases n,
{
    if n <= 0 {
        Seq::<Seq<u8>>::empty()
    } else {
        joined_pieces(piece, order, n - 1) + piece(order[n - 1])
    }
}

proof fn lemma_one_piece_changed(
    f: spec_fn(int) -> Seq<Seq<u8>>,
    g: spec_fn(int) -> Seq<Seq<u8>>,
    i: int,
    m: int,
    order: Seq<int>,
    n: int,
)
    requires
        0 <= n <= order.len(),
        forall|k: int| 0 <= k < order.len() ==> 0 <= #[trigger] order[k] < m,
        forall|j: int| 0 <= j < m && j != i ==> #[trigger] f(j) == g(j),
        f(i) != g(i),
        occurrences(order.take(n), i) <= 1,
    ensures
        occurrences(order.take(n), i) == 0 ==> joined_pieces(f, order, n) == joined_pieces(
            g,
            order,
            n,
        ),
        occurrences(order.take(n), i) == 1 ==> joined_pieces(f, order, n) != joined_pieces(
            g,
            order,
            n,
        ),
    decreases n,
{
    if n > 0 {
        let last = order[n - 1];
        assert(order.take(n).drop_last() =~= order.take(n - 1));
        assert(order.take(n).last() == last);
        lemma_one_piece_changed(f, g, i, m, order, n - 1);
        let a = joined_pieces(f, order, n - 1);
        let b = joined_pieces(g, order, n - 1);
        if last == i {
            if a + f(i) == b + g(i) {
                assert((a + f(i)).skip(a.len() as int) =~= f(i));
                assert((b + g(i)).skip(b.len() as int) =~= g(i));
                assert(false);
            }
        } else {
            assert(f(last) == g(last));
            if occurrences(order.take(n - 1), i) == 1 {
                if a + f(last) == b + g(last) {
                    assert((a + f(last)).len() == a.len() + f(last).len());
                    assert((b + g(last)).len() == b.len() + g(last).len());
                    assert((a + f(last)).take(a.len() as int) =~= a);
                    assert((b + g(last)).take(b.len() as int) =~= b);
                    assert(false);
                }
            }
        }
    }
}

proof fn lemma_rules_writes_joined(rules: Seq<RuleView>, order: Seq<int>, n: int)
    ensures
        rules_writes(rules, order, n) == joined_pieces(|j: int| rule_writes(rules[j]), order, n),
    decreases n,
{
    if n > 0 {
        lemma_rules_writes_joined(rules, order, n - 1);
    }
}

proof fn lemma_categories_writes_joined(
    categories: Seq<(Seq<char>, CategoryView)>,
    order: Seq<int>,
    n: int,
)
    ensures
        categories_writes(categories, order, n) == joined_pieces(
            |j: int| category_writes(categories[j].0, categories[j].1),
            order,
            n,
        ),
    decreases n,
{
    if n > 0 {
        lemma_categories_writes_joined(categories, order, n - 1);
    }
}

/// A category with one of its rules changed; the rule keeps its identifier.
pub open spec fn category_with_rule(c: CategoryView, i: int, rule: RuleView) -> CategoryView {
    CategoryView { rules: c.rules.update(i, rule), ..c }
}

/// A configuration with one rule of one category changed.
pub open spec fn config_with_rule(c: ConfigView, k: int, i: int, rule: RuleView) -> ConfigView {
    ConfigView {
        categories: c.categories.update(
            k,
            (c.categories[k].0, category_with_rule(c.categories[k].1, i, rule)),
        ),
        ..c
    }
}

proof fn lemma_changed_rule_in_category(name: Seq<char>, c: CategoryView, i: int, rule: RuleView)
    requires
        0 <= i < c.rules.len(),
        rule.id == c.rules[i].id,
        rule != c.rules[i],
    ensures
        category_writes(name, c) != category_writes(name, category_with_rule(c, i, rule)),
{
    let rules = c.rules;
    let after = rules.update(i, rule);
    let n = rules.len();
    assert(rule_ids(after) =~= rule_ids(rules));
    let order = stable_order(rule_ids(rules), n);
    lemma_stable_order_once(rule_ids(rules), n, i);
    lemma_stable_order_len(rule_ids(rules), n);
    assert(order.take(n as int) =~= order);
    if rule_writes(rules[i]) == rule_writes(rule) {
        lemma_writes_tell_the_rule(rules[i], rule);
    }
    let f = |j: int| rule_writes(rules[j]);
    let g = |j: int| rule_writes(after[j]);
    lemma_one_piece_changed(f, g, i, n as int, order, n as int);
    lemma_rules_writes_joined(rules, order, n as int);
    lemma_rules_writes_joined(after, order, n as int);
    let head = text_writes(name) + number_writes(c.severity.level()) + flag_writes(c.enabled)
        + number_writes(n);
    let x = rules_writes(rules, order, n as int);
    let y = rules_writes(after, order, n as int);
    if head + x == head + y {
        assert((head + x).skip(head.len() as int) =~= x);
        assert((head + y).skip(head.len() as int) =~= y);
        assert(false);
    }
}

/// Changing a rule changes what the configuration feeds to the hasher: a
/// configuration in which one rule differs in anything but its identifier
/// feeds the hasher differently.
pub proof fn lemma_changed_rule_feeds_differently(c: ConfigView, k: int, i: int, rule: RuleView)
    requires
        0 <= k < c.categories.len(),
        0 <= i < c.categories[k].1.rules.len(),
        rule.id == c.categories[k].1.rules[i].id,
        rule != c.categories[k].1.rules[i],
    ensures
        fingerprint_writes(c) != fingerprint_writes(config_with_rule(c, k, i, rule)),
{
    let cats = c.categories;
    let changed = config_with_rule(c, k, i, rule);
    let after = changed.categories;
    let n = cats.len();
    assert(category_names(after) =~= category_names(cats));
    let order = stable_order(category_names(cats), n);
    lemma_stable_order_once(category_names(cats), n, k);
    lemma_stable_order_len(category_names(cats), n);
    assert(order.take(n as int) =~= order);
    lemma_changed_rule_in_category(cats[k].0, cats[k].1, i, rule);
    let f = |j: int| category_writes(cats[j].0, cats[j].1);
    let g = |j: int| category_writes(after[j].0, after[j].1);
    lemma_one_piece_changed(f, g, k, n as int, order, n as int);
    lemma_categories_writes_joined(cats, order, n as int);
    lemma_categories_writes_joined(after, order, n as int);
    let head = text_writes(c.version) + number_writes(c.path_patterns.len()) + texts_writes(
        c.path_patterns,
        c.path_patterns.len() as int,
    ) + optional_writes(c.ignore_file) + number_writes(n);
    let x = categories_writes(cats, order, n as int);
    let y = categories_writes(after, order, n as int);
    if head + x == head + y {
        assert((head + x).skip(head.len() as int) =~= x);
        assert((head + y).skip(head.len() as int) =~= y);
        assert(false);
    }
}

// ---------------------------------------------------------------------------
// The order of categories and rules does not count
// ---------------------------------------------------------------------------

/// Rules in another arrangement: at each place the rule of the position that
/// the permutation names.
pub open spec fn rearranged_rules(rules: Seq<RuleView>, perm: Seq<int>) -> Seq<RuleView> {
    Seq::new(perm.len(), |p: int| rules[perm[p]])
}

/// No two rules of the list have the same identifier.
pub open spec fn distinct_rule_ids(rules: Seq<RuleView>) -> bool {
    forall|i: int, j: int| 0 <= i < j < rules.len() ==> (#[trigger] rules[i]).id != (#[trigger] rules[j]).id
}

/// Whether `b` is the category `a` with its rules in another arrangement.
pub open spec fn is_rearranged_category(a: CategoryView, b: CategoryView) -> bool {
    &&& a.severity == b.severity
    &&& a.enabled == b.enabled
    &&& exists|perm: Seq<int>|
        is_permutation(perm, a.rules.len() as int) && #[trigger] rearranged_rules(a.rules, perm)
            == b.rules
}

/// Whether the categories `b` are the categories `a` in the arrangement that
/// the permutation names, each with its rules in any arrangement.
pub open spec fn categories_match(
    a: Seq<(Seq<char>, CategoryView)>,
    b: Seq<(Seq<char>, CategoryView)>,
    perm: Seq<int>,
) -> bool {
    &&& b.len() == perm.len()
    &&& forall|p: int|
        0 <= p < perm.len() ==> (#[trigger] b[p]).0 == a[perm[p]].0 && is_rearranged_category(
            a[perm[p]].1,
            b[p].1,
        )
}

/// Whether two configurations say the same but for the order of their
/// categories and of the rules in each category.
pub open spec fn is_rearranged_config(a: ConfigView, b: ConfigView) -> bool {
    &&& a.version == b.version
    &&& a.path_patterns == b.path_patterns
    &&& a.ignore_file == b.ignore_file
    &&& exists|perm: Seq<int>|
        is_permutation(perm, a.categories.len() as int) && #[trigger] categories_match(
            a.categories,
            b.categories,
            perm,
        )
}

proof fn lemma_same_pieces(
    f: spec_fn(int) -> Seq<Seq<u8>>,
    a: Seq<int>,
    g: spec_fn(int) -> Seq<Seq<u8>>,
    b: Seq<int>,
    n: int,
)
    requires
        forall|k: int| 0 <= k < n ==> f(#[trigger] a[k]) == g(b[k]),
    ensures
        joined_pieces(f, a, n) == joined_pieces(g, b, n),
    decreases n,
{
    if n > 0 {
        lemma_same_pieces(f, a, g, b, n - 1);
        assert(f(a[n - 1]) == g(b[n - 1]));
    }
}

proof fn lemma_category_writes_rearranged(name: Seq<char>, a: CategoryView, b: CategoryView)
    requires
        is_rearranged_category(a, b),
        distinct_rule_ids(a.rules),
    ensures
        category_writes(name, a) == category_writes(name, b),
{
    let perm = choose|perm: Seq<int>|
        is_permutation(perm, a.rules.len() as int) && #[trigger] rearranged_rules(a.rules, perm)
            == b.rules;
    let n = a.rules.len();
    let keys = rule_ids(a.rules);
    assert(rule_ids(b.rules) =~= rearranged_keys(keys, perm));
    assert(distinct_keys(keys, n as int));
    lemma_stable_order_of_rearranged(keys, perm, n);
    let first = stable_order(keys, n);
    let second = stable_order(rule_ids(b.rules), n);
    lemma_stable_order_is_permutation(rule_ids(b.rules), n);
    let f = |j: int| rule_writes(a.rules[j]);
    let g = |j: int| rule_writes(b.rules[j]);
    assert forall|k: int| 0 <= k < n implies f(#[trigger] first[k]) == g(second[k]) by {
        assert(first[k] == perm[second[k]]);
        assert(b.rules[second[k]] == a.rules[perm[second[k]]]);
    }
    lemma_same_pieces(f, first, g, second, n as int);
    lemma_rules_writes_joined(a.rules, first, n as int);
    lemma_rules_writes_joined(b.rules, second, n as int);
}

/// The order of categories and of rules does not count: two configurations
/// that say the same but for that order feed the hasher alike and have the
/// same fingerprint. No name may stand for two categories, and no identifier
/// for two rules of a category.
pub proof fn lemma_fingerprint_ignores_order(a: ConfigView, b: ConfigView)
    requires
        is_rearranged_config(a, b),
        crate::config::names_are_distinct(a.categories),
        forall|k: int|
            0 <= k < a.categories.len() ==> distinct_rule_ids((#[trigger] a.categories[k]).1.rules),
    ensures
        fingerprint_writes(a) == fingerprint_writes(b),
        fingerprint_of(a) == fingerprint_of(b),
{
    let perm = choose|perm: Seq<int>|
        is_permutation(perm, a.categories.len() as int) && #[trigger] categories_match(
            a.categories,
            b.categories,
            perm,
        );
    let n = a.categories.len();
    let keys = category_names(a.categories);
    assert(category_names(b.categories) =~= rearranged_keys(keys, perm));
    assert(distinct_keys(keys, n as int));
    lemma_stable_order_of_rearranged(keys, perm, n);
    let first = stable_order(keys, n);
    let second = stable_order(category_names(b.categories), n);
    lemma_stable_order_is_permutation(category_names(b.categories), n);
    let f = |j: int| category_writes(a.categories[j].0, a.categories[j].1);
    let g = |j: int| category_writes(b.categories[j].0, b.categories[j].1);
    assert forall|k: int| 0 <= k < n implies f(#[trigger] first[k]) == g(second[k]) by {
        let p = second[k];
        assert(first[k] == perm[p]);
        assert(b.categories[p].0 == a.categories[perm[p]].0);
        lemma_category_writes_rearranged(
            a.categories[perm[p]].0,
            a.categories[perm[p]].1,
            b.categories[p].1,
        );
    }
    lemma_same_pieces(f, first, g, second, n as int);
    lemma_categories_writes_joined(a.categories, first, n as int);
    lemma_categories_writes_joined(b.categories, second, n as int);
}

impl GuardianConfig {
    /// The fingerprint of the configuration, used to tell whether cached results
    /// were made under the same rules. Configurations that say the same have the
    /// same fingerprint.
    pub fn fingerprint(&self) -> (s: String)
        ensures
            s@ == fingerprint_of(self@),
    {
        let ghost c = self@;
        let mut h = DefaultHasher::new();
        hash_text(&mut h, self.version.as_str());
        hash_number(&mut h, self.paths.patterns.len() as u64);
        let ghost head = h@;
        let mut i: usize = 0;
        assert(h@ + texts_writes(c.path_patterns, 0) =~= h@);
        while i < self.paths.patterns.len()
            invariant
                i <= self.paths.patterns.len(),
                c == self@,
                h@ == head + texts_writes(c.path_patterns, i as int),
            decreases self.paths.patterns.len() - i,
        {
            assert(c.path_patterns[i as int] == self.paths.patterns@[i as int]@);
            hash_text(&mut h, self.paths.patterns[i].as_str());
            i += 1;
            assert(h@ =~= head + texts_writes(c.path_patterns, i as int));
        }
        let ghost with_paths = h@;
        match &self.paths.ignore_file {
            Some(name) => {
                hash_number(&mut h, 1);
                hash_text(&mut h, name.as_str());
            },
            None => {
                hash_number(&mut h, 0);
            },
        }
        assert(h@ =~= with_paths + optional_writes(c.ignore_file));
        hash_number(&mut h, self.patterns.len() as u64);
        let ghost with_file = h@;
        let mut keys: Vec<Vec<char>> = Vec::new();
        let mut n: usize = 0;
        while n < self.patterns.len()
            invariant
                n <= self.patterns.len(),
                c == self@,
                texts(keys@) == category_names(c.categories).take(n as int),
            decreases self.patterns.len() - n,
        {
            let key = chars_of(self.patterns[n].name.as_str());
            assert(category_names(c.categories)[n as int] == c.categories[n as int].0);
            assert(c.categories[n as int].0 == self.patterns@[n as int].name@);
            assert(texts(keys@.push(key)) =~= texts(keys@).push(key@));
            assert(category_names(c.categories).take(n + 1) =~= category_names(c.categories).take(
                n as int,
            ).push(key@));
            keys.push(key);
            n += 1;
        }
        assert(texts(keys@) =~= category_names(c.categories));
        let order = order_by_key(&keys);
        let ghost spec_order = stable_order(category_names(c.categories), c.categories.len());
        let mut k: usize = 0;
        assert(h@ + categories_writes(c.categories, spec_order, 0) =~= h@);
        while k < order.len()
            invariant
                k <= order.len(),
                c == self@,
                order@.len() == self.patterns@.len(),
                indices(order@) == spec_order,
                forall|j: int| 0 <= j < order@.len() ==> #[trigger] order@[j] < self.patterns@.len(),
                h@ == with_file + categories_writes(c.categories, spec_order, k as int),
            decreases order.len() - k,
        {
            let ghost before = h@;
            let at: usize = order[k];
            assert(spec_order[k as int] == at);
            let entry = &self.patterns[at];
            assert(c.categories[at as int] == (entry.name@, entry.category@));
            hash_text(&mut h, entry.name.as_str());
            hash_number(&mut h, entry.category.severity.rank() as u64);
            hash_flag(&mut h, entry.category.enabled);
            hash_number(&mut h, entry.category.rules.len() as u64);
            hash_rules(&mut h, &entry.category.rules);
            assert(h@ =~= before + category_writes(entry.name@, entry.category@));
            k += 1;
            assert(h@ =~= with_file + categories_writes(c.categories, spec_order, k as int));
        }
        assert(h@ =~= fingerprint_writes(c));
        let digest = h.finish();
        let text = hex_text(digest);
        string_of(text.as_slice())
    }
}

} // verus!
